//! Text as a sequence of characters: trimming, cutting, decimal numerals.

use vstd::prelude::*;

verus! {

// ---------------------------------------------------------------------------
// The model
// ---------------------------------------------------------------------------

/// The characters with Unicode's `White_Space` property.
pub open spec fn is_white(c: char) -> bool {
    ||| '\u{9}' <= c <= '\u{d}'
    ||| c == ' '
    ||| c == '\u{85}'
    ||| c == '\u{a0}'
    ||| c == '\u{1680}'
    ||| '\u{2000}' <= c <= '\u{200a}'
    ||| c == '\u{2028}'
    ||| c == '\u{2029}'
    ||| c == '\u{202f}'
    ||| c == '\u{205f}'
    ||| c == '\u{3000}'
}

pub open spec fn is_sign(c: char) -> bool {
    c == '-' || c == '+'
}

pub open spec fn is_slash(c: char) -> bool {
    c == '/'
}

pub open spec fn is_digit(c: char) -> bool {
    '0' <= c <= '9'
}

/// `s` without its longest prefix of characters in `p`.
pub open spec fn drop_while(s: Seq<char>, p: spec_fn(char) -> bool) -> Seq<char>
    decreases s.len(),
{
    if s.len() > 0 && p(s[0]) {
        drop_while(s.skip(1), p)
    } else {
        s
    }
}

/// `s` without its longest suffix of characters in `p`.
pub open spec fn drop_last_while(s: Seq<char>, p: spec_fn(char) -> bool) -> Seq<char>
    decreases s.len(),
{
    if s.len() > 0 && p(s.last()) {
        drop_last_while(s.drop_last(), p)
    } else {
        s
    }
}

/// `s` without white space at either end.
pub open spec fn trimmed(s: Seq<char>) -> Seq<char> {
    drop_last_while(drop_while(s, |c: char| is_white(c)), |c: char| is_white(c))
}

/// The place of the first `c` in `s`, or the length of `s` where there is none.
pub open spec fn find(s: Seq<char>, c: char) -> int
    decreases s.len(),
{
    if s.len() == 0 || s[0] == c {
        0
    } else {
        1 + find(s.skip(1), c)
    }
}

/// What stands before the first `c`: all of `s` where there is none.
pub open spec fn before(s: Seq<char>, c: char) -> Seq<char> {
    s.take(find(s, c))
}

/// What stands after the first `c`: nothing where there is none.
pub open spec fn after(s: Seq<char>, c: char) -> Seq<char> {
    if find(s, c) < s.len() {
        s.skip(find(s, c) + 1)
    } else {
        Seq::empty()
    }
}

pub open spec fn starts_with(s: Seq<char>, prefix: Seq<char>) -> bool {
    prefix.len() <= s.len() && s.take(prefix.len() as int) == prefix
}

pub open spec fn digit_value(c: char) -> int {
    c as int - '0' as int
}

pub open spec fn digit_char(d: int) -> char {
    (d + '0' as int) as char
}

pub open spec fn all_digits(s: Seq<char>) -> bool {
    forall|i: int| 0 <= i < s.len() ==> is_digit(#[trigger] s[i])
}

/// The number that a row of digits denotes in base ten.
pub open spec fn digits_value(s: Seq<char>) -> int
    decreases s.len(),
{
    if s.len() == 0 {
        0
    } else {
        digits_value(s.drop_last()) * 10 + digit_value(s.last())
    }
}

/// A number in base ten, without leading zeros.
pub open spec fn numeral(n: nat) -> Seq<char>
    decreases n,
{
    if n < 10 {
        seq![digit_char(n as int)]
    } else {
        numeral(n / 10).push(digit_char((n % 10) as int))
    }
}

/// An integer in base ten, with a minus sign where it is negative.
pub open spec fn signed_numeral(n: int) -> Seq<char> {
    if n < 0 {
        seq!['-'] + numeral((-n) as nat)
    } else {
        numeral(n as nat)
    }
}

/// `s` without the sign in front, where it has one. A second sign stays.
pub open spec fn unsigned(s: Seq<char>) -> Seq<char> {
    if s.len() > 0 && is_sign(s[0]) {
        s.skip(1)
    } else {
        s
    }
}

/// The integer that `s` denotes, where `s` is at most one sign and then at least one digit,
/// and the integer is an `i64`.
pub open spec fn parsed_i64(s: Seq<char>) -> Option<i64> {
    let digits = unsigned(s);
    let n = if s.len() > 0 && s[0] == '-' {
        -digits_value(digits)
    } else {
        digits_value(digits)
    };
    if digits.len() > 0 && all_digits(digits) && i64::MIN <= n <= i64::MAX {
        Some(n as i64)
    } else {
        None
    }
}

// ---------------------------------------------------------------------------
// Facts about the model
// ---------------------------------------------------------------------------

pub proof fn lemma_find(s: Seq<char>, c: char)
    ensures
        0 <= find(s, c) <= s.len(),
        find(s, c) < s.len() ==> s[find(s, c)] == c,
        forall|i: int| 0 <= i < find(s, c) ==> s[i] != c,
    decreases s.len(),
{
    if s.len() > 0 && s[0] != c {
        lemma_find(s.skip(1), c);
        assert forall|i: int| 0 <= i < find(s, c) implies s[i] != c by {
            if i > 0 {
                assert(s[i] == s.skip(1)[i - 1]);
            }
        }
    }
}

pub proof fn lemma_find_is(s: Seq<char>, c: char, at: int)
    requires
        0 <= at <= s.len(),
        at < s.len() ==> s[at] == c,
        forall|i: int| 0 <= i < at ==> s[i] != c,
    ensures
        find(s, c) == at,
{
    lemma_find(s, c);
    if find(s, c) < at {
        assert(s[find(s, c)] != c);
    }
}

pub proof fn lemma_drop_while(s: Seq<char>, p: spec_fn(char) -> bool, k: int)
    requires
        0 <= k <= s.len(),
        forall|i: int| 0 <= i < k ==> p(#[trigger] s[i]),
    ensures
        drop_while(s, p) == drop_while(s.skip(k), p),
    decreases k,
{
    if k > 0 {
        assert forall|i: int| 0 <= i < k - 1 implies p(#[trigger] s.skip(1)[i]) by {
            assert(s.skip(1)[i] == s[i + 1]);
        }
        lemma_drop_while(s.skip(1), p, k - 1);
        assert(s.skip(1).skip(k - 1) =~= s.skip(k));
        assert(p(s[0]));
    } else {
        assert(s.skip(0) =~= s);
    }
}

pub proof fn lemma_drop_last_while(s: Seq<char>, p: spec_fn(char) -> bool, k: int)
    requires
        0 <= k <= s.len(),
        forall|i: int| k <= i < s.len() ==> p(#[trigger] s[i]),
    ensures
        drop_last_while(s, p) == drop_last_while(s.take(k), p),
    decreases s.len() - k,
{
    if k < s.len() {
        assert forall|i: int| k <= i < s.len() - 1 implies p(#[trigger] s.drop_last()[i]) by {
            assert(s.drop_last()[i] == s[i]);
        }
        lemma_drop_last_while(s.drop_last(), p, k);
        assert(s.drop_last().take(k) =~= s.take(k));
        assert(p(s[s.len() - 1]));
    } else {
        assert(s.take(k) =~= s);
    }
}

/// What is left of `s` is a stretch of it that starts with no character in `p`.
pub proof fn lemma_drop_while_is_suffix(s: Seq<char>, p: spec_fn(char) -> bool) -> (k: int)
    ensures
        0 <= k <= s.len(),
        drop_while(s, p) == s.skip(k),
        k < s.len() ==> !p(s[k]),
        forall|i: int| 0 <= i < k ==> p(#[trigger] s[i]),
    decreases s.len(),
{
    if s.len() > 0 && p(s[0]) {
        let k = lemma_drop_while_is_suffix(s.skip(1), p);
        assert forall|i: int| 0 <= i < k + 1 implies p(#[trigger] s[i]) by {
            if i > 0 {
                assert(s[i] == s.skip(1)[i - 1]);
            }
        }
        assert(s.skip(1).skip(k) =~= s.skip(k + 1));
        k + 1
    } else {
        assert(s.skip(0) =~= s);
        0
    }
}

pub proof fn lemma_drop_last_while_is_prefix(s: Seq<char>, p: spec_fn(char) -> bool) -> (k: int)
    ensures
        0 <= k <= s.len(),
        drop_last_while(s, p) == s.take(k),
        k > 0 ==> !p(s[k - 1]),
    decreases s.len(),
{
    if s.len() > 0 && p(s.last()) {
        let k = lemma_drop_last_while_is_prefix(s.drop_last(), p);
        assert(s.drop_last().take(k) =~= s.take(k));
        k
    } else {
        assert(s.take(s.len() as int) =~= s);
        s.len() as int
    }
}

/// Trimming a second time changes nothing.
pub proof fn lemma_trimmed_twice(s: Seq<char>)
    ensures
        trimmed(trimmed(s)) == trimmed(s),
{
    let p = |c: char| is_white(c);
    let lo = lemma_drop_while_is_suffix(s, p);
    let tail = s.skip(lo);
    let hi = lemma_drop_last_while_is_prefix(tail, p);
    let t = tail.take(hi);
    if hi > 0 {
        assert(t[0] == s[lo]);
        assert(t.last() == tail[hi - 1]);
    }
}

/// A text with no white space at its ends is its own trimming.
pub proof fn lemma_trimmed_is(s: Seq<char>)
    requires
        s.len() > 0 ==> !is_white(s[0]) && !is_white(s.last()),
    ensures
        trimmed(s) == s,
{
}

pub proof fn lemma_digits_value_bounds(s: Seq<char>)
    requires
        all_digits(s),
    ensures
        0 <= digits_value(s),
    decreases s.len(),
{
    if s.len() > 0 {
        assert forall|i: int| 0 <= i < s.drop_last().len() implies is_digit(
            #[trigger] s.drop_last()[i],
        ) by {
            assert(s.drop_last()[i] == s[i]);
        }
        lemma_digits_value_bounds(s.drop_last());
        assert(is_digit(s[s.len() - 1]));
    }
}

/// A row of digits denotes no less than any of its prefixes.
pub proof fn lemma_digits_value_grows(s: Seq<char>, k: int)
    requires
        all_digits(s),
        0 <= k <= s.len(),
    ensures
        digits_value(s.take(k)) <= digits_value(s),
    decreases s.len() - k,
{
    if k < s.len() {
        let longer = s.take(k + 1);
        assert(longer.drop_last() =~= s.take(k));
        assert(longer.last() == s[k]);
        assert forall|i: int| 0 <= i < k implies is_digit(#[trigger] s.take(k)[i]) by {
            assert(s.take(k)[i] == s[i]);
        }
        lemma_digits_value_bounds(s.take(k));
        lemma_digits_value_grows(s, k + 1);
    } else {
        assert(s.take(k) =~= s);
    }
}

/// A numeral is a nonempty row of digits, and it denotes the number it was made from.
pub proof fn lemma_numeral(n: nat)
    ensures
        numeral(n).len() > 0,
        all_digits(numeral(n)),
        digits_value(numeral(n)) == n,
    decreases n,
{
    let s = numeral(n);
    if n < 10 {
        assert(s.drop_last() =~= Seq::<char>::empty());
        assert(digits_value(s.drop_last()) == 0);
    } else {
        lemma_numeral(n / 10);
        let d = digit_char((n % 10) as int);
        assert(s.drop_last() =~= numeral(n / 10));
        assert(s.last() == d);
        assert forall|i: int| 0 <= i < s.len() implies is_digit(#[trigger] s[i]) by {
            if i < s.len() - 1 {
                assert(s[i] == numeral(n / 10)[i]);
            }
        }
    }
}

// ---------------------------------------------------------------------------
// Reading
// ---------------------------------------------------------------------------

/// The characters of `s`, in order.
pub fn chars_of(s: &str) -> (chars: Vec<char>)
    ensures
        chars@ == s@,
{
    let mut chars: Vec<char> = Vec::new();
    for c in it: s.chars()
        invariant
            it.seq() == s@,
            chars@ == s@.take(it.index() as int),
    {
        chars.push(c);
    }
    chars
}

pub fn same_text(a: &str, b: &str) -> (same: bool)
    ensures
        same == (a@ == b@),
{
    let x = chars_of(a);
    let y = chars_of(b);
    if x.len() != y.len() {
        return false;
    }
    let mut i: usize = 0;
    while i < x.len()
        invariant
            i <= x.len() == y.len(),
            x@ == a@,
            y@ == b@,
            forall|j: int| 0 <= j < i ==> x@[j] == y@[j],
        decreases x.len() - i,
    {
        if x[i] != y[i] {
            return false;
        }
        i += 1;
    }
    assert(a@ =~= b@);
    true
}

/// Whether `s` starts with `prefix`.
pub fn has_prefix(s: &str, prefix: &str) -> (has: bool)
    ensures
        has == starts_with(s@, prefix@),
{
    let x = chars_of(s);
    let y = chars_of(prefix);
    if x.len() < y.len() {
        return false;
    }
    let mut i: usize = 0;
    while i < y.len()
        invariant
            i <= y.len() <= x.len(),
            x@ == s@,
            y@ == prefix@,
            forall|j: int| 0 <= j < i ==> x@[j] == y@[j],
        decreases y.len() - i,
    {
        if x[i] != y[i] {
            assert(s@.take(prefix@.len() as int)[i as int] == x@[i as int]);
            return false;
        }
        i += 1;
    }
    assert(s@.take(prefix@.len() as int) =~= prefix@);
    true
}

pub fn white(c: char) -> (is: bool)
    ensures
        is == is_white(c),
{
    ('\u{9}' <= c && c <= '\u{d}') || c == ' ' || c == '\u{85}' || c == '\u{a0}' || c == '\u{1680}'
        || ('\u{2000}' <= c && c <= '\u{200a}') || c == '\u{2028}' || c == '\u{2029}' || c
        == '\u{202f}' || c == '\u{205f}' || c == '\u{3000}'
}

/// The bounds of what trimming leaves of `chars`.
pub fn trim_bounds(chars: &Vec<char>) -> (bounds: (usize, usize))
    ensures
        bounds.0 <= bounds.1 <= chars@.len(),
        chars@.subrange(bounds.0 as int, bounds.1 as int) == trimmed(chars@),
{
    let ghost p = |c: char| is_white(c);
    let mut lo: usize = 0;
    while lo < chars.len() && white(chars[lo])
        invariant
            lo <= chars.len(),
            forall|i: int| 0 <= i < lo ==> is_white(#[trigger] chars@[i]),
        decreases chars.len() - lo,
    {
        lo += 1;
    }
    let ghost tail = chars@.skip(lo as int);
    proof {
        assert forall|i: int| 0 <= i < lo implies p(#[trigger] chars@[i]) by {}
        lemma_drop_while(chars@, p, lo as int);
        if lo < chars.len() {
            assert(tail[0] == chars@[lo as int]);
        }
        assert(drop_while(chars@, p) == tail);
    }
    let mut hi: usize = chars.len();
    while hi > lo && white(chars[hi - 1])
        invariant
            lo <= hi <= chars.len(),
            forall|i: int| hi <= i < chars@.len() ==> is_white(#[trigger] chars@[i]),
        decreases hi,
    {
        hi -= 1;
    }
    proof {
        let k = hi - lo;
        assert forall|i: int| k <= i < tail.len() implies p(#[trigger] tail[i]) by {
            assert(tail[i] == chars@[i + lo]);
        }
        lemma_drop_last_while(tail, p, k);
        if k > 0 {
            assert(tail.take(k).last() == chars@[hi - 1]);
        }
        assert(tail.take(k) =~= chars@.subrange(lo as int, hi as int));
        assert(drop_last_while(tail, p) == tail.take(k));
    }
    (lo, hi)
}

/// Where `chars[lo..hi]` goes on behind its sign, if it has one.
pub fn skip_sign(chars: &Vec<char>, lo: usize, hi: usize) -> (at: usize)
    requires
        lo <= hi <= chars@.len(),
    ensures
        lo <= at <= hi,
        chars@.subrange(at as int, hi as int) == unsigned(chars@.subrange(lo as int, hi as int)),
{
    let ghost s = chars@.subrange(lo as int, hi as int);
    if lo < hi && (chars[lo] == '-' || chars[lo] == '+') {
        assert(s[0] == chars@[lo as int]);
        assert(s.skip(1) =~= chars@.subrange(lo + 1, hi as int));
        lo + 1
    } else {
        assert(lo < hi ==> s[0] == chars@[lo as int]);
        lo
    }
}

/// Whether there are only digits in `chars[lo..hi]`.
pub fn only_digits(chars: &Vec<char>, lo: usize, hi: usize) -> (only: bool)
    requires
        lo <= hi <= chars@.len(),
    ensures
        only == all_digits(chars@.subrange(lo as int, hi as int)),
{
    let ghost s = chars@.subrange(lo as int, hi as int);
    let mut at: usize = lo;
    while at < hi
        invariant
            lo <= at <= hi <= chars@.len(),
            s == chars@.subrange(lo as int, hi as int),
            forall|i: int| 0 <= i < at - lo ==> is_digit(#[trigger] s[i]),
        decreases hi - at,
    {
        assert(s[at - lo] == chars@[at as int]);
        if digit(chars[at]).is_none() {
            return false;
        }
        at += 1;
    }
    true
}

/// Where the slashes at the end of `chars` start.
pub fn trailing_slashes(chars: &Vec<char>) -> (at: usize)
    ensures
        at <= chars@.len(),
        chars@.take(at as int) == drop_last_while(chars@, |c: char| is_slash(c)),
{
    let ghost p = |c: char| is_slash(c);
    let mut at: usize = chars.len();
    while at > 0 && chars[at - 1] == '/'
        invariant
            at <= chars@.len(),
            forall|i: int| at <= i < chars@.len() ==> is_slash(#[trigger] chars@[i]),
        decreases at,
    {
        at -= 1;
    }
    proof {
        assert forall|i: int| at <= i < chars@.len() implies p(#[trigger] chars@[i]) by {}
        lemma_drop_last_while(chars@, p, at as int);
        if at > 0 {
            assert(chars@.take(at as int).last() == chars@[at - 1]);
        }
    }
    at
}

/// The place of the first `c` in `chars[lo..hi]`, or `hi` where there is none.
pub fn find_char(chars: &Vec<char>, lo: usize, hi: usize, c: char) -> (at: usize)
    requires
        lo <= hi <= chars@.len(),
    ensures
        lo <= at <= hi,
        at == lo + find(chars@.subrange(lo as int, hi as int), c),
{
    let mut at: usize = lo;
    while at < hi && chars[at] != c
        invariant
            lo <= at <= hi <= chars@.len(),
            forall|i: int| lo <= i < at ==> chars@[i] != c,
        decreases hi - at,
    {
        at += 1;
    }
    proof {
        let s = chars@.subrange(lo as int, hi as int);
        assert forall|i: int| 0 <= i < at - lo implies s[i] != c by {
            assert(s[i] == chars@[i + lo]);
        }
        lemma_find_is(s, c, at - lo);
    }
    at
}

/// The value of `c` as a decimal digit.
pub fn digit(c: char) -> (d: Option<u8>)
    ensures
        d == (if is_digit(c) {
            Some(digit_value(c) as u8)
        } else {
            None
        }),
{
    if '0' <= c && c <= '9' {
        Some((c as u32 - '0' as u32) as u8)
    } else {
        None
    }
}

/// What the digits in `chars[lo..hi]` denote, where there are only digits, at least one of
/// them, and the number is at most `limit`.
pub fn read_digits(chars: &Vec<char>, lo: usize, hi: usize, limit: u64) -> (n: Option<u64>)
    requires
        lo <= hi <= chars@.len(),
    ensures
        ({
            let s = chars@.subrange(lo as int, hi as int);
            n == (if s.len() > 0 && all_digits(s) && digits_value(s) <= limit {
                Some(digits_value(s) as u64)
            } else {
                None
            })
        }),
{
    let ghost s = chars@.subrange(lo as int, hi as int);
    if lo == hi {
        return None;
    }
    let mut n: u64 = 0;
    let mut at: usize = lo;
    assert(s.take(0) =~= Seq::<char>::empty());
    while at < hi
        invariant
            lo <= at <= hi <= chars@.len(),
            lo < hi,
            s == chars@.subrange(lo as int, hi as int),
            all_digits(s.take(at - lo)),
            n == digits_value(s.take(at - lo)),
            n <= limit,
        decreases hi - at,
    {
        let ghost k = at - lo;
        assert(s[k] == chars@[at as int]);
        let d: u8 = match digit(chars[at]) {
            Some(d) => d,
            None => {
                assert(!is_digit(s[k]));
                return None;
            },
        };
        let wide: u128 = n as u128 * 10 + d as u128;
        proof {
            assert(s.take(k + 1).drop_last() =~= s.take(k));
            assert(s.take(k + 1).last() == s[k]);
            assert(wide == digits_value(s.take(k + 1)));
            assert forall|i: int| 0 <= i < k + 1 implies is_digit(#[trigger] s.take(k + 1)[i]) by {
                if i < k {
                    assert(s.take(k + 1)[i] == s.take(k)[i]);
                }
            }
        }
        if wide > limit as u128 {
            proof {
                if all_digits(s) {
                    lemma_digits_value_grows(s, k + 1);
                }
            }
            return None;
        }
        n = wide as u64;
        at += 1;
    }
    assert(s.take(s.len() as int) =~= s);
    Some(n)
}

/// The integer that `chars[lo..hi]` denotes.
pub fn read_i64(chars: &Vec<char>, lo: usize, hi: usize) -> (n: Option<i64>)
    requires
        lo <= hi <= chars@.len(),
    ensures
        n == parsed_i64(chars@.subrange(lo as int, hi as int)),
{
    let ghost s = chars@.subrange(lo as int, hi as int);
    let signed = lo < hi && (chars[lo] == '-' || chars[lo] == '+');
    proof {
        if lo < hi {
            assert(s[0] == chars@[lo as int]);
        }
    }
    if !signed {
        proof {
            if all_digits(s) {
                lemma_digits_value_bounds(s);
            }
        }
        return match read_digits(chars, lo, hi, 0x7fff_ffff_ffff_ffff) {
            Some(n) => Some(n as i64),
            None => None,
        };
    }
    let ghost digits = s.skip(1);
    proof {
        assert(chars@.subrange(lo + 1, hi as int) =~= digits);
        if all_digits(digits) {
            lemma_digits_value_bounds(digits);
        }
    }
    if chars[lo] == '-' {
        match read_digits(chars, lo + 1, hi, 0x8000_0000_0000_0000) {
            Some(n) => {
                let wide: i128 = -(n as i128);
                Some(wide as i64)
            },
            None => None,
        }
    } else {
        match read_digits(chars, lo + 1, hi, 0x7fff_ffff_ffff_ffff) {
            Some(n) => Some(n as i64),
            None => None,
        }
    }
}

// ---------------------------------------------------------------------------
// Writing
// ---------------------------------------------------------------------------

fn digit_text(d: u64) -> (text: &'static str)
    requires
        d < 10,
    ensures
        text@ == seq![digit_char(d as int)],
{
    proof {
        reveal_strlit("0");
        reveal_strlit("1");
        reveal_strlit("2");
        reveal_strlit("3");
        reveal_strlit("4");
        reveal_strlit("5");
        reveal_strlit("6");
        reveal_strlit("7");
        reveal_strlit("8");
        reveal_strlit("9");
    }
    if d == 0 {
        "0"
    } else if d == 1 {
        "1"
    } else if d == 2 {
        "2"
    } else if d == 3 {
        "3"
    } else if d == 4 {
        "4"
    } else if d == 5 {
        "5"
    } else if d == 6 {
        "6"
    } else if d == 7 {
        "7"
    } else if d == 8 {
        "8"
    } else {
        "9"
    }
}

/// Writes `n` in base ten behind `out`.
pub fn push_numeral(out: &mut String, n: u64)
    ensures
        final(out)@ == old(out)@ + numeral(n as nat),
    decreases n,
{
    if n >= 10 {
        push_numeral(out, n / 10);
    }
    out.append(digit_text(n % 10));
    assert(out@ =~= old(out)@ + numeral(n as nat));
}

/// Writes `n` in base ten behind `out`, with a minus sign where it is negative.
pub fn push_signed(out: &mut String, n: i64)
    ensures
        final(out)@ == old(out)@ + signed_numeral(n as int),
{
    if n < 0 {
        proof {
            reveal_strlit("-");
        }
        out.append("-");
        let wide: i128 = -(n as i128);
        push_numeral(out, wide as u64);
        assert(out@ =~= old(out)@ + signed_numeral(n as int));
    } else {
        push_numeral(out, n as u64);
    }
}

// ---------------------------------------------------------------------------
// Laws
// ---------------------------------------------------------------------------

/// The kinds of characters, and the digits and their values.
pub proof fn law_characters(c: char)
    ensures
        is_white(c) <==> c == ' ' || '\u{9}' <= c <= '\u{d}' || c == '\u{85}' || c == '\u{a0}' || c
            == '\u{1680}' || '\u{2000}' <= c <= '\u{200a}' || c == '\u{2028}' || c == '\u{2029}'
                || c
            == '\u{202f}' || c == '\u{205f}' || c == '\u{3000}',
        is_sign(c) <==> c == '+' || c == '-',
        is_slash(c) <==> c == '/',
        is_digit(c) <==> '0' <= c && c <= '9',
        digit_value('0') == 0,
        digit_value('9') == 9,
        is_digit(c) ==> 0 <= digit_value(c) <= 9 && digit_char(digit_value(c)) == c,
        is_digit(c) && c != '9' ==> digit_value((c as u32 + 1) as char) == digit_value(c) + 1,
{
}

/// Trimming takes off the white space at both ends and nothing else.
pub proof fn law_trimming_leaves_the_core(front: Seq<char>, core: Seq<char>, back: Seq<char>)
    requires
        forall|i: int| 0 <= i < front.len() ==> is_white(#[trigger] front[i]),
        forall|i: int| 0 <= i < back.len() ==> is_white(#[trigger] back[i]),
        core.len() > 0 ==> !is_white(core[0]) && !is_white(core.last()),
    ensures
        trimmed(front + core + back) == core,
{
    let p = |c: char| is_white(c);
    let s = front + core + back;
    if core.len() == 0 {
        let k = s.len() as int;
        assert forall|i: int| 0 <= i < k implies p(#[trigger] s[i]) by {
            if i < front.len() {
                assert(s[i] == front[i]);
            } else {
                assert(s[i] == back[i - front.len()]);
            }
        }
        lemma_drop_while(s, p, k);
        assert(s.skip(k) =~= Seq::<char>::empty());
        assert(core =~= Seq::<char>::empty());
    } else {
        let k = front.len() as int;
        assert forall|i: int| 0 <= i < k implies p(#[trigger] s[i]) by {
            assert(s[i] == front[i]);
        }
        lemma_drop_while(s, p, k);
        let rest = s.skip(k);
        assert(rest[0] == core[0]);
        assert(drop_while(s, p) == rest);
        let n = core.len() as int;
        assert forall|i: int| n <= i < rest.len() implies p(#[trigger] rest[i]) by {
            assert(rest[i] == back[i - n]);
        }
        lemma_drop_last_while(rest, p, n);
        assert(rest.take(n) =~= core);
    }
}

/// A text is cut at the first place where a character stands.
pub proof fn law_text_is_cut_at_the_first(front: Seq<char>, c: char, back: Seq<char>)
    requires
        !front.contains(c),
    ensures
        before(front, c) == front,
        after(front, c) == Seq::<char>::empty(),
        before(front + seq![c] + back, c) == front,
        after(front + seq![c] + back, c) == back,
{
    let s = front + seq![c] + back;
    assert forall|i: int| 0 <= i < front.len() implies s[i] != c by {
        assert(s[i] == front[i]);
    }
    assert(s[front.len() as int] == c);
    lemma_find_is(s, c, front.len() as int);
    lemma_find_is(front, c, front.len() as int);
    assert(before(front, c) =~= front);
    assert(before(s, c) =~= front);
    assert(after(s, c) =~= back);
}

/// A text starts with another where it is that and something behind it.
pub proof fn law_prefix(prefix: Seq<char>, rest: Seq<char>, s: Seq<char>)
    ensures
        starts_with(prefix + rest, prefix),
        starts_with(s, prefix) ==> s == prefix + s.skip(prefix.len() as int),
{
    assert((prefix + rest).take(prefix.len() as int) =~= prefix);
    if starts_with(s, prefix) {
        assert(s =~= s.take(prefix.len() as int) + s.skip(prefix.len() as int));
    }
}

/// A row of digits is worth ten times what it is worth without its last digit, and that digit.
pub proof fn law_place_value(digits: Seq<char>, c: char)
    ensures
        digits_value(Seq::<char>::empty()) == 0,
        digits_value(digits.push(c)) == 10 * digits_value(digits) + (c as int - '0' as int),
        all_digits(digits) <==> forall|i: int|
            0 <= i < digits.len() ==> '0' <= #[trigger] digits[i] && digits[i] <= '9',
{
    assert(digits.push(c).drop_last() =~= digits);
    assert(digits.push(c).last() == c);
}

/// A numeral is one digit below ten, and from there on the numeral of the tens and one digit. A
/// negative number has a minus sign in front.
pub proof fn law_numerals(n: nat, d: int)
    requires
        0 <= d < 10,
    ensures
        numeral(d as nat) == seq![digit_char(d)],
        n > 0 ==> numeral((10 * n + d) as nat) == numeral(n).push(digit_char(d)),
        digit_char(d) as int == '0' as int + d,
        signed_numeral(n as int) == numeral(n),
        n > 0 ==> signed_numeral(-n) == seq!['-'] + numeral(n),
{
    if n > 0 {
        let m = (10 * n + d) as nat;
        assert(m / 10 == n);
        assert(m % 10 == d);
    }
}

/// A sign in front is taken off, one only.
pub proof fn law_one_sign_is_taken_off(s: Seq<char>)
    ensures
        unsigned(seq!['-'] + s) == s,
        unsigned(seq!['+'] + s) == s,
        s.len() == 0 || (s[0] != '-' && s[0] != '+') ==> unsigned(s) == s,
{
    assert((seq!['-'] + s).skip(1) =~= s);
    assert((seq!['+'] + s).skip(1) =~= s);
}

} // verus!
