//! The venue's fixed-point strings: dollar prices (`"0.5200"`) and contract counts (`"10.00"`).
//!
//! On the wire a price is a string of dollars and a count is a string with a decimal point.
//! Inside the library both are integers, cents and whole contracts. The conversions stand here.

use vstd::prelude::*;

use crate::text::{
    chars_of, digit, find_char, only_digits, push_numeral, read_digits, read_i64, skip_sign,
    trim_bounds,
};

verus! {

use crate::text::{
    after, all_digits, before, digit_char, digit_value, digits_value, find, is_digit, is_sign,
    is_white, law_text_is_cut_at_the_first, law_trimming_leaves_the_core,
    lemma_digits_value_bounds, lemma_find, lemma_find_is, lemma_numeral, lemma_trimmed_is,
    lemma_trimmed_twice, numeral, parsed_i64, signed_numeral, trimmed, unsigned,
};

// ---------------------------------------------------------------------------
// The model
// ---------------------------------------------------------------------------

/// The digit at place `k` of a fraction: zero where the fraction ends before it.
pub open spec fn fraction_digit(fraction: Seq<char>, k: int) -> int {
    if 0 <= k < fraction.len() {
        digit_value(fraction[k])
    } else {
        0
    }
}

/// The cents of a dollar amount without its sign, rounded half up on the third fractional digit.
pub open spec fn cents_of(amount: Seq<char>) -> int {
    let fraction = after(amount, '.');
    let rounding: int = if fraction_digit(fraction, 2) >= 5 {
        1
    } else {
        0
    };
    digits_value(before(amount, '.')) * 100 + fraction_digit(fraction, 0) * 10 + fraction_digit(
        fraction,
        1,
    ) + rounding
}

/// `s` without white space at its ends and without its sign, if it has one.
pub open spec fn amount_of(s: Seq<char>) -> Seq<char> {
    unsigned(trimmed(s))
}

/// A dollar amount without its sign: digits, at least one, and then, where there is a decimal
/// point, only digits behind it.
pub open spec fn is_amount(amount: Seq<char>) -> bool {
    &&& before(amount, '.').len() > 0
    &&& all_digits(before(amount, '.'))
    &&& all_digits(after(amount, '.'))
}

/// The cents that a dollar string denotes: an amount with at most one sign in front and any white
/// space round it. A string that is anything else denotes none, nor does one whose cents are no
/// `i64`.
pub open spec fn dollars_in_cents(s: Seq<char>) -> Option<i64> {
    let cents = cents_of(amount_of(s));
    if is_amount(amount_of(s)) && cents <= i64::MAX {
        if trimmed(s)[0] == '-' {
            Some((-cents) as i64)
        } else {
            Some(cents as i64)
        }
    } else {
        None
    }
}

/// The contracts that a count string denotes: the integer before its decimal point.
pub open spec fn count_in_contracts(s: Seq<char>) -> Option<i64> {
    parsed_i64(before(trimmed(s), '.'))
}

/// `cents` held to the range of a binary contract's price.
pub open spec fn clamped_cents(cents: int) -> int {
    if cents < 0 {
        0
    } else if cents > 100 {
        100
    } else {
        cents
    }
}

/// A price as the venue wants it: dollars, a point and two digits of cents.
pub open spec fn price_text(cents: int) -> Seq<char> {
    let c = clamped_cents(cents);
    seq![digit_char(c / 100), '.', digit_char(c % 100 / 10), digit_char(c % 10)]
}

pub open spec fn nonnegative(count: int) -> int {
    if count < 0 {
        0
    } else {
        count
    }
}

/// A count as the venue wants it: whole contracts and `.00`.
pub open spec fn count_text(count: int) -> Seq<char> {
    numeral(nonnegative(count) as nat) + seq!['.', '0', '0']
}

// ---------------------------------------------------------------------------
// The conversions
// ---------------------------------------------------------------------------

/// Reads a dollar price such as `"0.5200"` as cents. Whole cents are exact; further fractional
/// digits are formatting. `None` for an empty or malformed string, that is one with anything in it
/// but one sign, digits and one point, and for an amount whose cents do not fit.
pub fn dollars_str_to_cents(s: &str) -> (cents: Option<i64>)
    ensures
        cents == dollars_in_cents(s@),
{
    let chars = chars_of(s);
    let (lo, hi) = trim_bounds(&chars);
    if lo == hi {
        assert(trimmed(s@).len() == 0);
        return None;
    }
    let negative = chars[lo] == '-';
    let start: usize = skip_sign(&chars, lo, hi);
    let point: usize = find_char(&chars, start, hi, '.');
    let ghost amount = amount_of(s@);
    let ghost fraction = after(amount, '.');
    proof {
        assert(trimmed(s@)[0] == chars@[lo as int]);
        assert(chars@.subrange(start as int, hi as int) == amount);
        lemma_find(amount, '.');
        assert(before(amount, '.') =~= chars@.subrange(start as int, point as int));
        if all_digits(before(amount, '.')) {
            lemma_digits_value_bounds(before(amount, '.'));
        }
        assert(point < hi ==> fraction =~= chars@.subrange(point + 1, hi as int));
    }
    let whole: u64 = match read_digits(&chars, start, point, 0x7fff_ffff_ffff_ffff) {
        Some(whole) => whole,
        None => {
            return None;
        },
    };
    if point < hi && !only_digits(&chars, point + 1, hi) {
        return None;
    }
    let d0: u8 = fraction_digit_at(&chars, point, hi, 0);
    let d1: u8 = fraction_digit_at(&chars, point, hi, 1);
    let d2: u8 = fraction_digit_at(&chars, point, hi, 2);
    let mut cents: u128 = whole as u128 * 100 + d0 as u128 * 10 + d1 as u128;
    if d2 >= 5 {
        cents += 1;
    }
    assert(cents == cents_of(amount));
    if cents > 0x7fff_ffff_ffff_ffff {
        return None;
    }
    if negative {
        Some(-(cents as i64))
    } else {
        Some(cents as i64)
    }
}

/// The digit at place `k` behind the point in `chars[..hi]`.
fn fraction_digit_at(chars: &Vec<char>, point: usize, hi: usize, k: usize) -> (d: u8)
    requires
        point <= hi <= chars@.len(),
        point < hi ==> all_digits(chars@.subrange(point + 1, hi as int)),
        k <= 2,
    ensures
        d < 10,
        point < hi ==> d == fraction_digit(chars@.subrange(point + 1, hi as int), k as int),
        point == hi ==> d == 0,
{
    if hi - point > k && hi - point - k > 1 {
        let ghost fraction = chars@.subrange(point + 1, hi as int);
        assert(is_digit(fraction[k as int]));
        assert(fraction[k as int] == chars@[point + 1 + k]);
        match digit(chars[point + 1 + k]) {
            Some(d) => d,
            None => 0,
        }
    } else {
        0
    }
}

/// Reads a count such as `"10.00"` as whole contracts. Contracts are whole; what stands behind
/// the point is formatting. A leading sign counts.
pub fn count_fp_str_to_contracts(s: &str) -> (contracts: Option<i64>)
    ensures
        contracts == count_in_contracts(s@),
{
    let chars = chars_of(s);
    let (lo, hi) = trim_bounds(&chars);
    let point: usize = find_char(&chars, lo, hi, '.');
    proof {
        lemma_find(trimmed(s@), '.');
        assert(before(trimmed(s@), '.') =~= chars@.subrange(lo as int, point as int));
    }
    read_i64(&chars, lo, point)
}

/// Writes cents as a dollar price: `56` as `"0.56"`, `100` as `"1.00"`. Held to the range of a
/// binary contract, so that no negative or out-of-band price can reach the wire.
pub fn cents_to_dollars_str(cents: i64) -> (price: String)
    ensures
        price@ == price_text(cents as int),
{
    let c: u64 = if cents < 0 {
        0
    } else if cents > 100 {
        100
    } else {
        cents as u64
    };
    let mut price = String::new();
    push_numeral(&mut price, c / 100);
    proof {
        reveal_strlit(".");
    }
    price.append(".");
    push_numeral(&mut price, c % 100 / 10);
    push_numeral(&mut price, c % 10);
    assert(price@ =~= price_text(cents as int));
    price
}

/// Writes a contract count: `1` as `"1.00"`, `10` as `"10.00"`. A negative count is written as
/// zero.
pub fn contracts_to_count_fp(count: i64) -> (text: String)
    ensures
        text@ == count_text(count as int),
{
    let mut text = String::new();
    push_numeral(
        &mut text,
        if count < 0 {
            0
        } else {
            count as u64
        },
    );
    proof {
        reveal_strlit(".00");
    }
    text.append(".00");
    assert(text@ =~= count_text(count as int));
    text
}

// ---------------------------------------------------------------------------
// Laws
// ---------------------------------------------------------------------------

/// A price that was written reads back as the cents it was written from, held to 0..=100. So
/// whatever was given, a written price lies in the range of a binary contract.
pub proof fn law_price_round_trip(cents: int)
    ensures
        dollars_in_cents(price_text(cents)) == Some(clamped_cents(cents) as i64),
{
    let c = clamped_cents(cents);
    let s = price_text(cents);
    lemma_trimmed_is(s);
    assert(amount_of(s) == s);
    lemma_find_is(s, '.', 1);
    assert(before(s, '.') =~= seq![digit_char(c / 100)]);
    assert(after(s, '.') =~= seq![digit_char(c % 100 / 10), digit_char(c % 10)]);
    let whole = before(s, '.');
    assert(whole.drop_last() =~= Seq::<char>::empty());
    assert(digits_value(whole.drop_last()) == 0);
    assert(digits_value(whole) == c / 100);
}

/// A count that was written reads back as the count it was written from, a negative one as zero.
pub proof fn law_count_round_trip(count: i64)
    ensures
        count_in_contracts(count_text(count as int)) == Some(nonnegative(count as int) as i64),
{
    let n = nonnegative(count as int) as nat;
    let s = count_text(count as int);
    lemma_numeral(n);
    assert(is_digit(numeral(n)[0]));
    assert(s[0] == numeral(n)[0]);
    assert(s.last() == '0');
    lemma_trimmed_is(s);
    assert forall|i: int| 0 <= i < numeral(n).len() implies s[i] != '.' by {
        assert(s[i] == numeral(n)[i]);
        assert(is_digit(numeral(n)[i]));
    }
    lemma_find_is(s, '.', numeral(n).len() as int);
    assert(before(s, '.') =~= numeral(n));
}

/// Whole cents are exact, whatever the dollars, and a third digit rounds half up.
pub proof fn law_whole_cents_are_exact(dollars: nat, cents: int, third: int)
    requires
        0 <= cents < 100,
        0 <= third < 10,
        dollars * 100 + cents < i64::MAX,
    ensures
        ({
            let digits = seq![digit_char(cents / 10), digit_char(cents % 10)];
            let exact = numeral(dollars) + seq!['.'] + digits;
            &&& dollars_in_cents(exact) == Some((dollars * 100 + cents) as i64)
            &&& dollars_in_cents(exact.push(digit_char(third))) == Some(
                (dollars * 100 + cents + (if third >= 5 {
                    1int
                } else {
                    0
                })) as i64,
            )
        }),
{
    let whole = numeral(dollars);
    let digits = seq![digit_char(cents / 10), digit_char(cents % 10)];
    lemma_numeral(dollars);
    lemma_parts_of_amount(whole, digits);
    lemma_parts_of_amount(whole, digits.push(digit_char(third)));
    assert((whole + seq!['.'] + digits).push(digit_char(third)) =~= whole + seq!['.'] + digits.push(
        digit_char(third),
    ));
}

proof fn lemma_parts_of_amount(whole: Seq<char>, fraction: Seq<char>)
    requires
        whole.len() > 0,
        all_digits(whole),
        fraction.len() > 0,
        all_digits(fraction),
    ensures
        ({
            let s = whole + seq!['.'] + fraction;
            &&& trimmed(s) == s
            &&& amount_of(s) == s
            &&& before(s, '.') == whole
            &&& after(s, '.') == fraction
            &&& s[0] != '-'
        }),
{
    let s = whole + seq!['.'] + fraction;
    assert(s[0] == whole[0] && is_digit(whole[0]));
    assert(s.last() == fraction[fraction.len() - 1] && is_digit(fraction[fraction.len() - 1]));
    lemma_trimmed_is(s);
    assert forall|i: int| 0 <= i < whole.len() implies s[i] != '.' by {
        assert(s[i] == whole[i] && is_digit(whole[i]));
    }
    lemma_find_is(s, '.', whole.len() as int);
    assert(before(s, '.') =~= whole);
    assert(after(s, '.') =~= fraction);
}

/// A count keeps its sign, and what stands behind the point does not matter.
pub proof fn law_count_keeps_its_sign(count: i64, formatting: Seq<char>)
    requires
        formatting.len() > 0 ==> !is_white(formatting.last()),
    ensures
        count_in_contracts(signed_numeral(count as int) + seq!['.'] + formatting) == Some(count),
{
    let magnitude: nat = if count < 0 {
        (-count) as nat
    } else {
        count as nat
    };
    let digits = numeral(magnitude);
    let text = signed_numeral(count as int);
    let s = text + seq!['.'] + formatting;
    lemma_numeral(magnitude);
    assert(is_digit(digits[0]));
    assert(s[0] == text[0]);
    assert(s.last() == (if formatting.len() > 0 {
        formatting.last()
    } else {
        '.'
    }));
    lemma_trimmed_is(s);
    assert forall|i: int| 0 <= i < text.len() implies s[i] != '.' by {
        assert(s[i] == text[i]);
        if count < 0 {
            if i > 0 {
                assert(text[i] == digits[i - 1] && is_digit(digits[i - 1]));
            }
        } else {
            assert(is_digit(digits[i]));
        }
    }
    lemma_find_is(s, '.', text.len() as int);
    assert(before(s, '.') =~= text);
    if count < 0 {
        assert(text.skip(1) =~= digits);
    }
}

/// A price has nothing in it but what belongs there: one that reads is white space, at most one
/// sign, digits, and at most one point, which digits alone may follow.
pub proof fn law_no_malformed_price_is_read(s: Seq<char>)
    requires
        dollars_in_cents(s) is Some,
    ensures
        forall|i: int|
            0 <= i < trimmed(s).len() ==> is_digit(#[trigger] trimmed(s)[i]) || trimmed(s)[i] == '.'
                || (i == 0 && is_sign(trimmed(s)[i])),
        forall|i: int, j: int|
            0 <= i < j < trimmed(s).len() && #[trigger] trimmed(s)[i] == '.' ==> #[trigger] trimmed(
                s,
            )[j] != '.',
{
    let t = trimmed(s);
    let amount = amount_of(s);
    let skipped: int = t.len() - amount.len();
    assert(forall|i: int| skipped <= i < t.len() ==> #[trigger] t[i] == amount[i - skipped]);
    lemma_find(amount, '.');
    let point = find(amount, '.');
    assert forall|k: int| 0 <= k < amount.len() && k != point implies is_digit(
        #[trigger] amount[k],
    ) by {
        if k < point {
            assert(before(amount, '.')[k] == amount[k]);
        } else {
            assert(after(amount, '.')[k - point - 1] == amount[k]);
        }
    }
}

/// White space round a price or a count does not matter.
pub proof fn law_white_space_is_ignored(s: Seq<char>)
    ensures
        dollars_in_cents(trimmed(s)) == dollars_in_cents(s),
        count_in_contracts(trimmed(s)) == count_in_contracts(s),
{
    lemma_trimmed_twice(s);
}

/// Zeros behind the fraction of a price are formatting: one more changes nothing.
pub proof fn law_trailing_zero_is_formatting(s: Seq<char>)
    requires
        s.len() > 0,
        !is_white(s[0]),
        !is_white(s.last()),
        amount_of(s).contains('.'),
    ensures
        dollars_in_cents(s.push('0')) == dollars_in_cents(s),
{
    lemma_same_fraction_digits(s, '0');
}

/// From the fourth fractional digit on a price's digits do not matter, whichever they are.
pub proof fn law_later_digits_do_not_round(s: Seq<char>, c: char)
    requires
        s.len() > 0,
        !is_white(s[0]),
        !is_white(s.last()),
        is_digit(c),
        amount_of(s).contains('.'),
        after(amount_of(s), '.').len() >= 3,
    ensures
        dollars_in_cents(s.push(c)) == dollars_in_cents(s),
{
    lemma_same_fraction_digits(s, c);
}

proof fn lemma_same_fraction_digits(s: Seq<char>, c: char)
    requires
        s.len() > 0,
        !is_white(s[0]),
        !is_white(s.last()),
        is_digit(c),
        amount_of(s).contains('.'),
        c == '0' || after(amount_of(s), '.').len() >= 3,
    ensures
        dollars_in_cents(s.push(c)) == dollars_in_cents(s),
{
    let longer = s.push(c);
    lemma_trimmed_is(s);
    lemma_trimmed_is(longer);
    assert(longer[0] == s[0]);
    let amount = amount_of(s);
    let amount2 = amount_of(longer);
    assert(amount2 =~= amount.push(c));
    let at_point = choose|i: int| 0 <= i < amount.len() && amount[i] == '.';
    lemma_find(amount, '.');
    if find(amount, '.') == amount.len() {
        assert(amount[at_point] != '.');
    }
    let point = find(amount, '.');
    assert forall|i: int| 0 <= i < point implies amount2[i] != '.' by {
        assert(amount2[i] == amount[i]);
    }
    lemma_find_is(amount2, '.', point);
    assert(before(amount2, '.') =~= before(amount, '.'));
    let fraction = after(amount, '.');
    assert(after(amount2, '.') =~= fraction.push(c));
    assert(all_digits(fraction.push(c)) == all_digits(fraction)) by {
        if all_digits(fraction.push(c)) {
            assert forall|i: int| 0 <= i < fraction.len() implies is_digit(
                #[trigger] fraction[i],
            ) by {
                assert(fraction.push(c)[i] == fraction[i]);
            }
        }
    }
}

/// A plus sign in front of an amount that has no sign changes nothing.
pub proof fn law_plus_changes_nothing(s: Seq<char>)
    requires
        s.len() > 0,
        !is_sign(s[0]),
        !is_white(s[0]),
        !is_white(s.last()),
    ensures
        dollars_in_cents(seq!['+'] + s) == dollars_in_cents(s),
{
    let signed = seq!['+'] + s;
    lemma_trimmed_is(s);
    assert(signed.last() == s.last());
    lemma_trimmed_is(signed);
    assert(signed.skip(1) =~= s);
}

/// A minus sign in front of an amount that has no sign makes the cents negative.
pub proof fn law_minus_negates(s: Seq<char>)
    requires
        s.len() > 0,
        !is_sign(s[0]),
        !is_white(s[0]),
        !is_white(s.last()),
    ensures
        dollars_in_cents(seq!['-'] + s) == (match dollars_in_cents(s) {
            Some(cents) => Some((-cents) as i64),
            None => None,
        }),
{
    let signed = seq!['-'] + s;
    lemma_trimmed_is(s);
    assert(signed.last() == s.last());
    lemma_trimmed_is(signed);
    assert(signed.skip(1) =~= s);
    let whole = before(s, '.');
    lemma_find(s, '.');
    if all_digits(whole) {
        lemma_digits_value_bounds(whole);
    }
}

/// `sign` is no sign, a minus or a plus.
pub open spec fn is_sign_or_none(sign: Seq<char>) -> bool {
    sign.len() == 0 || sign == seq!['-'] || sign == seq!['+']
}

/// `s` is nothing but the characters `0` to `9`.
pub open spec fn is_row_of_digits(s: Seq<char>) -> bool {
    forall|i: int| 0 <= i < s.len() ==> '0' <= #[trigger] s[i] && s[i] <= '9'
}

/// The digit at a place of a row of digits, zero behind its end.
pub open spec fn digit_or_zero(digits: Seq<char>, k: int) -> int {
    if k < digits.len() {
        digits[k] as int - '0' as int
    } else {
        0
    }
}

/// A price is read: white space, a sign or none, digits, a point and digits, white space. It is
/// worth a hundred cents for each dollar, its first two fractional digits, and one cent more where
/// the third is five or above; negative behind a minus; nothing where that does not fit.
pub proof fn law_price_is_read(
    front: Seq<char>,
    sign: Seq<char>,
    whole: Seq<char>,
    fraction: Seq<char>,
    back: Seq<char>,
)
    requires
        forall|i: int| 0 <= i < front.len() ==> is_white(#[trigger] front[i]),
        forall|i: int| 0 <= i < back.len() ==> is_white(#[trigger] back[i]),
        is_sign_or_none(sign),
        whole.len() > 0,
        is_row_of_digits(whole),
        is_row_of_digits(fraction),
    ensures
        ({
            let cents = digits_value(whole) * 100 + digit_or_zero(fraction, 0) * 10 + digit_or_zero(
                fraction,
                1,
            ) + (if digit_or_zero(fraction, 2) >= 5 {
                1int
            } else {
                0
            });
            dollars_in_cents(front + (sign + whole + seq!['.'] + fraction) + back) == (if cents
                > i64::MAX {
                None
            } else if sign == seq!['-'] {
                Some((-cents) as i64)
            } else {
                Some(cents as i64)
            })
        }),
        ({
            let cents = digits_value(whole) * 100;
            dollars_in_cents(front + (sign + whole) + back) == (if cents > i64::MAX {
                None
            } else if sign == seq!['-'] {
                Some((-cents) as i64)
            } else {
                Some(cents as i64)
            })
        }),
{
    assert(is_digit(whole[0]));
    assert(is_digit(whole[whole.len() - 1]));
    let core = sign + whole + seq!['.'] + fraction;
    assert(core[0] == (if sign.len() == 0 {
        whole[0]
    } else {
        sign[0]
    }));
    if fraction.len() > 0 {
        assert(is_digit(fraction[fraction.len() - 1]));
        assert(core.last() == fraction[fraction.len() - 1]);
    } else {
        assert(core.last() == '.');
    }
    law_trimming_leaves_the_core(front, core, back);
    assert(core =~= sign + (whole + seq!['.'] + fraction));
    let short = sign + whole;
    assert(short[0] == core[0]);
    assert(short.last() == whole[whole.len() - 1]);
    law_trimming_leaves_the_core(front, short, back);
    let amount = whole + seq!['.'] + fraction;
    assert(amount[0] == whole[0]);
    lemma_unsigned(sign, amount);
    lemma_unsigned(sign, whole);
    assert(!whole.contains('.')) by {
        if whole.contains('.') {
            let i = choose|i: int| 0 <= i < whole.len() && whole[i] == '.';
            assert(is_digit(whole[i]));
        }
    }
    law_text_is_cut_at_the_first(whole, '.', fraction);
    assert(all_digits(whole));
    assert(all_digits(fraction));
    assert(fraction_digit(fraction, 0) == digit_or_zero(fraction, 0));
    assert(fraction_digit(fraction, 1) == digit_or_zero(fraction, 1));
    assert(fraction_digit(fraction, 2) == digit_or_zero(fraction, 2));
    if sign == seq!['-'] {
        assert(core[0] == '-');
    } else {
        assert(core[0] != '-') by {
            if sign.len() > 0 {
                assert(sign[0] == '+');
            }
        }
    }
}

proof fn lemma_unsigned(sign: Seq<char>, rest: Seq<char>)
    requires
        is_sign_or_none(sign),
        rest.len() > 0,
        is_digit(rest[0]),
    ensures
        unsigned(sign + rest) == rest,
{
    if sign.len() == 0 {
        assert(sign + rest =~= rest);
    } else {
        assert((sign + rest)[0] == sign[0]);
        assert((sign + rest).skip(1) =~= rest);
    }
}

/// Nothing else is read as a price: a text that is one is white space, a sign or none, digits and,
/// if a point is there, digits behind it.
pub proof fn law_nothing_else_is_a_price(s: Seq<char>) -> (parts: (Seq<char>, Seq<char>, Seq<char>))
    requires
        dollars_in_cents(s) is Some,
    ensures
        is_sign_or_none(parts.0),
        parts.1.len() > 0,
        is_row_of_digits(parts.1),
        is_row_of_digits(parts.2),
        trimmed(s) == parts.0 + parts.1 || trimmed(s) == parts.0 + parts.1 + seq!['.'] + parts.2,
{
    let t = trimmed(s);
    let amount = amount_of(s);
    let sign = t.take(t.len() - amount.len());
    let whole = before(amount, '.');
    let fraction = after(amount, '.');
    lemma_find(amount, '.');
    assert(t =~= sign + amount);
    if sign.len() > 0 {
        assert(sign =~= seq![t[0]]);
    }
    assert forall|i: int| 0 <= i < whole.len() implies '0' <= #[trigger] whole[i] && whole[i]
        <= '9' by {
        assert(is_digit(whole[i]));
    }
    assert forall|i: int| 0 <= i < fraction.len() implies '0' <= #[trigger] fraction[i]
        && fraction[i] <= '9' by {
        assert(is_digit(fraction[i]));
    }
    if find(amount, '.') < amount.len() {
        assert(amount =~= whole + seq!['.'] + fraction);
        assert(t =~= sign + whole + seq!['.'] + fraction);
    } else {
        assert(amount =~= whole);
    }
    (sign, whole, fraction)
}

/// A count is read: white space, a sign or none, digits and, if a point is there, anything behind
/// it. It is worth the digits, negative behind a minus; nothing where that does not fit.
pub proof fn law_count_is_read(
    front: Seq<char>,
    sign: Seq<char>,
    digits: Seq<char>,
    behind: Seq<char>,
    back: Seq<char>,
)
    requires
        forall|i: int| 0 <= i < front.len() ==> is_white(#[trigger] front[i]),
        forall|i: int| 0 <= i < back.len() ==> is_white(#[trigger] back[i]),
        is_sign_or_none(sign),
        digits.len() > 0,
        is_row_of_digits(digits),
        behind.len() > 0 ==> behind[0] == '.' && !is_white(behind.last()),
    ensures
        ({
            let n = if sign == seq!['-'] {
                -digits_value(digits)
            } else {
                digits_value(digits)
            };
            count_in_contracts(front + (sign + digits + behind) + back) == (if i64::MIN <= n
                <= i64::MAX {
                Some(n as i64)
            } else {
                None
            })
        }),
{
    let core = sign + digits + behind;
    assert(is_digit(digits[0]));
    assert(is_digit(digits[digits.len() - 1]));
    assert(core[0] == (if sign.len() == 0 {
        digits[0]
    } else {
        sign[0]
    }));
    assert(core.last() == (if behind.len() > 0 {
        behind.last()
    } else {
        digits[digits.len() - 1]
    }));
    law_trimming_leaves_the_core(front, core, back);
    let number = sign + digits;
    assert(!number.contains('.')) by {
        if number.contains('.') {
            let i = choose|i: int| 0 <= i < number.len() && number[i] == '.';
            if i < sign.len() {
                assert(number[i] == sign[i]);
            } else {
                assert(number[i] == digits[i - sign.len()]);
                assert(is_digit(digits[i - sign.len()]));
            }
        }
    }
    if behind.len() > 0 {
        law_text_is_cut_at_the_first(number, '.', behind.skip(1));
        assert(core =~= number + seq!['.'] + behind.skip(1));
    } else {
        law_text_is_cut_at_the_first(number, '.', behind);
        assert(core =~= number);
    }
    lemma_unsigned(sign, digits);
    assert(all_digits(digits));
    assert(number[0] == core[0]);
    if sign.len() > 0 {
        assert(number[0] == sign[0]);
    }
}

/// Nothing else is read as a count: up to its point a text that is one is a sign or none, and
/// digits.
pub proof fn law_nothing_else_is_a_count(s: Seq<char>) -> (parts: (Seq<char>, Seq<char>))
    requires
        count_in_contracts(s) is Some,
    ensures
        is_sign_or_none(parts.0),
        parts.1.len() > 0,
        is_row_of_digits(parts.1),
        before(trimmed(s), '.') == parts.0 + parts.1,
{
    let number = before(trimmed(s), '.');
    let digits = unsigned(number);
    let sign = number.take(number.len() - digits.len());
    assert(number =~= sign + digits);
    if sign.len() > 0 {
        assert(sign =~= seq![number[0]]);
    }
    assert forall|i: int| 0 <= i < digits.len() implies '0' <= #[trigger] digits[i] && digits[i]
        <= '9' by {
        assert(is_digit(digits[i]));
    }
    (sign, digits)
}

/// A price is written as dollars, a point and two digits: a dollar from a hundred cents on, else
/// none and the cents; none below zero.
pub proof fn law_price_is_written(cents: int)
    ensures
        cents <= 0 ==> price_text(cents) == "0.00"@,
        cents >= 100 ==> price_text(cents) == "1.00"@,
        0 <= cents <= 100 ==> ({
            let text = price_text(cents);
            &&& text.len() == 4
            &&& text[1] == '.'
            &&& (text[0] as int - '0' as int) * 100 + (text[2] as int - '0' as int) * 10 + (
            text[3] as int - '0' as int) == cents
            &&& '0' <= text[0] <= '1'
            &&& '0' <= text[2] <= '9'
            &&& '0' <= text[3] <= '9'
        }),
{
    reveal_strlit("0.00");
    reveal_strlit("1.00");
    if cents <= 0 {
        assert(price_text(cents) =~= "0.00"@);
    }
    if cents >= 100 {
        assert(price_text(cents) =~= "1.00"@);
    }
}

/// A count is written as its numeral and `.00`, a negative one as zero.
pub proof fn law_count_is_written(count: int)
    ensures
        count >= 0 ==> count_text(count) == numeral(count as nat) + ".00"@,
        count < 0 ==> count_text(count) == "0.00"@,
{
    reveal_strlit(".00");
    reveal_strlit("0.00");
    if count >= 0 {
        assert(count_text(count) =~= numeral(count as nat) + ".00"@);
    } else {
        assert(numeral(0) =~= seq!['0']);
        assert(count_text(count) =~= "0.00"@);
    }
}

} // verus!
