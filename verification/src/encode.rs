//! Writing records as JSON objects, member by member.

use vstd::prelude::*;

use crate::json::Json;

verus! {

use crate::decode::levels_view;
use crate::json::{first_duplicate, member, named, slots_of, DecodeError};

/// The value of a member, as contracts speak of it.
pub enum Value {
    Null,
    Int(i64),
    /// A string of the record.
    Text(String),
    /// One of the wire's own words, such as a variant's name.
    Word(Seq<char>),
    /// The levels of one side of a book, price and contracts.
    Levels(Seq<(i64, i64)>),
}

/// `json` is an array of two whole numbers.
pub open spec fn is_level(json: Json, level: (i64, i64)) -> bool {
    match json {
        Json::Array(two) => two@ == seq![Json::Int(level.0), Json::Int(level.1)],
        _ => false,
    }
}

/// `json` is the value `value`.
pub open spec fn is_value(json: Json, value: Value) -> bool {
    match value {
        Value::Null => json is Null,
        Value::Int(n) => json == Json::Int(n),
        Value::Text(text) => json == Json::Str(text),
        Value::Word(word) => json is Str && json->Str_0@ == word,
        Value::Levels(levels) => match json {
            Json::Array(elements) => elements@.len() == levels.len() && forall|i: int|
                0 <= i < levels.len() ==> is_level(#[trigger] elements@[i], levels[i]),
            _ => false,
        },
    }
}

/// `written` is the member `key` with the value `value`.
pub open spec fn is_member(written: (String, Json), key: &'static str, value: Value) -> bool {
    written.0@ == key@ && is_value(written.1, value)
}

/// `json` is an object with exactly these members, in this order.
pub open spec fn is_object(json: Json, members: Seq<(&'static str, Value)>) -> bool {
    match json {
        Json::Object(written) => are_members(written@, members),
        _ => false,
    }
}

pub open spec fn are_members(
    written: Seq<(String, Json)>,
    members: Seq<(&'static str, Value)>,
) -> bool {
    written.len() == members.len() && forall|i: int|
        0 <= i < members.len() ==> is_member(#[trigger] written[i], members[i].0, members[i].1)
}

/// A record that is written as a JSON object.
pub trait ToJson {
    /// The members of the object, in order.
    spec fn members(&self) -> Seq<(&'static str, Value)>;

    fn to_json(&self) -> (json: Json)
        ensures
            is_object(json, self.members()),
    ;
}

pub open spec fn opt_text(text: Option<String>) -> Value {
    match text {
        Some(text) => Value::Text(text),
        None => Value::Null,
    }
}

pub open spec fn opt_int(n: Option<i64>) -> Value {
    match n {
        Some(n) => Value::Int(n),
        None => Value::Null,
    }
}

/// The member, or nothing where the value is absent.
pub open spec fn text_if_present(key: &'static str, text: Option<String>) -> Seq<
    (&'static str, Value),
> {
    match text {
        Some(text) => seq![(key, Value::Text(text))],
        None => Seq::empty(),
    }
}

/// The member, or nothing where the value is absent.
pub open spec fn int_if_present(key: &'static str, n: Option<i64>) -> Seq<(&'static str, Value)> {
    match n {
        Some(n) => seq![(key, Value::Int(n))],
        None => Seq::empty(),
    }
}

/// `after` is `before` with one member more.
pub open spec fn is_added(
    before: Seq<(String, Json)>,
    after: Seq<(String, Json)>,
    key: &'static str,
    value: Value,
) -> bool {
    &&& after.len() == before.len() + 1
    &&& after.drop_last() == before
    &&& is_member(after.last(), key, value)
}

fn key_text(key: &'static str) -> (text: String)
    ensures
        text@ == key@,
{
    String::from_str(key)
}

/// Adds a member with a string.
pub fn put_text(members: &mut Vec<(String, Json)>, key: &'static str, text: &String)
    ensures
        is_added(old(members)@, final(members)@, key, Value::Text(*text)),
        forall|listed: Seq<(&'static str, Value)>| #[trigger]
            are_members(old(members)@, listed) ==> are_members(
                final(members)@,
                listed.push((key, Value::Text(*text))),
            ),
{
    members.push((key_text(key), Json::Str(text.clone())));
    proof {
        assert(members@.drop_last() =~= old(members)@);
        lemma_put(old(members)@, members@, key, Value::Text(*text));
    }
}

/// Adds a member with one of the wire's own words.
pub fn put_word(members: &mut Vec<(String, Json)>, key: &'static str, word: &'static str)
    ensures
        is_added(old(members)@, final(members)@, key, Value::Word(word@)),
        forall|listed: Seq<(&'static str, Value)>| #[trigger]
            are_members(old(members)@, listed) ==> are_members(
                final(members)@,
                listed.push((key, Value::Word(word@))),
            ),
{
    members.push((key_text(key), Json::Str(key_text(word))));
    proof {
        assert(members@.drop_last() =~= old(members)@);
        lemma_put(old(members)@, members@, key, Value::Word(word@));
    }
}

/// Adds a member with a whole number.
pub fn put_int(members: &mut Vec<(String, Json)>, key: &'static str, n: i64)
    ensures
        is_added(old(members)@, final(members)@, key, Value::Int(n)),
        forall|listed: Seq<(&'static str, Value)>| #[trigger]
            are_members(old(members)@, listed) ==> are_members(
                final(members)@,
                listed.push((key, Value::Int(n))),
            ),
{
    members.push((key_text(key), Json::Int(n)));
    proof {
        assert(members@.drop_last() =~= old(members)@);
        lemma_put(old(members)@, members@, key, Value::Int(n));
    }
}

/// Adds a member with a string or null.
pub fn put_opt_text(members: &mut Vec<(String, Json)>, key: &'static str, text: &Option<String>)
    ensures
        is_added(old(members)@, final(members)@, key, opt_text(*text)),
        forall|listed: Seq<(&'static str, Value)>| #[trigger]
            are_members(old(members)@, listed) ==> are_members(
                final(members)@,
                listed.push((key, opt_text(*text))),
            ),
{
    let json = match text {
        Some(text) => Json::Str(text.clone()),
        None => Json::Null,
    };
    members.push((key_text(key), json));
    proof {
        assert(members@.drop_last() =~= old(members)@);
        lemma_put(old(members)@, members@, key, opt_text(*text));
    }
}

/// Adds a member with a whole number or null.
pub fn put_opt_int(members: &mut Vec<(String, Json)>, key: &'static str, n: Option<i64>)
    ensures
        is_added(old(members)@, final(members)@, key, opt_int(n)),
        forall|listed: Seq<(&'static str, Value)>| #[trigger]
            are_members(old(members)@, listed) ==> are_members(
                final(members)@,
                listed.push((key, opt_int(n))),
            ),
{
    let json = match n {
        Some(n) => Json::Int(n),
        None => Json::Null,
    };
    members.push((key_text(key), json));
    proof {
        assert(members@.drop_last() =~= old(members)@);
        lemma_put(old(members)@, members@, key, opt_int(n));
    }
}

/// Adds a member with a string, or nothing where the string is absent.
pub fn put_text_if_present(
    members: &mut Vec<(String, Json)>,
    key: &'static str,
    text: &Option<String>,
)
    ensures
        match *text {
            Some(text) => is_added(old(members)@, final(members)@, key, Value::Text(text)),
            None => final(members)@ == old(members)@,
        },
        forall|listed: Seq<(&'static str, Value)>| #[trigger]
            are_members(old(members)@, listed) ==> are_members(
                final(members)@,
                listed + text_if_present(key, *text),
            ),
{
    match text {
        Some(text) => {
            put_text(members, key, text);
            assert forall|listed: Seq<(&'static str, Value)>| #[trigger]
                are_members(old(members)@, listed) implies are_members(
                members@,
                listed + text_if_present(key, Some(*text)),
            ) by {
                assert(listed + text_if_present(key, Some(*text)) =~= listed.push(
                    (key, Value::Text(*text)),
                ));
            }
        },
        None => {
            assert forall|listed: Seq<(&'static str, Value)>| #[trigger]
                are_members(old(members)@, listed) implies are_members(
                members@,
                listed + text_if_present(key, None),
            ) by {
                assert(listed + text_if_present(key, None) =~= listed);
            }
        },
    }
}

/// Adds a member with a whole number, or nothing where the number is absent.
pub fn put_int_if_present(members: &mut Vec<(String, Json)>, key: &'static str, n: Option<i64>)
    ensures
        match n {
            Some(n) => is_added(old(members)@, final(members)@, key, Value::Int(n)),
            None => final(members)@ == old(members)@,
        },
        forall|listed: Seq<(&'static str, Value)>| #[trigger]
            are_members(old(members)@, listed) ==> are_members(
                final(members)@,
                listed + int_if_present(key, n),
            ),
{
    match n {
        Some(n) => {
            put_int(members, key, n);
            assert forall|listed: Seq<(&'static str, Value)>| #[trigger]
                are_members(old(members)@, listed) implies are_members(
                members@,
                listed + int_if_present(key, Some(n)),
            ) by {
                assert(listed + int_if_present(key, Some(n)) =~= listed.push(
                    (key, Value::Int(n)),
                ));
            }
        },
        None => {
            assert forall|listed: Seq<(&'static str, Value)>| #[trigger]
                are_members(old(members)@, listed) implies are_members(
                members@,
                listed + int_if_present(key, None),
            ) by {
                assert(listed + int_if_present(key, None) =~= listed);
            }
        },
    }
}

/// Adds a member with one side of a book.
pub fn put_levels(members: &mut Vec<(String, Json)>, key: &'static str, levels: &Vec<[i64; 2]>)
    ensures
        is_added(old(members)@, final(members)@, key, Value::Levels(levels_view(levels@))),
        forall|listed: Seq<(&'static str, Value)>| #[trigger]
            are_members(old(members)@, listed) ==> are_members(
                final(members)@,
                listed.push((key, Value::Levels(levels_view(levels@)))),
            ),
{
    let mut elements: Vec<Json> = Vec::new();
    let mut i: usize = 0;
    while i < levels.len()
        invariant
            i <= levels@.len(),
            elements@.len() == i,
            forall|j: int|
                0 <= j < i ==> is_level(#[trigger] elements@[j], levels_view(levels@)[j]),
        decreases levels.len() - i,
    {
        let mut two: Vec<Json> = Vec::new();
        two.push(Json::Int(levels[i][0]));
        two.push(Json::Int(levels[i][1]));
        proof {
            let level = levels_view(levels@)[i as int];
            assert(two@ =~= seq![Json::Int(level.0), Json::Int(level.1)]);
        }
        elements.push(Json::Array(two));
        i += 1;
    }
    members.push((key_text(key), Json::Array(elements)));
    proof {
        assert(members@.drop_last() =~= old(members)@);
        lemma_put(old(members)@, members@, key, Value::Levels(levels_view(levels@)));
    }
}

/// Adding one member to the right members gives the right members.
proof fn lemma_put(
    before: Seq<(String, Json)>,
    after: Seq<(String, Json)>,
    key: &'static str,
    value: Value,
)
    requires
        is_added(before, after, key, value),
    ensures
        forall|listed: Seq<(&'static str, Value)>| #[trigger]
            are_members(before, listed) ==> are_members(after, listed.push((key, value))),
{
    assert forall|listed: Seq<(&'static str, Value)>| #[trigger]
        are_members(before, listed) implies are_members(after, listed.push((key, value))) by {
        let longer = listed.push((key, value));
        assert forall|i: int| 0 <= i < after.len() implies is_member(
            #[trigger] after[i],
            longer[i].0,
            longer[i].1,
        ) by {
            if i < before.len() {
                assert(after[i] == before[i]);
            }
        }
    }
}

/// No key is there twice.
pub open spec fn distinct_keys(keys: Seq<&'static str>) -> bool {
    forall|i: int, j: int| 0 <= i < j < keys.len() ==> #[trigger] keys[i]@ != #[trigger] keys[j]@
}

/// A number by which keys are told apart: it is made from the length and a few characters.
pub open spec fn mark(key: Seq<char>) -> int {
    key.len() * 1000000 + (key[0] as int) * 1000 + (if key.len() > 4 {
        key[3] as int + key[4] as int
    } else {
        0
    })
}

pub proof fn lemma_distinct_by_mark(keys: Seq<&'static str>, marks: Seq<int>)
    requires
        marks.len() == keys.len(),
        forall|i: int| 0 <= i < keys.len() ==> mark(#[trigger] keys[i]@) == marks[i],
        marks.no_duplicates(),
    ensures
        distinct_keys(keys),
{
    assert forall|i: int, j: int| 0 <= i < j < keys.len() implies #[trigger] keys[i]@
        != #[trigger] keys[j]@ by {
        assert(mark(keys[i]@) == marks[i]);
        assert(mark(keys[j]@) == marks[j]);
    }
}

/// The values of these members, in order, and nothing from there on.
pub open spec fn written_slots(written: Seq<(String, Json)>, len: nat) -> Seq<Option<Json>> {
    Seq::new(
        len,
        |i: int|
            if i < written.len() {
                Some(written[i].1)
            } else {
                None
            },
    )
}

/// What a record's keys lead to in an object that holds the first of those keys, each once and in
/// order: the values, in order, and nothing for the keys that are left.
pub proof fn lemma_slots_of_written(
    json: Json,
    members: Seq<(&'static str, Value)>,
    keys: Seq<&'static str>,
    least: int,
)
    requires
        is_object(json, members),
        members.len() <= keys.len(),
        forall|i: int| 0 <= i < members.len() ==> (#[trigger] members[i]).0 == keys[i],
        distinct_keys(keys),
    ensures
        slots_of(json, keys, least) == Ok::<Seq<Option<Json>>, DecodeError>(
            written_slots(json->Object_0@, keys.len()),
        ),
{
    let written = json->Object_0@;
    assert forall|i: int| 0 <= i < written.len() implies #[trigger] named(written, keys[i]@)
        == seq![written[i]] by {
        let p = |m: (String, Json)| m.0@ == keys[i]@;
        let front = written.take(i);
        let back = written.skip(i + 1);
        assert(written =~= front + seq![written[i]] + back);
        Seq::filter_distributes_over_add(front + seq![written[i]], back, p);
        Seq::filter_distributes_over_add(front, seq![written[i]], p);
        assert forall|j: int| 0 <= j < front.len() implies !p(#[trigger] front[j]) by {
            assert(is_member(written[j], members[j].0, members[j].1));
            assert(keys[j]@ != keys[i]@);
        }
        lemma_filter_none(front, p);
        assert forall|j: int| 0 <= j < back.len() implies !p(#[trigger] back[j]) by {
            assert(back[j] == written[j + i + 1]);
            assert(is_member(written[j + i + 1], members[j + i + 1].0, members[j + i + 1].1));
            assert(keys[i]@ != keys[j + i + 1]@);
        }
        lemma_filter_none(back, p);
        assert(is_member(written[i], members[i].0, members[i].1));
        reveal_with_fuel(Seq::filter, 2);
        assert(seq![written[i]].drop_last() =~= Seq::<(String, Json)>::empty());
        assert(seq![written[i]].last() == written[i]);
        assert(seq![written[i]].filter(p) =~= seq![written[i]]);
        assert(written.filter(p) =~= seq![written[i]]);
    }
    assert forall|i: int| written.len() <= i < keys.len() implies #[trigger] named(
        written,
        keys[i]@,
    ) == Seq::<(String, Json)>::empty() by {
        let p = |m: (String, Json)| m.0@ == keys[i]@;
        assert forall|j: int| 0 <= j < written.len() implies !p(#[trigger] written[j]) by {
            assert(is_member(written[j], members[j].0, members[j].1));
            assert(keys[j]@ != keys[i]@);
        }
        lemma_filter_none(written, p);
    }
    lemma_no_duplicate(written, keys);
    assert(Seq::new(keys.len(), |i: int| member(written, keys[i]@)) =~= written_slots(
        written,
        keys.len(),
    ));
}

proof fn lemma_filter_none(s: Seq<(String, Json)>, p: spec_fn((String, Json)) -> bool)
    requires
        forall|i: int| 0 <= i < s.len() ==> !p(#[trigger] s[i]),
    ensures
        s.filter(p) == Seq::<(String, Json)>::empty(),
    decreases s.len(),
{
    reveal(Seq::filter);
    if s.len() > 0 {
        assert forall|i: int| 0 <= i < s.len() - 1 implies !p(#[trigger] s.drop_last()[i]) by {
            assert(s.drop_last()[i] == s[i]);
        }
        lemma_filter_none(s.drop_last(), p);
        assert(!p(s[s.len() - 1]));
    }
}

proof fn lemma_no_duplicate(members: Seq<(String, Json)>, keys: Seq<&'static str>)
    requires
        forall|i: int| 0 <= i < keys.len() ==> (#[trigger] named(members, keys[i]@)).len() <= 1,
    ensures
        first_duplicate(members, keys) is None,
    decreases keys.len(),
{
    if keys.len() > 0 {
        assert forall|i: int| 0 <= i < keys.len() - 1 implies (#[trigger] named(
            members,
            keys.drop_last()[i]@,
        )).len() <= 1 by {
            assert(keys.drop_last()[i] == keys[i]);
            assert(named(members, keys[i]@).len() <= 1);
        }
        lemma_no_duplicate(members, keys.drop_last());
        assert(named(members, keys[keys.len() - 1]@).len() <= 1);
    }
}

} // verus!
