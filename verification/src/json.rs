//! JSON values, and how a record is read from one.
//!
//! A record comes as an object, its fields found by their keys, or as an array, its fields in
//! the order of their declaration. Keys that a record does not know are passed over, so that a
//! payload with more in it than the library reads still decodes.

use vstd::prelude::*;

use crate::text::same_text;

verus! {

/// A JSON value.
#[derive(Debug, PartialEq, Eq)]
pub enum Json {
    Null,
    Bool(bool),
    /// A whole number in the range of `i64`.
    Int(i64),
    /// Any other number, by its text.
    Number(String),
    Str(String),
    Array(Vec<Json>),
    /// The members in the order of the document. A document may repeat a key.
    Object(Vec<(String, Json)>),
}

/// Why a JSON value is not the record that was asked for.
#[derive(Debug, Clone, PartialEq, Eq)]
pub enum DecodeError {
    /// The text is no JSON.
    NotJson,
    /// A value of another kind stands where a field or a record belongs.
    WrongType,
    /// An array in place of a record has too few or too many elements.
    WrongLength,
    /// A field that must be there is not.
    MissingField(&'static str),
    /// A field is there twice.
    DuplicateField(&'static str),
    /// A string names no variant of an enumeration.
    UnknownVariant,
    /// A string that should be a dollar price is none.
    UnparseablePrice(String),
    /// A string that should be a contract count is none.
    UnparseableCount(String),
}

// ---------------------------------------------------------------------------
// Finding the fields of a record
// ---------------------------------------------------------------------------

/// The members of an object that have the key `key`.
pub open spec fn named(members: Seq<(String, Json)>, key: Seq<char>) -> Seq<(String, Json)> {
    members.filter(|m: (String, Json)| m.0@ == key)
}

/// The first of `keys` that is there more than once.
pub open spec fn first_duplicate(
    members: Seq<(String, Json)>,
    keys: Seq<&'static str>,
) -> Option<&'static str>
    decreases keys.len(),
{
    if keys.len() == 0 {
        None
    } else {
        match first_duplicate(members, keys.drop_last()) {
            Some(key) => Some(key),
            None => if named(members, keys.last()@).len() > 1 {
                Some(keys.last())
            } else {
                None
            },
        }
    }
}

/// The value of the member `key`, where there is one.
pub open spec fn member(members: Seq<(String, Json)>, key: Seq<char>) -> Option<Json> {
    if named(members, key).len() > 0 {
        Some(named(members, key)[0].1)
    } else {
        None
    }
}

/// What stands for each of `keys`, in order: the member of that name where `json` is an object,
/// the element at that place where it is an array. An array holds at least the first `least`
/// fields and no more elements than there are keys.
pub open spec fn slots_of(json: Json, keys: Seq<&'static str>, least: int) -> Result<
    Seq<Option<Json>>,
    DecodeError,
> {
    match json {
        Json::Object(members) => match first_duplicate(members@, keys) {
            Some(key) => Err(DecodeError::DuplicateField(key)),
            None => Ok(Seq::new(keys.len(), |i: int| member(members@, keys[i]@))),
        },
        Json::Array(elements) => if least <= elements@.len() <= keys.len() {
            Ok(
                Seq::new(
                    keys.len(),
                    |i: int|
                        if i < elements@.len() {
                            Some(elements@[i])
                        } else {
                            None
                        },
                ),
            )
        } else {
            Err(DecodeError::WrongLength)
        },
        _ => Err(DecodeError::WrongType),
    }
}

/// A slot as executable code holds it.
pub open spec fn slot_view(slot: Option<&Json>) -> Option<Json> {
    match slot {
        Some(json) => Some(*json),
        None => None,
    }
}

pub open spec fn slots_view(slots: Seq<Option<&Json>>) -> Seq<Option<Json>> {
    slots.map_values(|slot: Option<&Json>| slot_view(slot))
}

fn find_member<'a>(members: &'a Vec<(String, Json)>, key: &'static str) -> (found: Result<
    Option<&'a Json>,
    DecodeError,
>)
    ensures
        match found {
            Ok(slot) => {
                &&& named(members@, key@).len() <= 1
                &&& slot_view(slot) == member(members@, key@)
            },
            Err(e) => {
                &&& named(members@, key@).len() > 1
                &&& e == DecodeError::DuplicateField(key)
            },
        },
{
    let ghost p = |m: (String, Json)| m.0@ == key@;
    let mut found: Option<&'a Json> = None;
    let mut i: usize = 0;
    proof {
        assert(members@.take(0) =~= Seq::<(String, Json)>::empty());
        reveal(Seq::filter);
    }
    while i < members.len()
        invariant
            i <= members@.len(),
            p == (|m: (String, Json)| m.0@ == key@),
            named(members@.take(i as int), key@).len() <= 1,
            slot_view(found) == member(members@.take(i as int), key@),
        decreases members.len() - i,
    {
        let ghost seen = members@.take(i as int);
        let ghost more = members@.take(i + 1);
        proof {
            reveal(Seq::filter);
            assert(more.drop_last() =~= seen);
            assert(more.last() == members@[i as int]);
        }
        if same_text(members[i].0.as_str(), key) {
            match found {
                Some(_) => {
                    proof {
                        assert(members@ =~= more + members@.skip(i + 1));
                        Seq::filter_distributes_over_add(more, members@.skip(i + 1), p);
                    }
                    return Err(DecodeError::DuplicateField(key));
                },
                None => {
                    found = Some(&members[i].1);
                },
            }
        }
        i += 1;
    }
    assert(members@.take(members@.len() as int) =~= members@);
    Ok(found)
}

/// Finds what stands for each of `keys` in `json`.
pub fn find_slots<'a>(json: &'a Json, keys: &Vec<&'static str>, least: usize) -> (slots: Result<
    Vec<Option<&'a Json>>,
    DecodeError,
>)
    ensures
        match slots {
            Ok(slots) => slots_of(*json, keys@, least as int) == Ok::<
                Seq<Option<Json>>,
                DecodeError,
            >(slots_view(slots@)),
            Err(e) => slots_of(*json, keys@, least as int) == Err::<
                Seq<Option<Json>>,
                DecodeError,
            >(e),
        },
{
    match json {
        Json::Object(members) => {
            let mut slots: Vec<Option<&'a Json>> = Vec::new();
            let mut i: usize = 0;
            assert(keys@.take(0) =~= Seq::<&'static str>::empty());
            while i < keys.len()
                invariant
                    *json == Json::Object(*members),
                    i <= keys@.len(),
                    slots@.len() == i,
                    first_duplicate(members@, keys@.take(i as int)) is None,
                    forall|j: int|
                        0 <= j < i ==> slot_view(#[trigger] slots@[j]) == member(
                            members@,
                            keys@[j]@,
                        ),
                decreases keys.len() - i,
            {
                proof {
                    assert(keys@.take(i + 1).drop_last() =~= keys@.take(i as int));
                    assert(keys@.take(i + 1).last() == keys@[i as int]);
                }
                match find_member(members, keys[i]) {
                    Ok(slot) => slots.push(slot),
                    Err(e) => {
                        proof {
                            lemma_first_duplicate_stays(members@, keys@, i + 1);
                        }
                        return Err(e);
                    },
                }
                i += 1;
            }
            proof {
                assert(keys@.take(keys@.len() as int) =~= keys@);
                assert(slots_view(slots@) =~= Seq::new(
                    keys@.len(),
                    |i: int| member(members@, keys@[i]@),
                ));
            }
            Ok(slots)
        },
        Json::Array(elements) => {
            if elements.len() < least || elements.len() > keys.len() {
                return Err(DecodeError::WrongLength);
            }
            let mut slots: Vec<Option<&'a Json>> = Vec::new();
            let mut i: usize = 0;
            while i < keys.len()
                invariant
                    i <= keys@.len(),
                    slots@.len() == i,
                    forall|j: int|
                        0 <= j < i ==> slot_view(#[trigger] slots@[j]) == (if j < elements@.len() {
                            Some(elements@[j])
                        } else {
                            None
                        }),
                decreases keys.len() - i,
            {
                if i < elements.len() {
                    slots.push(Some(&elements[i]));
                } else {
                    slots.push(None);
                }
                i += 1;
            }
            assert(slots_view(slots@) =~= Seq::new(
                keys@.len(),
                |i: int|
                    if i < elements@.len() {
                        Some(elements@[i])
                    } else {
                        None
                    },
            ));
            Ok(slots)
        },
        _ => Err(DecodeError::WrongType),
    }
}

proof fn lemma_first_duplicate_stays(
    members: Seq<(String, Json)>,
    keys: Seq<&'static str>,
    k: int,
)
    requires
        0 <= k <= keys.len(),
        first_duplicate(members, keys.take(k)) is Some,
    ensures
        first_duplicate(members, keys) == first_duplicate(members, keys.take(k)),
    decreases keys.len(),
{
    if k < keys.len() {
        assert(keys.drop_last().take(k) =~= keys.take(k));
        lemma_first_duplicate_stays(members, keys.drop_last(), k);
    } else {
        assert(keys.take(k) =~= keys);
    }
}

/// Takes what stands for the key at place `at` out of `json`.
pub fn take_member(json: Json, keys: &Vec<&'static str>, at: usize, least: usize) -> (taken: Json)
    requires
        at < keys@.len(),
        slots_of(json, keys@, least as int) is Ok,
        slots_of(json, keys@, least as int)->Ok_0[at as int] is Some,
    ensures
        slots_of(json, keys@, least as int)->Ok_0[at as int] == Some(taken),
{
    match json {
        Json::Object(members) => {
            let mut members = members;
            let mut i: usize = 0;
            let ghost all = members@;
            let ghost key = keys@[at as int]@;
            proof {
                reveal(Seq::filter);
                assert(all.take(0) =~= Seq::<(String, Json)>::empty());
            }
            while i < members.len()
                invariant
                    at < keys@.len(),
                    members@ == all,
                    key == keys@[at as int]@,
                    i <= all.len(),
                    named(all, keys@[at as int]@).len() > 0,
                    named(all.take(i as int), keys@[at as int]@).len() == 0,
                    slots_of(json, keys@, least as int)->Ok_0[at as int] == member(
                        all,
                        keys@[at as int]@,
                    ),
                decreases all.len() - i,
            {
                let ghost p = |m: (String, Json)| m.0@ == keys@[at as int]@;
                let ghost seen = all.take(i as int);
                let ghost more = all.take(i + 1);
                proof {
                    reveal(Seq::filter);
                    assert(more.drop_last() =~= seen);
                    assert(more.last() == all[i as int]);
                }
                if same_text(members[i].0.as_str(), keys[at]) {
                    proof {
                        assert(all =~= more + all.skip(i + 1));
                        Seq::filter_distributes_over_add(more, all.skip(i + 1), p);
                        assert(more.filter(p) =~= seq![all[i as int]]);
                    }
                    let (_, value) = members.remove(i);
                    return value;
                }
                i += 1;
            }
            assert(all.take(all.len() as int) =~= all);
            Json::Null
        },
        Json::Array(elements) => {
            let mut elements = elements;
            elements.remove(at)
        },
        other => other,
    }
}

// ---------------------------------------------------------------------------
// Repeated keys
// ---------------------------------------------------------------------------

pub open spec fn has_key(members: Seq<(String, Json)>, key: Seq<char>) -> bool {
    exists|i: int| 0 <= i < members.len() && (#[trigger] members[i]).0@ == key
}

/// `after` is `before` with repeated keys settled in every object in it: of the members with one
/// key only the last stays.
pub open spec fn is_settled(before: Json, after: Json) -> bool
    decreases before,
{
    match before {
        Json::Array(elements) => match after {
            Json::Array(kept) => {
                &&& kept@.len() == elements@.len()
                &&& forall|i: int|
                    0 <= i < elements@.len() ==> is_settled(elements@[i], #[trigger] kept@[i])
            },
            _ => false,
        },
        Json::Object(members) => match after {
            Json::Object(kept) => are_settled(members@, kept@),
            _ => false,
        },
        _ => after == before,
    }
}

/// `after` is `before` without those members that a later one of the same key stands in for, the
/// values of the others settled.
pub open spec fn are_settled(before: Seq<(String, Json)>, after: Seq<(String, Json)>) -> bool
    decreases before,
{
    if before.len() == 0 {
        after.len() == 0
    } else if has_key(before.skip(1), before[0].0@) {
        are_settled(before.skip(1), after)
    } else {
        &&& after.len() > 0
        &&& after[0].0 == before[0].0
        &&& is_settled(before[0].1, after[0].1)
        &&& are_settled(before.skip(1), after.skip(1))
    }
}

fn key_again(members: &Vec<(String, Json)>, key: &str) -> (again: bool)
    ensures
        again <==> has_key(members@, key@),
{
    let mut i: usize = 0;
    while i < members.len()
        invariant
            i <= members@.len(),
            forall|j: int| 0 <= j < i ==> (#[trigger] members@[j]).0@ != key@,
        decreases members.len() - i,
    {
        if same_text(members[i].0.as_str(), key) {
            assert(members@[i as int].0@ == key@);
            return true;
        }
        i += 1;
    }
    false
}

/// Settles the repeated keys of every object in `json`: the last member of a key is the one that
/// counts.
pub fn settle(json: Json) -> (after: Json)
    ensures
        is_settled(json, after),
    decreases json,
{
    match json {
        Json::Array(elements) => {
            let ghost all = elements@;
            let mut rest = elements;
            let mut kept: Vec<Json> = Vec::new();
            while rest.len() > 0
                invariant
                    json == Json::Array(elements),
                    all == elements@,
                    kept@.len() + rest@.len() == all.len(),
                    rest@ == all.skip(kept@.len() as int),
                    forall|i: int| 0 <= i < kept@.len() ==> is_settled(all[i], #[trigger] kept@[i]),
                decreases rest@.len(),
            {
                let ghost at = kept@.len() as int;
                let first = rest.remove(0);
                assert(first == all[at]);
                assert(decreases_to!(json => json->Array_0@[at]));
                kept.push(settle(first));
                assert(rest@ =~= all.skip(at + 1));
            }
            Json::Array(kept)
        },
        Json::Object(members) => {
            let ghost all = members@;
            let mut rest = members;
            let ghost mut done: int = 0;
            let mut kept: Vec<(String, Json)> = Vec::new();
            assert(all.skip(0) =~= all);
            assert forall|tail: Seq<(String, Json)>| #[trigger]
                are_settled(rest@, tail) implies are_settled(all, kept@ + tail) by {
                assert(kept@ + tail =~= tail);
            }
            while rest.len() > 0
                invariant
                    json == Json::Object(members),
                    all == members@,
                    0 <= done <= all.len(),
                    rest@ == all.skip(done),
                    forall|tail: Seq<(String, Json)>| #[trigger]
                        are_settled(rest@, tail) ==> are_settled(all, kept@ + tail),
                decreases rest@.len(),
            {
                let ghost before = rest@;
                let ghost had = kept@;
                let (key, value) = rest.remove(0);
                assert(before[0] == all[done]);
                assert(rest@ =~= before.skip(1));
                assert(rest@ =~= all.skip(done + 1));
                proof {
                    done = done + 1;
                }
                if !key_again(&rest, key.as_str()) {
                    assert(decreases_to!(json => json->Object_0@[done - 1].1));
                    let value = settle(value);
                    kept.push((key, value));
                    assert forall|tail: Seq<(String, Json)>| #[trigger]
                        are_settled(rest@, tail) implies are_settled(all, kept@ + tail) by {
                        let longer = seq![(key, value)] + tail;
                        assert(longer.skip(1) =~= tail);
                        assert(are_settled(before, longer));
                        assert(kept@ + tail =~= had + longer);
                    }
                } else {
                    assert forall|tail: Seq<(String, Json)>| #[trigger]
                        are_settled(rest@, tail) implies are_settled(all, kept@ + tail) by {
                        assert(are_settled(before, tail));
                    }
                }
            }
            proof {
                let none = Seq::<(String, Json)>::empty();
                assert(are_settled(rest@, none));
                assert(kept@ + none =~= kept@);
            }
            Json::Object(kept)
        },
        other => other,
    }
}

/// Where a key is repeated, its last member counts, and after that it is there once.
pub proof fn law_last_member_counts(
    before: Seq<(String, Json)>,
    after: Seq<(String, Json)>,
    key: Seq<char>,
)
    requires
        are_settled(before, after),
    ensures
        named(after, key).len() <= 1,
        match member(after, key) {
            Some(value) => {
                &&& named(before, key).len() > 0
                &&& is_settled(named(before, key).last().1, value)
            },
            None => named(before, key).len() == 0,
        },
    decreases before.len(),
{
    reveal_with_fuel(Seq::filter, 2);
    let p = |m: (String, Json)| m.0@ == key;
    if before.len() > 0 {
        let first = before[0];
        let rest = before.skip(1);
        assert(before =~= seq![first] + rest);
        Seq::filter_distributes_over_add(seq![first], rest, p);
        assert(seq![first].drop_last() =~= Seq::<(String, Json)>::empty());
        lemma_named_means_key(rest, key);
        if first.0@ == key {
            assert(seq![first].filter(p) =~= seq![first]);
        } else {
            assert(seq![first].filter(p) =~= Seq::<(String, Json)>::empty());
            assert(named(before, key) =~= named(rest, key));
        }
        if has_key(rest, first.0@) {
            law_last_member_counts(rest, after, key);
        } else {
            let kept = after[0];
            let others = after.skip(1);
            law_last_member_counts(rest, others, key);
            assert(after =~= seq![kept] + others);
            Seq::filter_distributes_over_add(seq![kept], others, p);
            assert(seq![kept].drop_last() =~= Seq::<(String, Json)>::empty());
            if first.0@ == key {
                assert(seq![kept].filter(p) =~= seq![kept]);
            } else {
                assert(seq![kept].filter(p) =~= Seq::<(String, Json)>::empty());
                assert(named(after, key) =~= named(others, key));
            }
        }
    }
}

proof fn lemma_named_means_key(members: Seq<(String, Json)>, key: Seq<char>)
    ensures
        named(members, key).len() > 0 <==> has_key(members, key),
    decreases members.len(),
{
    reveal(Seq::filter);
    if members.len() > 0 {
        let front = members.drop_last();
        lemma_named_means_key(front, key);
        assert(forall|i: int| 0 <= i < front.len() ==> front[i] == members[i]);
        assert(members.last() == members[members.len() - 1]);
    }
}

/// No object in `json`, at any depth, has a key twice.
pub open spec fn is_free_of_repeats(json: Json) -> bool
    decreases json,
{
    match json {
        Json::Array(elements) => forall|i: int|
            0 <= i < elements@.len() ==> is_free_of_repeats(#[trigger] elements@[i]),
        Json::Object(members) => {
            &&& forall|i: int, j: int|
                0 <= i < j < members@.len() ==> (#[trigger] members@[i]).0@ != (
                #[trigger] members@[j]).0@
            &&& forall|i: int|
                0 <= i < members@.len() ==> is_free_of_repeats((#[trigger] members@[i]).1)
        },
        _ => true,
    }
}

/// After settling no object has a key twice, however deep it stands.
pub proof fn law_settled_is_free_of_repeats(before: Json, after: Json)
    requires
        is_settled(before, after),
    ensures
        is_free_of_repeats(after),
    decreases before,
{
    match before {
        Json::Array(elements) => {
            let kept = after->Array_0@;
            assert forall|i: int| 0 <= i < kept.len() implies is_free_of_repeats(
                #[trigger] kept[i],
            ) by {
                law_settled_is_free_of_repeats(elements@[i], kept[i]);
            }
        },
        Json::Object(members) => {
            lemma_settled_members(members@, after->Object_0@);
        },
        _ => {},
    }
}

proof fn lemma_settled_members(before: Seq<(String, Json)>, after: Seq<(String, Json)>)
    requires
        are_settled(before, after),
    ensures
        forall|i: int| 0 <= i < after.len() ==> has_key(before, (#[trigger] after[i]).0@),
        forall|i: int, j: int|
            0 <= i < j < after.len() ==> (#[trigger] after[i]).0@ != (#[trigger] after[j]).0@,
        forall|i: int| 0 <= i < after.len() ==> is_free_of_repeats((#[trigger] after[i]).1),
    decreases before,
{
    if before.len() > 0 {
        let rest = before.skip(1);
        assert(forall|k: int| 0 <= k < rest.len() ==> rest[k] == before[k + 1]);
        assert forall|key: Seq<char>| has_key(rest, key) implies #[trigger] has_key(
            before,
            key,
        ) by {
            let k = choose|k: int| 0 <= k < rest.len() && (#[trigger] rest[k]).0@ == key;
            assert(before[k + 1].0@ == key);
        }
        if has_key(rest, before[0].0@) {
            lemma_settled_members(rest, after);
        } else {
            let others = after.skip(1);
            lemma_settled_members(rest, others);
            law_settled_is_free_of_repeats(before[0].1, after[0].1);
            assert(forall|i: int| 0 < i < after.len() ==> #[trigger] after[i] == others[i - 1]);
            assert(has_key(before, before[0].0@));
        }
    }
}

/// Settling leaves a value that holds no other values as it is, an array element by element.
pub proof fn law_settling_leaves_plain_values(before: Json, after: Json)
    requires
        is_settled(before, after),
    ensures
        !(before is Array) && !(before is Object) ==> after == before,
        before is Array ==> {
            &&& after is Array
            &&& after->Array_0@.len() == before->Array_0@.len()
            &&& forall|i: int|
                0 <= i < before->Array_0@.len() ==> is_settled(
                    before->Array_0@[i],
                    #[trigger] after->Array_0@[i],
                )
        },
        before is Object ==> after is Object && are_settled(
            before->Object_0@,
            after->Object_0@,
        ),
{
}

/// A member that no later one of its key follows is kept, its value settled, and nothing else is:
/// every member that is kept is one of these.
pub proof fn law_settling_keeps_the_last_of_each_key(
    before: Seq<(String, Json)>,
    after: Seq<(String, Json)>,
)
    requires
        are_settled(before, after),
    ensures
        forall|i: int|
            0 <= i < before.len() && (forall|j: int|
                i < j < before.len() ==> (#[trigger] before[j]).0@ != before[i].0@)
                ==> is_kept(#[trigger] before[i], after),
        forall|k: int| 0 <= k < after.len() ==> is_last_of_its_key(before, #[trigger] after[k]),
    decreases before.len(),
{
    if before.len() > 0 {
        let rest = before.skip(1);
        let first = before[0];
        assert(forall|k: int| 0 <= k < rest.len() ==> rest[k] == before[k + 1]);
        let again = has_key(rest, first.0@);
        let others = if again {
            after
        } else {
            after.skip(1)
        };
        law_settling_keeps_the_last_of_each_key(rest, others);
        assert(forall|k: int|
            0 <= k < others.len() ==> #[trigger] others[k] == (if again {
                after[k]
            } else {
                after[k + 1]
            }));
        assert forall|i: int|
            0 <= i < before.len() && (forall|j: int|
                i < j < before.len() ==> (#[trigger] before[j]).0@ != before[i].0@) implies is_kept(
            #[trigger] before[i],
            after,
        ) by {
            if i == 0 {
                assert(!again) by {
                    if again {
                        let k = choose|k: int|
                            0 <= k < rest.len() && (#[trigger] rest[k]).0@ == first.0@;
                        assert(before[k + 1].0@ == first.0@);
                    }
                }
                assert(after[0].0 == first.0);
            } else {
                assert(rest[i - 1] == before[i]);
                assert forall|j: int| i - 1 < j < rest.len() implies (#[trigger] rest[j]).0@
                    != rest[i - 1].0@ by {
                    assert(before[j + 1].0@ != before[i].0@);
                }
                assert(is_kept(rest[i - 1], others));
                let k = choose|k: int|
                    0 <= k < others.len() && (#[trigger] others[k]).0 == before[i].0 && is_settled(
                        before[i].1,
                        others[k].1,
                    );
                let at = if again {
                    k
                } else {
                    k + 1
                };
                assert(after[at] == others[k]);
            }
        }
        assert forall|k: int| 0 <= k < after.len() implies is_last_of_its_key(
            before,
            #[trigger] after[k],
        ) by {
            if !again && k == 0 {
                assert forall|j: int| 0 < j < before.len() implies (#[trigger] before[j]).0@
                    != before[0].0@ by {
                    assert(rest[j - 1] == before[j]);
                }
                assert(before[0].0 == after[0].0);
            } else {
                let o = if again {
                    k
                } else {
                    k - 1
                };
                assert(others[o] == after[k]);
                assert(is_last_of_its_key(rest, others[o]));
                let i = choose|i: int|
                    0 <= i < rest.len() && (#[trigger] rest[i]).0 == after[k].0 && is_settled(
                        rest[i].1,
                        after[k].1,
                    ) && forall|j: int| i < j < rest.len() ==> (#[trigger] rest[j]).0@
                        != rest[i].0@;
                assert(before[i + 1] == rest[i]);
                assert forall|j: int| i + 1 < j < before.len() implies (#[trigger] before[j]).0@
                    != before[i + 1].0@ by {
                    assert(rest[j - 1] == before[j]);
                }
            }
        }
    }
}

/// One of `after` is `one` with its value settled.
pub open spec fn is_kept(one: (String, Json), after: Seq<(String, Json)>) -> bool {
    exists|k: int|
        0 <= k < after.len() && (#[trigger] after[k]).0 == one.0 && is_settled(one.1, after[k].1)
}

/// `kept` is the last of its key in `before` with its value settled.
pub open spec fn is_last_of_its_key(
    before: Seq<(String, Json)>,
    kept: (String, Json),
) -> bool {
    exists|i: int|
        0 <= i < before.len() && (#[trigger] before[i]).0 == kept.0 && is_settled(
            before[i].1,
            kept.1,
        ) && forall|j: int| i < j < before.len() ==> (#[trigger] before[j]).0@ != before[i].0@
}

} // verus!
