//! What a JSON value says of a field, in the plainest words: by the member of the field's name in
//! an object, or by the element at the field's place in an array.
//!
//! The laws of the records are stated in these words. They speak of members and elements alone, so
//! they fix which name and which place each field of a record is read from.

use vstd::prelude::*;

use crate::json::{DecodeError, Json};

verus! {

use crate::decode::{
    cents_in, contracts_in, count_of, decoded, int_in, is_text_pair, level_of, levels_in,
    levels_of, opt_bool_in, opt_cents_in, opt_int_in, opt_text_in, price_of, record_in,
    records_in, records_of, text_in, FromJson,
};
use crate::fixed_point::{count_in_contracts, dollars_in_cents};
use crate::json::{first_duplicate, member, named};

// ---------------------------------------------------------------------------
// Members
// ---------------------------------------------------------------------------

/// No two members have the key `key`.
pub open spec fn once(members: Seq<(String, Json)>, key: Seq<char>) -> bool {
    forall|i: int, j: int|
        0 <= i < j < members.len() && (#[trigger] members[i]).0@ == key ==> (
        #[trigger] members[j]).0@ != key
}

/// No member has the key `key`.
pub open spec fn lacks(members: Seq<(String, Json)>, key: Seq<char>) -> bool {
    forall|i: int| 0 <= i < members.len() ==> (#[trigger] members[i]).0@ != key
}

proof fn lemma_once(members: Seq<(String, Json)>, key: Seq<char>)
    ensures
        once(members, key) <==> named(members, key).len() <= 1,
        lacks(members, key) <==> named(members, key).len() == 0,
    decreases members.len(),
{
    reveal(Seq::filter);
    if members.len() > 0 {
        let front = members.drop_last();
        let last = members.last();
        lemma_once(front, key);
        assert(forall|i: int| 0 <= i < front.len() ==> front[i] == members[i]);
        assert(last == members[members.len() - 1]);
        if last.0@ == key {
            if lacks(front, key) {
                assert(once(members, key));
            } else {
                let i = choose|i: int| 0 <= i < front.len() && (#[trigger] front[i]).0@ == key;
                assert(members[i].0@ == key);
                assert(!once(members, key));
            }
        } else {
            if !once(front, key) {
                let (i, j) = choose|i: int, j: int|
                    0 <= i < j < front.len() && (#[trigger] front[i]).0@ == key && (
                    #[trigger] front[j]).0@ == key;
                assert(members[i].0@ == key && members[j].0@ == key);
            }
        }
    }
}

/// The value that an object has under a key is that of the member with the key: of the only one
/// where there is one, nothing where there is none.
pub proof fn law_member_is_the_one_of_its_name(
    members: Seq<(String, Json)>,
    key: Seq<char>,
    at: int,
)
    requires
        once(members, key),
        0 <= at < members.len() ==> members[at].0@ == key,
        !(0 <= at < members.len()) ==> lacks(members, key),
    ensures
        member(members, key) == (if 0 <= at < members.len() {
            Some(members[at].1)
        } else {
            None
        }),
    decreases members.len(),
{
    lemma_once(members, key);
    if 0 <= at < members.len() {
        let p = |m: (String, Json)| m.0@ == key;
        let front = members.take(at);
        let back = members.skip(at + 1);
        assert(members =~= front + seq![members[at]] + back);
        Seq::filter_distributes_over_add(front + seq![members[at]], back, p);
        Seq::filter_distributes_over_add(front, seq![members[at]], p);
        assert forall|i: int| 0 <= i < front.len() implies (#[trigger] front[i]).0@ != key by {
            assert(front[i] == members[i]);
        }
        lemma_once(front, key);
        reveal_with_fuel(Seq::filter, 2);
        assert(seq![members[at]].drop_last() =~= Seq::<(String, Json)>::empty());
        assert(seq![members[at]].filter(p) =~= seq![members[at]]);
        assert(named(members, key)[0] == members[at]);
    }
}

/// A key that an object knows may stand in it once: a record decodes only where none of its keys
/// is there twice.
pub proof fn law_first_duplicate_is_there_twice(
    members: Seq<(String, Json)>,
    keys: Seq<&'static str>,
)
    ensures
        first_duplicate(members, keys) is None <==> forall|k: int|
            0 <= k < keys.len() ==> once(members, #[trigger] keys[k]@),
        first_duplicate(members, keys) is Some ==> !once(
            members,
            first_duplicate(members, keys)->0@,
        ),
    decreases keys.len(),
{
    if keys.len() > 0 {
        let front = keys.drop_last();
        law_first_duplicate_is_there_twice(members, front);
        lemma_once(members, keys.last()@);
        assert(forall|k: int| 0 <= k < front.len() ==> front[k] == keys[k]);
        assert(keys.last() == keys[keys.len() - 1]);
        if forall|k: int| 0 <= k < keys.len() ==> once(members, #[trigger] keys[k]@) {
            assert forall|k: int| 0 <= k < front.len() implies once(members,
                #[trigger] front[k]@) by {
                assert(once(members, keys[k]@));
            }
            assert(once(members, keys[keys.len() - 1]@));
        }
        if first_duplicate(members, keys) is None {
            assert forall|k: int| 0 <= k < keys.len() implies once(members,
                #[trigger] keys[k]@) by {
                if k < front.len() {
                    assert(once(members, front[k]@));
                }
            }
        }
    }
}

// ---------------------------------------------------------------------------
// What stands there
// ---------------------------------------------------------------------------

/// The element at place `k`, where there is one.
pub open spec fn place(elements: Seq<Json>, k: int) -> Option<Json> {
    if k < elements.len() {
        Some(elements[k])
    } else {
        None
    }
}

/// Nothing stands there, or null.
pub open spec fn absent(found: Option<Json>) -> bool {
    found is None || found == Some(Json::Null)
}

pub open spec fn says_text(found: Option<Json>, text: String) -> bool {
    found == Some(Json::Str(text))
}

pub open spec fn says_opt_text(found: Option<Json>, text: Option<String>) -> bool {
    match text {
        Some(text) => found == Some(Json::Str(text)),
        None => absent(found),
    }
}

pub open spec fn says_int(found: Option<Json>, n: i64) -> bool {
    found == Some(Json::Int(n))
}

pub open spec fn says_opt_int(found: Option<Json>, n: Option<i64>) -> bool {
    match n {
        Some(n) => found == Some(Json::Int(n)),
        None => absent(found),
    }
}

pub open spec fn says_opt_bool(found: Option<Json>, b: Option<bool>) -> bool {
    match b {
        Some(b) => found == Some(Json::Bool(b)),
        None => absent(found),
    }
}

/// A string stands there that is a price of so many cents.
pub open spec fn says_cents(found: Option<Json>, cents: i64) -> bool {
    found is Some && found->0 is Str && dollars_in_cents(found->0->Str_0@) == Some(cents)
}

pub open spec fn says_opt_cents(found: Option<Json>, cents: Option<i64>) -> bool {
    match cents {
        Some(cents) => says_cents(found, cents),
        None => absent(found),
    }
}

/// A string stands there that is a count of so many contracts.
pub open spec fn says_contracts(found: Option<Json>, contracts: i64) -> bool {
    found is Some && found->0 is Str && count_in_contracts(found->0->Str_0@) == Some(contracts)
}

/// Two strings stand in an array: a price of so many cents, and a count of so many contracts.
pub open spec fn says_level(json: Json, level: (i64, i64)) -> bool {
    &&& json is Array
    &&& json->Array_0@.len() == 2
    &&& json->Array_0@[0] is Str
    &&& json->Array_0@[1] is Str
    &&& dollars_in_cents(json->Array_0@[0]->Str_0@) == Some(level.0)
    &&& count_in_contracts(json->Array_0@[1]->Str_0@) == Some(level.1)
}

/// An array of levels stands there, or nothing where there are none.
pub open spec fn says_levels(found: Option<Json>, levels: Seq<(i64, i64)>) -> bool {
    match found {
        Some(json) => {
            &&& json is Array
            &&& json->Array_0@.len() == levels.len()
            &&& forall|i: int|
                0 <= i < levels.len() ==> says_level(#[trigger] json->Array_0@[i], levels[i])
        },
        None => levels.len() == 0,
    }
}

/// A value stands there that decodes to this record.
pub open spec fn says_record<T: FromJson>(found: Option<Json>, record: T::Model) -> bool {
    found is Some && decoded::<T>(found->0) == Ok::<T::Model, DecodeError>(record)
}

/// An array stands there whose elements decode to these records, one for one.
pub open spec fn says_records<T: FromJson>(found: Option<Json>, records: Seq<T::Model>) -> bool {
    &&& found is Some
    &&& found->0 is Array
    &&& found->0->Array_0@.len() == records.len()
    &&& forall|i: int|
        0 <= i < records.len() ==> decoded::<T>(#[trigger] found->0->Array_0@[i]) == Ok::<
            T::Model,
            DecodeError,
        >(records[i])
}

/// A string, or null where there is none.
pub open spec fn writes_opt_text(json: Json, text: Option<String>) -> bool {
    match text {
        Some(text) => json == Json::Str(text),
        None => json == Json::Null,
    }
}

/// A whole number, or null where there is none.
pub open spec fn writes_opt_int(json: Json, n: Option<i64>) -> bool {
    match n {
        Some(n) => json == Json::Int(n),
        None => json == Json::Null,
    }
}

/// A string with these characters.
pub open spec fn writes_word(json: Json, word: Seq<char>) -> bool {
    json is Str && json->Str_0@ == word
}

/// An array of levels, each an array of two whole numbers.
pub open spec fn writes_levels(json: Json, levels: Seq<[i64; 2]>) -> bool {
    &&& json is Array
    &&& json->Array_0@.len() == levels.len()
    &&& forall|i: int|
        0 <= i < levels.len() ==> {
            &&& (#[trigger] json->Array_0@[i]) is Array
            &&& json->Array_0@[i]->Array_0@.len() == 2
            &&& json->Array_0@[i]->Array_0@[0] == Json::Int(levels[i]@[0])
            &&& json->Array_0@[i]->Array_0@[1] == Json::Int(levels[i]@[1])
        }
}

// ---------------------------------------------------------------------------
// Laws of the fields
// ---------------------------------------------------------------------------

/// A field that must be there is read where the value says it, and only there.
pub proof fn law_required_fields(
    found: Option<Json>,
    key: &'static str,
    text: String,
    n: i64,
)
    ensures
        text_in(found, key) == Ok::<String, DecodeError>(text) <==> says_text(found, text),
        int_in(found, key) == Ok::<i64, DecodeError>(n) <==> says_int(found, n),
        cents_in(found, key) == Ok::<i64, DecodeError>(n) <==> says_cents(found, n),
        contracts_in(found, key) == Ok::<i64, DecodeError>(n) <==> says_contracts(found, n),
        found is None ==> text_in(found, key) == Err::<String, DecodeError>(
            DecodeError::MissingField(key),
        ),
{
}

/// A field that may be absent is read where the value says it, and only there.
pub proof fn law_optional_fields(
    found: Option<Json>,
    text: Option<String>,
    n: Option<i64>,
    b: Option<bool>,
)
    ensures
        opt_text_in(found) == Ok::<Option<String>, DecodeError>(text) <==> says_opt_text(
            found,
            text,
        ),
        opt_int_in(found) == Ok::<Option<i64>, DecodeError>(n) <==> says_opt_int(found, n),
        opt_bool_in(found) == Ok::<Option<bool>, DecodeError>(b) <==> says_opt_bool(found, b),
        opt_cents_in(found) == Ok::<Option<i64>, DecodeError>(n) <==> says_opt_cents(found, n),
{
}

/// A price or a count that cannot be read is an error that names it.
pub proof fn law_unreadable_text_is_named(text: String)
    ensures
        dollars_in_cents(text@) is None ==> price_of(text) == Err::<i64, DecodeError>(
            DecodeError::UnparseablePrice(text),
        ),
        count_in_contracts(text@) is None ==> count_of(text) == Err::<i64, DecodeError>(
            DecodeError::UnparseableCount(text),
        ),
{
}

/// The levels of a book are read where the value says them, and only there.
pub proof fn law_levels_field(found: Option<Json>, levels: Seq<(i64, i64)>)
    ensures
        levels_in(found) == Ok::<Seq<(i64, i64)>, DecodeError>(levels) <==> says_levels(
            found,
            levels,
        ),
{
    if found is Some && found->0 is Array {
        lemma_levels(found->0->Array_0@, levels);
    }
    if found is None && levels.len() == 0 {
        assert(levels =~= Seq::empty());
    }
}

proof fn lemma_levels(pairs: Seq<Json>, levels: Seq<(i64, i64)>)
    ensures
        ((forall|i: int| 0 <= i < pairs.len() ==> is_text_pair(#[trigger] pairs[i])) && levels_of(
            pairs,
        ) == Ok::<Seq<(i64, i64)>, DecodeError>(levels)) <==> (pairs.len() == levels.len()
            && forall|i: int|
            0 <= i < levels.len() ==> says_level(#[trigger] pairs[i], levels[i])),
    decreases pairs.len(),
{
    if pairs.len() == 0 {
        if levels.len() == 0 {
            assert(levels =~= Seq::empty());
        }
    } else {
        let front = pairs.drop_last();
        let last = pairs.last();
        let few = levels.drop_last();
        assert(forall|i: int| 0 <= i < front.len() ==> front[i] == pairs[i]);
        assert(last == pairs[pairs.len() - 1]);
        lemma_levels(front, few);
        let all_pairs = forall|i: int| 0 <= i < pairs.len() ==> is_text_pair(#[trigger] pairs[i]);
        if all_pairs && levels_of(pairs) == Ok::<Seq<(i64, i64)>, DecodeError>(levels) {
            assert(is_text_pair(pairs[pairs.len() - 1]));
            assert forall|i: int| 0 <= i < front.len() implies is_text_pair(
                #[trigger] front[i],
            ) by {
                assert(is_text_pair(pairs[i]));
            }
            let read = levels_of(front)->Ok_0;
            assert(levels == read.push(level_of(last)->Ok_0));
            assert(few =~= read);
            assert forall|i: int| 0 <= i < levels.len() implies says_level(
                #[trigger] pairs[i],
                levels[i],
            ) by {
                if i < front.len() {
                    assert(says_level(front[i], few[i]));
                }
            }
        }
        if pairs.len() == levels.len() && forall|i: int|
            0 <= i < levels.len() ==> says_level(#[trigger] pairs[i], levels[i]) {
            assert forall|i: int| 0 <= i < few.len() implies says_level(
                #[trigger] front[i],
                few[i],
            ) by {
                assert(says_level(pairs[i], levels[i]));
            }
            assert(says_level(pairs[pairs.len() - 1], levels[levels.len() - 1]));
            assert forall|i: int| 0 <= i < pairs.len() implies is_text_pair(
                #[trigger] pairs[i],
            ) by {
                assert(says_level(pairs[i], levels[i]));
            }
            assert(few.push(levels.last()) =~= levels);
        }
    }
}

/// A record in a record is read where the value says it, and only there.
pub proof fn law_record_field<T: FromJson>(found: Option<Json>, key: &'static str, record: T::Model)
    ensures
        record_in::<T>(found, key) == Ok::<T::Model, DecodeError>(record) <==> says_record::<T>(
            found,
            record,
        ),
{
}

/// A list of records is read where the value says it, and only there.
pub proof fn law_records_field<T: FromJson>(
    found: Option<Json>,
    key: &'static str,
    records: Seq<T::Model>,
)
    ensures
        records_in::<T>(found, key) == Ok::<Seq<T::Model>, DecodeError>(records)
            <==> says_records::<T>(found, records),
{
    if found is Some && found->0 is Array {
        lemma_records::<T>(found->0->Array_0@, records);
    }
}

proof fn lemma_records<T: FromJson>(elements: Seq<Json>, records: Seq<T::Model>)
    ensures
        records_of::<T>(elements) == Ok::<Seq<T::Model>, DecodeError>(records) <==> (elements.len()
            == records.len() && forall|i: int|
            0 <= i < records.len() ==> decoded::<T>(#[trigger] elements[i]) == Ok::<
                T::Model,
                DecodeError,
            >(records[i])),
    decreases elements.len(),
{
    if elements.len() == 0 {
        if records.len() == 0 {
            assert(records =~= Seq::empty());
        }
    } else {
        let front = elements.drop_last();
        let few = records.drop_last();
        assert(forall|i: int| 0 <= i < front.len() ==> front[i] == elements[i]);
        lemma_records::<T>(front, few);
        if records_of::<T>(elements) == Ok::<Seq<T::Model>, DecodeError>(records) {
            let read = records_of::<T>(front)->Ok_0;
            assert(records == read.push(decoded::<T>(elements.last())->Ok_0));
            assert(few =~= read);
            assert forall|i: int| 0 <= i < records.len() implies decoded::<T>(
                #[trigger] elements[i],
            ) == Ok::<T::Model, DecodeError>(records[i]) by {
                if i < front.len() {
                    assert(decoded::<T>(front[i]) == Ok::<T::Model, DecodeError>(few[i]));
                }
            }
        }
        if elements.len() == records.len() && forall|i: int|
            0 <= i < records.len() ==> decoded::<T>(#[trigger] elements[i]) == Ok::<
                T::Model,
                DecodeError,
            >(records[i]) {
            assert forall|i: int| 0 <= i < few.len() implies decoded::<T>(#[trigger] front[i])
                == Ok::<T::Model, DecodeError>(few[i]) by {
                assert(decoded::<T>(elements[i]) == Ok::<T::Model, DecodeError>(records[i]));
            }
            assert(decoded::<T>(elements[elements.len() - 1]) == Ok::<T::Model, DecodeError>(
                records[records.len() - 1],
            ));
            assert(few.push(records.last()) =~= records);
        }
    }
}

} // verus!
