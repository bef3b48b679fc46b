//! Reading records from JSON: the fields, and the rule for each kind of field.
//!
//! A price or a count that is there and cannot be read makes the record unreadable. It never
//! becomes an absent value.

use vstd::prelude::*;

use crate::fixed_point::{count_fp_str_to_contracts, dollars_str_to_cents};
use crate::json::{find_slots, DecodeError, Json};

verus! {

use crate::fixed_point::{count_in_contracts, dollars_in_cents};
use crate::json::{first_duplicate, member, named, slot_view, slots_of, slots_view};

// ---------------------------------------------------------------------------
// Records
// ---------------------------------------------------------------------------

/// A record that is read from a JSON object or array.
pub trait FromJson: Sized {
    /// The record as contracts speak of it.
    type Model;

    spec fn model(&self) -> Self::Model;

    /// The keys of the fields, in the order of their declaration.
    spec fn keys() -> Seq<&'static str>;

    /// How many elements an array that stands for the record holds at least.
    spec fn least() -> int;

    /// The record whose fields are read from these slots, one for each key.
    spec fn of_slots(slots: Seq<Option<Json>>) -> Result<Self::Model, DecodeError>;

    fn field_keys() -> (keys: (Vec<&'static str>, usize))
        ensures
            keys.0@ == Self::keys(),
            keys.1 == Self::least(),
    ;

    fn from_slots(slots: &Vec<Option<&Json>>) -> (record: Result<Self, DecodeError>)
        requires
            slots@.len() == Self::keys().len(),
        ensures
            match record {
                Ok(record) => Self::of_slots(slots_view(slots@)) == Ok::<Self::Model, DecodeError>(
                    record.model(),
                ),
                Err(e) => Self::of_slots(slots_view(slots@)) == Err::<Self::Model, DecodeError>(e),
            },
    ;
}

/// What `json` denotes as a record of type `T`.
pub open spec fn decoded<T: FromJson>(json: Json) -> Result<T::Model, DecodeError> {
    match slots_of(json, T::keys(), T::least()) {
        Ok(slots) => T::of_slots(slots),
        Err(e) => Err(e),
    }
}

/// `result` is what `model` says, for a record as contracts speak of it.
pub open spec fn is_record<T: FromJson>(
    result: Result<T, DecodeError>,
    model: Result<T::Model, DecodeError>,
) -> bool {
    match result {
        Ok(record) => model == Ok::<T::Model, DecodeError>(record.model()),
        Err(e) => model == Err::<T::Model, DecodeError>(e),
    }
}

/// Reads a record from `json`.
pub fn decode<T: FromJson>(json: &Json) -> (record: Result<T, DecodeError>)
    ensures
        is_record(record, decoded::<T>(*json)),
{
    let (keys, least) = T::field_keys();
    match find_slots(json, &keys, least) {
        Ok(slots) => {
            assert(slots_view(slots@).len() == keys@.len());
            T::from_slots(&slots)
        },
        Err(e) => Err(e),
    }
}

// ---------------------------------------------------------------------------
// Fields
// ---------------------------------------------------------------------------

pub open spec fn text_in(slot: Option<Json>, key: &'static str) -> Result<String, DecodeError> {
    match slot {
        None => Err(DecodeError::MissingField(key)),
        Some(Json::Str(text)) => Ok(text),
        Some(_) => Err(DecodeError::WrongType),
    }
}

/// A string that must be there.
pub fn text_field(slot: Option<&Json>, key: &'static str) -> (text: Result<String, DecodeError>)
    ensures
        text == text_in(slot_view(slot), key),
{
    match slot {
        None => Err(DecodeError::MissingField(key)),
        Some(Json::Str(text)) => Ok(text.clone()),
        Some(_) => Err(DecodeError::WrongType),
    }
}

pub open spec fn opt_text_in(slot: Option<Json>) -> Result<Option<String>, DecodeError> {
    match slot {
        None => Ok(None),
        Some(Json::Null) => Ok(None),
        Some(Json::Str(text)) => Ok(Some(text)),
        Some(_) => Err(DecodeError::WrongType),
    }
}

/// A string that may be absent or null.
pub fn opt_text_field(slot: Option<&Json>) -> (text: Result<Option<String>, DecodeError>)
    ensures
        text == opt_text_in(slot_view(slot)),
{
    match slot {
        None => Ok(None),
        Some(Json::Null) => Ok(None),
        Some(Json::Str(text)) => Ok(Some(text.clone())),
        Some(_) => Err(DecodeError::WrongType),
    }
}

pub open spec fn int_in(slot: Option<Json>, key: &'static str) -> Result<i64, DecodeError> {
    match slot {
        None => Err(DecodeError::MissingField(key)),
        Some(Json::Int(n)) => Ok(n),
        Some(_) => Err(DecodeError::WrongType),
    }
}

/// A whole number that must be there.
pub fn int_field(slot: Option<&Json>, key: &'static str) -> (n: Result<i64, DecodeError>)
    ensures
        n == int_in(slot_view(slot), key),
{
    match slot {
        None => Err(DecodeError::MissingField(key)),
        Some(Json::Int(n)) => Ok(*n),
        Some(_) => Err(DecodeError::WrongType),
    }
}

pub open spec fn opt_int_in(slot: Option<Json>) -> Result<Option<i64>, DecodeError> {
    match slot {
        None => Ok(None),
        Some(Json::Null) => Ok(None),
        Some(Json::Int(n)) => Ok(Some(n)),
        Some(_) => Err(DecodeError::WrongType),
    }
}

/// A whole number that may be absent or null.
pub fn opt_int_field(slot: Option<&Json>) -> (n: Result<Option<i64>, DecodeError>)
    ensures
        n == opt_int_in(slot_view(slot)),
{
    match slot {
        None => Ok(None),
        Some(Json::Null) => Ok(None),
        Some(Json::Int(n)) => Ok(Some(*n)),
        Some(_) => Err(DecodeError::WrongType),
    }
}

pub open spec fn opt_bool_in(slot: Option<Json>) -> Result<Option<bool>, DecodeError> {
    match slot {
        None => Ok(None),
        Some(Json::Null) => Ok(None),
        Some(Json::Bool(b)) => Ok(Some(b)),
        Some(_) => Err(DecodeError::WrongType),
    }
}

/// A truth value that may be absent or null.
pub fn opt_bool_field(slot: Option<&Json>) -> (b: Result<Option<bool>, DecodeError>)
    ensures
        b == opt_bool_in(slot_view(slot)),
{
    match slot {
        None => Ok(None),
        Some(Json::Null) => Ok(None),
        Some(Json::Bool(b)) => Ok(Some(*b)),
        Some(_) => Err(DecodeError::WrongType),
    }
}

/// The name of a variant without fields: a string, or an object whose only member has that name
/// and the value null.
pub open spec fn variant_in(json: Json) -> Result<String, DecodeError> {
    match json {
        Json::Str(name) => Ok(name),
        Json::Object(members) => if members@.len() == 1 && members@[0].1 is Null {
            Ok(members@[0].0)
        } else {
            Err(DecodeError::WrongType)
        },
        _ => Err(DecodeError::WrongType),
    }
}

/// The name of a variant without fields.
pub fn variant_field(json: &Json) -> (name: Result<String, DecodeError>)
    ensures
        name == variant_in(*json),
{
    match json {
        Json::Str(name) => Ok(name.clone()),
        Json::Object(members) => {
            if members.len() != 1 {
                return Err(DecodeError::WrongType);
            }
            match &members[0].1 {
                Json::Null => Ok(members[0].0.clone()),
                _ => Err(DecodeError::WrongType),
            }
        },
        _ => Err(DecodeError::WrongType),
    }
}

// ---------------------------------------------------------------------------
// Prices and counts
// ---------------------------------------------------------------------------

/// The cents of a price string, or the error that names the string.
pub open spec fn price_of(text: String) -> Result<i64, DecodeError> {
    match dollars_in_cents(text@) {
        Some(cents) => Ok(cents),
        None => Err(DecodeError::UnparseablePrice(text)),
    }
}

fn read_price(text: &String) -> (cents: Result<i64, DecodeError>)
    ensures
        cents == price_of(*text),
{
    match dollars_str_to_cents(text.as_str()) {
        Some(cents) => Ok(cents),
        None => Err(DecodeError::UnparseablePrice(text.clone())),
    }
}

/// The contracts of a count string, or the error that names the string.
pub open spec fn count_of(text: String) -> Result<i64, DecodeError> {
    match count_in_contracts(text@) {
        Some(contracts) => Ok(contracts),
        None => Err(DecodeError::UnparseableCount(text)),
    }
}

fn read_count(text: &String) -> (contracts: Result<i64, DecodeError>)
    ensures
        contracts == count_of(*text),
{
    match count_fp_str_to_contracts(text.as_str()) {
        Some(contracts) => Ok(contracts),
        None => Err(DecodeError::UnparseableCount(text.clone())),
    }
}

pub open spec fn cents_in(slot: Option<Json>, key: &'static str) -> Result<i64, DecodeError> {
    match text_in(slot, key) {
        Ok(text) => price_of(text),
        Err(e) => Err(e),
    }
}

/// A dollar price that must be there, in cents.
pub fn de_dollars_cents(slot: Option<&Json>, key: &'static str) -> (cents: Result<i64, DecodeError>)
    ensures
        cents == cents_in(slot_view(slot), key),
{
    match slot {
        None => Err(DecodeError::MissingField(key)),
        Some(Json::Str(text)) => read_price(text),
        Some(_) => Err(DecodeError::WrongType),
    }
}

pub open spec fn opt_cents_in(slot: Option<Json>) -> Result<Option<i64>, DecodeError> {
    match opt_text_in(slot) {
        Ok(Some(text)) => match price_of(text) {
            Ok(cents) => Ok(Some(cents)),
            Err(e) => Err(e),
        },
        Ok(None) => Ok(None),
        Err(e) => Err(e),
    }
}

/// A dollar price that may be absent or null, in cents. One that is there and cannot be read is
/// an error.
pub fn de_opt_dollars_cents(slot: Option<&Json>) -> (cents: Result<Option<i64>, DecodeError>)
    ensures
        cents == opt_cents_in(slot_view(slot)),
{
    match slot {
        None => Ok(None),
        Some(Json::Null) => Ok(None),
        Some(Json::Str(text)) => match read_price(text) {
            Ok(cents) => Ok(Some(cents)),
            Err(e) => Err(e),
        },
        Some(_) => Err(DecodeError::WrongType),
    }
}

pub open spec fn contracts_in(slot: Option<Json>, key: &'static str) -> Result<i64, DecodeError> {
    match text_in(slot, key) {
        Ok(text) => count_of(text),
        Err(e) => Err(e),
    }
}

/// A contract count that must be there. It keeps its sign.
pub fn de_count_fp_i64(slot: Option<&Json>, key: &'static str) -> (contracts: Result<
    i64,
    DecodeError,
>)
    ensures
        contracts == contracts_in(slot_view(slot), key),
{
    match slot {
        None => Err(DecodeError::MissingField(key)),
        Some(Json::Str(text)) => read_count(text),
        Some(_) => Err(DecodeError::WrongType),
    }
}

// ---------------------------------------------------------------------------
// The levels of a book
// ---------------------------------------------------------------------------

/// `json` is an array of two strings.
pub open spec fn is_text_pair(json: Json) -> bool {
    match json {
        Json::Array(two) => two@.len() == 2 && two@[0] is Str && two@[1] is Str,
        _ => false,
    }
}

/// The price in cents and the contracts of a pair of strings.
pub open spec fn level_of(pair: Json) -> Result<(i64, i64), DecodeError> {
    match price_of(pair->Array_0@[0]->Str_0) {
        Ok(cents) => match count_of(pair->Array_0@[1]->Str_0) {
            Ok(contracts) => Ok((cents, contracts)),
            Err(e) => Err(e),
        },
        Err(e) => Err(e),
    }
}

/// The levels of these pairs in order, or the error of the first pair that has one.
pub open spec fn levels_of(pairs: Seq<Json>) -> Result<Seq<(i64, i64)>, DecodeError>
    decreases pairs.len(),
{
    if pairs.len() == 0 {
        Ok(Seq::empty())
    } else {
        match levels_of(pairs.drop_last()) {
            Ok(levels) => match level_of(pairs.last()) {
                Ok(level) => Ok(levels.push(level)),
                Err(e) => Err(e),
            },
            Err(e) => Err(e),
        }
    }
}

pub open spec fn levels_in(slot: Option<Json>) -> Result<Seq<(i64, i64)>, DecodeError> {
    match slot {
        None => Ok(Seq::empty()),
        Some(Json::Array(pairs)) => if forall|i: int|
            0 <= i < pairs@.len() ==> is_text_pair(#[trigger] pairs@[i]) {
            levels_of(pairs@)
        } else {
            Err(DecodeError::WrongType)
        },
        Some(_) => Err(DecodeError::WrongType),
    }
}

/// Levels as contracts speak of them.
pub open spec fn levels_view(levels: Seq<[i64; 2]>) -> Seq<(i64, i64)> {
    levels.map_values(|level: [i64; 2]| (level@[0], level@[1]))
}

fn text_pair(json: &Json) -> (is: bool)
    ensures
        is == is_text_pair(*json),
{
    match json {
        Json::Array(two) => {
            if two.len() != 2 {
                return false;
            }
            match (&two[0], &two[1]) {
                (Json::Str(_), Json::Str(_)) => true,
                _ => false,
            }
        },
        _ => false,
    }
}

fn read_level(pair: &Json) -> (level: Result<[i64; 2], DecodeError>)
    requires
        is_text_pair(*pair),
    ensures
        match level {
            Ok(level) => level_of(*pair) == Ok::<(i64, i64), DecodeError>((level@[0], level@[1])),
            Err(e) => level_of(*pair) == Err::<(i64, i64), DecodeError>(e),
        },
{
    match pair {
        Json::Array(two) => match (&two[0], &two[1]) {
            (Json::Str(price), Json::Str(count)) => {
                let cents: i64 = read_price(price)?;
                let contracts: i64 = read_count(count)?;
                Ok([cents, contracts])
            },
            _ => Err(DecodeError::WrongType),
        },
        _ => Err(DecodeError::WrongType),
    }
}

/// One side of a book: `[[price, count], ..]`, both strings, as `[cents, contracts]` each. A side
/// that is absent is empty. One pair that cannot be read makes the side unreadable.
pub fn de_price_count_pairs(slot: Option<&Json>) -> (levels: Result<Vec<[i64; 2]>, DecodeError>)
    ensures
        match levels {
            Ok(levels) => levels_in(slot_view(slot)) == Ok::<Seq<(i64, i64)>, DecodeError>(
                levels_view(levels@),
            ),
            Err(e) => levels_in(slot_view(slot)) == Err::<Seq<(i64, i64)>, DecodeError>(e),
        },
{
    let pairs = match slot {
        None => {
            let none: Vec<[i64; 2]> = Vec::new();
            assert(levels_view(none@) =~= Seq::<(i64, i64)>::empty());
            return Ok(none);
        },
        Some(Json::Array(pairs)) => pairs,
        Some(_) => {
            return Err(DecodeError::WrongType);
        },
    };
    let mut i: usize = 0;
    while i < pairs.len()
        invariant
            i <= pairs@.len(),
            slot_view(slot) == Some(Json::Array(*pairs)),
            forall|j: int| 0 <= j < i ==> is_text_pair(#[trigger] pairs@[j]),
        decreases pairs.len() - i,
    {
        if !text_pair(&pairs[i]) {
            return Err(DecodeError::WrongType);
        }
        i += 1;
    }
    let mut levels: Vec<[i64; 2]> = Vec::new();
    let mut k: usize = 0;
    proof {
        assert(pairs@.take(0) =~= Seq::<Json>::empty());
        assert(levels_view(levels@) =~= Seq::<(i64, i64)>::empty());
    }
    while k < pairs.len()
        invariant
            k <= pairs@.len(),
            slot_view(slot) == Some(Json::Array(*pairs)),
            forall|j: int| 0 <= j < pairs@.len() ==> is_text_pair(#[trigger] pairs@[j]),
            levels_of(pairs@.take(k as int)) == Ok::<Seq<(i64, i64)>, DecodeError>(
                levels_view(levels@),
            ),
        decreases pairs.len() - k,
    {
        let ghost seen = levels@;
        proof {
            assert(pairs@.take(k + 1).drop_last() =~= pairs@.take(k as int));
            assert(pairs@.take(k + 1).last() == pairs@[k as int]);
        }
        match read_level(&pairs[k]) {
            Ok(level) => {
                levels.push(level);
                assert(levels_view(levels@) =~= levels_view(seen).push((level@[0], level@[1])));
            },
            Err(e) => {
                proof {
                    lemma_levels_error_stays(pairs@, k + 1);
                }
                return Err(e);
            },
        }
        k += 1;
    }
    assert(pairs@.take(pairs@.len() as int) =~= pairs@);
    Ok(levels)
}

proof fn lemma_levels_error_stays(pairs: Seq<Json>, k: int)
    requires
        0 <= k <= pairs.len(),
        levels_of(pairs.take(k)) is Err,
    ensures
        levels_of(pairs) == levels_of(pairs.take(k)),
    decreases pairs.len(),
{
    if k < pairs.len() {
        assert(pairs.drop_last().take(k) =~= pairs.take(k));
        lemma_levels_error_stays(pairs.drop_last(), k);
    } else {
        assert(pairs.take(k) =~= pairs);
    }
}

// ---------------------------------------------------------------------------
// Records in records
// ---------------------------------------------------------------------------

pub open spec fn record_in<T: FromJson>(slot: Option<Json>, key: &'static str) -> Result<
    T::Model,
    DecodeError,
> {
    match slot {
        None => Err(DecodeError::MissingField(key)),
        Some(json) => decoded::<T>(json),
    }
}

/// A record that must be there.
pub fn record_field<T: FromJson>(slot: Option<&Json>, key: &'static str) -> (record: Result<
    T,
    DecodeError,
>)
    ensures
        is_record(record, record_in::<T>(slot_view(slot), key)),
{
    match slot {
        None => Err(DecodeError::MissingField(key)),
        Some(json) => decode(json),
    }
}

/// The records in order, or the error of the first that has one.
pub open spec fn records_of<T: FromJson>(elements: Seq<Json>) -> Result<Seq<T::Model>, DecodeError>
    decreases elements.len(),
{
    if elements.len() == 0 {
        Ok(Seq::empty())
    } else {
        match records_of::<T>(elements.drop_last()) {
            Ok(records) => match decoded::<T>(elements.last()) {
                Ok(record) => Ok(records.push(record)),
                Err(e) => Err(e),
            },
            Err(e) => Err(e),
        }
    }
}

pub open spec fn records_in<T: FromJson>(slot: Option<Json>, key: &'static str) -> Result<
    Seq<T::Model>,
    DecodeError,
> {
    match slot {
        None => Err(DecodeError::MissingField(key)),
        Some(Json::Array(elements)) => records_of::<T>(elements@),
        Some(_) => Err(DecodeError::WrongType),
    }
}

pub open spec fn models<T: FromJson>(records: Seq<T>) -> Seq<T::Model> {
    records.map_values(|record: T| record.model())
}

/// A list of records that must be there.
pub fn records_field<T: FromJson>(slot: Option<&Json>, key: &'static str) -> (records: Result<
    Vec<T>,
    DecodeError,
>)
    ensures
        match records {
            Ok(records) => records_in::<T>(slot_view(slot), key) == Ok::<
                Seq<T::Model>,
                DecodeError,
            >(models(records@)),
            Err(e) => records_in::<T>(slot_view(slot), key) == Err::<Seq<T::Model>, DecodeError>(e),
        },
{
    let elements = match slot {
        None => {
            return Err(DecodeError::MissingField(key));
        },
        Some(Json::Array(elements)) => elements,
        Some(_) => {
            return Err(DecodeError::WrongType);
        },
    };
    let mut records: Vec<T> = Vec::new();
    let mut k: usize = 0;
    proof {
        assert(elements@.take(0) =~= Seq::<Json>::empty());
        assert(models(records@) =~= Seq::<T::Model>::empty());
    }
    while k < elements.len()
        invariant
            k <= elements@.len(),
            slot_view(slot) == Some(Json::Array(*elements)),
            records_of::<T>(elements@.take(k as int)) == Ok::<Seq<T::Model>, DecodeError>(
                models(records@),
            ),
        decreases elements.len() - k,
    {
        let ghost seen = records@;
        proof {
            assert(elements@.take(k + 1).drop_last() =~= elements@.take(k as int));
            assert(elements@.take(k + 1).last() == elements@[k as int]);
        }
        match decode::<T>(&elements[k]) {
            Ok(record) => {
                records.push(record);
                assert(models(records@) =~= models(seen).push(record.model()));
            },
            Err(e) => {
                proof {
                    lemma_records_error_stays::<T>(elements@, k + 1);
                }
                return Err(e);
            },
        }
        k += 1;
    }
    assert(elements@.take(elements@.len() as int) =~= elements@);
    Ok(records)
}

proof fn lemma_records_error_stays<T: FromJson>(elements: Seq<Json>, k: int)
    requires
        0 <= k <= elements.len(),
        records_of::<T>(elements.take(k)) is Err,
    ensures
        records_of::<T>(elements) == records_of::<T>(elements.take(k)),
    decreases elements.len(),
{
    if k < elements.len() {
        assert(elements.drop_last().take(k) =~= elements.take(k));
        lemma_records_error_stays::<T>(elements.drop_last(), k);
    } else {
        assert(elements.take(k) =~= elements);
    }
}

// ---------------------------------------------------------------------------
// Laws
// ---------------------------------------------------------------------------

/// Forward compatibility: a member whose key a record does not know, wherever it stands in the
/// object and whatever its value, does not change what the object denotes.
pub proof fn law_unknown_members_are_ignored<T: FromJson>(
    plain: Json,
    extended: Json,
    front: Seq<(String, Json)>,
    extra: (String, Json),
    back: Seq<(String, Json)>,
)
    requires
        plain is Object,
        plain->Object_0@ == front + back,
        extended is Object,
        extended->Object_0@ == front + seq![extra] + back,
        forall|i: int| 0 <= i < T::keys().len() ==> #[trigger] T::keys()[i]@ != extra.0@,
    ensures
        decoded::<T>(extended) == decoded::<T>(plain),
{
    let keys = T::keys();
    assert forall|i: int| 0 <= i < keys.len() implies named(
        extended->Object_0@,
        #[trigger] keys[i]@,
    ) == named(plain->Object_0@, keys[i]@) by {
        let p = |m: (String, Json)| m.0@ == keys[i]@;
        Seq::filter_distributes_over_add(front + seq![extra], back, p);
        Seq::filter_distributes_over_add(front, seq![extra], p);
        Seq::filter_distributes_over_add(front, back, p);
        reveal_with_fuel(Seq::filter, 2);
        assert(T::keys()[i]@ != extra.0@);
        assert(!p(extra));
        assert(seq![extra].last() == extra);
        assert(seq![extra].drop_last() =~= Seq::<(String, Json)>::empty());
        assert(seq![extra].filter(p) =~= Seq::<(String, Json)>::empty());
        assert(front.filter(p) + seq![extra].filter(p) =~= front.filter(p));
    }
    lemma_same_duplicates(extended->Object_0@, plain->Object_0@, keys);
    assert(Seq::new(keys.len(), |i: int| member(extended->Object_0@, keys[i]@)) =~= Seq::new(
        keys.len(),
        |i: int| member(plain->Object_0@, keys[i]@),
    ));
}

proof fn lemma_same_duplicates(
    a: Seq<(String, Json)>,
    b: Seq<(String, Json)>,
    keys: Seq<&'static str>,
)
    requires
        forall|i: int| 0 <= i < keys.len() ==> named(a, #[trigger] keys[i]@) == named(b, keys[i]@),
    ensures
        first_duplicate(a, keys) == first_duplicate(b, keys),
    decreases keys.len(),
{
    if keys.len() > 0 {
        assert forall|i: int| 0 <= i < keys.len() - 1 implies named(
            a,
            #[trigger] keys.drop_last()[i]@,
        ) == named(b, keys.drop_last()[i]@) by {
            assert(keys.drop_last()[i] == keys[i]);
        }
        lemma_same_duplicates(a, b, keys.drop_last());
        assert(named(a, keys[keys.len() - 1]@) == named(b, keys[keys.len() - 1]@));
    }
}

/// The order of an object's members does not matter: neighbours with different keys may change
/// places.
pub proof fn law_member_order_is_free<T: FromJson>(
    one: Json,
    other: Json,
    front: Seq<(String, Json)>,
    a: (String, Json),
    b: (String, Json),
    back: Seq<(String, Json)>,
)
    requires
        one is Object,
        one->Object_0@ == front + seq![a, b] + back,
        other is Object,
        other->Object_0@ == front + seq![b, a] + back,
        a.0@ != b.0@,
    ensures
        decoded::<T>(one) == decoded::<T>(other),
{
    let keys = T::keys();
    assert forall|i: int| 0 <= i < keys.len() implies named(one->Object_0@, #[trigger] keys[i]@)
        == named(other->Object_0@, keys[i]@) by {
        let p = |m: (String, Json)| m.0@ == keys[i]@;
        Seq::filter_distributes_over_add(front + seq![a, b], back, p);
        Seq::filter_distributes_over_add(front, seq![a, b], p);
        Seq::filter_distributes_over_add(front + seq![b, a], back, p);
        Seq::filter_distributes_over_add(front, seq![b, a], p);
        lemma_filter_pair(a, b, p);
        lemma_filter_pair(b, a, p);
    }
    lemma_same_duplicates(one->Object_0@, other->Object_0@, keys);
    assert(Seq::new(keys.len(), |i: int| member(one->Object_0@, keys[i]@)) =~= Seq::new(
        keys.len(),
        |i: int| member(other->Object_0@, keys[i]@),
    ));
}

proof fn lemma_filter_pair(
    a: (String, Json),
    b: (String, Json),
    p: spec_fn((String, Json)) -> bool,
)
    requires
        !(p(a) && p(b)),
    ensures
        seq![a, b].filter(p) == (if p(a) {
            seq![a]
        } else if p(b) {
            seq![b]
        } else {
            Seq::empty()
        }),
{
    reveal_with_fuel(Seq::filter, 3);
    assert(seq![a, b].drop_last() =~= seq![a]);
    assert(seq![a].drop_last() =~= Seq::<(String, Json)>::empty());
    assert(seq![a].filter(p) =~= (if p(a) {
        seq![a]
    } else {
        Seq::empty()
    }));
    assert(seq![a, b].filter(p) =~= (if p(a) {
        seq![a]
    } else if p(b) {
        seq![b]
    } else {
        Seq::empty()
    }));
}

/// A price that is there is never lost: an optional price field decodes to nothing only where it
/// is absent or null.
pub proof fn law_no_price_is_lost(slot: Option<Json>)
    ensures
        opt_cents_in(slot) == Ok::<Option<i64>, DecodeError>(None) <==> slot is None || slot
            == Some(Json::Null),
{
}

/// No level of a book is lost: a side that decodes has one level for each pair, in order, and each
/// is what its pair says.
pub proof fn law_no_level_is_lost(pairs: Seq<Json>)
    requires
        levels_of(pairs) is Ok,
    ensures
        levels_of(pairs)->Ok_0.len() == pairs.len(),
        forall|i: int|
            0 <= i < pairs.len() ==> level_of(#[trigger] pairs[i]) == Ok::<(i64, i64), DecodeError>(
                levels_of(pairs)->Ok_0[i],
            ),
    decreases pairs.len(),
{
    if pairs.len() > 0 {
        let front = pairs.drop_last();
        law_no_level_is_lost(front);
        assert forall|i: int| 0 <= i < pairs.len() implies level_of(#[trigger] pairs[i]) == Ok::<
            (i64, i64),
            DecodeError,
        >(levels_of(pairs)->Ok_0[i]) by {
            if i < front.len() {
                assert(front[i] == pairs[i]);
            }
        }
    }
}

/// No record of a list is lost: a list that decodes has one record for each element, in order, and
/// each is what its element says.
pub proof fn law_no_record_is_lost<T: FromJson>(elements: Seq<Json>)
    requires
        records_of::<T>(elements) is Ok,
    ensures
        records_of::<T>(elements)->Ok_0.len() == elements.len(),
        forall|i: int|
            0 <= i < elements.len() ==> decoded::<T>(#[trigger] elements[i]) == Ok::<
                T::Model,
                DecodeError,
            >(records_of::<T>(elements)->Ok_0[i]),
    decreases elements.len(),
{
    if elements.len() > 0 {
        let front = elements.drop_last();
        law_no_record_is_lost::<T>(front);
        assert forall|i: int| 0 <= i < elements.len() implies decoded::<T>(#[trigger] elements[i])
            == Ok::<T::Model, DecodeError>(records_of::<T>(elements)->Ok_0[i]) by {
            if i < front.len() {
                assert(front[i] == elements[i]);
            }
        }
    }
}

/// A record that was read is what its JSON value denotes, and an error is that of the value.
pub proof fn law_result_is_what_the_value_denotes<T: FromJson>(
    json: Json,
    record: T,
    error: DecodeError,
)
    ensures
        is_record(Ok::<T, DecodeError>(record), decoded::<T>(json)) <==> decoded::<T>(json) == Ok::<
            T::Model,
            DecodeError,
        >(record.model()),
        is_record::<T>(Err(error), decoded::<T>(json)) <==> decoded::<T>(json) == Err::<
            T::Model,
            DecodeError,
        >(error),
{
}

/// Levels and records as contracts speak of them are those that code holds, one for one.
pub proof fn law_views_are_one_for_one<T: FromJson>(levels: Seq<[i64; 2]>, records: Seq<T>, i: int)
    ensures
        levels_view(levels).len() == levels.len(),
        0 <= i < levels.len() ==> levels_view(levels)[i] == (levels[i]@[0], levels[i]@[1]),
        models(records).len() == records.len(),
        0 <= i < records.len() ==> models(records)[i] == records[i].model(),
{
}

/// A value that is neither an object nor an array is no record, and an array of the wrong length is
/// none.
pub proof fn law_only_objects_and_arrays_are_records<T: FromJson>(json: Json)
    ensures
        !(json is Object) && !(json is Array) ==> decoded::<T>(json) == Err::<
            T::Model,
            DecodeError,
        >(DecodeError::WrongType),
        json is Array && !(T::least() <= json->Array_0@.len() <= T::keys().len()) ==> decoded::<T>(
            json,
        ) == Err::<T::Model, DecodeError>(DecodeError::WrongLength),
{
}

} // verus!
