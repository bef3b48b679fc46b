//! Orders: the requests that place and amend them, and what the venue answers.
//!
//! The venue has a single book. Every order is a bid or an ask on YES. Counts and prices are
//! fixed-point strings.

use vstd::prelude::*;

use crate::decode::{
    opt_int_field, opt_text_field, record_field, records_field, text_field, variant_field, FromJson,
};
use crate::encode::{
    put_int_if_present, put_opt_int, put_opt_text, put_text, put_text_if_present, put_word, ToJson,
};
use crate::fixed_point::count_fp_str_to_contracts;
use crate::json::{DecodeError, Json};
use crate::text::same_text;

verus! {

use crate::decode::{
    decoded, models, opt_int_in, opt_text_in, record_in, records_in, text_in, variant_in,
};
use crate::encode::{
    are_members, distinct_keys, int_if_present, is_member, is_object, lemma_distinct_by_mark,
    lemma_slots_of_written, mark, opt_int, opt_text, text_if_present, written_slots, Value,
};
use crate::fixed_point::count_in_contracts;
use crate::fields::{
    absent, law_first_duplicate_is_there_twice, law_record_field, law_records_field, once,
    place, says_opt_int, says_opt_text, says_record, says_records, says_text, writes_opt_int,
    writes_opt_text, writes_word,
};
use crate::json::{first_duplicate, member, slots_of};

/// The side of an order on the YES book: a bid buys YES, an ask sells YES.
#[derive(Debug, Clone, Copy, PartialEq, Eq, Structural)]
pub enum V2Side {
    Bid,
    Ask,
}

impl V2Side {
    /// The word for it on the wire.
    pub open spec fn word(self) -> Seq<char> {
        match self {
            V2Side::Bid => "bid"@,
            V2Side::Ask => "ask"@,
        }
    }

    /// The word for it on the wire.
    pub fn wire(self) -> (word: &'static str)
        ensures
            word@ == self.word(),
    {
        match self {
            V2Side::Bid => "bid",
            V2Side::Ask => "ask",
        }
    }

    /// What a JSON value denotes: the variant that it names.
    pub open spec fn of_json(json: Json) -> Result<V2Side, DecodeError> {
        match variant_in(json) {
            Ok(name) => if name@ == V2Side::Bid.word() {
                Ok(V2Side::Bid)
            } else if name@ == V2Side::Ask.word() {
                Ok(V2Side::Ask)
            } else {
                Err(DecodeError::UnknownVariant)
            },
            Err(e) => Err(e),
        }
    }

    pub fn from_json(json: &Json) -> (variant: Result<V2Side, DecodeError>)
        ensures
            variant == V2Side::of_json(*json),
    {
        let name = variant_field(json)?;
        if same_text(name.as_str(), "bid") {
            Ok(V2Side::Bid)
        } else if same_text(name.as_str(), "ask") {
            Ok(V2Side::Ask)
        } else {
            Err(DecodeError::UnknownVariant)
        }
    }
}

/// How long an order stands.
#[derive(Debug, Clone, Copy, PartialEq, Eq, Structural)]
pub enum TimeInForce {
    FillOrKill,
    GoodTillCanceled,
    ImmediateOrCancel,
}

impl TimeInForce {
    /// The word for it on the wire.
    pub open spec fn word(self) -> Seq<char> {
        match self {
            TimeInForce::FillOrKill => "fill_or_kill"@,
            TimeInForce::GoodTillCanceled => "good_till_canceled"@,
            TimeInForce::ImmediateOrCancel => "immediate_or_cancel"@,
        }
    }

    /// The word for it on the wire.
    pub fn wire(self) -> (word: &'static str)
        ensures
            word@ == self.word(),
    {
        match self {
            TimeInForce::FillOrKill => "fill_or_kill",
            TimeInForce::GoodTillCanceled => "good_till_canceled",
            TimeInForce::ImmediateOrCancel => "immediate_or_cancel",
        }
    }

    /// What a JSON value denotes: the variant that it names.
    pub open spec fn of_json(json: Json) -> Result<TimeInForce, DecodeError> {
        match variant_in(json) {
            Ok(name) => if name@ == TimeInForce::FillOrKill.word() {
                Ok(TimeInForce::FillOrKill)
            } else if name@ == TimeInForce::GoodTillCanceled.word() {
                Ok(TimeInForce::GoodTillCanceled)
            } else if name@ == TimeInForce::ImmediateOrCancel.word() {
                Ok(TimeInForce::ImmediateOrCancel)
            } else {
                Err(DecodeError::UnknownVariant)
            },
            Err(e) => Err(e),
        }
    }

    pub fn from_json(json: &Json) -> (variant: Result<TimeInForce, DecodeError>)
        ensures
            variant == TimeInForce::of_json(*json),
    {
        let name = variant_field(json)?;
        if same_text(name.as_str(), "fill_or_kill") {
            Ok(TimeInForce::FillOrKill)
        } else if same_text(name.as_str(), "good_till_canceled") {
            Ok(TimeInForce::GoodTillCanceled)
        } else if same_text(name.as_str(), "immediate_or_cancel") {
            Ok(TimeInForce::ImmediateOrCancel)
        } else {
            Err(DecodeError::UnknownVariant)
        }
    }
}

/// What happens where an order would trade with one of our own.
#[derive(Debug, Clone, Copy, PartialEq, Eq, Structural)]
pub enum SelfTradePreventionType {
    /// Cancels the incoming order.
    TakerAtCross,
    /// Cancels the resting order.
    Maker,
}

impl SelfTradePreventionType {
    /// The word for it on the wire.
    pub open spec fn word(self) -> Seq<char> {
        match self {
            SelfTradePreventionType::TakerAtCross => "taker_at_cross"@,
            SelfTradePreventionType::Maker => "maker"@,
        }
    }

    /// The word for it on the wire.
    pub fn wire(self) -> (word: &'static str)
        ensures
            word@ == self.word(),
    {
        match self {
            SelfTradePreventionType::TakerAtCross => "taker_at_cross",
            SelfTradePreventionType::Maker => "maker",
        }
    }

    /// What a JSON value denotes: the variant that it names.
    pub open spec fn of_json(json: Json) -> Result<SelfTradePreventionType, DecodeError> {
        match variant_in(json) {
            Ok(name) => if name@ == SelfTradePreventionType::TakerAtCross.word() {
                Ok(SelfTradePreventionType::TakerAtCross)
            } else if name@ == SelfTradePreventionType::Maker.word() {
                Ok(SelfTradePreventionType::Maker)
            } else {
                Err(DecodeError::UnknownVariant)
            },
            Err(e) => Err(e),
        }
    }

    pub fn from_json(json: &Json) -> (variant: Result<SelfTradePreventionType, DecodeError>)
        ensures
            variant == SelfTradePreventionType::of_json(*json),
    {
        let name = variant_field(json)?;
        if same_text(name.as_str(), "taker_at_cross") {
            Ok(SelfTradePreventionType::TakerAtCross)
        } else if same_text(name.as_str(), "maker") {
            Ok(SelfTradePreventionType::Maker)
        } else {
            Err(DecodeError::UnknownVariant)
        }
    }
}

/// The leg of a binary market.
#[derive(Debug, Clone, Copy, PartialEq, Eq, Structural)]
pub enum OrderSide {
    Yes,
    No,
}

impl OrderSide {
    /// The word for it on the wire.
    pub open spec fn word(self) -> Seq<char> {
        match self {
            OrderSide::Yes => "yes"@,
            OrderSide::No => "no"@,
        }
    }

    /// The word for it on the wire.
    pub fn wire(self) -> (word: &'static str)
        ensures
            word@ == self.word(),
    {
        match self {
            OrderSide::Yes => "yes",
            OrderSide::No => "no",
        }
    }
}

/// The body that places an order (`POST /portfolio/events/orders`).
#[derive(Debug, Clone, PartialEq, Eq)]
pub struct V2CreateOrderRequest {
    pub ticker: String,
    pub side: V2Side,
    /// A fixed-point count, such as `"10.00"`.
    pub count: String,
    /// A fixed-point dollar price, such as `"0.56"`.
    pub price: String,
    pub time_in_force: TimeInForce,
    pub self_trade_prevention_type: SelfTradePreventionType,
    /// The venue's key against placing an order twice. Always sent.
    pub client_order_id: String,
    /// The exchange shard of the market. Not sent where it is absent.
    pub exchange_index: Option<i64>,
}

impl ToJson for V2CreateOrderRequest {
    open spec fn members(&self) -> Seq<(&'static str, Value)> {
        seq![
            ("ticker", Value::Text(self.ticker)),
            ("side", Value::Word(self.side.word())),
            ("count", Value::Text(self.count)),
            ("price", Value::Text(self.price)),
            ("time_in_force", Value::Word(self.time_in_force.word())),
            (
                "self_trade_prevention_type",
                Value::Word(self.self_trade_prevention_type.word()),
            ),
            ("client_order_id", Value::Text(self.client_order_id)),
        ] + int_if_present("exchange_index", self.exchange_index)
    }

    fn to_json(&self) -> (json: Json) {
        let mut members: Vec<(String, Json)> = Vec::new();
        assert(are_members(members@, Seq::empty()));
        put_text(&mut members, "ticker", &self.ticker);
        put_word(&mut members, "side", self.side.wire());
        put_text(&mut members, "count", &self.count);
        put_text(&mut members, "price", &self.price);
        put_word(&mut members, "time_in_force", self.time_in_force.wire());
        put_word(
            &mut members,
            "self_trade_prevention_type",
            self.self_trade_prevention_type.wire(),
        );
        put_text(&mut members, "client_order_id", &self.client_order_id);
        put_int_if_present(&mut members, "exchange_index", self.exchange_index);
        Json::Object(members)
    }
}

/// The answer to a placed order. It is flat, and only the id is certain to be there; the order
/// itself is read back with [`crate::rest::RestClient::get_order`].
#[derive(Debug, Clone)]
pub struct V2OrderResponse {
    pub order_id: String,
    pub client_order_id: Option<String>,
    pub fill_count: Option<String>,
    pub remaining_count: Option<String>,
    pub average_fill_price: Option<String>,
    pub average_fee_paid: Option<String>,
    pub ts_ms: Option<i64>,
}

impl FromJson for V2OrderResponse {
    type Model = V2OrderResponse;

    open spec fn model(&self) -> V2OrderResponse {
        *self
    }

    open spec fn keys() -> Seq<&'static str> {
        seq![
            "order_id",
            "client_order_id",
            "fill_count",
            "remaining_count",
            "average_fill_price",
            "average_fee_paid",
            "ts_ms",
        ]
    }

    open spec fn least() -> int {
        7
    }

    open spec fn of_slots(slots: Seq<Option<Json>>) -> Result<V2OrderResponse, DecodeError> {
        let order_id = text_in(slots[0], "order_id");
        let client_order_id = opt_text_in(slots[1]);
        let fill_count = opt_text_in(slots[2]);
        let remaining_count = opt_text_in(slots[3]);
        let average_fill_price = opt_text_in(slots[4]);
        let average_fee_paid = opt_text_in(slots[5]);
        let ts_ms = opt_int_in(slots[6]);
        if order_id is Err {
            Err(order_id->Err_0)
        } else if client_order_id is Err {
            Err(client_order_id->Err_0)
        } else if fill_count is Err {
            Err(fill_count->Err_0)
        } else if remaining_count is Err {
            Err(remaining_count->Err_0)
        } else if average_fill_price is Err {
            Err(average_fill_price->Err_0)
        } else if average_fee_paid is Err {
            Err(average_fee_paid->Err_0)
        } else if ts_ms is Err {
            Err(ts_ms->Err_0)
        } else {
            Ok(
                V2OrderResponse {
                    order_id: order_id->Ok_0,
                    client_order_id: client_order_id->Ok_0,
                    fill_count: fill_count->Ok_0,
                    remaining_count: remaining_count->Ok_0,
                    average_fill_price: average_fill_price->Ok_0,
                    average_fee_paid: average_fee_paid->Ok_0,
                    ts_ms: ts_ms->Ok_0,
                },
            )
        }
    }

    fn field_keys() -> (keys: (Vec<&'static str>, usize)) {
        (
            vec![
                "order_id",
                "client_order_id",
                "fill_count",
                "remaining_count",
                "average_fill_price",
                "average_fee_paid",
                "ts_ms",
            ],
            7,
        )
    }

    fn from_slots(slots: &Vec<Option<&Json>>) -> (record: Result<V2OrderResponse, DecodeError>) {
        let order_id: String = text_field(slots[0], "order_id")?;
        let client_order_id: Option<String> = opt_text_field(slots[1])?;
        let fill_count: Option<String> = opt_text_field(slots[2])?;
        let remaining_count: Option<String> = opt_text_field(slots[3])?;
        let average_fill_price: Option<String> = opt_text_field(slots[4])?;
        let average_fee_paid: Option<String> = opt_text_field(slots[5])?;
        let ts_ms: Option<i64> = opt_int_field(slots[6])?;
        Ok(
            V2OrderResponse {
                order_id,
                client_order_id,
                fill_count,
                remaining_count,
                average_fill_price,
                average_fee_paid,
                ts_ms,
            },
        )
    }
}

/// The body that amends an order (`POST /portfolio/events/orders/{id}/amend`). It states the order
/// anew, it is no difference.
#[derive(Debug, Clone, PartialEq, Eq)]
pub struct V2AmendOrder {
    pub ticker: String,
    pub side: V2Side,
    pub price: String,
    pub count: String,
    pub client_order_id: Option<String>,
    pub updated_client_order_id: Option<String>,
    /// The exchange shard of the market. Not sent where it is absent.
    pub exchange_index: Option<i64>,
}

impl ToJson for V2AmendOrder {
    open spec fn members(&self) -> Seq<(&'static str, Value)> {
        seq![
            ("ticker", Value::Text(self.ticker)),
            ("side", Value::Word(self.side.word())),
            ("price", Value::Text(self.price)),
            ("count", Value::Text(self.count)),
        ] + text_if_present("client_order_id", self.client_order_id) + text_if_present(
            "updated_client_order_id",
            self.updated_client_order_id,
        ) + int_if_present("exchange_index", self.exchange_index)
    }

    fn to_json(&self) -> (json: Json) {
        let mut members: Vec<(String, Json)> = Vec::new();
        assert(are_members(members@, Seq::empty()));
        put_text(&mut members, "ticker", &self.ticker);
        put_word(&mut members, "side", self.side.wire());
        put_text(&mut members, "price", &self.price);
        put_text(&mut members, "count", &self.count);
        put_text_if_present(&mut members, "client_order_id", &self.client_order_id);
        put_text_if_present(&mut members, "updated_client_order_id", &self.updated_client_order_id);
        put_int_if_present(&mut members, "exchange_index", self.exchange_index);
        Json::Object(members)
    }
}

/// The answer to a cancelled order. It does not hold the order.
#[derive(Debug, Clone)]
pub struct V2CancelAck {
    pub order_id: Option<String>,
    pub client_order_id: Option<String>,
    pub reduced_by: Option<String>,
    pub ts_ms: Option<i64>,
}

impl Default for V2CancelAck {
    fn default() -> (ack: V2CancelAck)
        ensures
            ack == (V2CancelAck {
                order_id: None,
                client_order_id: None,
                reduced_by: None,
                ts_ms: None,
            }),
    {
        V2CancelAck { order_id: None, client_order_id: None, reduced_by: None, ts_ms: None }
    }
}

impl FromJson for V2CancelAck {
    type Model = V2CancelAck;

    open spec fn model(&self) -> V2CancelAck {
        *self
    }

    open spec fn keys() -> Seq<&'static str> {
        seq!["order_id", "client_order_id", "reduced_by", "ts_ms"]
    }

    open spec fn least() -> int {
        4
    }

    open spec fn of_slots(slots: Seq<Option<Json>>) -> Result<V2CancelAck, DecodeError> {
        let order_id = opt_text_in(slots[0]);
        let client_order_id = opt_text_in(slots[1]);
        let reduced_by = opt_text_in(slots[2]);
        let ts_ms = opt_int_in(slots[3]);
        if order_id is Err {
            Err(order_id->Err_0)
        } else if client_order_id is Err {
            Err(client_order_id->Err_0)
        } else if reduced_by is Err {
            Err(reduced_by->Err_0)
        } else if ts_ms is Err {
            Err(ts_ms->Err_0)
        } else {
            Ok(
                V2CancelAck {
                    order_id: order_id->Ok_0,
                    client_order_id: client_order_id->Ok_0,
                    reduced_by: reduced_by->Ok_0,
                    ts_ms: ts_ms->Ok_0,
                },
            )
        }
    }

    fn field_keys() -> (keys: (Vec<&'static str>, usize)) {
        (vec!["order_id", "client_order_id", "reduced_by", "ts_ms"], 4)
    }

    fn from_slots(slots: &Vec<Option<&Json>>) -> (record: Result<V2CancelAck, DecodeError>) {
        let order_id: Option<String> = opt_text_field(slots[0])?;
        let client_order_id: Option<String> = opt_text_field(slots[1])?;
        let reduced_by: Option<String> = opt_text_field(slots[2])?;
        let ts_ms: Option<i64> = opt_int_field(slots[3])?;
        Ok(V2CancelAck { order_id, client_order_id, reduced_by, ts_ms })
    }
}

/// The answer to an amended order. It does not hold the order.
#[derive(Debug, Clone)]
pub struct V2AmendAck {
    pub order_id: Option<String>,
    pub client_order_id: Option<String>,
    pub remaining_count: Option<String>,
    pub fill_count: Option<String>,
    pub average_fill_price: Option<String>,
    pub average_fee_paid: Option<String>,
    pub ts_ms: Option<i64>,
}

impl Default for V2AmendAck {
    fn default() -> (ack: V2AmendAck)
        ensures
            ack == (V2AmendAck {
                order_id: None,
                client_order_id: None,
                remaining_count: None,
                fill_count: None,
                average_fill_price: None,
                average_fee_paid: None,
                ts_ms: None,
            }),
    {
        V2AmendAck {
            order_id: None,
            client_order_id: None,
            remaining_count: None,
            fill_count: None,
            average_fill_price: None,
            average_fee_paid: None,
            ts_ms: None,
        }
    }
}

impl FromJson for V2AmendAck {
    type Model = V2AmendAck;

    open spec fn model(&self) -> V2AmendAck {
        *self
    }

    open spec fn keys() -> Seq<&'static str> {
        seq![
            "order_id",
            "client_order_id",
            "remaining_count",
            "fill_count",
            "average_fill_price",
            "average_fee_paid",
            "ts_ms",
        ]
    }

    open spec fn least() -> int {
        7
    }

    open spec fn of_slots(slots: Seq<Option<Json>>) -> Result<V2AmendAck, DecodeError> {
        let order_id = opt_text_in(slots[0]);
        let client_order_id = opt_text_in(slots[1]);
        let remaining_count = opt_text_in(slots[2]);
        let fill_count = opt_text_in(slots[3]);
        let average_fill_price = opt_text_in(slots[4]);
        let average_fee_paid = opt_text_in(slots[5]);
        let ts_ms = opt_int_in(slots[6]);
        if order_id is Err {
            Err(order_id->Err_0)
        } else if client_order_id is Err {
            Err(client_order_id->Err_0)
        } else if remaining_count is Err {
            Err(remaining_count->Err_0)
        } else if fill_count is Err {
            Err(fill_count->Err_0)
        } else if average_fill_price is Err {
            Err(average_fill_price->Err_0)
        } else if average_fee_paid is Err {
            Err(average_fee_paid->Err_0)
        } else if ts_ms is Err {
            Err(ts_ms->Err_0)
        } else {
            Ok(
                V2AmendAck {
                    order_id: order_id->Ok_0,
                    client_order_id: client_order_id->Ok_0,
                    remaining_count: remaining_count->Ok_0,
                    fill_count: fill_count->Ok_0,
                    average_fill_price: average_fill_price->Ok_0,
                    average_fee_paid: average_fee_paid->Ok_0,
                    ts_ms: ts_ms->Ok_0,
                },
            )
        }
    }

    fn field_keys() -> (keys: (Vec<&'static str>, usize)) {
        (
            vec![
                "order_id",
                "client_order_id",
                "remaining_count",
                "fill_count",
                "average_fill_price",
                "average_fee_paid",
                "ts_ms",
            ],
            7,
        )
    }

    fn from_slots(slots: &Vec<Option<&Json>>) -> (record: Result<V2AmendAck, DecodeError>) {
        let order_id: Option<String> = opt_text_field(slots[0])?;
        let client_order_id: Option<String> = opt_text_field(slots[1])?;
        let remaining_count: Option<String> = opt_text_field(slots[2])?;
        let fill_count: Option<String> = opt_text_field(slots[3])?;
        let average_fill_price: Option<String> = opt_text_field(slots[4])?;
        let average_fee_paid: Option<String> = opt_text_field(slots[5])?;
        let ts_ms: Option<i64> = opt_int_field(slots[6])?;
        Ok(
            V2AmendAck {
                order_id,
                client_order_id,
                remaining_count,
                fill_count,
                average_fill_price,
                average_fee_paid,
                ts_ms,
            },
        )
    }
}

/// One order.
#[derive(Debug, Clone)]
pub struct OrderRecord {
    pub order_id: String,
    pub client_order_id: Option<String>,
    pub status: String,
    pub ticker: String,
    /// The count in whole contracts, as the venue once sent it. It now sends the strings below.
    pub count: Option<i64>,
    pub filled_count: Option<i64>,
    pub remaining_count: Option<i64>,
    /// Counts as fixed-point strings, prices as dollar strings.
    pub initial_count_fp: Option<String>,
    pub remaining_count_fp: Option<String>,
    pub fill_count_fp: Option<String>,
    pub yes_price_dollars: Option<String>,
    pub no_price_dollars: Option<String>,
}

impl OrderRecord {
    /// The order's contracts.
    pub open spec fn contracts(self) -> i64 {
        match (self.count, self.initial_count_fp) {
            (Some(count), _) => count,
            (None, Some(text)) => match count_in_contracts(text@) {
                Some(contracts) => contracts,
                None => 0,
            },
            (None, None) => 0,
        }
    }

    /// The order's contracts: `count` where it is there, else what `initial_count_fp` says, else
    /// zero.
    pub fn contract_count(&self) -> (contracts: i64)
        ensures
            contracts == (match (self.count, self.initial_count_fp) {
                (Some(count), _) => count,
                (None, Some(text)) => match count_in_contracts(text@) {
                    Some(contracts) => contracts,
                    None => 0,
                },
                (None, None) => 0,
            }),
            contracts == self.contracts(),
    {
        match (self.count, &self.initial_count_fp) {
            (Some(count), _) => count,
            (None, Some(text)) => match count_fp_str_to_contracts(text.as_str()) {
                Some(contracts) => contracts,
                None => 0,
            },
            (None, None) => 0,
        }
    }
}

impl FromJson for OrderRecord {
    type Model = OrderRecord;

    open spec fn model(&self) -> OrderRecord {
        *self
    }

    open spec fn keys() -> Seq<&'static str> {
        seq![
            "order_id",
            "client_order_id",
            "status",
            "ticker",
            "count",
            "filled_count",
            "remaining_count",
            "initial_count_fp",
            "remaining_count_fp",
            "fill_count_fp",
            "yes_price_dollars",
            "no_price_dollars",
        ]
    }

    open spec fn least() -> int {
        12
    }

    open spec fn of_slots(slots: Seq<Option<Json>>) -> Result<OrderRecord, DecodeError> {
        let order_id = text_in(slots[0], "order_id");
        let client_order_id = opt_text_in(slots[1]);
        let status = text_in(slots[2], "status");
        let ticker = text_in(slots[3], "ticker");
        let count = opt_int_in(slots[4]);
        let filled_count = opt_int_in(slots[5]);
        let remaining_count = opt_int_in(slots[6]);
        let initial_count_fp = opt_text_in(slots[7]);
        let remaining_count_fp = opt_text_in(slots[8]);
        let fill_count_fp = opt_text_in(slots[9]);
        let yes_price_dollars = opt_text_in(slots[10]);
        let no_price_dollars = opt_text_in(slots[11]);
        if order_id is Err {
            Err(order_id->Err_0)
        } else if client_order_id is Err {
            Err(client_order_id->Err_0)
        } else if status is Err {
            Err(status->Err_0)
        } else if ticker is Err {
            Err(ticker->Err_0)
        } else if count is Err {
            Err(count->Err_0)
        } else if filled_count is Err {
            Err(filled_count->Err_0)
        } else if remaining_count is Err {
            Err(remaining_count->Err_0)
        } else if initial_count_fp is Err {
            Err(initial_count_fp->Err_0)
        } else if remaining_count_fp is Err {
            Err(remaining_count_fp->Err_0)
        } else if fill_count_fp is Err {
            Err(fill_count_fp->Err_0)
        } else if yes_price_dollars is Err {
            Err(yes_price_dollars->Err_0)
        } else if no_price_dollars is Err {
            Err(no_price_dollars->Err_0)
        } else {
            Ok(
                OrderRecord {
                    order_id: order_id->Ok_0,
                    client_order_id: client_order_id->Ok_0,
                    status: status->Ok_0,
                    ticker: ticker->Ok_0,
                    count: count->Ok_0,
                    filled_count: filled_count->Ok_0,
                    remaining_count: remaining_count->Ok_0,
                    initial_count_fp: initial_count_fp->Ok_0,
                    remaining_count_fp: remaining_count_fp->Ok_0,
                    fill_count_fp: fill_count_fp->Ok_0,
                    yes_price_dollars: yes_price_dollars->Ok_0,
                    no_price_dollars: no_price_dollars->Ok_0,
                },
            )
        }
    }

    fn field_keys() -> (keys: (Vec<&'static str>, usize)) {
        (
            vec![
                "order_id",
                "client_order_id",
                "status",
                "ticker",
                "count",
                "filled_count",
                "remaining_count",
                "initial_count_fp",
                "remaining_count_fp",
                "fill_count_fp",
                "yes_price_dollars",
                "no_price_dollars",
            ],
            12,
        )
    }

    fn from_slots(slots: &Vec<Option<&Json>>) -> (record: Result<OrderRecord, DecodeError>) {
        let order_id: String = text_field(slots[0], "order_id")?;
        let client_order_id: Option<String> = opt_text_field(slots[1])?;
        let status: String = text_field(slots[2], "status")?;
        let ticker: String = text_field(slots[3], "ticker")?;
        let count: Option<i64> = opt_int_field(slots[4])?;
        let filled_count: Option<i64> = opt_int_field(slots[5])?;
        let remaining_count: Option<i64> = opt_int_field(slots[6])?;
        let initial_count_fp: Option<String> = opt_text_field(slots[7])?;
        let remaining_count_fp: Option<String> = opt_text_field(slots[8])?;
        let fill_count_fp: Option<String> = opt_text_field(slots[9])?;
        let yes_price_dollars: Option<String> = opt_text_field(slots[10])?;
        let no_price_dollars: Option<String> = opt_text_field(slots[11])?;
        Ok(
            OrderRecord {
                order_id,
                client_order_id,
                status,
                ticker,
                count,
                filled_count,
                remaining_count,
                initial_count_fp,
                remaining_count_fp,
                fill_count_fp,
                yes_price_dollars,
                no_price_dollars,
            },
        )
    }
}

impl ToJson for OrderRecord {
    open spec fn members(&self) -> Seq<(&'static str, Value)> {
        seq![
            ("order_id", Value::Text(self.order_id)),
            ("client_order_id", opt_text(self.client_order_id)),
            ("status", Value::Text(self.status)),
            ("ticker", Value::Text(self.ticker)),
            ("count", opt_int(self.count)),
            ("filled_count", opt_int(self.filled_count)),
            ("remaining_count", opt_int(self.remaining_count)),
            ("initial_count_fp", opt_text(self.initial_count_fp)),
            ("remaining_count_fp", opt_text(self.remaining_count_fp)),
            ("fill_count_fp", opt_text(self.fill_count_fp)),
            ("yes_price_dollars", opt_text(self.yes_price_dollars)),
            ("no_price_dollars", opt_text(self.no_price_dollars)),
        ]
    }

    fn to_json(&self) -> (json: Json) {
        let mut members: Vec<(String, Json)> = Vec::new();
        assert(are_members(members@, Seq::empty()));
        put_text(&mut members, "order_id", &self.order_id);
        put_opt_text(&mut members, "client_order_id", &self.client_order_id);
        put_text(&mut members, "status", &self.status);
        put_text(&mut members, "ticker", &self.ticker);
        put_opt_int(&mut members, "count", self.count);
        put_opt_int(&mut members, "filled_count", self.filled_count);
        put_opt_int(&mut members, "remaining_count", self.remaining_count);
        put_opt_text(&mut members, "initial_count_fp", &self.initial_count_fp);
        put_opt_text(&mut members, "remaining_count_fp", &self.remaining_count_fp);
        put_opt_text(&mut members, "fill_count_fp", &self.fill_count_fp);
        put_opt_text(&mut members, "yes_price_dollars", &self.yes_price_dollars);
        put_opt_text(&mut members, "no_price_dollars", &self.no_price_dollars);
        Json::Object(members)
    }
}

/// The envelope of a single order (`GET /portfolio/orders/{id}`).
#[derive(Debug, Clone)]
pub struct OrderAck {
    pub order: OrderRecord,
}

impl FromJson for OrderAck {
    type Model = OrderAck;

    open spec fn model(&self) -> OrderAck {
        *self
    }

    open spec fn keys() -> Seq<&'static str> {
        seq!["order"]
    }

    open spec fn least() -> int {
        1
    }

    open spec fn of_slots(slots: Seq<Option<Json>>) -> Result<OrderAck, DecodeError> {
        let order = record_in::<OrderRecord>(slots[0], "order");
        if order is Err {
            Err(order->Err_0)
        } else {
            Ok(
                OrderAck {
                    order: order->Ok_0,
                },
            )
        }
    }

    fn field_keys() -> (keys: (Vec<&'static str>, usize)) {
        (vec!["order"], 1)
    }

    fn from_slots(slots: &Vec<Option<&Json>>) -> (record: Result<OrderAck, DecodeError>) {
        let order: OrderRecord = record_field::<OrderRecord>(slots[0], "order")?;
        Ok(OrderAck { order })
    }
}

/// A page of orders (`GET /portfolio/orders`).
#[derive(Debug, Clone)]
pub struct OrdersResponse {
    pub orders: Vec<OrderRecord>,
    /// Empty or absent on the last page.
    pub cursor: Option<String>,
}

/// [`OrdersResponse`] as contracts speak of it.
pub struct OrdersResponseModel {
    pub orders: Seq<OrderRecord>,
    pub cursor: Option<String>,
}

impl FromJson for OrdersResponse {
    type Model = OrdersResponseModel;

    open spec fn model(&self) -> OrdersResponseModel {
        OrdersResponseModel {
            orders: models(self.orders@),
            cursor: self.cursor,
        }
    }

    open spec fn keys() -> Seq<&'static str> {
        seq!["orders", "cursor"]
    }

    open spec fn least() -> int {
        2
    }

    open spec fn of_slots(slots: Seq<Option<Json>>) -> Result<OrdersResponseModel, DecodeError> {
        let orders = records_in::<OrderRecord>(slots[0], "orders");
        let cursor = opt_text_in(slots[1]);
        if orders is Err {
            Err(orders->Err_0)
        } else if cursor is Err {
            Err(cursor->Err_0)
        } else {
            Ok(
                OrdersResponseModel {
                    orders: orders->Ok_0,
                    cursor: cursor->Ok_0,
                },
            )
        }
    }

    fn field_keys() -> (keys: (Vec<&'static str>, usize)) {
        (vec!["orders", "cursor"], 2)
    }

    fn from_slots(slots: &Vec<Option<&Json>>) -> (record: Result<OrdersResponse, DecodeError>) {
        let orders: Vec<OrderRecord> = records_field::<OrderRecord>(slots[0], "orders")?;
        let cursor: Option<String> = opt_text_field(slots[1])?;
        Ok(OrdersResponse { orders, cursor })
    }
}

// ---------------------------------------------------------------------------
// Laws
// ---------------------------------------------------------------------------

proof fn lemma_order_record_keys()
    ensures
        distinct_keys(OrderRecord::keys()),
{
    let keys = OrderRecord::keys();
    reveal_strlit("order_id");
    reveal_strlit("client_order_id");
    reveal_strlit("status");
    reveal_strlit("ticker");
    reveal_strlit("count");
    reveal_strlit("filled_count");
    reveal_strlit("remaining_count");
    reveal_strlit("initial_count_fp");
    reveal_strlit("remaining_count_fp");
    reveal_strlit("fill_count_fp");
    reveal_strlit("yes_price_dollars");
    reveal_strlit("no_price_dollars");
    let marks = seq![
        8111215int, 15099211, 6115233, 6116208, 5099226, 12102209, 15114202, 16105221,
        18114202, 13102203, 17121207, 16110226,
    ];
    assert(mark(keys[0]@) == marks[0]);
    assert(mark(keys[1]@) == marks[1]);
    assert(mark(keys[2]@) == marks[2]);
    assert(mark(keys[3]@) == marks[3]);
    assert(mark(keys[4]@) == marks[4]);
    assert(mark(keys[5]@) == marks[5]);
    assert(mark(keys[6]@) == marks[6]);
    assert(mark(keys[7]@) == marks[7]);
    assert(mark(keys[8]@) == marks[8]);
    assert(mark(keys[9]@) == marks[9]);
    assert(mark(keys[10]@) == marks[10]);
    assert(mark(keys[11]@) == marks[11]);
    lemma_distinct_by_mark(keys, marks);
}

/// An order that was written reads back as it was.
pub proof fn law_order_record_round_trip(json: Json, record: OrderRecord)
    requires
        is_object(json, record.members()),
    ensures
        decoded::<OrderRecord>(json) == Ok::<OrderRecord, DecodeError>(record),
{
    let written = json->Object_0@;
    let slots = written_slots(written, OrderRecord::keys().len());
    assert(slots_of(json, OrderRecord::keys(), OrderRecord::least())
        == Ok::<Seq<Option<Json>>, DecodeError>(slots)) by {
        lemma_order_record_keys();
        lemma_slots_of_written(json, record.members(), OrderRecord::keys(), OrderRecord::least());
    }
    assert(text_in(slots[0], "order_id") == Ok::<String, DecodeError>(record.order_id)) by {
        assert(is_member(written[0], "order_id", record.members()[0].1));
    }
    assert(opt_text_in(slots[1]) == Ok::<Option<String>, DecodeError>(record.client_order_id)) by {
        assert(is_member(written[1], "client_order_id", record.members()[1].1));
    }
    assert(text_in(slots[2], "status") == Ok::<String, DecodeError>(record.status)) by {
        assert(is_member(written[2], "status", record.members()[2].1));
    }
    assert(text_in(slots[3], "ticker") == Ok::<String, DecodeError>(record.ticker)) by {
        assert(is_member(written[3], "ticker", record.members()[3].1));
    }
    assert(opt_int_in(slots[4]) == Ok::<Option<i64>, DecodeError>(record.count)) by {
        assert(is_member(written[4], "count", record.members()[4].1));
    }
    assert(opt_int_in(slots[5]) == Ok::<Option<i64>, DecodeError>(record.filled_count)) by {
        assert(is_member(written[5], "filled_count", record.members()[5].1));
    }
    assert(opt_int_in(slots[6]) == Ok::<Option<i64>, DecodeError>(record.remaining_count)) by {
        assert(is_member(written[6], "remaining_count", record.members()[6].1));
    }
    assert(opt_text_in(slots[7]) == Ok::<Option<String>, DecodeError>(record.initial_count_fp)) by {
        assert(is_member(written[7], "initial_count_fp", record.members()[7].1));
    }
    assert(opt_text_in(slots[8]) == Ok::<Option<String>, DecodeError>(
        record.remaining_count_fp,
    )) by {
        assert(is_member(written[8], "remaining_count_fp", record.members()[8].1));
    }
    assert(opt_text_in(slots[9]) == Ok::<Option<String>, DecodeError>(record.fill_count_fp)) by {
        assert(is_member(written[9], "fill_count_fp", record.members()[9].1));
    }
    assert(opt_text_in(slots[10]) == Ok::<Option<String>, DecodeError>(
        record.yes_price_dollars,
    )) by {
        assert(is_member(written[10], "yes_price_dollars", record.members()[10].1));
    }
    assert(opt_text_in(slots[11]) == Ok::<Option<String>, DecodeError>(
        record.no_price_dollars,
    )) by {
        assert(is_member(written[11], "no_price_dollars", record.members()[11].1));
    }
}

/// The word of a variant reads back as that variant, so no two variants share a word.
pub proof fn law_side_round_trip(variant: V2Side, json: Json)
    requires
        json is Str,
        json->Str_0@ == variant.word(),
    ensures
        V2Side::of_json(json) == Ok::<V2Side, DecodeError>(variant),
{
    reveal_strlit("bid");
    reveal_strlit("ask");
    assert("bid"@[0] != "ask"@[0]);
}

/// The word of a variant reads back as that variant, so no two variants share a word.
pub proof fn law_time_in_force_round_trip(variant: TimeInForce, json: Json)
    requires
        json is Str,
        json->Str_0@ == variant.word(),
    ensures
        TimeInForce::of_json(json) == Ok::<TimeInForce, DecodeError>(variant),
{
    reveal_strlit("fill_or_kill");
    reveal_strlit("good_till_canceled");
    reveal_strlit("immediate_or_cancel");
    assert("fill_or_kill"@.len() != "good_till_canceled"@.len());
    assert("fill_or_kill"@.len() != "immediate_or_cancel"@.len());
    assert("good_till_canceled"@.len() != "immediate_or_cancel"@.len());
}

/// The word of a variant reads back as that variant, so no two variants share a word.
pub proof fn law_self_trade_prevention_round_trip(variant: SelfTradePreventionType, json: Json)
    requires
        json is Str,
        json->Str_0@ == variant.word(),
    ensures
        SelfTradePreventionType::of_json(json) == Ok::<SelfTradePreventionType, DecodeError>(
            variant,
        ),
{
    reveal_strlit("taker_at_cross");
    reveal_strlit("maker");
    assert("taker_at_cross"@.len() != "maker"@.len());
}

/// An answer to a placed order is read by the names of its fields: an object decodes to it where
/// each field is what the member of its own name says, and only there. None of these names may
/// stand twice.
pub proof fn law_v2_order_response_is_read_by_name(json: Json, record: V2OrderResponse)
    requires
        json is Object,
    ensures
        ({
            let members = json->Object_0@;
            decoded::<V2OrderResponse>(json) == Ok::<V2OrderResponse, DecodeError>(record) <==> {
                &&& once(members, "order_id"@)
                &&& once(members, "client_order_id"@)
                &&& once(members, "fill_count"@)
                &&& once(members, "remaining_count"@)
                &&& once(members, "average_fill_price"@)
                &&& once(members, "average_fee_paid"@)
                &&& once(members, "ts_ms"@)
                &&& says_text(member(members, "order_id"@), record.order_id)
                &&& says_opt_text(member(members, "client_order_id"@), record.client_order_id)
                &&& says_opt_text(member(members, "fill_count"@), record.fill_count)
                &&& says_opt_text(member(members, "remaining_count"@), record.remaining_count)
                &&& says_opt_text(member(members, "average_fill_price"@), record.average_fill_price)
                &&& says_opt_text(member(members, "average_fee_paid"@), record.average_fee_paid)
                &&& says_opt_int(member(members, "ts_ms"@), record.ts_ms)
            }
        }),
{
    let members = json->Object_0@;
    let keys = V2OrderResponse::keys();
    law_first_duplicate_is_there_twice(members, keys);
    assert(keys[0] == "order_id");
    assert(keys[1] == "client_order_id");
    assert(keys[2] == "fill_count");
    assert(keys[3] == "remaining_count");
    assert(keys[4] == "average_fill_price");
    assert(keys[5] == "average_fee_paid");
    assert(keys[6] == "ts_ms");
    assert(first_duplicate(members, keys) is None <==> {
        &&& once(members, "order_id"@)
        &&& once(members, "client_order_id"@)
        &&& once(members, "fill_count"@)
        &&& once(members, "remaining_count"@)
        &&& once(members, "average_fill_price"@)
        &&& once(members, "average_fee_paid"@)
        &&& once(members, "ts_ms"@)
    }) by {
        if first_duplicate(members, keys) is None {
            assert(once(members, keys[0]@));
            assert(once(members, keys[1]@));
            assert(once(members, keys[2]@));
            assert(once(members, keys[3]@));
            assert(once(members, keys[4]@));
            assert(once(members, keys[5]@));
            assert(once(members, keys[6]@));
        }
    }
    if first_duplicate(members, keys) is None {
        let slots = Seq::new(keys.len(), |i: int| member(members, keys[i]@));
        assert(slots_of(json, keys, V2OrderResponse::least())
            == Ok::<Seq<Option<Json>>, DecodeError>(slots));
        assert(slots[0] == member(members, "order_id"@));
        assert(slots[1] == member(members, "client_order_id"@));
        assert(slots[2] == member(members, "fill_count"@));
        assert(slots[3] == member(members, "remaining_count"@));
        assert(slots[4] == member(members, "average_fill_price"@));
        assert(slots[5] == member(members, "average_fee_paid"@));
        assert(slots[6] == member(members, "ts_ms"@));
    }
}

/// An answer to a placed order in an array is read by the places of its fields.
pub proof fn law_v2_order_response_is_read_by_place(json: Json, record: V2OrderResponse)
    requires
        json is Array,
    ensures
        ({
            let elements = json->Array_0@;
            decoded::<V2OrderResponse>(json) == Ok::<V2OrderResponse, DecodeError>(record) <==> {
                &&& elements.len() == 7
                &&& says_text(place(elements, 0), record.order_id)
                &&& says_opt_text(place(elements, 1), record.client_order_id)
                &&& says_opt_text(place(elements, 2), record.fill_count)
                &&& says_opt_text(place(elements, 3), record.remaining_count)
                &&& says_opt_text(place(elements, 4), record.average_fill_price)
                &&& says_opt_text(place(elements, 5), record.average_fee_paid)
                &&& says_opt_int(place(elements, 6), record.ts_ms)
            }
        }),
{
    let elements = json->Array_0@;
    let keys = V2OrderResponse::keys();
    if 7 <= elements.len() <= 7 {
        let slots = slots_of(json, keys, V2OrderResponse::least())->Ok_0;
        assert(slots[0] == place(elements, 0));
        assert(slots[1] == place(elements, 1));
        assert(slots[2] == place(elements, 2));
        assert(slots[3] == place(elements, 3));
        assert(slots[4] == place(elements, 4));
        assert(slots[5] == place(elements, 5));
        assert(slots[6] == place(elements, 6));
    }
}

/// An answer to a cancelled order is read by the names of its fields: an object decodes to it where
/// each field is what the member of its own name says, and only there. None of these names may
/// stand twice.
pub proof fn law_v2_cancel_ack_is_read_by_name(json: Json, record: V2CancelAck)
    requires
        json is Object,
    ensures
        ({
            let members = json->Object_0@;
            decoded::<V2CancelAck>(json) == Ok::<V2CancelAck, DecodeError>(record) <==> {
                &&& once(members, "order_id"@)
                &&& once(members, "client_order_id"@)
                &&& once(members, "reduced_by"@)
                &&& once(members, "ts_ms"@)
                &&& says_opt_text(member(members, "order_id"@), record.order_id)
                &&& says_opt_text(member(members, "client_order_id"@), record.client_order_id)
                &&& says_opt_text(member(members, "reduced_by"@), record.reduced_by)
                &&& says_opt_int(member(members, "ts_ms"@), record.ts_ms)
            }
        }),
{
    let members = json->Object_0@;
    let keys = V2CancelAck::keys();
    law_first_duplicate_is_there_twice(members, keys);
    assert(keys[0] == "order_id");
    assert(keys[1] == "client_order_id");
    assert(keys[2] == "reduced_by");
    assert(keys[3] == "ts_ms");
    assert(first_duplicate(members, keys) is None <==> {
        &&& once(members, "order_id"@)
        &&& once(members, "client_order_id"@)
        &&& once(members, "reduced_by"@)
        &&& once(members, "ts_ms"@)
    }) by {
        if first_duplicate(members, keys) is None {
            assert(once(members, keys[0]@));
            assert(once(members, keys[1]@));
            assert(once(members, keys[2]@));
            assert(once(members, keys[3]@));
        }
    }
    if first_duplicate(members, keys) is None {
        let slots = Seq::new(keys.len(), |i: int| member(members, keys[i]@));
        assert(slots_of(json, keys, V2CancelAck::least())
            == Ok::<Seq<Option<Json>>, DecodeError>(slots));
        assert(slots[0] == member(members, "order_id"@));
        assert(slots[1] == member(members, "client_order_id"@));
        assert(slots[2] == member(members, "reduced_by"@));
        assert(slots[3] == member(members, "ts_ms"@));
    }
}

/// An answer to a cancelled order in an array is read by the places of its fields.
pub proof fn law_v2_cancel_ack_is_read_by_place(json: Json, record: V2CancelAck)
    requires
        json is Array,
    ensures
        ({
            let elements = json->Array_0@;
            decoded::<V2CancelAck>(json) == Ok::<V2CancelAck, DecodeError>(record) <==> {
                &&& elements.len() == 4
                &&& says_opt_text(place(elements, 0), record.order_id)
                &&& says_opt_text(place(elements, 1), record.client_order_id)
                &&& says_opt_text(place(elements, 2), record.reduced_by)
                &&& says_opt_int(place(elements, 3), record.ts_ms)
            }
        }),
{
    let elements = json->Array_0@;
    let keys = V2CancelAck::keys();
    if 4 <= elements.len() <= 4 {
        let slots = slots_of(json, keys, V2CancelAck::least())->Ok_0;
        assert(slots[0] == place(elements, 0));
        assert(slots[1] == place(elements, 1));
        assert(slots[2] == place(elements, 2));
        assert(slots[3] == place(elements, 3));
    }
}

/// An answer to an amended order is read by the names of its fields: an object decodes to it where
/// each field is what the member of its own name says, and only there. None of these names may
/// stand twice.
pub proof fn law_v2_amend_ack_is_read_by_name(json: Json, record: V2AmendAck)
    requires
        json is Object,
    ensures
        ({
            let members = json->Object_0@;
            decoded::<V2AmendAck>(json) == Ok::<V2AmendAck, DecodeError>(record) <==> {
                &&& once(members, "order_id"@)
                &&& once(members, "client_order_id"@)
                &&& once(members, "remaining_count"@)
                &&& once(members, "fill_count"@)
                &&& once(members, "average_fill_price"@)
                &&& once(members, "average_fee_paid"@)
                &&& once(members, "ts_ms"@)
                &&& says_opt_text(member(members, "order_id"@), record.order_id)
                &&& says_opt_text(member(members, "client_order_id"@), record.client_order_id)
                &&& says_opt_text(member(members, "remaining_count"@), record.remaining_count)
                &&& says_opt_text(member(members, "fill_count"@), record.fill_count)
                &&& says_opt_text(member(members, "average_fill_price"@), record.average_fill_price)
                &&& says_opt_text(member(members, "average_fee_paid"@), record.average_fee_paid)
                &&& says_opt_int(member(members, "ts_ms"@), record.ts_ms)
            }
        }),
{
    let members = json->Object_0@;
    let keys = V2AmendAck::keys();
    law_first_duplicate_is_there_twice(members, keys);
    assert(keys[0] == "order_id");
    assert(keys[1] == "client_order_id");
    assert(keys[2] == "remaining_count");
    assert(keys[3] == "fill_count");
    assert(keys[4] == "average_fill_price");
    assert(keys[5] == "average_fee_paid");
    assert(keys[6] == "ts_ms");
    assert(first_duplicate(members, keys) is None <==> {
        &&& once(members, "order_id"@)
        &&& once(members, "client_order_id"@)
        &&& once(members, "remaining_count"@)
        &&& once(members, "fill_count"@)
        &&& once(members, "average_fill_price"@)
        &&& once(members, "average_fee_paid"@)
        &&& once(members, "ts_ms"@)
    }) by {
        if first_duplicate(members, keys) is None {
            assert(once(members, keys[0]@));
            assert(once(members, keys[1]@));
            assert(once(members, keys[2]@));
            assert(once(members, keys[3]@));
            assert(once(members, keys[4]@));
            assert(once(members, keys[5]@));
            assert(once(members, keys[6]@));
        }
    }
    if first_duplicate(members, keys) is None {
        let slots = Seq::new(keys.len(), |i: int| member(members, keys[i]@));
        assert(slots_of(json, keys, V2AmendAck::least())
            == Ok::<Seq<Option<Json>>, DecodeError>(slots));
        assert(slots[0] == member(members, "order_id"@));
        assert(slots[1] == member(members, "client_order_id"@));
        assert(slots[2] == member(members, "remaining_count"@));
        assert(slots[3] == member(members, "fill_count"@));
        assert(slots[4] == member(members, "average_fill_price"@));
        assert(slots[5] == member(members, "average_fee_paid"@));
        assert(slots[6] == member(members, "ts_ms"@));
    }
}

/// An answer to an amended order in an array is read by the places of its fields.
pub proof fn law_v2_amend_ack_is_read_by_place(json: Json, record: V2AmendAck)
    requires
        json is Array,
    ensures
        ({
            let elements = json->Array_0@;
            decoded::<V2AmendAck>(json) == Ok::<V2AmendAck, DecodeError>(record) <==> {
                &&& elements.len() == 7
                &&& says_opt_text(place(elements, 0), record.order_id)
                &&& says_opt_text(place(elements, 1), record.client_order_id)
                &&& says_opt_text(place(elements, 2), record.remaining_count)
                &&& says_opt_text(place(elements, 3), record.fill_count)
                &&& says_opt_text(place(elements, 4), record.average_fill_price)
                &&& says_opt_text(place(elements, 5), record.average_fee_paid)
                &&& says_opt_int(place(elements, 6), record.ts_ms)
            }
        }),
{
    let elements = json->Array_0@;
    let keys = V2AmendAck::keys();
    if 7 <= elements.len() <= 7 {
        let slots = slots_of(json, keys, V2AmendAck::least())->Ok_0;
        assert(slots[0] == place(elements, 0));
        assert(slots[1] == place(elements, 1));
        assert(slots[2] == place(elements, 2));
        assert(slots[3] == place(elements, 3));
        assert(slots[4] == place(elements, 4));
        assert(slots[5] == place(elements, 5));
        assert(slots[6] == place(elements, 6));
    }
}

/// An order is read by the names of its fields: an object decodes to it where each field is what
/// the member of its own name says, and only there. None of these names may stand twice.
pub proof fn law_order_record_is_read_by_name(json: Json, record: OrderRecord)
    requires
        json is Object,
    ensures
        ({
            let members = json->Object_0@;
            decoded::<OrderRecord>(json) == Ok::<OrderRecord, DecodeError>(record) <==> {
                &&& once(members, "order_id"@)
                &&& once(members, "client_order_id"@)
                &&& once(members, "status"@)
                &&& once(members, "ticker"@)
                &&& once(members, "count"@)
                &&& once(members, "filled_count"@)
                &&& once(members, "remaining_count"@)
                &&& once(members, "initial_count_fp"@)
                &&& once(members, "remaining_count_fp"@)
                &&& once(members, "fill_count_fp"@)
                &&& once(members, "yes_price_dollars"@)
                &&& once(members, "no_price_dollars"@)
                &&& says_text(member(members, "order_id"@), record.order_id)
                &&& says_opt_text(member(members, "client_order_id"@), record.client_order_id)
                &&& says_text(member(members, "status"@), record.status)
                &&& says_text(member(members, "ticker"@), record.ticker)
                &&& says_opt_int(member(members, "count"@), record.count)
                &&& says_opt_int(member(members, "filled_count"@), record.filled_count)
                &&& says_opt_int(member(members, "remaining_count"@), record.remaining_count)
                &&& says_opt_text(member(members, "initial_count_fp"@), record.initial_count_fp)
                &&& says_opt_text(member(members, "remaining_count_fp"@), record.remaining_count_fp)
                &&& says_opt_text(member(members, "fill_count_fp"@), record.fill_count_fp)
                &&& says_opt_text(member(members, "yes_price_dollars"@), record.yes_price_dollars)
                &&& says_opt_text(member(members, "no_price_dollars"@), record.no_price_dollars)
            }
        }),
{
    let members = json->Object_0@;
    let keys = OrderRecord::keys();
    law_first_duplicate_is_there_twice(members, keys);
    assert(keys[0] == "order_id");
    assert(keys[1] == "client_order_id");
    assert(keys[2] == "status");
    assert(keys[3] == "ticker");
    assert(keys[4] == "count");
    assert(keys[5] == "filled_count");
    assert(keys[6] == "remaining_count");
    assert(keys[7] == "initial_count_fp");
    assert(keys[8] == "remaining_count_fp");
    assert(keys[9] == "fill_count_fp");
    assert(keys[10] == "yes_price_dollars");
    assert(keys[11] == "no_price_dollars");
    assert(first_duplicate(members, keys) is None <==> {
        &&& once(members, "order_id"@)
        &&& once(members, "client_order_id"@)
        &&& once(members, "status"@)
        &&& once(members, "ticker"@)
        &&& once(members, "count"@)
        &&& once(members, "filled_count"@)
        &&& once(members, "remaining_count"@)
        &&& once(members, "initial_count_fp"@)
        &&& once(members, "remaining_count_fp"@)
        &&& once(members, "fill_count_fp"@)
        &&& once(members, "yes_price_dollars"@)
        &&& once(members, "no_price_dollars"@)
    }) by {
        if first_duplicate(members, keys) is None {
            assert(once(members, keys[0]@));
            assert(once(members, keys[1]@));
            assert(once(members, keys[2]@));
            assert(once(members, keys[3]@));
            assert(once(members, keys[4]@));
            assert(once(members, keys[5]@));
            assert(once(members, keys[6]@));
            assert(once(members, keys[7]@));
            assert(once(members, keys[8]@));
            assert(once(members, keys[9]@));
            assert(once(members, keys[10]@));
            assert(once(members, keys[11]@));
        }
    }
    if first_duplicate(members, keys) is None {
        let slots = Seq::new(keys.len(), |i: int| member(members, keys[i]@));
        assert(slots_of(json, keys, OrderRecord::least())
            == Ok::<Seq<Option<Json>>, DecodeError>(slots));
        assert(slots[0] == member(members, "order_id"@));
        assert(slots[1] == member(members, "client_order_id"@));
        assert(slots[2] == member(members, "status"@));
        assert(slots[3] == member(members, "ticker"@));
        assert(slots[4] == member(members, "count"@));
        assert(slots[5] == member(members, "filled_count"@));
        assert(slots[6] == member(members, "remaining_count"@));
        assert(slots[7] == member(members, "initial_count_fp"@));
        assert(slots[8] == member(members, "remaining_count_fp"@));
        assert(slots[9] == member(members, "fill_count_fp"@));
        assert(slots[10] == member(members, "yes_price_dollars"@));
        assert(slots[11] == member(members, "no_price_dollars"@));
    }
}

/// An order in an array is read by the places of its fields.
pub proof fn law_order_record_is_read_by_place(json: Json, record: OrderRecord)
    requires
        json is Array,
    ensures
        ({
            let elements = json->Array_0@;
            decoded::<OrderRecord>(json) == Ok::<OrderRecord, DecodeError>(record) <==> {
                &&& elements.len() == 12
                &&& says_text(place(elements, 0), record.order_id)
                &&& says_opt_text(place(elements, 1), record.client_order_id)
                &&& says_text(place(elements, 2), record.status)
                &&& says_text(place(elements, 3), record.ticker)
                &&& says_opt_int(place(elements, 4), record.count)
                &&& says_opt_int(place(elements, 5), record.filled_count)
                &&& says_opt_int(place(elements, 6), record.remaining_count)
                &&& says_opt_text(place(elements, 7), record.initial_count_fp)
                &&& says_opt_text(place(elements, 8), record.remaining_count_fp)
                &&& says_opt_text(place(elements, 9), record.fill_count_fp)
                &&& says_opt_text(place(elements, 10), record.yes_price_dollars)
                &&& says_opt_text(place(elements, 11), record.no_price_dollars)
            }
        }),
{
    let elements = json->Array_0@;
    let keys = OrderRecord::keys();
    if 12 <= elements.len() <= 12 {
        let slots = slots_of(json, keys, OrderRecord::least())->Ok_0;
        assert(slots[0] == place(elements, 0));
        assert(slots[1] == place(elements, 1));
        assert(slots[2] == place(elements, 2));
        assert(slots[3] == place(elements, 3));
        assert(slots[4] == place(elements, 4));
        assert(slots[5] == place(elements, 5));
        assert(slots[6] == place(elements, 6));
        assert(slots[7] == place(elements, 7));
        assert(slots[8] == place(elements, 8));
        assert(slots[9] == place(elements, 9));
        assert(slots[10] == place(elements, 10));
        assert(slots[11] == place(elements, 11));
    }
}

/// A single order is read by the names of its fields: an object decodes to it where each field is
/// what the member of its own name says, and only there. None of these names may stand twice.
pub proof fn law_order_ack_is_read_by_name(json: Json, record: OrderAck)
    requires
        json is Object,
    ensures
        ({
            let members = json->Object_0@;
            decoded::<OrderAck>(json) == Ok::<OrderAck, DecodeError>(record) <==> {
                &&& once(members, "order"@)
                &&& says_record::<OrderRecord>(member(members, "order"@), record.order)
            }
        }),
{
    let members = json->Object_0@;
    let keys = OrderAck::keys();
    law_first_duplicate_is_there_twice(members, keys);
    assert(keys[0] == "order");
    assert(first_duplicate(members, keys) is None <==> {
        &&& once(members, "order"@)
    }) by {
        if first_duplicate(members, keys) is None {
            assert(once(members, keys[0]@));
        }
    }
    law_record_field::<OrderRecord>(member(members, "order"@), "order", record.order);
    if first_duplicate(members, keys) is None {
        let slots = Seq::new(keys.len(), |i: int| member(members, keys[i]@));
        assert(slots_of(json, keys, OrderAck::least())
            == Ok::<Seq<Option<Json>>, DecodeError>(slots));
        assert(slots[0] == member(members, "order"@));
    }
}

/// A single order in an array is read by the places of its fields.
pub proof fn law_order_ack_is_read_by_place(json: Json, record: OrderAck)
    requires
        json is Array,
    ensures
        ({
            let elements = json->Array_0@;
            decoded::<OrderAck>(json) == Ok::<OrderAck, DecodeError>(record) <==> {
                &&& elements.len() == 1
                &&& says_record::<OrderRecord>(place(elements, 0), record.order)
            }
        }),
{
    let elements = json->Array_0@;
    let keys = OrderAck::keys();
    law_record_field::<OrderRecord>(place(elements, 0), "order", record.order);
    if 1 <= elements.len() <= 1 {
        let slots = slots_of(json, keys, OrderAck::least())->Ok_0;
        assert(slots[0] == place(elements, 0));
    }
}

/// A page of orders is read by the names of its fields: an object decodes to it where each field is
/// what the member of its own name says, and only there. None of these names may stand twice.
pub proof fn law_orders_response_is_read_by_name(json: Json, record: OrdersResponseModel)
    requires
        json is Object,
    ensures
        ({
            let members = json->Object_0@;
            decoded::<OrdersResponse>(json) == Ok::<OrdersResponseModel, DecodeError>(record) <==> {
                &&& once(members, "orders"@)
                &&& once(members, "cursor"@)
                &&& says_records::<OrderRecord>(member(members, "orders"@), record.orders)
                &&& says_opt_text(member(members, "cursor"@), record.cursor)
            }
        }),
{
    let members = json->Object_0@;
    let keys = OrdersResponse::keys();
    law_first_duplicate_is_there_twice(members, keys);
    assert(keys[0] == "orders");
    assert(keys[1] == "cursor");
    assert(first_duplicate(members, keys) is None <==> {
        &&& once(members, "orders"@)
        &&& once(members, "cursor"@)
    }) by {
        if first_duplicate(members, keys) is None {
            assert(once(members, keys[0]@));
            assert(once(members, keys[1]@));
        }
    }
    law_records_field::<OrderRecord>(member(members, "orders"@), "orders", record.orders);
    if first_duplicate(members, keys) is None {
        let slots = Seq::new(keys.len(), |i: int| member(members, keys[i]@));
        assert(slots_of(json, keys, OrdersResponse::least())
            == Ok::<Seq<Option<Json>>, DecodeError>(slots));
        assert(slots[0] == member(members, "orders"@));
        assert(slots[1] == member(members, "cursor"@));
    }
}

/// A page of orders in an array is read by the places of its fields.
pub proof fn law_orders_response_is_read_by_place(json: Json, record: OrdersResponseModel)
    requires
        json is Array,
    ensures
        ({
            let elements = json->Array_0@;
            decoded::<OrdersResponse>(json) == Ok::<OrdersResponseModel, DecodeError>(record) <==> {
                &&& elements.len() == 2
                &&& says_records::<OrderRecord>(place(elements, 0), record.orders)
                &&& says_opt_text(place(elements, 1), record.cursor)
            }
        }),
{
    let elements = json->Array_0@;
    let keys = OrdersResponse::keys();
    law_records_field::<OrderRecord>(place(elements, 0), "orders", record.orders);
    if 2 <= elements.len() <= 2 {
        let slots = slots_of(json, keys, OrdersResponse::least())->Ok_0;
        assert(slots[0] == place(elements, 0));
        assert(slots[1] == place(elements, 1));
    }
}

/// An order is written by the names of its fields, an absent one as null.
pub proof fn law_order_record_is_written_by_name(json: Json, record: OrderRecord)
    requires
        is_object(json, record.members()),
    ensures
        json is Object,
        ({
            let written = json->Object_0@;
            &&& written.len() == 12
            &&& written[0].0@ == "order_id"@
            &&& written[0].1 == Json::Str(record.order_id)
            &&& written[1].0@ == "client_order_id"@
            &&& writes_opt_text(written[1].1, record.client_order_id)
            &&& written[2].0@ == "status"@
            &&& written[2].1 == Json::Str(record.status)
            &&& written[3].0@ == "ticker"@
            &&& written[3].1 == Json::Str(record.ticker)
            &&& written[4].0@ == "count"@
            &&& writes_opt_int(written[4].1, record.count)
            &&& written[5].0@ == "filled_count"@
            &&& writes_opt_int(written[5].1, record.filled_count)
            &&& written[6].0@ == "remaining_count"@
            &&& writes_opt_int(written[6].1, record.remaining_count)
            &&& written[7].0@ == "initial_count_fp"@
            &&& writes_opt_text(written[7].1, record.initial_count_fp)
            &&& written[8].0@ == "remaining_count_fp"@
            &&& writes_opt_text(written[8].1, record.remaining_count_fp)
            &&& written[9].0@ == "fill_count_fp"@
            &&& writes_opt_text(written[9].1, record.fill_count_fp)
            &&& written[10].0@ == "yes_price_dollars"@
            &&& writes_opt_text(written[10].1, record.yes_price_dollars)
            &&& written[11].0@ == "no_price_dollars"@
            &&& writes_opt_text(written[11].1, record.no_price_dollars)
        }),
{
    let written = json->Object_0@;
    let members = record.members();
    assert(is_member(written[0], members[0].0, members[0].1));
    assert(is_member(written[1], members[1].0, members[1].1));
    assert(is_member(written[2], members[2].0, members[2].1));
    assert(is_member(written[3], members[3].0, members[3].1));
    assert(is_member(written[4], members[4].0, members[4].1));
    assert(is_member(written[5], members[5].0, members[5].1));
    assert(is_member(written[6], members[6].0, members[6].1));
    assert(is_member(written[7], members[7].0, members[7].1));
    assert(is_member(written[8], members[8].0, members[8].1));
    assert(is_member(written[9], members[9].0, members[9].1));
    assert(is_member(written[10], members[10].0, members[10].1));
    assert(is_member(written[11], members[11].0, members[11].1));
}

/// The body that places an order holds what the request holds, under the names of the wire.
pub proof fn law_v2_create_order_request_is_written_by_name(
    json: Json,
    record: V2CreateOrderRequest,
)
    requires
        is_object(json, record.members()),
    ensures
        json is Object,
        ({
            let written = json->Object_0@;
            let shard: int = if record.exchange_index is Some {
                1
            } else {
                0
            };
            &&& written.len() == 7 + shard
            &&& written[0].0@ == "ticker"@
            &&& written[0].1 == Json::Str(record.ticker)
            &&& written[1].0@ == "side"@
            &&& writes_word(
                written[1].1,
                match record.side {
                    V2Side::Bid => "bid"@,
                    V2Side::Ask => "ask"@,
                },
            )
            &&& written[2].0@ == "count"@
            &&& written[2].1 == Json::Str(record.count)
            &&& written[3].0@ == "price"@
            &&& written[3].1 == Json::Str(record.price)
            &&& written[4].0@ == "time_in_force"@
            &&& writes_word(
                written[4].1,
                match record.time_in_force {
                    TimeInForce::FillOrKill => "fill_or_kill"@,
                    TimeInForce::GoodTillCanceled => "good_till_canceled"@,
                    TimeInForce::ImmediateOrCancel => "immediate_or_cancel"@,
                },
            )
            &&& written[5].0@ == "self_trade_prevention_type"@
            &&& writes_word(
                written[5].1,
                match record.self_trade_prevention_type {
                    SelfTradePreventionType::TakerAtCross => "taker_at_cross"@,
                    SelfTradePreventionType::Maker => "maker"@,
                },
            )
            &&& written[6].0@ == "client_order_id"@
            &&& written[6].1 == Json::Str(record.client_order_id)
            &&& record.exchange_index is Some ==> written[7].0@ == "exchange_index"@
            &&& record.exchange_index is Some ==> written[7].1 == Json::Int(
                record.exchange_index->0,
            )
        }),
{
    let written = json->Object_0@;
    let members = record.members();
    assert(is_member(written[0], members[0].0, members[0].1));
    assert(is_member(written[1], members[1].0, members[1].1));
    assert(is_member(written[2], members[2].0, members[2].1));
    assert(is_member(written[3], members[3].0, members[3].1));
    assert(is_member(written[4], members[4].0, members[4].1));
    assert(is_member(written[5], members[5].0, members[5].1));
    assert(is_member(written[6], members[6].0, members[6].1));
    if record.exchange_index is Some {
        assert(is_member(written[7], members[7].0, members[7].1));
    }
}

/// The body that amends an order holds what the request holds, under the names of the wire. What
/// is absent is not written.
pub proof fn law_v2_amend_order_is_written_by_name(json: Json, record: V2AmendOrder)
    requires
        is_object(json, record.members()),
    ensures
        json is Object,
        ({
            let written = json->Object_0@;
            let own: int = if record.client_order_id is Some {
                1
            } else {
                0
            };
            let new: int = if record.updated_client_order_id is Some {
                1
            } else {
                0
            };
            let shard: int = if record.exchange_index is Some {
                1
            } else {
                0
            };
            &&& written.len() == 4 + own + new + shard
            &&& written[0].0@ == "ticker"@
            &&& written[0].1 == Json::Str(record.ticker)
            &&& written[1].0@ == "side"@
            &&& writes_word(
                written[1].1,
                match record.side {
                    V2Side::Bid => "bid"@,
                    V2Side::Ask => "ask"@,
                },
            )
            &&& written[2].0@ == "price"@
            &&& written[2].1 == Json::Str(record.price)
            &&& written[3].0@ == "count"@
            &&& written[3].1 == Json::Str(record.count)
            &&& record.client_order_id is Some ==> written[4].0@ == "client_order_id"@
            &&& record.client_order_id is Some ==> written[4].1 == Json::Str(
                record.client_order_id->0,
            )
            &&& record.updated_client_order_id is Some ==> written[4 + own].0@
                == "updated_client_order_id"@
            &&& record.updated_client_order_id is Some ==> written[4 + own].1 == Json::Str(
                record.updated_client_order_id->0,
            )
            &&& record.exchange_index is Some ==> written[4 + own + new].0@ == "exchange_index"@
            &&& record.exchange_index is Some ==> written[4 + own + new].1 == Json::Int(
                record.exchange_index->0,
            )
        }),
{
    let written = json->Object_0@;
    let members = record.members();
    assert(is_member(written[0], members[0].0, members[0].1));
    assert(is_member(written[1], members[1].0, members[1].1));
    assert(is_member(written[2], members[2].0, members[2].1));
    assert(is_member(written[3], members[3].0, members[3].1));
    let own: int = if record.client_order_id is Some {
        1
    } else {
        0
    };
    let new: int = if record.updated_client_order_id is Some {
        1
    } else {
        0
    };
    if record.client_order_id is Some {
        assert(is_member(written[4], members[4].0, members[4].1));
    }
    if record.updated_client_order_id is Some {
        assert(is_member(written[4 + own], members[4 + own].0, members[4 + own].1));
    }
    if record.exchange_index is Some {
        let at = 4 + own + new;
        assert(is_member(written[at], members[at].0, members[at].1));
    }
}

/// `json` names the variant with this word.
pub open spec fn names_variant(json: Json, word: Seq<char>) -> bool {
    ||| json is Str && json->Str_0@ == word
    ||| json is Object && json->Object_0@.len() == 1 && json->Object_0@[0].0@ == word
        && json->Object_0@[0].1 == Json::Null
}

/// The sides of the book: each is written and read by its own word, as a string or as the name of
/// an object's only member whose value is null.
pub proof fn law_v2_side_words(json: Json)
    ensures
        V2Side::Bid.word() == "bid"@,
        V2Side::Ask.word() == "ask"@,
        V2Side::of_json(json) == Ok::<V2Side, DecodeError>(V2Side::Bid) <==> names_variant(
            json,
            "bid"@,
        ),
        V2Side::of_json(json) == Ok::<V2Side, DecodeError>(V2Side::Ask) <==> names_variant(
            json,
            "ask"@,
        ),
{
    reveal_strlit("bid");
    reveal_strlit("ask");
    assert("bid"@[0] != "ask"@[0]);
}

/// How long an order stands: each is written and read by its own word, as a string or as the name
/// of an object's only member whose value is null.
pub proof fn law_time_in_force_words(json: Json)
    ensures
        TimeInForce::FillOrKill.word() == "fill_or_kill"@,
        TimeInForce::GoodTillCanceled.word() == "good_till_canceled"@,
        TimeInForce::ImmediateOrCancel.word() == "immediate_or_cancel"@,
        TimeInForce::of_json(json) == Ok::<TimeInForce, DecodeError>(TimeInForce::FillOrKill)
            <==> names_variant(
            json,
            "fill_or_kill"@,
        ),
        TimeInForce::of_json(json)
            == Ok::<TimeInForce, DecodeError>(TimeInForce::GoodTillCanceled) <==> names_variant(
            json,
            "good_till_canceled"@,
        ),
        TimeInForce::of_json(json)
            == Ok::<TimeInForce, DecodeError>(TimeInForce::ImmediateOrCancel) <==> names_variant(
            json,
            "immediate_or_cancel"@,
        ),
{
    reveal_strlit("fill_or_kill");
    reveal_strlit("good_till_canceled");
    reveal_strlit("immediate_or_cancel");
    assert("fill_or_kill"@.len() != "good_till_canceled"@.len());
    assert("fill_or_kill"@.len() != "immediate_or_cancel"@.len());
    assert("good_till_canceled"@.len() != "immediate_or_cancel"@.len());
}

/// What happens on a trade with oneself: each is written and read by its own word, as a string or
/// as the name of an object's only member whose value is null.
pub proof fn law_self_trade_prevention_type_words(json: Json)
    ensures
        SelfTradePreventionType::TakerAtCross.word() == "taker_at_cross"@,
        SelfTradePreventionType::Maker.word() == "maker"@,
        SelfTradePreventionType::of_json(json)
            == Ok::<SelfTradePreventionType, DecodeError>(SelfTradePreventionType::TakerAtCross)
            <==> names_variant(
            json,
            "taker_at_cross"@,
        ),
        SelfTradePreventionType::of_json(json)
            == Ok::<SelfTradePreventionType, DecodeError>(SelfTradePreventionType::Maker)
            <==> names_variant(
            json,
            "maker"@,
        ),
{
    reveal_strlit("taker_at_cross");
    reveal_strlit("maker");
    assert("taker_at_cross"@.len() != "maker"@.len());
}

/// The legs are written as `yes` and `no`.
pub proof fn law_order_side_words()
    ensures
        OrderSide::Yes.word() == "yes"@,
        OrderSide::No.word() == "no"@,
{
}

/// The contracts of a decoded order are the member `count` where it is there, else what the member
/// `initial_count_fp` denotes, else none.
pub proof fn law_contracts_by_name(json: Json, order: OrderRecord, text: String, contracts: i64)
    requires
        json is Object,
        decoded::<OrderRecord>(json) == Ok::<OrderRecord, DecodeError>(order),
    ensures
        member(json->Object_0@, "count"@) == Some(Json::Int(contracts)) ==> order.contracts()
            == contracts,
        absent(member(json->Object_0@, "count"@)) && member(json->Object_0@, "initial_count_fp"@)
            == Some(Json::Str(text)) && count_in_contracts(text@) == Some(contracts)
            ==> order.contracts() == contracts,
        absent(member(json->Object_0@, "count"@)) && member(json->Object_0@, "initial_count_fp"@)
            == Some(Json::Str(text)) && count_in_contracts(text@) is None ==> order.contracts()
            == 0,
        absent(member(json->Object_0@, "count"@)) && absent(
            member(json->Object_0@, "initial_count_fp"@),
        ) ==> order.contracts() == 0,
{
    law_order_record_is_read_by_name(json, order);
}

/// What contracts say of a record they say of what it holds.
pub proof fn law_orders_models_are_the_records(
    v2_order_response: V2OrderResponse,
    v2_cancel_ack: V2CancelAck,
    v2_amend_ack: V2AmendAck,
    order_record: OrderRecord,
    order_ack: OrderAck,
    orders_response: OrdersResponse,
)
    ensures
        v2_order_response.model() == v2_order_response,
        v2_cancel_ack.model() == v2_cancel_ack,
        v2_amend_ack.model() == v2_amend_ack,
        order_record.model() == order_record,
        order_ack.model() == order_ack,
        orders_response.model().orders == orders_response.orders@,
        orders_response.model().cursor == orders_response.cursor,
{
    assert(orders_response.model().orders =~= orders_response.orders@);
}

} // verus!
