//! The frames of the venue's WebSocket feed.
//!
//! A frame is an envelope with a type tag and a message. Prices come as dollar strings and counts
//! as fixed-point strings; the records hold cents and contracts.

use vstd::prelude::*;

use crate::decode::{
    de_count_fp_i64, de_dollars_cents, de_opt_dollars_cents, de_price_count_pairs, decode,
    opt_int_field, opt_text_field, text_field, FromJson,
};
use crate::json::{find_slots, settle, take_member, DecodeError, Json};
use crate::text::same_text;

verus! {

use crate::decode::{
    cents_in, contracts_in, decoded, levels_in, levels_view, opt_cents_in, opt_int_in, opt_text_in,
    text_in,
};
use crate::fields::{
    law_first_duplicate_is_there_twice, law_levels_field, once, place, says_cents,
    says_contracts, says_levels, says_opt_cents, says_opt_int, says_opt_text, says_text,
};
use crate::json::{first_duplicate, is_settled, member, slots_of, slots_view};

/// A `ticker` frame.
#[derive(Debug, Clone)]
pub struct WsTicker {
    pub market_ticker: String,
    /// The best bid on YES in cents.
    pub yes_bid: Option<i64>,
    /// The best ask on YES in cents.
    pub yes_ask: Option<i64>,
    /// The price of the last trade in cents.
    pub price: Option<i64>,
    /// Unix time in seconds. Prefer `ts_ms`.
    pub ts: Option<i64>,
    /// Unix time in milliseconds.
    pub ts_ms: Option<i64>,
}

impl FromJson for WsTicker {
    type Model = WsTicker;

    open spec fn model(&self) -> WsTicker {
        *self
    }

    open spec fn keys() -> Seq<&'static str> {
        seq!["market_ticker", "yes_bid_dollars", "yes_ask_dollars", "price_dollars", "ts", "ts_ms"]
    }

    open spec fn least() -> int {
        6
    }

    open spec fn of_slots(slots: Seq<Option<Json>>) -> Result<WsTicker, DecodeError> {
        let market_ticker = text_in(slots[0], "market_ticker");
        let yes_bid = opt_cents_in(slots[1]);
        let yes_ask = opt_cents_in(slots[2]);
        let price = opt_cents_in(slots[3]);
        let ts = opt_int_in(slots[4]);
        let ts_ms = opt_int_in(slots[5]);
        if market_ticker is Err {
            Err(market_ticker->Err_0)
        } else if yes_bid is Err {
            Err(yes_bid->Err_0)
        } else if yes_ask is Err {
            Err(yes_ask->Err_0)
        } else if price is Err {
            Err(price->Err_0)
        } else if ts is Err {
            Err(ts->Err_0)
        } else if ts_ms is Err {
            Err(ts_ms->Err_0)
        } else {
            Ok(
                WsTicker {
                    market_ticker: market_ticker->Ok_0,
                    yes_bid: yes_bid->Ok_0,
                    yes_ask: yes_ask->Ok_0,
                    price: price->Ok_0,
                    ts: ts->Ok_0,
                    ts_ms: ts_ms->Ok_0,
                },
            )
        }
    }

    fn field_keys() -> (keys: (Vec<&'static str>, usize)) {
        (
            vec![
                "market_ticker",
                "yes_bid_dollars",
                "yes_ask_dollars",
                "price_dollars",
                "ts",
                "ts_ms",
            ],
            6,
        )
    }

    fn from_slots(slots: &Vec<Option<&Json>>) -> (record: Result<WsTicker, DecodeError>) {
        let market_ticker: String = text_field(slots[0], "market_ticker")?;
        let yes_bid: Option<i64> = de_opt_dollars_cents(slots[1])?;
        let yes_ask: Option<i64> = de_opt_dollars_cents(slots[2])?;
        let price: Option<i64> = de_opt_dollars_cents(slots[3])?;
        let ts: Option<i64> = opt_int_field(slots[4])?;
        let ts_ms: Option<i64> = opt_int_field(slots[5])?;
        Ok(WsTicker { market_ticker, yes_bid, yes_ask, price, ts, ts_ms })
    }
}

/// A `trade` frame: a public print.
#[derive(Debug, Clone)]
pub struct WsTrade {
    pub market_ticker: String,
    /// The price on YES in cents.
    pub yes_price: Option<i64>,
    /// The price on NO in cents.
    pub no_price: Option<i64>,
    /// The contracts that were traded.
    pub count: i64,
    pub taker_side: Option<String>,
    /// Unix time in seconds. Prefer `ts_ms`.
    pub ts: Option<i64>,
    /// Unix time in milliseconds.
    pub ts_ms: Option<i64>,
}

impl FromJson for WsTrade {
    type Model = WsTrade;

    open spec fn model(&self) -> WsTrade {
        *self
    }

    open spec fn keys() -> Seq<&'static str> {
        seq![
            "market_ticker",
            "yes_price_dollars",
            "no_price_dollars",
            "count_fp",
            "taker_side",
            "ts",
            "ts_ms",
        ]
    }

    open spec fn least() -> int {
        7
    }

    open spec fn of_slots(slots: Seq<Option<Json>>) -> Result<WsTrade, DecodeError> {
        let market_ticker = text_in(slots[0], "market_ticker");
        let yes_price = opt_cents_in(slots[1]);
        let no_price = opt_cents_in(slots[2]);
        let count = contracts_in(slots[3], "count_fp");
        let taker_side = opt_text_in(slots[4]);
        let ts = opt_int_in(slots[5]);
        let ts_ms = opt_int_in(slots[6]);
        if market_ticker is Err {
            Err(market_ticker->Err_0)
        } else if yes_price is Err {
            Err(yes_price->Err_0)
        } else if no_price is Err {
            Err(no_price->Err_0)
        } else if count is Err {
            Err(count->Err_0)
        } else if taker_side is Err {
            Err(taker_side->Err_0)
        } else if ts is Err {
            Err(ts->Err_0)
        } else if ts_ms is Err {
            Err(ts_ms->Err_0)
        } else {
            Ok(
                WsTrade {
                    market_ticker: market_ticker->Ok_0,
                    yes_price: yes_price->Ok_0,
                    no_price: no_price->Ok_0,
                    count: count->Ok_0,
                    taker_side: taker_side->Ok_0,
                    ts: ts->Ok_0,
                    ts_ms: ts_ms->Ok_0,
                },
            )
        }
    }

    fn field_keys() -> (keys: (Vec<&'static str>, usize)) {
        (
            vec![
                "market_ticker",
                "yes_price_dollars",
                "no_price_dollars",
                "count_fp",
                "taker_side",
                "ts",
                "ts_ms",
            ],
            7,
        )
    }

    fn from_slots(slots: &Vec<Option<&Json>>) -> (record: Result<WsTrade, DecodeError>) {
        let market_ticker: String = text_field(slots[0], "market_ticker")?;
        let yes_price: Option<i64> = de_opt_dollars_cents(slots[1])?;
        let no_price: Option<i64> = de_opt_dollars_cents(slots[2])?;
        let count: i64 = de_count_fp_i64(slots[3], "count_fp")?;
        let taker_side: Option<String> = opt_text_field(slots[4])?;
        let ts: Option<i64> = opt_int_field(slots[5])?;
        let ts_ms: Option<i64> = opt_int_field(slots[6])?;
        Ok(WsTrade { market_ticker, yes_price, no_price, count, taker_side, ts, ts_ms })
    }
}

/// An `orderbook_snapshot` frame.
#[derive(Debug, Clone)]
pub struct WsOrderbook {
    pub market_ticker: String,
    /// The YES side, each level `[price in cents, contracts]`.
    pub yes: Vec<[i64; 2]>,
    /// The NO side.
    pub no: Vec<[i64; 2]>,
    /// Unix time in seconds. Prefer `ts_ms`.
    pub ts: Option<i64>,
    /// Unix time in milliseconds.
    pub ts_ms: Option<i64>,
}

/// [`WsOrderbook`] as contracts speak of it.
pub struct WsOrderbookModel {
    pub market_ticker: String,
    pub yes: Seq<(i64, i64)>,
    pub no: Seq<(i64, i64)>,
    pub ts: Option<i64>,
    pub ts_ms: Option<i64>,
}

impl FromJson for WsOrderbook {
    type Model = WsOrderbookModel;

    open spec fn model(&self) -> WsOrderbookModel {
        WsOrderbookModel {
            market_ticker: self.market_ticker,
            yes: levels_view(self.yes@),
            no: levels_view(self.no@),
            ts: self.ts,
            ts_ms: self.ts_ms,
        }
    }

    open spec fn keys() -> Seq<&'static str> {
        seq!["market_ticker", "yes_dollars_fp", "no_dollars_fp", "ts", "ts_ms"]
    }

    open spec fn least() -> int {
        5
    }

    open spec fn of_slots(slots: Seq<Option<Json>>) -> Result<WsOrderbookModel, DecodeError> {
        let market_ticker = text_in(slots[0], "market_ticker");
        let yes = levels_in(slots[1]);
        let no = levels_in(slots[2]);
        let ts = opt_int_in(slots[3]);
        let ts_ms = opt_int_in(slots[4]);
        if market_ticker is Err {
            Err(market_ticker->Err_0)
        } else if yes is Err {
            Err(yes->Err_0)
        } else if no is Err {
            Err(no->Err_0)
        } else if ts is Err {
            Err(ts->Err_0)
        } else if ts_ms is Err {
            Err(ts_ms->Err_0)
        } else {
            Ok(
                WsOrderbookModel {
                    market_ticker: market_ticker->Ok_0,
                    yes: yes->Ok_0,
                    no: no->Ok_0,
                    ts: ts->Ok_0,
                    ts_ms: ts_ms->Ok_0,
                },
            )
        }
    }

    fn field_keys() -> (keys: (Vec<&'static str>, usize)) {
        (vec!["market_ticker", "yes_dollars_fp", "no_dollars_fp", "ts", "ts_ms"], 5)
    }

    fn from_slots(slots: &Vec<Option<&Json>>) -> (record: Result<WsOrderbook, DecodeError>) {
        let market_ticker: String = text_field(slots[0], "market_ticker")?;
        let yes: Vec<[i64; 2]> = de_price_count_pairs(slots[1])?;
        let no: Vec<[i64; 2]> = de_price_count_pairs(slots[2])?;
        let ts: Option<i64> = opt_int_field(slots[3])?;
        let ts_ms: Option<i64> = opt_int_field(slots[4])?;
        Ok(WsOrderbook { market_ticker, yes, no, ts, ts_ms })
    }
}

/// An `orderbook_delta` frame. Its `ts` is a date in text and is not read.
#[derive(Debug, Clone)]
pub struct WsOrderbookDelta {
    pub market_ticker: String,
    /// `"yes"` or `"no"`.
    pub side: String,
    /// The price of the level in cents.
    pub price: i64,
    /// The change in contracts, with its sign.
    pub delta: i64,
    /// Unix time in milliseconds.
    pub ts_ms: Option<i64>,
}

impl FromJson for WsOrderbookDelta {
    type Model = WsOrderbookDelta;

    open spec fn model(&self) -> WsOrderbookDelta {
        *self
    }

    open spec fn keys() -> Seq<&'static str> {
        seq!["market_ticker", "side", "price_dollars", "delta_fp", "ts_ms"]
    }

    open spec fn least() -> int {
        5
    }

    open spec fn of_slots(slots: Seq<Option<Json>>) -> Result<WsOrderbookDelta, DecodeError> {
        let market_ticker = text_in(slots[0], "market_ticker");
        let side = text_in(slots[1], "side");
        let price = cents_in(slots[2], "price_dollars");
        let delta = contracts_in(slots[3], "delta_fp");
        let ts_ms = opt_int_in(slots[4]);
        if market_ticker is Err {
            Err(market_ticker->Err_0)
        } else if side is Err {
            Err(side->Err_0)
        } else if price is Err {
            Err(price->Err_0)
        } else if delta is Err {
            Err(delta->Err_0)
        } else if ts_ms is Err {
            Err(ts_ms->Err_0)
        } else {
            Ok(
                WsOrderbookDelta {
                    market_ticker: market_ticker->Ok_0,
                    side: side->Ok_0,
                    price: price->Ok_0,
                    delta: delta->Ok_0,
                    ts_ms: ts_ms->Ok_0,
                },
            )
        }
    }

    fn field_keys() -> (keys: (Vec<&'static str>, usize)) {
        (vec!["market_ticker", "side", "price_dollars", "delta_fp", "ts_ms"], 5)
    }

    fn from_slots(slots: &Vec<Option<&Json>>) -> (record: Result<WsOrderbookDelta, DecodeError>) {
        let market_ticker: String = text_field(slots[0], "market_ticker")?;
        let side: String = text_field(slots[1], "side")?;
        let price: i64 = de_dollars_cents(slots[2], "price_dollars")?;
        let delta: i64 = de_count_fp_i64(slots[3], "delta_fp")?;
        let ts_ms: Option<i64> = opt_int_field(slots[4])?;
        Ok(WsOrderbookDelta { market_ticker, side, price, delta, ts_ms })
    }
}

/// A `fill` frame: one of our own.
#[derive(Debug, Clone)]
pub struct WsFill {
    pub market_ticker: String,
    pub order_id: String,
    /// The price on YES in cents.
    pub yes_price: Option<i64>,
    /// The price on NO in cents. A fill usually has the YES leg only.
    pub no_price: Option<i64>,
    /// The contracts that were filled.
    pub count: i64,
    pub side: String,
    /// Unix time in seconds. Prefer `ts_ms`.
    pub ts: Option<i64>,
    /// What tells one fill from another: two fills of an order share its id and differ in this.
    pub trade_id: Option<String>,
    /// Unix time in milliseconds.
    pub ts_ms: Option<i64>,
    /// The net position after the fill, as a fixed-point string.
    pub post_position_fp: Option<String>,
    /// The whole fee of the fill, as a dollar string.
    pub fee_cost: Option<String>,
}

impl FromJson for WsFill {
    type Model = WsFill;

    open spec fn model(&self) -> WsFill {
        *self
    }

    open spec fn keys() -> Seq<&'static str> {
        seq![
            "market_ticker",
            "order_id",
            "yes_price_dollars",
            "no_price_dollars",
            "count_fp",
            "side",
            "ts",
            "trade_id",
            "ts_ms",
            "post_position_fp",
            "fee_cost",
        ]
    }

    open spec fn least() -> int {
        10
    }

    open spec fn of_slots(slots: Seq<Option<Json>>) -> Result<WsFill, DecodeError> {
        let market_ticker = text_in(slots[0], "market_ticker");
        let order_id = text_in(slots[1], "order_id");
        let yes_price = opt_cents_in(slots[2]);
        let no_price = opt_cents_in(slots[3]);
        let count = contracts_in(slots[4], "count_fp");
        let side = text_in(slots[5], "side");
        let ts = opt_int_in(slots[6]);
        let trade_id = opt_text_in(slots[7]);
        let ts_ms = opt_int_in(slots[8]);
        let post_position_fp = opt_text_in(slots[9]);
        let fee_cost = opt_text_in(slots[10]);
        if market_ticker is Err {
            Err(market_ticker->Err_0)
        } else if order_id is Err {
            Err(order_id->Err_0)
        } else if yes_price is Err {
            Err(yes_price->Err_0)
        } else if no_price is Err {
            Err(no_price->Err_0)
        } else if count is Err {
            Err(count->Err_0)
        } else if side is Err {
            Err(side->Err_0)
        } else if ts is Err {
            Err(ts->Err_0)
        } else if trade_id is Err {
            Err(trade_id->Err_0)
        } else if ts_ms is Err {
            Err(ts_ms->Err_0)
        } else if post_position_fp is Err {
            Err(post_position_fp->Err_0)
        } else if fee_cost is Err {
            Err(fee_cost->Err_0)
        } else {
            Ok(
                WsFill {
                    market_ticker: market_ticker->Ok_0,
                    order_id: order_id->Ok_0,
                    yes_price: yes_price->Ok_0,
                    no_price: no_price->Ok_0,
                    count: count->Ok_0,
                    side: side->Ok_0,
                    ts: ts->Ok_0,
                    trade_id: trade_id->Ok_0,
                    ts_ms: ts_ms->Ok_0,
                    post_position_fp: post_position_fp->Ok_0,
                    fee_cost: fee_cost->Ok_0,
                },
            )
        }
    }

    fn field_keys() -> (keys: (Vec<&'static str>, usize)) {
        (
            vec![
                "market_ticker",
                "order_id",
                "yes_price_dollars",
                "no_price_dollars",
                "count_fp",
                "side",
                "ts",
                "trade_id",
                "ts_ms",
                "post_position_fp",
                "fee_cost",
            ],
            10,
        )
    }

    fn from_slots(slots: &Vec<Option<&Json>>) -> (record: Result<WsFill, DecodeError>) {
        let market_ticker: String = text_field(slots[0], "market_ticker")?;
        let order_id: String = text_field(slots[1], "order_id")?;
        let yes_price: Option<i64> = de_opt_dollars_cents(slots[2])?;
        let no_price: Option<i64> = de_opt_dollars_cents(slots[3])?;
        let count: i64 = de_count_fp_i64(slots[4], "count_fp")?;
        let side: String = text_field(slots[5], "side")?;
        let ts: Option<i64> = opt_int_field(slots[6])?;
        let trade_id: Option<String> = opt_text_field(slots[7])?;
        let ts_ms: Option<i64> = opt_int_field(slots[8])?;
        let post_position_fp: Option<String> = opt_text_field(slots[9])?;
        let fee_cost: Option<String> = opt_text_field(slots[10])?;
        Ok(
            WsFill {
                market_ticker,
                order_id,
                yes_price,
                no_price,
                count,
                side,
                ts,
                trade_id,
                ts_ms,
                post_position_fp,
                fee_cost,
            },
        )
    }
}

/// A frame before it is decoded.
#[derive(Debug)]
pub struct WsEnvelope {
    pub msg_type: String,
    pub msg: Json,
}

impl WsEnvelope {
    pub open spec fn keys() -> Seq<&'static str> {
        seq!["type", "msg"]
    }

    /// The tag and the message of an envelope. Both must be there.
    pub open spec fn of_json(json: Json) -> Result<(String, Json), DecodeError> {
        match slots_of(json, Self::keys(), 2) {
            Ok(slots) => match text_in(slots[0], "type") {
                Ok(msg_type) => match slots[1] {
                    Some(msg) => Ok((msg_type, msg)),
                    None => Err(DecodeError::MissingField("msg")),
                },
                Err(e) => Err(e),
            },
            Err(e) => Err(e),
        }
    }

    /// Reads an envelope. Its message may be anything; where a key of it is repeated, the last
    /// member counts.
    pub fn from_json(json: Json) -> (envelope: Result<WsEnvelope, DecodeError>)
        ensures
            match envelope {
                Ok(envelope) => {
                    &&& Self::of_json(json) is Ok
                    &&& Self::of_json(json)->Ok_0.0 == envelope.msg_type
                    &&& is_settled(Self::of_json(json)->Ok_0.1, envelope.msg)
                },
                Err(e) => Self::of_json(json) == Err::<(String, Json), DecodeError>(e),
            },
    {
        let keys: Vec<&'static str> = vec!["type", "msg"];
        assert(keys@ =~= Self::keys());
        let slots = find_slots(&json, &keys, 2)?;
        assert(slots_view(slots@).len() == 2);
        let msg_type = text_field(slots[0], "type")?;
        if slots[1].is_none() {
            return Err(DecodeError::MissingField("msg"));
        }
        let msg = settle(take_member(json, &keys, 1, 2));
        Ok(WsEnvelope { msg_type, msg })
    }
}

/// A frame of the feed.
#[derive(Debug, Clone)]
pub enum WsMessage {
    Ticker(WsTicker),
    Trade(WsTrade),
    OrderbookSnapshot(WsOrderbook),
    OrderbookDelta(WsOrderbookDelta),
    Fill(WsFill),
    /// A frame with no data, or with a tag that is not known.
    Other,
}

/// [`WsMessage`] as contracts speak of it.
pub enum WsMessageModel {
    Ticker(WsTicker),
    Trade(WsTrade),
    OrderbookSnapshot(WsOrderbookModel),
    OrderbookDelta(WsOrderbookDelta),
    Fill(WsFill),
    Other,
}

impl WsMessage {
    pub open spec fn model(&self) -> WsMessageModel {
        match *self {
            WsMessage::Ticker(ticker) => WsMessageModel::Ticker(ticker),
            WsMessage::Trade(trade) => WsMessageModel::Trade(trade),
            WsMessage::OrderbookSnapshot(book) => WsMessageModel::OrderbookSnapshot(book.model()),
            WsMessage::OrderbookDelta(delta) => WsMessageModel::OrderbookDelta(delta),
            WsMessage::Fill(fill) => WsMessageModel::Fill(fill),
            WsMessage::Other => WsMessageModel::Other,
        }
    }

    /// What a message with this tag denotes.
    pub open spec fn of_message(tag: Seq<char>, msg: Json) -> Result<WsMessageModel, DecodeError> {
        if tag == "ticker"@ {
            match decoded::<WsTicker>(msg) {
                Ok(ticker) => Ok(WsMessageModel::Ticker(ticker)),
                Err(e) => Err(e),
            }
        } else if tag == "trade"@ {
            match decoded::<WsTrade>(msg) {
                Ok(trade) => Ok(WsMessageModel::Trade(trade)),
                Err(e) => Err(e),
            }
        } else if tag == "orderbook_snapshot"@ {
            match decoded::<WsOrderbook>(msg) {
                Ok(book) => Ok(WsMessageModel::OrderbookSnapshot(book)),
                Err(e) => Err(e),
            }
        } else if tag == "orderbook_delta"@ {
            match decoded::<WsOrderbookDelta>(msg) {
                Ok(delta) => Ok(WsMessageModel::OrderbookDelta(delta)),
                Err(e) => Err(e),
            }
        } else if tag == "fill"@ {
            match decoded::<WsFill>(msg) {
                Ok(fill) => Ok(WsMessageModel::Fill(fill)),
                Err(e) => Err(e),
            }
        } else {
            Ok(WsMessageModel::Other)
        }
    }

    /// Decodes a frame. A tag that is not known gives [`WsMessage::Other`], never an error, so that
    /// a new kind of frame does not end the feed.
    pub fn from_envelope(env: WsEnvelope) -> (message: Result<WsMessage, DecodeError>)
        ensures
            match message {
                Ok(message) => Self::of_message(env.msg_type@, env.msg) == Ok::<
                    WsMessageModel,
                    DecodeError,
                >(message.model()),
                Err(e) => Self::of_message(env.msg_type@, env.msg) == Err::<
                    WsMessageModel,
                    DecodeError,
                >(e),
            },
    {
        let tag = env.msg_type.as_str();
        if same_text(tag, "ticker") {
            Ok(WsMessage::Ticker(decode::<WsTicker>(&env.msg)?))
        } else if same_text(tag, "trade") {
            Ok(WsMessage::Trade(decode::<WsTrade>(&env.msg)?))
        } else if same_text(tag, "orderbook_snapshot") {
            Ok(WsMessage::OrderbookSnapshot(decode::<WsOrderbook>(&env.msg)?))
        } else if same_text(tag, "orderbook_delta") {
            Ok(WsMessage::OrderbookDelta(decode::<WsOrderbookDelta>(&env.msg)?))
        } else if same_text(tag, "fill") {
            Ok(WsMessage::Fill(decode::<WsFill>(&env.msg)?))
        } else {
            Ok(WsMessage::Other)
        }
    }
}

// ---------------------------------------------------------------------------
// Laws
// ---------------------------------------------------------------------------

/// A tag that is not one of the five decodes to [`WsMessage::Other`], whatever the message is.
pub proof fn law_unknown_tag_never_fails(tag: Seq<char>, msg: Json)
    requires
        tag != "ticker"@,
        tag != "trade"@,
        tag != "orderbook_snapshot"@,
        tag != "orderbook_delta"@,
        tag != "fill"@,
    ensures
        WsMessage::of_message(tag, msg) == Ok::<WsMessageModel, DecodeError>(WsMessageModel::Other),
{
}

/// A frame of one of the five tags decodes to the record of that tag or to an error, never to
/// another record and never to [`WsMessage::Other`].
pub proof fn law_tag_settles_the_record(tag: Seq<char>, msg: Json)
    requires
        WsMessage::of_message(tag, msg) is Ok,
    ensures
        match WsMessage::of_message(tag, msg)->Ok_0 {
            WsMessageModel::Ticker(_) => tag == "ticker"@,
            WsMessageModel::Trade(_) => tag == "trade"@,
            WsMessageModel::OrderbookSnapshot(_) => tag == "orderbook_snapshot"@,
            WsMessageModel::OrderbookDelta(_) => tag == "orderbook_delta"@,
            WsMessageModel::Fill(_) => tag == "fill"@,
            WsMessageModel::Other => {
                &&& tag != "ticker"@
                &&& tag != "trade"@
                &&& tag != "orderbook_snapshot"@
                &&& tag != "orderbook_delta"@
                &&& tag != "fill"@
            },
        },
{
}

/// A fill that decodes has lost no price: a leg is without one only where the frame has none or
/// null. Its count is the one that the frame states.
pub proof fn law_fill_keeps_prices_and_count(msg: Json)
    requires
        decoded::<WsFill>(msg) is Ok,
    ensures
        ({
            let fill = decoded::<WsFill>(msg)->Ok_0;
            let slots = slots_of(msg, WsFill::keys(), WsFill::least())->Ok_0;
            &&& fill.yes_price is None <==> slots[2] is None || slots[2] == Some(Json::Null)
            &&& fill.no_price is None <==> slots[3] is None || slots[3] == Some(Json::Null)
            &&& contracts_in(slots[4], "count_fp") == Ok::<i64, DecodeError>(fill.count)
        }),
{
}

/// A ticker frame is read by the names of its fields: an object decodes to it where each field is
/// what the member of its own name says, and only there. None of these names may stand twice.
pub proof fn law_ws_ticker_is_read_by_name(json: Json, record: WsTicker)
    requires
        json is Object,
    ensures
        ({
            let members = json->Object_0@;
            decoded::<WsTicker>(json) == Ok::<WsTicker, DecodeError>(record) <==> {
                &&& once(members, "market_ticker"@)
                &&& once(members, "yes_bid_dollars"@)
                &&& once(members, "yes_ask_dollars"@)
                &&& once(members, "price_dollars"@)
                &&& once(members, "ts"@)
                &&& once(members, "ts_ms"@)
                &&& says_text(member(members, "market_ticker"@), record.market_ticker)
                &&& says_opt_cents(member(members, "yes_bid_dollars"@), record.yes_bid)
                &&& says_opt_cents(member(members, "yes_ask_dollars"@), record.yes_ask)
                &&& says_opt_cents(member(members, "price_dollars"@), record.price)
                &&& says_opt_int(member(members, "ts"@), record.ts)
                &&& says_opt_int(member(members, "ts_ms"@), record.ts_ms)
            }
        }),
{
    let members = json->Object_0@;
    let keys = WsTicker::keys();
    law_first_duplicate_is_there_twice(members, keys);
    assert(keys[0] == "market_ticker");
    assert(keys[1] == "yes_bid_dollars");
    assert(keys[2] == "yes_ask_dollars");
    assert(keys[3] == "price_dollars");
    assert(keys[4] == "ts");
    assert(keys[5] == "ts_ms");
    assert(first_duplicate(members, keys) is None <==> {
        &&& once(members, "market_ticker"@)
        &&& once(members, "yes_bid_dollars"@)
        &&& once(members, "yes_ask_dollars"@)
        &&& once(members, "price_dollars"@)
        &&& once(members, "ts"@)
        &&& once(members, "ts_ms"@)
    }) by {
        if first_duplicate(members, keys) is None {
            assert(once(members, keys[0]@));
            assert(once(members, keys[1]@));
            assert(once(members, keys[2]@));
            assert(once(members, keys[3]@));
            assert(once(members, keys[4]@));
            assert(once(members, keys[5]@));
        }
    }
    if first_duplicate(members, keys) is None {
        let slots = Seq::new(keys.len(), |i: int| member(members, keys[i]@));
        assert(slots_of(json, keys, WsTicker::least())
            == Ok::<Seq<Option<Json>>, DecodeError>(slots));
        assert(slots[0] == member(members, "market_ticker"@));
        assert(slots[1] == member(members, "yes_bid_dollars"@));
        assert(slots[2] == member(members, "yes_ask_dollars"@));
        assert(slots[3] == member(members, "price_dollars"@));
        assert(slots[4] == member(members, "ts"@));
        assert(slots[5] == member(members, "ts_ms"@));
    }
}

/// A ticker frame in an array is read by the places of its fields.
pub proof fn law_ws_ticker_is_read_by_place(json: Json, record: WsTicker)
    requires
        json is Array,
    ensures
        ({
            let elements = json->Array_0@;
            decoded::<WsTicker>(json) == Ok::<WsTicker, DecodeError>(record) <==> {
                &&& elements.len() == 6
                &&& says_text(place(elements, 0), record.market_ticker)
                &&& says_opt_cents(place(elements, 1), record.yes_bid)
                &&& says_opt_cents(place(elements, 2), record.yes_ask)
                &&& says_opt_cents(place(elements, 3), record.price)
                &&& says_opt_int(place(elements, 4), record.ts)
                &&& says_opt_int(place(elements, 5), record.ts_ms)
            }
        }),
{
    let elements = json->Array_0@;
    let keys = WsTicker::keys();
    if 6 <= elements.len() <= 6 {
        let slots = slots_of(json, keys, WsTicker::least())->Ok_0;
        assert(slots[0] == place(elements, 0));
        assert(slots[1] == place(elements, 1));
        assert(slots[2] == place(elements, 2));
        assert(slots[3] == place(elements, 3));
        assert(slots[4] == place(elements, 4));
        assert(slots[5] == place(elements, 5));
    }
}

/// A trade frame is read by the names of its fields: an object decodes to it where each field is
/// what the member of its own name says, and only there. None of these names may stand twice.
pub proof fn law_ws_trade_is_read_by_name(json: Json, record: WsTrade)
    requires
        json is Object,
    ensures
        ({
            let members = json->Object_0@;
            decoded::<WsTrade>(json) == Ok::<WsTrade, DecodeError>(record) <==> {
                &&& once(members, "market_ticker"@)
                &&& once(members, "yes_price_dollars"@)
                &&& once(members, "no_price_dollars"@)
                &&& once(members, "count_fp"@)
                &&& once(members, "taker_side"@)
                &&& once(members, "ts"@)
                &&& once(members, "ts_ms"@)
                &&& says_text(member(members, "market_ticker"@), record.market_ticker)
                &&& says_opt_cents(member(members, "yes_price_dollars"@), record.yes_price)
                &&& says_opt_cents(member(members, "no_price_dollars"@), record.no_price)
                &&& says_contracts(member(members, "count_fp"@), record.count)
                &&& says_opt_text(member(members, "taker_side"@), record.taker_side)
                &&& says_opt_int(member(members, "ts"@), record.ts)
                &&& says_opt_int(member(members, "ts_ms"@), record.ts_ms)
            }
        }),
{
    let members = json->Object_0@;
    let keys = WsTrade::keys();
    law_first_duplicate_is_there_twice(members, keys);
    assert(keys[0] == "market_ticker");
    assert(keys[1] == "yes_price_dollars");
    assert(keys[2] == "no_price_dollars");
    assert(keys[3] == "count_fp");
    assert(keys[4] == "taker_side");
    assert(keys[5] == "ts");
    assert(keys[6] == "ts_ms");
    assert(first_duplicate(members, keys) is None <==> {
        &&& once(members, "market_ticker"@)
        &&& once(members, "yes_price_dollars"@)
        &&& once(members, "no_price_dollars"@)
        &&& once(members, "count_fp"@)
        &&& once(members, "taker_side"@)
        &&& once(members, "ts"@)
        &&& once(members, "ts_ms"@)
    }) by {
        if first_duplicate(members, keys) is None {
            assert(once(members, keys[0]@));
            assert(once(members, keys[1]@));
            assert(once(members, keys[2]@));
            assert(once(members, keys[3]@));
            assert(once(members, keys[4]@));
            assert(once(members, keys[5]@));
            assert(once(members, keys[6]@));
        }
    }
    if first_duplicate(members, keys) is None {
        let slots = Seq::new(keys.len(), |i: int| member(members, keys[i]@));
        assert(slots_of(json, keys, WsTrade::least())
            == Ok::<Seq<Option<Json>>, DecodeError>(slots));
        assert(slots[0] == member(members, "market_ticker"@));
        assert(slots[1] == member(members, "yes_price_dollars"@));
        assert(slots[2] == member(members, "no_price_dollars"@));
        assert(slots[3] == member(members, "count_fp"@));
        assert(slots[4] == member(members, "taker_side"@));
        assert(slots[5] == member(members, "ts"@));
        assert(slots[6] == member(members, "ts_ms"@));
    }
}

/// A trade frame in an array is read by the places of its fields.
pub proof fn law_ws_trade_is_read_by_place(json: Json, record: WsTrade)
    requires
        json is Array,
    ensures
        ({
            let elements = json->Array_0@;
            decoded::<WsTrade>(json) == Ok::<WsTrade, DecodeError>(record) <==> {
                &&& elements.len() == 7
                &&& says_text(place(elements, 0), record.market_ticker)
                &&& says_opt_cents(place(elements, 1), record.yes_price)
                &&& says_opt_cents(place(elements, 2), record.no_price)
                &&& says_contracts(place(elements, 3), record.count)
                &&& says_opt_text(place(elements, 4), record.taker_side)
                &&& says_opt_int(place(elements, 5), record.ts)
                &&& says_opt_int(place(elements, 6), record.ts_ms)
            }
        }),
{
    let elements = json->Array_0@;
    let keys = WsTrade::keys();
    if 7 <= elements.len() <= 7 {
        let slots = slots_of(json, keys, WsTrade::least())->Ok_0;
        assert(slots[0] == place(elements, 0));
        assert(slots[1] == place(elements, 1));
        assert(slots[2] == place(elements, 2));
        assert(slots[3] == place(elements, 3));
        assert(slots[4] == place(elements, 4));
        assert(slots[5] == place(elements, 5));
        assert(slots[6] == place(elements, 6));
    }
}

/// A book frame is read by the names of its fields: an object decodes to it where each field is
/// what the member of its own name says, and only there. None of these names may stand twice.
pub proof fn law_ws_orderbook_is_read_by_name(json: Json, record: WsOrderbookModel)
    requires
        json is Object,
    ensures
        ({
            let members = json->Object_0@;
            decoded::<WsOrderbook>(json) == Ok::<WsOrderbookModel, DecodeError>(record) <==> {
                &&& once(members, "market_ticker"@)
                &&& once(members, "yes_dollars_fp"@)
                &&& once(members, "no_dollars_fp"@)
                &&& once(members, "ts"@)
                &&& once(members, "ts_ms"@)
                &&& says_text(member(members, "market_ticker"@), record.market_ticker)
                &&& says_levels(member(members, "yes_dollars_fp"@), record.yes)
                &&& says_levels(member(members, "no_dollars_fp"@), record.no)
                &&& says_opt_int(member(members, "ts"@), record.ts)
                &&& says_opt_int(member(members, "ts_ms"@), record.ts_ms)
            }
        }),
{
    let members = json->Object_0@;
    let keys = WsOrderbook::keys();
    law_first_duplicate_is_there_twice(members, keys);
    assert(keys[0] == "market_ticker");
    assert(keys[1] == "yes_dollars_fp");
    assert(keys[2] == "no_dollars_fp");
    assert(keys[3] == "ts");
    assert(keys[4] == "ts_ms");
    assert(first_duplicate(members, keys) is None <==> {
        &&& once(members, "market_ticker"@)
        &&& once(members, "yes_dollars_fp"@)
        &&& once(members, "no_dollars_fp"@)
        &&& once(members, "ts"@)
        &&& once(members, "ts_ms"@)
    }) by {
        if first_duplicate(members, keys) is None {
            assert(once(members, keys[0]@));
            assert(once(members, keys[1]@));
            assert(once(members, keys[2]@));
            assert(once(members, keys[3]@));
            assert(once(members, keys[4]@));
        }
    }
    law_levels_field(member(members, "yes_dollars_fp"@), record.yes);
    law_levels_field(member(members, "no_dollars_fp"@), record.no);
    if first_duplicate(members, keys) is None {
        let slots = Seq::new(keys.len(), |i: int| member(members, keys[i]@));
        assert(slots_of(json, keys, WsOrderbook::least())
            == Ok::<Seq<Option<Json>>, DecodeError>(slots));
        assert(slots[0] == member(members, "market_ticker"@));
        assert(slots[1] == member(members, "yes_dollars_fp"@));
        assert(slots[2] == member(members, "no_dollars_fp"@));
        assert(slots[3] == member(members, "ts"@));
        assert(slots[4] == member(members, "ts_ms"@));
    }
}

/// A book frame in an array is read by the places of its fields.
pub proof fn law_ws_orderbook_is_read_by_place(json: Json, record: WsOrderbookModel)
    requires
        json is Array,
    ensures
        ({
            let elements = json->Array_0@;
            decoded::<WsOrderbook>(json) == Ok::<WsOrderbookModel, DecodeError>(record) <==> {
                &&& elements.len() == 5
                &&& says_text(place(elements, 0), record.market_ticker)
                &&& says_levels(place(elements, 1), record.yes)
                &&& says_levels(place(elements, 2), record.no)
                &&& says_opt_int(place(elements, 3), record.ts)
                &&& says_opt_int(place(elements, 4), record.ts_ms)
            }
        }),
{
    let elements = json->Array_0@;
    let keys = WsOrderbook::keys();
    law_levels_field(place(elements, 1), record.yes);
    law_levels_field(place(elements, 2), record.no);
    if 5 <= elements.len() <= 5 {
        let slots = slots_of(json, keys, WsOrderbook::least())->Ok_0;
        assert(slots[0] == place(elements, 0));
        assert(slots[1] == place(elements, 1));
        assert(slots[2] == place(elements, 2));
        assert(slots[3] == place(elements, 3));
        assert(slots[4] == place(elements, 4));
    }
}

/// A delta frame is read by the names of its fields: an object decodes to it where each field is
/// what the member of its own name says, and only there. None of these names may stand twice.
pub proof fn law_ws_orderbook_delta_is_read_by_name(json: Json, record: WsOrderbookDelta)
    requires
        json is Object,
    ensures
        ({
            let members = json->Object_0@;
            decoded::<WsOrderbookDelta>(json) == Ok::<WsOrderbookDelta, DecodeError>(record) <==> {
                &&& once(members, "market_ticker"@)
                &&& once(members, "side"@)
                &&& once(members, "price_dollars"@)
                &&& once(members, "delta_fp"@)
                &&& once(members, "ts_ms"@)
                &&& says_text(member(members, "market_ticker"@), record.market_ticker)
                &&& says_text(member(members, "side"@), record.side)
                &&& says_cents(member(members, "price_dollars"@), record.price)
                &&& says_contracts(member(members, "delta_fp"@), record.delta)
                &&& says_opt_int(member(members, "ts_ms"@), record.ts_ms)
            }
        }),
{
    let members = json->Object_0@;
    let keys = WsOrderbookDelta::keys();
    law_first_duplicate_is_there_twice(members, keys);
    assert(keys[0] == "market_ticker");
    assert(keys[1] == "side");
    assert(keys[2] == "price_dollars");
    assert(keys[3] == "delta_fp");
    assert(keys[4] == "ts_ms");
    assert(first_duplicate(members, keys) is None <==> {
        &&& once(members, "market_ticker"@)
        &&& once(members, "side"@)
        &&& once(members, "price_dollars"@)
        &&& once(members, "delta_fp"@)
        &&& once(members, "ts_ms"@)
    }) by {
        if first_duplicate(members, keys) is None {
            assert(once(members, keys[0]@));
            assert(once(members, keys[1]@));
            assert(once(members, keys[2]@));
            assert(once(members, keys[3]@));
            assert(once(members, keys[4]@));
        }
    }
    if first_duplicate(members, keys) is None {
        let slots = Seq::new(keys.len(), |i: int| member(members, keys[i]@));
        assert(slots_of(json, keys, WsOrderbookDelta::least())
            == Ok::<Seq<Option<Json>>, DecodeError>(slots));
        assert(slots[0] == member(members, "market_ticker"@));
        assert(slots[1] == member(members, "side"@));
        assert(slots[2] == member(members, "price_dollars"@));
        assert(slots[3] == member(members, "delta_fp"@));
        assert(slots[4] == member(members, "ts_ms"@));
    }
}

/// A delta frame in an array is read by the places of its fields.
pub proof fn law_ws_orderbook_delta_is_read_by_place(json: Json, record: WsOrderbookDelta)
    requires
        json is Array,
    ensures
        ({
            let elements = json->Array_0@;
            decoded::<WsOrderbookDelta>(json) == Ok::<WsOrderbookDelta, DecodeError>(record) <==> {
                &&& elements.len() == 5
                &&& says_text(place(elements, 0), record.market_ticker)
                &&& says_text(place(elements, 1), record.side)
                &&& says_cents(place(elements, 2), record.price)
                &&& says_contracts(place(elements, 3), record.delta)
                &&& says_opt_int(place(elements, 4), record.ts_ms)
            }
        }),
{
    let elements = json->Array_0@;
    let keys = WsOrderbookDelta::keys();
    if 5 <= elements.len() <= 5 {
        let slots = slots_of(json, keys, WsOrderbookDelta::least())->Ok_0;
        assert(slots[0] == place(elements, 0));
        assert(slots[1] == place(elements, 1));
        assert(slots[2] == place(elements, 2));
        assert(slots[3] == place(elements, 3));
        assert(slots[4] == place(elements, 4));
    }
}

/// A fill frame is read by the names of its fields: an object decodes to it where each field is
/// what the member of its own name says, and only there. None of these names may stand twice.
pub proof fn law_ws_fill_is_read_by_name(json: Json, record: WsFill)
    requires
        json is Object,
    ensures
        ({
            let members = json->Object_0@;
            decoded::<WsFill>(json) == Ok::<WsFill, DecodeError>(record) <==> {
                &&& once(members, "market_ticker"@)
                &&& once(members, "order_id"@)
                &&& once(members, "yes_price_dollars"@)
                &&& once(members, "no_price_dollars"@)
                &&& once(members, "count_fp"@)
                &&& once(members, "side"@)
                &&& once(members, "ts"@)
                &&& once(members, "trade_id"@)
                &&& once(members, "ts_ms"@)
                &&& once(members, "post_position_fp"@)
                &&& once(members, "fee_cost"@)
                &&& says_text(member(members, "market_ticker"@), record.market_ticker)
                &&& says_text(member(members, "order_id"@), record.order_id)
                &&& says_opt_cents(member(members, "yes_price_dollars"@), record.yes_price)
                &&& says_opt_cents(member(members, "no_price_dollars"@), record.no_price)
                &&& says_contracts(member(members, "count_fp"@), record.count)
                &&& says_text(member(members, "side"@), record.side)
                &&& says_opt_int(member(members, "ts"@), record.ts)
                &&& says_opt_text(member(members, "trade_id"@), record.trade_id)
                &&& says_opt_int(member(members, "ts_ms"@), record.ts_ms)
                &&& says_opt_text(member(members, "post_position_fp"@), record.post_position_fp)
                &&& says_opt_text(member(members, "fee_cost"@), record.fee_cost)
            }
        }),
{
    let members = json->Object_0@;
    let keys = WsFill::keys();
    law_first_duplicate_is_there_twice(members, keys);
    assert(keys[0] == "market_ticker");
    assert(keys[1] == "order_id");
    assert(keys[2] == "yes_price_dollars");
    assert(keys[3] == "no_price_dollars");
    assert(keys[4] == "count_fp");
    assert(keys[5] == "side");
    assert(keys[6] == "ts");
    assert(keys[7] == "trade_id");
    assert(keys[8] == "ts_ms");
    assert(keys[9] == "post_position_fp");
    assert(keys[10] == "fee_cost");
    assert(first_duplicate(members, keys) is None <==> {
        &&& once(members, "market_ticker"@)
        &&& once(members, "order_id"@)
        &&& once(members, "yes_price_dollars"@)
        &&& once(members, "no_price_dollars"@)
        &&& once(members, "count_fp"@)
        &&& once(members, "side"@)
        &&& once(members, "ts"@)
        &&& once(members, "trade_id"@)
        &&& once(members, "ts_ms"@)
        &&& once(members, "post_position_fp"@)
        &&& once(members, "fee_cost"@)
    }) by {
        if first_duplicate(members, keys) is None {
            assert(once(members, keys[0]@));
            assert(once(members, keys[1]@));
            assert(once(members, keys[2]@));
            assert(once(members, keys[3]@));
            assert(once(members, keys[4]@));
            assert(once(members, keys[5]@));
            assert(once(members, keys[6]@));
            assert(once(members, keys[7]@));
            assert(once(members, keys[8]@));
            assert(once(members, keys[9]@));
            assert(once(members, keys[10]@));
        }
    }
    if first_duplicate(members, keys) is None {
        let slots = Seq::new(keys.len(), |i: int| member(members, keys[i]@));
        assert(slots_of(json, keys, WsFill::least())
            == Ok::<Seq<Option<Json>>, DecodeError>(slots));
        assert(slots[0] == member(members, "market_ticker"@));
        assert(slots[1] == member(members, "order_id"@));
        assert(slots[2] == member(members, "yes_price_dollars"@));
        assert(slots[3] == member(members, "no_price_dollars"@));
        assert(slots[4] == member(members, "count_fp"@));
        assert(slots[5] == member(members, "side"@));
        assert(slots[6] == member(members, "ts"@));
        assert(slots[7] == member(members, "trade_id"@));
        assert(slots[8] == member(members, "ts_ms"@));
        assert(slots[9] == member(members, "post_position_fp"@));
        assert(slots[10] == member(members, "fee_cost"@));
    }
}

/// A fill frame in an array is read by the places of its fields.
pub proof fn law_ws_fill_is_read_by_place(json: Json, record: WsFill)
    requires
        json is Array,
    ensures
        ({
            let elements = json->Array_0@;
            decoded::<WsFill>(json) == Ok::<WsFill, DecodeError>(record) <==> {
                &&& 10 <= elements.len() <= 11
                &&& says_text(place(elements, 0), record.market_ticker)
                &&& says_text(place(elements, 1), record.order_id)
                &&& says_opt_cents(place(elements, 2), record.yes_price)
                &&& says_opt_cents(place(elements, 3), record.no_price)
                &&& says_contracts(place(elements, 4), record.count)
                &&& says_text(place(elements, 5), record.side)
                &&& says_opt_int(place(elements, 6), record.ts)
                &&& says_opt_text(place(elements, 7), record.trade_id)
                &&& says_opt_int(place(elements, 8), record.ts_ms)
                &&& says_opt_text(place(elements, 9), record.post_position_fp)
                &&& says_opt_text(place(elements, 10), record.fee_cost)
            }
        }),
{
    let elements = json->Array_0@;
    let keys = WsFill::keys();
    if 10 <= elements.len() <= 11 {
        let slots = slots_of(json, keys, WsFill::least())->Ok_0;
        assert(slots[0] == place(elements, 0));
        assert(slots[1] == place(elements, 1));
        assert(slots[2] == place(elements, 2));
        assert(slots[3] == place(elements, 3));
        assert(slots[4] == place(elements, 4));
        assert(slots[5] == place(elements, 5));
        assert(slots[6] == place(elements, 6));
        assert(slots[7] == place(elements, 7));
        assert(slots[8] == place(elements, 8));
        assert(slots[9] == place(elements, 9));
        assert(slots[10] == place(elements, 10));
    }
}

/// An envelope is read by the names of its two members: it has a tag and a message where one member
/// `type` is the tag and one member `msg` the message, and only there.
pub proof fn law_envelope_is_read_by_name(json: Json, tag: String, msg: Json)
    requires
        json is Object,
    ensures
        ({
            let members = json->Object_0@;
            WsEnvelope::of_json(json) == Ok::<(String, Json), DecodeError>((tag, msg)) <==> {
                &&& once(members, "type"@)
                &&& once(members, "msg"@)
                &&& member(members, "type"@) == Some(Json::Str(tag))
                &&& member(members, "msg"@) == Some(msg)
            }
        }),
{
    let members = json->Object_0@;
    let keys = WsEnvelope::keys();
    law_first_duplicate_is_there_twice(members, keys);
    assert(keys[0] == "type");
    assert(keys[1] == "msg");
    if first_duplicate(members, keys) is None {
        assert(once(members, keys[0]@));
        assert(once(members, keys[1]@));
        let slots = Seq::new(keys.len(), |i: int| member(members, keys[i]@));
        assert(slots_of(json, keys, 2) == Ok::<Seq<Option<Json>>, DecodeError>(slots));
        assert(slots[0] == member(members, "type"@));
        assert(slots[1] == member(members, "msg"@));
    }
}

/// An envelope in an array is its tag and its message.
pub proof fn law_envelope_is_read_by_place(json: Json, tag: String, msg: Json)
    requires
        json is Array,
    ensures
        WsEnvelope::of_json(json) == Ok::<(String, Json), DecodeError>((tag, msg)) <==> {
            &&& json->Array_0@.len() == 2
            &&& json->Array_0@[0] == Json::Str(tag)
            &&& json->Array_0@[1] == msg
        },
{
}

/// A frame decodes to a record where its tag is the record's and its message decodes to that
/// record, and only there; to no record where its tag is none of the five, and only there.
pub proof fn law_frame_is_its_tag_and_its_message(
    tag: Seq<char>,
    msg: Json,
    ticker: WsTicker,
    trade: WsTrade,
    orderbook_snapshot: WsOrderbookModel,
    orderbook_delta: WsOrderbookDelta,
    fill: WsFill,
)
    ensures
        WsMessage::of_message(tag, msg) == Ok::<WsMessageModel, DecodeError>(
            WsMessageModel::Ticker(ticker),
        ) <==> tag == "ticker"@ && decoded::<WsTicker>(msg) == Ok::<WsTicker, DecodeError>(ticker),
        WsMessage::of_message(tag, msg) == Ok::<WsMessageModel, DecodeError>(
            WsMessageModel::Trade(trade),
        ) <==> tag == "trade"@ && decoded::<WsTrade>(msg) == Ok::<WsTrade, DecodeError>(trade),
        WsMessage::of_message(tag, msg) == Ok::<WsMessageModel, DecodeError>(
            WsMessageModel::OrderbookSnapshot(orderbook_snapshot),
        ) <==> tag == "orderbook_snapshot"@ && decoded::<WsOrderbook>(msg)
            == Ok::<WsOrderbookModel, DecodeError>(orderbook_snapshot),
        WsMessage::of_message(tag, msg) == Ok::<WsMessageModel, DecodeError>(
            WsMessageModel::OrderbookDelta(orderbook_delta),
        ) <==> tag == "orderbook_delta"@ && decoded::<WsOrderbookDelta>(msg)
            == Ok::<WsOrderbookDelta, DecodeError>(orderbook_delta),
        WsMessage::of_message(tag, msg) == Ok::<WsMessageModel, DecodeError>(
            WsMessageModel::Fill(fill),
        ) <==> tag == "fill"@ && decoded::<WsFill>(msg) == Ok::<WsFill, DecodeError>(fill),
        WsMessage::of_message(tag, msg) == Ok::<WsMessageModel, DecodeError>(WsMessageModel::Other)
            <==> {
            &&& tag != "ticker"@
            &&& tag != "trade"@
            &&& tag != "orderbook_snapshot"@
            &&& tag != "orderbook_delta"@
            &&& tag != "fill"@
        },
{
    reveal_strlit("ticker");
    reveal_strlit("trade");
    reveal_strlit("orderbook_snapshot");
    reveal_strlit("orderbook_delta");
    reveal_strlit("fill");
    assert("ticker"@.len() != "trade"@.len());
    assert("ticker"@.len() != "orderbook_snapshot"@.len());
    assert("ticker"@.len() != "orderbook_delta"@.len());
    assert("ticker"@.len() != "fill"@.len());
    assert("trade"@.len() != "orderbook_snapshot"@.len());
    assert("trade"@.len() != "orderbook_delta"@.len());
    assert("trade"@.len() != "fill"@.len());
    assert("orderbook_snapshot"@.len() != "orderbook_delta"@.len());
    assert("orderbook_snapshot"@.len() != "fill"@.len());
    assert("orderbook_delta"@.len() != "fill"@.len());
}

/// A message holds what its record holds.
pub proof fn law_message_holds_its_record(message: WsMessage)
    ensures
        message matches WsMessage::Ticker(ticker) ==> message.model()
            == WsMessageModel::Ticker(ticker),
        message matches WsMessage::Trade(trade) ==> message.model() == WsMessageModel::Trade(trade),
        message matches WsMessage::OrderbookSnapshot(book) ==> {
            &&& message.model() is OrderbookSnapshot
            &&& message.model()->OrderbookSnapshot_0.market_ticker == book.market_ticker
            &&& message.model()->OrderbookSnapshot_0.yes == levels_view(book.yes@)
            &&& message.model()->OrderbookSnapshot_0.no == levels_view(book.no@)
            &&& message.model()->OrderbookSnapshot_0.ts == book.ts
            &&& message.model()->OrderbookSnapshot_0.ts_ms == book.ts_ms
        },
        message matches WsMessage::OrderbookDelta(delta) ==> message.model()
            == WsMessageModel::OrderbookDelta(delta),
        message matches WsMessage::Fill(fill) ==> message.model() == WsMessageModel::Fill(fill),
        message is Other ==> message.model() is Other,
{
}

/// What contracts say of a record they say of what it holds.
pub proof fn law_ws_models_are_the_records(
    ws_ticker: WsTicker,
    ws_trade: WsTrade,
    ws_orderbook: WsOrderbook,
    ws_orderbook_delta: WsOrderbookDelta,
    ws_fill: WsFill,
)
    ensures
        ws_ticker.model() == ws_ticker,
        ws_trade.model() == ws_trade,
        ws_orderbook.model().market_ticker == ws_orderbook.market_ticker,
        ws_orderbook.model().yes == levels_view(ws_orderbook.yes@),
        ws_orderbook.model().no == levels_view(ws_orderbook.no@),
        ws_orderbook.model().ts == ws_orderbook.ts,
        ws_orderbook.model().ts_ms == ws_orderbook.ts_ms,
        ws_orderbook_delta.model() == ws_orderbook_delta,
        ws_fill.model() == ws_fill,
{
}

} // verus!
