//! Markets, trades and order books, as the venue sends them.

use vstd::prelude::*;

use crate::decode::{
    de_price_count_pairs, int_field, opt_int_field, opt_text_field, record_field, records_field,
    text_field, FromJson,
};
use crate::encode::{
    put_int, put_int_if_present, put_levels, put_opt_int, put_opt_text, put_text, ToJson,
};
use crate::fixed_point::dollars_str_to_cents;
use crate::json::{DecodeError, Json};

verus! {

use crate::decode::{
    decoded, int_in, levels_in, levels_view, models, opt_int_in, opt_text_in, record_in,
    records_in, text_in,
};
use crate::encode::{
    are_members, distinct_keys, int_if_present, is_member, is_object, lemma_distinct_by_mark,
    lemma_slots_of_written, mark, opt_int, opt_text, written_slots, Value,
};
use crate::fields::{
    absent, law_first_duplicate_is_there_twice, law_levels_field, law_optional_fields,
    law_record_field, law_records_field, law_required_fields, once, place, says_int,
    says_levels, says_opt_int, says_opt_text, says_record, says_records, says_text,
    writes_levels, writes_opt_int, writes_opt_text,
};
use crate::fixed_point::dollars_in_cents;
use crate::json::{first_duplicate, member, slots_of};

/// One market (`GET /markets`, `GET /markets/{ticker}`).
#[derive(Debug, Clone)]
pub struct Market {
    pub ticker: String,
    pub event_ticker: Option<String>,
    pub title: Option<String>,
    pub status: Option<String>,
    /// Prices in whole cents, as the venue once sent them. It now sends null here and the price in
    /// the dollar string of the same name.
    pub yes_bid: Option<i64>,
    pub yes_ask: Option<i64>,
    pub no_bid: Option<i64>,
    pub no_ask: Option<i64>,
    pub last_price: Option<i64>,
    pub volume: Option<i64>,
    pub open_interest: Option<i64>,
    pub close_time: Option<String>,
    pub expiration_time: Option<String>,
    /// Prices as dollar strings.
    pub yes_bid_dollars: Option<String>,
    pub yes_ask_dollars: Option<String>,
    pub no_bid_dollars: Option<String>,
    pub no_ask_dollars: Option<String>,
    pub last_price_dollars: Option<String>,
    /// The exchange shard that the market trades on. Not written where it is absent.
    pub exchange_index: Option<i64>,
}

/// The cents of a dollar string, or the older field where the string is absent or unreadable.
pub open spec fn preferred_cents(dollars: Option<String>, older: Option<i64>) -> Option<i64> {
    match dollars {
        Some(text) => match dollars_in_cents(text@) {
            Some(cents) => Some(cents),
            None => older,
        },
        None => older,
    }
}

fn prefer_dollars(dollars: &Option<String>, older: Option<i64>) -> (cents: Option<i64>)
    ensures
        cents == preferred_cents(*dollars, older),
{
    match dollars {
        Some(text) => match dollars_str_to_cents(text.as_str()) {
            Some(cents) => Some(cents),
            None => older,
        },
        None => older,
    }
}

impl Market {
    /// The bid on YES in cents: from the dollar string, else from the older field.
    pub fn yes_bid_cents(&self) -> (cents: Option<i64>)
        ensures
            cents == preferred_cents(self.yes_bid_dollars, self.yes_bid),
            self.yes_bid_dollars is Some && dollars_in_cents(self.yes_bid_dollars->0@) is Some
                ==> cents
                == dollars_in_cents(self.yes_bid_dollars->0@),
            self.yes_bid_dollars is None || dollars_in_cents(self.yes_bid_dollars->0@) is None
                ==> cents
                == self.yes_bid,
    {
        prefer_dollars(&self.yes_bid_dollars, self.yes_bid)
    }

    /// The ask on YES in cents.
    pub fn yes_ask_cents(&self) -> (cents: Option<i64>)
        ensures
            cents == preferred_cents(self.yes_ask_dollars, self.yes_ask),
            self.yes_ask_dollars is Some && dollars_in_cents(self.yes_ask_dollars->0@) is Some
                ==> cents
                == dollars_in_cents(self.yes_ask_dollars->0@),
            self.yes_ask_dollars is None || dollars_in_cents(self.yes_ask_dollars->0@) is None
                ==> cents
                == self.yes_ask,
    {
        prefer_dollars(&self.yes_ask_dollars, self.yes_ask)
    }

    /// The bid on NO in cents.
    pub fn no_bid_cents(&self) -> (cents: Option<i64>)
        ensures
            cents == preferred_cents(self.no_bid_dollars, self.no_bid),
            self.no_bid_dollars is Some && dollars_in_cents(self.no_bid_dollars->0@) is Some
                ==> cents
                == dollars_in_cents(self.no_bid_dollars->0@),
            self.no_bid_dollars is None || dollars_in_cents(self.no_bid_dollars->0@) is None
                ==> cents
                == self.no_bid,
    {
        prefer_dollars(&self.no_bid_dollars, self.no_bid)
    }

    /// The ask on NO in cents.
    pub fn no_ask_cents(&self) -> (cents: Option<i64>)
        ensures
            cents == preferred_cents(self.no_ask_dollars, self.no_ask),
            self.no_ask_dollars is Some && dollars_in_cents(self.no_ask_dollars->0@) is Some
                ==> cents
                == dollars_in_cents(self.no_ask_dollars->0@),
            self.no_ask_dollars is None || dollars_in_cents(self.no_ask_dollars->0@) is None
                ==> cents
                == self.no_ask,
    {
        prefer_dollars(&self.no_ask_dollars, self.no_ask)
    }

    /// The price of the last trade in cents.
    pub fn last_price_cents(&self) -> (cents: Option<i64>)
        ensures
            cents == preferred_cents(self.last_price_dollars, self.last_price),
            self.last_price_dollars is Some
                && dollars_in_cents(self.last_price_dollars->0@) is Some ==> cents
                == dollars_in_cents(self.last_price_dollars->0@),
            self.last_price_dollars is None
                || dollars_in_cents(self.last_price_dollars->0@) is None ==> cents
                == self.last_price,
    {
        prefer_dollars(&self.last_price_dollars, self.last_price)
    }
}

impl FromJson for Market {
    type Model = Market;

    open spec fn model(&self) -> Market {
        *self
    }

    open spec fn keys() -> Seq<&'static str> {
        seq![
            "ticker",
            "event_ticker",
            "title",
            "status",
            "yes_bid",
            "yes_ask",
            "no_bid",
            "no_ask",
            "last_price",
            "volume",
            "open_interest",
            "close_time",
            "expiration_time",
            "yes_bid_dollars",
            "yes_ask_dollars",
            "no_bid_dollars",
            "no_ask_dollars",
            "last_price_dollars",
            "exchange_index",
        ]
    }

    open spec fn least() -> int {
        18
    }

    open spec fn of_slots(slots: Seq<Option<Json>>) -> Result<Market, DecodeError> {
        let ticker = text_in(slots[0], "ticker");
        let event_ticker = opt_text_in(slots[1]);
        let title = opt_text_in(slots[2]);
        let status = opt_text_in(slots[3]);
        let yes_bid = opt_int_in(slots[4]);
        let yes_ask = opt_int_in(slots[5]);
        let no_bid = opt_int_in(slots[6]);
        let no_ask = opt_int_in(slots[7]);
        let last_price = opt_int_in(slots[8]);
        let volume = opt_int_in(slots[9]);
        let open_interest = opt_int_in(slots[10]);
        let close_time = opt_text_in(slots[11]);
        let expiration_time = opt_text_in(slots[12]);
        let yes_bid_dollars = opt_text_in(slots[13]);
        let yes_ask_dollars = opt_text_in(slots[14]);
        let no_bid_dollars = opt_text_in(slots[15]);
        let no_ask_dollars = opt_text_in(slots[16]);
        let last_price_dollars = opt_text_in(slots[17]);
        let exchange_index = opt_int_in(slots[18]);
        if ticker is Err {
            Err(ticker->Err_0)
        } else if event_ticker is Err {
            Err(event_ticker->Err_0)
        } else if title is Err {
            Err(title->Err_0)
        } else if status is Err {
            Err(status->Err_0)
        } else if yes_bid is Err {
            Err(yes_bid->Err_0)
        } else if yes_ask is Err {
            Err(yes_ask->Err_0)
        } else if no_bid is Err {
            Err(no_bid->Err_0)
        } else if no_ask is Err {
            Err(no_ask->Err_0)
        } else if last_price is Err {
            Err(last_price->Err_0)
        } else if volume is Err {
            Err(volume->Err_0)
        } else if open_interest is Err {
            Err(open_interest->Err_0)
        } else if close_time is Err {
            Err(close_time->Err_0)
        } else if expiration_time is Err {
            Err(expiration_time->Err_0)
        } else if yes_bid_dollars is Err {
            Err(yes_bid_dollars->Err_0)
        } else if yes_ask_dollars is Err {
            Err(yes_ask_dollars->Err_0)
        } else if no_bid_dollars is Err {
            Err(no_bid_dollars->Err_0)
        } else if no_ask_dollars is Err {
            Err(no_ask_dollars->Err_0)
        } else if last_price_dollars is Err {
            Err(last_price_dollars->Err_0)
        } else if exchange_index is Err {
            Err(exchange_index->Err_0)
        } else {
            Ok(
                Market {
                    ticker: ticker->Ok_0,
                    event_ticker: event_ticker->Ok_0,
                    title: title->Ok_0,
                    status: status->Ok_0,
                    yes_bid: yes_bid->Ok_0,
                    yes_ask: yes_ask->Ok_0,
                    no_bid: no_bid->Ok_0,
                    no_ask: no_ask->Ok_0,
                    last_price: last_price->Ok_0,
                    volume: volume->Ok_0,
                    open_interest: open_interest->Ok_0,
                    close_time: close_time->Ok_0,
                    expiration_time: expiration_time->Ok_0,
                    yes_bid_dollars: yes_bid_dollars->Ok_0,
                    yes_ask_dollars: yes_ask_dollars->Ok_0,
                    no_bid_dollars: no_bid_dollars->Ok_0,
                    no_ask_dollars: no_ask_dollars->Ok_0,
                    last_price_dollars: last_price_dollars->Ok_0,
                    exchange_index: exchange_index->Ok_0,
                },
            )
        }
    }

    fn field_keys() -> (keys: (Vec<&'static str>, usize)) {
        (
            vec![
                "ticker",
                "event_ticker",
                "title",
                "status",
                "yes_bid",
                "yes_ask",
                "no_bid",
                "no_ask",
                "last_price",
                "volume",
                "open_interest",
                "close_time",
                "expiration_time",
                "yes_bid_dollars",
                "yes_ask_dollars",
                "no_bid_dollars",
                "no_ask_dollars",
                "last_price_dollars",
                "exchange_index",
            ],
            18,
        )
    }

    fn from_slots(slots: &Vec<Option<&Json>>) -> (record: Result<Market, DecodeError>) {
        let ticker: String = text_field(slots[0], "ticker")?;
        let event_ticker: Option<String> = opt_text_field(slots[1])?;
        let title: Option<String> = opt_text_field(slots[2])?;
        let status: Option<String> = opt_text_field(slots[3])?;
        let yes_bid: Option<i64> = opt_int_field(slots[4])?;
        let yes_ask: Option<i64> = opt_int_field(slots[5])?;
        let no_bid: Option<i64> = opt_int_field(slots[6])?;
        let no_ask: Option<i64> = opt_int_field(slots[7])?;
        let last_price: Option<i64> = opt_int_field(slots[8])?;
        let volume: Option<i64> = opt_int_field(slots[9])?;
        let open_interest: Option<i64> = opt_int_field(slots[10])?;
        let close_time: Option<String> = opt_text_field(slots[11])?;
        let expiration_time: Option<String> = opt_text_field(slots[12])?;
        let yes_bid_dollars: Option<String> = opt_text_field(slots[13])?;
        let yes_ask_dollars: Option<String> = opt_text_field(slots[14])?;
        let no_bid_dollars: Option<String> = opt_text_field(slots[15])?;
        let no_ask_dollars: Option<String> = opt_text_field(slots[16])?;
        let last_price_dollars: Option<String> = opt_text_field(slots[17])?;
        let exchange_index: Option<i64> = opt_int_field(slots[18])?;
        Ok(
            Market {
                ticker,
                event_ticker,
                title,
                status,
                yes_bid,
                yes_ask,
                no_bid,
                no_ask,
                last_price,
                volume,
                open_interest,
                close_time,
                expiration_time,
                yes_bid_dollars,
                yes_ask_dollars,
                no_bid_dollars,
                no_ask_dollars,
                last_price_dollars,
                exchange_index,
            },
        )
    }
}

impl ToJson for Market {
    open spec fn members(&self) -> Seq<(&'static str, Value)> {
        seq![
            ("ticker", Value::Text(self.ticker)),
            ("event_ticker", opt_text(self.event_ticker)),
            ("title", opt_text(self.title)),
            ("status", opt_text(self.status)),
            ("yes_bid", opt_int(self.yes_bid)),
            ("yes_ask", opt_int(self.yes_ask)),
            ("no_bid", opt_int(self.no_bid)),
            ("no_ask", opt_int(self.no_ask)),
            ("last_price", opt_int(self.last_price)),
            ("volume", opt_int(self.volume)),
            ("open_interest", opt_int(self.open_interest)),
            ("close_time", opt_text(self.close_time)),
            ("expiration_time", opt_text(self.expiration_time)),
            ("yes_bid_dollars", opt_text(self.yes_bid_dollars)),
            ("yes_ask_dollars", opt_text(self.yes_ask_dollars)),
            ("no_bid_dollars", opt_text(self.no_bid_dollars)),
            ("no_ask_dollars", opt_text(self.no_ask_dollars)),
            ("last_price_dollars", opt_text(self.last_price_dollars)),
        ] + int_if_present("exchange_index", self.exchange_index)
    }

    fn to_json(&self) -> (json: Json) {
        let mut members: Vec<(String, Json)> = Vec::new();
        assert(are_members(members@, Seq::empty()));
        put_text(&mut members, "ticker", &self.ticker);
        put_opt_text(&mut members, "event_ticker", &self.event_ticker);
        put_opt_text(&mut members, "title", &self.title);
        put_opt_text(&mut members, "status", &self.status);
        put_opt_int(&mut members, "yes_bid", self.yes_bid);
        put_opt_int(&mut members, "yes_ask", self.yes_ask);
        put_opt_int(&mut members, "no_bid", self.no_bid);
        put_opt_int(&mut members, "no_ask", self.no_ask);
        put_opt_int(&mut members, "last_price", self.last_price);
        put_opt_int(&mut members, "volume", self.volume);
        put_opt_int(&mut members, "open_interest", self.open_interest);
        put_opt_text(&mut members, "close_time", &self.close_time);
        put_opt_text(&mut members, "expiration_time", &self.expiration_time);
        put_opt_text(&mut members, "yes_bid_dollars", &self.yes_bid_dollars);
        put_opt_text(&mut members, "yes_ask_dollars", &self.yes_ask_dollars);
        put_opt_text(&mut members, "no_bid_dollars", &self.no_bid_dollars);
        put_opt_text(&mut members, "no_ask_dollars", &self.no_ask_dollars);
        put_opt_text(&mut members, "last_price_dollars", &self.last_price_dollars);
        put_int_if_present(&mut members, "exchange_index", self.exchange_index);
        Json::Object(members)
    }
}

/// A page of markets.
#[derive(Debug, Clone)]
pub struct MarketsResponse {
    pub markets: Vec<Market>,
    pub cursor: Option<String>,
}

/// [`MarketsResponse`] as contracts speak of it.
pub struct MarketsResponseModel {
    pub markets: Seq<Market>,
    pub cursor: Option<String>,
}

impl FromJson for MarketsResponse {
    type Model = MarketsResponseModel;

    open spec fn model(&self) -> MarketsResponseModel {
        MarketsResponseModel {
            markets: models(self.markets@),
            cursor: self.cursor,
        }
    }

    open spec fn keys() -> Seq<&'static str> {
        seq!["markets", "cursor"]
    }

    open spec fn least() -> int {
        2
    }

    open spec fn of_slots(slots: Seq<Option<Json>>) -> Result<MarketsResponseModel, DecodeError> {
        let markets = records_in::<Market>(slots[0], "markets");
        let cursor = opt_text_in(slots[1]);
        if markets is Err {
            Err(markets->Err_0)
        } else if cursor is Err {
            Err(cursor->Err_0)
        } else {
            Ok(
                MarketsResponseModel {
                    markets: markets->Ok_0,
                    cursor: cursor->Ok_0,
                },
            )
        }
    }

    fn field_keys() -> (keys: (Vec<&'static str>, usize)) {
        (vec!["markets", "cursor"], 2)
    }

    fn from_slots(slots: &Vec<Option<&Json>>) -> (record: Result<MarketsResponse, DecodeError>) {
        let markets: Vec<Market> = records_field::<Market>(slots[0], "markets")?;
        let cursor: Option<String> = opt_text_field(slots[1])?;
        Ok(MarketsResponse { markets, cursor })
    }
}

/// The envelope of a single market.
#[derive(Debug, Clone)]
pub struct GetMarketResponse {
    pub market: Market,
}

impl FromJson for GetMarketResponse {
    type Model = GetMarketResponse;

    open spec fn model(&self) -> GetMarketResponse {
        *self
    }

    open spec fn keys() -> Seq<&'static str> {
        seq!["market"]
    }

    open spec fn least() -> int {
        1
    }

    open spec fn of_slots(slots: Seq<Option<Json>>) -> Result<GetMarketResponse, DecodeError> {
        let market = record_in::<Market>(slots[0], "market");
        if market is Err {
            Err(market->Err_0)
        } else {
            Ok(
                GetMarketResponse {
                    market: market->Ok_0,
                },
            )
        }
    }

    fn field_keys() -> (keys: (Vec<&'static str>, usize)) {
        (vec!["market"], 1)
    }

    fn from_slots(slots: &Vec<Option<&Json>>) -> (record: Result<GetMarketResponse, DecodeError>) {
        let market: Market = record_field::<Market>(slots[0], "market")?;
        Ok(GetMarketResponse { market })
    }
}

/// One trade print (`GET /markets/trades`).
#[derive(Debug, Clone)]
pub struct KalshiTrade {
    pub ticker: String,
    pub trade_id: String,
    pub yes_price: Option<i64>,
    pub no_price: Option<i64>,
    pub count: i64,
    /// `"yes"` or `"no"`.
    pub taker_side: Option<String>,
    /// ISO 8601.
    pub created_time: String,
}

impl FromJson for KalshiTrade {
    type Model = KalshiTrade;

    open spec fn model(&self) -> KalshiTrade {
        *self
    }

    open spec fn keys() -> Seq<&'static str> {
        seq!["ticker", "trade_id", "yes_price", "no_price", "count", "taker_side", "created_time"]
    }

    open spec fn least() -> int {
        7
    }

    open spec fn of_slots(slots: Seq<Option<Json>>) -> Result<KalshiTrade, DecodeError> {
        let ticker = text_in(slots[0], "ticker");
        let trade_id = text_in(slots[1], "trade_id");
        let yes_price = opt_int_in(slots[2]);
        let no_price = opt_int_in(slots[3]);
        let count = int_in(slots[4], "count");
        let taker_side = opt_text_in(slots[5]);
        let created_time = text_in(slots[6], "created_time");
        if ticker is Err {
            Err(ticker->Err_0)
        } else if trade_id is Err {
            Err(trade_id->Err_0)
        } else if yes_price is Err {
            Err(yes_price->Err_0)
        } else if no_price is Err {
            Err(no_price->Err_0)
        } else if count is Err {
            Err(count->Err_0)
        } else if taker_side is Err {
            Err(taker_side->Err_0)
        } else if created_time is Err {
            Err(created_time->Err_0)
        } else {
            Ok(
                KalshiTrade {
                    ticker: ticker->Ok_0,
                    trade_id: trade_id->Ok_0,
                    yes_price: yes_price->Ok_0,
                    no_price: no_price->Ok_0,
                    count: count->Ok_0,
                    taker_side: taker_side->Ok_0,
                    created_time: created_time->Ok_0,
                },
            )
        }
    }

    fn field_keys() -> (keys: (Vec<&'static str>, usize)) {
        (
            vec![
                "ticker",
                "trade_id",
                "yes_price",
                "no_price",
                "count",
                "taker_side",
                "created_time",
            ],
            7,
        )
    }

    fn from_slots(slots: &Vec<Option<&Json>>) -> (record: Result<KalshiTrade, DecodeError>) {
        let ticker: String = text_field(slots[0], "ticker")?;
        let trade_id: String = text_field(slots[1], "trade_id")?;
        let yes_price: Option<i64> = opt_int_field(slots[2])?;
        let no_price: Option<i64> = opt_int_field(slots[3])?;
        let count: i64 = int_field(slots[4], "count")?;
        let taker_side: Option<String> = opt_text_field(slots[5])?;
        let created_time: String = text_field(slots[6], "created_time")?;
        Ok(KalshiTrade { ticker, trade_id, yes_price, no_price, count, taker_side, created_time })
    }
}

impl ToJson for KalshiTrade {
    open spec fn members(&self) -> Seq<(&'static str, Value)> {
        seq![
            ("ticker", Value::Text(self.ticker)),
            ("trade_id", Value::Text(self.trade_id)),
            ("yes_price", opt_int(self.yes_price)),
            ("no_price", opt_int(self.no_price)),
            ("count", Value::Int(self.count)),
            ("taker_side", opt_text(self.taker_side)),
            ("created_time", Value::Text(self.created_time)),
        ]
    }

    fn to_json(&self) -> (json: Json) {
        let mut members: Vec<(String, Json)> = Vec::new();
        assert(are_members(members@, Seq::empty()));
        put_text(&mut members, "ticker", &self.ticker);
        put_text(&mut members, "trade_id", &self.trade_id);
        put_opt_int(&mut members, "yes_price", self.yes_price);
        put_opt_int(&mut members, "no_price", self.no_price);
        put_int(&mut members, "count", self.count);
        put_opt_text(&mut members, "taker_side", &self.taker_side);
        put_text(&mut members, "created_time", &self.created_time);
        Json::Object(members)
    }
}

/// An order book (`GET /markets/{ticker}/orderbook`). On the wire a level is a pair of strings, the
/// price in dollars and the count; here it is two integers.
#[derive(Debug, Clone)]
pub struct OrderbookSnapshot {
    /// Each level is `[price in cents, contracts]`.
    pub yes: Vec<[i64; 2]>,
    pub no: Vec<[i64; 2]>,
}

/// [`OrderbookSnapshot`] as contracts speak of it.
pub struct OrderbookSnapshotModel {
    pub yes: Seq<(i64, i64)>,
    pub no: Seq<(i64, i64)>,
}

impl FromJson for OrderbookSnapshot {
    type Model = OrderbookSnapshotModel;

    open spec fn model(&self) -> OrderbookSnapshotModel {
        OrderbookSnapshotModel {
            yes: levels_view(self.yes@),
            no: levels_view(self.no@),
        }
    }

    open spec fn keys() -> Seq<&'static str> {
        seq!["yes_dollars", "no_dollars"]
    }

    open spec fn least() -> int {
        0
    }

    open spec fn of_slots(slots: Seq<Option<Json>>) -> Result<OrderbookSnapshotModel, DecodeError> {
        let yes = levels_in(slots[0]);
        let no = levels_in(slots[1]);
        if yes is Err {
            Err(yes->Err_0)
        } else if no is Err {
            Err(no->Err_0)
        } else {
            Ok(
                OrderbookSnapshotModel {
                    yes: yes->Ok_0,
                    no: no->Ok_0,
                },
            )
        }
    }

    fn field_keys() -> (keys: (Vec<&'static str>, usize)) {
        (vec!["yes_dollars", "no_dollars"], 0)
    }

    fn from_slots(slots: &Vec<Option<&Json>>) -> (record: Result<OrderbookSnapshot, DecodeError>) {
        let yes: Vec<[i64; 2]> = de_price_count_pairs(slots[0])?;
        let no: Vec<[i64; 2]> = de_price_count_pairs(slots[1])?;
        Ok(OrderbookSnapshot { yes, no })
    }
}

impl ToJson for OrderbookSnapshot {
    open spec fn members(&self) -> Seq<(&'static str, Value)> {
        seq![
            ("yes_dollars", Value::Levels(levels_view(self.yes@))),
            ("no_dollars", Value::Levels(levels_view(self.no@))),
        ]
    }

    fn to_json(&self) -> (json: Json) {
        let mut members: Vec<(String, Json)> = Vec::new();
        assert(are_members(members@, Seq::empty()));
        put_levels(&mut members, "yes_dollars", &self.yes);
        put_levels(&mut members, "no_dollars", &self.no);
        Json::Object(members)
    }
}

/// The envelope of an order book.
#[derive(Debug, Clone)]
pub struct OrderbookResponse {
    pub orderbook: OrderbookSnapshot,
}

/// [`OrderbookResponse`] as contracts speak of it.
pub struct OrderbookResponseModel {
    pub orderbook: OrderbookSnapshotModel,
}

impl FromJson for OrderbookResponse {
    type Model = OrderbookResponseModel;

    open spec fn model(&self) -> OrderbookResponseModel {
        OrderbookResponseModel {
            orderbook: self.orderbook.model(),
        }
    }

    open spec fn keys() -> Seq<&'static str> {
        seq!["orderbook_fp"]
    }

    open spec fn least() -> int {
        1
    }

    open spec fn of_slots(slots: Seq<Option<Json>>) -> Result<OrderbookResponseModel, DecodeError> {
        let orderbook = record_in::<OrderbookSnapshot>(slots[0], "orderbook_fp");
        if orderbook is Err {
            Err(orderbook->Err_0)
        } else {
            Ok(
                OrderbookResponseModel {
                    orderbook: orderbook->Ok_0,
                },
            )
        }
    }

    fn field_keys() -> (keys: (Vec<&'static str>, usize)) {
        (vec!["orderbook_fp"], 1)
    }

    fn from_slots(slots: &Vec<Option<&Json>>) -> (record: Result<OrderbookResponse, DecodeError>) {
        let orderbook: OrderbookSnapshot = record_field::<OrderbookSnapshot>(
            slots[0],
            "orderbook_fp",
        )?;
        Ok(OrderbookResponse { orderbook })
    }
}

// ---------------------------------------------------------------------------
// Laws
// ---------------------------------------------------------------------------

proof fn lemma_market_keys()
    ensures
        distinct_keys(Market::keys()),
{
    let keys = Market::keys();
    reveal_strlit("ticker");
    reveal_strlit("event_ticker");
    reveal_strlit("title");
    reveal_strlit("status");
    reveal_strlit("yes_bid");
    reveal_strlit("yes_ask");
    reveal_strlit("no_bid");
    reveal_strlit("no_ask");
    reveal_strlit("last_price");
    reveal_strlit("volume");
    reveal_strlit("open_interest");
    reveal_strlit("close_time");
    reveal_strlit("expiration_time");
    reveal_strlit("yes_bid_dollars");
    reveal_strlit("yes_ask_dollars");
    reveal_strlit("no_bid_dollars");
    reveal_strlit("no_ask_dollars");
    reveal_strlit("last_price_dollars");
    reveal_strlit("exchange_index");
    let marks = seq![
        6116208int, 12101226, 5116209, 6115233, 7121193, 7121192, 6110203, 6110212, 10108211,
        6118226, 13111205, 10099216, 15101219, 15121193, 15121192, 14110203, 14110212,
        18108211, 14101201,
    ];
    assert(mark(keys[0]@) == marks[0]);
    assert(mark(keys[1]@) == marks[1]);
    assert(mark(keys[2]@) == marks[2]);
    assert(mark(keys[3]@) == marks[3]);
    assert(mark(keys[4]@) == marks[4]);
    assert(mark(keys[5]@) == marks[5]);
    assert(mark(keys[6]@) == marks[6]);
    assert(mark(keys[7]@) == marks[7]);
    assert(mark(keys[8]@) == marks[8]);
    assert(mark(keys[9]@) == marks[9]);
    assert(mark(keys[10]@) == marks[10]);
    assert(mark(keys[11]@) == marks[11]);
    assert(mark(keys[12]@) == marks[12]);
    assert(mark(keys[13]@) == marks[13]);
    assert(mark(keys[14]@) == marks[14]);
    assert(mark(keys[15]@) == marks[15]);
    assert(mark(keys[16]@) == marks[16]);
    assert(mark(keys[17]@) == marks[17]);
    assert(mark(keys[18]@) == marks[18]);
    lemma_distinct_by_mark(keys, marks);
}

/// A market that was written reads back as it was.
pub proof fn law_market_round_trip(json: Json, record: Market)
    requires
        is_object(json, record.members()),
    ensures
        decoded::<Market>(json) == Ok::<Market, DecodeError>(record),
{
    let written = json->Object_0@;
    let slots = written_slots(written, Market::keys().len());
    assert(slots_of(json, Market::keys(), Market::least()) == Ok::<Seq<Option<Json>>, DecodeError>(
        slots,
    )) by {
        lemma_market_keys();
        lemma_slots_of_written(json, record.members(), Market::keys(), Market::least());
    }
    assert(text_in(slots[0], "ticker") == Ok::<String, DecodeError>(record.ticker)) by {
        assert(is_member(written[0], "ticker", record.members()[0].1));
    }
    assert(opt_text_in(slots[1]) == Ok::<Option<String>, DecodeError>(record.event_ticker)) by {
        assert(is_member(written[1], "event_ticker", record.members()[1].1));
    }
    assert(opt_text_in(slots[2]) == Ok::<Option<String>, DecodeError>(record.title)) by {
        assert(is_member(written[2], "title", record.members()[2].1));
    }
    assert(opt_text_in(slots[3]) == Ok::<Option<String>, DecodeError>(record.status)) by {
        assert(is_member(written[3], "status", record.members()[3].1));
    }
    assert(opt_int_in(slots[4]) == Ok::<Option<i64>, DecodeError>(record.yes_bid)) by {
        assert(is_member(written[4], "yes_bid", record.members()[4].1));
    }
    assert(opt_int_in(slots[5]) == Ok::<Option<i64>, DecodeError>(record.yes_ask)) by {
        assert(is_member(written[5], "yes_ask", record.members()[5].1));
    }
    assert(opt_int_in(slots[6]) == Ok::<Option<i64>, DecodeError>(record.no_bid)) by {
        assert(is_member(written[6], "no_bid", record.members()[6].1));
    }
    assert(opt_int_in(slots[7]) == Ok::<Option<i64>, DecodeError>(record.no_ask)) by {
        assert(is_member(written[7], "no_ask", record.members()[7].1));
    }
    assert(opt_int_in(slots[8]) == Ok::<Option<i64>, DecodeError>(record.last_price)) by {
        assert(is_member(written[8], "last_price", record.members()[8].1));
    }
    assert(opt_int_in(slots[9]) == Ok::<Option<i64>, DecodeError>(record.volume)) by {
        assert(is_member(written[9], "volume", record.members()[9].1));
    }
    assert(opt_int_in(slots[10]) == Ok::<Option<i64>, DecodeError>(record.open_interest)) by {
        assert(is_member(written[10], "open_interest", record.members()[10].1));
    }
    assert(opt_text_in(slots[11]) == Ok::<Option<String>, DecodeError>(record.close_time)) by {
        assert(is_member(written[11], "close_time", record.members()[11].1));
    }
    assert(opt_text_in(slots[12]) == Ok::<Option<String>, DecodeError>(record.expiration_time)) by {
        assert(is_member(written[12], "expiration_time", record.members()[12].1));
    }
    assert(opt_text_in(slots[13]) == Ok::<Option<String>, DecodeError>(record.yes_bid_dollars)) by {
        assert(is_member(written[13], "yes_bid_dollars", record.members()[13].1));
    }
    assert(opt_text_in(slots[14]) == Ok::<Option<String>, DecodeError>(record.yes_ask_dollars)) by {
        assert(is_member(written[14], "yes_ask_dollars", record.members()[14].1));
    }
    assert(opt_text_in(slots[15]) == Ok::<Option<String>, DecodeError>(record.no_bid_dollars)) by {
        assert(is_member(written[15], "no_bid_dollars", record.members()[15].1));
    }
    assert(opt_text_in(slots[16]) == Ok::<Option<String>, DecodeError>(record.no_ask_dollars)) by {
        assert(is_member(written[16], "no_ask_dollars", record.members()[16].1));
    }
    assert(opt_text_in(slots[17]) == Ok::<Option<String>, DecodeError>(
        record.last_price_dollars,
    )) by {
        assert(is_member(written[17], "last_price_dollars", record.members()[17].1));
    }
    assert(opt_int_in(slots[18]) == Ok::<Option<i64>, DecodeError>(record.exchange_index)) by {
        if record.exchange_index is Some {
            assert(is_member(written[18], "exchange_index", record.members()[18].1));
        }
    }
}

proof fn lemma_kalshi_trade_keys()
    ensures
        distinct_keys(KalshiTrade::keys()),
{
    let keys = KalshiTrade::keys();
    reveal_strlit("ticker");
    reveal_strlit("trade_id");
    reveal_strlit("yes_price");
    reveal_strlit("no_price");
    reveal_strlit("count");
    reveal_strlit("taker_side");
    reveal_strlit("created_time");
    let marks = seq![6116208int, 8116201, 9121207, 8110226, 5099226, 10116215, 12099213];
    assert(mark(keys[0]@) == marks[0]);
    assert(mark(keys[1]@) == marks[1]);
    assert(mark(keys[2]@) == marks[2]);
    assert(mark(keys[3]@) == marks[3]);
    assert(mark(keys[4]@) == marks[4]);
    assert(mark(keys[5]@) == marks[5]);
    assert(mark(keys[6]@) == marks[6]);
    lemma_distinct_by_mark(keys, marks);
}

/// A trade that was written reads back as it was.
pub proof fn law_kalshi_trade_round_trip(json: Json, record: KalshiTrade)
    requires
        is_object(json, record.members()),
    ensures
        decoded::<KalshiTrade>(json) == Ok::<KalshiTrade, DecodeError>(record),
{
    let written = json->Object_0@;
    let slots = written_slots(written, KalshiTrade::keys().len());
    assert(slots_of(json, KalshiTrade::keys(), KalshiTrade::least())
        == Ok::<Seq<Option<Json>>, DecodeError>(slots)) by {
        lemma_kalshi_trade_keys();
        lemma_slots_of_written(json, record.members(), KalshiTrade::keys(), KalshiTrade::least());
    }
    assert(text_in(slots[0], "ticker") == Ok::<String, DecodeError>(record.ticker)) by {
        assert(is_member(written[0], "ticker", record.members()[0].1));
    }
    assert(text_in(slots[1], "trade_id") == Ok::<String, DecodeError>(record.trade_id)) by {
        assert(is_member(written[1], "trade_id", record.members()[1].1));
    }
    assert(opt_int_in(slots[2]) == Ok::<Option<i64>, DecodeError>(record.yes_price)) by {
        assert(is_member(written[2], "yes_price", record.members()[2].1));
    }
    assert(opt_int_in(slots[3]) == Ok::<Option<i64>, DecodeError>(record.no_price)) by {
        assert(is_member(written[3], "no_price", record.members()[3].1));
    }
    assert(int_in(slots[4], "count") == Ok::<i64, DecodeError>(record.count)) by {
        assert(is_member(written[4], "count", record.members()[4].1));
    }
    assert(opt_text_in(slots[5]) == Ok::<Option<String>, DecodeError>(record.taker_side)) by {
        assert(is_member(written[5], "taker_side", record.members()[5].1));
    }
    assert(text_in(slots[6], "created_time") == Ok::<String, DecodeError>(record.created_time)) by {
        assert(is_member(written[6], "created_time", record.members()[6].1));
    }
}

proof fn lemma_market_fields(slots: Seq<Option<Json>>, record: Market)
    ensures
        Market::of_slots(slots) == Ok::<Market, DecodeError>(record) <==> {
            &&& says_text(slots[0], record.ticker)
            &&& says_opt_text(slots[1], record.event_ticker)
            &&& says_opt_text(slots[2], record.title)
            &&& says_opt_text(slots[3], record.status)
            &&& says_opt_int(slots[4], record.yes_bid)
            &&& says_opt_int(slots[5], record.yes_ask)
            &&& says_opt_int(slots[6], record.no_bid)
            &&& says_opt_int(slots[7], record.no_ask)
            &&& says_opt_int(slots[8], record.last_price)
            &&& says_opt_int(slots[9], record.volume)
            &&& says_opt_int(slots[10], record.open_interest)
            &&& says_opt_text(slots[11], record.close_time)
            &&& says_opt_text(slots[12], record.expiration_time)
            &&& says_opt_text(slots[13], record.yes_bid_dollars)
            &&& says_opt_text(slots[14], record.yes_ask_dollars)
            &&& says_opt_text(slots[15], record.no_bid_dollars)
            &&& says_opt_text(slots[16], record.no_ask_dollars)
            &&& says_opt_text(slots[17], record.last_price_dollars)
            &&& says_opt_int(slots[18], record.exchange_index)
        },
{
    law_required_fields(slots[0], "ticker", record.ticker, 0);
    law_optional_fields(slots[1], record.event_ticker, None, None);
    law_optional_fields(slots[2], record.title, None, None);
    law_optional_fields(slots[3], record.status, None, None);
    law_optional_fields(slots[4], None, record.yes_bid, None);
    law_optional_fields(slots[5], None, record.yes_ask, None);
    law_optional_fields(slots[6], None, record.no_bid, None);
    law_optional_fields(slots[7], None, record.no_ask, None);
    law_optional_fields(slots[8], None, record.last_price, None);
    law_optional_fields(slots[9], None, record.volume, None);
    law_optional_fields(slots[10], None, record.open_interest, None);
    law_optional_fields(slots[11], record.close_time, None, None);
    law_optional_fields(slots[12], record.expiration_time, None, None);
    law_optional_fields(slots[13], record.yes_bid_dollars, None, None);
    law_optional_fields(slots[14], record.yes_ask_dollars, None, None);
    law_optional_fields(slots[15], record.no_bid_dollars, None, None);
    law_optional_fields(slots[16], record.no_ask_dollars, None, None);
    law_optional_fields(slots[17], record.last_price_dollars, None, None);
    law_optional_fields(slots[18], None, record.exchange_index, None);
}

proof fn lemma_market_names(members: Seq<(String, Json)>)
    ensures
        first_duplicate(members, Market::keys()) is None <==> {
            &&& once(members, "ticker"@)
            &&& once(members, "event_ticker"@)
            &&& once(members, "title"@)
            &&& once(members, "status"@)
            &&& once(members, "yes_bid"@)
            &&& once(members, "yes_ask"@)
            &&& once(members, "no_bid"@)
            &&& once(members, "no_ask"@)
            &&& once(members, "last_price"@)
            &&& once(members, "volume"@)
            &&& once(members, "open_interest"@)
            &&& once(members, "close_time"@)
            &&& once(members, "expiration_time"@)
            &&& once(members, "yes_bid_dollars"@)
            &&& once(members, "yes_ask_dollars"@)
            &&& once(members, "no_bid_dollars"@)
            &&& once(members, "no_ask_dollars"@)
            &&& once(members, "last_price_dollars"@)
            &&& once(members, "exchange_index"@)
        },
{
    let keys = Market::keys();
    law_first_duplicate_is_there_twice(members, keys);
    if first_duplicate(members, keys) is None {
        assert(once(members, keys[0]@));
        assert(once(members, keys[1]@));
        assert(once(members, keys[2]@));
        assert(once(members, keys[3]@));
        assert(once(members, keys[4]@));
        assert(once(members, keys[5]@));
        assert(once(members, keys[6]@));
        assert(once(members, keys[7]@));
        assert(once(members, keys[8]@));
        assert(once(members, keys[9]@));
        assert(once(members, keys[10]@));
        assert(once(members, keys[11]@));
        assert(once(members, keys[12]@));
        assert(once(members, keys[13]@));
        assert(once(members, keys[14]@));
        assert(once(members, keys[15]@));
        assert(once(members, keys[16]@));
        assert(once(members, keys[17]@));
        assert(once(members, keys[18]@));
    }
}

/// A market is read by the names of its fields: an object decodes to it where each field is what
/// the member of its own name says, and only there. None of these names may stand twice.
pub proof fn law_market_is_read_by_name(json: Json, record: Market)
    requires
        json is Object,
    ensures
        ({
            let members = json->Object_0@;
            decoded::<Market>(json) == Ok::<Market, DecodeError>(record) <==> {
                &&& once(members, "ticker"@)
                &&& once(members, "event_ticker"@)
                &&& once(members, "title"@)
                &&& once(members, "status"@)
                &&& once(members, "yes_bid"@)
                &&& once(members, "yes_ask"@)
                &&& once(members, "no_bid"@)
                &&& once(members, "no_ask"@)
                &&& once(members, "last_price"@)
                &&& once(members, "volume"@)
                &&& once(members, "open_interest"@)
                &&& once(members, "close_time"@)
                &&& once(members, "expiration_time"@)
                &&& once(members, "yes_bid_dollars"@)
                &&& once(members, "yes_ask_dollars"@)
                &&& once(members, "no_bid_dollars"@)
                &&& once(members, "no_ask_dollars"@)
                &&& once(members, "last_price_dollars"@)
                &&& once(members, "exchange_index"@)
                &&& says_text(member(members, "ticker"@), record.ticker)
                &&& says_opt_text(member(members, "event_ticker"@), record.event_ticker)
                &&& says_opt_text(member(members, "title"@), record.title)
                &&& says_opt_text(member(members, "status"@), record.status)
                &&& says_opt_int(member(members, "yes_bid"@), record.yes_bid)
                &&& says_opt_int(member(members, "yes_ask"@), record.yes_ask)
                &&& says_opt_int(member(members, "no_bid"@), record.no_bid)
                &&& says_opt_int(member(members, "no_ask"@), record.no_ask)
                &&& says_opt_int(member(members, "last_price"@), record.last_price)
                &&& says_opt_int(member(members, "volume"@), record.volume)
                &&& says_opt_int(member(members, "open_interest"@), record.open_interest)
                &&& says_opt_text(member(members, "close_time"@), record.close_time)
                &&& says_opt_text(member(members, "expiration_time"@), record.expiration_time)
                &&& says_opt_text(member(members, "yes_bid_dollars"@), record.yes_bid_dollars)
                &&& says_opt_text(member(members, "yes_ask_dollars"@), record.yes_ask_dollars)
                &&& says_opt_text(member(members, "no_bid_dollars"@), record.no_bid_dollars)
                &&& says_opt_text(member(members, "no_ask_dollars"@), record.no_ask_dollars)
                &&& says_opt_text(member(members, "last_price_dollars"@), record.last_price_dollars)
                &&& says_opt_int(member(members, "exchange_index"@), record.exchange_index)
            }
        }),
{
    let members = json->Object_0@;
    let keys = Market::keys();
    lemma_market_names(members);
    if first_duplicate(members, keys) is None {
        let slots = Seq::new(keys.len(), |i: int| member(members, keys[i]@));
        assert(slots_of(json, keys, Market::least())
            == Ok::<Seq<Option<Json>>, DecodeError>(slots));
        lemma_market_fields(slots, record);
    }
}

/// A market in an array is read by the places of its fields.
pub proof fn law_market_is_read_by_place(json: Json, record: Market)
    requires
        json is Array,
    ensures
        ({
            let elements = json->Array_0@;
            decoded::<Market>(json) == Ok::<Market, DecodeError>(record) <==> {
                &&& 18 <= elements.len() <= 19
                &&& says_text(place(elements, 0), record.ticker)
                &&& says_opt_text(place(elements, 1), record.event_ticker)
                &&& says_opt_text(place(elements, 2), record.title)
                &&& says_opt_text(place(elements, 3), record.status)
                &&& says_opt_int(place(elements, 4), record.yes_bid)
                &&& says_opt_int(place(elements, 5), record.yes_ask)
                &&& says_opt_int(place(elements, 6), record.no_bid)
                &&& says_opt_int(place(elements, 7), record.no_ask)
                &&& says_opt_int(place(elements, 8), record.last_price)
                &&& says_opt_int(place(elements, 9), record.volume)
                &&& says_opt_int(place(elements, 10), record.open_interest)
                &&& says_opt_text(place(elements, 11), record.close_time)
                &&& says_opt_text(place(elements, 12), record.expiration_time)
                &&& says_opt_text(place(elements, 13), record.yes_bid_dollars)
                &&& says_opt_text(place(elements, 14), record.yes_ask_dollars)
                &&& says_opt_text(place(elements, 15), record.no_bid_dollars)
                &&& says_opt_text(place(elements, 16), record.no_ask_dollars)
                &&& says_opt_text(place(elements, 17), record.last_price_dollars)
                &&& says_opt_int(place(elements, 18), record.exchange_index)
            }
        }),
{
    let elements = json->Array_0@;
    let keys = Market::keys();
    if 18 <= elements.len() <= 19 {
        let slots = slots_of(json, keys, Market::least())->Ok_0;
        assert(slots =~= Seq::new(19, |i: int| place(elements, i)));
        lemma_market_fields(slots, record);
    }
}

/// A page of markets is read by the names of its fields: an object decodes to it where each field
/// is what the member of its own name says, and only there. None of these names may stand twice.
pub proof fn law_markets_response_is_read_by_name(json: Json, record: MarketsResponseModel)
    requires
        json is Object,
    ensures
        ({
            let members = json->Object_0@;
            decoded::<MarketsResponse>(json) == Ok::<MarketsResponseModel, DecodeError>(record)
                <==> {
                &&& once(members, "markets"@)
                &&& once(members, "cursor"@)
                &&& says_records::<Market>(member(members, "markets"@), record.markets)
                &&& says_opt_text(member(members, "cursor"@), record.cursor)
            }
        }),
{
    let members = json->Object_0@;
    let keys = MarketsResponse::keys();
    law_first_duplicate_is_there_twice(members, keys);
    assert(keys[0] == "markets");
    assert(keys[1] == "cursor");
    assert(first_duplicate(members, keys) is None <==> {
        &&& once(members, "markets"@)
        &&& once(members, "cursor"@)
    }) by {
        if first_duplicate(members, keys) is None {
            assert(once(members, keys[0]@));
            assert(once(members, keys[1]@));
        }
    }
    law_records_field::<Market>(member(members, "markets"@), "markets", record.markets);
    if first_duplicate(members, keys) is None {
        let slots = Seq::new(keys.len(), |i: int| member(members, keys[i]@));
        assert(slots_of(json, keys, MarketsResponse::least())
            == Ok::<Seq<Option<Json>>, DecodeError>(slots));
        assert(slots[0] == member(members, "markets"@));
        assert(slots[1] == member(members, "cursor"@));
    }
}

/// A page of markets in an array is read by the places of its fields.
pub proof fn law_markets_response_is_read_by_place(json: Json, record: MarketsResponseModel)
    requires
        json is Array,
    ensures
        ({
            let elements = json->Array_0@;
            decoded::<MarketsResponse>(json) == Ok::<MarketsResponseModel, DecodeError>(record)
                <==> {
                &&& elements.len() == 2
                &&& says_records::<Market>(place(elements, 0), record.markets)
                &&& says_opt_text(place(elements, 1), record.cursor)
            }
        }),
{
    let elements = json->Array_0@;
    let keys = MarketsResponse::keys();
    law_records_field::<Market>(place(elements, 0), "markets", record.markets);
    if 2 <= elements.len() <= 2 {
        let slots = slots_of(json, keys, MarketsResponse::least())->Ok_0;
        assert(slots[0] == place(elements, 0));
        assert(slots[1] == place(elements, 1));
    }
}

/// A single market is read by the names of its fields: an object decodes to it where each field is
/// what the member of its own name says, and only there. None of these names may stand twice.
pub proof fn law_get_market_response_is_read_by_name(json: Json, record: GetMarketResponse)
    requires
        json is Object,
    ensures
        ({
            let members = json->Object_0@;
            decoded::<GetMarketResponse>(json) == Ok::<GetMarketResponse, DecodeError>(record)
                <==> {
                &&& once(members, "market"@)
                &&& says_record::<Market>(member(members, "market"@), record.market)
            }
        }),
{
    let members = json->Object_0@;
    let keys = GetMarketResponse::keys();
    law_first_duplicate_is_there_twice(members, keys);
    assert(keys[0] == "market");
    assert(first_duplicate(members, keys) is None <==> {
        &&& once(members, "market"@)
    }) by {
        if first_duplicate(members, keys) is None {
            assert(once(members, keys[0]@));
        }
    }
    law_record_field::<Market>(member(members, "market"@), "market", record.market);
    if first_duplicate(members, keys) is None {
        let slots = Seq::new(keys.len(), |i: int| member(members, keys[i]@));
        assert(slots_of(json, keys, GetMarketResponse::least())
            == Ok::<Seq<Option<Json>>, DecodeError>(slots));
        assert(slots[0] == member(members, "market"@));
    }
}

/// A single market in an array is read by the places of its fields.
pub proof fn law_get_market_response_is_read_by_place(json: Json, record: GetMarketResponse)
    requires
        json is Array,
    ensures
        ({
            let elements = json->Array_0@;
            decoded::<GetMarketResponse>(json) == Ok::<GetMarketResponse, DecodeError>(record)
                <==> {
                &&& elements.len() == 1
                &&& says_record::<Market>(place(elements, 0), record.market)
            }
        }),
{
    let elements = json->Array_0@;
    let keys = GetMarketResponse::keys();
    law_record_field::<Market>(place(elements, 0), "market", record.market);
    if 1 <= elements.len() <= 1 {
        let slots = slots_of(json, keys, GetMarketResponse::least())->Ok_0;
        assert(slots[0] == place(elements, 0));
    }
}

/// A trade is read by the names of its fields: an object decodes to it where each field is what the
/// member of its own name says, and only there. None of these names may stand twice.
pub proof fn law_kalshi_trade_is_read_by_name(json: Json, record: KalshiTrade)
    requires
        json is Object,
    ensures
        ({
            let members = json->Object_0@;
            decoded::<KalshiTrade>(json) == Ok::<KalshiTrade, DecodeError>(record) <==> {
                &&& once(members, "ticker"@)
                &&& once(members, "trade_id"@)
                &&& once(members, "yes_price"@)
                &&& once(members, "no_price"@)
                &&& once(members, "count"@)
                &&& once(members, "taker_side"@)
                &&& once(members, "created_time"@)
                &&& says_text(member(members, "ticker"@), record.ticker)
                &&& says_text(member(members, "trade_id"@), record.trade_id)
                &&& says_opt_int(member(members, "yes_price"@), record.yes_price)
                &&& says_opt_int(member(members, "no_price"@), record.no_price)
                &&& says_int(member(members, "count"@), record.count)
                &&& says_opt_text(member(members, "taker_side"@), record.taker_side)
                &&& says_text(member(members, "created_time"@), record.created_time)
            }
        }),
{
    let members = json->Object_0@;
    let keys = KalshiTrade::keys();
    law_first_duplicate_is_there_twice(members, keys);
    assert(keys[0] == "ticker");
    assert(keys[1] == "trade_id");
    assert(keys[2] == "yes_price");
    assert(keys[3] == "no_price");
    assert(keys[4] == "count");
    assert(keys[5] == "taker_side");
    assert(keys[6] == "created_time");
    assert(first_duplicate(members, keys) is None <==> {
        &&& once(members, "ticker"@)
        &&& once(members, "trade_id"@)
        &&& once(members, "yes_price"@)
        &&& once(members, "no_price"@)
        &&& once(members, "count"@)
        &&& once(members, "taker_side"@)
        &&& once(members, "created_time"@)
    }) by {
        if first_duplicate(members, keys) is None {
            assert(once(members, keys[0]@));
            assert(once(members, keys[1]@));
            assert(once(members, keys[2]@));
            assert(once(members, keys[3]@));
            assert(once(members, keys[4]@));
            assert(once(members, keys[5]@));
            assert(once(members, keys[6]@));
        }
    }
    if first_duplicate(members, keys) is None {
        let slots = Seq::new(keys.len(), |i: int| member(members, keys[i]@));
        assert(slots_of(json, keys, KalshiTrade::least())
            == Ok::<Seq<Option<Json>>, DecodeError>(slots));
        assert(slots[0] == member(members, "ticker"@));
        assert(slots[1] == member(members, "trade_id"@));
        assert(slots[2] == member(members, "yes_price"@));
        assert(slots[3] == member(members, "no_price"@));
        assert(slots[4] == member(members, "count"@));
        assert(slots[5] == member(members, "taker_side"@));
        assert(slots[6] == member(members, "created_time"@));
    }
}

/// A trade in an array is read by the places of its fields.
pub proof fn law_kalshi_trade_is_read_by_place(json: Json, record: KalshiTrade)
    requires
        json is Array,
    ensures
        ({
            let elements = json->Array_0@;
            decoded::<KalshiTrade>(json) == Ok::<KalshiTrade, DecodeError>(record) <==> {
                &&& elements.len() == 7
                &&& says_text(place(elements, 0), record.ticker)
                &&& says_text(place(elements, 1), record.trade_id)
                &&& says_opt_int(place(elements, 2), record.yes_price)
                &&& says_opt_int(place(elements, 3), record.no_price)
                &&& says_int(place(elements, 4), record.count)
                &&& says_opt_text(place(elements, 5), record.taker_side)
                &&& says_text(place(elements, 6), record.created_time)
            }
        }),
{
    let elements = json->Array_0@;
    let keys = KalshiTrade::keys();
    if 7 <= elements.len() <= 7 {
        let slots = slots_of(json, keys, KalshiTrade::least())->Ok_0;
        assert(slots[0] == place(elements, 0));
        assert(slots[1] == place(elements, 1));
        assert(slots[2] == place(elements, 2));
        assert(slots[3] == place(elements, 3));
        assert(slots[4] == place(elements, 4));
        assert(slots[5] == place(elements, 5));
        assert(slots[6] == place(elements, 6));
    }
}

/// A book is read by the names of its fields: an object decodes to it where each field is what the
/// member of its own name says, and only there. None of these names may stand twice.
pub proof fn law_orderbook_snapshot_is_read_by_name(json: Json, record: OrderbookSnapshotModel)
    requires
        json is Object,
    ensures
        ({
            let members = json->Object_0@;
            decoded::<OrderbookSnapshot>(json)
                == Ok::<OrderbookSnapshotModel, DecodeError>(record) <==> {
                &&& once(members, "yes_dollars"@)
                &&& once(members, "no_dollars"@)
                &&& says_levels(member(members, "yes_dollars"@), record.yes)
                &&& says_levels(member(members, "no_dollars"@), record.no)
            }
        }),
{
    let members = json->Object_0@;
    let keys = OrderbookSnapshot::keys();
    law_first_duplicate_is_there_twice(members, keys);
    assert(keys[0] == "yes_dollars");
    assert(keys[1] == "no_dollars");
    assert(first_duplicate(members, keys) is None <==> {
        &&& once(members, "yes_dollars"@)
        &&& once(members, "no_dollars"@)
    }) by {
        if first_duplicate(members, keys) is None {
            assert(once(members, keys[0]@));
            assert(once(members, keys[1]@));
        }
    }
    law_levels_field(member(members, "yes_dollars"@), record.yes);
    law_levels_field(member(members, "no_dollars"@), record.no);
    if first_duplicate(members, keys) is None {
        let slots = Seq::new(keys.len(), |i: int| member(members, keys[i]@));
        assert(slots_of(json, keys, OrderbookSnapshot::least())
            == Ok::<Seq<Option<Json>>, DecodeError>(slots));
        assert(slots[0] == member(members, "yes_dollars"@));
        assert(slots[1] == member(members, "no_dollars"@));
    }
}

/// A book in an array is read by the places of its fields.
pub proof fn law_orderbook_snapshot_is_read_by_place(json: Json, record: OrderbookSnapshotModel)
    requires
        json is Array,
    ensures
        ({
            let elements = json->Array_0@;
            decoded::<OrderbookSnapshot>(json)
                == Ok::<OrderbookSnapshotModel, DecodeError>(record) <==> {
                &&& elements.len() <= 2
                &&& says_levels(place(elements, 0), record.yes)
                &&& says_levels(place(elements, 1), record.no)
            }
        }),
{
    let elements = json->Array_0@;
    let keys = OrderbookSnapshot::keys();
    law_levels_field(place(elements, 0), record.yes);
    law_levels_field(place(elements, 1), record.no);
    if 0 <= elements.len() <= 2 {
        let slots = slots_of(json, keys, OrderbookSnapshot::least())->Ok_0;
        assert(slots[0] == place(elements, 0));
        assert(slots[1] == place(elements, 1));
    }
}

/// A book in its envelope is read by the names of its fields: an object decodes to it where each
/// field is what the member of its own name says, and only there. None of these names may stand
/// twice.
pub proof fn law_orderbook_response_is_read_by_name(json: Json, record: OrderbookResponseModel)
    requires
        json is Object,
    ensures
        ({
            let members = json->Object_0@;
            decoded::<OrderbookResponse>(json)
                == Ok::<OrderbookResponseModel, DecodeError>(record) <==> {
                &&& once(members, "orderbook_fp"@)
                &&& says_record::<OrderbookSnapshot>(member(members, "orderbook_fp"@),
                    record.orderbook)
            }
        }),
{
    let members = json->Object_0@;
    let keys = OrderbookResponse::keys();
    law_first_duplicate_is_there_twice(members, keys);
    assert(keys[0] == "orderbook_fp");
    assert(first_duplicate(members, keys) is None <==> {
        &&& once(members, "orderbook_fp"@)
    }) by {
        if first_duplicate(members, keys) is None {
            assert(once(members, keys[0]@));
        }
    }
    law_record_field::<OrderbookSnapshot>(member(members, "orderbook_fp"@), "orderbook_fp",
        record.orderbook);
    if first_duplicate(members, keys) is None {
        let slots = Seq::new(keys.len(), |i: int| member(members, keys[i]@));
        assert(slots_of(json, keys, OrderbookResponse::least())
            == Ok::<Seq<Option<Json>>, DecodeError>(slots));
        assert(slots[0] == member(members, "orderbook_fp"@));
    }
}

/// A book in its envelope in an array is read by the places of its fields.
pub proof fn law_orderbook_response_is_read_by_place(json: Json, record: OrderbookResponseModel)
    requires
        json is Array,
    ensures
        ({
            let elements = json->Array_0@;
            decoded::<OrderbookResponse>(json)
                == Ok::<OrderbookResponseModel, DecodeError>(record) <==> {
                &&& elements.len() == 1
                &&& says_record::<OrderbookSnapshot>(place(elements, 0), record.orderbook)
            }
        }),
{
    let elements = json->Array_0@;
    let keys = OrderbookResponse::keys();
    law_record_field::<OrderbookSnapshot>(place(elements, 0), "orderbook_fp", record.orderbook);
    if 1 <= elements.len() <= 1 {
        let slots = slots_of(json, keys, OrderbookResponse::least())->Ok_0;
        assert(slots[0] == place(elements, 0));
    }
}

/// A market is written by the names of its fields, an absent one as null. The shard is not written
/// where it is absent.
pub proof fn law_market_is_written_by_name(json: Json, record: Market)
    requires
        is_object(json, record.members()),
    ensures
        json is Object,
        ({
            let written = json->Object_0@;
            let shard: int = if record.exchange_index is Some {
                1
            } else {
                0
            };
            &&& written.len() == 18 + shard
            &&& written[0].0@ == "ticker"@
            &&& written[0].1 == Json::Str(record.ticker)
            &&& written[1].0@ == "event_ticker"@
            &&& writes_opt_text(written[1].1, record.event_ticker)
            &&& written[2].0@ == "title"@
            &&& writes_opt_text(written[2].1, record.title)
            &&& written[3].0@ == "status"@
            &&& writes_opt_text(written[3].1, record.status)
            &&& written[4].0@ == "yes_bid"@
            &&& writes_opt_int(written[4].1, record.yes_bid)
            &&& written[5].0@ == "yes_ask"@
            &&& writes_opt_int(written[5].1, record.yes_ask)
            &&& written[6].0@ == "no_bid"@
            &&& writes_opt_int(written[6].1, record.no_bid)
            &&& written[7].0@ == "no_ask"@
            &&& writes_opt_int(written[7].1, record.no_ask)
            &&& written[8].0@ == "last_price"@
            &&& writes_opt_int(written[8].1, record.last_price)
            &&& written[9].0@ == "volume"@
            &&& writes_opt_int(written[9].1, record.volume)
            &&& written[10].0@ == "open_interest"@
            &&& writes_opt_int(written[10].1, record.open_interest)
            &&& written[11].0@ == "close_time"@
            &&& writes_opt_text(written[11].1, record.close_time)
            &&& written[12].0@ == "expiration_time"@
            &&& writes_opt_text(written[12].1, record.expiration_time)
            &&& written[13].0@ == "yes_bid_dollars"@
            &&& writes_opt_text(written[13].1, record.yes_bid_dollars)
            &&& written[14].0@ == "yes_ask_dollars"@
            &&& writes_opt_text(written[14].1, record.yes_ask_dollars)
            &&& written[15].0@ == "no_bid_dollars"@
            &&& writes_opt_text(written[15].1, record.no_bid_dollars)
            &&& written[16].0@ == "no_ask_dollars"@
            &&& writes_opt_text(written[16].1, record.no_ask_dollars)
            &&& written[17].0@ == "last_price_dollars"@
            &&& writes_opt_text(written[17].1, record.last_price_dollars)
            &&& record.exchange_index is Some ==> written[18].0@ == "exchange_index"@
            &&& record.exchange_index is Some ==> written[18].1 == Json::Int(
                record.exchange_index->0,
            )
        }),
{
    let written = json->Object_0@;
    let members = record.members();
    assert(is_member(written[0], members[0].0, members[0].1));
    assert(is_member(written[1], members[1].0, members[1].1));
    assert(is_member(written[2], members[2].0, members[2].1));
    assert(is_member(written[3], members[3].0, members[3].1));
    assert(is_member(written[4], members[4].0, members[4].1));
    assert(is_member(written[5], members[5].0, members[5].1));
    assert(is_member(written[6], members[6].0, members[6].1));
    assert(is_member(written[7], members[7].0, members[7].1));
    assert(is_member(written[8], members[8].0, members[8].1));
    assert(is_member(written[9], members[9].0, members[9].1));
    assert(is_member(written[10], members[10].0, members[10].1));
    assert(is_member(written[11], members[11].0, members[11].1));
    assert(is_member(written[12], members[12].0, members[12].1));
    assert(is_member(written[13], members[13].0, members[13].1));
    assert(is_member(written[14], members[14].0, members[14].1));
    assert(is_member(written[15], members[15].0, members[15].1));
    assert(is_member(written[16], members[16].0, members[16].1));
    assert(is_member(written[17], members[17].0, members[17].1));
    if record.exchange_index is Some {
        assert(is_member(written[18], members[18].0, members[18].1));
    }
}

/// A trade is written by the names of its fields, an absent one as null.
pub proof fn law_kalshi_trade_is_written_by_name(json: Json, record: KalshiTrade)
    requires
        is_object(json, record.members()),
    ensures
        json is Object,
        ({
            let written = json->Object_0@;
            &&& written.len() == 7
            &&& written[0].0@ == "ticker"@
            &&& written[0].1 == Json::Str(record.ticker)
            &&& written[1].0@ == "trade_id"@
            &&& written[1].1 == Json::Str(record.trade_id)
            &&& written[2].0@ == "yes_price"@
            &&& writes_opt_int(written[2].1, record.yes_price)
            &&& written[3].0@ == "no_price"@
            &&& writes_opt_int(written[3].1, record.no_price)
            &&& written[4].0@ == "count"@
            &&& written[4].1 == Json::Int(record.count)
            &&& written[5].0@ == "taker_side"@
            &&& writes_opt_text(written[5].1, record.taker_side)
            &&& written[6].0@ == "created_time"@
            &&& written[6].1 == Json::Str(record.created_time)
        }),
{
    let written = json->Object_0@;
    let members = record.members();
    assert(is_member(written[0], members[0].0, members[0].1));
    assert(is_member(written[1], members[1].0, members[1].1));
    assert(is_member(written[2], members[2].0, members[2].1));
    assert(is_member(written[3], members[3].0, members[3].1));
    assert(is_member(written[4], members[4].0, members[4].1));
    assert(is_member(written[5], members[5].0, members[5].1));
    assert(is_member(written[6], members[6].0, members[6].1));
}

/// A book is written side by side, level by level.
pub proof fn law_orderbook_snapshot_is_written_by_name(json: Json, record: OrderbookSnapshot)
    requires
        is_object(json, record.members()),
    ensures
        json is Object,
        ({
            let written = json->Object_0@;
            &&& written.len() == 2
            &&& written[0].0@ == "yes_dollars"@
            &&& writes_levels(written[0].1, record.yes@)
            &&& written[1].0@ == "no_dollars"@
            &&& writes_levels(written[1].1, record.no@)
        }),
{
    let written = json->Object_0@;
    let members = record.members();
    assert(is_member(written[0], members[0].0, members[0].1));
    assert(is_member(written[1], members[1].0, members[1].1));
}

/// A price in cents is what the dollar string denotes; where there is none, or it denotes nothing,
/// the older field.
pub proof fn law_dollars_come_first(text: String, older: Option<i64>)
    ensures
        preferred_cents(None, older) == older,
        dollars_in_cents(text@) is Some ==> preferred_cents(Some(text), older) == dollars_in_cents(
            text@,
        ),
        dollars_in_cents(text@) is None ==> preferred_cents(Some(text), older) == older,
{
}

/// A decoded market's prices are those of the members of their own names: the cents of the dollar
/// string where that is a price, else the older whole number.
pub proof fn law_market_prices_by_name(json: Json, market: Market, text: String, cents: i64)
    requires
        json is Object,
        decoded::<Market>(json) == Ok::<Market, DecodeError>(market),
    ensures
        member(json->Object_0@, "yes_bid_dollars"@) == Some(Json::Str(text))
            && dollars_in_cents(text@)
            == Some(cents) ==> preferred_cents(market.yes_bid_dollars, market.yes_bid)
                == Some(cents),
        absent(member(json->Object_0@, "yes_bid_dollars"@)) && member(json->Object_0@, "yes_bid"@)
            == Some(
            Json::Int(cents),
        ) ==> preferred_cents(market.yes_bid_dollars, market.yes_bid) == Some(cents),
        absent(member(json->Object_0@, "yes_bid_dollars"@)) && absent(
            member(json->Object_0@, "yes_bid"@),
        ) ==> preferred_cents(market.yes_bid_dollars, market.yes_bid) is None,
        member(json->Object_0@, "yes_ask_dollars"@) == Some(Json::Str(text))
            && dollars_in_cents(text@)
            == Some(cents) ==> preferred_cents(market.yes_ask_dollars, market.yes_ask)
                == Some(cents),
        absent(member(json->Object_0@, "yes_ask_dollars"@)) && member(json->Object_0@, "yes_ask"@)
            == Some(
            Json::Int(cents),
        ) ==> preferred_cents(market.yes_ask_dollars, market.yes_ask) == Some(cents),
        absent(member(json->Object_0@, "yes_ask_dollars"@)) && absent(
            member(json->Object_0@, "yes_ask"@),
        ) ==> preferred_cents(market.yes_ask_dollars, market.yes_ask) is None,
        member(json->Object_0@, "no_bid_dollars"@) == Some(Json::Str(text))
            && dollars_in_cents(text@)
            == Some(cents) ==> preferred_cents(market.no_bid_dollars, market.no_bid) == Some(cents),
        absent(member(json->Object_0@, "no_bid_dollars"@)) && member(json->Object_0@, "no_bid"@)
            == Some(
            Json::Int(cents),
        ) ==> preferred_cents(market.no_bid_dollars, market.no_bid) == Some(cents),
        absent(member(json->Object_0@, "no_bid_dollars"@)) && absent(
            member(json->Object_0@, "no_bid"@),
        ) ==> preferred_cents(market.no_bid_dollars, market.no_bid) is None,
        member(json->Object_0@, "no_ask_dollars"@) == Some(Json::Str(text))
            && dollars_in_cents(text@)
            == Some(cents) ==> preferred_cents(market.no_ask_dollars, market.no_ask) == Some(cents),
        absent(member(json->Object_0@, "no_ask_dollars"@)) && member(json->Object_0@, "no_ask"@)
            == Some(
            Json::Int(cents),
        ) ==> preferred_cents(market.no_ask_dollars, market.no_ask) == Some(cents),
        absent(member(json->Object_0@, "no_ask_dollars"@)) && absent(
            member(json->Object_0@, "no_ask"@),
        ) ==> preferred_cents(market.no_ask_dollars, market.no_ask) is None,
        member(json->Object_0@, "last_price_dollars"@) == Some(Json::Str(text))
            && dollars_in_cents(text@)
            == Some(cents) ==> preferred_cents(market.last_price_dollars, market.last_price)
                == Some(cents),
        absent(member(json->Object_0@, "last_price_dollars"@))
            && member(json->Object_0@, "last_price"@) == Some(
            Json::Int(cents),
        ) ==> preferred_cents(market.last_price_dollars, market.last_price) == Some(cents),
        absent(member(json->Object_0@, "last_price_dollars"@)) && absent(
            member(json->Object_0@, "last_price"@),
        ) ==> preferred_cents(market.last_price_dollars, market.last_price) is None,
{
    law_market_is_read_by_name(json, market);
}

/// What contracts say of a record they say of what it holds.
pub proof fn law_market_models_are_the_records(
    market: Market,
    markets_response: MarketsResponse,
    get_market_response: GetMarketResponse,
    kalshi_trade: KalshiTrade,
    orderbook_snapshot: OrderbookSnapshot,
    orderbook_response: OrderbookResponse,
)
    ensures
        market.model() == market,
        markets_response.model().markets == markets_response.markets@,
        markets_response.model().cursor == markets_response.cursor,
        get_market_response.model() == get_market_response,
        kalshi_trade.model() == kalshi_trade,
        orderbook_snapshot.model().yes == levels_view(orderbook_snapshot.yes@),
        orderbook_snapshot.model().no == levels_view(orderbook_snapshot.no@),
        orderbook_response.model().orderbook == orderbook_response.orderbook.model(),
{
    assert(markets_response.model().markets =~= markets_response.markets@);
}

} // verus!
