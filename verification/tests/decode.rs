//! The rules by which records are read and written.

use ruvector_kalshi::decode::decode;
use ruvector_kalshi::encode::ToJson;
use ruvector_kalshi::error::KalshiError;
use ruvector_kalshi::json::{settle, DecodeError, Json};
use ruvector_kalshi::models::{
    BalanceResponse, GetMarketResponse, KalshiTrade, Market, MarketPosition, MarketsResponse,
    OrderRecord, OrderSide, OrderbookResponse, OrderbookSnapshot, OrdersResponse,
    SelfTradePreventionType, TimeInForce, V2AmendAck, V2AmendOrder, V2CancelAck,
    V2CreateOrderRequest, V2OrderResponse, V2Side, WsEnvelope, WsFill, WsMessage, WsOrderbookDelta,
    WsTicker, WsTrade,
};
use ruvector_kalshi::rest::read_answer;

fn text(s: &str) -> Json {
    Json::Str(s.into())
}

fn object(members: Vec<(&str, Json)>) -> Json {
    Json::Object(members.into_iter().map(|(k, v)| (k.to_string(), v)).collect())
}

fn fill() -> Vec<(&'static str, Json)> {
    vec![
        ("market_ticker", text("X")),
        ("order_id", text("o")),
        ("yes_price_dollars", text("0.75")),
        ("count_fp", text("3.00")),
        ("side", text("yes")),
    ]
}

fn market(ticker: &str) -> Market {
    Market {
        ticker: ticker.into(),
        event_ticker: None,
        title: Some("t".into()),
        status: None,
        yes_bid: Some(24),
        yes_ask: None,
        no_bid: Some(7),
        no_ask: None,
        last_price: Some(9),
        volume: None,
        open_interest: Some(-1),
        close_time: None,
        expiration_time: Some("e".into()),
        yes_bid_dollars: Some("0.5200".into()),
        yes_ask_dollars: Some("x".into()),
        no_bid_dollars: Some("x".into()),
        no_ask_dollars: Some("0.07".into()),
        last_price_dollars: None,
        exchange_index: Some(3),
    }
}

#[test]
fn a_missing_field_is_named() {
    let missing: Result<WsTicker, DecodeError> = decode(&object(vec![]));
    assert_eq!(missing.unwrap_err(), DecodeError::MissingField("market_ticker"));
    let missing: Result<BalanceResponse, DecodeError> =
        decode(&object(vec![("balance", Json::Int(1))]));
    assert_eq!(missing.unwrap_err(), DecodeError::MissingField("portfolio_value"));
    let missing: Result<OrdersResponse, DecodeError> = decode(&object(vec![]));
    assert_eq!(missing.unwrap_err(), DecodeError::MissingField("orders"));
    let missing: Result<GetMarketResponse, DecodeError> = decode(&object(vec![]));
    assert_eq!(missing.unwrap_err(), DecodeError::MissingField("market"));
}

#[test]
fn a_known_key_may_stand_once() {
    let mut members = fill();
    members.push(("count_fp", text("4.00")));
    let twice: Result<WsFill, DecodeError> = decode(&object(members));
    assert_eq!(twice.unwrap_err(), DecodeError::DuplicateField("count_fp"));

    let mut members = fill();
    members.push(("unknown", Json::Null));
    members.insert(0, ("unknown", text("again")));
    let record: WsFill = decode(&object(members)).unwrap();
    assert_eq!(record.count, 3);
}

#[test]
fn the_order_of_members_is_free() {
    let mut members = fill();
    members.reverse();
    let record: WsFill = decode(&object(members)).unwrap();
    assert_eq!(record.market_ticker, "X");
    assert_eq!(record.yes_price, Some(75));
    assert_eq!(record.count, 3);
    assert_eq!(record.side, "yes");
}

#[test]
fn a_value_of_another_kind_is_refused() {
    let wrong: Result<WsTicker, DecodeError> =
        decode(&object(vec![("market_ticker", Json::Int(1))]));
    assert_eq!(wrong.unwrap_err(), DecodeError::WrongType);
    let wrong: Result<WsTicker, DecodeError> = decode(&text("X"));
    assert_eq!(wrong.unwrap_err(), DecodeError::WrongType);
    let wrong: Result<WsTicker, DecodeError> = decode(&object(vec![
        ("market_ticker", text("X")),
        ("ts", Json::Number("1.5".into())),
    ]));
    assert_eq!(wrong.unwrap_err(), DecodeError::WrongType);
    let wrong: Result<WsTicker, DecodeError> = decode(&object(vec![
        ("market_ticker", text("X")),
        ("price_dollars", Json::Int(52)),
    ]));
    assert_eq!(wrong.unwrap_err(), DecodeError::WrongType);
    let wrong: Result<MarketsResponse, DecodeError> =
        decode(&object(vec![("markets", Json::Null)]));
    assert_eq!(wrong.unwrap_err(), DecodeError::WrongType);
}

#[test]
fn a_price_that_cannot_be_read_is_an_error_and_never_absent() {
    for (price, read) in [(Json::Null, None), (text("0.10"), Some(10))] {
        let mut members = fill();
        members.push(("no_price_dollars", price));
        let record: WsFill = decode(&object(members)).unwrap();
        assert_eq!(record.no_price, read);
    }
    for price in ["", "abc", ".5"] {
        let mut members = fill();
        members.push(("no_price_dollars", text(price)));
        let record: Result<WsFill, DecodeError> = decode(&object(members));
        assert_eq!(record.unwrap_err(), DecodeError::UnparseablePrice(price.into()));
    }
    let delta: Result<WsOrderbookDelta, DecodeError> = decode(&object(vec![
        ("market_ticker", text("X")),
        ("price_dollars", Json::Null),
        ("delta_fp", text("1")),
        ("side", text("no")),
    ]));
    assert_eq!(delta.unwrap_err(), DecodeError::WrongType);
}

#[test]
fn a_count_that_cannot_be_read_is_an_error() {
    let trade: Result<WsTrade, DecodeError> = decode(&object(vec![
        ("market_ticker", text("X")),
        ("count_fp", text("many")),
    ]));
    assert_eq!(trade.unwrap_err(), DecodeError::UnparseableCount("many".into()));
}

#[test]
fn a_book_is_read_level_by_level() {
    let book = |pairs: Vec<Json>| -> Result<OrderbookResponse, DecodeError> {
        decode(&object(vec![(
            "orderbook_fp",
            object(vec![("yes_dollars", Json::Array(pairs))]),
        )]))
    };
    let pair = |a: &str, b: &str| Json::Array(vec![text(a), text(b)]);
    let read = book(vec![pair("0.04", "10.00"), pair("0.435", "-3")]).unwrap();
    assert_eq!(read.orderbook.yes, vec![[4, 10], [44, -3]]);
    assert!(read.orderbook.no.is_empty());
    let unread = book(vec![pair("0.04", "10.00"), pair("x", "y")]).unwrap_err();
    assert_eq!(unread, DecodeError::UnparseablePrice("x".into()));
    let unread = book(vec![pair("0.04", "y")]).unwrap_err();
    assert_eq!(unread, DecodeError::UnparseableCount("y".into()));
    let unread = book(vec![pair("x", "y"), Json::Int(1)]).unwrap_err();
    assert_eq!(unread, DecodeError::WrongType);
    let unread = book(vec![Json::Array(vec![text("0.04")])]).unwrap_err();
    assert_eq!(unread, DecodeError::WrongType);
}

#[test]
fn a_record_may_come_as_an_array() {
    let ticker: WsTicker = decode(&Json::Array(vec![
        text("X"),
        text("0.10"),
        Json::Null,
        Json::Null,
        Json::Int(1),
        Json::Null,
    ]))
    .unwrap();
    assert_eq!(ticker.market_ticker, "X");
    assert_eq!(ticker.yes_bid, Some(10));
    assert_eq!(ticker.ts, Some(1));
    let short: Result<WsTicker, DecodeError> = decode(&Json::Array(vec![text("X")]));
    assert_eq!(short.unwrap_err(), DecodeError::WrongLength);
    let long: Result<V2CancelAck, DecodeError> =
        decode(&Json::Array(vec![Json::Null, Json::Null, Json::Null, Json::Null, Json::Null]));
    assert_eq!(long.unwrap_err(), DecodeError::WrongLength);
}

#[test]
fn variants_are_read_from_their_words() {
    for side in [V2Side::Bid, V2Side::Ask] {
        assert_eq!(V2Side::from_json(&text(side.wire())), Ok(side));
    }
    for tif in [
        TimeInForce::FillOrKill,
        TimeInForce::GoodTillCanceled,
        TimeInForce::ImmediateOrCancel,
    ] {
        assert_eq!(TimeInForce::from_json(&text(tif.wire())), Ok(tif));
    }
    for stp in [SelfTradePreventionType::TakerAtCross, SelfTradePreventionType::Maker] {
        assert_eq!(SelfTradePreventionType::from_json(&text(stp.wire())), Ok(stp));
    }
    assert_eq!(V2Side::from_json(&object(vec![("ask", Json::Null)])), Ok(V2Side::Ask));
    assert_eq!(V2Side::from_json(&text("Bid")), Err(DecodeError::UnknownVariant));
    assert_eq!(TimeInForce::from_json(&text("day")), Err(DecodeError::UnknownVariant));
    assert_eq!(SelfTradePreventionType::from_json(&Json::Null), Err(DecodeError::WrongType));
    assert_eq!(OrderSide::Yes.wire(), "yes");
    assert_eq!(OrderSide::No.wire(), "no");
}

#[test]
fn absent_fields_of_a_body_are_not_sent() {
    let order = |shard: Option<i64>| {
        V2CreateOrderRequest {
            ticker: "T".into(),
            side: V2Side::Ask,
            count: "1.00".into(),
            price: "0.04".into(),
            time_in_force: TimeInForce::FillOrKill,
            self_trade_prevention_type: SelfTradePreventionType::Maker,
            client_order_id: "c".into(),
            exchange_index: shard,
        }
        .to_json()
    };
    let members = || {
        vec![
            ("ticker", text("T")),
            ("side", text("ask")),
            ("count", text("1.00")),
            ("price", text("0.04")),
            ("time_in_force", text("fill_or_kill")),
            ("self_trade_prevention_type", text("maker")),
            ("client_order_id", text("c")),
        ]
    };
    assert_eq!(order(None), object(members()));
    let mut sharded = members();
    sharded.push(("exchange_index", Json::Int(3)));
    assert_eq!(order(Some(3)), object(sharded));

    let amend = V2AmendOrder {
        ticker: "T".into(),
        side: V2Side::Bid,
        price: "0.25".into(),
        count: "2.00".into(),
        client_order_id: None,
        updated_client_order_id: Some("u".into()),
        exchange_index: None,
    };
    assert_eq!(
        amend.to_json(),
        object(vec![
            ("ticker", text("T")),
            ("side", text("bid")),
            ("price", text("0.25")),
            ("count", text("2.00")),
            ("updated_client_order_id", text("u")),
        ])
    );
}

#[test]
fn written_records_read_back() {
    let written = market("M");
    let read: Market = decode(&written.to_json()).unwrap();
    assert_eq!(read.to_json(), written.to_json());
    assert_eq!(read.exchange_index, Some(3));

    let order = OrderRecord {
        order_id: "o".into(),
        client_order_id: None,
        status: "resting".into(),
        ticker: "T".into(),
        count: Some(5),
        filled_count: None,
        remaining_count: Some(0),
        initial_count_fp: Some("9.00".into()),
        remaining_count_fp: None,
        fill_count_fp: None,
        yes_price_dollars: None,
        no_price_dollars: Some("0.1".into()),
    };
    let read: OrderRecord = decode(&order.to_json()).unwrap();
    assert_eq!(read.to_json(), order.to_json());
    assert_eq!(read.remaining_count, Some(0));

    let trade_json = object(vec![
        ("ticker", text("T")),
        ("trade_id", text("t")),
        ("created_time", text("now")),
        ("yes_price", Json::Int(52)),
        ("no_price", Json::Int(48)),
        ("count", Json::Int(3)),
        ("taker_side", text("yes")),
    ]);
    let trade: KalshiTrade = decode(&trade_json).unwrap();
    let read: KalshiTrade = decode(&trade.to_json()).unwrap();
    assert_eq!(read.to_json(), trade.to_json());

    let book = OrderbookSnapshot { yes: vec![[4, 10]], no: vec![] };
    let levels = Json::Array(vec![Json::Array(vec![Json::Int(4), Json::Int(10)])]);
    match book.to_json() {
        Json::Object(members) => {
            assert_eq!(members.len(), 2);
            assert_eq!(members[0].1, levels);
            assert_eq!(members[1].1, Json::Array(vec![]));
        }
        _ => panic!("expected an object"),
    }
}

#[test]
fn market_prices_prefer_the_dollar_strings() {
    let m = market("M");
    assert_eq!(m.yes_bid_cents(), Some(52));
    assert_eq!(m.yes_ask_cents(), None);
    assert_eq!(m.no_bid_cents(), Some(7));
    assert_eq!(m.no_ask_cents(), Some(7));
    assert_eq!(m.last_price_cents(), Some(9));
}

#[test]
fn positions_that_cannot_be_read_count_zero() {
    let p: MarketPosition = decode(&object(vec![
        ("ticker", text("T")),
        ("position_fp", text("x")),
    ]))
    .unwrap();
    assert_eq!(p.position_contracts(), 0);
}

#[test]
fn acks_are_empty_by_default() {
    let cancelled = V2CancelAck::default();
    assert!(cancelled.order_id.is_none() && cancelled.ts_ms.is_none());
    let amended = V2AmendAck::default();
    assert!(amended.order_id.is_none() && amended.remaining_count.is_none());
    let decoded: V2AmendAck = decode(&object(vec![])).unwrap();
    assert!(decoded.order_id.is_none());
}

#[test]
fn an_envelope_needs_its_tag_and_its_message() {
    let missing = WsEnvelope::from_json(object(vec![("type", text("fill"))])).unwrap_err();
    assert_eq!(missing, DecodeError::MissingField("msg"));
    let missing = WsEnvelope::from_json(object(vec![("msg", Json::Null)])).unwrap_err();
    assert_eq!(missing, DecodeError::MissingField("type"));
    let env = WsEnvelope::from_json(object(vec![
        ("sid", Json::Int(2)),
        ("msg", Json::Null),
        ("type", text("pong")),
    ]))
    .unwrap();
    assert_eq!(env.msg_type, "pong");
    assert_eq!(env.msg, Json::Null);
    assert!(matches!(WsMessage::from_envelope(env), Ok(WsMessage::Other)));
}

#[test]
fn a_known_tag_with_a_bad_message_is_an_error() {
    for tag in ["ticker", "trade", "orderbook_snapshot", "orderbook_delta", "fill"] {
        let env = WsEnvelope { msg_type: tag.into(), msg: object(vec![]) };
        assert_eq!(
            WsMessage::from_envelope(env).unwrap_err(),
            DecodeError::MissingField("market_ticker")
        );
    }
}

#[test]
fn the_last_of_a_repeated_key_counts_in_a_message() {
    let mut msg = fill();
    msg.push(("count_fp", text("8.00")));
    msg.insert(0, ("count_fp", text("x")));
    let env =
        WsEnvelope::from_json(object(vec![("type", text("fill")), ("msg", object(msg))])).unwrap();
    let Ok(WsMessage::Fill(f)) = WsMessage::from_envelope(env) else {
        panic!("expected a fill");
    };
    assert_eq!(f.count, 8);
    assert_eq!(
        settle(object(vec![("a", Json::Int(1)), ("b", Json::Int(2)), ("a", Json::Int(3))])),
        object(vec![("b", Json::Int(2)), ("a", Json::Int(3))])
    );
}

#[test]
fn an_answer_that_is_no_record_is_a_decode_error() {
    let read: Result<V2OrderResponse, KalshiError> = read_answer(&object(vec![]));
    assert_eq!(
        read.unwrap_err(),
        KalshiError::Decode(DecodeError::MissingField("order_id"))
    );
    let read: Result<V2OrderResponse, KalshiError> =
        read_answer(&object(vec![("order_id", text("o"))]));
    assert_eq!(read.unwrap().order_id, "o");
}

#[test]
fn a_list_has_a_record_for_each_element() {
    let element = |ticker: &str| object(vec![("ticker", text(ticker))]);
    let list = |elements: Vec<Json>| -> Result<MarketsResponse, DecodeError> {
        decode(&object(vec![("markets", Json::Array(elements)), ("cursor", text("c"))]))
    };
    let read = list(vec![element("A"), element("B")]).unwrap();
    let tickers: Vec<&str> = read.markets.iter().map(|m| m.ticker.as_str()).collect();
    assert_eq!(tickers, vec!["A", "B"]);
    assert_eq!(read.cursor.as_deref(), Some("c"));
    let unread = list(vec![element("A"), object(vec![]), Json::Null]).unwrap_err();
    assert_eq!(unread, DecodeError::MissingField("ticker"));
}

#[test]
fn repeated_keys_are_settled_at_every_depth() {
    let twice = |a: i64, b: i64| object(vec![("k", Json::Int(a)), ("k", Json::Int(b))]);
    let once = |b: i64| object(vec![("k", Json::Int(b))]);
    let msg = object(vec![
        ("list", Json::Array(vec![twice(1, 2), Json::Array(vec![twice(3, 4)]), Json::Null])),
        ("inner", twice(5, 6)),
        ("inner", object(vec![("deep", twice(7, 8))])),
    ]);
    let env = WsEnvelope::from_json(object(vec![("msg", msg), ("type", text("x"))])).unwrap();
    assert_eq!(
        env.msg,
        object(vec![
            ("list", Json::Array(vec![once(2), Json::Array(vec![once(4)]), Json::Null])),
            ("inner", object(vec![("deep", once(8))])),
        ])
    );
}

#[test]
fn garbled_prices_do_not_decode() {
    for price in ["0.5x", "--0.52", "1.2.3"] {
        let mut members = fill();
        members.push(("no_price_dollars", text(price)));
        let record: Result<WsFill, DecodeError> = decode(&object(members));
        assert_eq!(record.unwrap_err(), DecodeError::UnparseablePrice(price.into()));
        let mut m = market("M");
        m.yes_bid_dollars = Some(price.into());
        assert_eq!(m.yes_bid_cents(), Some(24));
    }
}

#[test]
fn a_market_without_a_shard_is_written_without_one() {
    let keys = |m: &Market| match m.to_json() {
        Json::Object(members) => members.into_iter().map(|(k, _)| k).collect::<Vec<String>>(),
        _ => panic!("expected an object"),
    };
    let mut m = market("M");
    assert_eq!(keys(&m).len(), 19);
    assert_eq!(keys(&m)[18], "exchange_index");
    m.exchange_index = None;
    assert_eq!(keys(&m).len(), 18);
    assert_eq!(keys(&m)[17], "last_price_dollars");
    let read: Market = decode(&m.to_json()).unwrap();
    assert_eq!(read.exchange_index, None);
    assert_eq!(read.to_json(), m.to_json());
}
