//! What the venue sends and what it is sent, in the shapes of its wire.

use ruvector_kalshi::decode::decode;
use ruvector_kalshi::encode::ToJson;
use ruvector_kalshi::json::Json;
use ruvector_kalshi::models::{
    cents_to_dollars_str, contracts_to_count_fp, count_fp_str_to_contracts, dollars_str_to_cents,
    BalanceResponse, FillsResponse, Market, MarketPosition, OrderAck, OrderRecord,
    OrderbookResponse, OrdersResponse, PositionsResponse, RestFill, SelfTradePreventionType,
    TimeInForce, V2CancelAck, V2CreateOrderRequest, V2OrderResponse, V2Side, WsEnvelope, WsMessage,
};
use ruvector_kalshi::walk::{CursorWalk, WalkStep};

fn json_of(value: serde_json::Value) -> Json {
    match value {
        serde_json::Value::Null => Json::Null,
        serde_json::Value::Bool(b) => Json::Bool(b),
        serde_json::Value::Number(n) => match n.as_i64() {
            Some(i) => Json::Int(i),
            None => Json::Number(n.to_string()),
        },
        serde_json::Value::String(s) => Json::Str(s),
        serde_json::Value::Array(elements) => {
            Json::Array(elements.into_iter().map(json_of).collect())
        }
        serde_json::Value::Object(members) => {
            Json::Object(members.into_iter().map(|(k, v)| (k, json_of(v))).collect())
        }
    }
}

fn value_of(json: Json) -> serde_json::Value {
    match json {
        Json::Null => serde_json::Value::Null,
        Json::Bool(b) => serde_json::Value::Bool(b),
        Json::Int(i) => serde_json::Value::from(i),
        Json::Number(n) => serde_json::from_str(&n).unwrap(),
        Json::Str(s) => serde_json::Value::String(s),
        Json::Array(elements) => {
            serde_json::Value::Array(elements.into_iter().map(value_of).collect())
        }
        Json::Object(members) => {
            serde_json::Value::Object(members.into_iter().map(|(k, v)| (k, value_of(v))).collect())
        }
    }
}

fn read(text: &str) -> Json {
    json_of(serde_json::from_str(text).unwrap())
}

fn write(record: &impl ToJson) -> String {
    serde_json::to_string(&value_of(record.to_json())).unwrap()
}

fn frame(text: &str) -> WsMessage {
    let env = WsEnvelope::from_json(read(text)).expect("envelope must parse");
    WsMessage::from_envelope(env).expect("frame must decode")
}

#[test]
fn market_deserializes_with_optional_fields() {
    let json = r#"{
        "ticker": "FED-23DEC-T3.00",
        "title": "Fed raises rates",
        "status": "active",
        "yes_bid": 24,
        "yes_ask": 26,
        "volume": 1200
    }"#;
    let m: Market = decode(&read(json)).unwrap();
    assert_eq!(m.ticker, "FED-23DEC-T3.00");
    assert_eq!(m.yes_bid, Some(24));
    assert!(m.no_bid.is_none());
}

#[test]
fn ws_message_dispatch() {
    let json = r#"{"type":"ticker","msg":{"market_ticker":"X","yes_bid_dollars":"0.10","yes_ask_dollars":"0.12"}}"#;
    let env = WsEnvelope::from_json(read(json)).unwrap();
    let msg = WsMessage::from_envelope(env).unwrap();
    assert!(
        matches!(msg, WsMessage::Ticker(ref t) if t.market_ticker == "X" && t.yes_bid == Some(10) && t.yes_ask == Some(12))
    );
}

#[test]
fn ws_message_unknown_kind_does_not_error() {
    let json = r#"{"type":"heartbeat","msg":{}}"#;
    let env = WsEnvelope::from_json(read(json)).unwrap();
    let msg = WsMessage::from_envelope(env).unwrap();
    assert!(matches!(msg, WsMessage::Other));
}

#[test]
fn ws_fill_parses_trade_id_ts_ms_and_post_position_fp() {
    let json = r#"{
        "type":"fill",
        "msg":{
            "market_ticker":"HIGHNY-22DEC23-B53.5",
            "order_id":"ee587a1c-8b87-4dcf-b721-9f6f790619fa",
            "yes_price_dollars":"0.750",
            "count_fp":"278.00",
            "side":"yes",
            "trade_id":"d91bc706-ee49-470d-82d8-11418bda6fed",
            "ts":1671899397,
            "ts_ms":1671899397000,
            "post_position_fp":"500.00"
        }
    }"#;
    let env = WsEnvelope::from_json(read(json)).unwrap();
    let WsMessage::Fill(f) = WsMessage::from_envelope(env).unwrap() else {
        panic!("expected WsMessage::Fill");
    };
    assert_eq!(f.yes_price, Some(75), "yes_price_dollars 0.750 → 75¢");
    assert_eq!(f.count, 278, "count_fp 278.00 → 278 contracts");
    assert_eq!(
        f.trade_id.as_deref(),
        Some("d91bc706-ee49-470d-82d8-11418bda6fed"),
        "trade_id is the per-fill dedup identity (NOT order_id)"
    );
    assert_eq!(f.ts_ms, Some(1_671_899_397_000), "ts_ms is milliseconds");
    assert_eq!(
        f.ts,
        Some(1_671_899_397),
        "ts is retained for backward-compat (deprecated seconds)"
    );
    assert_eq!(f.post_position_fp.as_deref(), Some("500.00"));
}

#[test]
fn ws_fill_legacy_frame_without_new_fields_still_decodes() {
    let json = r#"{"type":"fill","msg":{"market_ticker":"X","order_id":"o","count_fp":"1.00","side":"yes"}}"#;
    let env = WsEnvelope::from_json(read(json)).unwrap();
    let WsMessage::Fill(f) = WsMessage::from_envelope(env).unwrap() else {
        panic!("expected WsMessage::Fill");
    };
    assert_eq!(f.count, 1);
    assert!(f.yes_price.is_none());
    assert!(f.trade_id.is_none());
    assert!(f.ts_ms.is_none());
    assert!(f.post_position_fp.is_none());
    assert!(f.fee_cost.is_none(), "absent fee_cost decodes to None (backward-compat)");
}

#[test]
fn v2_create_order_request_serializes_to_the_wire_shape() {
    let o = V2CreateOrderRequest {
        ticker: "KXMLBGAME-X".into(),
        side: V2Side::Bid,
        count: contracts_to_count_fp(10),
        price: cents_to_dollars_str(56),
        time_in_force: TimeInForce::GoodTillCanceled,
        self_trade_prevention_type: SelfTradePreventionType::TakerAtCross,
        client_order_id: "abc".into(),
        exchange_index: None,
    };
    let s = write(&o);
    assert!(s.contains("\"side\":\"bid\""), "{s}");
    assert!(s.contains("\"count\":\"10.00\""), "{s}");
    assert!(s.contains("\"price\":\"0.56\""), "{s}");
    assert!(s.contains("\"time_in_force\":\"good_till_canceled\""), "{s}");
    assert!(
        s.contains("\"self_trade_prevention_type\":\"taker_at_cross\""),
        "{s}"
    );
    assert!(s.contains("\"client_order_id\":\"abc\""), "{s}");
    assert!(!s.contains("\"action\""), "{s}");
    assert!(!s.contains("\"type\""), "{s}");
    assert!(!s.contains("yes_price"), "{s}");
}

#[test]
fn v2_create_order_request_ask_ioc_serializes() {
    let o = V2CreateOrderRequest {
        ticker: "T".into(),
        side: V2Side::Ask,
        count: contracts_to_count_fp(1),
        price: cents_to_dollars_str(4),
        time_in_force: TimeInForce::ImmediateOrCancel,
        self_trade_prevention_type: SelfTradePreventionType::TakerAtCross,
        client_order_id: "cli-2".into(),
        exchange_index: None,
    };
    let s = write(&o);
    assert!(s.contains("\"side\":\"ask\""), "{s}");
    assert!(s.contains("\"price\":\"0.04\""), "{s}");
    assert!(s.contains("\"time_in_force\":\"immediate_or_cancel\""), "{s}");
    assert!(s.contains("\"client_order_id\":\"cli-2\""), "{s}");
}

#[test]
fn v2_order_response_decodes_lightweight_create_ack() {
    let json = r#"{"order_id":"abc-123","fill_count":"0.00","remaining_count":"1.00","ts_ms":1750000000000}"#;
    let resp: V2OrderResponse = decode(&read(json)).expect("v2 create ack decodes");
    assert_eq!(resp.order_id, "abc-123");
    assert_eq!(resp.remaining_count.as_deref(), Some("1.00"));
}

#[test]
fn v2_cancel_ack_decodes_lightweight_and_empty() {
    let full: V2CancelAck =
        decode(&read(r#"{"order_id":"o-1","reduced_by":"1.00","ts_ms":1}"#)).unwrap();
    assert_eq!(full.order_id.as_deref(), Some("o-1"));
    let empty: V2CancelAck = decode(&read("{}")).unwrap();
    assert!(empty.order_id.is_none());
}

#[test]
fn order_record_decodes_post_migration_order_ack() {
    let json = r#"{"order":{
        "action":"buy","book_side":"bid",
        "client_order_id":"demo-rung3-x","created_time":"2026-06-14T18:00:00Z",
        "fill_count_fp":"0.00","initial_count_fp":"1.00","remaining_count_fp":"1.00",
        "no_price_dollars":"0.7000","yes_price_dollars":"0.3000",
        "order_id":"abc-123","outcome_side":"yes","side":"yes","status":"resting",
        "subaccount_number":0,"ticker":"KXMLBGAME-X","type":"limit","user_id":"u-1"
    }}"#;
    let ack: OrderAck = decode(&read(json)).expect("order ack must decode");
    assert_eq!(ack.order.order_id, "abc-123");
    assert_eq!(ack.order.status, "resting");
    assert_eq!(ack.order.count, None);
    assert_eq!(ack.order.initial_count_fp.as_deref(), Some("1.00"));
    assert_eq!(ack.order.yes_price_dollars.as_deref(), Some("0.3000"));
    assert_eq!(ack.order.contract_count(), 1);
}

#[test]
fn contract_count_prefers_legacy_then_fixed_point() {
    let legacy = OrderRecord {
        order_id: "o".into(),
        client_order_id: None,
        status: "resting".into(),
        ticker: "T".into(),
        count: Some(5),
        filled_count: None,
        remaining_count: None,
        initial_count_fp: Some("9.00".into()),
        remaining_count_fp: None,
        fill_count_fp: None,
        yes_price_dollars: None,
        no_price_dollars: None,
    };
    assert_eq!(legacy.contract_count(), 5);
    let migrated = OrderRecord {
        count: None,
        initial_count_fp: Some("3.00".into()),
        ..legacy.clone()
    };
    assert_eq!(migrated.contract_count(), 3);
    let neither = OrderRecord {
        count: None,
        initial_count_fp: None,
        ..legacy
    };
    assert_eq!(neither.contract_count(), 0);
}

#[test]
fn orderbook_decodes_post_migration_fp_wrapper() {
    let json = r#"{"orderbook_fp":{
        "no_dollars":[["0.0400","10.00"],["0.4300","3.00"]],
        "yes_dollars":[["0.4400","3.00"],["0.4800","3.00"],["0.5200","6.00"]]
    }}"#;
    let resp: OrderbookResponse = decode(&read(json)).expect("orderbook must decode");
    assert_eq!(resp.orderbook.yes, vec![[44, 3], [48, 3], [52, 6]]);
    assert_eq!(resp.orderbook.no, vec![[4, 10], [43, 3]]);
}

#[test]
fn market_decodes_post_migration_dollar_prices() {
    let json = r#"{
        "ticker":"KXMLBGAME-26JUN171410DETHOU-HOU","status":"active",
        "yes_bid":null,"yes_ask":null,"no_bid":null,"last_price":null,
        "yes_bid_dollars":"0.5200","last_price_dollars":"0.0000","volume":null
    }"#;
    let m: Market = decode(&read(json)).expect("market must decode");
    assert_eq!(m.yes_bid, None);
    assert_eq!(m.yes_bid_cents(), Some(52));
    assert_eq!(m.last_price_cents(), Some(0));
    assert_eq!(m.no_bid_cents(), None);
}

#[test]
fn balance_response_decodes_integer_cents() {
    let json = r#"{
        "balance": 100000,
        "balance_dollars": "1000.00",
        "portfolio_value": 150000,
        "updated_ts": 1678886400,
        "balance_breakdown": [{"exchange_index": 0, "balance": "500.00"}]
    }"#;
    let r: BalanceResponse = decode(&read(json)).expect("balance must decode");
    assert_eq!(r.balance, 100000);
    assert_eq!(r.portfolio_value, 150000);
    assert_eq!(r.balance_dollars.as_deref(), Some("1000.00"));
    assert_eq!(r.updated_ts, Some(1678886400));
}

#[test]
fn positions_response_decodes_fixed_point_and_ignores_event_positions() {
    let json = r#"{
        "market_positions": [{
            "ticker": "KXMLBGAME-26JUN23DETHOU-HOU",
            "position_fp": "10.00",
            "market_exposure_dollars": "5.2000",
            "total_traded_dollars": "5.2000",
            "realized_pnl_dollars": "0.0000",
            "resting_orders_count": 0,
            "fees_paid_dollars": "0.0700",
            "last_updated_ts": "2026-06-23T18:00:00Z"
        }],
        "event_positions": [],
        "cursor": ""
    }"#;
    let r: PositionsResponse = decode(&read(json)).expect("positions must decode");
    assert_eq!(r.market_positions.len(), 1);
    let p = &r.market_positions[0];
    assert_eq!(p.ticker, "KXMLBGAME-26JUN23DETHOU-HOU");
    assert_eq!(p.position_contracts(), 10);
    assert_eq!(p.total_traded_dollars.as_deref(), Some("5.2000"));
    assert_eq!(r.cursor.as_deref(), Some(""));
}

#[test]
fn market_position_short_is_signed() {
    let json = r#"{"ticker":"T","position_fp":"-3.00"}"#;
    let p: MarketPosition = decode(&read(json)).expect("short position decodes");
    assert_eq!(p.position_contracts(), -3);
    let empty: MarketPosition = decode(&read(r#"{"ticker":"T"}"#)).unwrap();
    assert_eq!(empty.position_contracts(), 0);
}

#[test]
fn fills_response_decodes_with_ts_not_ts_ms_and_canonical_direction() {
    let json = r#"{
        "fills": [{
            "fill_id": "f-1",
            "trade_id": "f-1",
            "order_id": "o-1",
            "ticker": "KXMLBGAME-26JUN23DETHOU-HOU",
            "market_ticker": "KXMLBGAME-26JUN23DETHOU-HOU",
            "side": "yes",
            "action": "buy",
            "outcome_side": "yes",
            "book_side": "bid",
            "count_fp": "1.00",
            "yes_price_dollars": "0.5200",
            "no_price_dollars": "0.4800",
            "is_taker": true,
            "fee_cost": "0.0100",
            "created_time": "2026-06-23T18:00:00Z",
            "ts": 1678886400
        }],
        "cursor": ""
    }"#;
    let r: FillsResponse = decode(&read(json)).expect("fills must decode");
    assert_eq!(r.fills.len(), 1);
    let f = &r.fills[0];
    assert_eq!(f.fill_id, "f-1");
    assert_eq!(f.order_id, "o-1");
    assert_eq!(count_fp_str_to_contracts(f.count_fp.as_deref().unwrap()), Some(1));
    assert_eq!(
        dollars_str_to_cents(f.yes_price_dollars.as_deref().unwrap()),
        Some(52)
    );
    assert_eq!(f.outcome_side.as_deref(), Some("yes"));
    assert_eq!(f.book_side.as_deref(), Some("bid"));
    assert_eq!(f.is_taker, Some(true));
    assert_eq!(f.ts, Some(1678886400));
}

#[test]
fn orders_response_decodes_live_resting_page() {
    let json = r#"{
        "orders": [{
            "order_id": "a1b2c3d4-0001",
            "user_id": "u-1",
            "client_order_id": "sona-exit-42",
            "ticker": "KXMLBGAME-26JUL06TBKC-TB",
            "side": "yes",
            "action": "buy",
            "outcome_side": "yes",
            "book_side": "bid",
            "type": "limit",
            "status": "resting",
            "yes_price_dollars": "0.4200",
            "no_price_dollars": "0.5800",
            "fill_count_fp": "0.00",
            "remaining_count_fp": "1.00",
            "initial_count_fp": "1.00",
            "taker_fill_cost_dollars": "0.0000",
            "maker_fill_cost_dollars": "0.0000",
            "taker_fees_dollars": "0.0000",
            "maker_fees_dollars": "0.0000",
            "created_time": "2026-07-06T19:00:00Z",
            "last_update_time": "2026-07-06T19:00:00Z"
        }],
        "cursor": "next-page-token"
    }"#;
    let r: OrdersResponse = decode(&read(json)).expect("orders page must decode");
    assert_eq!(r.orders.len(), 1);
    let o = &r.orders[0];
    assert_eq!(o.order_id, "a1b2c3d4-0001");
    assert_eq!(o.status, "resting");
    assert_eq!(o.ticker, "KXMLBGAME-26JUL06TBKC-TB");
    assert_eq!(o.count, None);
    assert_eq!(o.contract_count(), 1);
    assert_eq!(o.remaining_count_fp.as_deref(), Some("1.00"));
    assert_eq!(r.cursor.as_deref(), Some("next-page-token"));
}

#[test]
fn orders_response_empty_page_decodes() {
    let r: OrdersResponse =
        decode(&read(r#"{"orders": [], "cursor": ""}"#)).expect("empty page decodes");
    assert!(r.orders.is_empty());
    assert_eq!(r.cursor.as_deref(), Some(""));
}

#[test]
fn positions_page_one_has_next_cursor() {
    let json = r#"{
        "market_positions": [{
            "ticker": "KXMLBGAME-26JUL10NYYBOS-NYY",
            "position_fp": "10.00",
            "market_exposure_dollars": "5.2000",
            "total_traded_dollars": "5.2000",
            "realized_pnl_dollars": "0.0000",
            "resting_orders_count": 0,
            "fees_paid_dollars": "0.0700",
            "last_updated_ts": "2026-07-10T18:00:00Z"
        }],
        "event_positions": [{
            "event_ticker": "KXMLBGAME-26JUL10NYYBOS",
            "total_cost_dollars": "5.2000",
            "total_cost_shares_fp": "10.00",
            "event_exposure_dollars": "5.2000",
            "realized_pnl_dollars": "0.0000",
            "fees_paid_dollars": "0.0700"
        }],
        "cursor": "pos-page-2-token"
    }"#;
    let r: PositionsResponse = decode(&read(json)).expect("positions page 1 decodes");
    assert_eq!(r.market_positions.len(), 1);
    let p = &r.market_positions[0];
    assert_eq!(p.ticker, "KXMLBGAME-26JUL10NYYBOS-NYY");
    assert_eq!(p.position_contracts(), 10);
    assert_eq!(p.total_traded_dollars.as_deref(), Some("5.2000"));
    assert_eq!(r.cursor.as_deref(), Some("pos-page-2-token"));
}

#[test]
fn positions_page_two_terminates_walk() {
    let json = r#"{
        "market_positions": [{
            "ticker": "KXMLBGAME-26JUL10LADSF-SF",
            "position_fp": "-3.00",
            "market_exposure_dollars": "1.4400",
            "total_traded_dollars": "1.4400",
            "realized_pnl_dollars": "0.0000",
            "fees_paid_dollars": "0.0200",
            "last_updated_ts": "2026-07-10T18:05:00Z"
        }],
        "event_positions": [],
        "cursor": ""
    }"#;
    let r: PositionsResponse = decode(&read(json)).expect("positions page 2 decodes");
    assert_eq!(r.market_positions.len(), 1);
    assert_eq!(r.market_positions[0].position_contracts(), -3);
    assert_eq!(r.cursor.as_deref(), Some(""));

    let no_cursor: PositionsResponse =
        decode(&read(r#"{"market_positions": []}"#)).expect("absent cursor decodes");
    assert!(no_cursor.market_positions.is_empty());
    assert_eq!(no_cursor.cursor.as_deref(), None);
}

#[test]
fn positions_walk_over_decoded_pages_concatenates_and_stops() {
    let page1 = r#"{
        "market_positions": [{"ticker": "A", "position_fp": "10.00"}],
        "event_positions": [],
        "cursor": "pos-page-2-token"
    }"#;
    let page2 = r#"{
        "market_positions": [{"ticker": "B", "position_fp": "-3.00"}],
        "event_positions": [],
        "cursor": ""
    }"#;
    let pages = [page1, page2];

    let mut all: Vec<MarketPosition> = Vec::new();
    let mut walk = CursorWalk::all_positions();
    let mut consumed = 0usize;
    for raw in pages {
        let page: PositionsResponse = decode(&read(raw)).expect("page decodes");
        consumed += 1;
        match walk.step(page.market_positions, page.cursor).expect("walk goes on") {
            WalkStep::Done(items) => {
                all = items;
                break;
            }
            WalkStep::More(next) => walk = next,
        }
    }
    assert_eq!(consumed, 2);
    assert_eq!(all.len(), 2);
    assert_eq!(all[0].ticker, "A");
    assert_eq!(all[1].ticker, "B");
    assert_eq!(all[1].position_contracts(), -3);
}

#[test]
fn fills_page_one_has_next_cursor() {
    let json = r#"{
        "fills": [{
            "fill_id": "f-1",
            "trade_id": "f-1",
            "order_id": "o-1",
            "ticker": "KXMLBGAME-26JUL10NYYBOS-NYY",
            "market_ticker": "KXMLBGAME-26JUL10NYYBOS-NYY",
            "side": "yes",
            "action": "buy",
            "outcome_side": "yes",
            "book_side": "bid",
            "count_fp": "1.00",
            "yes_price_dollars": "0.5200",
            "no_price_dollars": "0.4800",
            "is_taker": true,
            "fee_cost": "0.0100",
            "created_time": "2026-07-10T18:00:00Z",
            "ts": 1752170400
        }],
        "cursor": "fill-page-2-token"
    }"#;
    let r: FillsResponse = decode(&read(json)).expect("fills page 1 decodes");
    assert_eq!(r.fills.len(), 1);
    let f = &r.fills[0];
    assert_eq!(f.fill_id, "f-1");
    assert_eq!(f.order_id, "o-1");
    assert_eq!(count_fp_str_to_contracts(f.count_fp.as_deref().unwrap()), Some(1));
    assert_eq!(f.fee_cost.as_deref(), Some("0.0100"));
    assert_eq!(f.outcome_side.as_deref(), Some("yes"));
    assert_eq!(f.book_side.as_deref(), Some("bid"));
    assert_eq!(r.cursor.as_deref(), Some("fill-page-2-token"));
}

#[test]
fn fills_page_two_terminates_walk() {
    let json = r#"{
        "fills": [{
            "fill_id": "f-2",
            "trade_id": "f-2",
            "order_id": "o-2",
            "ticker": "KXMLBGAME-26JUL10LADSF-SF",
            "market_ticker": "KXMLBGAME-26JUL10LADSF-SF",
            "side": "no",
            "action": "sell",
            "outcome_side": "no",
            "book_side": "ask",
            "count_fp": "2.00",
            "yes_price_dollars": "0.6100",
            "no_price_dollars": "0.3900",
            "is_taker": false,
            "fee_cost": "0.0200",
            "created_time": "2026-07-10T18:05:00Z",
            "ts": 1752170700
        }],
        "cursor": ""
    }"#;
    let r: FillsResponse = decode(&read(json)).expect("fills page 2 decodes");
    assert_eq!(r.fills.len(), 1);
    assert_eq!(r.fills[0].fill_id, "f-2");
    assert_eq!(r.fills[0].outcome_side.as_deref(), Some("no"));
    assert_eq!(r.cursor.as_deref(), Some(""));

    let no_cursor: FillsResponse =
        decode(&read(r#"{"fills": []}"#)).expect("absent cursor decodes");
    assert!(no_cursor.fills.is_empty());
    assert_eq!(no_cursor.cursor.as_deref(), None);
}

#[test]
fn fills_walk_over_decoded_pages_concatenates_and_stops() {
    let page1 = r#"{
        "fills": [{"fill_id": "f-1", "order_id": "o-1", "ticker": "A", "count_fp": "1.00"}],
        "cursor": "fill-page-2-token"
    }"#;
    let page2 = r#"{
        "fills": [{"fill_id": "f-2", "order_id": "o-2", "ticker": "B", "count_fp": "2.00"}],
        "cursor": ""
    }"#;
    let pages = [page1, page2];

    let mut all: Vec<RestFill> = Vec::new();
    let mut walk = CursorWalk::all_fills();
    let mut consumed = 0usize;
    for raw in pages {
        let page: FillsResponse = decode(&read(raw)).expect("page decodes");
        consumed += 1;
        match walk.step(page.fills, page.cursor).expect("walk goes on") {
            WalkStep::Done(items) => {
                all = items;
                break;
            }
            WalkStep::More(next) => walk = next,
        }
    }
    assert_eq!(consumed, 2);
    assert_eq!(all.len(), 2);
    assert_eq!(all[0].fill_id, "f-1");
    assert_eq!(all[1].fill_id, "f-2");
}

#[test]
fn ticker_frame_decodes_dollar_prices_to_cents() {
    let json = r#"{
        "type":"ticker","sid":12345,
        "msg":{
            "market_ticker":"FED-23DEC-T3.00",
            "market_id":"a1b2c3d4-e5f6-7890-1234-567890abcdef",
            "price_dollars":"0.500000",
            "yes_bid_dollars":"0.495000",
            "yes_ask_dollars":"0.505000",
            "volume_fp":"1500.00",
            "ts_ms":1678886400000
        }
    }"#;
    let WsMessage::Ticker(t) = frame(json) else {
        panic!("expected Ticker");
    };
    assert_eq!(t.market_ticker, "FED-23DEC-T3.00");
    assert_eq!(t.yes_bid, Some(50), "0.495000 → 50¢ (half-up)");
    assert_eq!(t.yes_ask, Some(51), "0.505000 → 51¢ (half-up)");
    assert_eq!(t.price, Some(50), "0.500000 → 50¢");
    assert_eq!(t.ts_ms, Some(1678886400000));
}

#[test]
fn trade_frame_decodes_dollar_prices_and_count_fp() {
    let json = r#"{
        "type":"trade","sid":11,
        "msg":{
            "trade_id":"d91bc706-ee49-470d-82d8-11418bda6fed",
            "market_ticker":"HIGHNY-22DEC23-B53.5",
            "yes_price_dollars":"0.360",
            "no_price_dollars":"0.640",
            "count_fp":"136.00",
            "taker_side":"no",
            "ts":1669149841,
            "ts_ms":1669149841000
        }
    }"#;
    let WsMessage::Trade(t) = frame(json) else {
        panic!("expected Trade");
    };
    assert_eq!(t.yes_price, Some(36), "0.360 → 36¢");
    assert_eq!(t.no_price, Some(64), "0.640 → 64¢");
    assert_eq!(t.count, 136, "count_fp 136.00 → 136");
    assert_eq!(t.taker_side.as_deref(), Some("no"));
    assert_eq!(t.ts, Some(1669149841));
    assert_eq!(t.ts_ms, Some(1669149841000));
}

#[test]
fn orderbook_snapshot_frame_decodes_dollar_fp_levels() {
    let json = r#"{
        "type":"orderbook_snapshot","sid":2,"seq":2,
        "msg":{
            "market_ticker":"FED-23DEC-T3.00",
            "market_id":"9b0f6b43-5b68-4f9f-9f02-9a2d1b8ac1a1",
            "yes_dollars_fp":[["0.0800","300.00"],["0.2200","333.00"]],
            "no_dollars_fp":[["0.5400","20.00"],["0.5600","146.00"]]
        }
    }"#;
    let WsMessage::OrderbookSnapshot(ob) = frame(json) else {
        panic!("expected OrderbookSnapshot");
    };
    assert_eq!(ob.market_ticker, "FED-23DEC-T3.00");
    assert_eq!(ob.yes, vec![[8, 300], [22, 333]]);
    assert_eq!(ob.no, vec![[54, 20], [56, 146]]);
    assert!(ob.ts_ms.is_none());
    assert!(ob.ts.is_none());
}

#[test]
fn orderbook_delta_frame_decodes_and_rfc3339_ts_does_not_break() {
    let json = r#"{
        "type":"orderbook_delta","sid":2,"seq":3,
        "msg":{
            "market_ticker":"FED-23DEC-T3.00",
            "market_id":"9b0f6b43-5b68-4f9f-9f02-9a2d1b8ac1a1",
            "price_dollars":"0.960",
            "delta_fp":"-54.00",
            "side":"yes",
            "ts":"2022-11-22T20:44:01Z",
            "ts_ms":1669149841000
        }
    }"#;
    let WsMessage::OrderbookDelta(d) = frame(json) else {
        panic!("expected OrderbookDelta");
    };
    assert_eq!(d.price, 96, "0.960 → 96¢");
    assert_eq!(d.delta, -54, "delta_fp -54.00 → -54 (signed)");
    assert_eq!(d.side, "yes");
    assert_eq!(d.ts_ms, Some(1669149841000));
}

#[test]
fn fill_frame_decodes_yes_price_dollars_to_75_cents() {
    let json = r#"{
        "type":"fill","sid":13,
        "msg":{
            "trade_id":"d91bc706-ee49-470d-82d8-11418bda6fed",
            "order_id":"ee587a1c-8b87-4dcf-b721-9f6f790619fa",
            "market_ticker":"HIGHNY-22DEC23-B53.5",
            "is_taker":true,
            "side":"yes",
            "yes_price_dollars":"0.750",
            "count_fp":"278.00",
            "fee_cost":"2.7800",
            "action":"buy",
            "ts":1671899397,
            "ts_ms":1671899397000,
            "post_position_fp":"500.00",
            "purchased_side":"yes",
            "subaccount":3
        }
    }"#;
    let WsMessage::Fill(f) = frame(json) else {
        panic!("expected Fill");
    };
    assert_eq!(f.yes_price, Some(75), "yes_price_dollars 0.750 → 75¢");
    assert_eq!(f.count, 278, "count_fp 278.00 → 278 contracts");
    assert_eq!(f.side, "yes");
    assert_eq!(f.order_id, "ee587a1c-8b87-4dcf-b721-9f6f790619fa");
    assert_eq!(
        f.trade_id.as_deref(),
        Some("d91bc706-ee49-470d-82d8-11418bda6fed")
    );
    assert_eq!(f.ts, Some(1671899397));
    assert_eq!(f.ts_ms, Some(1671899397000));
    assert_eq!(f.post_position_fp.as_deref(), Some("500.00"));
    assert_eq!(f.fee_cost.as_deref(), Some("2.7800"));
}

#[test]
fn missing_optional_fields_still_decode() {
    let WsMessage::Ticker(t) = frame(r#"{"type":"ticker","msg":{"market_ticker":"X"}}"#)
    else {
        panic!("expected Ticker");
    };
    assert_eq!(t.market_ticker, "X");
    assert!(t.yes_bid.is_none());
    assert!(t.yes_ask.is_none());
    assert!(t.price.is_none());
    assert!(t.ts.is_none());
    assert!(t.ts_ms.is_none());

    let WsMessage::OrderbookSnapshot(ob) = frame(
        r#"{"type":"orderbook_snapshot","msg":{"market_ticker":"X","yes_dollars_fp":[["0.99","100"]]}}"#,
    ) else {
        panic!("expected OrderbookSnapshot");
    };
    assert_eq!(ob.yes, vec![[99, 100]], "count without a decimal → 100");
    assert!(ob.no.is_empty(), "absent no_dollars_fp → empty");
}
