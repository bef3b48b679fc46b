//! The requests of the REST interface.

use ruvector_kalshi::error::KalshiError;
use ruvector_kalshi::models::{
    SelfTradePreventionType, TimeInForce, V2AmendOrder, V2CreateOrderRequest, V2Side,
};
use ruvector_kalshi::json::{DecodeError, Json};
use ruvector_kalshi::models::V2OrderResponse;
use ruvector_kalshi::rest::{
    answer, check_status, market_answer, markets_answer, orderbook_answer, require_live_flag,
    url_join, Method, PreparedRequest, RestClient,
};

const BASE: &str = "https://trading-api.kalshi.com/trade-api/v2";

fn order() -> V2CreateOrderRequest {
    V2CreateOrderRequest {
        ticker: "X".into(),
        side: V2Side::Bid,
        count: "1.00".into(),
        price: "0.24".into(),
        time_in_force: TimeInForce::GoodTillCanceled,
        self_trade_prevention_type: SelfTradePreventionType::TakerAtCross,
        client_order_id: "t-1".into(),
        exchange_index: None,
    }
}

fn amend() -> V2AmendOrder {
    V2AmendOrder {
        ticker: "X".into(),
        side: V2Side::Bid,
        price: "0.25".into(),
        count: "1.00".into(),
        client_order_id: None,
        updated_client_order_id: None,
        exchange_index: None,
    }
}

#[test]
fn url_join_handles_trailing_and_leading_slashes() {
    assert_eq!(
        url_join("https://example.com/trade-api/v2/", "/markets"),
        "https://example.com/trade-api/v2/markets"
    );
    assert_eq!(
        url_join("https://example.com/trade-api/v2", "markets"),
        "https://example.com/trade-api/v2/markets"
    );
}

#[test]
fn sig_path_uses_full_url_path() {
    let client = RestClient::new("https://trading-api.kalshi.com/trade-api/v2");
    let p = client.sig_path_for("/markets");
    assert_eq!(p, "/trade-api/v2/markets");
}

#[test]
fn post_order_refuses_without_live_flag() {
    let client = RestClient::new("https://trading-api.kalshi.com/trade-api/v2");
    let err = client.post_order(None, &order()).unwrap_err();
    match err {
        KalshiError::Api { status: 0, body } => {
            assert!(body.contains("live trading disabled"));
        }
        other => panic!("expected Api status=0 error, got {other:?}"),
    }
}

#[test]
fn cancel_order_refuses_without_live_flag() {
    let client = RestClient::new("https://trading-api.kalshi.com/trade-api/v2");
    let err = client
        .cancel_order(None, "some-order-id", None, None)
        .unwrap_err();
    assert!(matches!(err, KalshiError::Api { status: 0, .. }));
}

#[test]
fn amend_order_refuses_without_live_flag() {
    let client = RestClient::new("https://trading-api.kalshi.com/trade-api/v2");
    let err = client
        .amend_order(None, "some-order-id", &amend())
        .unwrap_err();
    assert!(matches!(err, KalshiError::Api { status: 0, .. }));
}

#[test]
fn only_the_flag_one_is_live() {
    assert!(require_live_flag(Some("1")).is_ok());
    for flag in [None, Some(""), Some("0"), Some("true"), Some("11"), Some(" 1")] {
        assert_eq!(
            require_live_flag(flag),
            Err(KalshiError::Api {
                status: 0,
                body: "live trading disabled (set KALSHI_ENABLE_LIVE=1 to enable)".into(),
            })
        );
    }
}

#[test]
fn url_join_passes_a_url_through() {
    assert_eq!(url_join("https://a.com", "http://b.com/x"), "http://b.com/x");
    assert_eq!(url_join("https://a.com", "https://b.com/"), "https://b.com/");
    assert_eq!(url_join("https://a.com", "https:/b"), "https://a.com/https:/b");
    assert_eq!(url_join("https://a.com//", ""), "https://a.com/");
    assert_eq!(url_join("", "x"), "/x");
}

#[test]
fn base_path_is_the_path_of_the_url() {
    let sig = |base: &str, path: &str| RestClient::new(base).sig_path_for(path);
    assert_eq!(sig("https://a.com/trade-api/v2///", "/markets"), "/trade-api/v2/markets");
    assert_eq!(sig("https://a.com", "markets"), "/markets");
    assert_eq!(sig("https://a.com/x?y=1#z", "/p"), "/x/p");
    assert_eq!(sig("https://a.com/a b", "/p"), "/a%20b/p");
    assert_eq!(sig("not a url", "/p"), "/p");
}

#[test]
fn base_path_of_a_given_url_path() {
    let with_path = RestClient::with_url_path("anything", Some("/v2//"));
    assert_eq!(with_path.sig_path_for("/p?q=1?r"), "/v2/p");
    let without_path = RestClient::with_url_path("anything", None);
    assert_eq!(without_path.sig_path_for("p"), "/p");
}

#[test]
fn query_is_not_signed() {
    let client = RestClient::new(BASE);
    let plain = client.list_markets(None);
    let open = client.list_markets(Some("open"));
    assert_eq!(plain.url, "https://trading-api.kalshi.com/trade-api/v2/markets");
    assert_eq!(open.url, "https://trading-api.kalshi.com/trade-api/v2/markets?status=open");
    assert_eq!(plain.sig_path, "/trade-api/v2/markets");
    assert_eq!(open.sig_path, plain.sig_path);
}

#[test]
fn cancel_names_shard_and_market_in_the_query() {
    let client = RestClient::new(BASE);
    let cancel = |shard: Option<i64>, market: Option<&str>| {
        let request = client.cancel_order(Some("1"), "o-1", shard, market).unwrap();
        assert_eq!(request.method, Method::Delete);
        assert_eq!(request.body, None);
        assert_eq!(request.sig_path, "/trade-api/v2/portfolio/events/orders/o-1");
        request.url
    };
    let url = "https://trading-api.kalshi.com/trade-api/v2/portfolio/events/orders/o-1";
    assert_eq!(cancel(None, None), url);
    assert_eq!(cancel(None, Some("")), url);
    assert_eq!(cancel(Some(3), None), format!("{url}?exchange_index=3"));
    assert_eq!(cancel(Some(-1), Some("T")), format!("{url}?exchange_index=-1&market_ticker=T"));
    assert_eq!(cancel(None, Some("T")), format!("{url}?market_ticker=T"));
}

fn check_read<R>(request: PreparedRequest<R>, url: &str) {
    assert_eq!(request.url, url);
    assert_eq!(request.method, Method::Get);
    assert_eq!(request.body, None);
}

#[test]
fn reads_name_their_paths() {
    let client = RestClient::new("https://h/v2");
    check_read(client.get_market("T"), "https://h/v2/markets/T");
    check_read(client.orderbook("T"), "https://h/v2/markets/T/orderbook");
    check_read(client.get_order("o"), "https://h/v2/portfolio/orders/o");
    check_read(client.get_balance(None), "https://h/v2/portfolio/balance");
    check_read(client.get_balance(Some(3)), "https://h/v2/portfolio/balance?exchange_index=3");
    check_read(client.get_positions(None, None), "https://h/v2/portfolio/positions");
    check_read(client.get_positions(None, Some("")), "https://h/v2/portfolio/positions");
    check_read(client.get_positions(Some("T"), Some("c")), "https://h/v2/portfolio/positions?ticker=T&cursor=c");
    check_read(client.get_fills(Some("T"), Some("o"), Some("c")), "https://h/v2/portfolio/fills?ticker=T&order_id=o&cursor=c");
    check_read(client.get_fills(None, Some("o"), Some("")), "https://h/v2/portfolio/fills?order_id=o");
    check_read(client.get_orders(Some("resting"), Some("T"), Some("c")), "https://h/v2/portfolio/orders?status=resting&ticker=T&cursor=c");
    check_read(client.get_orders(None, Some(""), Some("")), "https://h/v2/portfolio/orders?ticker=");
}

#[test]
fn orders_are_posted_with_their_bodies() {
    let client = RestClient::new("https://h/v2");
    let posted = client.post_order(Some("1"), &order()).unwrap();
    assert_eq!(posted.method, Method::Post);
    assert_eq!(posted.url, "https://h/v2/portfolio/events/orders");
    assert_eq!(posted.sig_path, "/v2/portfolio/events/orders");
    assert_eq!(posted.body, Some(ruvector_kalshi::encode::ToJson::to_json(&order())));

    let amended = client.amend_order(Some("1"), "o", &amend()).unwrap();
    assert_eq!(amended.method, Method::Post);
    assert_eq!(amended.url, "https://h/v2/portfolio/events/orders/o/amend");
    assert_eq!(amended.body, Some(ruvector_kalshi::encode::ToJson::to_json(&amend())));
}

#[test]
fn only_a_success_passes_its_body_on() {
    for status in [200u16, 201, 299] {
        assert_eq!(check_status(status, "b".into()), Ok("b".into()));
    }
    for status in [0u16, 100, 199, 300, 404, 429, 500, 65535] {
        assert_eq!(
            check_status(status, "b".into()),
            Err(KalshiError::Api { status, body: "b".into() })
        );
    }
}

#[test]
fn no_signed_path_holds_a_question_mark() {
    for base in ["https://h/v2?a=?b", "https://h/v2/?", "mailto:a?b", "data:x?y", "file:///a?b"] {
        let client = RestClient::new(base);
        for path in ["/p", "p?q", "?", "/?a?b", ""] {
            assert!(!client.sig_path_for(path).contains('?'), "{base} {path}");
            assert!(!client.clone().sig_path_for(path).contains('?'), "{base} {path}");
        }
    }
    let client = RestClient::new("https://h/v2?a");
    assert_eq!(client.sig_path_for("p"), client.sig_path_for("/p"));
    assert_eq!(client.sig_path_for("p?q?r"), "/v2/p");
}

#[test]
fn the_status_of_an_answer_is_looked_at_first() {
    let placed = Json::Object(vec![("order_id".to_string(), Json::Str("o".into()))]);
    let read = |status: u16, json: Option<&Json>| -> Result<V2OrderResponse, KalshiError> {
        answer(status, "text".into(), json)
    };
    assert_eq!(read(201, Some(&placed)).unwrap().order_id, "o");
    for status in [0u16, 199, 300, 404, 500] {
        for json in [None, Some(&placed), Some(&Json::Null)] {
            assert_eq!(
                read(status, json).unwrap_err(),
                KalshiError::Api { status, body: "text".into() }
            );
        }
    }
    assert_eq!(read(200, None).unwrap_err(), KalshiError::Decode(DecodeError::NotJson));
    assert_eq!(
        read(200, Some(&Json::Null)).unwrap_err(),
        KalshiError::Decode(DecodeError::WrongType)
    );
}

fn object(members: Vec<(&str, Json)>) -> Json {
    Json::Object(members.into_iter().map(|(k, v)| (k.to_string(), v)).collect())
}

fn text(s: &str) -> Json {
    Json::Str(s.into())
}

#[test]
fn the_answers_of_market_reads_are_unwrapped() {
    let market = |ticker: &str| object(vec![("ticker", text(ticker))]);
    let list = object(vec![
        ("markets", Json::Array(vec![market("A"), market("B")])),
        ("cursor", text("c")),
    ]);
    let markets = markets_answer(200, String::new(), Some(&list)).unwrap();
    let tickers: Vec<&str> = markets.iter().map(|m| m.ticker.as_str()).collect();
    assert_eq!(tickers, vec!["A", "B"]);

    let envelope = object(vec![("market", market("A"))]);
    assert_eq!(market_answer(200, String::new(), Some(&envelope)).unwrap().ticker, "A");

    let level = Json::Array(vec![text("0.04"), text("10.00")]);
    let book = object(vec![(
        "orderbook_fp",
        object(vec![("no_dollars", Json::Array(vec![level]))]),
    )]);
    let book = orderbook_answer(200, String::new(), Some(&book)).unwrap();
    assert_eq!(book.no, vec![[4, 10]]);
    assert!(book.yes.is_empty());
}

#[test]
fn the_answers_of_market_reads_fail_as_any_answer() {
    let refused = KalshiError::Api { status: 404, body: "gone".into() };
    assert_eq!(markets_answer(404, "gone".into(), None).unwrap_err(), refused);
    assert_eq!(market_answer(404, "gone".into(), None).unwrap_err(), refused);
    assert_eq!(orderbook_answer(404, "gone".into(), None).unwrap_err(), refused);
    let not_json = KalshiError::Decode(DecodeError::NotJson);
    assert_eq!(markets_answer(200, "<".into(), None).unwrap_err(), not_json);
    let bare = object(vec![("ticker", text("A"))]);
    assert_eq!(
        market_answer(200, String::new(), Some(&bare)).unwrap_err(),
        KalshiError::Decode(DecodeError::MissingField("market"))
    );
    assert_eq!(
        orderbook_answer(200, String::new(), Some(&bare)).unwrap_err(),
        KalshiError::Decode(DecodeError::MissingField("orderbook_fp"))
    );
}
