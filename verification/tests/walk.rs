use ruvector_kalshi::error::KalshiError;
use ruvector_kalshi::models::{MarketPosition, OrderRecord, RestFill};
use ruvector_kalshi::json::{DecodeError, Json};
use ruvector_kalshi::rest::{
    all_fills_answer, all_positions_answer, resting_orders_answer, RestClient,
};
use ruvector_kalshi::walk::{CursorWalk, WalkStep};

fn position(ticker: &str) -> MarketPosition {
    MarketPosition {
        ticker: ticker.into(),
        position_fp: None,
        market_exposure_dollars: None,
        total_traded_dollars: None,
        realized_pnl_dollars: None,
        fees_paid_dollars: None,
        last_updated_ts: None,
    }
}

fn more<T>(step: Result<WalkStep<T>, KalshiError>) -> CursorWalk<T> {
    match step {
        Ok(WalkStep::More(walk)) => walk,
        _ => panic!("expected the walk to go on"),
    }
}

#[test]
fn each_page_is_asked_for_with_the_cursor_of_the_one_before() {
    let client = RestClient::new("https://h/v2");
    let walk: CursorWalk<OrderRecord> = CursorWalk::resting_orders();
    assert_eq!(walk.cursor(), None);
    assert_eq!(
        client.get_resting_orders(Some("T"), &walk).url,
        "https://h/v2/portfolio/orders?status=resting&ticker=T"
    );
    let walk = more(walk.step(Vec::new(), Some("c1".into())));
    assert_eq!(walk.cursor(), Some("c1"));
    assert_eq!(
        client.get_resting_orders(Some("T"), &walk).url,
        "https://h/v2/portfolio/orders?status=resting&ticker=T&cursor=c1"
    );

    let walk = more(CursorWalk::all_positions().step(Vec::new(), Some("c2".into())));
    assert_eq!(
        client.get_all_positions(None, &walk).url,
        "https://h/v2/portfolio/positions?cursor=c2"
    );

    let walk = more(CursorWalk::all_fills().step(Vec::new(), Some("c3".into())));
    assert_eq!(
        client.get_all_fills(None, Some("o"), &walk).url,
        "https://h/v2/portfolio/fills?order_id=o&cursor=c3"
    );
}

#[test]
fn a_walk_gathers_the_items_of_all_pages_in_order() {
    for last in [None, Some(String::new())] {
        let walk = more(
            CursorWalk::all_positions().step(vec![position("A"), position("B")], Some("c".into())),
        );
        let walk = more(walk.step(Vec::new(), Some("d".into())));
        match walk.step(vec![position("C")], last) {
            Ok(WalkStep::Done(items)) => {
                let tickers: Vec<&str> = items.iter().map(|p| p.ticker.as_str()).collect();
                assert_eq!(tickers, vec!["A", "B", "C"]);
            }
            _ => panic!("expected the walk to end"),
        }
    }
}

#[test]
fn a_walk_may_end_on_its_last_page() {
    let mut walk: CursorWalk<MarketPosition> = CursorWalk::all_positions();
    for _ in 1..RestClient::POSITIONS_WALK_MAX_PAGES {
        walk = more(walk.step(vec![position("A")], Some("c".into())));
    }
    match walk.step(vec![position("Z")], None) {
        Ok(WalkStep::Done(items)) => assert_eq!(items.len(), 50),
        _ => panic!("expected the walk to end"),
    }
}

fn refusal<T>(walk: CursorWalk<T>, pages: usize) -> String {
    let mut walk = walk;
    for _ in 1..pages {
        walk = more(walk.step(Vec::new(), Some("c".into())));
    }
    match walk.step(Vec::new(), Some("c".into())) {
        Err(KalshiError::Api { status: 0, body }) => body,
        _ => panic!("expected the walk to be refused"),
    }
}

#[test]
fn a_walk_that_does_not_end_is_refused() {
    let orders: CursorWalk<OrderRecord> = CursorWalk::resting_orders();
    assert_eq!(
        refusal(orders, RestClient::ORDERS_WALK_MAX_PAGES),
        "get_resting_orders: cursor walk exceeded 50 pages — refusing to return a \
         possibly-truncated inventory"
    );
    let positions: CursorWalk<MarketPosition> = CursorWalk::all_positions();
    assert_eq!(
        refusal(positions, RestClient::POSITIONS_WALK_MAX_PAGES),
        "get_all_positions: cursor walk exceeded 50 pages — refusing to return a \
         possibly-truncated inventory"
    );
    let fills: CursorWalk<RestFill> = CursorWalk::all_fills();
    assert_eq!(
        refusal(fills, RestClient::FILLS_WALK_MAX_PAGES),
        "get_all_fills: cursor walk exceeded 50 pages — refusing to return a \
         possibly-truncated inventory"
    );
}

fn page(list: &str, items: Vec<Json>, cursor: &str) -> Json {
    Json::Object(vec![
        (list.to_string(), Json::Array(items)),
        ("cursor".to_string(), Json::Str(cursor.into())),
    ])
}

fn item(keys: &[&str]) -> Json {
    Json::Object(keys.iter().map(|k| (k.to_string(), Json::Str("x".into()))).collect())
}

#[test]
fn a_walk_takes_in_its_answers() {
    let order = || item(&["order_id", "status", "ticker"]);
    let first = page("orders", vec![order()], "c");
    let last = page("orders", vec![order(), order()], "");
    let walk = more(resting_orders_answer(
        CursorWalk::resting_orders(),
        200,
        String::new(),
        Some(&first),
    ));
    assert_eq!(walk.cursor(), Some("c"));
    match resting_orders_answer(walk, 200, String::new(), Some(&last)) {
        Ok(WalkStep::Done(orders)) => assert_eq!(orders.len(), 3),
        _ => panic!("expected the walk to end"),
    }

    let last = page("market_positions", vec![item(&["ticker"])], "");
    match all_positions_answer(CursorWalk::all_positions(), 200, String::new(), Some(&last)) {
        Ok(WalkStep::Done(positions)) => assert_eq!(positions[0].ticker, "x"),
        _ => panic!("expected the walk to end"),
    }

    let last = page("fills", vec![item(&["fill_id", "order_id", "ticker"])], "");
    match all_fills_answer(CursorWalk::all_fills(), 200, String::new(), Some(&last)) {
        Ok(WalkStep::Done(fills)) => assert_eq!(fills[0].fill_id, "x"),
        _ => panic!("expected the walk to end"),
    }
}

#[test]
fn a_walk_ends_with_the_error_of_an_answer() {
    match resting_orders_answer(CursorWalk::resting_orders(), 503, "busy".into(), None) {
        Err(e) => assert_eq!(e, KalshiError::Api { status: 503, body: "busy".into() }),
        _ => panic!("expected an error"),
    }
    let unread = page("fills", vec![item(&[])], "");
    match all_fills_answer(CursorWalk::all_fills(), 200, String::new(), Some(&unread)) {
        Err(e) => assert_eq!(e, KalshiError::Decode(DecodeError::MissingField("fill_id"))),
        _ => panic!("expected an error"),
    }
    match all_positions_answer(CursorWalk::all_positions(), 200, String::new(), None) {
        Err(e) => assert_eq!(e, KalshiError::Decode(DecodeError::NotJson)),
        _ => panic!("expected an error"),
    }
}
