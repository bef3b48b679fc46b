use ruvector_kalshi::models::{SelfTradePreventionType, TimeInForce, V2Side};
use ruvector_kalshi::strategy_adapter::{intent_to_order, Action, Intent, Side};

fn intent(action: Action, side: Side, price_cents: i64, qty: i64) -> Intent {
    Intent {
        side,
        action,
        limit_price_cents: price_cents,
        quantity: qty,
    }
}

#[test]
fn buy_yes_maps_to_bid_at_face_price() {
    let o = intent_to_order(
        "FED-DEC23",
        &intent(Action::Buy, Side::Yes, 24, 10),
        "cli-1",
    );
    assert_eq!(o.ticker, "FED-DEC23");
    assert_eq!(o.client_order_id, "cli-1");
    assert_eq!(o.side, V2Side::Bid);
    assert_eq!(o.price, "0.24");
    assert_eq!(o.count, "10.00");
    assert_eq!(o.time_in_force, TimeInForce::GoodTillCanceled);
    assert_eq!(
        o.self_trade_prevention_type,
        SelfTradePreventionType::TakerAtCross
    );
}

#[test]
fn sell_yes_maps_to_ask_at_face_price() {
    let o = intent_to_order("X", &intent(Action::Sell, Side::Yes, 30, 7), "c");
    assert_eq!(o.side, V2Side::Ask);
    assert_eq!(o.price, "0.30");
    assert_eq!(o.count, "7.00");
}

#[test]
fn buy_no_maps_to_ask_at_complementary_price() {
    // Buy NO @ 76c == sell YES @ 24c -> ask @ 0.24.
    let o = intent_to_order("X", &intent(Action::Buy, Side::No, 76, 5), "c");
    assert_eq!(o.side, V2Side::Ask);
    assert_eq!(o.price, "0.24");
    assert_eq!(o.count, "5.00");
}

#[test]
fn sell_no_maps_to_bid_at_complementary_price() {
    // Sell NO @ 76c == buy YES @ 24c -> bid @ 0.24.
    let o = intent_to_order("X", &intent(Action::Sell, Side::No, 76, 5), "c");
    assert_eq!(o.side, V2Side::Bid);
    assert_eq!(o.price, "0.24");
}

#[test]
fn no_at_q_rests_where_yes_at_the_complement_does() {
    for q in 0..=100 {
        let no = intent_to_order("X", &intent(Action::Buy, Side::No, q, 5), "c");
        let yes = intent_to_order("X", &intent(Action::Sell, Side::Yes, 100 - q, 5), "c");
        assert_eq!(no.side, yes.side);
        assert_eq!(no.price, yes.price);
    }
}

#[test]
fn prices_and_counts_out_of_range_are_held() {
    let o = intent_to_order("X", &intent(Action::Buy, Side::Yes, 250, -3), "c");
    assert_eq!(o.price, "1.00");
    assert_eq!(o.count, "0.00");
    let o = intent_to_order("X", &intent(Action::Buy, Side::No, 150, 1), "c");
    assert_eq!(o.price, "0.00");
    let o = intent_to_order("X", &intent(Action::Sell, Side::No, -5, i64::MAX), "c");
    assert_eq!(o.price, "1.00");
    assert_eq!(o.count, "9223372036854775807.00");
}

#[test]
fn the_shard_is_left_open() {
    let o = intent_to_order("X", &intent(Action::Sell, Side::Yes, 30, 7), "c");
    assert_eq!(o.exchange_index, None);
}
