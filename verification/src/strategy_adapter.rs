//! From a strategy's intent to an order on the venue's single book.
//!
//! A strategy buys or sells a leg, YES or NO, at a price in cents. The venue knows bids and asks on
//! YES only. YES and NO together settle at 100 cents, so a NO order is the opposite YES order at
//! the complementary price:
//!
//! | intent        | side  | price on the YES book |
//! |---------------|-------|-----------------------|
//! | buy YES at p  | `bid` | p                     |
//! | sell YES at p | `ask` | p                     |
//! | buy NO at q   | `ask` | 100 - q               |
//! | sell NO at q  | `bid` | 100 - q               |
//!
//! The price on the book is not what the order costs: that is the intent's own price.

use vstd::prelude::*;

use crate::fixed_point::{cents_to_dollars_str, contracts_to_count_fp};
use crate::orders::{SelfTradePreventionType, TimeInForce, V2CreateOrderRequest, V2Side};

verus! {

use crate::fixed_point::{
    count_in_contracts, count_text, dollars_in_cents, law_count_round_trip, law_price_round_trip,
    price_text,
};

#[derive(Debug, Clone, Copy, PartialEq, Eq, Structural)]
pub enum Action {
    Buy,
    Sell,
}

/// The leg of a binary market.
#[derive(Debug, Clone, Copy, PartialEq, Eq, Structural)]
pub enum Side {
    Yes,
    No,
}

/// What a strategy wants to trade.
#[derive(Debug, Clone, Copy, PartialEq, Eq, Structural)]
pub struct Intent {
    pub side: Side,
    pub action: Action,
    pub limit_price_cents: i64,
    pub quantity: i64,
}

/// The side and the price in cents on the YES book.
pub open spec fn yes_book(action: Action, side: Side, cents: int) -> (V2Side, int) {
    match (action, side) {
        (Action::Buy, Side::Yes) => (V2Side::Bid, cents),
        (Action::Sell, Side::Yes) => (V2Side::Ask, cents),
        (Action::Buy, Side::No) => (V2Side::Ask, 100 - cents),
        (Action::Sell, Side::No) => (V2Side::Bid, 100 - cents),
    }
}

/// `order` is the order for an intent.
pub open spec fn is_order(
    ticker: Seq<char>,
    intent: Intent,
    client_order_id: Seq<char>,
    order: V2CreateOrderRequest,
) -> bool {
    let book = yes_book(intent.action, intent.side, intent.limit_price_cents as int);
    &&& order.ticker@ == ticker
    &&& order.side == book.0
    &&& order.count@ == count_text(intent.quantity as int)
    &&& order.price@ == price_text(book.1)
    &&& order.time_in_force == TimeInForce::GoodTillCanceled
    &&& order.self_trade_prevention_type == SelfTradePreventionType::TakerAtCross
    &&& order.client_order_id@ == client_order_id
    &&& order.exchange_index is None
}

/// The order for an intent: good till canceled, and canceled itself where it would cross one of our
/// own. The ticker and the client's order id are the caller's. The exchange shard belongs to the
/// market, so it is left open for the caller to set.
pub fn intent_to_order(ticker: &str, intent: &Intent, client_order_id: &str) -> (order:
    V2CreateOrderRequest)
    requires
        yes_book(intent.action, intent.side, intent.limit_price_cents as int).1 <= i64::MAX,
    ensures
        ({
            let book = yes_book(intent.action, intent.side, intent.limit_price_cents as int);
            &&& order.ticker@ == ticker@
            &&& order.side == book.0
            &&& order.count@ == count_text(intent.quantity as int)
            &&& order.price@ == price_text(book.1)
            &&& order.time_in_force == TimeInForce::GoodTillCanceled
            &&& order.self_trade_prevention_type == SelfTradePreventionType::TakerAtCross
            &&& order.client_order_id@ == client_order_id@
            &&& order.exchange_index is None
        }),
        is_order(ticker@, *intent, client_order_id@, order),
        order.side == (match (intent.action, intent.side) {
            (Action::Buy, Side::Yes) => V2Side::Bid,
            (Action::Sell, Side::Yes) => V2Side::Ask,
            (Action::Buy, Side::No) => V2Side::Ask,
            (Action::Sell, Side::No) => V2Side::Bid,
        }),
        0 <= intent.limit_price_cents <= 100 ==> dollars_in_cents(order.price@) == Some(
            match intent.side {
                Side::Yes => intent.limit_price_cents,
                Side::No => (100 - intent.limit_price_cents) as i64,
            },
        ),
        0 <= intent.quantity ==> count_in_contracts(order.count@) == Some(intent.quantity),
{
    proof {
        let book = yes_book(intent.action, intent.side, intent.limit_price_cents as int);
        law_price_round_trip(book.1);
        law_count_round_trip(intent.quantity);
    }
    let p: i64 = intent.limit_price_cents;
    let (side, cents): (V2Side, i64) = match (intent.action, intent.side) {
        (Action::Buy, Side::Yes) => (V2Side::Bid, p),
        (Action::Sell, Side::Yes) => (V2Side::Ask, p),
        (Action::Buy, Side::No) => (V2Side::Ask, 100 - p),
        (Action::Sell, Side::No) => (V2Side::Bid, 100 - p),
    };
    V2CreateOrderRequest {
        ticker: String::from_str(ticker),
        side,
        count: contracts_to_count_fp(intent.quantity),
        price: cents_to_dollars_str(cents),
        time_in_force: TimeInForce::GoodTillCanceled,
        self_trade_prevention_type: SelfTradePreventionType::TakerAtCross,
        client_order_id: String::from_str(client_order_id),
        exchange_index: None,
    }
}

// ---------------------------------------------------------------------------
// Laws
// ---------------------------------------------------------------------------

/// The side and the price of each of the four intents, at every price.
pub proof fn law_side_and_price_of_each_intent(cents: int)
    ensures
        yes_book(Action::Buy, Side::Yes, cents) == (V2Side::Bid, cents),
        yes_book(Action::Sell, Side::Yes, cents) == (V2Side::Ask, cents),
        yes_book(Action::Buy, Side::No, cents) == (V2Side::Ask, 100 - cents),
        yes_book(Action::Sell, Side::No, cents) == (V2Side::Bid, 100 - cents),
{
}

/// What an order says on the wire, from the intent alone. Who wants YES, by buying it or by selling
/// NO, bids; who wants NO asks. The price reads back as the intent's own cents on YES and as what
/// is left of 100 on NO, held to the range of a contract's price. The count reads back as the
/// intent's contracts, none where they are negative.
pub proof fn law_order_is_what_the_intent_asks_for(
    ticker: Seq<char>,
    intent: Intent,
    client_order_id: Seq<char>,
    order: V2CreateOrderRequest,
)
    requires
        is_order(ticker, intent, client_order_id, order),
    ensures
        order.ticker@ == ticker,
        order.client_order_id@ == client_order_id,
        order.time_in_force == TimeInForce::GoodTillCanceled,
        order.self_trade_prevention_type == SelfTradePreventionType::TakerAtCross,
        order.exchange_index is None,
        intent.action == Action::Buy && intent.side == Side::Yes ==> order.side == V2Side::Bid,
        intent.action == Action::Sell && intent.side == Side::Yes ==> order.side == V2Side::Ask,
        intent.action == Action::Buy && intent.side == Side::No ==> order.side == V2Side::Ask,
        intent.action == Action::Sell && intent.side == Side::No ==> order.side == V2Side::Bid,
        ({
            let price = dollars_in_cents(order.price@);
            let p = intent.limit_price_cents;
            &&& intent.side == Side::Yes && 0 <= p <= 100 ==> price == Some(p)
            &&& intent.side == Side::Yes && p < 0 ==> price == Some(0i64)
            &&& intent.side == Side::Yes && p > 100 ==> price == Some(100i64)
            &&& intent.side == Side::No && 0 <= p <= 100 ==> price == Some((100 - p) as i64)
            &&& intent.side == Side::No && p < 0 ==> price == Some(100i64)
            &&& intent.side == Side::No && p > 100 ==> price == Some(0i64)
        }),
        0 <= intent.quantity ==> count_in_contracts(order.count@) == Some(intent.quantity),
        intent.quantity < 0 ==> count_in_contracts(order.count@) == Some(0i64),
{
    let book = yes_book(intent.action, intent.side, intent.limit_price_cents as int);
    law_price_round_trip(book.1);
    law_count_round_trip(intent.quantity);
}

/// Buying NO is selling YES at the complementary price, and selling NO is buying YES at it: both
/// rest at the same place on the book.
pub proof fn law_no_is_the_complement_of_yes(cents: int)
    ensures
        yes_book(Action::Buy, Side::No, cents) == yes_book(Action::Sell, Side::Yes, 100 - cents),
        yes_book(Action::Sell, Side::No, cents) == yes_book(Action::Buy, Side::Yes, 100 - cents),
{
}

/// Buying and selling one leg at one price are opposite sides of the book at one price, and so are
/// buying one leg and buying the other.
pub proof fn law_opposite_intents_are_opposite_orders(side: Side, cents: int)
    ensures
        yes_book(Action::Buy, side, cents).0 != yes_book(Action::Sell, side, cents).0,
        yes_book(Action::Buy, side, cents).1 == yes_book(Action::Sell, side, cents).1,
        yes_book(Action::Buy, Side::Yes, cents).0 != yes_book(Action::Buy, Side::No, cents).0,
        yes_book(Action::Sell, Side::Yes, cents).0 != yes_book(Action::Sell, Side::No, cents).0,
{
}

/// On the wire an order says what the intent says: its price and its count read back as the cents
/// on the YES book, where they are a contract's price, and as the contracts, where there are any.
pub proof fn law_order_says_what_the_intent_says(intent: Intent)
    requires
        0 <= intent.limit_price_cents <= 100,
        0 <= intent.quantity,
    ensures
        ({
            let book = yes_book(intent.action, intent.side, intent.limit_price_cents as int);
            &&& dollars_in_cents(price_text(book.1)) == Some(book.1 as i64)
            &&& count_in_contracts(count_text(intent.quantity as int)) == Some(intent.quantity)
        }),
{
    let book = yes_book(intent.action, intent.side, intent.limit_price_cents as int);
    law_price_round_trip(book.1);
    law_count_round_trip(intent.quantity);
}

/// Whatever the intent's price is, the order's price is one that a binary contract can have.
pub proof fn law_order_price_is_in_band(intent: Intent)
    ensures
        ({
            let book = yes_book(intent.action, intent.side, intent.limit_price_cents as int);
            let read = dollars_in_cents(price_text(book.1));
            read is Some && 0 <= read->0 <= 100
        }),
{
    let book = yes_book(intent.action, intent.side, intent.limit_price_cents as int);
    law_price_round_trip(book.1);
}

} // verus!
