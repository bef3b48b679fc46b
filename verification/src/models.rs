//! Every record of the venue, in one place.

pub use crate::fixed_point::{
    cents_to_dollars_str, contracts_to_count_fp, count_fp_str_to_contracts, dollars_str_to_cents,
};
pub use crate::market::{
    GetMarketResponse, KalshiTrade, Market, MarketsResponse, OrderbookResponse, OrderbookSnapshot,
};
pub use crate::orders::{
    OrderAck, OrderRecord, OrderSide, OrdersResponse, SelfTradePreventionType, TimeInForce,
    V2AmendAck, V2AmendOrder, V2CancelAck, V2CreateOrderRequest, V2OrderResponse, V2Side,
};
pub use crate::portfolio::{
    BalanceResponse, FillsResponse, MarketPosition, PositionsResponse, RestFill,
};
pub use crate::ws::{
    WsEnvelope, WsFill, WsMessage, WsOrderbook, WsOrderbookDelta, WsTicker, WsTrade,
};
