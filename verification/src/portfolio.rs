//! The member's balance, positions and fills, as the venue sends them.

use vstd::prelude::*;

use crate::decode::{
    int_field, opt_bool_field, opt_int_field, opt_text_field, records_field, text_field, FromJson,
};
use crate::fixed_point::count_fp_str_to_contracts;
use crate::json::{DecodeError, Json};

verus! {

use crate::decode::{
    decoded, int_in, models, opt_bool_in, opt_int_in, opt_text_in, records_in, text_in,
};
use crate::fixed_point::count_in_contracts;
use crate::fields::{
    absent, law_first_duplicate_is_there_twice, law_records_field, once, place, says_int,
    says_opt_bool, says_opt_int, says_opt_text, says_records, says_text,
};
use crate::json::{first_duplicate, member, slots_of};

/// The balance (`GET /portfolio/balance`). The venue keeps these amounts in whole cents.
#[derive(Debug, Clone)]
pub struct BalanceResponse {
    /// The available balance in cents.
    pub balance: i64,
    /// The same balance as a dollar string.
    pub balance_dollars: Option<String>,
    /// The value of all positions in cents.
    pub portfolio_value: i64,
    /// Unix time of the last update.
    pub updated_ts: Option<i64>,
}

impl FromJson for BalanceResponse {
    type Model = BalanceResponse;

    open spec fn model(&self) -> BalanceResponse {
        *self
    }

    open spec fn keys() -> Seq<&'static str> {
        seq!["balance", "balance_dollars", "portfolio_value", "updated_ts"]
    }

    open spec fn least() -> int {
        4
    }

    open spec fn of_slots(slots: Seq<Option<Json>>) -> Result<BalanceResponse, DecodeError> {
        let balance = int_in(slots[0], "balance");
        let balance_dollars = opt_text_in(slots[1]);
        let portfolio_value = int_in(slots[2], "portfolio_value");
        let updated_ts = opt_int_in(slots[3]);
        if balance is Err {
            Err(balance->Err_0)
        } else if balance_dollars is Err {
            Err(balance_dollars->Err_0)
        } else if portfolio_value is Err {
            Err(portfolio_value->Err_0)
        } else if updated_ts is Err {
            Err(updated_ts->Err_0)
        } else {
            Ok(
                BalanceResponse {
                    balance: balance->Ok_0,
                    balance_dollars: balance_dollars->Ok_0,
                    portfolio_value: portfolio_value->Ok_0,
                    updated_ts: updated_ts->Ok_0,
                },
            )
        }
    }

    fn field_keys() -> (keys: (Vec<&'static str>, usize)) {
        (vec!["balance", "balance_dollars", "portfolio_value", "updated_ts"], 4)
    }

    fn from_slots(slots: &Vec<Option<&Json>>) -> (record: Result<BalanceResponse, DecodeError>) {
        let balance: i64 = int_field(slots[0], "balance")?;
        let balance_dollars: Option<String> = opt_text_field(slots[1])?;
        let portfolio_value: i64 = int_field(slots[2], "portfolio_value")?;
        let updated_ts: Option<i64> = opt_int_field(slots[3])?;
        Ok(BalanceResponse { balance, balance_dollars, portfolio_value, updated_ts })
    }
}

/// The position in one market (`GET /portfolio/positions`).
#[derive(Debug, Clone)]
pub struct MarketPosition {
    pub ticker: String,
    /// The net contracts with their sign: `"10.00"` long, `"-3.00"` short.
    pub position_fp: Option<String>,
    pub market_exposure_dollars: Option<String>,
    pub total_traded_dollars: Option<String>,
    pub realized_pnl_dollars: Option<String>,
    pub fees_paid_dollars: Option<String>,
    pub last_updated_ts: Option<String>,
}

impl MarketPosition {
    /// The net contracts with their sign.
    pub open spec fn contracts(self) -> i64 {
        match self.position_fp {
            Some(text) => match count_in_contracts(text@) {
                Some(contracts) => contracts,
                None => 0,
            },
            None => 0,
        }
    }

    /// The net contracts with their sign. Zero where `position_fp` is absent or unreadable.
    pub fn position_contracts(&self) -> (contracts: i64)
        ensures
            contracts == (match self.position_fp {
                Some(text) => match count_in_contracts(text@) {
                    Some(contracts) => contracts,
                    None => 0,
                },
                None => 0,
            }),
            contracts == self.contracts(),
    {
        match &self.position_fp {
            Some(text) => match count_fp_str_to_contracts(text.as_str()) {
                Some(contracts) => contracts,
                None => 0,
            },
            None => 0,
        }
    }
}

impl FromJson for MarketPosition {
    type Model = MarketPosition;

    open spec fn model(&self) -> MarketPosition {
        *self
    }

    open spec fn keys() -> Seq<&'static str> {
        seq![
            "ticker",
            "position_fp",
            "market_exposure_dollars",
            "total_traded_dollars",
            "realized_pnl_dollars",
            "fees_paid_dollars",
            "last_updated_ts",
        ]
    }

    open spec fn least() -> int {
        7
    }

    open spec fn of_slots(slots: Seq<Option<Json>>) -> Result<MarketPosition, DecodeError> {
        let ticker = text_in(slots[0], "ticker");
        let position_fp = opt_text_in(slots[1]);
        let market_exposure_dollars = opt_text_in(slots[2]);
        let total_traded_dollars = opt_text_in(slots[3]);
        let realized_pnl_dollars = opt_text_in(slots[4]);
        let fees_paid_dollars = opt_text_in(slots[5]);
        let last_updated_ts = opt_text_in(slots[6]);
        if ticker is Err {
            Err(ticker->Err_0)
        } else if position_fp is Err {
            Err(position_fp->Err_0)
        } else if market_exposure_dollars is Err {
            Err(market_exposure_dollars->Err_0)
        } else if total_traded_dollars is Err {
            Err(total_traded_dollars->Err_0)
        } else if realized_pnl_dollars is Err {
            Err(realized_pnl_dollars->Err_0)
        } else if fees_paid_dollars is Err {
            Err(fees_paid_dollars->Err_0)
        } else if last_updated_ts is Err {
            Err(last_updated_ts->Err_0)
        } else {
            Ok(
                MarketPosition {
                    ticker: ticker->Ok_0,
                    position_fp: position_fp->Ok_0,
                    market_exposure_dollars: market_exposure_dollars->Ok_0,
                    total_traded_dollars: total_traded_dollars->Ok_0,
                    realized_pnl_dollars: realized_pnl_dollars->Ok_0,
                    fees_paid_dollars: fees_paid_dollars->Ok_0,
                    last_updated_ts: last_updated_ts->Ok_0,
                },
            )
        }
    }

    fn field_keys() -> (keys: (Vec<&'static str>, usize)) {
        (
            vec![
                "ticker",
                "position_fp",
                "market_exposure_dollars",
                "total_traded_dollars",
                "realized_pnl_dollars",
                "fees_paid_dollars",
                "last_updated_ts",
            ],
            7,
        )
    }

    fn from_slots(slots: &Vec<Option<&Json>>) -> (record: Result<MarketPosition, DecodeError>) {
        let ticker: String = text_field(slots[0], "ticker")?;
        let position_fp: Option<String> = opt_text_field(slots[1])?;
        let market_exposure_dollars: Option<String> = opt_text_field(slots[2])?;
        let total_traded_dollars: Option<String> = opt_text_field(slots[3])?;
        let realized_pnl_dollars: Option<String> = opt_text_field(slots[4])?;
        let fees_paid_dollars: Option<String> = opt_text_field(slots[5])?;
        let last_updated_ts: Option<String> = opt_text_field(slots[6])?;
        Ok(
            MarketPosition {
                ticker,
                position_fp,
                market_exposure_dollars,
                total_traded_dollars,
                realized_pnl_dollars,
                fees_paid_dollars,
                last_updated_ts,
            },
        )
    }
}

/// A page of positions.
#[derive(Debug, Clone)]
pub struct PositionsResponse {
    pub market_positions: Vec<MarketPosition>,
    /// Empty or absent on the last page.
    pub cursor: Option<String>,
}

/// [`PositionsResponse`] as contracts speak of it.
pub struct PositionsResponseModel {
    pub market_positions: Seq<MarketPosition>,
    pub cursor: Option<String>,
}

impl FromJson for PositionsResponse {
    type Model = PositionsResponseModel;

    open spec fn model(&self) -> PositionsResponseModel {
        PositionsResponseModel {
            market_positions: models(self.market_positions@),
            cursor: self.cursor,
        }
    }

    open spec fn keys() -> Seq<&'static str> {
        seq!["market_positions", "cursor"]
    }

    open spec fn least() -> int {
        2
    }

    open spec fn of_slots(slots: Seq<Option<Json>>) -> Result<PositionsResponseModel, DecodeError> {
        let market_positions = records_in::<MarketPosition>(slots[0], "market_positions");
        let cursor = opt_text_in(slots[1]);
        if market_positions is Err {
            Err(market_positions->Err_0)
        } else if cursor is Err {
            Err(cursor->Err_0)
        } else {
            Ok(
                PositionsResponseModel {
                    market_positions: market_positions->Ok_0,
                    cursor: cursor->Ok_0,
                },
            )
        }
    }

    fn field_keys() -> (keys: (Vec<&'static str>, usize)) {
        (vec!["market_positions", "cursor"], 2)
    }

    fn from_slots(slots: &Vec<Option<&Json>>) -> (record: Result<PositionsResponse, DecodeError>) {
        let market_positions: Vec<MarketPosition> = records_field::<MarketPosition>(
            slots[0],
            "market_positions",
        )?;
        let cursor: Option<String> = opt_text_field(slots[1])?;
        Ok(PositionsResponse { market_positions, cursor })
    }
}

/// One fill (`GET /portfolio/fills`).
#[derive(Debug, Clone)]
pub struct RestFill {
    pub fill_id: String,
    pub order_id: String,
    pub ticker: String,
    /// The contracts of this fill, such as `"1.00"`.
    pub count_fp: Option<String>,
    pub yes_price_dollars: Option<String>,
    pub no_price_dollars: Option<String>,
    /// `"yes"` or `"no"`.
    pub outcome_side: Option<String>,
    /// `"bid"` or `"ask"`.
    pub book_side: Option<String>,
    pub is_taker: Option<bool>,
    pub fee_cost: Option<String>,
    pub created_time: Option<String>,
    /// Unix time in seconds.
    pub ts: Option<i64>,
}

impl FromJson for RestFill {
    type Model = RestFill;

    open spec fn model(&self) -> RestFill {
        *self
    }

    open spec fn keys() -> Seq<&'static str> {
        seq![
            "fill_id",
            "order_id",
            "ticker",
            "count_fp",
            "yes_price_dollars",
            "no_price_dollars",
            "outcome_side",
            "book_side",
            "is_taker",
            "fee_cost",
            "created_time",
            "ts",
        ]
    }

    open spec fn least() -> int {
        12
    }

    open spec fn of_slots(slots: Seq<Option<Json>>) -> Result<RestFill, DecodeError> {
        let fill_id = text_in(slots[0], "fill_id");
        let order_id = text_in(slots[1], "order_id");
        let ticker = text_in(slots[2], "ticker");
        let count_fp = opt_text_in(slots[3]);
        let yes_price_dollars = opt_text_in(slots[4]);
        let no_price_dollars = opt_text_in(slots[5]);
        let outcome_side = opt_text_in(slots[6]);
        let book_side = opt_text_in(slots[7]);
        let is_taker = opt_bool_in(slots[8]);
        let fee_cost = opt_text_in(slots[9]);
        let created_time = opt_text_in(slots[10]);
        let ts = opt_int_in(slots[11]);
        if fill_id is Err {
            Err(fill_id->Err_0)
        } else if order_id is Err {
            Err(order_id->Err_0)
        } else if ticker is Err {
            Err(ticker->Err_0)
        } else if count_fp is Err {
            Err(count_fp->Err_0)
        } else if yes_price_dollars is Err {
            Err(yes_price_dollars->Err_0)
        } else if no_price_dollars is Err {
            Err(no_price_dollars->Err_0)
        } else if outcome_side is Err {
            Err(outcome_side->Err_0)
        } else if book_side is Err {
            Err(book_side->Err_0)
        } else if is_taker is Err {
            Err(is_taker->Err_0)
        } else if fee_cost is Err {
            Err(fee_cost->Err_0)
        } else if created_time is Err {
            Err(created_time->Err_0)
        } else if ts is Err {
            Err(ts->Err_0)
        } else {
            Ok(
                RestFill {
                    fill_id: fill_id->Ok_0,
                    order_id: order_id->Ok_0,
                    ticker: ticker->Ok_0,
                    count_fp: count_fp->Ok_0,
                    yes_price_dollars: yes_price_dollars->Ok_0,
                    no_price_dollars: no_price_dollars->Ok_0,
                    outcome_side: outcome_side->Ok_0,
                    book_side: book_side->Ok_0,
                    is_taker: is_taker->Ok_0,
                    fee_cost: fee_cost->Ok_0,
                    created_time: created_time->Ok_0,
                    ts: ts->Ok_0,
                },
            )
        }
    }

    fn field_keys() -> (keys: (Vec<&'static str>, usize)) {
        (
            vec![
                "fill_id",
                "order_id",
                "ticker",
                "count_fp",
                "yes_price_dollars",
                "no_price_dollars",
                "outcome_side",
                "book_side",
                "is_taker",
                "fee_cost",
                "created_time",
                "ts",
            ],
            12,
        )
    }

    fn from_slots(slots: &Vec<Option<&Json>>) -> (record: Result<RestFill, DecodeError>) {
        let fill_id: String = text_field(slots[0], "fill_id")?;
        let order_id: String = text_field(slots[1], "order_id")?;
        let ticker: String = text_field(slots[2], "ticker")?;
        let count_fp: Option<String> = opt_text_field(slots[3])?;
        let yes_price_dollars: Option<String> = opt_text_field(slots[4])?;
        let no_price_dollars: Option<String> = opt_text_field(slots[5])?;
        let outcome_side: Option<String> = opt_text_field(slots[6])?;
        let book_side: Option<String> = opt_text_field(slots[7])?;
        let is_taker: Option<bool> = opt_bool_field(slots[8])?;
        let fee_cost: Option<String> = opt_text_field(slots[9])?;
        let created_time: Option<String> = opt_text_field(slots[10])?;
        let ts: Option<i64> = opt_int_field(slots[11])?;
        Ok(
            RestFill {
                fill_id,
                order_id,
                ticker,
                count_fp,
                yes_price_dollars,
                no_price_dollars,
                outcome_side,
                book_side,
                is_taker,
                fee_cost,
                created_time,
                ts,
            },
        )
    }
}

/// A page of fills.
#[derive(Debug, Clone)]
pub struct FillsResponse {
    pub fills: Vec<RestFill>,
    /// Empty or absent on the last page.
    pub cursor: Option<String>,
}

/// [`FillsResponse`] as contracts speak of it.
pub struct FillsResponseModel {
    pub fills: Seq<RestFill>,
    pub cursor: Option<String>,
}

impl FromJson for FillsResponse {
    type Model = FillsResponseModel;

    open spec fn model(&self) -> FillsResponseModel {
        FillsResponseModel {
            fills: models(self.fills@),
            cursor: self.cursor,
        }
    }

    open spec fn keys() -> Seq<&'static str> {
        seq!["fills", "cursor"]
    }

    open spec fn least() -> int {
        2
    }

    open spec fn of_slots(slots: Seq<Option<Json>>) -> Result<FillsResponseModel, DecodeError> {
        let fills = records_in::<RestFill>(slots[0], "fills");
        let cursor = opt_text_in(slots[1]);
        if fills is Err {
            Err(fills->Err_0)
        } else if cursor is Err {
            Err(cursor->Err_0)
        } else {
            Ok(
                FillsResponseModel {
                    fills: fills->Ok_0,
                    cursor: cursor->Ok_0,
                },
            )
        }
    }

    fn field_keys() -> (keys: (Vec<&'static str>, usize)) {
        (vec!["fills", "cursor"], 2)
    }

    fn from_slots(slots: &Vec<Option<&Json>>) -> (record: Result<FillsResponse, DecodeError>) {
        let fills: Vec<RestFill> = records_field::<RestFill>(slots[0], "fills")?;
        let cursor: Option<String> = opt_text_field(slots[1])?;
        Ok(FillsResponse { fills, cursor })
    }
}

/// A balance is read by the names of its fields: an object decodes to it where each field is what
/// the member of its own name says, and only there. None of these names may stand twice.
pub proof fn law_balance_response_is_read_by_name(json: Json, record: BalanceResponse)
    requires
        json is Object,
    ensures
        ({
            let members = json->Object_0@;
            decoded::<BalanceResponse>(json) == Ok::<BalanceResponse, DecodeError>(record) <==> {
                &&& once(members, "balance"@)
                &&& once(members, "balance_dollars"@)
                &&& once(members, "portfolio_value"@)
                &&& once(members, "updated_ts"@)
                &&& says_int(member(members, "balance"@), record.balance)
                &&& says_opt_text(member(members, "balance_dollars"@), record.balance_dollars)
                &&& says_int(member(members, "portfolio_value"@), record.portfolio_value)
                &&& says_opt_int(member(members, "updated_ts"@), record.updated_ts)
            }
        }),
{
    let members = json->Object_0@;
    let keys = BalanceResponse::keys();
    law_first_duplicate_is_there_twice(members, keys);
    assert(keys[0] == "balance");
    assert(keys[1] == "balance_dollars");
    assert(keys[2] == "portfolio_value");
    assert(keys[3] == "updated_ts");
    assert(first_duplicate(members, keys) is None <==> {
        &&& once(members, "balance"@)
        &&& once(members, "balance_dollars"@)
        &&& once(members, "portfolio_value"@)
        &&& once(members, "updated_ts"@)
    }) by {
        if first_duplicate(members, keys) is None {
            assert(once(members, keys[0]@));
            assert(once(members, keys[1]@));
            assert(once(members, keys[2]@));
            assert(once(members, keys[3]@));
        }
    }
    if first_duplicate(members, keys) is None {
        let slots = Seq::new(keys.len(), |i: int| member(members, keys[i]@));
        assert(slots_of(json, keys, BalanceResponse::least())
            == Ok::<Seq<Option<Json>>, DecodeError>(slots));
        assert(slots[0] == member(members, "balance"@));
        assert(slots[1] == member(members, "balance_dollars"@));
        assert(slots[2] == member(members, "portfolio_value"@));
        assert(slots[3] == member(members, "updated_ts"@));
    }
}

/// A balance in an array is read by the places of its fields.
pub proof fn law_balance_response_is_read_by_place(json: Json, record: BalanceResponse)
    requires
        json is Array,
    ensures
        ({
            let elements = json->Array_0@;
            decoded::<BalanceResponse>(json) == Ok::<BalanceResponse, DecodeError>(record) <==> {
                &&& elements.len() == 4
                &&& says_int(place(elements, 0), record.balance)
                &&& says_opt_text(place(elements, 1), record.balance_dollars)
                &&& says_int(place(elements, 2), record.portfolio_value)
                &&& says_opt_int(place(elements, 3), record.updated_ts)
            }
        }),
{
    let elements = json->Array_0@;
    let keys = BalanceResponse::keys();
    if 4 <= elements.len() <= 4 {
        let slots = slots_of(json, keys, BalanceResponse::least())->Ok_0;
        assert(slots[0] == place(elements, 0));
        assert(slots[1] == place(elements, 1));
        assert(slots[2] == place(elements, 2));
        assert(slots[3] == place(elements, 3));
    }
}

/// A position is read by the names of its fields: an object decodes to it where each field is what
/// the member of its own name says, and only there. None of these names may stand twice.
pub proof fn law_market_position_is_read_by_name(json: Json, record: MarketPosition)
    requires
        json is Object,
    ensures
        ({
            let members = json->Object_0@;
            decoded::<MarketPosition>(json) == Ok::<MarketPosition, DecodeError>(record) <==> {
                &&& once(members, "ticker"@)
                &&& once(members, "position_fp"@)
                &&& once(members, "market_exposure_dollars"@)
                &&& once(members, "total_traded_dollars"@)
                &&& once(members, "realized_pnl_dollars"@)
                &&& once(members, "fees_paid_dollars"@)
                &&& once(members, "last_updated_ts"@)
                &&& says_text(member(members, "ticker"@), record.ticker)
                &&& says_opt_text(member(members, "position_fp"@), record.position_fp)
                &&& says_opt_text(member(members, "market_exposure_dollars"@),
                    record.market_exposure_dollars)
                &&& says_opt_text(member(members, "total_traded_dollars"@),
                    record.total_traded_dollars)
                &&& says_opt_text(member(members, "realized_pnl_dollars"@),
                    record.realized_pnl_dollars)
                &&& says_opt_text(member(members, "fees_paid_dollars"@), record.fees_paid_dollars)
                &&& says_opt_text(member(members, "last_updated_ts"@), record.last_updated_ts)
            }
        }),
{
    let members = json->Object_0@;
    let keys = MarketPosition::keys();
    law_first_duplicate_is_there_twice(members, keys);
    assert(keys[0] == "ticker");
    assert(keys[1] == "position_fp");
    assert(keys[2] == "market_exposure_dollars");
    assert(keys[3] == "total_traded_dollars");
    assert(keys[4] == "realized_pnl_dollars");
    assert(keys[5] == "fees_paid_dollars");
    assert(keys[6] == "last_updated_ts");
    assert(first_duplicate(members, keys) is None <==> {
        &&& once(members, "ticker"@)
        &&& once(members, "position_fp"@)
        &&& once(members, "market_exposure_dollars"@)
        &&& once(members, "total_traded_dollars"@)
        &&& once(members, "realized_pnl_dollars"@)
        &&& once(members, "fees_paid_dollars"@)
        &&& once(members, "last_updated_ts"@)
    }) by {
        if first_duplicate(members, keys) is None {
            assert(once(members, keys[0]@));
            assert(once(members, keys[1]@));
            assert(once(members, keys[2]@));
            assert(once(members, keys[3]@));
            assert(once(members, keys[4]@));
            assert(once(members, keys[5]@));
            assert(once(members, keys[6]@));
        }
    }
    if first_duplicate(members, keys) is None {
        let slots = Seq::new(keys.len(), |i: int| member(members, keys[i]@));
        assert(slots_of(json, keys, MarketPosition::least())
            == Ok::<Seq<Option<Json>>, DecodeError>(slots));
        assert(slots[0] == member(members, "ticker"@));
        assert(slots[1] == member(members, "position_fp"@));
        assert(slots[2] == member(members, "market_exposure_dollars"@));
        assert(slots[3] == member(members, "total_traded_dollars"@));
        assert(slots[4] == member(members, "realized_pnl_dollars"@));
        assert(slots[5] == member(members, "fees_paid_dollars"@));
        assert(slots[6] == member(members, "last_updated_ts"@));
    }
}

/// A position in an array is read by the places of its fields.
pub proof fn law_market_position_is_read_by_place(json: Json, record: MarketPosition)
    requires
        json is Array,
    ensures
        ({
            let elements = json->Array_0@;
            decoded::<MarketPosition>(json) == Ok::<MarketPosition, DecodeError>(record) <==> {
                &&& elements.len() == 7
                &&& says_text(place(elements, 0), record.ticker)
                &&& says_opt_text(place(elements, 1), record.position_fp)
                &&& says_opt_text(place(elements, 2), record.market_exposure_dollars)
                &&& says_opt_text(place(elements, 3), record.total_traded_dollars)
                &&& says_opt_text(place(elements, 4), record.realized_pnl_dollars)
                &&& says_opt_text(place(elements, 5), record.fees_paid_dollars)
                &&& says_opt_text(place(elements, 6), record.last_updated_ts)
            }
        }),
{
    let elements = json->Array_0@;
    let keys = MarketPosition::keys();
    if 7 <= elements.len() <= 7 {
        let slots = slots_of(json, keys, MarketPosition::least())->Ok_0;
        assert(slots[0] == place(elements, 0));
        assert(slots[1] == place(elements, 1));
        assert(slots[2] == place(elements, 2));
        assert(slots[3] == place(elements, 3));
        assert(slots[4] == place(elements, 4));
        assert(slots[5] == place(elements, 5));
        assert(slots[6] == place(elements, 6));
    }
}

/// A page of positions is read by the names of its fields: an object decodes to it where each field
/// is what the member of its own name says, and only there. None of these names may stand twice.
pub proof fn law_positions_response_is_read_by_name(json: Json, record: PositionsResponseModel)
    requires
        json is Object,
    ensures
        ({
            let members = json->Object_0@;
            decoded::<PositionsResponse>(json)
                == Ok::<PositionsResponseModel, DecodeError>(record) <==> {
                &&& once(members, "market_positions"@)
                &&& once(members, "cursor"@)
                &&& says_records::<MarketPosition>(member(members, "market_positions"@),
                    record.market_positions)
                &&& says_opt_text(member(members, "cursor"@), record.cursor)
            }
        }),
{
    let members = json->Object_0@;
    let keys = PositionsResponse::keys();
    law_first_duplicate_is_there_twice(members, keys);
    assert(keys[0] == "market_positions");
    assert(keys[1] == "cursor");
    assert(first_duplicate(members, keys) is None <==> {
        &&& once(members, "market_positions"@)
        &&& once(members, "cursor"@)
    }) by {
        if first_duplicate(members, keys) is None {
            assert(once(members, keys[0]@));
            assert(once(members, keys[1]@));
        }
    }
    law_records_field::<MarketPosition>(member(members, "market_positions"@), "market_positions",
        record.market_positions);
    if first_duplicate(members, keys) is None {
        let slots = Seq::new(keys.len(), |i: int| member(members, keys[i]@));
        assert(slots_of(json, keys, PositionsResponse::least())
            == Ok::<Seq<Option<Json>>, DecodeError>(slots));
        assert(slots[0] == member(members, "market_positions"@));
        assert(slots[1] == member(members, "cursor"@));
    }
}

/// A page of positions in an array is read by the places of its fields.
pub proof fn law_positions_response_is_read_by_place(json: Json, record: PositionsResponseModel)
    requires
        json is Array,
    ensures
        ({
            let elements = json->Array_0@;
            decoded::<PositionsResponse>(json)
                == Ok::<PositionsResponseModel, DecodeError>(record) <==> {
                &&& elements.len() == 2
                &&& says_records::<MarketPosition>(place(elements, 0), record.market_positions)
                &&& says_opt_text(place(elements, 1), record.cursor)
            }
        }),
{
    let elements = json->Array_0@;
    let keys = PositionsResponse::keys();
    law_records_field::<MarketPosition>(place(elements, 0), "market_positions",
        record.market_positions);
    if 2 <= elements.len() <= 2 {
        let slots = slots_of(json, keys, PositionsResponse::least())->Ok_0;
        assert(slots[0] == place(elements, 0));
        assert(slots[1] == place(elements, 1));
    }
}

/// A fill is read by the names of its fields: an object decodes to it where each field is what the
/// member of its own name says, and only there. None of these names may stand twice.
pub proof fn law_rest_fill_is_read_by_name(json: Json, record: RestFill)
    requires
        json is Object,
    ensures
        ({
            let members = json->Object_0@;
            decoded::<RestFill>(json) == Ok::<RestFill, DecodeError>(record) <==> {
                &&& once(members, "fill_id"@)
                &&& once(members, "order_id"@)
                &&& once(members, "ticker"@)
                &&& once(members, "count_fp"@)
                &&& once(members, "yes_price_dollars"@)
                &&& once(members, "no_price_dollars"@)
                &&& once(members, "outcome_side"@)
                &&& once(members, "book_side"@)
                &&& once(members, "is_taker"@)
                &&& once(members, "fee_cost"@)
                &&& once(members, "created_time"@)
                &&& once(members, "ts"@)
                &&& says_text(member(members, "fill_id"@), record.fill_id)
                &&& says_text(member(members, "order_id"@), record.order_id)
                &&& says_text(member(members, "ticker"@), record.ticker)
                &&& says_opt_text(member(members, "count_fp"@), record.count_fp)
                &&& says_opt_text(member(members, "yes_price_dollars"@), record.yes_price_dollars)
                &&& says_opt_text(member(members, "no_price_dollars"@), record.no_price_dollars)
                &&& says_opt_text(member(members, "outcome_side"@), record.outcome_side)
                &&& says_opt_text(member(members, "book_side"@), record.book_side)
                &&& says_opt_bool(member(members, "is_taker"@), record.is_taker)
                &&& says_opt_text(member(members, "fee_cost"@), record.fee_cost)
                &&& says_opt_text(member(members, "created_time"@), record.created_time)
                &&& says_opt_int(member(members, "ts"@), record.ts)
            }
        }),
{
    let members = json->Object_0@;
    let keys = RestFill::keys();
    law_first_duplicate_is_there_twice(members, keys);
    assert(keys[0] == "fill_id");
    assert(keys[1] == "order_id");
    assert(keys[2] == "ticker");
    assert(keys[3] == "count_fp");
    assert(keys[4] == "yes_price_dollars");
    assert(keys[5] == "no_price_dollars");
    assert(keys[6] == "outcome_side");
    assert(keys[7] == "book_side");
    assert(keys[8] == "is_taker");
    assert(keys[9] == "fee_cost");
    assert(keys[10] == "created_time");
    assert(keys[11] == "ts");
    assert(first_duplicate(members, keys) is None <==> {
        &&& once(members, "fill_id"@)
        &&& once(members, "order_id"@)
        &&& once(members, "ticker"@)
        &&& once(members, "count_fp"@)
        &&& once(members, "yes_price_dollars"@)
        &&& once(members, "no_price_dollars"@)
        &&& once(members, "outcome_side"@)
        &&& once(members, "book_side"@)
        &&& once(members, "is_taker"@)
        &&& once(members, "fee_cost"@)
        &&& once(members, "created_time"@)
        &&& once(members, "ts"@)
    }) by {
        if first_duplicate(members, keys) is None {
            assert(once(members, keys[0]@));
            assert(once(members, keys[1]@));
            assert(once(members, keys[2]@));
            assert(once(members, keys[3]@));
            assert(once(members, keys[4]@));
            assert(once(members, keys[5]@));
            assert(once(members, keys[6]@));
            assert(once(members, keys[7]@));
            assert(once(members, keys[8]@));
            assert(once(members, keys[9]@));
            assert(once(members, keys[10]@));
            assert(once(members, keys[11]@));
        }
    }
    if first_duplicate(members, keys) is None {
        let slots = Seq::new(keys.len(), |i: int| member(members, keys[i]@));
        assert(slots_of(json, keys, RestFill::least())
            == Ok::<Seq<Option<Json>>, DecodeError>(slots));
        assert(slots[0] == member(members, "fill_id"@));
        assert(slots[1] == member(members, "order_id"@));
        assert(slots[2] == member(members, "ticker"@));
        assert(slots[3] == member(members, "count_fp"@));
        assert(slots[4] == member(members, "yes_price_dollars"@));
        assert(slots[5] == member(members, "no_price_dollars"@));
        assert(slots[6] == member(members, "outcome_side"@));
        assert(slots[7] == member(members, "book_side"@));
        assert(slots[8] == member(members, "is_taker"@));
        assert(slots[9] == member(members, "fee_cost"@));
        assert(slots[10] == member(members, "created_time"@));
        assert(slots[11] == member(members, "ts"@));
    }
}

/// A fill in an array is read by the places of its fields.
pub proof fn law_rest_fill_is_read_by_place(json: Json, record: RestFill)
    requires
        json is Array,
    ensures
        ({
            let elements = json->Array_0@;
            decoded::<RestFill>(json) == Ok::<RestFill, DecodeError>(record) <==> {
                &&& elements.len() == 12
                &&& says_text(place(elements, 0), record.fill_id)
                &&& says_text(place(elements, 1), record.order_id)
                &&& says_text(place(elements, 2), record.ticker)
                &&& says_opt_text(place(elements, 3), record.count_fp)
                &&& says_opt_text(place(elements, 4), record.yes_price_dollars)
                &&& says_opt_text(place(elements, 5), record.no_price_dollars)
                &&& says_opt_text(place(elements, 6), record.outcome_side)
                &&& says_opt_text(place(elements, 7), record.book_side)
                &&& says_opt_bool(place(elements, 8), record.is_taker)
                &&& says_opt_text(place(elements, 9), record.fee_cost)
                &&& says_opt_text(place(elements, 10), record.created_time)
                &&& says_opt_int(place(elements, 11), record.ts)
            }
        }),
{
    let elements = json->Array_0@;
    let keys = RestFill::keys();
    if 12 <= elements.len() <= 12 {
        let slots = slots_of(json, keys, RestFill::least())->Ok_0;
        assert(slots[0] == place(elements, 0));
        assert(slots[1] == place(elements, 1));
        assert(slots[2] == place(elements, 2));
        assert(slots[3] == place(elements, 3));
        assert(slots[4] == place(elements, 4));
        assert(slots[5] == place(elements, 5));
        assert(slots[6] == place(elements, 6));
        assert(slots[7] == place(elements, 7));
        assert(slots[8] == place(elements, 8));
        assert(slots[9] == place(elements, 9));
        assert(slots[10] == place(elements, 10));
        assert(slots[11] == place(elements, 11));
    }
}

/// A page of fills is read by the names of its fields: an object decodes to it where each field is
/// what the member of its own name says, and only there. None of these names may stand twice.
pub proof fn law_fills_response_is_read_by_name(json: Json, record: FillsResponseModel)
    requires
        json is Object,
    ensures
        ({
            let members = json->Object_0@;
            decoded::<FillsResponse>(json) == Ok::<FillsResponseModel, DecodeError>(record) <==> {
                &&& once(members, "fills"@)
                &&& once(members, "cursor"@)
                &&& says_records::<RestFill>(member(members, "fills"@), record.fills)
                &&& says_opt_text(member(members, "cursor"@), record.cursor)
            }
        }),
{
    let members = json->Object_0@;
    let keys = FillsResponse::keys();
    law_first_duplicate_is_there_twice(members, keys);
    assert(keys[0] == "fills");
    assert(keys[1] == "cursor");
    assert(first_duplicate(members, keys) is None <==> {
        &&& once(members, "fills"@)
        &&& once(members, "cursor"@)
    }) by {
        if first_duplicate(members, keys) is None {
            assert(once(members, keys[0]@));
            assert(once(members, keys[1]@));
        }
    }
    law_records_field::<RestFill>(member(members, "fills"@), "fills", record.fills);
    if first_duplicate(members, keys) is None {
        let slots = Seq::new(keys.len(), |i: int| member(members, keys[i]@));
        assert(slots_of(json, keys, FillsResponse::least())
            == Ok::<Seq<Option<Json>>, DecodeError>(slots));
        assert(slots[0] == member(members, "fills"@));
        assert(slots[1] == member(members, "cursor"@));
    }
}

/// A page of fills in an array is read by the places of its fields.
pub proof fn law_fills_response_is_read_by_place(json: Json, record: FillsResponseModel)
    requires
        json is Array,
    ensures
        ({
            let elements = json->Array_0@;
            decoded::<FillsResponse>(json) == Ok::<FillsResponseModel, DecodeError>(record) <==> {
                &&& elements.len() == 2
                &&& says_records::<RestFill>(place(elements, 0), record.fills)
                &&& says_opt_text(place(elements, 1), record.cursor)
            }
        }),
{
    let elements = json->Array_0@;
    let keys = FillsResponse::keys();
    law_records_field::<RestFill>(place(elements, 0), "fills", record.fills);
    if 2 <= elements.len() <= 2 {
        let slots = slots_of(json, keys, FillsResponse::least())->Ok_0;
        assert(slots[0] == place(elements, 0));
        assert(slots[1] == place(elements, 1));
    }
}

/// The contracts of a decoded position are what the member `position_fp` denotes, with its sign,
/// and none where it is absent or denotes nothing.
pub proof fn law_position_by_name(
    json: Json,
    position: MarketPosition,
    text: String,
    contracts: i64,
)
    requires
        json is Object,
        decoded::<MarketPosition>(json) == Ok::<MarketPosition, DecodeError>(position),
    ensures
        member(json->Object_0@, "position_fp"@) == Some(Json::Str(text))
            && count_in_contracts(text@)
            == Some(contracts) ==> position.contracts() == contracts,
        member(json->Object_0@, "position_fp"@) == Some(Json::Str(text))
            && count_in_contracts(text@)
            is None ==> position.contracts() == 0,
        absent(member(json->Object_0@, "position_fp"@)) ==> position.contracts() == 0,
{
    law_market_position_is_read_by_name(json, position);
}

/// What contracts say of a record they say of what it holds.
pub proof fn law_portfolio_models_are_the_records(
    balance_response: BalanceResponse,
    market_position: MarketPosition,
    positions_response: PositionsResponse,
    rest_fill: RestFill,
    fills_response: FillsResponse,
)
    ensures
        balance_response.model() == balance_response,
        market_position.model() == market_position,
        positions_response.model().market_positions == positions_response.market_positions@,
        positions_response.model().cursor == positions_response.cursor,
        rest_fill.model() == rest_fill,
        fills_response.model().fills == fills_response.fills@,
        fills_response.model().cursor == fills_response.cursor,
{
    assert(positions_response.model().market_positions =~= positions_response.market_positions@);
    assert(fills_response.model().fills =~= fills_response.fills@);
}

} // verus!
