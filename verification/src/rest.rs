//! The requests of the venue's REST interface.
//!
//! A client turns a call into a [`PreparedRequest`]: the method, the URL, the path that is signed
//! and the body. Whoever sends it signs it, sends it and hands what comes back to [`answer`].
//!
//! Placing, cancelling and amending an order move money. Those requests are prepared only where the
//! flag for live trading is `1`; reads are not held back by it.

use std::marker::PhantomData;

use vstd::prelude::*;

use crate::decode::{decode, FromJson};
use crate::encode::ToJson;
use crate::error::KalshiError;
use crate::json::{DecodeError, Json};
use crate::market::{
    GetMarketResponse, Market, MarketsResponse, OrderbookResponse, OrderbookSnapshot,
};
use crate::orders::{
    OrderAck, OrderRecord, OrdersResponse, V2AmendAck, V2AmendOrder, V2CancelAck,
    V2CreateOrderRequest, V2OrderResponse,
};
use crate::portfolio::{
    BalanceResponse, FillsResponse, MarketPosition, PositionsResponse, RestFill,
};
use crate::text::{chars_of, find_char, has_prefix, push_signed, same_text, trailing_slashes};
use crate::walk::{CursorWalk, WalkStep};

verus! {

use crate::decode::{decoded, models};
use crate::encode::is_object;
use crate::error::is_refusal;
use crate::text::{
    before, drop_last_while, find, is_slash, law_prefix, law_text_is_cut_at_the_first,
    lemma_drop_last_while, lemma_find, lemma_find_is, signed_numeral, starts_with,
};
use crate::walk::{cursor_view, Page};

// ---------------------------------------------------------------------------
// Paths and URLs
// ---------------------------------------------------------------------------

/// A path with a slash in front.
pub open spec fn rooted(path: Seq<char>) -> Seq<char> {
    if path.len() > 0 && path[0] == '/' {
        path
    } else {
        seq!['/'] + path
    }
}

pub open spec fn without_slashes_behind(s: Seq<char>) -> Seq<char> {
    drop_last_while(s, |c: char| is_slash(c))
}

/// A path that is a URL of its own.
pub open spec fn is_absolute(path: Seq<char>) -> bool {
    starts_with(path, "http://"@) || starts_with(path, "https://"@)
}

/// The URL of a path under a base.
pub open spec fn joined_url(base: Seq<char>, path: Seq<char>) -> Seq<char> {
    if is_absolute(path) {
        path
    } else {
        without_slashes_behind(base) + rooted(path)
    }
}

/// The path that is signed: the base's own path and the path up to its query.
pub open spec fn signed_path(base_path: Seq<char>, path: Seq<char>) -> Seq<char> {
    base_path + before(rooted(path), '?')
}

fn root(path: &str) -> (rooted_path: String)
    ensures
        rooted_path@ == rooted(path@),
{
    proof {
        reveal_strlit("/");
    }
    if has_prefix(path, "/") {
        proof {
            assert(path@[0] == path@.take(1)[0]);
        }
        String::from_str(path)
    } else {
        proof {
            if path@.len() > 0 && path@[0] == '/' {
                assert(path@.take(1) =~= "/"@);
            }
        }
        let mut rooted_path = String::from_str("/");
        rooted_path.append(path);
        assert(rooted_path@ =~= rooted(path@));
        rooted_path
    }
}

/// Joins a base URL and a path with one slash between them. A path that is a URL stays as it is.
pub fn url_join(base: &str, path: &str) -> (url: String)
    ensures
        url@ == joined_url(base@, path@),
{
    if has_prefix(path, "http://") || has_prefix(path, "https://") {
        return String::from_str(path);
    }
    let end: usize = trailing_slashes(&chars_of(base));
    let mut url = String::from_str(base.substring_char(0, end));
    assert(url@ =~= base@.take(end as int));
    url.append(root(path).as_str());
    url
}

/// The path of the URL `url`, where `url` is one.
pub uninterp spec fn url_path_text(url: Seq<char>) -> Option<Seq<char>>;

/// Calls `reqwest::Url::parse` and, on the URL it gives, `path`. The contract claims that what
/// comes back depends on the text alone: nothing where the text is no absolute URL, else the URL's
/// path, and that a path holds no question mark: the parser ends it there, since the query starts.
/// Which texts are URLs, and how a path is percent-encoded, is left to that crate.
#[verifier::external_body]
fn url_path(url: &str) -> (path: Option<String>)
    ensures
        path is Some <==> url_path_text(url@) is Some,
        path is Some ==> path->0@ == url_path_text(url@)->0,
        path is Some ==> !path->0@.contains('?'),
{
    match reqwest::Url::parse(url) {
        Ok(parsed) => Some(parsed.path().to_string()),
        Err(_) => None,
    }
}

/// What goes in front of every signed path: the path of the base URL without slashes behind, and
/// nothing where the base is no URL.
pub open spec fn base_path_of(url_path: Option<Seq<char>>) -> Seq<char> {
    match url_path {
        Some(path) => without_slashes_behind(path),
        None => Seq::empty(),
    }
}

// ---------------------------------------------------------------------------
// Queries
// ---------------------------------------------------------------------------

pub open spec fn opt_view(text: Option<&str>) -> Option<Seq<char>> {
    match text {
        Some(text) => Some(text@),
        None => None,
    }
}

/// A text that is there and not empty.
pub open spec fn filled(text: Option<Seq<char>>) -> Option<Seq<char>> {
    match text {
        Some(text) => if text.len() > 0 {
            Some(text)
        } else {
            None
        },
        None => None,
    }
}

/// A number as the text of a parameter.
pub open spec fn opt_numeral(n: Option<i64>) -> Option<Seq<char>> {
    match n {
        Some(n) => Some(signed_numeral(n as int)),
        None => None,
    }
}

/// The parameter `key=value`, or none where the value is absent.
pub open spec fn param(key: Seq<char>, value: Option<Seq<char>>) -> Seq<Seq<char>> {
    match value {
        Some(value) => seq![key + "="@ + value],
        None => Seq::empty(),
    }
}

/// Parameters with `&` between them.
pub open spec fn joined(params: Seq<Seq<char>>) -> Seq<char>
    decreases params.len(),
{
    if params.len() == 0 {
        Seq::empty()
    } else if params.len() == 1 {
        params[0]
    } else {
        joined(params.drop_last()) + "&"@ + params.last()
    }
}

/// A path with its query, if there are parameters.
pub open spec fn with_query(path: Seq<char>, params: Seq<Seq<char>>) -> Seq<char> {
    if params.len() == 0 {
        path
    } else {
        path + "?"@ + joined(params)
    }
}

pub open spec fn texts(params: Seq<String>) -> Seq<Seq<char>> {
    params.map_values(|p: String| p@)
}

fn add_param(params: &mut Vec<String>, key: &str, value: Option<&str>)
    ensures
        texts(final(params)@) == texts(old(params)@) + param(key@, opt_view(value)),
{
    if let Some(value) = value {
        let mut p = String::from_str(key);
        p.append("=");
        p.append(value);
        params.push(p);
    }
    assert(texts(params@) =~= texts(old(params)@) + param(key@, opt_view(value)));
}

fn add_filled_param(params: &mut Vec<String>, key: &str, value: Option<&str>)
    ensures
        texts(final(params)@) == texts(old(params)@) + param(key@, filled(opt_view(value))),
{
    if let Some(value) = value {
        if !value.is_empty() {
            add_param(params, key, Some(value));
            return;
        }
    }
    assert(texts(params@) =~= texts(old(params)@) + param(key@, filled(opt_view(value))));
}

fn add_int_param(params: &mut Vec<String>, key: &str, value: Option<i64>)
    ensures
        texts(final(params)@) == texts(old(params)@) + param(key@, opt_numeral(value)),
{
    match value {
        Some(n) => {
            let mut text = String::new();
            push_signed(&mut text, n);
            assert(text@ =~= signed_numeral(n as int));
            add_param(params, key, Some(text.as_str()));
        },
        None => {
            assert(texts(params@) =~= texts(old(params)@) + param(key@, opt_numeral(value)));
        },
    }
}

fn query(path: String, params: &Vec<String>) -> (full: String)
    ensures
        full@ == with_query(path@, texts(params@)),
{
    let mut full = path;
    if params.len() == 0 {
        return full;
    }
    let ghost front = full@ + "?"@;
    let ghost all = texts(params@);
    full.append("?");
    full.append(params[0].as_str());
    let mut i: usize = 1;
    assert(all.take(1)[0] == params@[0]@);
    while i < params.len()
        invariant
            1 <= i <= params@.len(),
            all == texts(params@),
            full@ == front + joined(all.take(i as int)),
        decreases params.len() - i,
    {
        proof {
            assert(all.take(i + 1).drop_last() =~= all.take(i as int));
            assert(all.take(i + 1).last() == params@[i as int]@);
        }
        full.append("&");
        full.append(params[i].as_str());
        assert(full@ =~= front + joined(all.take(i + 1)));
        i += 1;
    }
    assert(all.take(all.len() as int) =~= all);
    full
}

// ---------------------------------------------------------------------------
// Live trading
// ---------------------------------------------------------------------------

/// The flag for live trading lets an order through.
pub open spec fn is_live(flag: Option<Seq<char>>) -> bool {
    flag == Some("1"@)
}

/// The text of the refusal where it does not.
pub open spec fn not_live_text() -> Seq<char> {
    "live trading disabled (set KALSHI_ENABLE_LIVE=1 to enable)"@
}

/// Lets a call that moves money through only where the flag is `1`. `flag` is the value of the
/// variable `KALSHI_ENABLE_LIVE`, where it is set.
pub fn require_live_flag(flag: Option<&str>) -> (outcome: Result<(), KalshiError>)
    ensures
        match outcome {
            Ok(_) => is_live(opt_view(flag)),
            Err(error) => !is_live(opt_view(flag)) && is_refusal(error, not_live_text()),
        },
{
    if let Some(flag) = flag {
        if same_text(flag, "1") {
            return Ok(());
        }
    }
    Err(
        KalshiError::Api {
            status: 0,
            body: String::from_str("live trading disabled (set KALSHI_ENABLE_LIVE=1 to enable)"),
        },
    )
}

// ---------------------------------------------------------------------------
// Answers
// ---------------------------------------------------------------------------

/// Lets the body of an answer through where its status is a success, 200 to 299. Any other status
/// is an error that holds the status and the body.
pub fn check_status(status: u16, body: String) -> (answer: Result<String, KalshiError>)
    ensures
        answer == (if 200 <= status < 300 {
            Ok(body)
        } else {
            Err(KalshiError::Api { status, body })
        }),
{
    if 200 <= status && status < 300 {
        Ok(body)
    } else {
        Err(KalshiError::Api { status, body })
    }
}

/// Reads the record that an answer holds.
pub fn read_answer<R: FromJson>(json: &Json) -> (record: Result<R, KalshiError>)
    ensures
        match record {
            Ok(record) => decoded::<R>(*json) == Ok::<R::Model, DecodeError>(record.model()),
            Err(KalshiError::Decode(e)) => decoded::<R>(*json) == Err::<R::Model, DecodeError>(e),
            Err(_) => false,
        },
{
    match decode::<R>(json) {
        Ok(record) => Ok(record),
        Err(e) => Err(KalshiError::Decode(e)),
    }
}

/// What a request is answered with this status, this body and, where it is that, the body read as
/// JSON. An error that holds the status and the body unless the status is a success, 200 to 299;
/// else the record that the body holds.
pub open spec fn answered<R: FromJson>(status: u16, body: String, json: Option<&Json>) -> Result<
    R::Model,
    KalshiError,
> {
    if !(200 <= status < 300) {
        Err(KalshiError::Api { status, body })
    } else {
        match json {
            Some(json) => match decoded::<R>(*json) {
                Ok(model) => Ok(model),
                Err(e) => Err(KalshiError::Decode(e)),
            },
            None => Err(KalshiError::Decode(DecodeError::NotJson)),
        }
    }
}

/// Reads an answer. The status is looked at first, so a refusal need not be JSON.
pub fn answer<R: FromJson>(status: u16, body: String, json: Option<&Json>) -> (record: Result<
    R,
    KalshiError,
>)
    ensures
        match record {
            Ok(record) => answered::<R>(status, body, json) == Ok::<R::Model, KalshiError>(
                record.model(),
            ),
            Err(e) => answered::<R>(status, body, json) == Err::<R::Model, KalshiError>(e),
        },
{
    check_status(status, body)?;
    match json {
        Some(json) => read_answer(json),
        None => Err(KalshiError::Decode(DecodeError::NotJson)),
    }
}

/// Reads the answer to [`RestClient::list_markets`]: the markets of the page, in order. Its cursor
/// is dropped.
pub fn markets_answer(status: u16, body: String, json: Option<&Json>) -> (markets: Result<
    Vec<Market>,
    KalshiError,
>)
    ensures
        match answered::<MarketsResponse>(status, body, json) {
            Ok(page) => markets is Ok && markets->Ok_0@ == page.markets,
            Err(e) => markets == Err::<Vec<Market>, KalshiError>(e),
        },
{
    let page: MarketsResponse = answer(status, body, json)?;
    assert(models(page.markets@) =~= page.markets@);
    Ok(page.markets)
}

/// Reads the answer to [`RestClient::get_market`]: the market in its envelope.
pub fn market_answer(status: u16, body: String, json: Option<&Json>) -> (market: Result<
    Market,
    KalshiError,
>)
    ensures
        match answered::<GetMarketResponse>(status, body, json) {
            Ok(envelope) => market == Ok::<Market, KalshiError>(envelope.market),
            Err(e) => market == Err::<Market, KalshiError>(e),
        },
{
    let envelope: GetMarketResponse = answer(status, body, json)?;
    Ok(envelope.market)
}

/// Reads the answer to [`RestClient::orderbook`]: the book in its envelope.
pub fn orderbook_answer(status: u16, body: String, json: Option<&Json>) -> (book: Result<
    OrderbookSnapshot,
    KalshiError,
>)
    ensures
        match answered::<OrderbookResponse>(status, body, json) {
            Ok(envelope) => book is Ok && book->Ok_0.model() == envelope.orderbook,
            Err(e) => book == Err::<OrderbookSnapshot, KalshiError>(e),
        },
{
    let envelope: OrderbookResponse = answer(status, body, json)?;
    Ok(envelope.orderbook)
}

/// Reads the answer to [`RestClient::get_resting_orders`] and takes its page into the walk. An
/// answer that is an error ends the walk with that error.
pub fn resting_orders_answer(
    walk: CursorWalk<OrderRecord>,
    status: u16,
    body: String,
    json: Option<&Json>,
) -> (step: Result<WalkStep<OrderRecord>, KalshiError>)
    ensures
        match answered::<OrdersResponse>(status, body, json) {
            Ok(page) => walk.is_step(
                Page { items: page.orders, next: cursor_view(page.cursor) },
                step,
            ),
            Err(e) => step == Err::<WalkStep<OrderRecord>, KalshiError>(e),
        },
{
    let page: OrdersResponse = answer(status, body, json)?;
    assert(models(page.orders@) =~= page.orders@);
    walk.step(page.orders, page.cursor)
}

/// Reads the answer to [`RestClient::get_all_positions`] and takes its page into the walk. An
/// answer that is an error ends the walk with that error.
pub fn all_positions_answer(
    walk: CursorWalk<MarketPosition>,
    status: u16,
    body: String,
    json: Option<&Json>,
) -> (step: Result<WalkStep<MarketPosition>, KalshiError>)
    ensures
        match answered::<PositionsResponse>(status, body, json) {
            Ok(page) => walk.is_step(
                Page { items: page.market_positions, next: cursor_view(page.cursor) },
                step,
            ),
            Err(e) => step == Err::<WalkStep<MarketPosition>, KalshiError>(e),
        },
{
    let page: PositionsResponse = answer(status, body, json)?;
    assert(models(page.market_positions@) =~= page.market_positions@);
    walk.step(page.market_positions, page.cursor)
}

/// Reads the answer to [`RestClient::get_all_fills`] and takes its page into the walk. An
/// answer that is an error ends the walk with that error.
pub fn all_fills_answer(
    walk: CursorWalk<RestFill>,
    status: u16,
    body: String,
    json: Option<&Json>,
) -> (step: Result<WalkStep<RestFill>, KalshiError>)
    ensures
        match answered::<FillsResponse>(status, body, json) {
            Ok(page) => walk.is_step(
                Page { items: page.fills, next: cursor_view(page.cursor) },
                step,
            ),
            Err(e) => step == Err::<WalkStep<RestFill>, KalshiError>(e),
        },
{
    let page: FillsResponse = answer(status, body, json)?;
    assert(models(page.fills@) =~= page.fills@);
    walk.step(page.fills, page.cursor)
}

// ---------------------------------------------------------------------------
// The client
// ---------------------------------------------------------------------------

#[derive(Debug, Clone, Copy, PartialEq, Eq, Structural)]
pub enum Method {
    Get,
    Post,
    Delete,
}

/// A request that is ready to be signed and sent. `R` is the record that its answer holds.
#[derive(Debug)]
#[verifier::reject_recursive_types(R)]
pub struct PreparedRequest<R> {
    pub method: Method,
    pub url: String,
    /// The path that goes into the signature.
    pub sig_path: String,
    pub body: Option<Json>,
    pub answer: PhantomData<R>,
}

/// Prepares requests to one base URL.
#[derive(Debug)]
pub struct RestClient {
    base_url: String,
    base_path: String,
}

impl Clone for RestClient {
    fn clone(&self) -> (client: RestClient)
        ensures
            client.base_url() == self.base_url(),
            client.base_path() == self.base_path(),
    {
        proof {
            use_type_invariant(self);
        }
        RestClient { base_url: self.base_url.clone(), base_path: self.base_path.clone() }
    }
}

impl RestClient {
    /// How many pages a walk over resting orders reads at most.
    pub const ORDERS_WALK_MAX_PAGES: usize = 50;

    /// How many pages a walk over positions reads at most.
    pub const POSITIONS_WALK_MAX_PAGES: usize = 50;

    /// How many pages a walk over fills reads at most.
    pub const FILLS_WALK_MAX_PAGES: usize = 50;

    /// The base's path holds no question mark, so no signed path does.
    #[verifier::type_invariant]
    spec fn has_a_plain_base_path(self) -> bool {
        !self.base_path@.contains('?')
    }

    /// The base URL, as it was given.
    pub closed spec fn base_url(self) -> Seq<char> {
        self.base_url@
    }

    /// What goes in front of every signed path.
    pub closed spec fn base_path(self) -> Seq<char> {
        self.base_path@
    }

    /// `request` calls `path` with `method`.
    pub open spec fn is_call<R>(
        self,
        request: PreparedRequest<R>,
        method: Method,
        path: Seq<char>,
    ) -> bool {
        &&& request.method == method
        &&& request.url@ == joined_url(self.base_url(), path)
        &&& request.sig_path@ == signed_path(self.base_path(), path)
        &&& !request.sig_path@.contains('?')
    }

    /// `request` reads `path`.
    pub open spec fn is_read<R>(self, request: PreparedRequest<R>, path: Seq<char>) -> bool {
        self.is_call(request, Method::Get, path) && request.body is None
    }

    /// A client for `base_url`, such as `https://trading-api.kalshi.com/trade-api/v2`.
    pub fn new(base_url: &str) -> (client: RestClient)
        ensures
            client.base_url() == base_url@,
            client.base_path() == base_path_of(url_path_text(base_url@)),
            !client.base_path().contains('?'),
    {
        match url_path(base_url) {
            Some(path) => Self::with_url_path(base_url, Some(path.as_str())),
            None => Self::with_url_path(base_url, None),
        }
    }

    /// A client for `base_url`, whose path is `url_path`, or which is no URL. The path of a URL
    /// holds no question mark.
    pub fn with_url_path(base_url: &str, url_path: Option<&str>) -> (client: RestClient)
        requires
            url_path is Some ==> !url_path->0@.contains('?'),
        ensures
            client.base_url() == base_url@,
            client.base_path() == base_path_of(opt_view(url_path)),
            !client.base_path().contains('?'),
    {
        let base_path = match url_path {
            Some(path) => {
                let end: usize = trailing_slashes(&chars_of(path));
                let base_path = String::from_str(path.substring_char(0, end));
                assert(base_path@ =~= path@.take(end as int));
                assert(forall|i: int| 0 <= i < end ==> base_path@[i] == path@[i]);
                assert(!base_path@.contains('?'));
                base_path
            },
            None => String::new(),
        };
        RestClient { base_url: String::from_str(base_url), base_path }
    }

    /// The path that is signed for a request to `path`: the full path from the host on, without the
    /// query.
    pub fn sig_path_for(&self, path: &str) -> (sig_path: String)
        ensures
            sig_path@ == signed_path(self.base_path(), path@),
            !sig_path@.contains('?'),
    {
        proof {
            use_type_invariant(self);
            law_signed_path_is_rooted_in_the_base(self.base_path(), path@);
        }
        let p = root(path);
        let chars = chars_of(p.as_str());
        let end: usize = find_char(&chars, 0, chars.len(), '?');
        let mut sig_path = self.base_path.clone();
        proof {
            assert(chars@.subrange(0, chars@.len() as int) =~= chars@);
            lemma_find(p@, '?');
            assert(p@.subrange(0, end as int) =~= before(p@, '?'));
        }
        sig_path.append(p.as_str().substring_char(0, end));
        sig_path
    }

    fn prepare<R>(&self, method: Method, path: &str, body: Option<Json>) -> (request:
        PreparedRequest<R>)
        ensures
            self.is_call(request, method, path@),
            request.body == body,
    {
        PreparedRequest {
            method,
            url: url_join(self.base_url.as_str(), path),
            sig_path: self.sig_path_for(path),
            body,
            answer: PhantomData,
        }
    }

    /// The path of the markets with this status, or of all.
    pub open spec fn markets_path(status: Option<Seq<char>>) -> Seq<char> {
        with_query("/markets"@, param("status"@, status))
    }

    /// Lists markets.
    pub fn list_markets(&self, status: Option<&str>) -> (request: PreparedRequest<MarketsResponse>)
        ensures
            self.is_read(request, Self::markets_path(opt_view(status))),
    {
        let mut params: Vec<String> = Vec::new();
        add_param(&mut params, "status", status);
        proof {
            lemma_from_none(params@, param("status"@, opt_view(status)));
        }
        let path = query(String::from_str("/markets"), &params);
        self.prepare(Method::Get, path.as_str(), None)
    }

    /// Reads one market.
    pub fn get_market(&self, ticker: &str) -> (request: PreparedRequest<GetMarketResponse>)
        ensures
            self.is_read(request, "/markets/"@ + ticker@),
    {
        let mut path = String::from_str("/markets/");
        path.append(ticker);
        self.prepare(Method::Get, path.as_str(), None)
    }

    /// Reads the order book of a market.
    pub fn orderbook(&self, ticker: &str) -> (request: PreparedRequest<OrderbookResponse>)
        ensures
            self.is_read(request, "/markets/"@ + ticker@ + "/orderbook"@),
    {
        let mut path = String::from_str("/markets/");
        path.append(ticker);
        path.append("/orderbook");
        self.prepare(Method::Get, path.as_str(), None)
    }

    /// Places an order, where live trading is on.
    pub fn post_order(
        &self,
        live_flag: Option<&str>,
        order: &V2CreateOrderRequest,
    ) -> (request: Result<PreparedRequest<V2OrderResponse>, KalshiError>)
        ensures
            match request {
                Ok(request) => {
                    &&& is_live(opt_view(live_flag))
                    &&& self.is_call(request, Method::Post, "/portfolio/events/orders"@)
                    &&& request.body is Some
                    &&& is_object(request.body->0, order.members())
                },
                Err(error) => !is_live(opt_view(live_flag)) && is_refusal(error, not_live_text()),
            },
    {
        require_live_flag(live_flag)?;
        Ok(self.prepare(Method::Post, "/portfolio/events/orders", Some(order.to_json())))
    }

    pub open spec fn order_event_path(order_id: Seq<char>) -> Seq<char> {
        "/portfolio/events/orders/"@ + order_id
    }

    /// The path that cancels an order. The exchange shard and the market go into the query, unlike
    /// with the requests that place and amend, where the shard goes into the body.
    pub open spec fn cancel_path(
        order_id: Seq<char>,
        exchange_index: Option<i64>,
        market_ticker: Option<Seq<char>>,
    ) -> Seq<char> {
        with_query(
            Self::order_event_path(order_id),
            param("exchange_index"@, opt_numeral(exchange_index)) + param(
                "market_ticker"@,
                filled(market_ticker),
            ),
        )
    }

    /// Cancels an order, where live trading is on.
    pub fn cancel_order(
        &self,
        live_flag: Option<&str>,
        order_id: &str,
        exchange_index: Option<i64>,
        market_ticker: Option<&str>,
    ) -> (request: Result<PreparedRequest<V2CancelAck>, KalshiError>)
        ensures
            match request {
                Ok(request) => {
                    &&& is_live(opt_view(live_flag))
                    &&& self.is_call(
                        request,
                        Method::Delete,
                        Self::cancel_path(order_id@, exchange_index, opt_view(market_ticker)),
                    )
                    &&& request.body is None
                },
                Err(error) => !is_live(opt_view(live_flag)) && is_refusal(error, not_live_text()),
            },
    {
        require_live_flag(live_flag)?;
        let mut params: Vec<String> = Vec::new();
        add_int_param(&mut params, "exchange_index", exchange_index);
        add_filled_param(&mut params, "market_ticker", market_ticker);
        proof {
            lemma_from_none(
                params@,
                param("exchange_index"@, opt_numeral(exchange_index)) + param(
                    "market_ticker"@,
                    filled(opt_view(market_ticker)),
                ),
            );
        }
        let mut path = String::from_str("/portfolio/events/orders/");
        path.append(order_id);
        let path = query(path, &params);
        Ok(self.prepare(Method::Delete, path.as_str(), None))
    }

    /// Amends an order, where live trading is on.
    pub fn amend_order(
        &self,
        live_flag: Option<&str>,
        order_id: &str,
        amend: &V2AmendOrder,
    ) -> (request: Result<PreparedRequest<V2AmendAck>, KalshiError>)
        ensures
            match request {
                Ok(request) => {
                    &&& is_live(opt_view(live_flag))
                    &&& self.is_call(
                        request,
                        Method::Post,
                        Self::order_event_path(order_id@) + "/amend"@,
                    )
                    &&& request.body is Some
                    &&& is_object(request.body->0, amend.members())
                },
                Err(error) => !is_live(opt_view(live_flag)) && is_refusal(error, not_live_text()),
            },
    {
        require_live_flag(live_flag)?;
        let mut path = String::from_str("/portfolio/events/orders/");
        path.append(order_id);
        path.append("/amend");
        Ok(self.prepare(Method::Post, path.as_str(), Some(amend.to_json())))
    }

    /// Reads one order back.
    pub fn get_order(&self, order_id: &str) -> (request: PreparedRequest<OrderAck>)
        ensures
            self.is_read(request, "/portfolio/orders/"@ + order_id@),
    {
        let mut path = String::from_str("/portfolio/orders/");
        path.append(order_id);
        self.prepare(Method::Get, path.as_str(), None)
    }

    pub open spec fn balance_path(exchange_index: Option<i64>) -> Seq<char> {
        with_query("/portfolio/balance"@, param("exchange_index"@, opt_numeral(exchange_index)))
    }

    /// Reads the balance, of one exchange shard or of all.
    pub fn get_balance(&self, exchange_index: Option<i64>) -> (request:
        PreparedRequest<BalanceResponse>)
        ensures
            self.is_read(request, Self::balance_path(exchange_index)),
    {
        let mut params: Vec<String> = Vec::new();
        add_int_param(&mut params, "exchange_index", exchange_index);
        proof {
            lemma_from_none(params@, param("exchange_index"@, opt_numeral(exchange_index)));
        }
        let path = query(String::from_str("/portfolio/balance"), &params);
        self.prepare(Method::Get, path.as_str(), None)
    }

    pub open spec fn positions_path(
        ticker: Option<Seq<char>>,
        cursor: Option<Seq<char>>,
    ) -> Seq<char> {
        with_query(
            "/portfolio/positions"@,
            param("ticker"@, ticker) + param("cursor"@, filled(cursor)),
        )
    }

    /// Reads a page of positions, of one market or of all.
    pub fn get_positions(&self, ticker: Option<&str>, cursor: Option<&str>) -> (request:
        PreparedRequest<PositionsResponse>)
        ensures
            self.is_read(request, Self::positions_path(opt_view(ticker), opt_view(cursor))),
    {
        let mut params: Vec<String> = Vec::new();
        add_param(&mut params, "ticker", ticker);
        add_filled_param(&mut params, "cursor", cursor);
        proof {
            lemma_from_none(
                params@,
                param("ticker"@, opt_view(ticker)) + param("cursor"@, filled(opt_view(cursor))),
            );
        }
        let path = query(String::from_str("/portfolio/positions"), &params);
        self.prepare(Method::Get, path.as_str(), None)
    }

    pub open spec fn fills_path(
        ticker: Option<Seq<char>>,
        order_id: Option<Seq<char>>,
        cursor: Option<Seq<char>>,
    ) -> Seq<char> {
        with_query(
            "/portfolio/fills"@,
            param("ticker"@, ticker) + param("order_id"@, order_id) + param(
                "cursor"@,
                filled(cursor),
            ),
        )
    }

    /// Reads a page of fills, of one market or order or of all.
    pub fn get_fills(
        &self,
        ticker: Option<&str>,
        order_id: Option<&str>,
        cursor: Option<&str>,
    ) -> (request: PreparedRequest<FillsResponse>)
        ensures
            self.is_read(
                request,
                Self::fills_path(opt_view(ticker), opt_view(order_id), opt_view(cursor)),
            ),
    {
        let mut params: Vec<String> = Vec::new();
        add_param(&mut params, "ticker", ticker);
        add_param(&mut params, "order_id", order_id);
        add_filled_param(&mut params, "cursor", cursor);
        proof {
            lemma_from_none(
                params@,
                param("ticker"@, opt_view(ticker)) + param("order_id"@, opt_view(order_id)) + param(
                    "cursor"@,
                    filled(opt_view(cursor)),
                ),
            );
        }
        let path = query(String::from_str("/portfolio/fills"), &params);
        self.prepare(Method::Get, path.as_str(), None)
    }

    pub open spec fn orders_path(
        status: Option<Seq<char>>,
        ticker: Option<Seq<char>>,
        cursor: Option<Seq<char>>,
    ) -> Seq<char> {
        with_query(
            "/portfolio/orders"@,
            param("status"@, status) + param("ticker"@, ticker) + param("cursor"@, filled(cursor)),
        )
    }

    /// Reads a page of orders, of one status or market or of all.
    pub fn get_orders(
        &self,
        status: Option<&str>,
        ticker: Option<&str>,
        cursor: Option<&str>,
    ) -> (request: PreparedRequest<OrdersResponse>)
        ensures
            self.is_read(
                request,
                Self::orders_path(opt_view(status), opt_view(ticker), opt_view(cursor)),
            ),
    {
        let mut params: Vec<String> = Vec::new();
        add_param(&mut params, "status", status);
        add_param(&mut params, "ticker", ticker);
        add_filled_param(&mut params, "cursor", cursor);
        proof {
            lemma_from_none(
                params@,
                param("status"@, opt_view(status)) + param("ticker"@, opt_view(ticker)) + param(
                    "cursor"@,
                    filled(opt_view(cursor)),
                ),
            );
        }
        let path = query(String::from_str("/portfolio/orders"), &params);
        self.prepare(Method::Get, path.as_str(), None)
    }

    /// Reads the next page of a walk over every resting order.
    pub fn get_resting_orders(
        &self,
        ticker: Option<&str>,
        walk: &CursorWalk<OrderRecord>,
    ) -> (request: PreparedRequest<OrdersResponse>)
        ensures
            self.is_read(
                request,
                Self::orders_path(Some("resting"@), opt_view(ticker), walk.next()),
            ),
    {
        self.get_orders(Some("resting"), ticker, walk.cursor())
    }

    /// Reads the next page of a walk over every position.
    pub fn get_all_positions(
        &self,
        ticker: Option<&str>,
        walk: &CursorWalk<MarketPosition>,
    ) -> (request: PreparedRequest<PositionsResponse>)
        ensures
            self.is_read(request, Self::positions_path(opt_view(ticker), walk.next())),
    {
        self.get_positions(ticker, walk.cursor())
    }

    /// Reads the next page of a walk over every fill.
    pub fn get_all_fills(
        &self,
        ticker: Option<&str>,
        order_id: Option<&str>,
        walk: &CursorWalk<RestFill>,
    ) -> (request: PreparedRequest<FillsResponse>)
        ensures
            self.is_read(
                request,
                Self::fills_path(opt_view(ticker), opt_view(order_id), walk.next()),
            ),
    {
        self.get_fills(ticker, order_id, walk.cursor())
    }
}

proof fn lemma_from_none(params: Seq<String>, expected: Seq<Seq<char>>)
    requires
        texts(params) =~= texts(Seq::<String>::empty()) + expected,
    ensures
        texts(params) == expected,
{
}

// ---------------------------------------------------------------------------
// Laws
// ---------------------------------------------------------------------------

/// A base and a path meet in one slash: slashes behind the base and the slash in front of the path
/// may be there or not.
pub proof fn law_one_slash_between_base_and_path(base: Seq<char>, path: Seq<char>)
    requires
        !is_absolute(path),
    ensures
        joined_url(base.push('/'), path) == joined_url(base, path),
        joined_url(base, rooted(path)) == joined_url(base, path),
        joined_url(base, path) == without_slashes_behind(base) + rooted(path),
{
    assert(base.push('/').drop_last() =~= base);
    lemma_rooted_is_relative(rooted(path));
}

proof fn lemma_rooted_is_relative(path: Seq<char>)
    requires
        path.len() > 0,
        path[0] == '/',
    ensures
        !is_absolute(path),
{
    reveal_strlit("http://");
    reveal_strlit("https://");
    if starts_with(path, "http://"@) {
        assert(path[0] == path.take(7)[0]);
    }
    if starts_with(path, "https://"@) {
        assert(path[0] == path.take(8)[0]);
    }
}

/// A path that is a URL is called as it is, whatever the base.
pub proof fn law_url_passes_through(base: Seq<char>, path: Seq<char>)
    requires
        is_absolute(path),
    ensures
        joined_url(base, path) == path,
{
}

/// The query is never signed, whatever it is.
pub proof fn law_query_is_not_signed(base_path: Seq<char>, path: Seq<char>, query: Seq<char>)
    ensures
        signed_path(base_path, path + "?"@ + query) == signed_path(base_path, path),
{
    reveal_strlit("?");
    let full = path + "?"@ + query;
    let short = rooted(path);
    let long = rooted(full);
    assert(long =~= short + "?"@ + query);
    lemma_find(short, '?');
    let at = find(short, '?');
    assert forall|i: int| 0 <= i < at implies long[i] != '?' by {
        assert(long[i] == short[i]);
    }
    assert(long[at] == '?');
    lemma_find_is(long, '?', at);
    assert(before(long, '?') =~= before(short, '?'));
}

/// A slash in front of a path may be there or not: the same is signed.
pub proof fn law_leading_slash_does_not_change_the_signature(base_path: Seq<char>, path: Seq<char>)
    ensures
        signed_path(base_path, rooted(path)) == signed_path(base_path, path),
        path.len() == 0 || path[0] != '/' ==> signed_path(base_path, seq!['/'] + path)
            == signed_path(base_path, path),
{
}

/// What is signed is the base's path, a slash and what follows, without a question mark of the
/// request's own. So where the base's path holds none, as in every client, what is signed holds
/// none.
pub proof fn law_signed_path_is_rooted_in_the_base(base_path: Seq<char>, path: Seq<char>)
    ensures
        ({
            let signed = signed_path(base_path, path);
            &&& starts_with(signed, base_path)
            &&& signed.len() > base_path.len()
            &&& signed[base_path.len() as int] == '/'
            &&& forall|i: int| base_path.len() <= i < signed.len() ==> signed[i] != '?'
            &&& !base_path.contains('?') ==> !signed.contains('?')
        }),
{
    let signed = signed_path(base_path, path);
    let tail = before(rooted(path), '?');
    lemma_find(rooted(path), '?');
    assert(rooted(path)[0] == '/');
    assert(signed.take(base_path.len() as int) =~= base_path);
    assert(signed[base_path.len() as int] == tail[0]);
    assert forall|i: int| base_path.len() <= i < signed.len() implies signed[i] != '?' by {
        assert(signed[i] == tail[i - base_path.len()]);
    }
    if !base_path.contains('?') {
        assert forall|i: int| 0 <= i < signed.len() implies signed[i] != '?' by {
            if i < base_path.len() {
                assert(signed[i] == base_path[i]);
            }
        }
    }
}

/// Which shard and market a cancel names does not change what is signed.
pub proof fn law_cancel_signature_is_of_the_order_alone(
    base_path: Seq<char>,
    order_id: Seq<char>,
    exchange_index: Option<i64>,
    market_ticker: Option<Seq<char>>,
)
    ensures
        signed_path(
            base_path,
            RestClient::cancel_path(order_id, exchange_index, market_ticker),
        ) == signed_path(base_path, RestClient::order_event_path(order_id)),
{
    law_query_is_not_signed(
        base_path,
        RestClient::order_event_path(order_id),
        joined(
            param("exchange_index"@, opt_numeral(exchange_index)) + param(
                "market_ticker"@,
                filled(market_ticker),
            ),
        ),
    );
}

/// A cancel that names neither a shard nor a market has no query.
pub proof fn law_unsharded_cancel_has_no_query(order_id: Seq<char>)
    ensures
        RestClient::cancel_path(order_id, None, None) == RestClient::order_event_path(order_id),
        RestClient::cancel_path(order_id, None, Some(Seq::empty()))
            == RestClient::order_event_path(order_id),
{
}

/// A cancel that names a shard says so in its query.
pub proof fn law_sharded_cancel_names_its_shard(
    order_id: Seq<char>,
    shard: i64,
    market_ticker: Seq<char>,
)
    requires
        market_ticker.len() > 0,
    ensures
        RestClient::cancel_path(order_id, Some(shard), None) == RestClient::order_event_path(
            order_id,
        ) + "?"@ + ("exchange_index="@ + signed_numeral(shard as int)),
        RestClient::cancel_path(order_id, Some(shard), Some(market_ticker))
            == RestClient::order_event_path(order_id) + "?"@ + ("exchange_index="@ + signed_numeral(
            shard as int,
        ) + "&market_ticker="@ + market_ticker),
{
    reveal_strlit("exchange_index");
    reveal_strlit("exchange_index=");
    reveal_strlit("market_ticker");
    reveal_strlit("&market_ticker=");
    reveal_strlit("=");
    reveal_strlit("&");
    let shard_param = param("exchange_index"@, opt_numeral(Some(shard)));
    let market_param = param("market_ticker"@, filled(Some(market_ticker)));
    let shard_text = "exchange_index="@ + signed_numeral(shard as int);
    assert(shard_param + param("market_ticker"@, filled(None)) =~= seq![shard_text]) by {
        assert(shard_param[0] =~= shard_text);
    }
    let both = shard_param + market_param;
    assert(both.drop_last() =~= seq![shard_text]) by {
        assert(shard_param[0] =~= shard_text);
    }
    assert(joined(both.drop_last()) == shard_text);
    assert(joined(both) =~= shard_text + "&market_ticker="@ + market_ticker);
}

/// An empty cursor asks for the first page, as none does.
pub proof fn law_empty_cursor_asks_for_the_first_page(
    a: Option<Seq<char>>,
    b: Option<Seq<char>>,
)
    ensures
        RestClient::positions_path(a, Some(Seq::empty())) == RestClient::positions_path(a, None),
        RestClient::fills_path(a, b, Some(Seq::empty())) == RestClient::fills_path(a, b, None),
        RestClient::orders_path(a, b, Some(Seq::empty())) == RestClient::orders_path(a, b, None),
{
}

/// A URL is the base without the slashes behind it, one slash, and the path. A path that is a URL
/// is the URL.
pub proof fn law_url_is_base_and_path(
    core: Seq<char>,
    slashes: Seq<char>,
    path: Seq<char>,
    rest: Seq<char>,
)
    requires
        core.len() > 0 ==> core.last() != '/',
        forall|i: int| 0 <= i < slashes.len() ==> #[trigger] slashes[i] == '/',
    ensures
        joined_url(core + slashes, seq!['/'] + rest) == core + seq!['/'] + rest,
        ({
            &&& path.len() == 0 || path[0] != '/'
            &&& !(path.len() >= 7 && path.take(7) == "http://"@)
            &&& !(path.len() >= 8 && path.take(8) == "https://"@)
        }) ==> joined_url(core + slashes, path) == core + seq!['/'] + path,
        joined_url(core + slashes, "http://"@ + rest) == "http://"@ + rest,
        joined_url(core + slashes, "https://"@ + rest) == "https://"@ + rest,
{
    reveal_strlit("http://");
    reveal_strlit("https://");
    lemma_without_slashes(core, slashes);
    let slashed = seq!['/'] + rest;
    lemma_rooted_is_relative(slashed);
    assert(core + slashed =~= core + seq!['/'] + rest);
    law_prefix("http://"@, rest, "http://"@ + rest);
    law_prefix("https://"@, rest, "https://"@ + rest);
    assert(core + (seq!['/'] + path) =~= core + seq!['/'] + path);
}

proof fn lemma_without_slashes(core: Seq<char>, slashes: Seq<char>)
    requires
        core.len() > 0 ==> core.last() != '/',
        forall|i: int| 0 <= i < slashes.len() ==> #[trigger] slashes[i] == '/',
    ensures
        without_slashes_behind(core + slashes) == core,
{
    let p = |c: char| is_slash(c);
    let s = core + slashes;
    let n = core.len() as int;
    assert forall|i: int| n <= i < s.len() implies p(#[trigger] s[i]) by {
        assert(s[i] == slashes[i - n]);
    }
    lemma_drop_last_while(s, p, n);
    assert(s.take(n) =~= core);
}

/// What is signed is the base's path and the path up to its query, with a slash between them.
pub proof fn law_signed_path_is_base_and_path(
    base_path: Seq<char>,
    path: Seq<char>,
    query: Seq<char>,
)
    requires
        !path.contains('?'),
    ensures
        signed_path(base_path, seq!['/'] + path) == base_path + seq!['/'] + path,
        signed_path(base_path, seq!['/'] + path + seq!['?'] + query) == base_path + seq!['/']
            + path,
        path.len() == 0 || path[0] != '/' ==> signed_path(base_path, path) == base_path + seq!['/']
            + path,
{
    let slashed = seq!['/'] + path;
    assert(!slashed.contains('?')) by {
        if slashed.contains('?') {
            let i = choose|i: int| 0 <= i < slashed.len() && slashed[i] == '?';
            assert(path[i - 1] == '?');
        }
    }
    law_text_is_cut_at_the_first(slashed, '?', query);
    assert(base_path + slashed =~= base_path + seq!['/'] + path);
    assert(rooted(slashed) == slashed);
    let full = slashed + seq!['?'] + query;
    assert(full[0] == '/');
    assert(rooted(full) == full);
}

/// The base's path is the path of its URL without the slashes behind it, and nothing where it is no
/// URL.
pub proof fn law_base_path(core: Seq<char>, slashes: Seq<char>)
    requires
        core.len() > 0 ==> core.last() != '/',
        forall|i: int| 0 <= i < slashes.len() ==> #[trigger] slashes[i] == '/',
    ensures
        base_path_of(Some(core + slashes)) == core,
        base_path_of(None) == Seq::<char>::empty(),
{
    lemma_without_slashes(core, slashes);
}

/// A request says what it calls: the method, the URL under the client's base and the path signed
/// under it. A read has no body.
pub proof fn law_request_says_what_it_calls<R>(
    client: RestClient,
    request: PreparedRequest<R>,
    method: Method,
    path: Seq<char>,
)
    ensures
        client.is_call(request, method, path) ==> {
            &&& request.method == method
            &&& request.url@ == joined_url(client.base_url(), path)
            &&& request.sig_path@ == signed_path(client.base_path(), path)
            &&& !request.sig_path@.contains('?')
        },
        client.is_read(request, path) ==> {
            &&& request.method == Method::Get
            &&& request.url@ == joined_url(client.base_url(), path)
            &&& request.sig_path@ == signed_path(client.base_path(), path)
            &&& request.body is None
        },
{
}

/// The flag for live trading is the one character `1`. Nothing else is, nor is an absent flag.
pub proof fn law_only_one_is_live(flag: Seq<char>, text: &str)
    ensures
        is_live(Some(flag)) <==> flag.len() == 1 && flag[0] == '1',
        !is_live(None),
        not_live_text() == "live trading disabled (set KALSHI_ENABLE_LIVE=1 to enable)"@,
        opt_view(Some(text)) == Some(text@),
        opt_view(None) is None,
{
    reveal_strlit("1");
    if flag.len() == 1 && flag[0] == '1' {
        assert(flag =~= "1"@);
    }
}

/// What a request is answered. Outside 200 to 299 the status and the body; inside, the record that
/// the body's JSON denotes, that record's error, or that there is no JSON.
pub proof fn law_answer_by_status<R: FromJson>(
    status: u16,
    body: String,
    json: Json,
    record: R::Model,
    error: DecodeError,
)
    ensures
        status < 200 || status > 299 ==> answered::<R>(status, body, Some(&json)) == Err::<
            R::Model,
            KalshiError,
        >(KalshiError::Api { status, body }),
        status < 200 || status > 299 ==> answered::<R>(status, body, None) == Err::<
            R::Model,
            KalshiError,
        >(KalshiError::Api { status, body }),
        200 <= status <= 299 && decoded::<R>(json) == Ok::<R::Model, DecodeError>(record)
            ==> answered::<R>(status, body, Some(&json)) == Ok::<R::Model, KalshiError>(record),
        200 <= status <= 299 && decoded::<R>(json) == Err::<R::Model, DecodeError>(error)
            ==> answered::<R>(status, body, Some(&json)) == Err::<R::Model, KalshiError>(
            KalshiError::Decode(error),
        ),
        200 <= status <= 299 ==> answered::<R>(status, body, None) == Err::<R::Model, KalshiError>(
            KalshiError::Decode(DecodeError::NotJson),
        ),
{
}

/// A parameter is its key, an equals sign and its value. Parameters stand behind a question mark,
/// with an ampersand between them.
pub proof fn law_query_is_its_parameters(
    path: Seq<char>,
    params: Seq<Seq<char>>,
    key: Seq<char>,
    value: Seq<char>,
)
    ensures
        param(key, Some(value)) == seq![key + seq!['='] + value],
        param(key, None) == Seq::<Seq<char>>::empty(),
        with_query(path, Seq::empty()) == path,
        with_query(path, seq![value]) == path + seq!['?'] + value,
        params.len() > 0 ==> with_query(path, params.push(value)) == with_query(path, params)
            + seq!['&'] + value,
        value.len() > 0 ==> filled(Some(value)) == Some(value),
        value.len() == 0 ==> filled(Some(value)) is None,
        filled(None) is None,
{
    reveal_strlit("=");
    reveal_strlit("?");
    reveal_strlit("&");
    assert(param(key, Some(value)) =~= seq![key + seq!['='] + value]) by {
        assert(key + "="@ + value =~= key + seq!['='] + value);
    }
    assert(with_query(path, seq![value]) =~= path + seq!['?'] + value);
    if params.len() > 0 {
        let more = params.push(value);
        assert(more.drop_last() =~= params);
        assert(with_query(path, more) =~= with_query(path, params) + seq!['&'] + value);
    }
}

proof fn lemma_one_param(path: Seq<char>, key: Seq<char>, value: Seq<char>)
    ensures
        with_query(path, seq![key + "="@ + value]) == path + ("?"@ + key + "="@) + value,
{
    assert(joined(seq![key + "="@ + value]) == key + "="@ + value);
    assert(path + "?"@ + (key + "="@ + value) =~= path + ("?"@ + key + "="@) + value);
}

proof fn lemma_next_param(
    path: Seq<char>,
    params: Seq<Seq<char>>,
    key: Seq<char>,
    value: Seq<char>,
)
    requires
        params.len() > 0,
    ensures
        with_query(path, params.push(key + "="@ + value)) == with_query(path, params) + ("&"@ + key
            + "="@) + value,
{
    let last = key + "="@ + value;
    let more = params.push(last);
    assert(more.drop_last() =~= params);
    assert(joined(more) == joined(params) + "&"@ + last);
    let front = path + "?"@;
    assert(front + (joined(params) + "&"@ + last) =~= front + joined(params) + ("&"@ + key + "="@)
        + value);
}

/// The path of the markets of a status, or of all.
pub proof fn law_markets_path(status: Seq<char>)
    ensures
        RestClient::markets_path(None) == "/markets"@,
        RestClient::markets_path(Some(status)) == "/markets"@ + "?status="@ + status,
{
    assert("?status="@ =~= "?"@ + "status"@ + "="@) by {
        reveal_strlit("?status=");
        reveal_strlit("?");
        reveal_strlit("status");
        reveal_strlit("=");
    }
    let status_param = "status"@ + "="@ + status;
    let path = "/markets"@;
    assert(RestClient::markets_path(None) == "/markets"@) by {
        assert(param("status"@, None) =~= Seq::<Seq<char>>::empty());
    }
    assert(RestClient::markets_path(Some(status)) == "/markets"@ + "?status="@ + status) by {
        assert(param("status"@, Some(status)) =~= seq![status_param]);
        lemma_one_param(path, "status"@, status);
    }
}

/// The path of the balance of a shard, or of all.
pub proof fn law_balance_path(shard: i64)
    ensures
        RestClient::balance_path(None) == "/portfolio/balance"@,
        RestClient::balance_path(Some(shard)) == "/portfolio/balance"@ + "?exchange_index="@
            + signed_numeral(shard as int),
{
    assert("?exchange_index="@ =~= "?"@ + "exchange_index"@ + "="@) by {
        reveal_strlit("?exchange_index=");
        reveal_strlit("?");
        reveal_strlit("exchange_index");
        reveal_strlit("=");
    }
    let shard_param = "exchange_index"@ + "="@ + signed_numeral(shard as int);
    let path = "/portfolio/balance"@;
    assert(RestClient::balance_path(None) == "/portfolio/balance"@) by {
        assert(param("exchange_index"@, None) =~= Seq::<Seq<char>>::empty());
    }
    assert(RestClient::balance_path(Some(shard)) == "/portfolio/balance"@ + "?exchange_index="@
        + signed_numeral(shard as int)) by {
        assert(param("exchange_index"@, Some(signed_numeral(shard as int))) =~= seq![shard_param]);
        lemma_one_param(path, "exchange_index"@, signed_numeral(shard as int));
    }
}

/// The path that cancels an order, with its shard and its market where they are named.
pub proof fn law_cancel_path(order_id: Seq<char>, shard: i64, market: Seq<char>)
    requires
        market.len() > 0,
    ensures
        RestClient::cancel_path(order_id, None, None) == "/portfolio/events/orders/"@ + order_id,
        RestClient::cancel_path(order_id, None, Some(market)) == "/portfolio/events/orders/"@
            + order_id + "?market_ticker="@ + market,
        RestClient::cancel_path(order_id, Some(shard), None) == "/portfolio/events/orders/"@
            + order_id + "?exchange_index="@ + signed_numeral(shard as int),
        RestClient::cancel_path(order_id, Some(shard), Some(market))
            == "/portfolio/events/orders/"@ + order_id + "?exchange_index="@
            + signed_numeral(shard as int) + "&market_ticker="@ + market,
{
    assert("?market_ticker="@ =~= "?"@ + "market_ticker"@ + "="@) by {
        reveal_strlit("?market_ticker=");
        reveal_strlit("?");
        reveal_strlit("market_ticker");
        reveal_strlit("=");
    }
    assert("?exchange_index="@ =~= "?"@ + "exchange_index"@ + "="@) by {
        reveal_strlit("?exchange_index=");
        reveal_strlit("?");
        reveal_strlit("exchange_index");
        reveal_strlit("=");
    }
    assert("&market_ticker="@ =~= "&"@ + "market_ticker"@ + "="@) by {
        reveal_strlit("&market_ticker=");
        reveal_strlit("&");
        reveal_strlit("market_ticker");
        reveal_strlit("=");
    }
    let shard_param = "exchange_index"@ + "="@ + signed_numeral(shard as int);
    let market_param = "market_ticker"@ + "="@ + market;
    let path = "/portfolio/events/orders/"@ + order_id;
    assert(RestClient::cancel_path(order_id, None, None) == "/portfolio/events/orders/"@
        + order_id) by {
        assert(param("exchange_index"@, None) + param("market_ticker"@, None)
            =~= Seq::<Seq<char>>::empty());
    }
    assert(RestClient::cancel_path(order_id, None, Some(market)) == "/portfolio/events/orders/"@
        + order_id + "?market_ticker="@ + market) by {
        assert(param("exchange_index"@, None) + param("market_ticker"@, Some(market))
            =~= seq![market_param]);
        lemma_one_param(path, "market_ticker"@, market);
    }
    assert(RestClient::cancel_path(order_id, Some(shard), None) == "/portfolio/events/orders/"@
        + order_id + "?exchange_index="@ + signed_numeral(shard as int)) by {
        assert(param("exchange_index"@, Some(signed_numeral(shard as int)))
            + param("market_ticker"@, None) =~= seq![shard_param]);
        lemma_one_param(path, "exchange_index"@, signed_numeral(shard as int));
    }
    assert(RestClient::cancel_path(order_id, Some(shard), Some(market))
        == "/portfolio/events/orders/"@ + order_id + "?exchange_index="@
        + signed_numeral(shard as int) + "&market_ticker="@ + market) by {
        assert(param("exchange_index"@, Some(signed_numeral(shard as int)))
            + param("market_ticker"@, Some(market)) =~= seq![shard_param, market_param]);
        lemma_one_param(path, "exchange_index"@, signed_numeral(shard as int));
        lemma_next_param(path, seq![shard_param], "market_ticker"@, market);
        assert(seq![shard_param].push(market_param) =~= seq![shard_param, market_param]);
    }
}

/// The path of a page of positions.
pub proof fn law_positions_path(ticker: Seq<char>, cursor: Seq<char>)
    requires
        cursor.len() > 0,
    ensures
        RestClient::positions_path(None, None) == "/portfolio/positions"@,
        RestClient::positions_path(None, Some(cursor)) == "/portfolio/positions"@ + "?cursor="@
            + cursor,
        RestClient::positions_path(Some(ticker), None) == "/portfolio/positions"@ + "?ticker="@
            + ticker,
        RestClient::positions_path(Some(ticker), Some(cursor)) == "/portfolio/positions"@
            + "?ticker="@ + ticker + "&cursor="@ + cursor,
{
    assert("?cursor="@ =~= "?"@ + "cursor"@ + "="@) by {
        reveal_strlit("?cursor=");
        reveal_strlit("?");
        reveal_strlit("cursor");
        reveal_strlit("=");
    }
    assert("?ticker="@ =~= "?"@ + "ticker"@ + "="@) by {
        reveal_strlit("?ticker=");
        reveal_strlit("?");
        reveal_strlit("ticker");
        reveal_strlit("=");
    }
    assert("&cursor="@ =~= "&"@ + "cursor"@ + "="@) by {
        reveal_strlit("&cursor=");
        reveal_strlit("&");
        reveal_strlit("cursor");
        reveal_strlit("=");
    }
    let ticker_param = "ticker"@ + "="@ + ticker;
    let cursor_param = "cursor"@ + "="@ + cursor;
    let path = "/portfolio/positions"@;
    assert(RestClient::positions_path(None, None) == "/portfolio/positions"@) by {
        assert(param("ticker"@, None) + param("cursor"@, None) =~= Seq::<Seq<char>>::empty());
    }
    assert(RestClient::positions_path(None, Some(cursor)) == "/portfolio/positions"@ + "?cursor="@
        + cursor) by {
        assert(param("ticker"@, None) + param("cursor"@, Some(cursor)) =~= seq![cursor_param]);
        lemma_one_param(path, "cursor"@, cursor);
    }
    assert(RestClient::positions_path(Some(ticker), None) == "/portfolio/positions"@ + "?ticker="@
        + ticker) by {
        assert(param("ticker"@, Some(ticker)) + param("cursor"@, None) =~= seq![ticker_param]);
        lemma_one_param(path, "ticker"@, ticker);
    }
    assert(RestClient::positions_path(Some(ticker), Some(cursor)) == "/portfolio/positions"@
        + "?ticker="@ + ticker + "&cursor="@ + cursor) by {
        assert(param("ticker"@, Some(ticker)) + param("cursor"@, Some(cursor))
            =~= seq![ticker_param, cursor_param]);
        lemma_one_param(path, "ticker"@, ticker);
        lemma_next_param(path, seq![ticker_param], "cursor"@, cursor);
        assert(seq![ticker_param].push(cursor_param) =~= seq![ticker_param, cursor_param]);
    }
}

/// The path of a page of fills.
pub proof fn law_fills_path(ticker: Seq<char>, order_id: Seq<char>, cursor: Seq<char>)
    requires
        cursor.len() > 0,
    ensures
        RestClient::fills_path(None, None, None) == "/portfolio/fills"@,
        RestClient::fills_path(None, None, Some(cursor)) == "/portfolio/fills"@ + "?cursor="@
            + cursor,
        RestClient::fills_path(None, Some(order_id), None) == "/portfolio/fills"@ + "?order_id="@
            + order_id,
        RestClient::fills_path(None, Some(order_id), Some(cursor)) == "/portfolio/fills"@
            + "?order_id="@ + order_id + "&cursor="@ + cursor,
        RestClient::fills_path(Some(ticker), None, None) == "/portfolio/fills"@ + "?ticker="@
            + ticker,
        RestClient::fills_path(Some(ticker), None, Some(cursor)) == "/portfolio/fills"@
            + "?ticker="@ + ticker + "&cursor="@ + cursor,
        RestClient::fills_path(Some(ticker), Some(order_id), None) == "/portfolio/fills"@
            + "?ticker="@ + ticker + "&order_id="@ + order_id,
        RestClient::fills_path(Some(ticker), Some(order_id), Some(cursor)) == "/portfolio/fills"@
            + "?ticker="@ + ticker + "&order_id="@ + order_id + "&cursor="@ + cursor,
{
    assert("?cursor="@ =~= "?"@ + "cursor"@ + "="@) by {
        reveal_strlit("?cursor=");
        reveal_strlit("?");
        reveal_strlit("cursor");
        reveal_strlit("=");
    }
    assert("?order_id="@ =~= "?"@ + "order_id"@ + "="@) by {
        reveal_strlit("?order_id=");
        reveal_strlit("?");
        reveal_strlit("order_id");
        reveal_strlit("=");
    }
    assert("&cursor="@ =~= "&"@ + "cursor"@ + "="@) by {
        reveal_strlit("&cursor=");
        reveal_strlit("&");
        reveal_strlit("cursor");
        reveal_strlit("=");
    }
    assert("?ticker="@ =~= "?"@ + "ticker"@ + "="@) by {
        reveal_strlit("?ticker=");
        reveal_strlit("?");
        reveal_strlit("ticker");
        reveal_strlit("=");
    }
    assert("&order_id="@ =~= "&"@ + "order_id"@ + "="@) by {
        reveal_strlit("&order_id=");
        reveal_strlit("&");
        reveal_strlit("order_id");
        reveal_strlit("=");
    }
    let ticker_param = "ticker"@ + "="@ + ticker;
    let order_id_param = "order_id"@ + "="@ + order_id;
    let cursor_param = "cursor"@ + "="@ + cursor;
    let path = "/portfolio/fills"@;
    assert(RestClient::fills_path(None, None, None) == "/portfolio/fills"@) by {
        assert(param("ticker"@, None) + param("order_id"@, None) + param("cursor"@, None)
            =~= Seq::<Seq<char>>::empty());
    }
    assert(RestClient::fills_path(None, None, Some(cursor)) == "/portfolio/fills"@ + "?cursor="@
        + cursor) by {
        assert(param("ticker"@, None) + param("order_id"@, None) + param("cursor"@, Some(cursor))
            =~= seq![cursor_param]);
        lemma_one_param(path, "cursor"@, cursor);
    }
    assert(RestClient::fills_path(None, Some(order_id), None) == "/portfolio/fills"@
        + "?order_id="@ + order_id) by {
        assert(param("ticker"@, None) + param("order_id"@, Some(order_id))
            + param("cursor"@, None) =~= seq![order_id_param]);
        lemma_one_param(path, "order_id"@, order_id);
    }
    assert(RestClient::fills_path(None, Some(order_id), Some(cursor)) == "/portfolio/fills"@
        + "?order_id="@ + order_id + "&cursor="@ + cursor) by {
        assert(param("ticker"@, None) + param("order_id"@, Some(order_id))
            + param("cursor"@, Some(cursor)) =~= seq![order_id_param, cursor_param]);
        lemma_one_param(path, "order_id"@, order_id);
        lemma_next_param(path, seq![order_id_param], "cursor"@, cursor);
        assert(seq![order_id_param].push(cursor_param) =~= seq![order_id_param, cursor_param]);
    }
    assert(RestClient::fills_path(Some(ticker), None, None) == "/portfolio/fills"@ + "?ticker="@
        + ticker) by {
        assert(param("ticker"@, Some(ticker)) + param("order_id"@, None) + param("cursor"@, None)
            =~= seq![ticker_param]);
        lemma_one_param(path, "ticker"@, ticker);
    }
    assert(RestClient::fills_path(Some(ticker), None, Some(cursor)) == "/portfolio/fills"@
        + "?ticker="@ + ticker + "&cursor="@ + cursor) by {
        assert(param("ticker"@, Some(ticker)) + param("order_id"@, None)
            + param("cursor"@, Some(cursor)) =~= seq![ticker_param, cursor_param]);
        lemma_one_param(path, "ticker"@, ticker);
        lemma_next_param(path, seq![ticker_param], "cursor"@, cursor);
        assert(seq![ticker_param].push(cursor_param) =~= seq![ticker_param, cursor_param]);
    }
    assert(RestClient::fills_path(Some(ticker), Some(order_id), None) == "/portfolio/fills"@
        + "?ticker="@ + ticker + "&order_id="@ + order_id) by {
        assert(param("ticker"@, Some(ticker)) + param("order_id"@, Some(order_id))
            + param("cursor"@, None) =~= seq![ticker_param, order_id_param]);
        lemma_one_param(path, "ticker"@, ticker);
        lemma_next_param(path, seq![ticker_param], "order_id"@, order_id);
        assert(seq![ticker_param].push(order_id_param) =~= seq![ticker_param, order_id_param]);
    }
    assert(RestClient::fills_path(Some(ticker), Some(order_id), Some(cursor))
        == "/portfolio/fills"@ + "?ticker="@ + ticker + "&order_id="@ + order_id + "&cursor="@
        + cursor) by {
        assert(param("ticker"@, Some(ticker)) + param("order_id"@, Some(order_id))
            + param("cursor"@, Some(cursor)) =~= seq![ticker_param, order_id_param, cursor_param]);
        lemma_one_param(path, "ticker"@, ticker);
        lemma_next_param(path, seq![ticker_param], "order_id"@, order_id);
        assert(seq![ticker_param].push(order_id_param) =~= seq![ticker_param, order_id_param]);
        lemma_next_param(path, seq![ticker_param, order_id_param], "cursor"@, cursor);
        assert(seq![ticker_param, order_id_param].push(cursor_param)
            =~= seq![ticker_param, order_id_param, cursor_param]);
    }
}

/// The path of a page of orders.
pub proof fn law_orders_path(status: Seq<char>, ticker: Seq<char>, cursor: Seq<char>)
    requires
        cursor.len() > 0,
    ensures
        RestClient::orders_path(None, None, None) == "/portfolio/orders"@,
        RestClient::orders_path(None, None, Some(cursor)) == "/portfolio/orders"@ + "?cursor="@
            + cursor,
        RestClient::orders_path(None, Some(ticker), None) == "/portfolio/orders"@ + "?ticker="@
            + ticker,
        RestClient::orders_path(None, Some(ticker), Some(cursor)) == "/portfolio/orders"@
            + "?ticker="@ + ticker + "&cursor="@ + cursor,
        RestClient::orders_path(Some(status), None, None) == "/portfolio/orders"@ + "?status="@
            + status,
        RestClient::orders_path(Some(status), None, Some(cursor)) == "/portfolio/orders"@
            + "?status="@ + status + "&cursor="@ + cursor,
        RestClient::orders_path(Some(status), Some(ticker), None) == "/portfolio/orders"@
            + "?status="@ + status + "&ticker="@ + ticker,
        RestClient::orders_path(Some(status), Some(ticker), Some(cursor)) == "/portfolio/orders"@
            + "?status="@ + status + "&ticker="@ + ticker + "&cursor="@ + cursor,
{
    assert("?cursor="@ =~= "?"@ + "cursor"@ + "="@) by {
        reveal_strlit("?cursor=");
        reveal_strlit("?");
        reveal_strlit("cursor");
        reveal_strlit("=");
    }
    assert("?ticker="@ =~= "?"@ + "ticker"@ + "="@) by {
        reveal_strlit("?ticker=");
        reveal_strlit("?");
        reveal_strlit("ticker");
        reveal_strlit("=");
    }
    assert("&cursor="@ =~= "&"@ + "cursor"@ + "="@) by {
        reveal_strlit("&cursor=");
        reveal_strlit("&");
        reveal_strlit("cursor");
        reveal_strlit("=");
    }
    assert("?status="@ =~= "?"@ + "status"@ + "="@) by {
        reveal_strlit("?status=");
        reveal_strlit("?");
        reveal_strlit("status");
        reveal_strlit("=");
    }
    assert("&ticker="@ =~= "&"@ + "ticker"@ + "="@) by {
        reveal_strlit("&ticker=");
        reveal_strlit("&");
        reveal_strlit("ticker");
        reveal_strlit("=");
    }
    let status_param = "status"@ + "="@ + status;
    let ticker_param = "ticker"@ + "="@ + ticker;
    let cursor_param = "cursor"@ + "="@ + cursor;
    let path = "/portfolio/orders"@;
    assert(RestClient::orders_path(None, None, None) == "/portfolio/orders"@) by {
        assert(param("status"@, None) + param("ticker"@, None) + param("cursor"@, None)
            =~= Seq::<Seq<char>>::empty());
    }
    assert(RestClient::orders_path(None, None, Some(cursor)) == "/portfolio/orders"@ + "?cursor="@
        + cursor) by {
        assert(param("status"@, None) + param("ticker"@, None) + param("cursor"@, Some(cursor))
            =~= seq![cursor_param]);
        lemma_one_param(path, "cursor"@, cursor);
    }
    assert(RestClient::orders_path(None, Some(ticker), None) == "/portfolio/orders"@ + "?ticker="@
        + ticker) by {
        assert(param("status"@, None) + param("ticker"@, Some(ticker)) + param("cursor"@, None)
            =~= seq![ticker_param]);
        lemma_one_param(path, "ticker"@, ticker);
    }
    assert(RestClient::orders_path(None, Some(ticker), Some(cursor)) == "/portfolio/orders"@
        + "?ticker="@ + ticker + "&cursor="@ + cursor) by {
        assert(param("status"@, None) + param("ticker"@, Some(ticker))
            + param("cursor"@, Some(cursor)) =~= seq![ticker_param, cursor_param]);
        lemma_one_param(path, "ticker"@, ticker);
        lemma_next_param(path, seq![ticker_param], "cursor"@, cursor);
        assert(seq![ticker_param].push(cursor_param) =~= seq![ticker_param, cursor_param]);
    }
    assert(RestClient::orders_path(Some(status), None, None) == "/portfolio/orders"@ + "?status="@
        + status) by {
        assert(param("status"@, Some(status)) + param("ticker"@, None) + param("cursor"@, None)
            =~= seq![status_param]);
        lemma_one_param(path, "status"@, status);
    }
    assert(RestClient::orders_path(Some(status), None, Some(cursor)) == "/portfolio/orders"@
        + "?status="@ + status + "&cursor="@ + cursor) by {
        assert(param("status"@, Some(status)) + param("ticker"@, None)
            + param("cursor"@, Some(cursor)) =~= seq![status_param, cursor_param]);
        lemma_one_param(path, "status"@, status);
        lemma_next_param(path, seq![status_param], "cursor"@, cursor);
        assert(seq![status_param].push(cursor_param) =~= seq![status_param, cursor_param]);
    }
    assert(RestClient::orders_path(Some(status), Some(ticker), None) == "/portfolio/orders"@
        + "?status="@ + status + "&ticker="@ + ticker) by {
        assert(param("status"@, Some(status)) + param("ticker"@, Some(ticker))
            + param("cursor"@, None) =~= seq![status_param, ticker_param]);
        lemma_one_param(path, "status"@, status);
        lemma_next_param(path, seq![status_param], "ticker"@, ticker);
        assert(seq![status_param].push(ticker_param) =~= seq![status_param, ticker_param]);
    }
    assert(RestClient::orders_path(Some(status), Some(ticker), Some(cursor))
        == "/portfolio/orders"@ + "?status="@ + status + "&ticker="@ + ticker + "&cursor="@
        + cursor) by {
        assert(param("status"@, Some(status)) + param("ticker"@, Some(ticker))
            + param("cursor"@, Some(cursor)) =~= seq![status_param, ticker_param, cursor_param]);
        lemma_one_param(path, "status"@, status);
        lemma_next_param(path, seq![status_param], "ticker"@, ticker);
        assert(seq![status_param].push(ticker_param) =~= seq![status_param, ticker_param]);
        lemma_next_param(path, seq![status_param, ticker_param], "cursor"@, cursor);
        assert(seq![status_param, ticker_param].push(cursor_param)
            =~= seq![status_param, ticker_param, cursor_param]);
    }
}

/// The path of an order's events is that of all orders' and the order's id.
pub proof fn law_order_event_path(order_id: Seq<char>)
    ensures
        RestClient::order_event_path(order_id) == "/portfolio/events/orders/"@ + order_id,
{
}

} // verus!
