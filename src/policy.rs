//! The cache-aside decisions taken for each request.
//!
//! Each request type is a short exchange: a `start_*` step consults the cache
//! and the limiter and says whether to call upstream; a `finish_*` step takes what
//! the call gave back, updates the limiter, and says what to respond. The caller
//! performs the reads, calls and writes in between.
use vstd::prelude::*;
use crate::rate_gate::{RateGate, LATEST_TIME, MIN_REQUEST_INTERVAL_SECS, acquire, after_throttle, call_allowed};
use crate::catalog::{market_cap_order, is_market_cap_order};
use crate::text::{is_throttle_signal, signals_throttling};

verus! {

/// How many tokens a list refresh asks the provider for.
pub const TOP_TOKENS_LIMIT: u32 = 100;

/// Seconds a client is asked to wait when no token list can be served.
pub const LIST_RETRY_AFTER_SECS: u32 = 60;

/// Seconds a client is asked to wait when no price history can be served.
pub const HISTORY_RETRY_AFTER_SECS: u32 = 30;

/// What an upstream call gave back.
pub enum Upstream {
    /// The provider answered with this many records.
    Delivered { items: usize },
    /// The call failed; the message describes why.
    Failed { message: String },
}

/// The limiter once an upstream call has come back at `now`: a failure that
/// signals throttling starts the backoff, anything else leaves it as it was.
pub open spec fn after_upstream(g: RateGate, now: i64, result: Upstream) -> RateGate {
    match result {
        Upstream::Failed { message } => if signals_throttling(message@) {
            after_throttle(g, now)
        } else {
            g
        },
        Upstream::Delivered { .. } => g,
    }
}

/// The provider delivered at least one record.
pub open spec fn delivered_some(result: Upstream) -> bool {
    match result {
        Upstream::Delivered { items } => items > 0,
        Upstream::Failed { .. } => false,
    }
}

fn note_upstream(limiter: &mut RateGate, now: i64, result: &Upstream)
    requires
        now <= LATEST_TIME,
    ensures
        *final(limiter) == after_upstream(*old(limiter), now, *result),
{
    if let Upstream::Failed { message } = result {
        if is_throttle_signal(message.as_str()) {
            limiter.record_throttled(now);
        }
    }
}

// ----- token list -----

/// What a token list request answers with.
#[derive(Debug, PartialEq, Eq)]
pub enum ListResponse {
    /// The freshly fetched tokens, with their storage left to the background.
    Fetched,
    /// The cached tokens, listed at the positions of `order`.
    Cached { order: Vec<usize> },
    /// Nothing to serve; try again after the given number of seconds.
    Unavailable { retry_after: u32 },
}

/// The next move of a token list request.
#[derive(Debug, PartialEq, Eq)]
pub enum ListStep {
    /// Fetch the top tokens from the provider.
    Fetch,
    /// Answer without calling upstream.
    Respond(ListResponse),
}

/// `r` is the list answer when fresh tokens are not served, with the cache
/// holding tokens of market cap keys `keys` in storage order: the cached tokens
/// by market cap descending if there are any, else a hint to retry.
pub open spec fn is_list_fallback(keys: Seq<u64>, r: ListResponse) -> bool {
    if keys.len() > 0 {
        match r {
            ListResponse::Cached { order } => is_market_cap_order(keys, order@),
            _ => false,
        }
    } else {
        r == ListResponse::Unavailable { retry_after: LIST_RETRY_AFTER_SECS }
    }
}

/// A list request that read cached tokens of market cap keys `keys` at `now`
/// moves the limiter from `g` to `next` and takes step `r`: it fetches exactly
/// when the limiter lets the call through, and otherwise falls back.
pub open spec fn list_started(g: RateGate, now: i64, keys: Seq<u64>, next: RateGate, r: ListStep) -> bool {
    &&& next == acquire(g, now).0
    &&& acquire(g, now).1 ==> r == ListStep::Fetch
    &&& !acquire(g, now).1 ==> match r {
        ListStep::Respond(resp) => is_list_fallback(keys, resp),
        ListStep::Fetch => false,
    }
}

/// The answer `r` of a list request once its refresh gave `result`: the
/// fetched tokens if there is at least one, else the fallback.
pub open spec fn list_finished(keys: Seq<u64>, result: Upstream, r: ListResponse) -> bool {
    if delivered_some(result) {
        r == ListResponse::Fetched
    } else {
        is_list_fallback(keys, r)
    }
}

fn list_fallback(cached_keys: &Vec<u64>) -> (r: ListResponse)
    ensures
        is_list_fallback(cached_keys@, r),
{
    if cached_keys.len() > 0 {
        ListResponse::Cached { order: market_cap_order(cached_keys) }
    } else {
        ListResponse::Unavailable { retry_after: LIST_RETRY_AFTER_SECS }
    }
}

/// First step of a token list request, once the cache has been read (the
/// market cap keys of its tokens in storage order): a refresh is attempted
/// when the limiter lets it through.
pub fn start_list(limiter: &mut RateGate, now: i64, cached_keys: &Vec<u64>) -> (r: ListStep)
    ensures
        list_started(*old(limiter), now, cached_keys@, *final(limiter), r),
{
    if limiter.try_acquire(now) {
        ListStep::Fetch
    } else {
        ListStep::Respond(list_fallback(cached_keys))
    }
}

/// Last step of a token list request: serve what was fetched if anything was,
/// else fall back on the cache; a throttling failure starts the backoff.
pub fn finish_list(
    limiter: &mut RateGate,
    now: i64,
    cached_keys: &Vec<u64>,
    result: &Upstream,
) -> (r: ListResponse)
    requires
        now <= LATEST_TIME,
    ensures
        *final(limiter) == after_upstream(*old(limiter), now, *result),
        list_finished(cached_keys@, *result, r),
{
    note_upstream(limiter, now, result);
    match result {
        Upstream::Delivered { items } => {
            if *items > 0 {
                return ListResponse::Fetched;
            }
        },
        Upstream::Failed { .. } => {},
    }
    list_fallback(cached_keys)
}

/// With tokens in the cache, a list refresh that fails serves the cached
/// tokens by market cap descending.
pub proof fn lemma_failed_refresh_serves_cache(keys: Seq<u64>, message: String, r: ListResponse)
    requires
        keys.len() > 0,
        list_finished(keys, Upstream::Failed { message }, r),
    ensures
        r matches ListResponse::Cached { order } && is_market_cap_order(keys, order@),
{
}

/// With an empty cache and a closed limiter, a list request answers that the data
/// is unavailable, with a retry hint of sixty seconds, and leaves the limiter as
/// it was.
pub proof fn lemma_empty_cache_closed_gate(g: RateGate, now: i64, next: RateGate, r: ListStep)
    requires
        !call_allowed(g, now as int),
        list_started(g, now, Seq::empty(), next, r),
    ensures
        next == g,
        r == ListStep::Respond(ListResponse::Unavailable { retry_after: 60 }),
{
}

// ----- single token -----

/// The next move of a single token request.
#[derive(Debug, PartialEq, Eq, Structural)]
pub enum TokenStep {
    /// Serve the cached token.
    ServeCached,
    /// Fetch the token from the provider.
    Fetch,
    /// Answer that the token was not found.
    NotFound,
}

/// What a single token request answers with once the provider was asked.
#[derive(Debug, PartialEq, Eq, Structural)]
pub enum TokenResponse {
    /// Store the fetched token, then serve it.
    Fetched,
    /// Answer that the token was not found.
    NotFound,
}

/// The limiter and the next move of a single token request at `now`, given
/// whether the cache holds the token.
pub open spec fn token_start(g: RateGate, now: i64, cached: bool) -> (RateGate, TokenStep) {
    if cached {
        (g, TokenStep::ServeCached)
    } else {
        let (next, granted) = acquire(g, now);
        (next, if granted { TokenStep::Fetch } else { TokenStep::NotFound })
    }
}

/// The single token answer once the provider has answered.
pub open spec fn token_finish(result: Upstream) -> TokenResponse {
    if delivered_some(result) {
        TokenResponse::Fetched
    } else {
        TokenResponse::NotFound
    }
}

/// First step of a single token request, once the cache has been looked up: a
/// cached token is served as it is and the limiter is not consulted.
pub fn start_token(limiter: &mut RateGate, now: i64, cached: bool) -> (r: TokenStep)
    ensures
        (*final(limiter), r) == token_start(*old(limiter), now, cached),
{
    if cached {
        TokenStep::ServeCached
    } else if limiter.try_acquire(now) {
        TokenStep::Fetch
    } else {
        TokenStep::NotFound
    }
}

/// Last step of a single token request.
pub fn finish_token(limiter: &mut RateGate, now: i64, result: &Upstream) -> (r: TokenResponse)
    requires
        now <= LATEST_TIME,
    ensures
        *final(limiter) == after_upstream(*old(limiter), now, *result),
        r == token_finish(*result),
{
    note_upstream(limiter, now, result);
    match result {
        Upstream::Delivered { items } => if *items > 0 {
            TokenResponse::Fetched
        } else {
            TokenResponse::NotFound
        },
        Upstream::Failed { .. } => TokenResponse::NotFound,
    }
}

// ----- price history -----

/// The next move of a price history request.
#[derive(Debug, PartialEq, Eq, Structural)]
pub enum HistoryStep {
    /// Fetch the series from the provider.
    Fetch,
    /// Look for a cached series.
    ReadCache,
}

/// What a price history request answers with.
#[derive(Debug, PartialEq, Eq, Structural)]
pub enum HistoryResponse {
    /// Store the fetched series in place of any earlier one, then serve it.
    Fetched,
    /// Serve the cached series.
    Cached,
    /// Nothing to serve; try again after the given number of seconds.
    Unavailable { retry_after: u32 },
}

/// The limiter and the next move of a price history request at `now`.
pub open spec fn history_start(g: RateGate, now: i64) -> (RateGate, HistoryStep) {
    let (next, granted) = acquire(g, now);
    (next, if granted { HistoryStep::Fetch } else { HistoryStep::ReadCache })
}

/// The history answer once the cache has been looked up.
pub open spec fn history_from_cache(found: bool) -> HistoryResponse {
    if found {
        HistoryResponse::Cached
    } else {
        HistoryResponse::Unavailable { retry_after: HISTORY_RETRY_AFTER_SECS }
    }
}

/// The history answer once the provider has answered.
pub open spec fn history_finish(result: Upstream) -> HistoryResponse {
    match result {
        Upstream::Delivered { .. } => HistoryResponse::Fetched,
        Upstream::Failed { .. } => HistoryResponse::Unavailable {
            retry_after: HISTORY_RETRY_AFTER_SECS,
        },
    }
}

/// First step of a price history request: fetch when the limiter lets the call
/// through, else turn to the cache.
pub fn start_history(limiter: &mut RateGate, now: i64) -> (r: HistoryStep)
    ensures
        (*final(limiter), r) == history_start(*old(limiter), now),
{
    if limiter.try_acquire(now) {
        HistoryStep::Fetch
    } else {
        HistoryStep::ReadCache
    }
}

/// The answer of a price history request that turned to the cache.
pub fn history_from_cached(found: bool) -> (r: HistoryResponse)
    ensures
        r == history_from_cache(found),
{
    if found {
        HistoryResponse::Cached
    } else {
        HistoryResponse::Unavailable { retry_after: HISTORY_RETRY_AFTER_SECS }
    }
}

/// Last step of a price history request that called the provider.
pub fn finish_history(limiter: &mut RateGate, now: i64, result: &Upstream) -> (r: HistoryResponse)
    requires
        now <= LATEST_TIME,
    ensures
        *final(limiter) == after_upstream(*old(limiter), now, *result),
        r == history_finish(*result),
{
    note_upstream(limiter, now, result);
    match result {
        Upstream::Delivered { .. } => HistoryResponse::Fetched,
        Upstream::Failed { .. } => HistoryResponse::Unavailable {
            retry_after: HISTORY_RETRY_AFTER_SECS,
        },
    }
}

// ----- laws across requests -----

/// A cached token is served from the cache by every later request, whenever
/// it comes: the limiter is neither consulted nor changed, so no upstream call is
/// made.
pub proof fn lemma_cached_token_never_fetches(g: RateGate, now: i64)
    ensures
        token_start(g, now, true) == (g, TokenStep::ServeCached),
{
}

/// A history fetch granted at `t` that succeeded is followed, for any request
/// before the minimum interval has passed, by a turn to the cache, which then
/// serves the stored series.
pub proof fn lemma_history_fetch_then_cache(g: RateGate, t: i64, items: usize, now: i64)
    requires
        call_allowed(g, t as int),
        t <= now < t + MIN_REQUEST_INTERVAL_SECS,
    ensures
        history_start(g, t).1 == HistoryStep::Fetch,
        history_finish(Upstream::Delivered { items }) == HistoryResponse::Fetched,
        history_start(
            after_upstream(history_start(g, t).0, t, Upstream::Delivered { items }),
            now,
        ).1 == HistoryStep::ReadCache,
        history_from_cache(true) == HistoryResponse::Cached,
{
}

} // verus!
