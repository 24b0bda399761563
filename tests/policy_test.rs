use crypto_tracker::rate_gate::RateGate;
use crypto_tracker::policy::{
    finish_history, finish_list, finish_token, history_from_cached, start_history, start_list,
    start_token, HistoryResponse, HistoryStep, ListResponse, ListStep, TokenResponse, TokenStep,
    Upstream, HISTORY_RETRY_AFTER_SECS, LIST_RETRY_AFTER_SECS, TOP_TOKENS_LIMIT,
};

fn failed(message: &str) -> Upstream {
    Upstream::Failed { message: message.to_string() }
}

#[test]
fn list_serves_fetched_tokens_when_gate_open() {
    let mut limiter = RateGate::new();
    let keys = vec![5u64, 9];
    assert_eq!(start_list(&mut limiter, 100, &keys), ListStep::Fetch);
    assert_eq!(limiter.last_call_at, Some(100));
    let r = finish_list(&mut limiter, 100, &keys, &Upstream::Delivered { items: 3 });
    assert_eq!(r, ListResponse::Fetched);
    assert_eq!(TOP_TOKENS_LIMIT, 100);
}

#[test]
fn list_failed_fetch_serves_cache_by_market_cap() {
    let mut limiter = RateGate::new();
    let keys = vec![10u64, 30, 20];
    assert_eq!(start_list(&mut limiter, 0, &keys), ListStep::Fetch);
    let r = finish_list(&mut limiter, 0, &keys, &failed("connection refused"));
    assert_eq!(r, ListResponse::Cached { order: vec![1, 2, 0] });
    assert_eq!(limiter.rate_limited_until, None);
}

#[test]
fn list_empty_fetch_falls_back_to_cache() {
    let mut limiter = RateGate::new();
    let keys = vec![7u64];
    let r = finish_list(&mut limiter, 0, &keys, &Upstream::Delivered { items: 0 });
    assert_eq!(r, ListResponse::Cached { order: vec![0] });
}

#[test]
fn list_empty_cache_closed_gate_is_unavailable() {
    let mut limiter = RateGate::new();
    limiter.record_call(50);
    let r = start_list(&mut limiter, 51, &Vec::new());
    assert_eq!(r, ListStep::Respond(ListResponse::Unavailable { retry_after: 60 }));
    assert_eq!(LIST_RETRY_AFTER_SECS, 60);
}

#[test]
fn list_gate_closed_empty_upstream_orders_cache() {
    // bitcoin has market cap 100, eth 200, stored in that order
    let mut limiter = RateGate::new();
    limiter.record_call(0);
    let keys = vec![100u64, 200];
    let r = start_list(&mut limiter, 1, &keys);
    assert_eq!(r, ListStep::Respond(ListResponse::Cached { order: vec![1, 0] }));
    let names = ["bitcoin", "eth"];
    if let ListStep::Respond(ListResponse::Cached { order }) = r {
        let listed: Vec<&str> = order.iter().map(|&i| names[i]).collect();
        assert_eq!(listed, vec!["eth", "bitcoin"]);
    }
    // An empty answer from upstream falls back the same way.
    let mut open = RateGate::new();
    assert_eq!(start_list(&mut open, 1, &keys), ListStep::Fetch);
    let r = finish_list(&mut open, 1, &keys, &Upstream::Delivered { items: 0 });
    assert_eq!(r, ListResponse::Cached { order: vec![1, 0] });
}

#[test]
fn list_throttled_failure_starts_backoff() {
    let mut limiter = RateGate::new();
    assert_eq!(start_list(&mut limiter, 10, &Vec::new()), ListStep::Fetch);
    let r = finish_list(&mut limiter, 10, &Vec::new(), &failed("API returned error: 429 Too Many Requests"));
    assert_eq!(r, ListResponse::Unavailable { retry_after: 60 });
    assert_eq!(limiter.rate_limited_until, Some(70));
    assert_eq!(start_list(&mut limiter, 69, &Vec::new()), ListStep::Respond(ListResponse::Unavailable { retry_after: 60 }));
    assert_eq!(start_list(&mut limiter, 70, &Vec::new()), ListStep::Fetch);
}

#[test]
fn list_rate_word_in_any_case_starts_backoff() {
    let mut limiter = RateGate::new();
    finish_list(&mut limiter, 5, &Vec::new(), &failed("RATE limit exceeded"));
    assert_eq!(limiter.rate_limited_until, Some(65));
}

#[test]
fn cached_token_never_triggers_upstream() {
    let mut limiter = RateGate::new();
    let mut upstream_calls = 0;
    for now in [0i64, 1, 5, 100, 100, 1000] {
        match start_token(&mut limiter, now, true) {
            TokenStep::Fetch => upstream_calls += 1,
            step => assert_eq!(step, TokenStep::ServeCached),
        }
    }
    assert_eq!(upstream_calls, 0);
    assert_eq!(limiter.last_call_at, None);
}

#[test]
fn uncached_token_fetched_then_served() {
    let mut limiter = RateGate::new();
    assert_eq!(start_token(&mut limiter, 7, false), TokenStep::Fetch);
    assert_eq!(finish_token(&mut limiter, 7, &Upstream::Delivered { items: 1 }), TokenResponse::Fetched);
    assert_eq!(start_token(&mut limiter, 8, false), TokenStep::NotFound);
}

#[test]
fn uncached_token_failures_are_not_found() {
    let mut limiter = RateGate::new();
    assert_eq!(finish_token(&mut limiter, 7, &Upstream::Delivered { items: 0 }), TokenResponse::NotFound);
    assert_eq!(finish_token(&mut limiter, 7, &failed("timeout")), TokenResponse::NotFound);
    assert_eq!(limiter.rate_limited_until, None);
    assert_eq!(finish_token(&mut limiter, 7, &failed("status 429")), TokenResponse::NotFound);
    assert_eq!(limiter.rate_limited_until, Some(67));
}

#[test]
fn history_fetch_then_cached_on_closed_gate() {
    let mut limiter = RateGate::new();
    assert_eq!(start_history(&mut limiter, 300), HistoryStep::Fetch);
    assert_eq!(finish_history(&mut limiter, 300, &Upstream::Delivered { items: 30 }), HistoryResponse::Fetched);
    assert_eq!(start_history(&mut limiter, 301), HistoryStep::ReadCache);
    assert_eq!(history_from_cached(true), HistoryResponse::Cached);
}

#[test]
fn history_unavailable_without_cache_or_on_failure() {
    assert_eq!(history_from_cached(false), HistoryResponse::Unavailable { retry_after: 30 });
    assert_eq!(HISTORY_RETRY_AFTER_SECS, 30);
    let mut limiter = RateGate::new();
    assert_eq!(start_history(&mut limiter, 0), HistoryStep::Fetch);
    let r = finish_history(&mut limiter, 0, &failed("Too many requests: rate limited"));
    assert_eq!(r, HistoryResponse::Unavailable { retry_after: 30 });
    assert_eq!(limiter.rate_limited_until, Some(60));
}

#[test]
fn test_get_token_by_id_not_found() {
    // Not cached, and the provider knows no such token.
    let mut gate = RateGate::new();
    assert_eq!(start_token(&mut gate, 0, false), TokenStep::Fetch);
    let r = finish_token(&mut gate, 0, &failed("Token not found"));
    assert_eq!(r, TokenResponse::NotFound);
}
