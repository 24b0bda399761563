use crypto_tracker::rate_gate::{RateGate, MIN_REQUEST_INTERVAL_SECS, RATE_LIMIT_BACKOFF_SECS};

#[test]
fn test_rate_limit_calculation() {
    let mut limiter = RateGate::new();
    let last_call = 1000;
    limiter.record_call(last_call);

    let current_time = 1001;
    assert!(current_time - last_call < MIN_REQUEST_INTERVAL_SECS);
    assert!(!limiter.may_call(current_time));

    let current_time_allowed = 1002;
    assert!(current_time_allowed - last_call >= MIN_REQUEST_INTERVAL_SECS);
    assert!(limiter.may_call(current_time_allowed));
}

#[test]
fn test_backoff_expiry_calculation() {
    let mut limiter = RateGate::new();
    let rate_limited_at = 1000;
    limiter.record_throttled(rate_limited_at);

    let current_time = 1030;
    assert!(current_time - rate_limited_at < RATE_LIMIT_BACKOFF_SECS);
    assert!(!limiter.may_call(current_time));

    let current_time_after_backoff = 1061;
    assert!(current_time_after_backoff - rate_limited_at >= RATE_LIMIT_BACKOFF_SECS);
    assert!(limiter.may_call(current_time_after_backoff));
}

#[test]
fn test_rate_limit_state_transitions() {
    // Normal operation
    let mut limiter = RateGate::new();
    limiter.record_call(1000);
    let current_time = 1002;
    assert!(limiter.may_call(current_time));

    // Rate limited (429 received)
    limiter.record_throttled(current_time);
    assert_eq!(limiter.rate_limited_until, Some(current_time + 60));
    assert!(!limiter.may_call(1030));

    // Back to normal after backoff
    assert!(limiter.may_call(1063));
}

#[test]
fn fresh_gate_is_open() {
    let limiter = RateGate::new();
    assert!(limiter.may_call(0));
    assert!(limiter.may_call(-5));
}

#[test]
fn two_checks_within_interval_are_refused() {
    let mut limiter = RateGate::new();
    assert!(limiter.try_acquire(500));
    assert!(!limiter.try_acquire(500));
    assert!(!limiter.try_acquire(501));
    assert!(limiter.try_acquire(502));
    assert_eq!(limiter.last_call_at, Some(502));
}

#[test]
fn refused_acquire_leaves_gate_alone() {
    let mut limiter = RateGate::new();
    limiter.record_call(10);
    assert!(!limiter.try_acquire(11));
    assert_eq!(limiter.last_call_at, Some(10));
    assert_eq!(limiter.rate_limited_until, None);
}

#[test]
fn backoff_blocks_until_window_ends() {
    let mut limiter = RateGate::new();
    assert!(limiter.try_acquire(100));
    limiter.record_throttled(100);
    assert!(!limiter.may_call(102));
    assert!(!limiter.may_call(159));
    assert!(limiter.may_call(160));
}

#[test]
fn attempts_are_spaced_under_interleaving() {
    // Requests every half unit of time, rounded down to whole seconds, with a
    // throttle signal in the middle.
    let mut limiter = RateGate::new();
    let mut granted: Vec<i64> = Vec::new();
    for half in 0..20i64 {
        let now = half / 2;
        if half == 9 {
            limiter.record_throttled(now);
        }
        if limiter.try_acquire(now) {
            granted.push(now);
        }
    }
    for w in granted.windows(2) {
        assert!(w[1] - w[0] >= MIN_REQUEST_INTERVAL_SECS);
    }
    assert_eq!(granted, vec![0, 2, 4]);
}

#[test]
fn huge_last_call_keeps_gate_closed() {
    let mut limiter = RateGate::new();
    limiter.record_call(i64::MAX);
    assert!(!limiter.may_call(i64::MAX));
}

#[test]
fn attempts_out_of_time_order_stay_spaced() {
    let mut limiter = RateGate::new();
    assert!(limiter.try_acquire(10));
    assert!(!limiter.try_acquire(5));
    assert!(!limiter.try_acquire(11));
    assert!(limiter.try_acquire(12));
}
