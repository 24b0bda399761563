//! The process-wide throttle in front of the upstream market-data provider.
//!
//! Times are whole seconds since the Unix epoch, read from the clock by the
//! caller and handed in.
use vstd::prelude::*;

verus! {

/// Minimum number of seconds between two upstream attempts.
pub const MIN_REQUEST_INTERVAL_SECS: i64 = 2;

/// Number of seconds the limiter stays closed after the provider signals throttling.
pub const RATE_LIMIT_BACKOFF_SECS: i64 = 60;

/// The latest time at which a throttle can still be recorded without overflow.
pub const LATEST_TIME: i64 = i64::MAX - RATE_LIMIT_BACKOFF_SECS;

/// Limiter state: when the last upstream attempt started, and until when the
/// provider asked us to back off.
pub struct RateGate {
    pub last_call_at: Option<i64>,
    pub rate_limited_until: Option<i64>,
}

/// The provider's backoff is still running at `now`.
pub open spec fn backing_off(g: RateGate, now: int) -> bool {
    match g.rate_limited_until {
        Some(until) => now < until,
        None => false,
    }
}

/// Less than the minimum interval has passed since the last attempt.
pub open spec fn too_soon(g: RateGate, now: int) -> bool {
    match g.last_call_at {
        Some(last) => now < last + MIN_REQUEST_INTERVAL_SECS,
        None => false,
    }
}

/// An upstream attempt may start at `now`.
pub open spec fn call_allowed(g: RateGate, now: int) -> bool {
    !backing_off(g, now) && !too_soon(g, now)
}

/// The limiter after an attempt starts at `now`.
pub open spec fn after_call(g: RateGate, now: i64) -> RateGate {
    RateGate { last_call_at: Some(now), ..g }
}

/// The limiter after the provider signals throttling at `now`.
pub open spec fn after_throttle(g: RateGate, now: i64) -> RateGate {
    RateGate { rate_limited_until: Some((now + RATE_LIMIT_BACKOFF_SECS) as i64), ..g }
}

/// The limiter after an attempt to acquire it at `now`, and whether it was granted.
pub open spec fn acquire(g: RateGate, now: i64) -> (RateGate, bool) {
    if call_allowed(g, now as int) {
        (after_call(g, now), true)
    } else {
        (g, false)
    }
}

impl RateGate {
    /// A limiter that has seen no attempt and no throttling.
    pub fn new() -> (g: Self)
        ensures
            g.last_call_at is None,
            g.rate_limited_until is None,
    {
        RateGate { last_call_at: None, rate_limited_until: None }
    }

    /// Whether an upstream attempt may start at `now`.
    pub fn may_call(&self, now: i64) -> (r: bool)
        ensures
            r == call_allowed(*self, now as int),
    {
        if let Some(until) = self.rate_limited_until {
            if now < until {
                return false;
            }
        }
        if let Some(last) = self.last_call_at {
            match last.checked_add(MIN_REQUEST_INTERVAL_SECS) {
                Some(next) => {
                    if now < next {
                        return false;
                    }
                },
                None => {
                    return false;
                },
            }
        }
        true
    }

    /// Records that an upstream attempt starts at `now`.
    pub fn record_call(&mut self, now: i64)
        ensures
            *final(self) == after_call(*old(self), now),
    {
        self.last_call_at = Some(now);
    }

    /// Records that the provider signalled throttling at `now`.
    pub fn record_throttled(&mut self, now: i64)
        requires
            now <= LATEST_TIME,
        ensures
            *final(self) == after_throttle(*old(self), now),
    {
        self.rate_limited_until = Some(now + RATE_LIMIT_BACKOFF_SECS);
    }

    /// Checks the limiter and, when it is open, records the attempt, in one step:
    /// no second caller can pass the same check in between.
    pub fn try_acquire(&mut self, now: i64) -> (r: bool)
        ensures
            (*final(self), r) == acquire(*old(self), now),
    {
        if self.may_call(now) {
            self.record_call(now);
            true
        } else {
            false
        }
    }
}

/// One operation on the limiter, with the time at which it happens.
pub enum GateEvent {
    /// A request checks the limiter and, if it is open, starts an upstream attempt.
    Acquire(i64),
    /// The provider signalled throttling.
    Throttle(i64),
}

pub open spec fn event_time(e: GateEvent) -> int {
    match e {
        GateEvent::Acquire(t) => t as int,
        GateEvent::Throttle(t) => t as int,
    }
}

/// The limiter after one event, and whether the event started an upstream attempt.
pub open spec fn step(g: RateGate, e: GateEvent) -> (RateGate, bool) {
    match e {
        GateEvent::Acquire(t) => acquire(g, t),
        GateEvent::Throttle(t) => (after_throttle(g, t), false),
    }
}

/// The limiter after a sequence of events, applied in order.
pub open spec fn run(g: RateGate, es: Seq<GateEvent>) -> RateGate
    decreases es.len(),
{
    if es.len() == 0 {
        g
    } else {
        step(run(g, es.drop_last()), es.last()).0
    }
}

/// Event `i` of `es`, applied after the ones before it, started an upstream attempt.
pub open spec fn granted(g: RateGate, es: Seq<GateEvent>, i: int) -> bool {
    step(run(g, es.take(i)), es[i]).1
}

/// Whatever the limiter held before, once an attempt is recorded at `t` the limiter
/// stays closed at every time short of `t` plus the minimum interval, and
/// reopens after a full interval unless a backoff is running.
pub proof fn lemma_minimum_interval(g: RateGate, t: i64, now: int)
    ensures
        t <= now < t + MIN_REQUEST_INTERVAL_SECS ==> !call_allowed(after_call(g, t), now),
        now >= t + MIN_REQUEST_INTERVAL_SECS && !backing_off(g, now) ==> call_allowed(
            after_call(g, t),
            now,
        ),
{
}

/// After throttling is recorded at `t`, the limiter is closed until the backoff
/// window has passed, and open from then on, provided the minimum interval
/// after the last attempt ends no later than the backoff window.
pub proof fn lemma_backoff_window(g: RateGate, t: i64, now: int)
    requires
        t <= LATEST_TIME,
        match g.last_call_at {
            Some(last) => last + MIN_REQUEST_INTERVAL_SECS <= t + RATE_LIMIT_BACKOFF_SECS,
            None => true,
        },
    ensures
        t <= now < t + RATE_LIMIT_BACKOFF_SECS ==> !call_allowed(after_throttle(g, t), now),
        now >= t + RATE_LIMIT_BACKOFF_SECS ==> call_allowed(after_throttle(g, t), now),
{
}

proof fn lemma_last_call_stays_late(g: RateGate, es: Seq<GateEvent>, i: int, k: int)
    requires
        0 <= i < k <= es.len(),
        granted(g, es, i),
    ensures
        match run(g, es.take(k)).last_call_at {
            Some(last) => last >= event_time(es[i]),
            None => false,
        },
    decreases k - i,
{
    let prefix = es.take(k);
    assert(prefix.drop_last() =~= es.take(k - 1));
    assert(prefix.last() == es[k - 1]);
    if k == i + 1 {
    } else {
        lemma_last_call_stays_late(g, es, i, k - 1);
    }
}

/// However requests interleave, as long as each one goes through the limiter in a
/// single step, an upstream attempt granted after another starts at least the
/// minimum interval later, whatever order the requests' times come in.
pub proof fn lemma_attempts_spaced(g: RateGate, es: Seq<GateEvent>, i: int, j: int)
    requires
        0 <= i < j < es.len(),
        granted(g, es, i),
        granted(g, es, j),
    ensures
        event_time(es[j]) >= event_time(es[i]) + MIN_REQUEST_INTERVAL_SECS,
{
    lemma_last_call_stays_late(g, es, i, j);
}

} // verus!
