use llm_pool::breaker::{Admission, BreakerState, CircuitBreaker};
use llm_pool::hedge::{HedgeAction, HedgeEvent, Hedger};
use llm_pool::ratelimit::{RateLimiter, TenantBucket};
use llm_pool::errors::LLMPoolError;

#[test]
fn breaker_trip_scenario() {
    let mut b = CircuitBreaker::new(500, 4, 200);
    for (t, ok) in [(0u64, true), (1, false), (2, true)] {
        assert_eq!(b.may_attempt(t), Admission::Admit);
        b.record(ok, t);
        assert_eq!(b.state(), BreakerState::Closed);
    }
    b.record(false, 3);
    assert_eq!(b.state(), BreakerState::Open { until_ms: 203 });
    assert_eq!(b.may_attempt(100), Admission::Reject);
    assert_eq!(b.may_attempt(203), Admission::Admit);
    assert_eq!(b.state(), BreakerState::HalfOpen { probing: true });
    assert_eq!(b.may_attempt(204), Admission::Reject);
    b.record(true, 210);
    assert_eq!(b.state(), BreakerState::Closed);
}

#[test]
fn breaker_full_window_of_failures_with_rate_one() {
    let mut b = CircuitBreaker::new(1000, 3, 50);
    b.record(false, 0);
    b.record(false, 1);
    assert_eq!(b.state(), BreakerState::Closed);
    b.record(false, 2);
    assert_eq!(b.state(), BreakerState::Open { until_ms: 52 });
    assert_eq!(b.may_attempt(51), Admission::Reject);
}

#[test]
fn breaker_probe_failure_reopens() {
    let mut b = CircuitBreaker::new(1000, 1, 10);
    b.record(false, 0);
    assert_eq!(b.may_attempt(10), Admission::Admit);
    b.record(false, 12);
    assert_eq!(b.state(), BreakerState::Open { until_ms: 22 });
}

#[test]
fn fastest_hedging_schedule() {
    let mut h = Hedger::new(2, 100, 1000);
    assert_eq!(h.step(HedgeEvent::Tick { now_ms: 0 }), HedgeAction::Launch { upto: 1, budget_ms: 1000 });
    assert_eq!(h.step(HedgeEvent::Tick { now_ms: 100 }), HedgeAction::Launch { upto: 2, budget_ms: 900 });
    assert_eq!(h.step(HedgeEvent::Succeeded { index: 1, now_ms: 150 }), HedgeAction::Win { index: 1 });
    assert_eq!(h.step(HedgeEvent::Succeeded { index: 0, now_ms: 500 }), HedgeAction::Wait);
}

#[test]
fn early_success_launches_nothing_more() {
    let mut h = Hedger::new(3, 100, 1000);
    assert_eq!(h.step(HedgeEvent::Tick { now_ms: 0 }), HedgeAction::Launch { upto: 1, budget_ms: 1000 });
    assert_eq!(h.step(HedgeEvent::Succeeded { index: 0, now_ms: 40 }), HedgeAction::Win { index: 0 });
    assert_eq!(h.step(HedgeEvent::Tick { now_ms: 100 }), HedgeAction::Wait);
    assert_eq!(h.launched, 1);
}

#[test]
fn deadline_exceeded_gives_up_without_error() {
    let mut h = Hedger::new(2, 100, 200);
    h.step(HedgeEvent::Tick { now_ms: 0 });
    h.step(HedgeEvent::Tick { now_ms: 100 });
    assert_eq!(h.step(HedgeEvent::Tick { now_ms: 200 }), HedgeAction::GiveUp { first_error: None });
}

#[test]
fn failure_waits_then_all_failed_gives_up_with_first_error() {
    let mut h = Hedger::new(2, 100, 1000);
    h.step(HedgeEvent::Tick { now_ms: 0 });
    assert_eq!(h.step(HedgeEvent::Failed { index: 0, now_ms: 10 }), HedgeAction::Wait);
    assert_eq!(h.step(HedgeEvent::Tick { now_ms: 100 }), HedgeAction::Launch { upto: 2, budget_ms: 900 });
    assert_eq!(h.step(HedgeEvent::Failed { index: 1, now_ms: 120 }), HedgeAction::GiveUp { first_error: Some(0) });
}

#[test]
fn token_bucket_burst_then_refill() {
    let mut b = TenantBucket::new(1, 2, 0);
    assert!(b.try_take(0));
    assert!(b.try_take(0));
    assert!(!b.try_take(500));
    assert!(b.try_take(1000));
    assert!(!b.try_take(1000));
}

#[test]
fn admitted_within_burst_plus_rate() {
    let mut b = TenantBucket::new(5, 3, 0);
    let mut admitted = 0u64;
    for t in 0..2000u64 {
        if b.try_take(t) {
            admitted += 1;
        }
    }
    assert!(admitted <= 3 + 5 * 2);
    assert_eq!(admitted, 3 + 9);
}

#[test]
fn limiter_rejects_unknown_and_exhausted_tenants() {
    let mut l = RateLimiter { tenants: vec![("t1".to_string(), TenantBucket::new(1, 1, 0))] };
    assert!(l.check("t1", 0).is_ok());
    assert!(matches!(l.check("t1", 1), Err(LLMPoolError::RateLimitExceeded)));
    assert!(matches!(l.check("nobody", 1), Err(LLMPoolError::AuthError(_))));
}
