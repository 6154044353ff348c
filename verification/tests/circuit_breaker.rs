//! When requests pass and when they do not.

use batch_system::circuit_breaker::{
    CircuitBreaker, CircuitBreakerManager, CircuitState, RecoveryModel,
};
use batch_system::ratio::Ratio;

const DELAY: u64 = 1_000;

fn breaker(threshold: usize, trials: usize) -> CircuitBreaker {
    CircuitBreaker::new(String::from("b"), threshold, DELAY, trials, 0)
}

fn opened(threshold: usize, trials: usize) -> CircuitBreaker {
    let mut b = breaker(threshold, trials);
    for t in 0..threshold {
        b.record_failure(t as u64);
    }
    b
}

#[test]
fn closed_breakers_let_requests_pass() {
    let mut b = breaker(3, 2);
    assert!(b.allow_request(1));
    assert_eq!(b.get_state(), CircuitState::Closed);
    assert_eq!(b.get_stats(5).total_requests, 1);
}

fn metric(b: &CircuitBreaker, key: &str) -> Option<Ratio> {
    b.metrics.get(&format!("circuit_breaker.b.{}", key))
}

#[test]
fn breakers_take_note_of_what_happens() {
    let one = Some(Ratio::new(1, 1));
    let mut b = CircuitBreaker::new(String::from("b"), 2, 5_000_000, 2, 0);
    assert_eq!(metric(&b, "allowed"), None);
    b.allow_request(1);
    b.record_success(1);
    assert_eq!((metric(&b, "allowed"), metric(&b, "successes")), (one, one));
    b.record_failure(2);
    assert_eq!(metric(&b, "failures"), one);
    assert_eq!(metric(&b, "failure_count"), one);
    assert_eq!(metric(&b, "failure_rate"), Some(Ratio::new(1, 2)));
    assert_eq!(metric(&b, "circuit_opened"), None);
    b.record_failure(3);
    assert_eq!((metric(&b, "circuit_opened"), metric(&b, "state.open")), (one, one));
    let delay = b.core.recovery.current_delay;
    assert_eq!(metric(&b, "recovery_delay_ms"), Some(Ratio::new(delay / 1_000_000, 1)));
    b.allow_request(4);
    assert_eq!(metric(&b, "rejected.open"), one);
    b.allow_request(4 + delay);
    assert_eq!(metric(&b, "transition.half_open"), one);
    assert_eq!(metric(&b, "recovery_attempts"), one);
    b.record_success(5 + delay);
    assert_eq!((metric(&b, "half_open.successes"), metric(&b, "recovered")), (one, None));
    b.record_failure(6 + delay);
    assert_eq!(metric(&b, "half_open.failure"), one);
    assert_eq!(metric(&b, "manual_reset"), None);
    b.reset(7 + delay);
    assert_eq!((metric(&b, "manual_reset"), metric(&b, "state.closed")), (one, one));
}

#[test]
fn the_threshold_opens_the_breaker() {
    let mut b = breaker(3, 2);
    b.record_failure(1);
    b.record_failure(2);
    assert_eq!(b.get_state(), CircuitState::Closed);
    b.record_failure(3);
    assert_eq!(b.get_state(), CircuitState::Open);
    let stats = b.get_stats(10);
    assert_eq!((stats.failure_count, stats.opened_count), (3, 1));
    assert_eq!(stats.last_failure, Some(3));
    assert_eq!(b.failure_history.len(), 3);
}

#[test]
fn a_success_forgets_failures() {
    let mut b = breaker(3, 2);
    b.record_failure(1);
    b.record_failure(2);
    b.record_success(3);
    b.record_failure(4);
    b.record_failure(5);
    assert_eq!(b.get_state(), CircuitState::Closed);
    assert_eq!(b.core.failure_count, 2);
}

#[test]
fn open_breakers_wait_for_the_delay() {
    let mut b = opened(2, 2);
    assert!(!b.should_attempt_recovery(1 + DELAY - 1));
    assert!(!b.allow_request(1 + DELAY - 1));
    assert_eq!(b.get_state(), CircuitState::Open);
    assert!(b.should_attempt_recovery(1 + DELAY));
    assert!(b.allow_request(1 + DELAY));
    assert_eq!(b.get_state(), CircuitState::HalfOpen);
}

#[test]
fn successes_on_trial_close_the_breaker() {
    let mut b = opened(2, 2);
    assert!(b.allow_request(5_000));
    b.record_success(5_001);
    assert_eq!(b.get_state(), CircuitState::HalfOpen);
    b.record_success(5_002);
    assert_eq!(b.get_state(), CircuitState::Closed);
    assert_eq!(b.core.failure_count, 0);
    assert_eq!(b.core.recovery.current_delay, DELAY);
}

#[test]
fn a_failure_on_trial_opens_the_breaker_again() {
    let mut b = opened(2, 2);
    assert!(b.allow_request(5_000));
    b.record_failure(5_001);
    assert_eq!(b.get_state(), CircuitState::Open);
    // The second delay is twice the first.
    assert_eq!(b.core.recovery.current_delay, 2 * DELAY);
    assert!(!b.allow_request(5_001 + 2 * DELAY - 1));
    assert!(b.allow_request(5_001 + 2 * DELAY));
}

#[test]
fn delays_grow_up_to_their_limit() {
    let mut model = RecoveryModel::new(10, 55, 2);
    assert_eq!(model.next_delay(), 10);
    assert_eq!(model.next_delay(), 20);
    assert_eq!(model.next_delay(), 40);
    assert_eq!(model.next_delay(), 55);
    assert_eq!(model.next_delay(), 55);
    assert_eq!(model.recovery_attempts, 5);
    model.reset();
    assert_eq!((model.current_delay, model.recovery_attempts), (10, 0));
}

#[test]
fn delays_of_breakers_are_at_most_sixteen_times_the_first() {
    let mut b = opened(1, 1);
    let mut now = 10_000;
    for _ in 0..10 {
        now += 100 * DELAY;
        assert!(b.allow_request(now));
        b.record_failure(now);
        assert!(b.core.recovery.current_delay >= DELAY);
        assert!(b.core.recovery.current_delay <= 16 * DELAY);
    }
    assert_eq!(b.core.recovery.current_delay, 16 * DELAY);
}

#[test]
fn a_reset_breaker_lets_requests_pass() {
    let mut b = opened(2, 2);
    b.reset(50);
    assert_eq!(b.get_state(), CircuitState::Closed);
    assert!(b.allow_request(51));
    let stats = b.get_stats(60);
    assert_eq!((stats.failure_count, stats.last_failure, stats.uptime), (0, None, 10));
}

#[test]
fn failure_histories_stay_bounded() {
    let mut b = breaker(1000, 1);
    for t in 0..150 {
        b.record_failure(t);
    }
    assert_eq!(b.failure_history.len(), 100);
    assert_eq!(b.failure_history[0].timestamp, 50);
}

#[test]
fn managers_keep_a_breaker_for_each_name() {
    let mut m = CircuitBreakerManager::new(1, DELAY, 1);
    assert_eq!(m.get_breaker("a"), None);
    let a = m.get_or_create("a", 0);
    let b = m.get_or_create("b", 0);
    assert_ne!(a, b);
    assert_eq!(m.get_or_create("a", 7), a);
    assert_eq!(m.get_breaker("b"), Some(b));
    m.record_failure(a, 1);
    assert!(!m.allow_request(a, 2));
    assert!(m.allow_request(b, 2));
    assert_eq!(m.breaker(a).get_state(), CircuitState::Open);
    m.reset(a, 3);
    assert!(m.allow_request(a, 4));
    let names: Vec<String> = m.get_all_stats(5).into_iter().map(|s| s.name).collect();
    assert_eq!(names, vec!["a", "b"]);
}

#[test]
fn breakers_are_created_when_first_asked() {
    let mut m = CircuitBreakerManager::new(2, DELAY, 1);
    assert!(m.request("x", 0));
    m.failed("x", 1);
    m.failed("x", 2);
    assert!(!m.request("x", 3));
    assert!(m.request("y", 3));
    assert!(m.request("x", 2 + DELAY));
    m.succeeded("x", 3 + DELAY);
    assert_eq!(m.breaker(m.get_breaker("x").unwrap()).get_state(), CircuitState::Closed);
    m.breaker_mut("x", 0).record_failure(9_000);
    assert_eq!(m.breaker(m.get_breaker("x").unwrap()).core.failure_count, 1);
}
