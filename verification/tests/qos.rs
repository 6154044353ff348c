//! Permits and quotas.

use batch_system::measure::Measure;
use batch_system::qos_manager::{
    permit_timeout_ms, priority_group, priority_to_class, priority_to_str, token_cost,
    AdaptationRule, Capacities, LeakyBucket, PermitWait, QosError, QosGroup, QosManager,
    QosStatistics, QuotaLevels, TokenBucket, TOKEN,
};
use batch_system::types::priority::Priority;

fn manager(high: usize, normal: usize, low: usize) -> QosManager {
    QosManager::new(Capacities { high, normal, low }, high + normal + low, 0)
}

fn levels() -> QuotaLevels {
    QuotaLevels {
        high: Measure::exact(400),
        normal: Measure::exact(400),
        low: Measure::exact(200),
        low_below_base_and_half: true,
        high_wait: Measure::exact(0),
        normal_wait: Measure::exact(0),
    }
}

#[test]
fn token_buckets_refill_up_to_their_capacity() {
    let mut b = TokenBucket::new(3, 100, 0);
    assert!(b.try_consume(100, 0));
    assert!(!b.try_consume(1, 0));
    assert!(b.try_consume(30, 10));
    assert!(!b.try_consume(1, 10));
    b.update(1_000);
    assert_eq!(b.tokens, 100);
}

#[test]
fn a_token_bucket_gives_out_no_more_than_came_in() {
    let mut b = TokenBucket::new(2, 50, 0);
    let mut given: u128 = 0;
    for now in 1..=200u64 {
        if b.try_consume(7, now) {
            given += 7;
        }
    }
    assert!(given <= 50 + 2 * 200);
    assert!(given > 50 + 2 * 200 - 14);
}

#[test]
fn leaky_buckets_drain() {
    let mut b = LeakyBucket::new(1, 10, 0);
    assert!(b.try_add(10, 0));
    assert!(!b.try_add(1, 0));
    assert!(b.try_add(4, 4));
    assert_eq!(b.level, 10);
    b.update(100);
    assert_eq!(b.level, 0);
}

#[test]
fn priorities_are_served_in_groups() {
    assert_eq!(priority_group(Priority::Critical), QosGroup::High);
    assert_eq!(priority_group(Priority::Normal), QosGroup::Normal);
    assert_eq!(priority_group(Priority::Background), QosGroup::Low);
    assert_eq!(token_cost(Priority::High), TOKEN);
    assert_eq!(token_cost(Priority::Normal), TOKEN / 2);
    assert_eq!(token_cost(Priority::Low), TOKEN / 4);
    assert_eq!(priority_to_str(Priority::Low), "low");
    assert_eq!(priority_to_class(Priority::Low), 3);
    assert_eq!(permit_timeout_ms(Priority::Critical), 50);
    assert_eq!(permit_timeout_ms(Priority::Normal), 100);
    assert_eq!(permit_timeout_ms(Priority::Background), 200);
}

#[test]
fn critical_requests_always_pass() {
    let mut m = manager(0, 0, 0);
    for _ in 0..1000 {
        assert_eq!(m.acquire_permit(Priority::Critical, 0), Ok(()));
    }
    assert_eq!(m.get_statistics().high.requests, 1000);
    assert_eq!(m.get_statistics().high.rejected, 0);
}

#[test]
fn high_requests_need_tokens() {
    let mut m = manager(1, 1, 1);
    // Ten tokens for each permit.
    for _ in 0..10 {
        assert_eq!(m.acquire_permit(Priority::High, 0), Ok(()));
    }
    assert_eq!(m.acquire_permit(Priority::High, 0), Err(QosError::RateLimitExceeded));
    let stats = m.get_statistics();
    // A refused request counts twice, once as refused.
    assert_eq!((stats.high.requests, stats.high.rejected), (12, 1));
    assert_eq!((stats.high.loss.part, stats.high.loss.whole), (1, 12));
}

#[test]
fn normal_requests_need_room_to_flow_off() {
    let mut m = manager(1, 1, 1);
    // Twenty requests' worth of tokens, but room for ten.
    for _ in 0..10 {
        assert_eq!(m.acquire_permit(Priority::Normal, 0), Ok(()));
    }
    assert_eq!(m.acquire_permit(Priority::Normal, 0), Err(QosError::LeakyBucketFull));
}

#[test]
fn groups_do_not_touch_each_other() {
    let mut m = manager(1, 1, 1);
    for _ in 0..50 {
        let _ = m.acquire_permit(Priority::Low, 0);
    }
    assert_eq!(m.acquire_permit(Priority::Low, 0).is_err(), true);
    assert_eq!(m.acquire_permit(Priority::Normal, 0), Ok(()));
    assert_eq!(m.acquire_permit(Priority::High, 0), Ok(()));
    assert_eq!(m.get_statistics().normal.rejected, 0);
}

#[test]
fn waits_for_permits_are_noted() {
    let mut m = manager(1, 1, 1);
    assert_eq!(m.conclude(Priority::Normal, PermitWait::Granted { wait_ms: 12 }), Ok(()));
    assert_eq!(m.wait_time_history[0], [0, 0, 12, 0, 0]);
    assert_eq!(m.conclude(Priority::Low, PermitWait::TimedOut), Err(QosError::Timeout));
    assert_eq!(m.conclude(Priority::High, PermitWait::Closed), Err(QosError::SemaphoreClosed));
    assert_eq!(m.get_statistics().low.rejected, 1);
    assert_eq!(m.wait_time_history.len(), 1);
}

#[test]
fn quotas_become_permits_rounded_up() {
    let c = Capacities::from_quotas(400, 400, 200, 1001);
    assert_eq!(c, Capacities { high: 401, normal: 401, low: 201 });
    // Quotas that do not add up are scaled.
    let c = Capacities::from_quotas(400, 400, 400, 900);
    assert_eq!(c, Capacities { high: 300, normal: 300, low: 300 });
    assert_eq!(Capacities::from_quotas(0, 0, 0, 10), Capacities { high: 0, normal: 0, low: 0 });
    // Nearly whole quotas are taken as they are.
    let c = Capacities::from_quotas(1010, 0, 0, 1000);
    assert_eq!(c, Capacities { high: 1010, normal: 0, low: 0 });
    // Any quotas can be scaled.
    let c = Capacities::from_quotas(u64::MAX, u64::MAX, 0, usize::MAX);
    let half = usize::MAX / 2 + 1;
    assert_eq!(c, Capacities { high: half, normal: half, low: 0 });
}

fn with_counts(requests: [u64; 3], rejected: [u64; 3]) -> QosManager {
    let mut m = manager(10, 10, 10);
    let mut s = QosStatistics::default();
    s.high.requests = requests[0];
    s.normal.requests = requests[1];
    s.low.requests = requests[2];
    s.high.rejected = rejected[0];
    s.normal.rejected = rejected[1];
    s.low.rejected = rejected[2];
    m.statistics = s;
    m
}

#[test]
fn adaptations_need_samples() {
    let m = with_counts([50, 49, 0], [50, 0, 0]);
    assert_eq!(m.adapt_quotas(levels()), Err(QosError::InsufficientData));
}

#[test]
fn nothing_changes_without_need() {
    let m = with_counts([100, 100, 100], [5, 10, 20]);
    assert_eq!(m.adapt_quotas(levels()), Err(QosError::NoAdaptationNeeded));
}

#[test]
fn rejections_shift_quotas() {
    let m = with_counts([100, 100, 100], [6, 50, 50]);
    assert_eq!(m.adapt_quotas(levels()), Ok(AdaptationRule::HighFromLow));
    let mut tight = levels();
    tight.low = Measure::exact(100);
    assert_eq!(m.adapt_quotas(tight), Ok(AdaptationRule::HighFromNormal));
    let m = with_counts([100, 100, 100], [0, 11, 50]);
    assert_eq!(m.adapt_quotas(levels()), Ok(AdaptationRule::NormalFromLow));
    let m = with_counts([100, 100, 100], [0, 0, 21]);
    assert_eq!(m.adapt_quotas(levels()), Ok(AdaptationRule::LowFromHigh));
}

#[test]
fn long_waits_shift_quotas() {
    let m = with_counts([100, 100, 100], [0, 0, 0]);
    let mut slow = levels();
    slow.high_wait = Measure { at_least: 100_000, at_most: 100_001 };
    assert_eq!(m.adapt_quotas(slow), Ok(AdaptationRule::ReduceHigh));
    slow.high_wait = Measure::exact(100_000);
    slow.normal_wait = Measure::exact(200_001);
    assert_eq!(m.adapt_quotas(slow), Ok(AdaptationRule::ReduceNormal));
}

#[test]
fn adaptations_add_missing_permits() {
    let mut m = manager(10, 10, 10);
    let added = m.apply_adaptation(
        AdaptationRule::HighFromLow,
        Capacities { high: 15, normal: 10, low: 5 },
        Capacities { high: 10, normal: 10, low: 10 },
        77,
    );
    assert_eq!(added, Capacities { high: 5, normal: 0, low: 0 });
    assert_eq!(m.high_tokens.tokens, 15 * TOKEN);
    assert_eq!(m.low_leaky.capacity, 5 * TOKEN);
    assert_eq!(m.get_statistics().adaptation_count, 1);
    assert_eq!(m.adaptation_history[0], (77, AdaptationRule::HighFromLow));
}

#[test]
fn refusals_have_texts() {
    assert_eq!(QosError::Timeout.message(), "Timeout waiting for QoS permit");
    assert_eq!(QosError::SemaphoreClosed.message(), "Semaphore closed");
    assert_eq!(QosError::InsufficientData.message(), "Insufficient data for adaptation");
    assert_eq!(QosError::NoAdaptationNeeded.message(), "No adaptation needed");
    assert_eq!(QosError::RateLimitExceeded.message(), "Rate limit exceeded");
    assert_eq!(QosError::LeakyBucketFull.message(), "Leaky bucket full");
}
