//! Batch sizes and how they adapt.

use batch_system::adaptive_batcher::{
    AdaptiveBatcher, AdaptiveBatcherConfig, MarkovChain2nd, ModelPredictiveController, MIN_SCALE,
};
use batch_system::integration::resources::ResourceScheduler;
use batch_system::integration::scaling::{
    check_scaling_needs, decide_scaling, perform_auto_scaling, scale_down, scale_up,
    update_scaling_settings, ScalingDecision, ScalingSettings, WorkerPool,
};
use batch_system::measure::Measure;
use batch_system::optimized::factory::FactoryOptimizationModel;
use batch_system::ratio::Ratio;

const MS: u64 = 1_000_000;
const SECOND: u64 = 1_000_000_000;

#[test]
fn rates_have_levels() {
    let m = MarkovChain2nd::new(10);
    assert_eq!((m.quantize(0, 900), m.quantize(99, 900), m.quantize(100, 900)), (0, 0, 1));
    assert_eq!((m.quantize(900, 900), m.quantize(90_000, 900)), (9, 9));
    assert_eq!((m.dequantize(0, 1000), m.dequantize(9, 1000)), (50, 950));
    let mut last = 0;
    for rate in 0..2000 {
        assert!(m.quantize(rate, 1500) >= last);
        last = m.quantize(rate, 1500);
    }
}

#[test]
fn chains_predict_what_followed_before() {
    let mut m = MarkovChain2nd::new(10);
    assert_eq!(m.predict(1, 2), (5, Ratio::new(0, 0)));
    m.update(1, 2, 3);
    m.update(1, 2, 4);
    m.update(1, 2, 4);
    m.update(2, 1, 9);
    assert_eq!(m.predict(1, 2), (4, Ratio::new(2, 3)));
    assert_eq!(m.predict(2, 1), (9, Ratio::new(1, 1)));
    assert_eq!(m.predict(10, 2), (5, Ratio::new(1, 2)));
    m.update(10, 2, 3);
    assert_eq!(m.predict(1, 2), (4, Ratio::new(2, 3)));
}

#[test]
fn shares_are_counts_over_their_row() {
    let mut m = MarkovChain2nd::new(4);
    assert_eq!(m.transition(1, 2, 3), Ratio::new(0, 0));
    m.update(1, 2, 3);
    m.update(1, 2, 0);
    m.update(1, 2, 0);
    m.update(3, 2, 1);
    assert_eq!(m.transition(1, 2, 0), Ratio::new(2, 3));
    assert_eq!(m.transition(1, 2, 3), Ratio::new(1, 3));
    assert_eq!(m.transition(1, 2, 1), Ratio::new(0, 3));
    assert_eq!(m.transition(3, 2, 1), Ratio::new(1, 1));
}

#[test]
fn candidates_stay_within_limits() {
    let c = ModelPredictiveController::new();
    assert_eq!(c.b_candidates(512), [448, 480, 512, 544, 576]);
    assert_eq!(c.b_candidates(50), [32, 32, 50, 82, 114]);
    assert_eq!(c.b_candidates(1000), [936, 968, 1000, 1024, 1024]);
    assert_eq!(c.m_candidates(4), [2, 4, 6]);
    assert_eq!(c.m_candidates(1), [1, 1, 3]);
    assert_eq!(c.m_candidates(63), [61, 63, 64]);
}

#[test]
fn the_cheapest_candidate_is_chosen() {
    let c = ModelPredictiveController::new();
    let mut costs = vec![u64::MAX; 15];
    assert_eq!(c.solve(512, 4, &costs), (512, 4));
    costs[11] = 7;
    costs[13] = 7;
    // The fourth size with the third number of workers.
    assert_eq!(c.solve(512, 4, &costs), (544, 6));
    costs[0] = 6;
    assert_eq!(c.solve(512, 4, &costs), (448, 2));
}

fn batcher() -> AdaptiveBatcher {
    AdaptiveBatcher::new(AdaptiveBatcherConfig::default())
}

#[test]
fn executions_are_measured() {
    let mut b = batcher();
    // 100 in 9 + 1 milliseconds is ten thousand a second, in thousandths.
    assert!(b.record_batch_execution(100, 9 * MS, 60));
    assert_eq!((b.get_measured_throughput(), b.get_measured_latency()), (10_000_000, 9));
    assert!(!b.record_batch_execution(100, 9 * MS, 119));
    assert!(b.record_batch_execution(100, 9 * MS, 120));
    assert_eq!(b.last_model_update, 120);
    assert_eq!((b.measurements.len(), b.lambdas.len()), (3, 3));
    assert!(!b.can_estimate_model() && !b.can_estimate_extremes());
}

#[test]
fn steady_loads_are_predicted() {
    let mut b = batcher();
    assert_eq!(b.predict_load(), None);
    for _ in 0..5 {
        b.record_batch_execution(100, 9 * MS, 0);
    }
    // The highest of ten levels below the highest rate.
    assert_eq!(b.predict_load(), Some(9_500_000));
    assert!(MIN_SCALE < 9_500_000);
}

#[test]
fn batch_sizes_stay_within_their_bounds() {
    let mut b = batcher();
    let (min, max) = (b.config.min_batch_size, b.config.max_batch_size);
    assert_eq!(b.optimal_batch_size(0), min);
    assert_eq!(b.optimal_batch_size(usize::MAX), max);
    assert_eq!(b.compute_batch_size(min + 1, 9), min + 1);
    assert_eq!((b.current_workers, b.get_batch_size()), (9, b.config.initial_batch_size));
    assert_eq!(b.mpc_optimize(&vec![u64::MAX; 15]), (b.get_batch_size(), 9));
}

#[test]
fn measurements_stay_bounded() {
    let mut b = batcher();
    for i in 0..1100 {
        b.record_batch_execution(i, 5 * MS, 0);
    }
    assert_eq!((b.measurements.len(), b.latencies.len(), b.lambdas.len()), (1000, 1000, 1000));
    assert!(b.can_estimate_model() && b.can_estimate_extremes());
}

#[test]
fn worker_numbers_follow_the_load() {
    let m = FactoryOptimizationModel::with_cores(8);
    assert_eq!((m.optimal_dispatcher_workers, m.optimal_crypto_workers), (8, 16));
    assert_eq!(m.calculate_optimal_workers(800, 8), 14);
    assert_eq!(m.calculate_optimal_workers(0, 8), 8);
    assert_eq!(m.calculate_optimal_workers(9_000, 8), 32);
    assert_eq!(m.calculate_optimal_workers(-1_000, 8), 2);
    assert_eq!(m.calculate_optimal_workers(500, 0), 0);
    assert_eq!((m.calculate_optimal_buffer_pool(100), m.calculate_optimal_buffer_pool(3)), (150, 5));
    let here = FactoryOptimizationModel::new();
    assert_eq!(here.optimal_dispatcher_workers, num_cpus::get());
}

#[test]
fn settings_are_corrected() {
    let mut s = ScalingSettings::starting(0);
    s.min_worker_count = 0;
    s.max_worker_count = 0;
    s.scaling_cooldown_seconds = 1;
    let s = s.validated();
    assert_eq!((s.min_worker_count, s.max_worker_count, s.scaling_cooldown_seconds), (1, 256, 10));
    let mut t = ScalingSettings::starting(0);
    t.min_worker_count = 300;
    t.max_worker_count = 200;
    assert_eq!(t.validated().max_worker_count, 300);
}

#[test]
fn scaling_waits_for_the_cooldown() {
    let mut s = ScalingSettings::starting(5 * SECOND);
    assert!(!s.auto_scaling_due(65 * SECOND - 1));
    assert!(s.auto_scaling_due(65 * SECOND));
    s.auto_scaling_enabled = false;
    assert!(!s.auto_scaling_due(99 * SECOND));
}

#[test]
fn pools_keep_their_limits() {
    let mut p = WorkerPool::new(4, 10);
    assert_eq!((p.add_workers(3), p.current_workers), (3, 7));
    assert_eq!((p.add_workers(9), p.current_workers), (3, 10));
    assert_eq!((p.remove_workers(99), p.current_workers), (6, 4));
}

#[test]
fn scaling_goes_no_further_than_the_optimum() {
    let mut p = WorkerPool::new(4, 256);
    let mut s = ScalingSettings::starting(0);
    assert_eq!(scale_up(&mut p, &mut s, 10, 7, 50), 3);
    assert_eq!((p.current_workers, s.last_scaling_time), (7, 50));
    assert_eq!(scale_up(&mut p, &mut s, 10, 7, 60), 0);
    assert_eq!(s.last_scaling_time, 50);
    assert_eq!(scale_down(&mut p, &mut s, 10, 6, 70), 1);
    assert_eq!((p.current_workers, s.last_scaling_time), (6, 70));
    assert_eq!(scale_down(&mut p, &mut s, 1, 0, 80), 1);
    assert_eq!(scale_up(&mut p, &mut s, 0, 99, 90), 0);
}

#[test]
fn scaling_is_decided_by_load_and_balance() {
    let s = ScalingSettings::starting(0);
    let even = Measure::exact(0);
    assert_eq!(decide_scaling(&s, 8, 9, 0, even), ScalingDecision::Up { count: 2 });
    assert_eq!(decide_scaling(&s, 8, 8, 2001, even), ScalingDecision::Up { count: 2 });
    assert_eq!(
        decide_scaling(&s, 255, 8, 0, Measure::exact(701)),
        ScalingDecision::Up { count: 1 }
    );
    assert_eq!(decide_scaling(&s, 8, 5, 249, even), ScalingDecision::Down { count: 2 });
    assert_eq!(decide_scaling(&s, 8, 5, 250, even), ScalingDecision::Stay);
    assert_eq!(decide_scaling(&s, 8, 6, 0, even), ScalingDecision::Stay);
    assert_eq!(decide_scaling(&s, 8, 5, 0, Measure::exact(200)), ScalingDecision::Stay);
    assert_eq!(decide_scaling(&s, 4, 1, 0, even), ScalingDecision::Stay);
}

#[test]
fn scaling_keeps_the_limits() {
    let mut p = WorkerPool::new(4, 256);
    let mut s = ScalingSettings::starting(0);
    for i in 0..400u64 {
        let optimal = (i * 97 % 300) as usize;
        let imbalance = Measure::exact(i * 31 % 1000);
        perform_auto_scaling(&mut p, &mut s, optimal, (i * 11 % 3000) as u128, imbalance, i);
        assert!(4 <= p.current_workers && p.current_workers <= 256);
    }
}

#[test]
fn needs_are_recognised() {
    let s = ScalingSettings::starting(0);
    let none =
        check_scaling_needs(&s, Ratio::new(68, 100), None, Measure::exact(700), 15_000, 4);
    assert!(!none.clean_buffers && !none.reset_crypto_breaker);
    assert!(!none.rebalance && !none.add_workers);
    let all = check_scaling_needs(
        &s,
        Ratio::new(67, 100),
        Some(Ratio::new(890, 1000)),
        Measure { at_least: 700, at_most: 701 },
        15_001,
        4,
    );
    assert!(all.clean_buffers && all.reset_crypto_breaker && all.rebalance && all.add_workers);
    let full = check_scaling_needs(
        &s,
        Ratio::new(1, 1),
        Some(Ratio::new(891, 1000)),
        Measure::exact(0),
        15_001,
        256,
    );
    assert!(!full.reset_crypto_breaker && !full.add_workers);
}

#[test]
fn a_higher_minimum_adds_workers() {
    let mut p = WorkerPool::new(4, 256);
    let mut s = ScalingSettings::starting(0);
    let mut new = ScalingSettings::starting(0);
    new.min_worker_count = 10;
    update_scaling_settings(&mut p, &mut s, new, 20, 5);
    assert_eq!((p.current_workers, s.min_worker_count), (10, 10));
    assert_eq!(s.last_scaling_time, 0);
}

#[test]
fn resources_are_shared_out_whole() {
    let mut s = ResourceScheduler::new();
    assert!(s.resource_allocation.is_empty());
    let shares = s.proportional_allocation(1000);
    let parts: Vec<(&str, u64)> =
        shares.iter().map(|(name, r)| (name.as_str(), r.part / r.whole)).collect();
    assert_eq!(
        parts,
        vec![
            ("dispatcher", 300),
            ("crypto", 250),
            ("reader", 150),
            ("writer", 150),
            ("adaptive_batcher", 100),
            ("qos", 50),
        ]
    );
    assert_eq!(parts.iter().map(|p| p.1).sum::<u64>(), 1000);
    assert_eq!(s.resource_allocation, shares);
    assert_eq!(s.resource_limits[1], (String::from("memory"), 8192));
}

#[test]
fn shares_follow_the_weights() {
    let mut s = ResourceScheduler::new();
    s.component_weights = vec![(String::from("a"), 1), (String::from("b"), 2)];
    let shares = s.proportional_allocation(100);
    assert_eq!(shares[0], (String::from("a"), Ratio::new(100, 3)));
    assert_eq!(shares[1], (String::from("b"), Ratio::new(200, 3)));
}
