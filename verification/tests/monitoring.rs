//! Configuration, metrics and health.

use batch_system::acceleration::chacha20_batch_accel::SimdFeatures;
use batch_system::config::{
    AdaptiveConfigState, BatchConfig, ConfigError, ConfigOptimizationModel, MILLISECOND, SECOND,
};
use batch_system::heartbeat::batch_system_monitor::{
    alerts, AlertLevel, BatchSystemMonitor, Component, ComponentHealth,
    ComponentMetrics, Readings,
};
use batch_system::heartbeat::health_check::BatchSystemHealthChecker;
use batch_system::heartbeat::metrics::BatchSystemMetricsCollector;
use batch_system::io::buffer::BufferStats;
use batch_system::measure::Measure;
use batch_system::metrics_tracing::{
    detect_anomalies, AggregatedMetric, Anomaly, AnomalySeverity, Evidence, MetricsConfig,
    MetricsError, MetricsTracingSystem, TrendEvidence,
};
use batch_system::ratio::Ratio;

fn features() -> SimdFeatures {
    SimdFeatures { avx2: true, avx512: false, neon: false, aes_ni: true, sse4_2: true }
}

#[test]
fn configurations_follow_the_processor_count() {
    let c = BatchConfig::with_cores(8, features(), 5);
    assert_eq!((c.worker_count, c.crypto_worker_count), (16, 16));
    assert_eq!((c.max_concurrent_batches, c.buffer_preallocation_size), (32, 16384));
    assert_eq!((c.batch_size, c.min_batch_size, c.max_batch_size), (512, 32, 1024));
    assert_eq!(c.max_queue_size, 1000);
    assert_eq!((c.failure_threshold, c.half_open_max_requests), (50, 10));
    assert_eq!((c.adaptive_state.version, c.adaptive_state.last_change), (1, 5));
    assert_eq!(c.adaptive_state.last_change_reason, "Initial configuration");
    assert!(c.adaptive_state.history.is_empty() && c.user_params.is_empty());
    assert!(c.enable_avx2 && !c.enable_neon);
    assert_eq!(c.high_priority_quota + c.normal_priority_quota + c.low_priority_quota, 1000);
    assert_eq!(BatchConfig::with_cores(0, features(), 5).buffer_preallocation_size, 1024);
    assert_eq!(BatchConfig::with_cores(1000, features(), 5).buffer_preallocation_size, 262144);
}

#[test]
fn this_machine_has_processors() {
    let c = BatchConfig::for_this_machine(features(), 0).unwrap();
    assert_eq!(c.optimization_model.cpu_cores, num_cpus::get());
    assert_eq!(c.worker_count, 2 * num_cpus::get());
    assert!(c.optimization_model.cpu_cores >= 1);
}

#[test]
fn only_so_many_processors_can_be_configured_for() {
    let c = BatchConfig::for_cores(3, features(), 0).unwrap();
    assert_eq!((c.worker_count, c.optimization_model.cpu_cores), (6, 3));
    let most = usize::MAX / 2048;
    let c = BatchConfig::for_cores(most, features(), 0).unwrap();
    assert_eq!((c.max_concurrent_batches, c.buffer_preallocation_size), (4 * most, 262144));
    assert!(BatchConfig::for_cores(most + 1, features(), 0).is_none());
}

#[test]
fn computed_values_are_kept_in_bounds() {
    let m = ConfigOptimizationModel::new(4);
    assert_eq!((m.bounded_worker_count(0), m.bounded_worker_count(99)), (1, 16));
    assert_eq!((m.bounded_queue_size(5), m.bounded_queue_size(5000)), (1000, 5000));
    assert_eq!((m.bounded_batch_size(1), m.bounded_batch_size(9999)), (64, 512));
    assert_eq!(m.bounded_read_timeout(0), SECOND);
    assert_eq!(m.bounded_read_timeout(99 * SECOND), 30 * SECOND);
    assert_eq!(m.optimal_flush_interval(), 25 * MILLISECOND);
    assert_eq!(m.optimal_buffer_size(100, 10), 4000);
}

#[test]
fn configuration_changes_are_remembered() {
    let mut s = AdaptiveConfigState::new(1);
    assert_eq!((s.version, s.last_change_reason.as_str()), (1, "Initial configuration"));
    for i in 0..105u64 {
        s.record_change(
            String::from("batch_size"),
            format!("{}", i),
            format!("{}", i + 1),
            String::from("load"),
            10 + i,
        );
    }
    assert_eq!((s.version, s.history.len(), s.last_change), (106, 100, 114));
    assert_eq!((s.history[0].old_value.as_str(), s.history[0].version), ("5", 7));
    assert_eq!(s.history[99].new_value, "105");
}

#[test]
fn configuration_errors_have_texts() {
    let x = String::from("x");
    assert_eq!(
        ConfigError::InvalidValue(x.clone()).message(),
        "Invalid configuration value: x"
    );
    assert_eq!(
        ConfigError::MissingParameter(x.clone()).message(),
        "Missing required parameter: x"
    );
    assert_eq!(ConfigError::Conflict(x).message(), "Configuration conflict: x");
}

fn metrics(enabled: bool) -> MetricsTracingSystem<u64> {
    let mut config = MetricsConfig::default();
    config.enabled = enabled;
    match MetricsTracingSystem::new(config, true, 5) {
        Ok(m) => m,
        Err(_) => unreachable!(),
    }
}

#[test]
fn enabled_metrics_need_tracing() {
    let refused = MetricsTracingSystem::<u64>::new(MetricsConfig::default(), false, 0);
    assert!(matches!(refused, Err(MetricsError::TracingNotInitialized)));
    let mut config = MetricsConfig::default();
    config.enabled = false;
    assert!(MetricsTracingSystem::<u64>::new(config, false, 0).is_ok());
}

#[test]
fn metrics_are_kept_by_name() {
    let mut m = metrics(true);
    assert!(m.record_metric("a", 1, 10));
    assert!(m.record_metric("a", 2, 11));
    assert!(m.record_metric("b", 3, 12));
    let a = m.get_aggregated_metric("a").unwrap();
    assert_eq!(a.values, vec![1, 2]);
    assert_eq!((a.count, a.last_updated), (2, Some(11)));
    assert!(m.get_aggregated_metric("c").is_none());
    assert_eq!(m.get_all_metrics().len(), 2);
    let labels = vec![(String::from("k"), String::from("v"))];
    m.record_metric_with_labels("a", 4, labels.clone(), 13);
    assert_eq!(m.get_aggregated_metric("a").unwrap().labels, labels);
    let stats = m.get_stats(105);
    assert_eq!((stats.total_metrics, stats.total_recorded, stats.uptime), (2, 4, 100));
    m.reset_metrics();
    assert!(m.get_aggregated_metric("a").is_none());
}

#[test]
fn disabled_metrics_record_nothing() {
    let mut m = metrics(false);
    assert!(!m.record_metric("a", 1, 10));
    assert_eq!(m.get_stats(10).total_recorded, 0);
}

#[test]
fn metric_values_stay_bounded() {
    let mut metric: AggregatedMetric<u64> = AggregatedMetric::new(3);
    for i in 0..5 {
        metric.add_value(i, 100 + i);
    }
    assert_eq!(metric.values, vec![2, 3, 4]);
    assert_eq!(metric.timestamps, vec![102, 103, 104]);
    assert_eq!(metric.count, 5);
}

#[test]
fn the_same_anomaly_is_reported_once() {
    let mut m = metrics(true);
    let minute = 60 * SECOND;
    assert!(m.report_anomaly("latency", "high", 0, 0));
    assert!(!m.report_anomaly("latency", "high", 0, 1));
    assert!(m.report_anomaly("latency", "low", 0, 1));
    assert!(m.report_anomaly("load", "high", 0, 1));
    assert!(!m.report_anomaly("latency", "high", 5 * minute - 1, 5 * minute - 1));
    assert!(m.report_anomaly("latency", "high", 5 * minute, 5 * minute));
    assert_eq!(m.get_stats(0).total_anomalies, 4);
    assert!(m.get_anomalies(10).is_empty());
}

#[test]
fn the_newest_anomalies_are_given() {
    let mut m = metrics(true);
    for value in 0..4 {
        m.anomalies.push_back(Anomaly {
            metric_name: String::from("latency"),
            timestamp: 10,
            value,
            expected_value: 1,
            deviation: 2,
            threshold: 3,
            severity: AnomalySeverity::Info,
            description: String::new(),
        });
    }
    let newest: Vec<_> = m.get_anomalies(2).iter().map(|a| a.value).collect();
    assert_eq!(newest, vec![2, 3]);
}

fn evidence() -> Evidence {
    Evidence {
        count: 10,
        std_dev: Measure::exact(1),
        zscore: Measure::exact(0),
        mad_score: Measure::exact(0),
        held: 10,
        trend: TrendEvidence { known: 0, change: Measure::exact(0), largest: Measure::exact(0) },
    }
}

#[test]
fn deviations_are_graded() {
    let grade = |z: Measure| {
        let mut e = evidence();
        e.zscore = z;
        detect_anomalies(e).deviation
    };
    assert_eq!(grade(Measure::exact(3000)), None);
    assert_eq!(grade(Measure { at_least: 3000, at_most: 3001 }), Some(AnomalySeverity::Info));
    assert_eq!(grade(Measure::exact(4001)), Some(AnomalySeverity::Warning));
    assert_eq!(grade(Measure::exact(5001)), Some(AnomalySeverity::Critical));
}

#[test]
fn few_or_equal_values_show_no_anomaly() {
    let mut e = evidence();
    e.zscore = Measure::exact(9000);
    e.count = 9;
    assert_eq!(detect_anomalies(e).deviation, None);
    e.count = 10;
    e.std_dev = Measure { at_least: 0, at_most: 1 };
    assert_eq!(detect_anomalies(e).deviation, None);
}

#[test]
fn medians_and_trends_are_examined() {
    let mut e = evidence();
    e.mad_score = Measure::exact(3501);
    assert_eq!(detect_anomalies(e).median, Some(AnomalySeverity::Warning));
    e.trend =
        TrendEvidence { known: 5, change: Measure::exact(501), largest: Measure::exact(100) };
    assert!(e.trend.has_changed());
    assert_eq!(detect_anomalies(e).trend, Some(AnomalySeverity::Warning));
    e.trend.known = 4;
    assert!(!e.trend.has_changed());
    e.trend.known = 5;
    e.trend.change = Measure::exact(500);
    assert!(!e.trend.has_changed());
    e.trend.change = Measure::exact(501);
    e.trend.largest = Measure { at_least: 99, at_most: 100 };
    assert!(!e.trend.has_changed());
}

#[test]
fn metric_errors_have_texts() {
    let x = String::from("x");
    assert_eq!(MetricsError::TracingNotInitialized.message(), "Tracing not initialized");
    assert_eq!(MetricsError::MetricNotFound(x.clone()).message(), "Metric not found: x");
    assert_eq!(MetricsError::InvalidConfig(x.clone()).message(), "Invalid configuration: x");
    assert_eq!(MetricsError::StorageError(x).message(), "Storage error: x");
}

fn readings(hits: u64, misses: u64, reuse: Ratio, crypto: (u64, u64), tasks: u64) -> Readings {
    let mut buffers = BufferStats::default();
    buffers.total_allocated = 1;
    buffers.reuse_count = hits;
    buffers.allocation_count = misses;
    Readings {
        buffers: Some(buffers),
        reuse_rate: Some(reuse),
        crypto: Some(crypto),
        dispatcher_tasks: Some(tasks),
    }
}

#[test]
fn components_are_judged() {
    let mut m = BatchSystemMonitor::new(0);
    let good = readings(8, 2, Ratio::new(7, 10), (1000, 9), 5);
    assert_eq!(
        m.check_components_health(good, 1),
        vec![
            (Component::BufferPool, ComponentHealth::Healthy),
            (Component::CryptoProcessor, ComponentHealth::Healthy),
            (Component::Dispatchers, ComponentHealth::Healthy),
        ]
    );
    let fair = readings(7, 3, Ratio::new(7, 10), (1000, 10), 0);
    assert_eq!(
        m.check_components_health(fair, 2),
        vec![
            (Component::BufferPool, ComponentHealth::Degraded),
            (Component::CryptoProcessor, ComponentHealth::Degraded),
            (Component::Dispatchers, ComponentHealth::Degraded),
        ]
    );
    let bad = readings(5, 5, Ratio::new(7, 10), (1000, 50), 0);
    assert_eq!(
        m.check_components_health(bad, 3)[..2],
        [
            (Component::BufferPool, ComponentHealth::Unhealthy),
            (Component::CryptoProcessor, ComponentHealth::Unhealthy),
        ]
    );
    let status = m.get_component_status(Component::BufferPool).unwrap();
    assert_eq!((status.health, status.last_check), (ComponentHealth::Unhealthy, 3));
    match status.metrics {
        ComponentMetrics::BufferPool { hit_rate, reuse_rate, allocations, reuses } => {
            assert_eq!((hit_rate, reuse_rate), (Ratio::new(5, 10), Ratio::new(7, 10)));
            assert_eq!((allocations, reuses), (5, 5));
        }
        _ => panic!("these are no metrics of buffers"),
    }
    match m.get_component_status(Component::CryptoProcessor).unwrap().metrics {
        ComponentMetrics::CryptoProcessor { failure_rate, total_operations, failed_operations } => {
            assert_eq!(failure_rate, Ratio::new(50, 1000));
            assert_eq!((total_operations, failed_operations), (1000, 50));
        }
        _ => panic!("these are no metrics of ciphers"),
    }
    assert!(matches!(
        m.get_component_status(Component::Dispatchers).unwrap().metrics,
        ComponentMetrics::Dispatchers { total_tasks: 0 }
    ));
    assert_eq!(m.get_all_statuses().len(), 3);
    assert!(!m.health_check(bad, 4) && m.health_check(fair, 5));
}

#[test]
fn components_that_are_not_attached_are_not_judged() {
    let mut m = BatchSystemMonitor::new(0);
    let none =
        Readings { buffers: None, reuse_rate: None, crypto: None, dispatcher_tasks: None };
    assert!(m.check_components_health(none, 1).is_empty());
    assert!(m.get_component_status(Component::Dispatchers).is_none());
    assert!(m.get_all_statuses().is_empty());
    assert!(m.health_check(none, 1));
}

#[test]
fn collections_are_remembered() {
    let mut m = BatchSystemMonitor::new(0);
    let r = readings(3, 1, Ratio::new(1, 2), (10, 1), 6);
    let c = m.collect_metrics(r, 7);
    assert_eq!(c.buffer_pool_hit_rate, Ratio::new(3, 4));
    assert_eq!(c.crypto_failure_rate, Ratio::new(1, 10));
    assert_eq!((c.work_stealing_tasks, m.last_collection_time), (6, 7));
    m.collect_metrics(r, 8);
    assert_eq!(m.get_metrics_history(1)[0].0, 8);
    assert_eq!(m.get_metrics_history(9).len(), 2);
    m.reset_metrics();
    assert!(m.get_metrics_history(9).is_empty());
}

#[test]
fn alerts_name_the_component() {
    let sent = alerts(&vec![
        (Component::BufferPool, ComponentHealth::Healthy),
        (Component::CryptoProcessor, ComponentHealth::Degraded),
        (Component::Dispatchers, ComponentHealth::Critical),
        (Component::BufferPool, ComponentHealth::Unhealthy),
    ]);
    let texts: Vec<&str> = sent.iter().map(|a| a.text.as_str()).collect();
    assert_eq!(
        texts,
        vec![
            "Component crypto_processor is degraded",
            "Component dispatchers is critical",
            "Component buffer_pool is unhealthy",
        ]
    );
    assert_eq!(sent[0].level, AlertLevel::Warning);
    assert_eq!(sent[1].level, AlertLevel::Error);
}

#[test]
fn failed_checks_are_counted() {
    let mut m = BatchSystemMonitor::new(0);
    let mut c = BatchSystemHealthChecker::new(10, 0);
    let good = readings(8, 2, Ratio::new(7, 10), (0, 0), 5);
    let bad = readings(0, 5, Ratio::new(7, 10), (100, 60), 0);
    for i in 1..=3u32 {
        let outcome = c.run_health_check(&mut m, bad, i as u64);
        assert!(!outcome.healthy);
        assert_eq!(outcome.in_trouble, i == 3);
        assert_eq!((outcome.counts.unhealthy, outcome.counts.degraded), (2, 1));
        assert_eq!(c.get_consecutive_failures(), i);
    }
    assert!(c.run_health_check(&mut m, good, 9).healthy);
    assert_eq!((c.get_consecutive_failures(), c.get_last_check_time()), (0, 9));
    // The watched components are never critical.
    let (ok, sent) = c.emergency_check(&mut m, bad, 10);
    assert!(ok && sent.len() == 3);
}

#[test]
fn collected_values_grow_stale() {
    let mut c: BatchSystemMetricsCollector<i32> = BatchSystemMetricsCollector::new(100, 3);
    c.record_metric("x", 1, Vec::new(), 0);
    c.record_metric("x", 2, Vec::new(), 50);
    c.record_metric("y", 9, Vec::new(), 60);
    c.record_metric("x", 3, Vec::new(), 100);
    let values: Vec<i32> = c.get_metric_history("x", None).iter().map(|m| m.value).collect();
    assert_eq!(values, vec![2, 3]);
    for i in 4..7 {
        c.record_metric("x", i, Vec::new(), 100);
    }
    let values: Vec<i32> = c.get_metric_history("x", None).iter().map(|m| m.value).collect();
    assert_eq!(values, vec![4, 5, 6]);
    let last: Vec<i32> = c.get_metric_history("x", Some(1)).iter().map(|m| m.value).collect();
    assert_eq!(last, vec![6]);
    assert!(c.get_metric_history("z", None).is_empty());
    assert_eq!(c.get_metric_names(), vec!["x", "y"]);
    let all = c.export_metrics();
    let values = |i: usize| all[i].1.iter().map(|m| m.value).collect::<Vec<i32>>();
    assert_eq!((all[0].0.as_str(), values(0)), ("x", vec![4, 5, 6]));
    assert_eq!((all[1].0.as_str(), values(1), all.len()), ("y", vec![9], 2));
    c.reset_metrics();
    assert!(c.get_metric_names().is_empty());
}
