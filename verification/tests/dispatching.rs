//! Tasks and the workers that take them.

use batch_system::acceleration::chacha20_batch_accel::SimdFeatures;
use batch_system::circuit_breaker::{CircuitBreaker, CircuitState};
use batch_system::load_aware_dispatcher::{LoadAwareDispatcher, LoadAwareTask};
use batch_system::measure::Measure;
use batch_system::optimized::factory::{FactoryOptimizationModel, OptimizedFactory};
use batch_system::optimized::work_stealing_dispatcher::{
    worker_counter_name, Decryption, DispatchWorker, LoadBalancer, Placement,
    WorkStealingDispatcher, WorkStealingModel, WorkStealingTask, DEFAULT_DEADLINE,
    RESULT_LIFETIME,
};
use batch_system::ratio::Ratio;
use batch_system::types::error::BatchError;
use batch_system::types::priority::Priority;
use bytes::Bytes;

fn breaker() -> CircuitBreaker {
    CircuitBreaker::new(String::from("dispatcher"), 3, 1_000, 2, 0)
}

fn task(len: usize) -> WorkStealingTask {
    WorkStealingTask {
        id: 0,
        session_id: vec![0xab, 0x01],
        data: Bytes::from(vec![7; len]),
        source_addr: 99,
        priority: Priority::Normal,
        created_at: 0,
        worker_id: None,
        retry_count: 0,
        deadline: None,
        size_bytes: len,
        estimated_processing_time: 0,
    }
}

#[test]
fn longer_queues_are_worth_stealing_from() {
    let m = WorkStealingModel::new(4);
    assert_eq!(m.steal_success_probability(3), Ratio::new(3, 4));
    // Worth it where q * q * 100 exceeds the cost times q + 1.
    let mut worth = false;
    for q in 0..100 {
        let now = m.optimal_steal_policy(q, 200);
        assert!(now || !worth);
        worth = now;
    }
    assert!(!m.optimal_steal_policy(2, 200));
    assert!(m.optimal_steal_policy(3, 200));
    assert!(!m.optimal_steal_policy(0, 0));
}

#[test]
fn steal_probabilities_follow_the_balance() {
    let mut m = WorkStealingModel::new(4);
    assert_eq!(m.imbalance, Measure::exact(0));
    m.adapt(5, 500, Measure::exact(500));
    assert_eq!((m.m, m.p_steal, m.imbalance), (5, 1500, Measure::exact(500)));
    m.adapt(5, 500, Measure { at_least: 500, at_most: 501 });
    assert_eq!(m.p_steal, 2000);
    m.adapt(5, 500, Measure::exact(199));
    assert_eq!(m.p_steal, 1400);
    m.adapt(5, 1_000_000, Measure::exact(900));
    assert_eq!(m.p_steal, 4500);
}

#[test]
fn the_lighter_worker_is_chosen() {
    let mut l = LoadBalancer::new(3);
    l.update_ema(0, 100);
    l.update_ema(1, 10);
    assert_eq!(l.worker_loads, vec![30, 3, 0]);
    assert_eq!(l.lighter(0, 1), (1, 0));
    assert_eq!(l.lighter(1, 0), (1, 0));
    let n = l.worker_loads.len();
    assert_eq!(l.select_drawn(0, n + 1), (1, 0));
    assert_eq!(l.select_drawn(1, 5 * n), (1, 0));
    for _ in 0..50 {
        let (a, b) = l.select_worker_power_of_two();
        assert!(l.worker_loads[a] <= l.worker_loads[b]);
    }
}

#[test]
fn submitted_tasks_get_a_number_and_a_deadline() {
    let mut d = WorkStealingDispatcher::new(4, 100);
    let mut b = breaker();
    let s = d.submit_task(&mut b, task(50), 1_000).unwrap();
    assert_eq!((s.task.id, s.task.deadline), (1, Some(1_000 + DEFAULT_DEADLINE)));
    assert_eq!(s.task.estimated_processing_time, 150_000);
    assert!(s.worker < 4);
    let s = d.submit_between(&mut b, task(0), 2, 3, 0).unwrap();
    assert_eq!((s.task.id, s.worker), (2, 3));
}

#[test]
fn sent_tasks_can_be_taken() {
    let mut d = WorkStealingDispatcher::new(2, 100);
    let mut b = breaker();
    assert_eq!(d.finish_submission(&mut b, 5, 1, Placement::ToWorker, 0).unwrap(), 5);
    assert_eq!((d.queue_len(1), d.queue_backlog()), (1, 1));
    d.take_own_task(1);
    assert_eq!((d.queue_len(1), d.queue_backlog()), (0, 0));
    assert_eq!(d.finish_submission(&mut b, 6, 1, Placement::ToInjector, 0).unwrap(), 6);
    assert_eq!(d.stat("injector_backlog"), Some(1));
    assert_eq!(d.stat("tasks_submitted"), Some(2));
    let all = d.get_stats();
    assert_eq!(all.get("tasks_submitted"), Some(2));
    assert_eq!((all.get("current_queue_size"), all.get("injector_backlog")), (Some(0), Some(1)));
    let sum: u128 = all.list().iter().map(|(_, n)| *n as u128).sum();
    assert_eq!(d.total_count(), sum);
    assert!(matches!(
        d.finish_submission(&mut b, 7, 1, Placement::Nowhere, 0),
        Err(BatchError::Backpressure)
    ));
    assert_eq!(b.core.failure_count, 1);
}

#[test]
fn overloaded_dispatchers_refuse() {
    let mut d = WorkStealingDispatcher::new(1, 5);
    let mut b = breaker();
    for id in 0..5 {
        let _ = d.finish_submission(&mut b, id, 0, Placement::ToWorker, 0);
    }
    assert!(matches!(d.submit_task(&mut b, task(1), 0), Err(BatchError::Backpressure)));
    assert_eq!(b.core.failure_count, 1);
}

#[test]
fn open_breakers_stop_submissions() {
    let mut d = WorkStealingDispatcher::new(1, 100);
    let mut b = breaker();
    for t in 0..3 {
        b.record_failure(t);
    }
    match d.submit_task(&mut b, task(1), 10) {
        Err(BatchError::ProcessingError(s)) => assert_eq!(s, "Circuit breaker is open"),
        _ => panic!("the task was taken"),
    }
    assert_eq!(d.next_task_id, 1);
}

#[test]
fn decrypted_tasks_give_type_and_data() {
    let mut d = WorkStealingDispatcher::new(2, 100);
    let mut t = task(3);
    t.id = 8;
    let decryption = Decryption::Decrypted { packet_type: 0x10, data: vec![1, 2] };
    assert!(d.process_task(1, t, decryption, 5, 7_000_000, 20, true));
    let r = d.get_result(8).unwrap();
    assert_eq!(r.result, Ok(vec![0x10, 1, 2]));
    assert_eq!((r.worker_id, r.destination_addr, r.completed_at), (1, 99, 20));
    assert!(r.was_stolen);
    assert_eq!(d.stat("packet_type_16"), Some(1));
    assert_eq!(d.stat("processing_time_ms_total"), Some(7));
    assert_eq!(d.stat(worker_counter_name(1, "_tasks").as_str()), Some(1));
    let s = d.get_advanced_stats(32, CircuitState::Closed, 21);
    assert_eq!((s.healthy_workers, s.successful_decryptions), (1, 1));
    assert_eq!((s.p95_processing_time_ms, s.avg_processing_time_ms), (7, Ratio::new(7, 1)));
}

#[test]
fn failed_tasks_tell_why() {
    let mut d = WorkStealingDispatcher::new(2, 100);
    let outcome = |d: &mut WorkStealingDispatcher, deadline: Option<u64>, how: Decryption| {
        let mut t = task(3);
        t.deadline = deadline;
        assert!(!d.process_task(0, t, how, 50, 1, 60, false));
        d.get_result(0).unwrap().result.clone().unwrap_err()
    };
    assert_eq!(outcome(&mut d, Some(49), Decryption::NoSession), "Task expired");
    assert_eq!(outcome(&mut d, Some(50), Decryption::NoSession), "Session not found: ab01");
    assert_eq!(
        outcome(&mut d, None, Decryption::Failed(String::from("bad tag"))),
        "Decryption failed: bad tag"
    );
    assert_eq!(d.stat("tasks_expired"), Some(1));
    assert_eq!(d.stat("session_not_found"), Some(1));
    assert_eq!(d.stat("failed_decryptions"), Some(1));
    assert_eq!(d.stat("nothing"), None);
}

#[test]
fn workers_report_full_batches() {
    let mut d = WorkStealingDispatcher::new(2, 100);
    let mut b = breaker();
    let mut w = DispatchWorker::new(1, 3, 100);
    d.take_stolen_task(&mut w);
    d.stolen_task_done(&mut b, &mut w, true, 2_500_000, 150);
    assert!(d.own_task_done(&mut b, &mut w, false, 4_000_000, 160).is_none());
    let report = d.own_task_done(&mut b, &mut w, true, 6_000_000, 200).unwrap();
    assert_eq!((report.tasks, report.elapsed, report.queues), (3, 100, 2));
    assert_eq!(report.success_rate, Ratio::new(2, 3));
    assert_eq!((w.tasks_processed, w.stolen_tasks, w.batch_start_time), (0, 0, 200));
    // Three tenths of the mean of 2, 4 and 6 milliseconds.
    assert_eq!(d.worker_loads, vec![0, 1_200_000]);
    assert_eq!(d.stat("worker_1_batches"), Some(1));
    assert_eq!(d.stat("worker_1_stolen"), Some(1));
    assert_eq!(d.stat("work_steals"), Some(1));
    d.worker_stopped(&w);
    assert_eq!(d.stat("worker_1_final_tasks"), Some(0));
}

#[test]
fn refused_tasks_are_failures() {
    let mut b = breaker();
    let mut w = DispatchWorker::new(0, 3, 0);
    assert!(w.own_task_refused(&mut b, 2, 1));
    assert!(!w.own_task_refused(&mut b, 3, 1));
    w.stolen_task_refused();
    assert_eq!((w.failed_tasks, b.core.failure_count), (3, 2));
}

#[test]
fn workers_look_for_work_to_steal() {
    let mut d = WorkStealingDispatcher::new(2, 100);
    let mut b = breaker();
    for id in 0..3 {
        let _ = d.finish_submission(&mut b, id, 0, Placement::ToWorker, 0);
    }
    let mut w = DispatchWorker::new(0, 3, 0);
    assert!(!d.worker_round(&mut w, 64, 10_000_000));
    assert!(d.worker_round(&mut w, 64, 10_000_001));
    assert_eq!((w.last_steal_check, w.batch_size), (10_000_001, 3));
    let mut idle = DispatchWorker::new(1, 3, 0);
    assert!(!d.worker_round(&mut idle, 64, 100_000_001));
    assert_eq!((idle.batch_size, idle.batch_start_time), (64, 100_000_001));
}

#[test]
fn uneven_queues_raise_the_steal_probability() {
    let mut d = WorkStealingDispatcher::new(2, 100);
    let mut b = breaker();
    for id in 0..4 {
        let _ = d.finish_submission(&mut b, id, 0, Placement::ToWorker, 0);
    }
    assert!(d.can_measure_queues());
    assert_eq!(d.queue_imbalance(), Measure::exact(1000));
    assert_eq!(d.optimize_stealing(), Measure::exact(1000));
    assert_eq!(d.stealing_model.p_steal, 1504);
    assert_eq!(d.stealing_model.imbalance, Measure::exact(1000));
    let stats = d.get_advanced_stats(32, CircuitState::Closed, 21);
    assert_eq!(stats.imbalance, Measure::exact(1000));
    assert_eq!(d.stat("steal_imbalance"), Some(1000));
    assert_eq!(d.stat("steal_probability"), Some(150));
    assert_eq!(d.stat("steal_lambda"), Some(502));
}

#[test]
fn loads_flow_into_the_balancer() {
    let mut d = WorkStealingDispatcher::new(2, 100);
    d.worker_loads = vec![1_000_000, 3_000_000];
    assert_eq!(d.update_balancer(55), Measure::exact(500));
    assert_eq!(d.load_balancer.worker_loads, vec![300_000, 900_000]);
    assert_eq!(d.stat("load_balancer_total_load"), Some(400));
    assert_eq!(d.stat("load_balancer_avg_load"), Some(200));
    assert_eq!(d.stat("load_balancer_total_throughput"), Some(55));
    assert_eq!(d.stat("load_balancer_imbalance"), Some(500));
}

#[test]
fn negligible_loads_are_balanced() {
    let mut d = WorkStealingDispatcher::new(2, 100);
    d.worker_loads = vec![1, 0];
    assert_eq!(d.update_balancer(0), Measure::exact(0));
    assert_eq!(d.stat("load_balancer_imbalance"), Some(0));
}

#[test]
fn upkeep_leaves_its_marks() {
    let mut d = WorkStealingDispatcher::new(2, 100);
    d.collector_started();
    assert_eq!(d.stat("metrics_collector_started"), Some(1));
    assert_eq!(d.stat("metrics_collector_stopped"), None);
    d.collector_stopped();
    d.cleaner_stopped(3, 17);
    assert_eq!(d.stat("metrics_collector_stopped"), Some(1));
    assert_eq!(d.stat("final_cleanup_count"), Some(3));
    assert_eq!(d.stat("final_total_cleaned"), Some(17));
}

#[test]
fn old_results_are_cleaned() {
    let mut d = WorkStealingDispatcher::new(2, 100);
    for (id, completed) in [(1, 0), (2, 10), (3, 20)] {
        let mut t = task(1);
        t.id = id;
        d.process_task(0, t, Decryption::NoSession, 0, 1, completed, false);
    }
    assert_eq!(d.clean_results(RESULT_LIFETIME + 11), 2);
    assert!(d.get_result(1).is_none() && d.get_result(2).is_none());
    assert!(d.get_result(3).is_some());
    assert_eq!(d.stat("total_cleaned_tasks"), Some(2));
    d.collect_metrics(4);
    assert_eq!(d.stat("active_results"), Some(1));
    assert_eq!(d.stat("metrics_collection_count"), Some(4));
}

#[test]
fn a_stopped_dispatcher_has_nothing_left() {
    let mut d = WorkStealingDispatcher::new(2, 100);
    let mut b = breaker();
    d.start_workers();
    assert_eq!(d.stat("workers_started"), Some(2));
    let _ = d.finish_submission(&mut b, 1, 0, Placement::ToWorker, 0);
    d.process_task(0, task(1), Decryption::NoSession, 0, 1, 0, false);
    d.shutdown();
    assert!(!d.is_running && d.queue_backlog() == 0);
    assert!(d.get_result(0).is_none());
    assert_eq!(d.stat("workers_started"), None);
}

fn load_task(id: u64, priority: Priority, len: usize) -> LoadAwareTask {
    LoadAwareTask {
        id,
        session_id: vec![1],
        data: Bytes::from(vec![0; len]),
        source_addr: 5,
        priority,
        created_at: 0,
        estimated_complexity: 4,
        deadline: None,
    }
}

#[test]
fn workers_are_chosen_by_priority() {
    let mut d = LoadAwareDispatcher::new(3, 0);
    for (i, (queue, complexity)) in [(5, 0), (2, 90), (3, 1)].into_iter().enumerate() {
        d.worker_loads[i].queue_size = queue;
        d.worker_loads[i].current_complexity = complexity;
    }
    assert_eq!(d.select_optimal_worker(&load_task(0, Priority::Critical, 0)), Some(1));
    assert_eq!(d.select_optimal_worker(&load_task(0, Priority::High, 0)), Some(2));
    assert_eq!(d.select_optimal_worker(&load_task(4, Priority::Normal, 0)), Some(1));
    d.worker_loads[1].is_healthy = false;
    assert_eq!(d.select_optimal_worker(&load_task(0, Priority::Critical, 0)), Some(2));
    assert_eq!(d.select_optimal_worker(&load_task(4, Priority::Normal, 0)), Some(2));
    d.worker_loads[0].is_healthy = false;
    d.worker_loads[2].is_healthy = false;
    for p in [Priority::Critical, Priority::High, Priority::Low] {
        assert_eq!(d.select_optimal_worker(&load_task(1, p, 0)), None);
    }
}

#[test]
fn complexity_grows_with_urgency_and_size() {
    let d = LoadAwareDispatcher::new(1, 0);
    assert_eq!(d.estimate_task_complexity(&load_task(0, Priority::Background, 0)), 4);
    assert_eq!(d.estimate_task_complexity(&load_task(0, Priority::Normal, 1023)), 8);
    assert_eq!(d.estimate_task_complexity(&load_task(0, Priority::Normal, 2048)), 10);
    assert_eq!(d.estimate_task_complexity(&load_task(0, Priority::Critical, 99_999)), 23);
}

#[test]
fn done_tasks_relieve_the_worker() {
    let mut d = LoadAwareDispatcher::new(2, 0);
    d.worker_loads[1].queue_size = 3;
    d.worker_loads[1].current_complexity = 3;
    d.process_task(1, load_task(9, Priority::Low, 0), 50_000_000, 8);
    let w = d.worker_loads[1];
    assert_eq!((w.queue_size, w.current_complexity, w.last_update), (2, 0, 8));
    assert_eq!(w.avg_processing_time, 5_000_000);
    assert_eq!(d.results.get(9).unwrap().result, Ok(Vec::new()));
    d.note_steal();
    assert_eq!(d.total_tasks(), 1);
    let s = d.load_summary();
    assert_eq!((s.total_queue, s.healthy_workers, s.unhealthy_workers), (2, 2, 0));
    assert_eq!(s.avg_processing_time_ms, 2);
}

#[test]
fn factories_size_what_they_make() {
    let m = FactoryOptimizationModel::with_cores(8);
    let few = m.calculate_optimal_workers(100, 8);
    let many = m.calculate_optimal_workers(900, 8);
    assert!(1 <= few && few <= many);
    let mut f = OptimizedFactory::new(0);
    let d = f.create_dispatcher(3, 100);
    assert_eq!(d.num_workers, 3);
    let features =
        SimdFeatures { avx2: false, avx512: false, neon: false, aes_ni: false, sse4_2: false };
    assert!(f.crypto_worker_count(0, 4) > 0);
    let p = f.create_crypto_processor(0, features);
    assert!(p.num_workers > 0);
    let pool = f.create_buffer_pool(1024, 1024, 1024, 2, 5);
    assert_eq!(pool.last_cleanup, 5);
}
