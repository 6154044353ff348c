//! The system as a whole.

use batch_system::acceleration::chacha20_batch_accel::SimdFeatures;
use batch_system::acceleration::parallel::chacha20_single;
use batch_system::adaptive_batcher::{AdaptiveBatcher, AdaptiveBatcherConfig};
use batch_system::circuit_breaker::{CircuitBreakerManager, CircuitState};
use batch_system::config::{BatchConfig, MILLISECOND, SECOND};
use batch_system::integration::batches::{
    route_processing, split_operations, take_queue, take_ready, CipherJob, HashJob, ProcessingJob,
    LOCAL_ADDR,
};
use batch_system::integration::commands::{CommandReply, ConfigChange};
use batch_system::integration::controller::{
    may_change_batch_size, react_to, AdaptedParameter, AdaptiveSystemController, BatchProposal,
    MeanWaits, QosTrigger, TransferProposal,
};
use batch_system::integration::events::{
    convert_reader_event, BatchOperation, ErrorSeverity, PendingBatch, PerformanceCounter,
    ProcessResult, ProcessorType, SessionCache, SessionCacheEntry, SystemCommand, SystemEvent,
    SESSION_LIFETIME,
};
use batch_system::integration::handling::EventReply;
use batch_system::integration::metrics::SystemMetrics;
use batch_system::integration::scaling::ScalingSettings;
use batch_system::integration::system::{
    batch_counts, track_step, BatchCounts, IntegratedBatchSystem, PacketOutcome, Receipt, TrackStep,
};
use batch_system::io::reader::ReaderEvent;
use batch_system::measure::Measure;
use batch_system::metrics_tracing::AnomalySeverity;
use batch_system::optimized::buffer_pool::OptimizedBufferPool;
use batch_system::optimized::crypto_processor::OptimizedCryptoProcessor;
use batch_system::optimized::work_stealing_dispatcher::{
    Decryption, Placement, WorkStealingDispatcher,
};
use batch_system::qos_manager::QosStatistics;
use batch_system::ratio::Ratio;
use batch_system::types::error::BatchError;
use batch_system::types::priority::Priority;
use bytes::Bytes;

fn features() -> SimdFeatures {
    SimdFeatures { avx2: true, avx512: false, neon: false, aes_ni: false, sse4_2: false }
}

fn config() -> BatchConfig {
    let mut c = BatchConfig::with_cores(2, features(), 0);
    c.failure_threshold = 2;
    c
}

fn system() -> IntegratedBatchSystem<u64> {
    match IntegratedBatchSystem::new(config(), features(), true, 0) {
        Ok(s) => s,
        Err(e) => panic!("{}", e.message()),
    }
}

fn bytes(data: &[u8]) -> Bytes {
    Bytes::from(data.to_vec())
}

#[test]
fn systems_start_running_and_empty() {
    let s = system();
    assert!(s.is_running && s.is_initialized && s.controller.is_running);
    assert_eq!(s.work_stealing_dispatcher.num_workers, 4);
    assert_eq!(s.work_stealing_dispatcher.backpressure_threshold, 8000);
    assert_eq!(s.qos_manager.total_capacity, 10_000);
    assert_eq!((s.worker_pool.current_workers, s.adaptive_batcher.get_batch_size()), (4, 512));
    let status = s.get_system_status(9);
    assert_eq!((status.active_connections, status.pending_tasks), (0, 0));
    assert_eq!((status.memory_usage.buffer_pool, status.timestamp), (0, 9));
}

#[test]
fn the_status_tells_of_the_components() {
    let mut s = system();
    s.buffer_pool.stats[2].memory_usage = 3 * 1_048_576 + 500_000;
    s.buffer_pool.global.current_memory_usage = 2 * 1_048_576 - 1;
    s.circuit_breaker_manager.get_or_create("dispatcher", 0);
    s.circuit_breaker_manager.failed("dispatcher", 1);
    s.circuit_breaker_manager.failed("dispatcher", 1);
    let status = s.get_system_status(9);
    assert_eq!(status.memory_usage.buffer_pool, 4 * 1_048_576);
    assert_eq!(status.qos_stats.high.requests, 0);
    assert!(status.circuit_stats.iter().any(|c| {
        c.name == "dispatcher" && c.state == CircuitState::Open
    }));
    let dispatcher = &status.dispatcher_stats;
    assert_eq!((dispatcher.total_workers, dispatcher.current_batch_size), (4, 512));
    assert_eq!((dispatcher.circuit_state, dispatcher.timestamp), (CircuitState::Open, 9));
}

#[test]
fn systems_need_tracing_for_metrics() {
    match IntegratedBatchSystem::<u64>::new(config(), features(), false, 0) {
        Err(BatchError::ProcessingError(s)) => {
            assert_eq!(s, "Metrics init failed: Tracing not initialized");
        }
        _ => panic!("the system started"),
    }
}

#[test]
fn received_data_becomes_a_task() {
    let mut s = system();
    match s.receive_between(vec![1], bytes(b"abc"), 5, Priority::High, 100, 0, 1, 200) {
        Receipt::Submitted(sub) => {
            assert_eq!((sub.task.id, sub.task.size_bytes), (1, 3));
            assert_eq!(sub.task.deadline, Some(100 + 30 * SECOND));
            assert!(matches!(
                s.finish_submission(sub.task.id, sub.worker, Placement::ToWorker, 201),
                Ok(1)
            ));
            assert_eq!(s.work_stealing_dispatcher.queue_len(sub.worker), 1);
        }
        Receipt::Rejected(_) => panic!("the data was refused"),
    }
    assert_eq!(s.stats.total_data_received, 3);
    match s.handle_data_received(vec![1], bytes(b"de"), 5, Priority::High, 100, 200) {
        Receipt::Submitted(sub) => assert!(sub.worker < 4),
        Receipt::Rejected(_) => panic!("the data was refused"),
    }
    assert_eq!(s.stats.total_data_received, 5);
}

#[test]
fn refused_data_is_reported() {
    let mut s = system();
    for t in 0..2 {
        s.circuit_breaker_manager.failed("packet_service", t);
    }
    match s.receive_between(vec![1], bytes(b"abc"), 5, Priority::High, 0, 0, 1, 10) {
        Receipt::Rejected(SystemEvent::ErrorOccurred { error, context, severity }) => {
            assert_eq!(error, "Circuit breaker open");
            assert_eq!((context.as_str(), severity), ("packet_service", ErrorSeverity::High));
        }
        _ => panic!("the data was taken"),
    }
    let mut s = system();
    match s.finish_submission(1, 0, Placement::Nowhere, 10) {
        Err(SystemEvent::ErrorOccurred { error, context, .. }) => {
            assert_eq!(error, "Backpressure: too many pending operations");
            assert_eq!(context, "submit_task");
        }
        _ => panic!("the task was placed"),
    }
}

#[test]
fn results_are_tracked() {
    let mut s = system();
    assert_eq!(track_step(0, false), TrackStep::Wait);
    assert_eq!(track_step(99, true), TrackStep::Done);
    assert_eq!(track_step(100, true), TrackStep::GiveUp);
    assert!(s.track_task_result(1, vec![7]).is_none());
    let sub = match s.receive_between(vec![7], bytes(b"abc"), 5, Priority::High, 0, 0, 1, 10) {
        Receipt::Submitted(sub) => sub,
        Receipt::Rejected(_) => panic!("the data was refused"),
    };
    let opened = Decryption::Decrypted { packet_type: 0x10, data: vec![9, 8] };
    s.work_stealing_dispatcher.process_task(2, sub.task, opened, 20, 33, 40, false);
    match s.track_task_result(1, vec![7]) {
        Some(SystemEvent::DataProcessed { session_id, result, processing_time, worker_id }) => {
            assert_eq!((session_id, processing_time, worker_id), (vec![7], 33, Some(2)));
            assert!(result.success && result.error.is_none());
            assert_eq!(result.data, Some(bytes(&[0x10, 9, 8])));
            assert_eq!((result.destination_addr, result.was_stolen), (Some(5), Some(false)));
        }
        _ => panic!("there is no result"),
    }
}

#[test]
fn opened_packets_are_routed() {
    let mut s = system();
    let job = s.route_result(&Ok(vec![0x10, 1, 2]), true, 0).unwrap();
    assert_eq!((job.packet_type, job.payload), (0x10, vec![1, 2]));
    assert_eq!((job.priority, job.requires_flush), (Priority::Critical, true));
    assert!(s.route_result(&Ok(vec![0x10]), true, 0).is_none());
    assert!(s.route_result(&Ok(vec![0x77, 1]), true, 0).is_none());
    assert_eq!(s.stats.total_errors, 0);
    assert!(s.route_result(&Ok(vec![0x10, 1]), false, 0).is_none());
    assert!(s.route_result(&Err(String::from("x")), true, 0).is_none());
    assert_eq!(s.stats.total_errors, 2);
    for t in 0..2 {
        s.circuit_breaker_manager.failed("packet_service", t);
    }
    assert!(s.route_result(&Ok(vec![0x10, 1]), true, 3).is_none());
    assert_eq!(s.stats.total_errors, 3);
}

#[test]
fn answers_are_counted() {
    let mut s = system();
    s.process_task_result(PacketOutcome::Sealed { response_len: 40, written: true }, 0);
    s.process_task_result(PacketOutcome::Sealed { response_len: 40, written: false }, 0);
    assert_eq!((s.stats.total_packets_processed, s.stats.total_data_sent), (1, 40));
    s.process_task_result(PacketOutcome::EncryptionFailed, 0);
    assert_eq!(s.stats.total_errors, 1);
    s.process_task_result(PacketOutcome::ServiceFailed, 0);
    s.process_task_result(PacketOutcome::ServiceFailed, 0);
    let i = s.circuit_breaker_manager.get_breaker("packet_service").unwrap();
    assert_eq!(s.circuit_breaker_manager.breaker(i).get_state(), CircuitState::Open);
}

#[test]
fn connections_come_and_go() {
    let mut s = system();
    s.handle_connection_opened(5, vec![1], 10);
    s.handle_connection_opened(6, vec![2], 11);
    assert_eq!(s.active_connections.get(5).unwrap().opened_at, 10);
    s.session_cache.entries.push(SessionCacheEntry {
        session_id: vec![1],
        last_used: 0,
        access_count: 0,
        data: Bytes::new(),
    });
    let result = ProcessResult {
        success: true,
        data: Some(bytes(b"1234")),
        error: None,
        destination_addr: Some(5),
        was_stolen: Some(false),
    };
    s.handle_data_processed(&[1], &result, 20);
    let c = s.active_connections.get(5).unwrap();
    assert_eq!((c.bytes_sent, c.last_activity, s.stats.total_data_sent), (4, 20, 4));
    assert_eq!(s.session_cache.entries[0].access_count, 1);
    s.handle_connection_closed(5);
    assert!(s.active_connections.get(5).is_none());
    assert_eq!((s.active_connections.len(), s.stats.total_connections), (1, 2));
}

#[test]
fn events_are_handled() {
    let mut s = system();
    let opened = SystemEvent::ConnectionOpened { addr: 5, session_id: vec![1] };
    assert!(matches!(s.handle_event(opened, 10), EventReply::Nothing));
    assert_eq!(s.active_connections.get(5).unwrap().session_id, vec![1]);
    let data = SystemEvent::DataReceived {
        session_id: vec![1],
        data: bytes(b"abc"),
        source_addr: 5,
        priority: Priority::High,
        timestamp: 10,
    };
    match s.handle_event(data, 11) {
        EventReply::Received(Receipt::Submitted(sub)) => assert_eq!(sub.task.size_bytes, 3),
        _ => panic!("the data was refused"),
    }
    let result = ProcessResult {
        success: true,
        data: Some(bytes(b"12")),
        error: None,
        destination_addr: Some(5),
        was_stolen: Some(false),
    };
    let processed = SystemEvent::DataProcessed {
        session_id: vec![1],
        result,
        processing_time: 1,
        worker_id: None,
    };
    s.handle_event(processed, 12);
    assert_eq!(s.active_connections.get(5).unwrap().bytes_sent, 2);
    let completed = SystemEvent::BatchCompleted {
        batch_id: 1,
        size: 4,
        processing_time: 8,
        success_rate: Ratio::new(1, 1),
    };
    s.handle_event(completed, 13);
    assert_eq!(s.stats.avg_processing_time, 8);
    let error = SystemEvent::ErrorOccurred {
        error: String::from("e"),
        context: String::from("c"),
        severity: ErrorSeverity::Low,
    };
    match s.handle_event(error, 14) {
        EventReply::Measured(all, one) => {
            assert_eq!((all.as_str(), one.as_str()), ("system.errors", "system.errors.0"));
        }
        _ => panic!("the error is not measured"),
    }
    let closed = SystemEvent::ConnectionClosed {
        addr: 5,
        session_id: vec![1],
        reason: String::from("r"),
    };
    s.handle_event(closed, 15);
    assert_eq!((s.active_connections.len(), s.stats.total_connections), (0, 1));
}

#[test]
fn finished_batches_move_the_mean() {
    let mut s = system();
    s.handle_batch_completed(100, 10 * MILLISECOND);
    s.handle_batch_completed(10, 20 * MILLISECOND);
    assert_eq!(s.stats.avg_processing_time, 15 * MILLISECOND);
    assert_eq!(s.stats.peak_throughput, Ratio::new(100, 10 * MILLISECOND));
    let (all, one) = s.handle_error_occurred(ErrorSeverity::Critical);
    assert_eq!((all.as_str(), one.as_str()), ("system.errors", "system.errors.3"));
    assert_eq!(s.stats.total_errors, 1);
}

fn cipher(encrypt: bool, data: &[u8]) -> BatchOperation {
    let (session_id, data) = (vec![1], bytes(data));
    if encrypt {
        BatchOperation::Encryption { session_id, data, key: [1; 32], nonce: [2; 12] }
    } else {
        BatchOperation::Decryption { session_id, data, key: [1; 32], nonce: [2; 12] }
    }
}

fn mixed() -> Vec<BatchOperation> {
    vec![
        cipher(true, b"plain"),
        BatchOperation::Hashing { data: bytes(b"h"), key: Some([3; 32]) },
        BatchOperation::Hashing { data: bytes(b"h"), key: None },
        cipher(false, b"sealed"),
        BatchOperation::Processing {
            session_id: vec![4],
            data: bytes(&[0x01, 5]),
            processor_type: ProcessorType::Accelerated,
        },
    ]
}

#[test]
fn operations_are_split_by_kind() {
    let s = split_operations(mixed());
    assert_eq!((s.encryptions.len(), s.decryptions.len()), (1, 1));
    // A hash without a key is not worked on.
    assert_eq!((s.hashes.len(), s.processing.len()), (1, 1));
}

fn pending(operations: Vec<BatchOperation>, deadline: Option<u64>) -> PendingBatch {
    PendingBatch {
        id: 0,
        operations,
        priority: Priority::Normal,
        source_addr: 8,
        created_at: 0,
        deadline,
        retry_count: 0,
    }
}

#[test]
fn batches_are_ready_when_large_or_late() {
    let mut waiting = vec![
        pending(mixed(), None),
        pending(Vec::new(), Some(10)),
        pending(Vec::new(), Some(11)),
        pending(Vec::new(), None),
    ];
    let mut counter = 4;
    // Three fifths of eight is four.
    let ready = take_ready(&mut waiting, &mut counter, 8, 10);
    let ids: Vec<u64> = ready.iter().map(|b| b.id).collect();
    assert_eq!((ids, counter, waiting.len()), (vec![5, 6], 6, 2));
    let mut s = system();
    s.pending_batches.push(pending(Vec::new(), Some(10)));
    assert!(s.next_batches(9).is_empty());
    assert_eq!(s.next_batches(10)[0].id, 1);
    assert!(s.pending_batches.is_empty());
}

#[test]
fn batches_are_worked_through() {
    let s = system();
    let work = s.process_batch(pending(mixed(), None));
    assert_eq!((work.size, work.source_addr), (5, 8));
    let sealed = chacha20_single(&[1; 32], &[2; 12], &b"plain".to_vec());
    assert_eq!(&work.writes[0].data[..], &sealed[..]);
    assert!(work.writes[0].requires_flush);
    let opened = chacha20_single(&[1; 32], &[2; 12], &b"sealed".to_vec());
    assert_eq!(work.opened[0].text, opened);
    assert_eq!(&work.digests[0], blake3::keyed_hash(&[3; 32], b"h").as_bytes());
    assert_eq!(work.processing.len(), 1);
}

#[test]
fn encrypted_texts_open_again() {
    let s = system();
    let work = s.process_batch(pending(vec![cipher(true, b"some text")], None));
    let sealed = work.writes[0].data.clone();
    let work = s.process_batch(pending(vec![cipher(false, &sealed)], None));
    assert_eq!(work.opened[0].text, b"some text");
}

#[test]
fn processing_jobs_are_routed() {
    let job = |first: &[u8], processor_type: ProcessorType| ProcessingJob {
        session_id: vec![],
        data: bytes(first),
        processor_type,
    };
    assert_eq!(
        route_processing(&job(&[0x01, 9], ProcessorType::Accelerated)),
        Some((0x01, Priority::Critical, true))
    );
    assert_eq!(route_processing(&job(&[0x01, 9], ProcessorType::Standard)), None);
    assert_eq!(route_processing(&job(&[0x02], ProcessorType::Accelerated)), None);
    assert_eq!(route_processing(&job(&[], ProcessorType::Accelerated)), None);
}

#[test]
fn finished_batches_are_told() {
    let mut s = system();
    let counts = BatchCounts { processed: 1, written: 1, answered: 1, hashed: 0 };
    match s.finish_batch(7, 5, counts, 4 * MILLISECOND, 60) {
        (SystemEvent::BatchCompleted { batch_id, size, success_rate, .. }, update) => {
            assert_eq!((batch_id, size, success_rate), (7, 5, Ratio::new(3, 5)));
            assert!(update);
        }
        _ => panic!("the batch is not complete"),
    }
    assert_eq!((s.stats.crypto_operations, s.stats.total_batches_processed), (3, 1));
    assert_eq!(s.adaptive_batcher.measurements.len(), 1);
    let none = BatchCounts { processed: 0, written: 0, answered: 0, hashed: 0 };
    match s.finish_batch(8, 0, none, 1, 60).0 {
        SystemEvent::BatchCompleted { success_rate, .. } => {
            assert_eq!(success_rate, Ratio::new(1, 1));
        }
        _ => panic!("the batch is not complete"),
    }
}

#[test]
fn a_batch_counts_what_was_done() {
    let mut s = system();
    let work = s.process_batch(pending(mixed(), None));
    let most = batch_counts(&work, 1, 1);
    assert_eq!((most.processed, most.written, most.answered, most.hashed), (1, 1, 1, 1));
    // The hash without a key never succeeds.
    match s.finish_batch(work.id, work.size, most, 1, 60).0 {
        SystemEvent::BatchCompleted { success_rate, .. } => {
            assert_eq!(success_rate, Ratio::new(4, 5));
        }
        _ => panic!("the batch is not complete"),
    }
    let least = batch_counts(&work, 0, 0);
    assert_eq!((least.processed, least.written, least.answered, least.hashed), (1, 0, 0, 1));
    s.finish_batch(work.id, work.size, least, 1, 60);
    assert_eq!((s.stats.crypto_operations, s.stats.total_packets_processed), (6, 6));
}

#[test]
fn any_quotas_and_batch_sizes_can_be_built_with() {
    let mut c = config();
    c.batch_size = 4;
    c.high_priority_quota = 900;
    c.normal_priority_quota = 900;
    c.low_priority_quota = 200;
    let s: IntegratedBatchSystem<u64> =
        IntegratedBatchSystem::new(c, features(), true, 0).ok().unwrap();
    assert_eq!(s.adaptive_batcher.get_batch_size(), 4);
    assert_eq!(s.qos_manager.total_capacity, 10_000);
    // A tenth of a token bucket is a permit.
    assert_eq!(s.qos_manager.high_tokens.rate, 45_000);
    assert_eq!(s.qos_manager.low_tokens.rate, 10_000);
}

#[test]
fn load_has_to_be_known_before_anything_adapts() {
    let rate = |n: u64| Measure::exact(n * 1000);
    assert!(!may_change_batch_size(9, &rate(50)));
    assert!(may_change_batch_size(10, &rate(50)));
    assert!(!may_change_batch_size(99, &rate(100)) && may_change_batch_size(100, &rate(100)));
    assert!(!may_change_batch_size(100, &rate(9)) && !may_change_batch_size(100, &rate(991)));
    let mut stats = QosStatistics::default();
    stats.high.requests = 999;
    assert!(!AdaptiveSystemController::may_change_quotas(&stats, &rate(50)));
    stats.low.requests = 1;
    assert!(AdaptiveSystemController::may_change_quotas(&stats, &rate(50)));
    assert!(!AdaptiveSystemController::may_change_quotas(&stats, &rate(9)));
}

#[test]
fn opened_texts_are_routed_and_concluded() {
    let mut s = system();
    assert!(s.route_opened(&[0x10, 1], false, 0).is_none());
    assert!(s.route_opened(&[0x33, 1], true, 0).is_none());
    assert_eq!(s.route_opened(&[0x10, 1], true, 0).unwrap().payload, vec![1]);
    assert!(s.conclude_opened(PacketOutcome::Sealed { response_len: 1, written: false }, 0));
    assert!(!s.conclude_opened(PacketOutcome::EncryptionFailed, 0));
    assert!(!s.conclude_opened(PacketOutcome::ServiceFailed, 1));
    assert!(s.route_opened(&[0x10, 1], true, 2).is_none());
}

#[test]
fn queues_are_taken_whole() {
    let mut q = vec![1, 2, 3];
    assert_eq!(take_queue(&mut q, 4, false), None);
    assert_eq!(take_queue(&mut q, 3, false), Some(vec![1, 2, 3]));
    assert_eq!(take_queue(&mut q, 3, true), None);
    q.push(9);
    assert_eq!(take_queue(&mut q, 3, true), Some(vec![9]));
}

#[test]
fn vector_queues_wait_for_a_while() {
    let mut s = system();
    let job = |data: &[u8]| CipherJob {
        session_id: vec![6],
        key: [1; 32],
        nonce: [2; 12],
        data: bytes(data),
    };
    s.simd_queues.encryptions.push(job(b"e"));
    s.simd_queues.decryptions.push(job(b"d"));
    s.simd_queues.hashes.push(HashJob { key: [3; 32], data: bytes(b"h") });
    let early = s.simd_tick(50 * MILLISECOND - 1);
    assert!(early.writes.is_empty() && early.events.is_empty() && early.digests.is_empty());
    let work = s.simd_tick(50 * MILLISECOND);
    assert_eq!((work.writes.len(), work.events.len(), work.digests.len()), (1, 1, 1));
    assert_eq!((work.destination_addr, work.destination_addr >> 40), (LOCAL_ADDR, 127));
    assert_eq!(work.writes[0].session_id, vec![6]);
    match &work.events[0] {
        SystemEvent::DataProcessed { result, .. } => {
            let opened = chacha20_single(&[1; 32], &[2; 12], &b"d".to_vec());
            assert_eq!(result.data, Some(Bytes::from(opened)));
            assert_eq!((result.destination_addr, result.was_stolen), (None, None));
        }
        _ => panic!("nothing was decrypted"),
    }
    assert_eq!(s.simd_queues.last_batch_time, 50 * MILLISECOND);
    assert!(s.simd_queues.encryptions.is_empty());
}

#[test]
fn reader_events_are_converted() {
    let data = ReaderEvent::DataReady {
        session_id: vec![1],
        data: vec![2, 3],
        source_addr: 4,
        priority: Priority::Low,
        received_at: 5,
        size: 2,
    };
    assert!(matches!(
        convert_reader_event(data),
        SystemEvent::DataReceived { source_addr: 4, timestamp: 5, data, .. }
            if &data[..] == &[2u8, 3][..]
    ));
    let closed = ReaderEvent::ConnectionClosed { source_addr: 4, reason: String::from("r") };
    assert!(matches!(
        convert_reader_event(closed),
        SystemEvent::ConnectionClosed { addr: 4, reason, .. } if reason == "r"
    ));
    let error = ReaderEvent::Error { source_addr: 4, error: BatchError::Timeout };
    match convert_reader_event(error) {
        SystemEvent::ErrorOccurred { error, context, severity } => {
            assert_eq!((error.as_str(), context.as_str()), ("Timeout error", "reader_error"));
            assert_eq!(severity, ErrorSeverity::High);
        }
        _ => panic!("no error is told"),
    }
}

#[test]
fn session_caches_forget_unused_sessions() {
    let mut c = SessionCache::new();
    for (i, used) in [0, 10, 20].into_iter().enumerate() {
        c.entries.push(SessionCacheEntry {
            session_id: vec![i as u8],
            last_used: used,
            access_count: 0,
            data: Bytes::new(),
        });
    }
    c.touch(&[0], 30);
    assert_eq!((c.entries[0].last_used, c.entries[0].access_count), (30, 1));
    c.clean(SESSION_LIFETIME + 20);
    assert_eq!(c.len(), 1);
    assert_eq!(c.entries[0].session_id, vec![0]);
    c.clear();
    assert_eq!(c.len(), 0);
}

#[test]
fn system_metrics_keep_the_last_value() {
    let mut m: SystemMetrics<u64> = SystemMetrics::new();
    assert_eq!(m.get_metric("x"), None);
    for i in 0..70 {
        m.record_metric("x", i, i);
    }
    assert_eq!(m.get_metric("x"), Some(69));
    let p = m.performance_counters.find("x").unwrap();
    let counter = m.performance_counters.get(p);
    assert_eq!((counter.values.len(), counter.values[0], counter.value), (60, 10, Some(69)));
    m.count("y", 1, 2);
    assert_eq!(m.get_metric("y"), None);
    m.clear();
    assert_eq!(m.get_metric("x"), None);
    let mut c: PerformanceCounter<u8> = PerformanceCounter::new(String::from("c"), 2, 0);
    c.update(1, 5);
    assert_eq!((c.value, c.timestamp), (Some(1), 5));
}

#[test]
fn commands_are_followed() {
    let mut s = system();
    assert!(matches!(
        s.handle_command(SystemCommand::PauseProcessing, 8, 0),
        CommandReply::Done
    ));
    assert!(!s.is_running);
    s.handle_command(SystemCommand::ResumeProcessing, 8, 0);
    assert!(s.is_running);
    assert!(matches!(
        s.handle_command(SystemCommand::ScaleUp { count: 3 }, 20, 5),
        CommandReply::Scaled(3)
    ));
    assert!(matches!(
        s.handle_command(SystemCommand::ScaleDown { count: 9 }, 5, 6),
        CommandReply::Scaled(2)
    ));
    assert_eq!(s.worker_pool.current_workers, 5);
    s.stats.total_errors = 4;
    match s.handle_command(SystemCommand::GetStatistics, 8, 0) {
        CommandReply::Statistics(stats) => assert_eq!(stats.total_errors, 4),
        _ => panic!("there are no statistics"),
    }
    s.handle_command(SystemCommand::ResetStatistics, 8, 0);
    assert_eq!(s.stats.total_errors, 0);
    s.handle_command(SystemCommand::RebalanceWorkers, 8, 0);
    assert_eq!(s.work_stealing_dispatcher.stealing_model.p_steal, 2000);
    let mut settings = ScalingSettings::starting(0);
    settings.min_worker_count = 6;
    s.handle_command(SystemCommand::UpdateScalingSettings { settings }, 9, 0);
    assert_eq!(s.worker_pool.current_workers, 6);
}

#[test]
fn configuration_values_can_be_adjusted() {
    let mut s = system();
    assert_eq!(s.adjust_config("batch_size", "100", 8, 0), ConfigChange::BatchSize(100));
    assert_eq!(s.adjust_config("batch_size", "99999", 8, 0), ConfigChange::BatchSize(1024));
    assert_eq!(s.adjust_config("batch_size", "many", 8, 0), ConfigChange::Nothing);
    assert_eq!(s.adjust_config("worker_count", "7", 20, 0), ConfigChange::WorkersAdded(3));
    assert_eq!(s.adjust_config("worker_count", "7", 20, 0), ConfigChange::Nothing);
    assert_eq!(s.adjust_config("worker_count", "5", 1, 0), ConfigChange::WorkersRemoved(2));
    assert_eq!(s.adjust_config("worker_count", "3", 1, 0), ConfigChange::Nothing);
    assert_eq!(
        s.adjust_config("target_latency_ms", "40", 1, 0),
        ConfigChange::TargetLatency(40)
    );
    assert_eq!(s.adjust_config("colour", "40", 1, 0), ConfigChange::Nothing);
    let reply = s.handle_command(
        SystemCommand::AdjustConfig {
            parameter: String::from("batch_size"),
            value: String::from("64"),
        },
        8,
        0,
    );
    assert!(matches!(reply, CommandReply::Changed(ConfigChange::BatchSize(64))));
}

#[test]
fn caches_and_buffers_are_emptied() {
    let mut s = system();
    s.handle_connection_opened(5, vec![1], 10);
    s.pending_batches.push(pending(Vec::new(), None));
    s.metrics.record_metric("x", 1, 1);
    s.handle_command(SystemCommand::ClearCaches, 8, 0);
    assert_eq!((s.active_connections.len(), s.pending_batches.len()), (0, 0));
    assert_eq!(s.metrics.get_metric("x"), None);
    s.session_cache.entries.push(SessionCacheEntry {
        session_id: vec![1],
        last_used: 0,
        access_count: 0,
        data: Bytes::new(),
    });
    s.handle_command(SystemCommand::FlushBuffers, 8, 7);
    assert_eq!((s.session_cache.len(), s.buffer_pool.last_cleanup), (0, 7));
}

#[test]
fn a_stopped_system_stops_its_components() {
    let mut s = system();
    s.register_connection(5, &[1], false, 0).unwrap();
    s.handle_command(SystemCommand::StopProcessing, 8, 0);
    assert!(!s.is_running && !s.controller.is_running);
    assert!(!s.work_stealing_dispatcher.is_running && !s.crypto_processor.is_running);
    assert!(!s.reader.is_running && !s.writer.is_running);
    assert!(!s.writer.connections[0].is_active);
    let mut s = system();
    let reply = s.handle_command(
        SystemCommand::EmergencyShutdown { reason: String::from("fire") },
        8,
        0,
    );
    assert!(matches!(reply, CommandReply::ShutDown(r) if r == "fire"));
    assert!(!s.is_running);
}

#[test]
fn connections_are_registered_with_reader_and_writer() {
    let mut s = system();
    let (reader, gatherer, event) = s.register_connection(5, &[1, 2], false, 9).unwrap();
    assert_eq!((reader.source_addr, reader.session_id), (5, vec![1, 2]));
    assert_eq!((gatherer.destination_addr, gatherer.last_flush), (5, 9));
    assert!(matches!(event, SystemEvent::ConnectionOpened { addr: 5, .. }));
    assert_eq!(s.writer.find_session(&[1, 2]).unwrap(), 0);
    assert!(s.register_connection(6, &[3], true, 9).is_err());
    assert_eq!(s.reader.connection_count, 1);
}

#[test]
fn the_system_scales_itself() {
    let mut s = system();
    assert!(!s.perform_auto_scaling(20, 60 * SECOND - 1));
    assert!(s.perform_auto_scaling(20, 60 * SECOND));
    assert_eq!(s.worker_pool.current_workers, 6);
    let needs = s.check_scaling_needs(
        Ratio::new(1, 10),
        Some(Ratio::new(1, 2)),
        Measure::exact(900),
        20,
        61 * SECOND,
    );
    assert!(needs.clean_buffers && needs.rebalance && !needs.add_workers);
    assert_eq!(s.buffer_pool.last_cleanup, 61 * SECOND);
    assert_eq!(s.work_stealing_dispatcher.stealing_model.p_steal, 2000);
    s.collect_statistics(70);
    s.buffer_pool.global.current_hit_rate = Ratio::new(3, 4);
    s.update_performance_counters();
    assert_eq!((s.stats.uptime, s.stats.buffer_hit_rate), (70, Ratio::new(3, 4)));
}

fn loaded_batcher(n: usize) -> AdaptiveBatcher {
    let mut b = AdaptiveBatcher::new(AdaptiveBatcherConfig::default());
    for _ in 0..n {
        b.record_batch_execution(10, MILLISECOND, 0);
    }
    b
}

fn proposal(batch_size: usize, workers: usize) -> BatchProposal {
    BatchProposal { batch_size, workers, reason: String::from("load"), confidence: 850 }
}

#[test]
fn controllers_adapt_batch_sizes_to_real_loads() {
    let mut c = AdaptiveSystemController::new(0);
    let mut cfg = config();
    let mut b = loaded_batcher(9);
    let load = Measure::exact(50_000);
    assert!(c.optimize_batch_size(&mut b, &mut cfg, load, proposal(100, 6), 1).is_none());
    let mut b = loaded_batcher(10);
    for unreal in [9_999, 990_001, 100_000] {
        let r =
            c.optimize_batch_size(&mut b, &mut cfg, Measure::exact(unreal), proposal(100, 6), 1);
        assert!(r.is_none());
    }
    assert!(c.adaptation_history.is_empty());
    let r = c.optimize_batch_size(&mut b, &mut cfg, load, proposal(5, 6), 1);
    assert!(matches!(r, Some(SystemCommand::ScaleUp { count: 2 })));
    assert_eq!((b.current_batch_size, cfg.batch_size, b.current_workers), (32, 32, 6));
    let record = c.get_adaptation_history(1)[0];
    assert_eq!((record.parameter.name(), record.new_value), ("batch_size", 32));
    let r = c.optimize_batch_size(&mut b, &mut cfg, load, proposal(32, 5), 2);
    assert!(matches!(r, Some(SystemCommand::ScaleDown { count: 1 })));
    assert_eq!(c.adaptation_history.len(), 1);
}

#[test]
fn controllers_adapt_worker_numbers() {
    let mut c = AdaptiveSystemController::new(0);
    let mut d = WorkStealingDispatcher::new(8, 100);
    let load = Measure::exact(50_000);
    let why = || String::from("queue");
    // All of the backlog lies in one queue.
    d.worker_queues.set(0, 80);
    let (few, enough) = (loaded_batcher(49), loaded_batcher(50));
    assert!(c.optimize_worker_count(&mut d, &few, load, 10, why(), 1).is_none());
    assert_eq!(d.stealing_model.p_steal, 1000);
    let r = c.optimize_worker_count(&mut d, &enough, load, 10, why(), 1);
    assert!(matches!(r, Some(SystemCommand::ScaleUp { count: 2 })));
    assert_eq!(d.stealing_model.p_steal, 1500);
    assert_eq!(d.stealing_model.imbalance, Measure::exact(1000));
    d.worker_queues.set(0, 0);
    let r = c.optimize_worker_count(&mut d, &enough, load, 3, why(), 1);
    assert!(r.is_none());
    assert_eq!(d.stealing_model.p_steal, 1300);
    assert_eq!(d.stealing_model.imbalance, Measure::exact(1000));
    assert_eq!(c.get_adaptation_history(9).len(), 1);
    assert_eq!(c.adaptation_history[0].parameter, AdaptedParameter::WorkerCount);
}

#[test]
fn controllers_watch_quality_of_service() {
    let c = AdaptiveSystemController::new(0);
    let mut stats = QosStatistics::default();
    stats.high.requests = 600;
    stats.normal.requests = 300;
    stats.low.requests = 100;
    let load = Measure::exact(50_000);
    let mut waits = MeanWaits {
        high: Measure::exact(100_000),
        normal: Measure::exact(200_000),
        low: Measure::exact(500_000),
    };
    assert_eq!(c.optimize_qos_quotas(&stats, load, waits), None);
    waits.low = Measure::exact(500_001);
    assert_eq!(c.optimize_qos_quotas(&stats, load, waits), Some(QosTrigger::LowWait));
    stats.low.rejected = 21;
    assert_eq!(c.optimize_qos_quotas(&stats, load, waits), Some(QosTrigger::LowRejection));
    stats.normal.rejected = 31;
    assert_eq!(c.optimize_qos_quotas(&stats, load, waits), Some(QosTrigger::NormalRejection));
    stats.high.rejected = 31;
    assert_eq!(c.optimize_qos_quotas(&stats, load, waits), Some(QosTrigger::HighRejection));
    assert_eq!(c.optimize_qos_quotas(&stats, Measure::exact(1), waits), None);
    stats.low.requests = 99;
    assert_eq!(c.optimize_qos_quotas(&stats, load, waits), None);
}

#[test]
fn controllers_grow_small_pools() {
    let c = AdaptiveSystemController::new(0);
    let mut pool = OptimizedBufferPool::new(2, 0);
    pool.global.current_hit_rate = Ratio::new(0, 0);
    assert!(!c.optimize_buffer_pool(&mut pool, 50, 1));
    pool.global.current_hit_rate = Ratio::new(3, 10);
    assert!(!c.optimize_buffer_pool(&mut pool, 50, 1));
    pool.global.current_hit_rate = Ratio::new(29, 100);
    assert!(c.optimize_buffer_pool(&mut pool, 50, 1));
    assert_eq!(pool.pools[0].len(), 10);
    assert_eq!(c.simd_threshold(5), 7);
}

#[test]
fn controllers_put_open_breakers_on_trial() {
    let c = AdaptiveSystemController::new(0);
    let mut m = CircuitBreakerManager::new(1, 100, 1);
    m.failed("dispatcher", 0);
    m.failed("other", 0);
    c.optimize_circuit_breaker(&mut m, 99);
    let state = |m: &CircuitBreakerManager, name: &str| {
        m.breaker(m.get_breaker(name).unwrap()).get_state()
    };
    assert_eq!(state(&m, "dispatcher"), CircuitState::Open);
    c.optimize_circuit_breaker(&mut m, 100);
    assert_eq!(state(&m, "dispatcher"), CircuitState::HalfOpen);
    assert_eq!(state(&m, "other"), CircuitState::Open);
    let mut p = OptimizedCryptoProcessor::new(2, features());
    assert!(!c.optimize_crypto_processing(&p, &mut m, 1));
    p.stats.set("total_tasks_processed", 100);
    p.stats.set("total_encryptions", 50);
    p.stats.set("total_decryptions", 40);
    p.stats.set("total_hashes", 5);
    assert_eq!(p.success_counts(), (95, 100));
    assert!(!c.optimize_crypto_processing(&p, &mut m, 1));
    p.stats.set("total_hashes", 4);
    assert!(c.optimize_crypto_processing(&p, &mut m, 1));
    m.get_or_create("crypto_processor", 1);
    assert!(c.optimize_crypto_processing(&p, &mut m, 2));
    assert_eq!(state(&m, "crypto_processor"), CircuitState::Open);
}

#[test]
fn controllers_adapt_transfers() {
    let mut c = AdaptiveSystemController::new(0);
    let mut cfg = config();
    let mut m = CircuitBreakerManager::new(1, 100, 1);
    m.get_or_create("writer", 0);
    let p = |read_timeout: u64, batch_size: usize| TransferProposal {
        read_timeout,
        read_reason: String::from("r"),
        flush_reason: String::from("f"),
        batch_size,
        batch_reason: String::from("b"),
    };
    let near = cfg.read_timeout + 100 * MILLISECOND;
    c.optimize_reader_writer(&mut cfg, &mut m, p(near, 512), 0, 5);
    assert_eq!(cfg.read_timeout, 10 * SECOND);
    // Half of fifty milliseconds.
    assert_eq!(cfg.flush_interval, 25 * MILLISECOND);
    assert_eq!(c.adaptation_history.len(), 1);
    c.optimize_reader_writer(&mut cfg, &mut m, p(2 * SECOND, 64), 45_000, 6);
    assert_eq!((cfg.read_timeout, cfg.batch_size), (2 * SECOND, 64));
    let newest = c.get_adaptation_history(2);
    assert_eq!(newest[0].parameter, AdaptedParameter::WriterBatchSize);
    assert_eq!((newest[1].parameter, newest[1].new_value), (AdaptedParameter::ReadTimeout, 2000));
    assert_eq!(m.breaker(0).get_state(), CircuitState::Open);
}

#[test]
fn controllers_pause_between_reports() {
    let mut c = AdaptiveSystemController::new(0);
    assert_eq!(c.apply_decisions(5 * SECOND - 1), None);
    assert_eq!(c.apply_decisions(5 * SECOND), Some(5 * SECOND));
    assert_eq!(c.apply_decisions(6 * SECOND), None);
    c.note_quotas(400, 450, String::from("q"), 900, 7);
    assert_eq!(c.adaptation_history[0].parameter.name(), "qos_quotas");
    c.stop();
    assert!(!c.is_running);
}

#[test]
fn anomalies_are_reacted_to() {
    let high = Measure { at_least: 150_000, at_most: 150_001 };
    let r = react_to("p95 latency", AnomalySeverity::Critical, high, high, 50);
    assert!(r.shutdown && !r.clean_buffers && !r.adapt_quotas);
    let at = Measure::exact(150_000);
    assert!(!react_to("latency", AnomalySeverity::Critical, high, at, 50).shutdown);
    assert!(!react_to("latency", AnomalySeverity::Warning, high, high, 50).shutdown);
    assert!(!react_to("throughput", AnomalySeverity::Critical, high, high, 50).shutdown);
    let low = Measure::exact(499);
    assert!(react_to("buffer_hit_rate", AnomalySeverity::Warning, low, at, 50).clean_buffers);
    let some = Measure::exact(101);
    assert!(react_to("high_qos_rejection", AnomalySeverity::Warning, some, at, 50).adapt_quotas);
    let none = react_to("buffer_hit_rate", AnomalySeverity::Info, low, at, 50);
    assert!(!none.clean_buffers);
}
