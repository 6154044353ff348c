//! The system as a whole.
//!
//! Points in time and durations are nanoseconds. A remote address is the
//! number its owner gives it.

use bytes::Bytes;
use vstd::prelude::*;
use vstd::string::*;

use crate::acceleration::blake3_batch_accel::{Blake3BatchAccelerator, Blake3BatchConfig};
use crate::acceleration::chacha20_batch_accel::{
    ChaCha20BatchAccelerator, ChaCha20BatchConfig, SimdFeatures,
};
use crate::adaptive_batcher::{AdaptiveBatcher, AdaptiveBatcherConfig, has_recorded};
use crate::bounds::{greater, max_u64};
use crate::buffer::{bytes_as_slice, bytes_content, bytes_from_vec};
use crate::circuit_breaker::{BreakerCore, CircuitBreaker, CircuitBreakerManager, fresh_core};
use crate::config::{BatchConfig, MILLISECOND, SECOND};
use crate::crypto::primitives::{blake3_keyed_digest, chacha20_is_involution, chacha20_stream};
use crate::dash::count_of;
use crate::integration::batches::{
    CipherJob, ProcessingJob, SimdQueues, SimdWork, SplitBatch, WriteRequest,
    decryptions_keep_their_keys, decryptions_of, encryptions_keep_their_keys, encryptions_of,
    hashes_keep_their_keys, hashes_of, is_ready, keyless_of, numbered, processing_keeps_its_data,
    processing_of, run_ciphers, run_hashes, split_operations, splitting_keeps_operations,
    take_ready,
};
use crate::integration::controller::AdaptiveSystemController;
use crate::integration::events::{
    BatchOperation, ConnectionInfo, ErrorSeverity, PendingBatch, ProcessResult, SessionCache,
    SystemEvent, SystemStatistics, used_again,
};
use crate::integration::metrics::SystemMetrics;
use crate::integration::scaling::{MAX_WORKERS, MIN_WORKERS, ScalingSettings, WorkerPool};
use crate::io::reader::BatchReader;
use crate::io::writer::{BatchWriter, max_permits};
use crate::metrics_tracing::{MetricsConfig, MetricsTracingSystem};
use crate::optimized::buffer_pool::OptimizedBufferPool;
use crate::optimized::crypto_processor::OptimizedCryptoProcessor;
use crate::optimized::factory::{OptimizedFactory, crypto_workers, pool_size};
use crate::optimized::work_stealing_dispatcher::{
    DEFAULT_DEADLINE, Decryption, Placement, Submission, WorkStealingDispatcher,
    WorkStealingResult, WorkStealingTask, is_submission,
};
use crate::qos_manager::{Capacities, QosManager, quota_base};
use crate::ratio::Ratio;
use crate::store::NumberedStore;
use crate::text::{decimal, decimal_string};
use crate::types::error::BatchError;
use crate::types::packet_types::{is_packet_supported, reply_class, reply_handling, supported_type};
use crate::types::priority::Priority;

verus! {

/// The buffers of each size that the pool is asked for.
pub const POOL_BUFFERS: usize = 500;

/// The size of buffers for cryptographic work.
pub const CRYPTO_BUFFER_SIZE: usize = 65536;

/// How often the result of a task is asked for.
pub const RESULT_ATTEMPTS: u32 = 100;

/// The time within which a task that was received has to be done: thirty
/// seconds.
pub const RECEIVED_DEADLINE: u64 = 30_000_000_000;

/// The system.
pub struct IntegratedBatchSystem<V> {
    pub config: BatchConfig,
    pub reader: BatchReader,
    pub writer: BatchWriter,
    pub work_stealing_dispatcher: WorkStealingDispatcher,
    pub crypto_processor: OptimizedCryptoProcessor,
    pub buffer_pool: OptimizedBufferPool,
    pub chacha20_accelerator: ChaCha20BatchAccelerator,
    pub blake3_accelerator: Blake3BatchAccelerator,
    pub circuit_breaker_manager: CircuitBreakerManager,
    pub qos_manager: QosManager,
    pub adaptive_batcher: AdaptiveBatcher,
    pub metrics_tracing: MetricsTracingSystem<V>,
    pub controller: AdaptiveSystemController,
    pub is_running: bool,
    pub is_initialized: bool,
    pub stats: SystemStatistics,
    pub metrics: SystemMetrics<V>,
    pub pending_batches: Vec<PendingBatch>,
    pub batch_counter: u64,
    pub active_connections: NumberedStore<ConnectionInfo>,
    pub session_cache: SessionCache,
    pub scaling_settings: ScalingSettings,
    pub worker_pool: WorkerPool,
    pub simd_queues: SimdQueues,
}

/// Whether the buckets of each group can be filled.
pub open spec fn permits_fit(permits: (int, int, int)) -> bool {
    &&& permits.0 * 100 <= usize::MAX
    &&& permits.1 * 100 <= usize::MAX
    &&& permits.2 * 100 <= usize::MAX
}

/// Whether a system can be built from a configuration: where it cannot, a bound
/// lies above its limit or something cannot be counted.
pub open spec fn is_buildable(config: BatchConfig) -> bool {
    &&& config.wf()
    &&& config.min_batch_size <= config.max_batch_size
    &&& config.recovery_timeout * 16 <= u64::MAX
    &&& 0 < config.max_pending_writes <= max_permits()
    &&& config.max_queue_size * 40 <= usize::MAX
    &&& permits_fit(
        Capacities::of(
            config.high_priority_quota,
            config.normal_priority_quota,
            config.low_priority_quota,
            (config.max_queue_size * 10) as usize,
        ),
    )
    &&& config.max_queue_size * 10 * config.worker_count <= usize::MAX / 8
    &&& config.worker_count * 2 <= usize::MAX
    &&& config.read_buffer_size + config.write_buffer_size + CRYPTO_BUFFER_SIZE <= usize::MAX
}

/// A system can be built from the default configuration, if the work of all
/// its workers can be counted.
pub proof fn default_systems_can_be_built(
    config: BatchConfig,
    cores: usize,
    features: SimdFeatures,
    now: u64,
)
    requires
        config.is_default_for(cores, features, now),
        cores * 20000 <= usize::MAX / 8,
    ensures
        is_buildable(config),
{
    let permits = Capacities::of(400, 400, 200, 10000);
    assert(quota_base(1000) == 1000);
    assert(permits == (4000int, 4000int, 2000int));
}

impl<V: Copy> IntegratedBatchSystem<V> {
    /// What holds of every system.
    pub open spec fn wf(self) -> bool {
        &&& self.reader.wf()
        &&& self.writer.wf()
        &&& self.work_stealing_dispatcher.wf()
        &&& self.crypto_processor.wf()
        &&& self.buffer_pool.wf()
        &&& self.circuit_breaker_manager.wf()
        &&& self.qos_manager.wf()
        &&& self.adaptive_batcher.wf()
        &&& self.metrics_tracing.wf()
        &&& self.metrics.wf()
        &&& self.active_connections.wf()
        &&& self.session_cache.wf()
        &&& self.worker_pool.wf()
        &&& self.simd_queues.runnable()
    }

    /// Builds and starts a system. That fails where metrics are wanted and
    /// tracing cannot be had.
    pub fn new(
        config: BatchConfig,
        features: SimdFeatures,
        tracing_ready: bool,
        now: u64,
    ) -> (r: Result<Self, BatchError>)
        requires
            is_buildable(config),
        ensures
            r is Err <==> config.metrics_enabled && !tracing_ready,
            r matches Err(e) ==> e matches BatchError::ProcessingError(s) && s@
                == "Metrics init failed: "@ + "Tracing not initialized"@,
            r matches Ok(s) ==> s.wf() && s.config == config && s.is_running && s.is_initialized
                && s.stats == SystemStatistics::since(now),
            r matches Ok(s) ==> s.has_fresh_transfer() && s.has_fresh_workers(features, now)
                && s.has_fresh_rules(now) && s.has_nothing_pending(now),
            r matches Ok(s) ==> {
                &&& s.adaptive_batcher.current_batch_size == config.batch_size
                &&& s.adaptive_batcher.config.min_batch_size == config.min_batch_size
                &&& s.adaptive_batcher.config.max_batch_size == config.max_batch_size
                &&& s.writer.permits == config.max_pending_writes
                &&& s.writer.write_timeout == config.write_timeout
                &&& s.reader.timeout_model.base_timeout == config.read_timeout
                &&& s.work_stealing_dispatcher.num_workers == config.worker_count
                &&& s.worker_pool.min_workers == 4 && s.worker_pool.max_workers == 256
                &&& s.circuit_breaker_manager.settings() == (
                    config.failure_threshold,
                    config.recovery_timeout,
                    config.half_open_max_requests,
                )
                &&& s.qos_manager.total_capacity == 10 * config.max_queue_size
                &&& s.stats.total_packets_processed == 0 && s.stats.total_errors == 0
                &&& s.stats.startup_time == now
            },
    {
        let metrics_config: MetricsConfig = MetricsConfig {
            enabled: config.metrics_enabled,
            collection_interval: config.metrics_collection_interval,
            trace_sampling_rate: config.trace_sampling_rate,
            retention_period: 3600 * SECOND,
            max_metrics_per_service: 1000,
            enable_histograms: true,
            enable_time_series: true,
            enable_anomaly_detection: true,
        };
        let metrics_tracing: MetricsTracingSystem<V> = match MetricsTracingSystem::new(
            metrics_config,
            tracing_ready,
            now,
        ) {
            Ok(m) => m,
            Err(e) => {
                return Err(
                    BatchError::ProcessingError(
                        String::from_str("Metrics init failed: ").concat(e.message().as_str()),
                    ),
                );
            },
        };
        let mut breakers: CircuitBreakerManager = CircuitBreakerManager::new(
            config.failure_threshold,
            config.recovery_timeout,
            config.half_open_max_requests,
        );
        let ghost none = breakers;
        let _dispatcher: usize = breakers.get_or_create("dispatcher", now);
        let ghost one = breakers;
        let _packets: usize = breakers.get_or_create("packet_service", now);
        let ghost two = breakers;
        let _crypto: usize = breakers.get_or_create("crypto_processor", now);
        proof {
            reveal_strlit("dispatcher");
            reveal_strlit("packet_service");
            reveal_strlit("crypto_processor");
            assert("dispatcher"@.len() == 10);
            assert("packet_service"@.len() == 14);
            assert("crypto_processor"@.len() == 16);
            assert(none.position("dispatcher"@) is None);
            assert(one.position("packet_service"@) == none.position("packet_service"@));
            assert(two.position("crypto_processor"@) == one.position("crypto_processor"@));
            assert(one.position("crypto_processor"@) == none.position("crypto_processor"@));
            assert(two.position("dispatcher"@) == one.position("dispatcher"@));
            assert(breakers.position("dispatcher"@) == two.position("dispatcher"@));
            assert(breakers.position("packet_service"@) == two.position("packet_service"@));
            assert(two.all().take(1)[0] == two.all()[0]);
            assert(breakers.all().take(2)[0] == breakers.all()[0]);
            assert(breakers.all().take(2)[1] == breakers.all()[1]);
        }
        let total: usize = config.max_queue_size * 10;
        let capacities: Capacities = Capacities::from_quotas(
            config.high_priority_quota,
            config.normal_priority_quota,
            config.low_priority_quota,
            total,
        );
        let qos_manager: QosManager = QosManager::new(capacities, total, now);
        let adaptive_batcher: AdaptiveBatcher = AdaptiveBatcher::new(
            AdaptiveBatcherConfig {
                min_batch_size: config.min_batch_size,
                max_batch_size: config.max_batch_size,
                initial_batch_size: config.batch_size,
                target_latency: 50 * MILLISECOND,
                adaptation_interval: SECOND,
            },
        );
        let mut factory: OptimizedFactory = OptimizedFactory::new(now);
        proof {
            let each = config.read_buffer_size + config.write_buffer_size + CRYPTO_BUFFER_SIZE;
            assert(pool_size(true, POOL_BUFFERS) == 750);
            assert(each * 750 <= u128::MAX);
        }
        let buffer_pool: OptimizedBufferPool = factory.create_buffer_pool(
            config.read_buffer_size,
            config.write_buffer_size,
            CRYPTO_BUFFER_SIZE,
            POOL_BUFFERS,
            now,
        );
        let crypto_processor: OptimizedCryptoProcessor = factory.create_crypto_processor(
            config.worker_count * 2,
            features,
        );
        let dispatcher: WorkStealingDispatcher = factory.create_dispatcher(
            config.worker_count,
            total,
        );
        let reader: BatchReader = BatchReader::new(&config);
        let writer: BatchWriter = BatchWriter::new(&config);
        let mut system: IntegratedBatchSystem<V> = IntegratedBatchSystem {
            reader,
            writer,
            work_stealing_dispatcher: dispatcher,
            crypto_processor,
            buffer_pool,
            chacha20_accelerator: ChaCha20BatchAccelerator::new(config.simd_batch_size, features),
            blake3_accelerator: Blake3BatchAccelerator::new(config.simd_batch_size, features),
            circuit_breaker_manager: breakers,
            qos_manager,
            adaptive_batcher,
            metrics_tracing,
            controller: AdaptiveSystemController::new(now),
            is_running: true,
            is_initialized: false,
            stats: SystemStatistics::starting(now),
            metrics: SystemMetrics::new(),
            pending_batches: Vec::new(),
            batch_counter: 0,
            active_connections: NumberedStore::new(),
            session_cache: SessionCache::new(),
            scaling_settings: ScalingSettings::starting(now),
            worker_pool: WorkerPool::new(MIN_WORKERS, MAX_WORKERS),
            simd_queues: SimdQueues::new(now),
            config,
        };
        system.initialize();
        Ok(system)
    }

    fn initialize(&mut self)
        ensures
            *final(self) == (IntegratedBatchSystem { is_initialized: true, ..*old(self) }),
    {
        self.is_initialized = true;
    }

    /// Reader and writer as they start out.
    pub open spec fn has_fresh_transfer(self) -> bool {
        &&& self.reader.is_new(self.config)
        &&& self.writer.is_new(self.config)
    }

    /// Workers, buffers and accelerators as they start out.
    pub open spec fn has_fresh_workers(self, features: SimdFeatures, now: u64) -> bool {
        &&& self.work_stealing_dispatcher.is_new(
            self.config.worker_count,
            (self.config.max_queue_size * 10) as usize,
        )
        &&& self.crypto_processor.is_new(self.crypto_processor.num_workers, features)
        &&& exists|cores: usize|
            self.crypto_processor.num_workers == #[trigger] crypto_workers(
                true,
                (self.config.worker_count * 2) as usize,
                cores,
            )
        &&& self.buffer_pool.is_new(750, now)
        &&& self.chacha20_accelerator == (ChaCha20BatchAccelerator {
            config: ChaCha20BatchConfig::with_width(self.config.simd_batch_size),
            simd_capable: features.vectors(),
            detected_features: features,
        })
        &&& self.blake3_accelerator == (Blake3BatchAccelerator {
            config: Blake3BatchConfig::with_width(self.config.simd_batch_size),
            simd_capable: features.vectors(),
            detected_features: features,
        })
        &&& self.worker_pool == (WorkerPool {
            min_workers: 4,
            max_workers: 256,
            current_workers: 4,
        })
    }

    /// Breakers, quotas, batch sizes and scaling as they start out.
    pub open spec fn has_fresh_rules(self, now: u64) -> bool {
        let c = self.config;
        let fresh = fresh_core(c.failure_threshold, c.recovery_timeout, c.half_open_max_requests, now);
        let total = (c.max_queue_size * 10) as usize;
        let permits = Capacities::of(
            c.high_priority_quota,
            c.normal_priority_quota,
            c.low_priority_quota,
            total,
        );
        &&& self.circuit_breaker_manager.settings() == (
            c.failure_threshold,
            c.recovery_timeout,
            c.half_open_max_requests,
        )
        &&& self.circuit_breaker_manager.core_of("dispatcher"@) == Some(fresh)
        &&& self.circuit_breaker_manager.core_of("packet_service"@) == Some(fresh)
        &&& self.circuit_breaker_manager.core_of("crypto_processor"@) == Some(fresh)
        &&& self.circuit_breaker_manager.all().len() == 3
        &&& self.qos_manager.is_new(
            Capacities {
                high: permits.0 as usize,
                normal: permits.1 as usize,
                low: permits.2 as usize,
            },
            total,
            now,
        )
        &&& self.adaptive_batcher.is_new(
            AdaptiveBatcherConfig {
                min_batch_size: c.min_batch_size,
                max_batch_size: c.max_batch_size,
                initial_batch_size: c.batch_size,
                target_latency: 50_000_000,
                adaptation_interval: SECOND,
            },
        )
        &&& self.controller.is_new(now)
        &&& self.scaling_settings == ScalingSettings::initial(now)
    }

    /// Nothing waits, nobody is connected, nothing was measured.
    pub open spec fn has_nothing_pending(self, now: u64) -> bool {
        &&& self.pending_batches@.len() == 0
        &&& self.batch_counter == 0
        &&& self.active_connections.map() == Map::<u64, ConnectionInfo>::empty()
        &&& self.session_cache.entries@.len() == 0
        &&& self.simd_queues.encryptions@.len() == 0
        &&& self.simd_queues.decryptions@.len() == 0
        &&& self.simd_queues.hashes@.len() == 0
        &&& self.simd_queues.last_batch_time == now
        &&& self.metrics_tracing.is_new(
            MetricsConfig {
                enabled: self.config.metrics_enabled,
                collection_interval: self.config.metrics_collection_interval,
                trace_sampling_rate: self.config.trace_sampling_rate,
                retention_period: 3_600_000_000_000,
                max_metrics_per_service: 1000,
                enable_histograms: true,
                enable_time_series: true,
                enable_anomaly_detection: true,
            },
            now,
        )
        &&& forall|name: Seq<char>| #[trigger] self.metrics.metrics.lookup(name) is None
        &&& forall|name: Seq<char>| #[trigger]
            self.metrics.performance_counters.lookup(name) is None
    }
}

/// What becomes of data that was received.
#[derive(Debug)]
pub enum Receipt {
    /// It is not taken on; that is reported.
    Rejected(SystemEvent),
    /// It is on its way to a worker.
    Submitted(Submission),
}

/// Whether `e` reports an error.
pub open spec fn is_report(
    e: SystemEvent,
    error: Seq<char>,
    context: Seq<char>,
    severity: ErrorSeverity,
) -> bool {
    e matches SystemEvent::ErrorOccurred { error: text, context: place, severity: s } && text@
        == error && place@ == context && s == severity
}

fn report(error: String, context: &str) -> (e: SystemEvent)
    ensures
        is_report(e, error@, context@, ErrorSeverity::High),
{
    SystemEvent::ErrorOccurred {
        error,
        context: String::from_str(context),
        severity: ErrorSeverity::High,
    }
}

/// The task that data is made into.
pub open spec fn received_task(
    session_id: Vec<u8>,
    data: Bytes,
    source_addr: u64,
    priority: Priority,
    timestamp: u64,
) -> WorkStealingTask {
    WorkStealingTask {
        id: 0,
        session_id,
        data,
        source_addr,
        priority,
        created_at: timestamp,
        worker_id: None,
        retry_count: 0,
        deadline: Some((timestamp + RECEIVED_DEADLINE) as u64),
        size_bytes: bytes_content(data).len() as usize,
        estimated_processing_time: 0,
    }
}

/// Whether `r` is what becomes of data made into a task that is to go to one
/// of two workers, and `after` what becomes of the system. Nothing passes an
/// open breaker of the packet service; a task that the dispatcher refuses is
/// reported, and counts as a failure.
pub open spec fn is_receipt<V: Copy>(
    before: IntegratedBatchSystem<V>,
    task: WorkStealingTask,
    first: usize,
    second: usize,
    now: u64,
    r: Receipt,
    after: IntegratedBatchSystem<V>,
) -> bool {
    let packets = before.packet_core(now);
    let dispatcher = before.circuit_breaker_manager.core_for("dispatcher"@, now);
    &&& after == (IntegratedBatchSystem {
        stats: SystemStatistics {
            total_data_received: (before.stats.total_data_received + bytes_content(
                task.data,
            ).len()) as u64,
            ..before.stats
        },
        circuit_breaker_manager: after.circuit_breaker_manager,
        work_stealing_dispatcher: after.work_stealing_dispatcher,
        ..before
    })
    &&& forall|name: Seq<char>|
        name != "packet_service"@ && name != "dispatcher"@
            ==> #[trigger] after.circuit_breaker_manager.core_of(name)
            == before.circuit_breaker_manager.core_of(name)
    &&& if !packets.admits(now) {
        &&& r matches Receipt::Rejected(e) && is_report(
            e,
            "Circuit breaker open"@,
            "packet_service"@,
            ErrorSeverity::High,
        )
        &&& after.work_stealing_dispatcher == before.work_stealing_dispatcher
        &&& after.circuit_breaker_manager.after_change(
            before.circuit_breaker_manager,
            "packet_service"@,
            packets.after_request(now).after_failure(now),
        )
    } else {
        exists|s: Result<Submission, BatchError>, core: BreakerCore|
            {
                &&& #[trigger] is_submission(
                    before.work_stealing_dispatcher,
                    dispatcher,
                    task,
                    first,
                    second,
                    now,
                    s,
                    after.work_stealing_dispatcher,
                    core,
                )
                &&& after.circuit_breaker_manager.core_of("dispatcher"@) == Some(core)
                &&& match s {
                    Ok(submission) => {
                        &&& r == Receipt::Submitted(submission)
                        &&& after.circuit_breaker_manager.core_of("packet_service"@) == Some(
                            packets.after_request(now),
                        )
                    },
                    Err(e) => {
                        &&& r matches Receipt::Rejected(event) && is_report(
                            event,
                            e.text(),
                            "submit_task"@,
                            ErrorSeverity::High,
                        )
                        &&& after.circuit_breaker_manager.core_of("packet_service"@) == Some(
                            packets.after_request(now).after_failure(now),
                        )
                    },
                }
            }
    }
}

/// A packet that is to be answered.
#[derive(Debug)]
pub struct PacketJob {
    pub packet_type: u8,
    pub payload: Vec<u8>,
    pub priority: Priority,
    pub requires_flush: bool,
}

/// What became of a packet that was to be answered.
#[derive(Debug, Clone, Copy)]
pub enum PacketOutcome {
    /// There is no answer.
    ServiceFailed,
    /// The answer could not be sealed.
    EncryptionFailed,
    /// The answer of so many bytes was sealed; whether it could be written.
    Sealed { response_len: usize, written: bool },
}

/// What is done while the result of a task is waited for.
#[derive(Debug, Clone, Copy, PartialEq, Eq, Structural)]
pub enum TrackStep {
    Done,
    Wait,
    GiveUp,
}

/// What is done while the result of a task is waited for, after so many
/// attempts.
pub fn track_step(attempts: u32, found: bool) -> (s: TrackStep)
    ensures
        s == if attempts >= RESULT_ATTEMPTS {
            TrackStep::GiveUp
        } else if found {
            TrackStep::Done
        } else {
            TrackStep::Wait
        },
        s is GiveUp <==> attempts >= 100,
        s is Done <==> attempts < 100 && found,
{
    if attempts >= RESULT_ATTEMPTS {
        TrackStep::GiveUp
    } else if found {
        TrackStep::Done
    } else {
        TrackStep::Wait
    }
}

/// The mean processing time after one more batch.
pub open spec fn mean_with(mean: u64, batches: u64, time: u64) -> u64 {
    ((mean * (batches - 1) + time) / (batches as int)) as u64
}

/// Operations per nanosecond; batches are taken to last a millisecond at least.
pub open spec fn batch_throughput(size: usize, time: u64) -> Ratio {
    Ratio { part: size as u64, whole: greater(time as int, 1_000_000) as u64 }
}

/// A connection over which so many bytes more were sent.
pub open spec fn with_bytes_sent(c: ConnectionInfo, n: nat, now: u64) -> ConnectionInfo {
    ConnectionInfo { bytes_sent: (c.bytes_sent + n) as u64, last_activity: now, ..c }
}

/// Whether `job` is the packet in data that was decrypted: its type, the bytes
/// behind it, and how answers to the type are sent.
pub open spec fn is_packet_in(data: Seq<u8>, job: PacketJob) -> bool {
    &&& job.packet_type == data[0]
    &&& job.payload@ == data.skip(1)
    &&& job.priority == reply_class(data[0]).0
    &&& job.requires_flush == reply_class(data[0]).1
}

fn packet_in(data: &[u8]) -> (job: PacketJob)
    requires
        data@.len() > 0,
    ensures
        is_packet_in(data@, job),
{
    let (priority, requires_flush) = reply_handling(data[0]);
    let payload: Vec<u8> = vstd::slice::slice_to_vec(
        vstd::slice::slice_subrange(data, 1, data.len()),
    );
    proof {
        assert(payload@ =~= data@.skip(1));
    }
    PacketJob { packet_type: data[0], payload, priority, requires_flush }
}

impl<V: Copy> IntegratedBatchSystem<V> {
    /// The packet service's breaker, or the one it would get.
    pub open spec fn packet_core(self, now: u64) -> BreakerCore {
        self.circuit_breaker_manager.core_for("packet_service"@, now)
    }

    /// Only counters, breakers and what is said to change has changed.
    pub open spec fn only_counts(self, before: Self) -> bool {
        self == (IntegratedBatchSystem {
            stats: self.stats,
            circuit_breaker_manager: self.circuit_breaker_manager,
            ..before
        })
    }

    /// Whether data can be taken on: the counters have room, and its deadlines
    /// can be told.
    pub open spec fn can_receive(self, data: Bytes, timestamp: u64, now: u64) -> bool {
        let dispatcher = self.circuit_breaker_manager.core_for("dispatcher"@, now);
        &&& self.stats.total_data_received + bytes_content(data).len() <= u64::MAX
        &&& self.packet_core(now).counters_fit()
        &&& self.packet_core(now).after_request(now).counters_fit()
        &&& dispatcher.counters_fit()
        &&& dispatcher.after_request(now).counters_fit()
        &&& now + DEFAULT_DEADLINE <= u64::MAX
        &&& timestamp + RECEIVED_DEADLINE <= u64::MAX
    }

    /// Whether `after` is this system once data was received for the less
    /// loaded of some two workers, and `r` what became of the data.
    pub open spec fn has_received(
        self,
        after: Self,
        task: WorkStealingTask,
        now: u64,
        r: Receipt,
    ) -> bool {
        exists|first: usize, second: usize|
            first < self.work_stealing_dispatcher.num_workers && second
                < self.work_stealing_dispatcher.num_workers && #[trigger] is_receipt(
                self,
                task,
                first,
                second,
                now,
                r,
                after,
            )
    }

    /// Takes on data, unless the breaker of the packet service is open: it
    /// becomes a task for the less loaded of two workers drawn at random.
    pub fn handle_data_received(
        &mut self,
        session_id: Vec<u8>,
        data: Bytes,
        source_addr: u64,
        priority: Priority,
        timestamp: u64,
        now: u64,
    ) -> (r: Receipt)
        requires
            old(self).wf(),
            old(self).work_stealing_dispatcher.num_workers > 0,
            old(self).can_receive(data, timestamp, now),
        ensures
            final(self).wf(),
            old(self).has_received(
                *final(self),
                received_task(session_id, data, source_addr, priority, timestamp),
                now,
                r,
            ),
            final(self).stats.total_data_received == old(self).stats.total_data_received
                + bytes_content(
                data,
            ).len(),
            final(self).active_connections == old(self).active_connections,
            final(self).session_cache == old(self).session_cache,
            !old(self).packet_core(now).admits(now) ==> r is Rejected
                && final(self).work_stealing_dispatcher == old(self).work_stealing_dispatcher,
            r matches Receipt::Rejected(e)
                ==> (e matches SystemEvent::ErrorOccurred { severity, .. }
                && severity is High),
            r matches Receipt::Submitted(s) ==> {
                &&& s.task.session_id == session_id && s.task.data == data
                &&& s.task.source_addr == source_addr && s.task.priority == priority
                &&& s.task.created_at == timestamp
                &&& s.task.deadline == Some((timestamp + 30_000_000_000) as u64)
                &&& s.task.id == old(self).work_stealing_dispatcher.next_task_id
            },
    {
        let (first, second) = self.work_stealing_dispatcher.draw_workers();
        self.receive_between(
            session_id,
            data,
            source_addr,
            priority,
            timestamp,
            first,
            second,
            now,
        )
    }

    /// Takes on data for one of two workers.
    pub fn receive_between(
        &mut self,
        session_id: Vec<u8>,
        data: Bytes,
        source_addr: u64,
        priority: Priority,
        timestamp: u64,
        first: usize,
        second: usize,
        now: u64,
    ) -> (r: Receipt)
        requires
            old(self).wf(),
            first < old(self).work_stealing_dispatcher.num_workers,
            second < old(self).work_stealing_dispatcher.num_workers,
            old(self).can_receive(data, timestamp, now),
        ensures
            final(self).wf(),
            is_receipt(
                *old(self),
                received_task(session_id, data, source_addr, priority, timestamp),
                first,
                second,
                now,
                r,
                *final(self),
            ),
            r matches Receipt::Submitted(s) ==> {
                &&& s.task.session_id == session_id && s.task.data == data
                &&& s.task.source_addr == source_addr && s.task.priority == priority
                &&& s.task.created_at == timestamp
                &&& s.task.deadline == Some((timestamp + 30_000_000_000) as u64)
                &&& s.task.id == old(self).work_stealing_dispatcher.next_task_id
            },
    {
        proof {
            reveal_strlit("dispatcher");
            reveal_strlit("packet_service");
            assert("dispatcher"@.len() == 10);
            assert("packet_service"@.len() == 14);
        }
        let size: usize = bytes_as_slice(&data).len();
        self.stats.total_data_received = self.stats.total_data_received + size as u64;
        if !self.circuit_breaker_manager.request("packet_service", now) {
            self.circuit_breaker_manager.failed("packet_service", now);
            return Receipt::Rejected(
                report(String::from_str("Circuit breaker open"), "packet_service"),
            );
        }
        let ghost asked = self.circuit_breaker_manager;
        let task: WorkStealingTask = WorkStealingTask {
            id: 0,
            session_id,
            data,
            source_addr,
            priority,
            created_at: timestamp,
            worker_id: None,
            retry_count: 0,
            deadline: Some(timestamp + RECEIVED_DEADLINE),
            size_bytes: size,
            estimated_processing_time: 0,
        };
        proof {
            assert(asked.core_of("dispatcher"@) == old(self).circuit_breaker_manager.core_of(
                "dispatcher"@,
            ));
        }
        let breaker: &mut CircuitBreaker = self.circuit_breaker_manager.breaker_mut(
            "dispatcher",
            now,
        );
        let submitted: Result<Submission, BatchError> =
            self.work_stealing_dispatcher.submit_between(breaker, task, first, second, now);
        let ghost sent = self.circuit_breaker_manager;
        proof {
            assert(sent.core_of("packet_service"@) == asked.core_of("packet_service"@));
        }
        match submitted {
            Ok(s) => Receipt::Submitted(s),
            Err(e) => {
                self.circuit_breaker_manager.failed("packet_service", now);
                Receipt::Rejected(report(e.message(), "submit_task"))
            },
        }
    }
}

impl<V: Copy> IntegratedBatchSystem<V> {
    /// Ends the submission of data: its number, or a report.
    pub fn finish_submission(
        &mut self,
        id: u64,
        worker: usize,
        placement: Placement,
        now: u64,
    ) -> (r: Result<u64, SystemEvent>)
        requires
            old(self).wf(),
            worker < old(self).work_stealing_dispatcher.num_workers,
            old(self).packet_core(now).counters_fit(),
            old(self).circuit_breaker_manager.core_for("dispatcher"@, now).counters_fit(),
        ensures
            final(self).wf(),
            *final(self) == (IntegratedBatchSystem {
                circuit_breaker_manager: final(self).circuit_breaker_manager,
                work_stealing_dispatcher: final(self).work_stealing_dispatcher,
                ..*old(self)
            }),
            ({
                let packets = old(self).packet_core(now);
                let dispatcher = old(self).circuit_breaker_manager.core_for("dispatcher"@, now);
                let placed = placement != Placement::Nowhere;
                &&& placed ==> r == Ok::<u64, SystemEvent>(id)
                &&& !placed ==> (r matches Err(e) && is_report(
                    e,
                    BatchError::Backpressure.text(),
                    "submit_task"@,
                    ErrorSeverity::High,
                ))
                &&& final(self).circuit_breaker_manager.core_of("packet_service"@) == Some(
                    if placed {
                        packets.after_success(now)
                    } else {
                        packets.after_failure(now)
                    },
                )
                &&& final(self).circuit_breaker_manager.core_of("dispatcher"@) == Some(
                    if placed {
                        dispatcher.after_success(now)
                    } else {
                        dispatcher.after_failure(now)
                    },
                )
                &&& final(self).work_stealing_dispatcher.has_placed(
                    old(self).work_stealing_dispatcher,
                    worker,
                    placement,
                )
                &&& forall|name: Seq<char>|
                    name != "packet_service"@ && name != "dispatcher"@
                        ==> #[trigger] final(self).circuit_breaker_manager.core_of(name) == old(
                        self).circuit_breaker_manager.core_of(name)
            }),
    {
        proof {
            reveal_strlit("dispatcher");
            reveal_strlit("packet_service");
            assert("dispatcher"@.len() == 10);
            assert("packet_service"@.len() == 14);
        }
        let ghost before = self.circuit_breaker_manager;
        let breaker: &mut CircuitBreaker = self.circuit_breaker_manager.breaker_mut(
            "dispatcher",
            now,
        );
        let r: Result<u64, BatchError> = self.work_stealing_dispatcher.finish_submission(
            breaker,
            id,
            worker,
            placement,
            now,
        );
        proof {
            assert(self.circuit_breaker_manager.core_of("packet_service"@) == before.core_of(
                "packet_service"@,
            ));
        }
        let ghost mid = self.circuit_breaker_manager;
        match r {
            Ok(id) => {
                self.circuit_breaker_manager.succeeded("packet_service", now);
                proof {
                    assert(self.circuit_breaker_manager.core_of("dispatcher"@) == mid.core_of(
                        "dispatcher"@,
                    ));
                }
                Ok(id)
            },
            Err(e) => {
                self.circuit_breaker_manager.failed("packet_service", now);
                proof {
                    assert(self.circuit_breaker_manager.core_of("dispatcher"@) == mid.core_of(
                        "dispatcher"@,
                    ));
                }
                Err(report(e.message(), "submit_task"))
            },
        }
    }

    /// A task is done: the steals are counted, and its result is told.
    pub fn track_task_result(&mut self, task_id: u64, session_id: Vec<u8>) -> (e: Option<
        SystemEvent,
    >)
        requires
            old(self).wf(),
        ensures
            final(self).wf(),
            ({
                let d = old(self).work_stealing_dispatcher;
                let found = d.results.map().contains_key(task_id);
                &&& e is Some <==> found
                &&& *final(self) == if found {
                    IntegratedBatchSystem {
                        stats: SystemStatistics {
                            work_stealing_count: count_of(d.stats@, "work_steals"@),
                            ..old(self).stats
                        },
                        ..*old(self)
                    }
                } else {
                    *old(self)
                }
                &&& e matches Some(event) ==> tells_result(
                    d.results.map()[task_id],
                    session_id,
                    event,
                )
            }),
            e matches Some(event) ==> {
                let done = old(self).work_stealing_dispatcher.results.map()[task_id];
                event matches SystemEvent::DataProcessed {
                    session_id: s,
                    result,
                    processing_time,
                    worker_id,
                } && s == session_id && processing_time == done.processing_time
                    && worker_id == Some(
                    done.worker_id,
                ) && result.destination_addr == Some(done.destination_addr) && (result.success
                    <==> done.result is Ok) && (done.result matches Ok(d)
                        ==> (result.data matches Some(b)
                    && bytes_content(b) == d@)) && (done.result matches Err(text)
                        ==> result.data is None
                    && (result.error matches Some(t) && t@ == text@))
            },
    {
        match self.work_stealing_dispatcher.get_result(task_id) {
            None => None,
            Some(result) => {
                let (data, error) = match &result.result {
                    Ok(d) => (
                        Some(bytes_from_vec(vstd::slice::slice_to_vec(d.as_slice()))),
                        None,
                    ),
                    Err(text) => (None, Some(String::from_str(text.as_str()))),
                };
                let event: SystemEvent = SystemEvent::DataProcessed {
                    session_id,
                    result: ProcessResult {
                        success: data.is_some(),
                        data,
                        error,
                        destination_addr: Some(result.destination_addr),
                        was_stolen: Some(result.was_stolen),
                    },
                    processing_time: result.processing_time,
                    worker_id: Some(result.worker_id),
                };
                self.stats.work_stealing_count = self.work_stealing_dispatcher.stats.value(
                    "work_steals",
                );
                Some(event)
            },
        }
    }

    /// What is to be done with the result of a task: a packet of a supported
    /// type is to be answered, if its session is known and the breaker of the
    /// packet service lets it pass. Failures are counted.
    pub fn route_result(
        &mut self,
        result: &Result<Vec<u8>, String>,
        session_known: bool,
        now: u64,
    ) -> (job: Option<PacketJob>)
        requires
            old(self).wf(),
            old(self).stats.total_errors < u64::MAX,
            old(self).packet_core(now).counters_fit(),
            old(self).packet_core(now).after_request(now).counters_fit(),
        ensures
            final(self).wf(),
            final(self).only_counts(*old(self)),
            ({
                let errors = SystemStatistics {
                    total_errors: (old(self).stats.total_errors + 1) as u64,
                    ..old(self).stats
                };
                let core = old(self).packet_core(now);
                let untouched = final(self).circuit_breaker_manager == old(
                    self).circuit_breaker_manager;
                match result {
                    Err(_) => {
                        &&& job is None
                        &&& final(self).stats == errors
                        &&& untouched
                    },
                    Ok(data) => if data@.len() <= 1 || supported_type(data@[0]) is None {
                        &&& job is None
                        &&& final(self).stats == old(self).stats
                        &&& untouched
                    } else if !session_known {
                        &&& job is None
                        &&& final(self).stats == errors
                        &&& untouched
                    } else if !core.admits(now) {
                        &&& job is None
                        &&& final(self).stats == errors
                        &&& final(self).circuit_breaker_manager.after_change(
                            old(self).circuit_breaker_manager,
                            "packet_service"@,
                            core.after_request(now).after_failure(now),
                        )
                    } else {
                        &&& job matches Some(j) && is_packet_in(data@, j)
                        &&& final(self).stats == old(self).stats
                        &&& final(self).circuit_breaker_manager.after_change(
                            old(self).circuit_breaker_manager,
                            "packet_service"@,
                            core.after_request(now),
                        )
                    },
                }
            }),
            job matches Some(j) ==> (result matches Ok(data) && session_known && data@.len() > 1
                && (
            data@[0] == 0x01 || data@[0] == 0x10) && j.packet_type == data@[0] && j.payload@
                == data@.subrange(1, data@.len() as int) && j.priority is Critical
                    && j.requires_flush),
            job is Some ==> old(self).packet_core(now).admits(now),
            result is Err ==> final(self).stats.total_errors == old(self).stats.total_errors + 1,
            (result matches Ok(data) && session_known && data@.len() > 1 && (data@[0] == 0x01
                || data@[0]
                == 0x10)) && old(self).packet_core(now).admits(now) ==> job is Some,
    {
        match result {
            Err(_) => {
                self.stats.total_errors = self.stats.total_errors + 1;
                None
            },
            Ok(data) => {
                if data.len() <= 1 || !is_packet_supported(data[0]) {
                    return None;
                }
                if !session_known {
                    self.stats.total_errors = self.stats.total_errors + 1;
                    return None;
                }
                let ghost first = self.circuit_breaker_manager;
                if !self.circuit_breaker_manager.request("packet_service", now) {
                    let ghost asked = self.circuit_breaker_manager;
                    self.circuit_breaker_manager.failed("packet_service", now);
                    self.stats.total_errors = self.stats.total_errors + 1;
                    proof {
                        changes_add_up(
                            first,
                            asked,
                            self.circuit_breaker_manager,
                            "packet_service"@,
                        );
                    }
                    return None;
                }
                Some(packet_in(data.as_slice()))
            },
        }
    }

    /// Concludes a packet that was to be answered: success or failure of the
    /// packet service goes to its breaker, failures are counted, and so are
    /// answers that were written.
    pub fn process_task_result(&mut self, outcome: PacketOutcome, now: u64)
        requires
            old(self).wf(),
            old(self).stats.total_errors < u64::MAX,
            old(self).stats.total_packets_processed < u64::MAX,
            old(self).packet_core(now).counters_fit(),
            outcome matches PacketOutcome::Sealed { response_len, .. } ==> old(
                self).stats.total_data_sent + response_len <= u64::MAX,
        ensures
            final(self).wf(),
            final(self).only_counts(*old(self)),
            final(self).circuit_breaker_manager.after_change(
                old(self).circuit_breaker_manager,
                "packet_service"@,
                if outcome is ServiceFailed {
                    old(self).packet_core(now).after_failure(now)
                } else {
                    old(self).packet_core(now).after_success(now)
                },
            ),
            final(self).stats == match outcome {
                PacketOutcome::Sealed { response_len, written: true } => SystemStatistics {
                    total_packets_processed: (old(self).stats.total_packets_processed + 1) as u64,
                    total_data_sent: (old(self).stats.total_data_sent + response_len) as u64,
                    ..old(self).stats
                },
                PacketOutcome::Sealed { written: false, .. } => old(self).stats,
                _ => SystemStatistics {
                    total_errors: (old(self).stats.total_errors + 1) as u64,
                    ..old(self).stats
                },
            },
    {
        match outcome {
            PacketOutcome::ServiceFailed => {
                self.circuit_breaker_manager.failed("packet_service", now);
                self.stats.total_errors = self.stats.total_errors + 1;
            },
            PacketOutcome::EncryptionFailed => {
                self.circuit_breaker_manager.succeeded("packet_service", now);
                self.stats.total_errors = self.stats.total_errors + 1;
            },
            PacketOutcome::Sealed { response_len, written } => {
                self.circuit_breaker_manager.succeeded("packet_service", now);
                if written {
                    self.stats.total_packets_processed = self.stats.total_packets_processed + 1;
                    self.stats.total_data_sent = self.stats.total_data_sent + response_len as u64;
                }
            },
        }
    }

    /// Whether `after` is this system once a connection was opened.
    pub open spec fn has_opened(self, after: Self, addr: u64, session_id: Vec<u8>, now: u64) -> bool {
        &&& after == (IntegratedBatchSystem {
            active_connections: after.active_connections,
            stats: SystemStatistics {
                total_connections: (self.stats.total_connections + 1) as u64,
                ..self.stats
            },
            ..self
        })
        &&& after.active_connections.map() == self.active_connections.map().insert(
            addr,
            ConnectionInfo {
                addr,
                session_id,
                opened_at: now,
                last_activity: now,
                bytes_received: 0,
                bytes_sent: 0,
                priority: Priority::Normal,
                is_active: true,
                worker_assigned: None,
            },
        )
    }

    /// Whether `after` is this system once a connection was closed.
    pub open spec fn has_closed(self, after: Self, addr: u64) -> bool {
        &&& after == (IntegratedBatchSystem {
            active_connections: after.active_connections,
            ..self
        })
        &&& after.active_connections.map() == self.active_connections.map().remove(addr)
    }

    /// Whether `after` is this system once a batch is done: its time is in the
    /// mean, its throughput in the peak.
    pub open spec fn has_completed(self, after: Self, size: usize, processing_time: u64) -> bool {
        let before = self.stats;
        let batches = (before.total_batches_processed + 1) as u64;
        let speed = batch_throughput(size, processing_time);
        after == (IntegratedBatchSystem {
            stats: SystemStatistics {
                total_batches_processed: batches,
                avg_processing_time: mean_with(
                    before.avg_processing_time,
                    batches,
                    processing_time,
                ),
                peak_throughput: if speed.exceeds(before.peak_throughput) {
                    speed
                } else {
                    before.peak_throughput
                },
                ..before
            },
            ..self
        })
    }

    /// Whether `after` is this system once an error was counted, which is
    /// measured under the two names.
    pub open spec fn has_counted_error(
        self,
        after: Self,
        severity: ErrorSeverity,
        names: (String, String),
    ) -> bool {
        &&& after == (IntegratedBatchSystem {
            stats: SystemStatistics {
                total_errors: (self.stats.total_errors + 1) as u64,
                ..self.stats
            },
            ..self
        })
        &&& names.0@ == "system.errors"@
        &&& names.1@ == "system.errors."@ + decimal(severity.rank() as nat)
    }

    /// Whether the counters have room for a result.
    pub open spec fn can_count(self, result: ProcessResult) -> bool {
        &&& result.data matches Some(d) ==> {
            &&& self.stats.total_data_sent + bytes_content(d).len() <= u64::MAX
            &&& forall|a: u64| #[trigger]
                self.active_connections.map().contains_key(a)
                    ==> self.active_connections.map()[a].bytes_sent + bytes_content(d).len()
                    <= u64::MAX
        }
        &&& forall|i: int|
            0 <= i < self.session_cache.entries@.len() ==> (
            #[trigger] self.session_cache.entries@[i]).access_count < u64::MAX
    }

    /// Whether `after` is this system once the result of a task was told: data
    /// that goes back over a connection is counted, and the session is in use.
    pub open spec fn has_processed(
        self,
        after: Self,
        session_id: Seq<u8>,
        result: ProcessResult,
        now: u64,
    ) -> bool {
        let sent = if result.success {
            result.data
        } else {
            None
        };
        &&& after == (IntegratedBatchSystem {
            stats: match sent {
                Some(d) => SystemStatistics {
                    total_data_sent: (self.stats.total_data_sent + bytes_content(d).len()) as u64,
                    ..self.stats
                },
                None => self.stats,
            },
            active_connections: after.active_connections,
            session_cache: after.session_cache,
            ..self
        })
        &&& after.session_cache.entries@.len() == self.session_cache.entries@.len()
        &&& forall|i: int|
            0 <= i < self.session_cache.entries@.len()
                ==> #[trigger] after.session_cache.entries@[i]
                == if self.session_cache.entries@[i].session_id@ == session_id {
                used_again(self.session_cache.entries@[i], now)
            } else {
                self.session_cache.entries@[i]
            }
        &&& after.active_connections.map() == match (sent, result.destination_addr) {
            (Some(d), Some(a)) => if self.active_connections.map().contains_key(a) {
                self.active_connections.map().insert(
                    a,
                    with_bytes_sent(
                        self.active_connections.map()[a],
                        bytes_content(d).len(),
                        now,
                    ),
                )
            } else {
                self.active_connections.map()
            },
            _ => self.active_connections.map(),
        }
    }

    /// A connection was opened.
    pub fn handle_connection_opened(&mut self, addr: u64, session_id: Vec<u8>, now: u64)
        requires
            old(self).wf(),
            old(self).stats.total_connections < u64::MAX,
        ensures
            final(self).wf(),
            old(self).has_opened(*final(self), addr, session_id, now),
            final(self).stats.total_connections == old(self).stats.total_connections + 1,
            final(self).active_connections.map().dom()
                == old(self).active_connections.map().dom().insert(
                addr,
            ),
            ({
                let c = final(self).active_connections.map()[addr];
                &&& c.addr == addr && c.session_id == session_id
                &&& c.opened_at == now && c.last_activity == now
                &&& c.bytes_received == 0 && c.bytes_sent == 0
                &&& c.is_active && c.priority is Normal
            }),
    {
        self.active_connections.insert(
            addr,
            ConnectionInfo {
                addr,
                session_id,
                opened_at: now,
                last_activity: now,
                bytes_received: 0,
                bytes_sent: 0,
                priority: Priority::Normal,
                is_active: true,
                worker_assigned: None,
            },
        );
        self.stats.total_connections = self.stats.total_connections + 1;
    }

    /// A connection was closed.
    pub fn handle_connection_closed(&mut self, addr: u64)
        requires
            old(self).wf(),
        ensures
            final(self).wf(),
            old(self).has_closed(*final(self), addr),
            !final(self).active_connections.map().contains_key(addr),
            forall|a: u64|
                a != addr ==> (#[trigger] final(self).active_connections.map().contains_key(a)
                    <==> old(
                    self,
                ).active_connections.map().contains_key(a)),
            final(self).stats == old(self).stats,
    {
        self.active_connections.remove(addr);
    }

    /// A batch is done: its time goes into the mean, its throughput into the
    /// peak.
    pub fn handle_batch_completed(&mut self, size: usize, processing_time: u64)
        requires
            old(self).wf(),
            old(self).stats.total_batches_processed < u64::MAX,
        ensures
            final(self).wf(),
            old(self).has_completed(*final(self), size, processing_time),
            ({
                let (was, later) = (old(self).stats, final(self).stats);
                let n = later.total_batches_processed as int;
                let sum = was.avg_processing_time * (n - 1) + processing_time;
                let time = if processing_time > 1_000_000 {
                    processing_time as int
                } else {
                    1_000_000
                };
                &&& n == was.total_batches_processed + 1
                &&& later.avg_processing_time * n <= sum < (later.avg_processing_time + 1) * n
                &&& later.peak_throughput == was.peak_throughput
                    || (later.peak_throughput.part == size
                    && later.peak_throughput.whole == time)
                &&& was.peak_throughput.whole > 0 && size * was.peak_throughput.whole
                    > was.peak_throughput.part * time ==> later.peak_throughput.part == size
                &&& was.peak_throughput.whole > 0 && size * was.peak_throughput.whole
                    <= was.peak_throughput.part * time
                        ==> later.peak_throughput == was.peak_throughput
            }),
    {
        proof {
            let n = self.stats.total_batches_processed + 1;
            let sum = self.stats.avg_processing_time * (n - 1) + processing_time;
            let mean = self.stats.avg_processing_time as int;
            assert(0 <= mean * (n - 1) + processing_time <= u64::MAX * n) by (nonlinear_arith)
                requires
                    n >= 1,
                    0 <= mean <= u64::MAX,
                    0 <= processing_time <= u64::MAX,
            ;
            means_divide(
                sum,
                n,
                mean_with(self.stats.avg_processing_time, n as u64, processing_time) as int,
            );
        }
        self.stats.total_batches_processed = self.stats.total_batches_processed + 1;
        let batches: u64 = self.stats.total_batches_processed;
        let mean: u64 = self.stats.avg_processing_time;
        proof {
            let (m, n, t) = (mean as int, batches as int, processing_time as int);
            assert(0 <= m * (n - 1) <= 0xffff_ffff_ffff_ffff * 0xffff_ffff_ffff_ffff)
                by (nonlinear_arith)
                requires
                    0 <= m <= 0xffff_ffff_ffff_ffff,
                    0 < n <= 0xffff_ffff_ffff_ffff,
            ;
            assert((m * (n - 1) + t) / n <= 0xffff_ffff_ffff_ffff) by (nonlinear_arith)
                requires
                    0 <= m <= 0xffff_ffff_ffff_ffff,
                    0 <= t <= 0xffff_ffff_ffff_ffff,
                    0 < n,
            {
                let b = 0xffff_ffff_ffff_ffffint;
                assert(m * (n - 1) + t <= b * (n - 1) + b);
                assert(b * (n - 1) + b == b * n);
            }
        }
        let sum: u128 = mean as u128 * (batches as u128 - 1) + processing_time as u128;
        self.stats.avg_processing_time = (sum / batches as u128) as u64;
        let speed: Ratio = Ratio::new(size as u64, max_u64(processing_time, 1_000_000));
        self.stats.peak_throughput = self.stats.peak_throughput.max(speed);
    }

    /// An error occurred: it is counted. Says under which names it is measured.
    pub fn handle_error_occurred(&mut self, severity: ErrorSeverity) -> (names: (String, String))
        requires
            old(self).wf(),
            old(self).stats.total_errors < u64::MAX,
        ensures
            final(self).wf(),
            old(self).has_counted_error(*final(self), severity, names),
            final(self).stats.total_errors == old(self).stats.total_errors + 1,
            final(self).stats.total_batches_processed == old(self).stats.total_batches_processed,
    {
        self.stats.total_errors = self.stats.total_errors + 1;
        (
            String::from_str("system.errors"),
            String::from_str("system.errors.").concat(
                decimal_string(severity.level() as u64).as_str(),
            ),
        )
    }

    /// The result of a task was told: data that goes back over a connection is
    /// counted, and the session is in use.
    pub fn handle_data_processed(&mut self, session_id: &[u8], result: &ProcessResult, now: u64)
        requires
            old(self).wf(),
            old(self).can_count(*result),
        ensures
            final(self).wf(),
            old(self).has_processed(*final(self), session_id@, *result, now),
            result.success && result.data is Some ==> final(self).stats.total_data_sent == old(
                self,
            ).stats.total_data_sent + bytes_content(result.data->0).len(),
            !result.success || result.data is None ==> final(self).stats == old(self).stats
                && final(self).active_connections.map() == old(self).active_connections.map(),
            final(self).active_connections.map().dom() == old(self).active_connections.map().dom(),
            forall|a: u64|
                old(self).active_connections.map().contains_key(a) ==> {
                    let was = old(self).active_connections.map()[a];
                    let later = #[trigger] final(self).active_connections.map()[a];
                    let sent = result.success && result.data is Some
                        && result.destination_addr == Some(a);
                    &&& sent ==> later.bytes_sent == was.bytes_sent
                        + bytes_content(result.data->0).len()
                        && later.last_activity == now
                    &&& !sent ==> later == was
                },
    {
        if result.success {
            if let Some(data) = &result.data {
                let n: usize = bytes_as_slice(data).len();
                self.stats.total_data_sent = self.stats.total_data_sent + n as u64;
                if let Some(addr) = result.destination_addr {
                    self.note_sent(addr, n, now);
                }
            }
        }
        self.session_cache.touch(session_id, now);
    }

    fn note_sent(&mut self, addr: u64, n: usize, now: u64)
        requires
            old(self).active_connections.wf(),
            old(self).active_connections.map().contains_key(addr) ==> old(
                self).active_connections.map()[addr].bytes_sent + n <= u64::MAX,
        ensures
            final(self).active_connections.wf(),
            *final(self) == (IntegratedBatchSystem {
                active_connections: final(self).active_connections,
                ..*old(self)
            }),
            final(self).active_connections.map() == if old(
                self).active_connections.map().contains_key(addr) {
                old(self).active_connections.map().insert(
                    addr,
                    with_bytes_sent(old(self).active_connections.map()[addr], n as nat, now),
                )
            } else {
                old(self).active_connections.map()
            },
    {
        if self.active_connections.get(addr).is_some() {
            let c: &mut ConnectionInfo = self.active_connections.get_mut(addr);
            c.bytes_sent = c.bytes_sent + n as u64;
            c.last_activity = now;
        }
    }
}

/// Whether `e` tells the result of a task.
pub open spec fn tells_result(r: WorkStealingResult, session: Vec<u8>, e: SystemEvent) -> bool {
    e matches SystemEvent::DataProcessed { session_id, result, processing_time, worker_id }
        && session_id == session && processing_time == r.processing_time && worker_id == Some(
        r.worker_id,
    ) && result.destination_addr == Some(r.destination_addr) && result.was_stolen == Some(
        r.was_stolen,
    ) && result.success == r.result is Ok && match r.result {
        Ok(d) => (result.data matches Some(b) && bytes_content(b) == d@) && result.error is None,
        Err(text) => result.data is None && (result.error matches Some(s) && s@ == text@),
    }
}

/// Two changes of one breaker add up to one.
proof fn changes_add_up(
    first: CircuitBreakerManager,
    second: CircuitBreakerManager,
    third: CircuitBreakerManager,
    name: Seq<char>,
)
    requires
        second.core_of(name) is Some,
        third.core_of(name) is Some,
        second.after_change(first, name, second.core_of(name)->0),
        third.after_change(second, name, third.core_of(name)->0),
    ensures
        third.after_change(first, name, third.core_of(name)->0),
{
    assert forall|other: Seq<char>| other != name implies #[trigger] third.core_of(other)
        == first.core_of(other) by {
        assert(second.core_of(other) == first.core_of(other));
    }
}

/// A text that was decrypted.
#[derive(Debug)]
pub struct OpenedText {
    pub session_id: Vec<u8>,
    pub text: Vec<u8>,
}

/// A batch at work.
#[derive(Debug)]
pub struct BatchWork {
    pub id: u64,
    pub size: usize,
    pub source_addr: u64,
    pub processing: Vec<ProcessingJob>,
    /// Texts that were encrypted, for their sessions.
    pub writes: Vec<WriteRequest>,
    pub opened: Vec<OpenedText>,
    pub digests: Vec<[u8; 32]>,
}

/// Whether `w` brings an encrypted text to its session, at once.
pub open spec fn is_encrypted_write(job: CipherJob, w: WriteRequest) -> bool {
    &&& w.session_id == job.session_id
    &&& bytes_content(w.data) == job.outcome()
    &&& w.priority == Priority::Critical
    &&& w.requires_flush
}

/// Whether `w` is the work of a batch: what is processed, encrypted, decrypted
/// and hashed of it, each kind in the order of its operations.
pub open spec fn is_work_of(ops: Seq<BatchOperation>, w: BatchWork) -> bool {
    &&& w.size == ops.len()
    &&& w.processing@ == processing_of(ops)
    &&& w.writes@.len() == encryptions_of(ops).len()
    &&& forall|i: int|
        0 <= i < w.writes@.len() ==> is_encrypted_write(
            encryptions_of(ops)[i],
            #[trigger] w.writes@[i],
        )
    &&& w.opened@.len() == decryptions_of(ops).len()
    &&& forall|i: int|
        0 <= i < w.opened@.len() ==> (#[trigger] w.opened@[i]).session_id == decryptions_of(
            ops,
        )[i].session_id && w.opened@[i].text@ == decryptions_of(ops)[i].outcome()
    &&& w.digests@.len() == hashes_of(ops).len()
    &&& forall|i: int|
        0 <= i < w.digests@.len() ==> (#[trigger] w.digests@[i])@
            == blake3_keyed_digest(
            hashes_of(ops)[i].key@,
            bytes_content(hashes_of(ops)[i].data),
        )
}

/// Every operation of a batch is done with its own key and nonce, and its
/// result stands where it stands among the operations of its kind: an encrypted
/// text goes to its session, at once; a decrypted one and a digest are handed
/// on; data to be processed stays as it is. There are no other results.
pub proof fn every_operation_is_done(ops: Seq<BatchOperation>, w: BatchWork, i: int)
    requires
        is_work_of(ops, w),
        0 <= i < ops.len(),
    ensures
        w.writes@.len() == ops.filter(|o: BatchOperation| o is Encryption).len(),
        w.opened@.len() == ops.filter(|o: BatchOperation| o is Decryption).len(),
        w.digests@.len() == ops.filter(
            |o: BatchOperation| o is Hashing && o->Hashing_key is Some,
        ).len(),
        w.processing@.len() == ops.filter(|o: BatchOperation| o is Processing).len(),
        match ops[i] {
            BatchOperation::Encryption { session_id, data, key, nonce } => {
                let j = ops.take(i).filter(|o: BatchOperation| o is Encryption).len() as int;
                &&& j < w.writes@.len()
                &&& w.writes@[j].session_id == session_id
                &&& bytes_content(w.writes@[j].data) == chacha20_stream(
                    key@,
                    nonce@,
                    bytes_content(data),
                )
                &&& w.writes@[j].priority == Priority::Critical
                &&& w.writes@[j].requires_flush
            },
            BatchOperation::Decryption { session_id, data, key, nonce } => {
                let j = ops.take(i).filter(|o: BatchOperation| o is Decryption).len() as int;
                &&& j < w.opened@.len()
                &&& w.opened@[j].session_id == session_id
                &&& w.opened@[j].text@ == chacha20_stream(key@, nonce@, bytes_content(data))
            },
            BatchOperation::Hashing { data, key: Some(key) } => {
                let j = ops.take(i).filter(
                    |o: BatchOperation| o is Hashing && o->Hashing_key is Some,
                ).len() as int;
                &&& j < w.digests@.len()
                &&& w.digests@[j]@ == blake3_keyed_digest(
                    key@,
                    bytes_content(data),
                )
            },
            BatchOperation::Hashing { data, key: None } => true,
            BatchOperation::Processing { session_id, data, processor_type } => {
                let j = ops.take(i).filter(|o: BatchOperation| o is Processing).len() as int;
                &&& j < w.processing@.len()
                &&& w.processing@[j] == (ProcessingJob { session_id, data, processor_type })
            },
        },
{
    encryptions_keep_their_keys(ops, i);
    decryptions_keep_their_keys(ops, i);
    hashes_keep_their_keys(ops, i);
    processing_keeps_its_data(ops, i);
}

/// What one batch encrypted, another decrypts: where an operation of the first
/// encrypts a text, and one of the second decrypts what became of it under the
/// same key and nonce, the text comes out as it was.
pub proof fn batches_open_what_batches_sealed(
    sealing: Seq<BatchOperation>,
    sealed: BatchWork,
    a: int,
    opening: Seq<BatchOperation>,
    opened: BatchWork,
    b: int,
)
    requires
        is_work_of(sealing, sealed),
        is_work_of(opening, opened),
        0 <= a < sealing.len(),
        0 <= b < opening.len(),
        sealing[a] is Encryption,
        opening[b] is Decryption,
        opening[b]->Decryption_key == sealing[a]->Encryption_key,
        opening[b]->Decryption_nonce == sealing[a]->Encryption_nonce,
        bytes_content(opening[b]->Decryption_data) == bytes_content(
            sealed.writes@[sealing.take(a).filter(
                |o: BatchOperation| o is Encryption,
            ).len() as int].data,
        ),
    ensures
        opened.opened@[opening.take(b).filter(
            |o: BatchOperation| o is Decryption,
        ).len() as int].text@ == bytes_content(sealing[a]->Encryption_data),
{
    every_operation_is_done(sealing, sealed, a);
    every_operation_is_done(opening, opened, b);
    chacha20_is_involution(
        sealing[a]->Encryption_key@,
        sealing[a]->Encryption_nonce@,
        bytes_content(sealing[a]->Encryption_data),
    );
}

/// Whether every text of a batch fits the key stream.
pub open spec fn is_runnable_batch(ops: Seq<BatchOperation>) -> bool {
    &&& forall|i: int|
        0 <= i < encryptions_of(ops).len() ==> (#[trigger] encryptions_of(ops)[i]).runnable()
    &&& forall|i: int|
        0 <= i < decryptions_of(ops).len() ==> (#[trigger] decryptions_of(ops)[i]).runnable()
}

/// How many operations of a batch succeeded, by kind.
#[derive(Debug, Clone, Copy)]
pub struct BatchCounts {
    pub processed: usize,
    pub written: usize,
    pub answered: usize,
    pub hashed: usize,
}

impl BatchCounts {
    /// All that succeeded.
    pub open spec fn total(self) -> int {
        self.processed + self.written + self.answered + self.hashed
    }
}

impl BatchWork {
    /// Whether every piece of work stands for an operation of the batch.
    pub open spec fn wf(self) -> bool {
        self.processing@.len() + self.writes@.len() + self.opened@.len() + self.digests@.len()
            <= self.size
    }
}

/// Counts what of a batch succeeded, given how many texts were written and how
/// many packets answered. Processing always succeeds, and so does hashing with
/// a key; a hash without one is no work and does not count.
pub fn batch_counts(work: &BatchWork, written: usize, answered: usize) -> (c: BatchCounts)
    requires
        written <= work.writes@.len(),
        answered <= work.opened@.len(),
    ensures
        c.processed == work.processing@.len(),
        c.written == written,
        c.answered == answered,
        c.hashed == work.digests@.len(),
        work.wf() ==> c.total() <= work.size,
{
    BatchCounts {
        processed: work.processing.len(),
        written,
        answered,
        hashed: work.digests.len(),
    }
}

/// Of a batch no more can succeed than it has operations with work to do.
pub proof fn keyless_hashes_never_succeed(ops: Seq<BatchOperation>, work: BatchWork, c: BatchCounts)
    requires
        work.size == ops.len(),
        work.processing@ == processing_of(ops),
        work.writes@.len() == encryptions_of(ops).len(),
        work.opened@.len() == decryptions_of(ops).len(),
        work.digests@.len() == hashes_of(ops).len(),
        c.processed == work.processing@.len(),
        c.written <= work.writes@.len(),
        c.answered <= work.opened@.len(),
        c.hashed == work.digests@.len(),
    ensures
        c.total() + keyless_of(ops) <= work.size,
        success_share(c.total(), work.size).part <= success_share(c.total(), work.size).whole,
        success_share(c.total(), work.size).whole > 0,
{
    splitting_keeps_operations(ops);
}

/// The share of a batch that succeeded; all of an empty one did.
pub open spec fn success_share(successful: int, size: usize) -> Ratio {
    if size == 0 {
        Ratio { part: 1, whole: 1 }
    } else {
        Ratio { part: successful as u64, whole: size as u64 }
    }
}

fn seal_writes(accelerator: &ChaCha20BatchAccelerator, jobs: Vec<CipherJob>) -> (writes: Vec<
    WriteRequest,
>)
    requires
        forall|i: int| 0 <= i < jobs@.len() ==> (#[trigger] jobs@[i]).runnable(),
    ensures
        writes@.len() == jobs@.len(),
        forall|i: int|
            0 <= i < writes@.len() ==> is_encrypted_write(jobs@[i], #[trigger] writes@[i]),
{
    let ghost all = jobs@;
    let texts: Vec<Vec<u8>> = run_ciphers(accelerator, &jobs);
    let mut left: Vec<CipherJob> = jobs;
    let mut texts: Vec<Vec<u8>> = texts;
    let ghost sealed = texts@;
    let mut writes: Vec<WriteRequest> = Vec::new();
    let ghost mut k: int = 0;
    proof {
        assert(all.skip(0) =~= all);
        assert(sealed.skip(0) =~= sealed);
    }
    while left.len() > 0
        invariant
            0 <= k <= all.len(),
            left@ == all.skip(k),
            texts@ == sealed.skip(k),
            sealed.len() == all.len(),
            forall|i: int| 0 <= i < all.len() ==> (#[trigger] sealed[i])@ == all[i].outcome(),
            writes@.len() == k,
            forall|i: int| 0 <= i < k ==> is_encrypted_write(all[i], #[trigger] writes@[i]),
        decreases left@.len(),
    {
        let job: CipherJob = left.remove(0);
        let text: Vec<u8> = texts.remove(0);
        proof {
            assert(text@ == sealed[k]@);
        }
        writes.push(
            WriteRequest {
                session_id: job.session_id,
                data: bytes_from_vec(text),
                priority: Priority::Critical,
                requires_flush: true,
            },
        );
        proof {
            assert(left@ =~= all.skip(k + 1));
            assert(texts@ =~= sealed.skip(k + 1));
            k = k + 1;
        }
    }
    writes
}

fn open_texts(accelerator: &ChaCha20BatchAccelerator, jobs: Vec<CipherJob>) -> (opened: Vec<
    OpenedText,
>)
    requires
        forall|i: int| 0 <= i < jobs@.len() ==> (#[trigger] jobs@[i]).runnable(),
    ensures
        opened@.len() == jobs@.len(),
        forall|i: int|
            0 <= i < opened@.len() ==> (#[trigger] opened@[i]).session_id == jobs@[i].session_id
                && opened@[i].text@ == jobs@[i].outcome(),
{
    let ghost all = jobs@;
    let texts: Vec<Vec<u8>> = run_ciphers(accelerator, &jobs);
    let mut left: Vec<CipherJob> = jobs;
    let mut texts: Vec<Vec<u8>> = texts;
    let ghost plain = texts@;
    let mut opened: Vec<OpenedText> = Vec::new();
    let ghost mut k: int = 0;
    proof {
        assert(all.skip(0) =~= all);
        assert(plain.skip(0) =~= plain);
    }
    while left.len() > 0
        invariant
            0 <= k <= all.len(),
            left@ == all.skip(k),
            texts@ == plain.skip(k),
            plain.len() == all.len(),
            forall|i: int| 0 <= i < all.len() ==> (#[trigger] plain[i])@ == all[i].outcome(),
            opened@.len() == k,
            forall|i: int|
                0 <= i < k ==> (#[trigger] opened@[i]).session_id == all[i].session_id
                    && opened@[i].text@ == all[i].outcome(),
        decreases left@.len(),
    {
        let job: CipherJob = left.remove(0);
        let text: Vec<u8> = texts.remove(0);
        proof {
            assert(text@ == plain[k]@);
        }
        opened.push(OpenedText { session_id: job.session_id, text });
        proof {
            assert(left@ =~= all.skip(k + 1));
            assert(texts@ =~= plain.skip(k + 1));
            k = k + 1;
        }
    }
    opened
}

impl<V: Copy> IntegratedBatchSystem<V> {
    /// Takes the batches that are ready, and numbers them in their order.
    pub fn next_batches(&mut self, now: u64) -> (ready: Vec<PendingBatch>)
        requires
            old(self).wf(),
            old(self).batch_counter + old(self).pending_batches@.len() <= u64::MAX,
        ensures
            final(self).wf(),
            ({
                let optimal = old(self).adaptive_batcher.current_batch_size as nat;
                let pred = |b: PendingBatch| is_ready(b, optimal, now);
                let due = old(self).pending_batches@.filter(pred);
                &&& final(self).pending_batches@ == old(self).pending_batches@.filter(
                    |b: PendingBatch| !pred(b),
                )
                &&& ready@.len() == due.len()
                &&& forall|i: int|
                    0 <= i < due.len() ==> #[trigger] ready@[i] == numbered(
                        due[i],
                        (old(self).batch_counter + 1 + i) as u64,
                    )
                &&& *final(self) == (IntegratedBatchSystem {
                    pending_batches: final(self).pending_batches,
                    batch_counter: (old(self).batch_counter + due.len()) as u64,
                    ..*old(self)
                })
            }),
            ({
                let due = |b: PendingBatch|
                    (b.deadline matches Some(d) && now >= d)
                        || 5 * b.operations@.len() + 4 >= 3 * old(
                        self,
                    ).adaptive_batcher.current_batch_size;
                &&& ready@.len() + final(self).pending_batches@.len()
                    == old(self).pending_batches@.len()
                &&& final(self).pending_batches@ == old(self).pending_batches@.filter(
                    |b: PendingBatch| !due(b),
                )
                &&& final(self).batch_counter == old(self).batch_counter + ready@.len()
            }),
    {
        take_ready(
            &mut self.pending_batches,
            &mut self.batch_counter,
            self.adaptive_batcher.current_batch_size,
            now,
        )
    }

    /// Does the cryptographic work of a batch: texts are encrypted for their
    /// sessions, decrypted, or hashed.
    pub fn process_batch(&self, batch: PendingBatch) -> (w: BatchWork)
        requires
            is_runnable_batch(batch.operations@),
        ensures
            w.wf(),
            w.id == batch.id,
            w.size == batch.operations@.len(),
            w.processing@.len() + w.writes@.len() + w.opened@.len() + w.digests@.len()
                + keyless_of(batch.operations@) == w.size,
            w.source_addr == batch.source_addr,
            is_work_of(batch.operations@, w),
            w.processing@ == processing_of(batch.operations@),
            w.writes@.len() == encryptions_of(batch.operations@).len(),
            forall|i: int|
                0 <= i < w.writes@.len() ==> is_encrypted_write(
                    encryptions_of(batch.operations@)[i],
                    #[trigger] w.writes@[i],
                ),
            w.opened@.len() == decryptions_of(batch.operations@).len(),
            forall|i: int|
                0 <= i < w.opened@.len() ==> (#[trigger] w.opened@[i]).session_id
                    == decryptions_of(batch.operations@)[i].session_id && w.opened@[i].text@
                    == decryptions_of(batch.operations@)[i].outcome(),
            w.digests@.len() == hashes_of(batch.operations@).len(),
            forall|i: int|
                0 <= i < w.digests@.len() ==> (#[trigger] w.digests@[i])@
                    == blake3_keyed_digest(
                    hashes_of(batch.operations@)[i].key@,
                    bytes_content(hashes_of(batch.operations@)[i].data),
                ),
            forall|i: int|
                0 <= i < batch.operations@.len() && (
                #[trigger] batch.operations@[i]) is Decryption ==> {
                    let op = batch.operations@[i];
                    let j = batch.operations@.take(i).filter(
                        |o: BatchOperation| o is Decryption,
                    ).len() as int;
                    &&& w.opened@[j].session_id == op->Decryption_session_id
                    &&& w.opened@[j].text@ == chacha20_stream(
                        op->Decryption_key@,
                        op->Decryption_nonce@,
                        bytes_content(op->Decryption_data),
                    )
                },
            forall|i: int|
                0 <= i < batch.operations@.len() && (
                #[trigger] batch.operations@[i]) is Encryption ==> {
                    let op = batch.operations@[i];
                    let j = batch.operations@.take(i).filter(
                        |o: BatchOperation| o is Encryption,
                    ).len() as int;
                    &&& w.writes@[j].session_id == op->Encryption_session_id
                    &&& bytes_content(w.writes@[j].data) == chacha20_stream(
                        op->Encryption_key@,
                        op->Encryption_nonce@,
                        bytes_content(op->Encryption_data),
                    )
                },
    {
        let ghost ops = batch.operations@;
        proof {
            splitting_keeps_operations(batch.operations@);
        }
        let size: usize = batch.operations.len();
        let id: u64 = batch.id;
        let source_addr: u64 = batch.source_addr;
        let split: SplitBatch = split_operations(batch.operations);
        let digests: Vec<[u8; 32]> = run_hashes(&self.blake3_accelerator, &split.hashes);
        let w: BatchWork = BatchWork {
            id,
            size,
            source_addr,
            processing: split.processing,
            writes: seal_writes(&self.chacha20_accelerator, split.encryptions),
            opened: open_texts(&self.chacha20_accelerator, split.decryptions),
            digests,
        };
        proof {
            assert forall|i: int| 0 <= i < ops.len() && (#[trigger] ops[i]) is Decryption implies ({
                let op = ops[i];
                let j = ops.take(i).filter(|o: BatchOperation| o is Decryption).len() as int;
                &&& w.opened@[j].session_id == op->Decryption_session_id
                &&& w.opened@[j].text@ == chacha20_stream(
                    op->Decryption_key@,
                    op->Decryption_nonce@,
                    bytes_content(op->Decryption_data),
                )
            }) by {
                every_operation_is_done(ops, w, i);
            }
            assert forall|i: int| 0 <= i < ops.len() && (#[trigger] ops[i]) is Encryption implies ({
                let op = ops[i];
                let j = ops.take(i).filter(|o: BatchOperation| o is Encryption).len() as int;
                &&& w.writes@[j].session_id == op->Encryption_session_id
                &&& bytes_content(w.writes@[j].data) == chacha20_stream(
                    op->Encryption_key@,
                    op->Encryption_nonce@,
                    bytes_content(op->Encryption_data),
                )
            }) by {
                every_operation_is_done(ops, w, i);
            }
        }
        w
    }

    /// What is to be done with a text of a batch that was decrypted: a packet
    /// of a supported type is to be answered, if its session is known and the
    /// breaker of the packet service lets it pass.
    pub fn route_opened(&mut self, text: &[u8], session_known: bool, now: u64) -> (job: Option<
        PacketJob,
    >)
        requires
            old(self).wf(),
            session_known ==> text@.len() > 0,
            old(self).packet_core(now).counters_fit(),
        ensures
            final(self).wf(),
            final(self).only_counts(*old(self)),
            final(self).stats == old(self).stats,
            ({
                let core = old(self).packet_core(now);
                if !session_known || supported_type(text@[0]) is None {
                    &&& job is None
                    &&& *final(self) == *old(self)
                } else {
                    &&& job is Some <==> core.admits(now)
                    &&& job matches Some(j) ==> is_packet_in(text@, j)
                    &&& final(self).circuit_breaker_manager.after_change(
                        old(self).circuit_breaker_manager,
                        "packet_service"@,
                        core.after_request(now),
                    )
                }
            }),
            job matches Some(j) ==> session_known && (text@[0] == 0x01 || text@[0] == 0x10)
                && j.packet_type
                == text@[0] && j.payload@ == text@.subrange(1, text@.len() as int)
                && j.priority is Critical && j.requires_flush,
    {
        if !session_known || !is_packet_supported(text[0]) {
            return None;
        }
        if self.circuit_breaker_manager.request("packet_service", now) {
            Some(packet_in(text))
        } else {
            None
        }
    }

    /// Concludes a packet of a batch. Says whether it counts as a success:
    /// that is so once its answer is sealed, whether or not it is written.
    pub fn conclude_opened(&mut self, outcome: PacketOutcome, now: u64) -> (successful: bool)
        requires
            old(self).wf(),
            old(self).packet_core(now).counters_fit(),
            old(self).packet_core(now).after_success(now).counters_fit(),
        ensures
            final(self).wf(),
            final(self).only_counts(*old(self)),
            final(self).stats == old(self).stats,
            successful == outcome is Sealed,
            ({
                let core = old(self).packet_core(now);
                final(self).circuit_breaker_manager.after_change(
                    old(self).circuit_breaker_manager,
                    "packet_service"@,
                    match outcome {
                        PacketOutcome::ServiceFailed => core.after_failure(now),
                        PacketOutcome::EncryptionFailed => core.after_success(now).after_failure(
                            now,
                        ),
                        PacketOutcome::Sealed { .. } => core.after_success(now),
                    },
                )
            }),
    {
        match outcome {
            PacketOutcome::ServiceFailed => {
                self.circuit_breaker_manager.failed("packet_service", now);
                false
            },
            PacketOutcome::EncryptionFailed => {
                let ghost first = self.circuit_breaker_manager;
                self.circuit_breaker_manager.succeeded("packet_service", now);
                let ghost second = self.circuit_breaker_manager;
                self.circuit_breaker_manager.failed("packet_service", now);
                proof {
                    changes_add_up(
                        first,
                        second,
                        self.circuit_breaker_manager,
                        "packet_service"@,
                    );
                }
                false
            },
            PacketOutcome::Sealed { .. } => {
                self.circuit_breaker_manager.succeeded("packet_service", now);
                true
            },
        }
    }

    /// Concludes a batch: the batcher learns from it, it is counted, and it is
    /// told.
    pub fn finish_batch(
        &mut self,
        id: u64,
        size: usize,
        counts: BatchCounts,
        processing_time: u64,
        now_secs: u64,
    ) -> (r: (SystemEvent, bool))
        requires
            old(self).wf(),
            old(self).adaptive_batcher.chain_fits(),
            counts.total() <= size,
            old(self).stats.total_batches_processed < u64::MAX,
            old(self).stats.crypto_operations + counts.total() <= u64::MAX,
            old(self).stats.total_packets_processed + counts.total() <= u64::MAX,
        ensures
            final(self).wf(),
            *final(self) == (IntegratedBatchSystem {
                adaptive_batcher: final(self).adaptive_batcher,
                stats: SystemStatistics {
                    total_batches_processed: (old(self).stats.total_batches_processed + 1) as u64,
                    crypto_operations: (old(self).stats.crypto_operations
                        + counts.total()) as u64,
                    total_packets_processed: (old(self).stats.total_packets_processed
                        + counts.total()) as u64,
                    ..old(self).stats
                },
                ..*old(self)
            }),
            has_recorded(
                old(self).adaptive_batcher,
                size,
                processing_time,
                now_secs,
                r.1,
                final(self).adaptive_batcher,
            ),
            r.0 == (SystemEvent::BatchCompleted {
                batch_id: id,
                size,
                processing_time,
                success_rate: success_share(counts.total(), size),
            }),
            success_share(counts.total(), size).part <= success_share(counts.total(), size).whole,
            final(self).stats.total_batches_processed == old(self).stats.total_batches_processed
                + 1,
            final(self).stats.total_packets_processed == old(self).stats.total_packets_processed
                + counts.processed + counts.written + counts.answered + counts.hashed,
            r.0 matches SystemEvent::BatchCompleted { success_rate, size: n, batch_id, .. }
                && n == size
                && batch_id == id && (size > 0 ==> success_rate.whole == size && success_rate.part
                == counts.processed + counts.written + counts.answered + counts.hashed),
    {
        let successful: usize = counts.processed + counts.written + counts.answered
            + counts.hashed;
        let success_rate: Ratio = if size > 0 {
            Ratio::new(successful as u64, size as u64)
        } else {
            Ratio::new(1, 1)
        };
        let update_models: bool = self.adaptive_batcher.record_batch_execution(
            size,
            processing_time,
            now_secs,
        );
        self.stats.total_batches_processed = self.stats.total_batches_processed + 1;
        self.stats.crypto_operations = self.stats.crypto_operations + successful as u64;
        self.stats.total_packets_processed = self.stats.total_packets_processed
            + successful as u64;
        (
            SystemEvent::BatchCompleted { batch_id: id, size, processing_time, success_rate },
            update_models,
        )
    }

    /// Works off the queues of the accelerators.
    pub fn simd_tick(&mut self, now: u64) -> (work: SimdWork)
        requires
            old(self).wf(),
        ensures
            final(self).wf(),
            *final(self) == (IntegratedBatchSystem {
                simd_queues: final(self).simd_queues,
                ..*old(self)
            }),
            old(self).simd_queues.has_ticked(
                final(self).simd_queues,
                old(self).adaptive_batcher.current_batch_size,
                now,
                work,
            ),
    {
        self.simd_queues.tick(
            &self.chacha20_accelerator,
            &self.blake3_accelerator,
            self.adaptive_batcher.current_batch_size,
            now,
        )
    }
}

proof fn means_divide(sum: int, n: int, mean: int)
    requires
        n > 0,
        0 <= sum / n <= u64::MAX ==> mean == sum / n,
        0 <= sum <= u64::MAX * n,
    ensures
        mean * n <= sum < (mean + 1) * n,
{
    vstd::arithmetic::div_mod::lemma_fundamental_div_mod(sum, n);
    vstd::arithmetic::div_mod::lemma_mod_bound(sum, n);
    let q = sum / n;
    assert(0 <= q <= u64::MAX) by (nonlinear_arith)
        requires
            n > 0,
            sum == n * q + sum % n,
            0 <= sum % n < n,
            0 <= sum <= u64::MAX * n,
    ;
    assert(q * n <= sum < (q + 1) * n) by (nonlinear_arith)
        requires
            n > 0,
            sum == n * q + sum % n,
            0 <= sum % n < n,
    ;
}

} // verus!
