//! The configuration of the batch system.
//!
//! Durations are nanoseconds, points in time too. Shares and probabilities are
//! thousandths.

use vstd::prelude::*;
use vstd::string::*;

use crate::acceleration::chacha20_batch_accel::SimdFeatures;
use crate::bounds::{clamp_u64, clamp_usize, clamped};
use crate::history::remembered;

verus! {

/// One millisecond.
pub const MILLISECOND: u64 = 1_000_000;

/// One second.
pub const SECOND: u64 = 1_000_000_000;

/// How many configuration changes are remembered.
pub const CHANGE_HISTORY: usize = 100;

/// `num_cpus::get`: the number of processors of this machine, at least one. How
/// many there are is up to the machine.
#[verifier::external_body]
pub(crate) fn cpu_cores() -> (n: usize)
    ensures
        n >= 1,
{
    num_cpus::get()
}

/// The whole milliseconds of half the target latency, the interval at which
/// buffers are flushed.
pub open spec fn half_latency(target_latency: u64) -> u64 {
    (((target_latency / MILLISECOND) / 2) * MILLISECOND) as u64
}

/// What the configuration is derived from.
#[derive(Debug, Clone, Copy)]
pub struct ConfigOptimizationModel {
    pub target_latency: u64,
    pub cpu_cores: usize,
    pub available_memory: u64,
}

impl ConfigOptimizationModel {
    /// The model for a machine with the given number of processors.
    pub fn new(cpu_cores: usize) -> (m: Self)
        ensures
            m == (ConfigOptimizationModel {
                target_latency: 50_000_000,
                cpu_cores,
                available_memory: 8_589_934_592,
            }),
    {
        ConfigOptimizationModel {
            target_latency: 50 * MILLISECOND,
            cpu_cores,
            available_memory: 8_589_934_592,
        }
    }

    /// A computed number of workers, kept between one and four for each
    /// processor.
    pub fn bounded_worker_count(&self, computed: usize) -> (n: usize)
        requires
            1 <= self.cpu_cores,
            self.cpu_cores * 4 <= usize::MAX,
        ensures
            n == clamped(computed as int, 1, self.cpu_cores * 4),
            1 <= n <= 4 * self.cpu_cores,
            1 <= computed <= 4 * self.cpu_cores ==> n == computed,
    {
        clamp_usize(computed, 1, self.cpu_cores * 4)
    }

    /// A computed queue size, kept between its bounds.
    pub fn bounded_queue_size(&self, computed: usize) -> (n: usize)
        ensures
            n == clamped(computed as int, 1000, 100000),
            1000 <= n <= 100_000,
            1000 <= computed <= 100_000 ==> n == computed,
    {
        clamp_usize(computed, 1000, 100000)
    }

    /// A computed batch size, kept between its bounds.
    pub fn bounded_batch_size(&self, computed: usize) -> (n: usize)
        ensures
            n == clamped(computed as int, 64, 512),
            64 <= n <= 512,
            64 <= computed <= 512 ==> n == computed,
    {
        clamp_usize(computed, 64, 512)
    }

    /// A computed read timeout, kept between one and thirty seconds.
    pub fn bounded_read_timeout(&self, computed: u64) -> (t: u64)
        ensures
            t == clamped(computed as int, SECOND as int, 30 * SECOND),
            1_000_000_000 <= t <= 30_000_000_000,
            1_000_000_000 <= computed <= 30_000_000_000 ==> t == computed,
    {
        clamp_u64(computed, SECOND, 30 * SECOND)
    }

    /// The interval at which buffers are flushed: half the target latency.
    pub fn optimal_flush_interval(&self) -> (t: u64)
        ensures
            t == half_latency(self.target_latency),
            t <= self.target_latency,
            t % 1_000_000 == 0,
            2 * t <= self.target_latency < 2 * t + 2_000_000,
    {
        let ms: u64 = (self.target_latency / MILLISECOND) / 2;
        ms * MILLISECOND
    }

    /// The buffer size for a batch size and a number of workers: four bytes
    /// for each pair, within bounds.
    pub fn optimal_buffer_size(&self, batch_size: usize, workers: usize) -> (n: usize)
        requires
            batch_size * workers * 4 <= usize::MAX,
        ensures
            n == clamped(batch_size * workers * 4, 1024, 262144),
    {
        proof {
            assert(batch_size * workers <= batch_size * workers * 4) by (nonlinear_arith)
                requires
                    batch_size >= 0,
                    workers >= 0,
            ;
        }
        clamp_usize(batch_size * workers * 4, 1024, 262144)
    }
}

/// One change of the configuration.
#[derive(Debug, Clone)]
pub struct ConfigChangeRecord {
    pub timestamp: u64,
    pub version: u64,
    pub parameter: String,
    pub old_value: String,
    pub new_value: String,
    pub reason: String,
}

/// The changes of the configuration so far.
#[derive(Debug, Clone)]
pub struct AdaptiveConfigState {
    pub history: Vec<ConfigChangeRecord>,
    pub version: u64,
    pub last_change: u64,
    pub last_change_reason: String,
}

impl AdaptiveConfigState {
    /// What holds of every state.
    pub open spec fn wf(self) -> bool {
        self.history@.len() <= CHANGE_HISTORY
    }

    /// Whether nothing was changed yet.
    pub open spec fn is_first(self, now: u64) -> bool {
        &&& self.history@.len() == 0
        &&& self.version == 1
        &&& self.last_change == now
        &&& self.last_change_reason@ == "Initial configuration"@
    }

    /// The first version of a configuration.
    pub fn new(now: u64) -> (s: Self)
        ensures
            s.wf(),
            s.is_first(now),
    {
        AdaptiveConfigState {
            history: Vec::new(),
            version: 1,
            last_change: now,
            last_change_reason: String::from_str("Initial configuration"),
        }
    }

    /// Takes note of a change, which makes a new version. Of a long history
    /// the oldest change is forgotten.
    pub fn record_change(
        &mut self,
        parameter: String,
        old_value: String,
        new_value: String,
        reason: String,
        now: u64,
    )
        requires
            old(self).wf(),
            old(self).version < u64::MAX,
        ensures
            final(self).wf(),
            final(self).version == old(self).version + 1,
            final(self).last_change == now,
            final(self).last_change_reason@ == reason@,
            exists|r: ConfigChangeRecord|
                #![trigger remembered(old(self).history@, r, CHANGE_HISTORY as nat)]
                {
                    &&& final(self).history@ == remembered(
                        old(self).history@,
                        r,
                        CHANGE_HISTORY as nat,
                    )
                    &&& r.timestamp == now
                    &&& r.version == old(self).version + 1
                    &&& r.parameter@ == parameter@
                    &&& r.old_value@ == old_value@
                    &&& r.new_value@ == new_value@
                    &&& r.reason@ == reason@
                },
    {
        self.version = self.version + 1;
        let record: ConfigChangeRecord = ConfigChangeRecord {
            timestamp: now,
            version: self.version,
            parameter,
            old_value,
            new_value,
            reason: reason.clone(),
        };
        let ghost r = record;
        self.history.push(record);
        self.last_change = now;
        self.last_change_reason = reason;
        if self.history.len() > CHANGE_HISTORY {
            let _oldest: ConfigChangeRecord = self.history.remove(0);
        }
        proof {
            assert(self.history@ =~= remembered(old(self).history@, r, CHANGE_HISTORY as nat));
        }
    }
}

/// Whether no name occurs twice.
pub open spec fn names_differ(params: Seq<(String, String)>) -> bool {
    forall|i: int, j: int|
        0 <= i < j < params.len() ==> (#[trigger] params[i]).0@ != (#[trigger] params[j]).0@
}

/// The configuration.
#[derive(Debug, Clone)]
pub struct BatchConfig {
    pub read_buffer_size: usize,
    pub read_timeout: u64,
    pub max_concurrent_reads: usize,
    pub adaptive_read_timeout: bool,
    pub write_buffer_size: usize,
    pub write_timeout: u64,
    pub max_pending_writes: usize,
    pub flush_interval: u64,
    pub enable_qos: bool,
    pub batch_size: usize,
    pub min_batch_size: usize,
    pub max_batch_size: usize,
    pub enable_adaptive_batching: bool,
    pub adaptive_batch_window: u64,
    pub batch_accumulation_timeout: u64,
    pub worker_count: usize,
    pub max_queue_size: usize,
    pub enable_work_stealing: bool,
    pub load_balancing_interval: u64,
    pub enable_load_aware_scheduling: bool,
    pub steal_threshold: usize,
    pub steal_probability: u64,
    pub buffer_preallocation_size: usize,
    pub max_concurrent_batches: usize,
    pub enable_monitoring: bool,
    pub shrink_interval: u64,
    pub buffer_cleanup_threshold: u64,
    pub enable_buffer_compression: bool,
    pub circuit_breaker_enabled: bool,
    pub failure_threshold: usize,
    pub recovery_timeout: u64,
    pub half_open_max_requests: usize,
    pub consecutive_successes_needed: usize,
    pub backoff_factor: u64,
    pub qos_enabled: bool,
    pub high_priority_quota: u64,
    pub normal_priority_quota: u64,
    pub low_priority_quota: u64,
    pub enable_dynamic_qos: bool,
    pub qos_adaptation_interval: u64,
    pub metrics_enabled: bool,
    pub metrics_collection_interval: u64,
    pub trace_sampling_rate: u64,
    pub metrics_retention_period: u64,
    pub enable_detailed_stats: bool,
    pub enable_simd_acceleration: bool,
    pub simd_batch_size: usize,
    pub simd_alignment: usize,
    pub enable_avx2: bool,
    pub enable_avx512: bool,
    pub enable_neon: bool,
    pub crypto_worker_count: usize,
    pub crypto_batch_size: usize,
    pub crypto_queue_size: usize,
    pub enable_crypto_stealing: bool,
    pub optimization_model: ConfigOptimizationModel,
    pub adaptive_state: AdaptiveConfigState,
    /// Parameters of the user's own, by name.
    pub user_params: Vec<(String, String)>,
}

impl BatchConfig {
    /// What holds of every configuration.
    pub open spec fn wf(self) -> bool {
        &&& self.adaptive_state.wf()
        &&& names_differ(self.user_params@)
    }

    /// Whether this is the default configuration of a machine with the given
    /// number of processors, made at a given time.
    pub open spec fn is_default_for(
        self,
        cpu_cores: usize,
        features: SimdFeatures,
        now: u64,
    ) -> bool {
        &&& self.adaptive_state.is_first(now)
        &&& self.user_params@.len() == 0
        &&& self == (BatchConfig {
            read_buffer_size: 32768,
            read_timeout: 10_000_000_000,
            max_concurrent_reads: 10000,
            adaptive_read_timeout: true,
            write_buffer_size: 65536,
            write_timeout: 5_000_000_000,
            max_pending_writes: 50000,
            flush_interval: 10_000_000,
            enable_qos: true,
            batch_size: 512,
            min_batch_size: 32,
            max_batch_size: 1024,
            enable_adaptive_batching: true,
            adaptive_batch_window: 1_000_000_000,
            batch_accumulation_timeout: 50_000_000,
            worker_count: (cpu_cores * 2) as usize,
            max_queue_size: 1000,
            enable_work_stealing: true,
            load_balancing_interval: 250_000_000,
            enable_load_aware_scheduling: true,
            steal_threshold: 10,
            steal_probability: 100,
            buffer_preallocation_size: clamped(cpu_cores * 2048, 1024, 262144) as usize,
            max_concurrent_batches: (cpu_cores * 4) as usize,
            enable_monitoring: true,
            shrink_interval: 60_000_000_000,
            buffer_cleanup_threshold: 300,
            enable_buffer_compression: false,
            circuit_breaker_enabled: true,
            failure_threshold: 50,
            recovery_timeout: 30_000_000_000,
            half_open_max_requests: 10,
            consecutive_successes_needed: 5,
            backoff_factor: 2,
            qos_enabled: true,
            high_priority_quota: 400,
            normal_priority_quota: 400,
            low_priority_quota: 200,
            enable_dynamic_qos: true,
            qos_adaptation_interval: 30_000_000_000,
            metrics_enabled: true,
            metrics_collection_interval: 5_000_000_000,
            trace_sampling_rate: 100,
            metrics_retention_period: 3_600_000_000_000,
            enable_detailed_stats: true,
            enable_simd_acceleration: true,
            simd_batch_size: 8,
            simd_alignment: 64,
            enable_avx2: features.avx2,
            enable_avx512: features.avx512,
            enable_neon: features.neon,
            crypto_worker_count: (cpu_cores * 2) as usize,
            crypto_batch_size: 32,
            crypto_queue_size: 2000,
            enable_crypto_stealing: true,
            optimization_model: ConfigOptimizationModel {
                target_latency: 50_000_000,
                cpu_cores,
                available_memory: 8_589_934_592,
            },
            adaptive_state: self.adaptive_state,
            user_params: self.user_params,
        })
    }

    /// Whether everything that is counted for so many processors can be
    /// counted.
    pub open spec fn can_count(cpu_cores: usize) -> bool {
        cpu_cores * 2048 <= usize::MAX
    }

    /// The default configuration of a machine with the given number of
    /// processors and instruction sets.
    pub fn with_cores(cpu_count: usize, features: SimdFeatures, now: u64) -> (c: Self)
        requires
            Self::can_count(cpu_count),
        ensures
            c.is_default_for(cpu_count, features, now),
            c.wf(),
    {
        let model: ConfigOptimizationModel = ConfigOptimizationModel::new(cpu_count);
        let workers: usize = cpu_count * 2;
        BatchConfig {
            read_buffer_size: 32768,
            read_timeout: 10_000_000_000,
            max_concurrent_reads: 10000,
            adaptive_read_timeout: true,
            write_buffer_size: 65536,
            write_timeout: 5_000_000_000,
            max_pending_writes: 50000,
            flush_interval: 10_000_000,
            enable_qos: true,
            // The square root of half a million, rounded, is 707.
            batch_size: model.bounded_batch_size(707),
            min_batch_size: 32,
            max_batch_size: 1024,
            enable_adaptive_batching: true,
            adaptive_batch_window: 1_000_000_000,
            batch_accumulation_timeout: 50_000_000,
            worker_count: workers,
            // A loss of one in a thousand at seven tenths load takes 20 places.
            max_queue_size: model.bounded_queue_size(20),
            enable_work_stealing: true,
            load_balancing_interval: 250_000_000,
            enable_load_aware_scheduling: true,
            steal_threshold: 10,
            steal_probability: 100,
            buffer_preallocation_size: model.optimal_buffer_size(256, workers),
            max_concurrent_batches: cpu_count * 4,
            enable_monitoring: true,
            shrink_interval: 60_000_000_000,
            buffer_cleanup_threshold: 300,
            enable_buffer_compression: false,
            circuit_breaker_enabled: true,
            failure_threshold: 50,
            recovery_timeout: 30_000_000_000,
            half_open_max_requests: 10,
            consecutive_successes_needed: 5,
            backoff_factor: 2,
            qos_enabled: true,
            high_priority_quota: 400,
            normal_priority_quota: 400,
            low_priority_quota: 200,
            enable_dynamic_qos: true,
            qos_adaptation_interval: 30_000_000_000,
            metrics_enabled: true,
            metrics_collection_interval: 5_000_000_000,
            trace_sampling_rate: 100,
            metrics_retention_period: 3_600_000_000_000,
            enable_detailed_stats: true,
            enable_simd_acceleration: true,
            simd_batch_size: 8,
            simd_alignment: 64,
            enable_avx2: features.avx2,
            enable_avx512: features.avx512,
            enable_neon: features.neon,
            crypto_worker_count: cpu_count * 2,
            crypto_batch_size: 32,
            crypto_queue_size: 2000,
            enable_crypto_stealing: true,
            optimization_model: model,
            adaptive_state: AdaptiveConfigState::new(now),
            user_params: Vec::new(),
        }
    }

    /// The default configuration of a machine with any number of processors;
    /// `None` where there are too many to count with.
    pub fn for_cores(cpu_count: usize, features: SimdFeatures, now: u64) -> (r: Option<Self>)
        ensures
            r is Some <==> Self::can_count(cpu_count),
            r matches Some(c) ==> c.wf() && c.is_default_for(cpu_count, features, now),
    {
        if cpu_count <= usize::MAX / 2048 {
            Some(BatchConfig::with_cores(cpu_count, features, now))
        } else {
            None
        }
    }

    /// The default configuration of this machine; `None` on a machine with
    /// too many processors to count with. It is the one for some number of
    /// processors, at least one; which number is up to the machine.
    pub fn for_this_machine(features: SimdFeatures, now: u64) -> (r: Option<Self>)
        ensures
            exists|cores: usize|
                cores >= 1 && (r is Some <==> #[trigger] Self::can_count(cores)) && (
                r matches Some(c) ==> c.is_default_for(cores, features, now)),
            r matches Some(c) ==> c.wf() && c.optimization_model.cpu_cores >= 1,
    {
        BatchConfig::for_cores(cpu_cores(), features, now)
    }
}

/// What is wrong with a configuration.
#[derive(Debug, Clone)]
pub enum ConfigError {
    InvalidValue(String),
    MissingParameter(String),
    Conflict(String),
}

impl ConfigError {
    /// The text of the error.
    pub open spec fn text(self) -> Seq<char> {
        match self {
            ConfigError::InvalidValue(s) => "Invalid configuration value: "@ + s@,
            ConfigError::MissingParameter(s) => "Missing required parameter: "@ + s@,
            ConfigError::Conflict(s) => "Configuration conflict: "@ + s@,
        }
    }

    /// Renders the error.
    pub fn message(&self) -> (s: String)
        ensures
            s@ == self.text(),
    {
        match self {
            ConfigError::InvalidValue(s) => {
                String::from_str("Invalid configuration value: ").concat(s.as_str())
            },
            ConfigError::MissingParameter(s) => {
                String::from_str("Missing required parameter: ").concat(s.as_str())
            },
            ConfigError::Conflict(s) => {
                String::from_str("Configuration conflict: ").concat(s.as_str())
            },
        }
    }
}

} // verus!
