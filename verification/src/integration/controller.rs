//! The decisions of the controller that adapts the system to its load.
//!
//! Points in time and durations are nanoseconds. Rates are tasks per second;
//! measured values come in thousandths.

use std::collections::VecDeque;
use vstd::prelude::*;
use vstd::std_specs::vecdeque::*;
use vstd::string::*;

use crate::adaptive_batcher::AdaptiveBatcher;
use crate::balance::{is_computable, is_imbalance};
use crate::bounds::{clamp_usize, clamped, greater, max_u64, minus, smaller};
use crate::circuit_breaker::{BreakerCore, CircuitBreaker, CircuitBreakerManager, CircuitState};
use crate::config::{BatchConfig, MILLISECOND, SECOND, half_latency};
use crate::integration::events::SystemCommand;
use crate::integration::scaling::{MAX_WORKERS, MIN_WORKERS};
use crate::io::writer::BackpressureModel;
use crate::measure::Measure;
use crate::metrics_tracing::AnomalySeverity;
use crate::optimized::buffer_pool::{OptimizedBufferPool, grown};
use crate::optimized::crypto_processor::OptimizedCryptoProcessor;
use crate::optimized::size_class::{SIZE_CLASSES, class_at};
use crate::optimized::work_stealing_dispatcher::{
    WorkStealingDispatcher, WorkStealingModel, queue_lengths,
};
use crate::qos_manager::{GroupStats, QosStatistics};
use crate::ratio::Ratio;
use crate::text::{occurs, str_contains};

verus! {

/// Measurements needed before the batch size adapts.
pub const BATCH_SAMPLES: usize = 10;

/// Measurements needed before the number of workers adapts.
pub const WORKER_SAMPLES: usize = 50;

/// Requests needed before quotas adapt.
pub const QOS_SAMPLES: u64 = 1000;

/// The least time between two adaptations that are reported: five seconds.
pub const ADAPTATION_PAUSE: u64 = 5_000_000_000;

/// Read timeouts that differ by no more than this are left as they are.
pub const TIMEOUT_TOLERANCE: u64 = 100_000_000;

/// What was adapted.
#[derive(Debug, Clone, Copy, PartialEq, Eq, Structural)]
pub enum AdaptedParameter {
    BatchSize,
    WorkerCount,
    QosQuotas,
    /// In milliseconds.
    ReadTimeout,
    /// In milliseconds.
    FlushInterval,
    WriterBatchSize,
}

impl AdaptedParameter {
    /// The name of the parameter.
    pub open spec fn text(self) -> Seq<char> {
        match self {
            AdaptedParameter::BatchSize => "batch_size"@,
            AdaptedParameter::WorkerCount => "worker_count"@,
            AdaptedParameter::QosQuotas => "qos_quotas"@,
            AdaptedParameter::ReadTimeout => "read_timeout"@,
            AdaptedParameter::FlushInterval => "flush_interval"@,
            AdaptedParameter::WriterBatchSize => "writer_batch_size"@,
        }
    }

    /// The name of the parameter.
    pub fn name(&self) -> (s: &'static str)
        ensures
            s@ == self.text(),
    {
        match self {
            AdaptedParameter::BatchSize => "batch_size",
            AdaptedParameter::WorkerCount => "worker_count",
            AdaptedParameter::QosQuotas => "qos_quotas",
            AdaptedParameter::ReadTimeout => "read_timeout",
            AdaptedParameter::FlushInterval => "flush_interval",
            AdaptedParameter::WriterBatchSize => "writer_batch_size",
        }
    }
}

/// An adaptation.
#[derive(Debug)]
pub struct AdaptationRecord {
    pub timestamp: u64,
    pub parameter: AdaptedParameter,
    pub old_value: u64,
    pub new_value: u64,
    pub reason: String,
    /// In thousandths.
    pub confidence: u64,
}

/// Whether a rate is the one that is assumed before anything is measured: 100
/// tasks per second, give or take less than one.
pub open spec fn is_default_rate(lambda: Measure) -> bool {
    lambda.is_above(99_000) && lambda.is_below(101_000)
}

fn default_rate(lambda: &Measure) -> (r: bool)
    ensures
        r == is_default_rate(*lambda),
{
    lambda.above(99_000) && lambda.below(101_000)
}

/// Whether a rate tells of load that can be adapted to: from 10 to 990 tasks
/// per second.
pub open spec fn is_real_load(lambda: Measure) -> bool {
    !lambda.is_below(10_000) && !lambda.is_above(990_000)
}

/// Whether enough is known of the load to adapt the batch size.
pub open spec fn batch_size_may_change(samples: nat, lambda: Measure) -> bool {
    &&& samples >= BATCH_SAMPLES
    &&& !(is_default_rate(lambda) && samples < 100)
    &&& is_real_load(lambda)
}

/// Whether enough is known of the load to adapt the batch size.
pub fn may_change_batch_size(samples: usize, lambda: &Measure) -> (r: bool)
    ensures
        r == batch_size_may_change(samples as nat, *lambda),
        r <==> samples >= 10 && lambda.at_least >= 10_000 && lambda.at_most <= 990_000 && !(samples
            < 100 && lambda.at_most > 99_000 && lambda.at_least < 101_000),
{
    samples >= BATCH_SAMPLES && !(default_rate(lambda) && samples < 100) && !lambda.below(10_000)
        && !lambda.above(990_000)
}

/// Whether enough is known of the load to adapt the number of workers.
pub open spec fn workers_may_change(samples: nat, lambda: Measure) -> bool {
    &&& samples >= WORKER_SAMPLES
    &&& !is_default_rate(lambda)
    &&& !lambda.is_below(1000)
}

/// What leads from one number of workers to another.
pub open spec fn is_scaling(from: usize, to: usize, c: Option<SystemCommand>) -> bool {
    if to > from {
        c matches Some(SystemCommand::ScaleUp { count }) && count == to - from
    } else if to < from {
        c matches Some(SystemCommand::ScaleDown { count }) && count == from - to
    } else {
        c is None
    }
}

fn scaling(from: usize, to: usize) -> (c: Option<SystemCommand>)
    ensures
        is_scaling(from, to, c),
{
    if to > from {
        Some(SystemCommand::ScaleUp { count: to - from })
    } else if to < from {
        Some(SystemCommand::ScaleDown { count: from - to })
    } else {
        None
    }
}

/// What the controller proposes, and why.
#[derive(Debug)]
pub struct BatchProposal {
    pub batch_size: usize,
    pub workers: usize,
    pub reason: String,
    /// In thousandths.
    pub confidence: u64,
}

/// Whether `after` is a stealing model adapted to queues of the given lengths:
/// by their coefficient of variation, which is noted where it exceeds three
/// tenths.
pub open spec fn is_adapted(
    before: WorkStealingModel,
    after: WorkStealingModel,
    queues: Seq<u64>,
) -> bool {
    exists|imbalance: Measure| #[trigger]
        is_imbalance(queues, 1, imbalance) && imbalance.wf() && after == (WorkStealingModel {
            p_steal: adapted_steal_probability(before.p_steal, imbalance) as u64,
            imbalance: if imbalance.is_above(300) {
                imbalance
            } else {
                before.imbalance
            },
            ..before
        })
}

/// The steal probability, in ten-thousandths, for queues of the given
/// coefficient of variation.
pub open spec fn adapted_steal_probability(p_steal: u64, imbalance: Measure) -> int {
    if imbalance.is_above(300) {
        smaller(p_steal + 500, 5000)
    } else if imbalance.is_below(100) && p_steal > 1000 {
        greater(p_steal - 200, 500)
    } else {
        p_steal as int
    }
}

/// What makes quotas adapt.
#[derive(Debug, Clone, Copy, PartialEq, Eq, Structural)]
pub enum QosTrigger {
    HighRejection,
    NormalRejection,
    LowRejection,
    HighWait,
    NormalWait,
    LowWait,
}

/// Mean waits of the groups in milliseconds.
#[derive(Debug, Clone, Copy)]
pub struct MeanWaits {
    pub high: Measure,
    pub normal: Measure,
    pub low: Measure,
}

/// The first thing that makes quotas adapt: many rejections, then long waits,
/// of the most urgent group first.
pub open spec fn qos_trigger(s: QosStatistics, waits: MeanWaits) -> Option<QosTrigger> {
    let rejected = |g: GroupStats| Ratio { part: g.rejected, whole: g.requests };
    if rejected(s.high).is_above(5, 100) {
        Some(QosTrigger::HighRejection)
    } else if rejected(s.normal).is_above(10, 100) {
        Some(QosTrigger::NormalRejection)
    } else if rejected(s.low).is_above(20, 100) {
        Some(QosTrigger::LowRejection)
    } else if waits.high.is_above(100_000) {
        Some(QosTrigger::HighWait)
    } else if waits.normal.is_above(200_000) {
        Some(QosTrigger::NormalWait)
    } else if waits.low.is_above(500_000) {
        Some(QosTrigger::LowWait)
    } else {
        None
    }
}

/// The state of a breaker after the controller looked at it: an open one is
/// asked for a request once its recovery delay is over.
pub open spec fn retried(core: BreakerCore, now: u64) -> BreakerCore {
    if core.state == CircuitState::Open && waited(core, now) >= core.recovery.current_delay {
        core.after_request(now)
    } else {
        core
    }
}

/// How long ago a breaker last saw a failure.
pub open spec fn waited(core: BreakerCore, now: u64) -> int {
    match core.last_failure {
        Some(t) => minus(now as int, t as int),
        None => 0,
    }
}

/// Whether the controller looks after the breaker of that name.
pub open spec fn is_watched(name: Seq<char>) -> bool {
    name == "dispatcher"@ || name == "crypto_processor"@ || name == "packet_service"@
}

fn retry_breaker(breakers: &mut CircuitBreakerManager, name: &str, now: u64)
    requires
        old(breakers).wf(),
        old(breakers).core_of(name@) matches Some(c) ==> c.counters_fit(),
    ensures
        final(breakers).wf(),
        final(breakers).settings() == old(breakers).settings(),
        final(breakers).core_of(name@) == match old(breakers).core_of(name@) {
            Some(c) => Some(retried(c, now)),
            None => None,
        },
        forall|other: Seq<char>|
            other != name@ ==> #[trigger] final(breakers).core_of(other) == old(
                breakers,
            ).core_of(other),
{
    if let Some(i) = breakers.get_breaker(name) {
        let b: &CircuitBreaker = breakers.breaker(i);
        if b.core.state == CircuitState::Open {
            let waited: u64 = match b.core.last_failure {
                Some(t) => now.saturating_sub(t),
                None => 0,
            };
            if waited >= b.core.recovery.current_delay {
                let _allowed: bool = breakers.request(name, now);
            }
        }
    }
}

/// What an anomaly calls for.
#[derive(Debug, Clone, Copy, PartialEq, Eq, Structural)]
pub struct Reaction {
    pub shutdown: bool,
    pub clean_buffers: bool,
    pub adapt_quotas: bool,
}

/// What an anomaly calls for: an emergency shutdown where a critical one of a
/// latency meets a latency above three times its target; a cleanup of the
/// buffers, or new quotas, where a warning tells of few hits or of many
/// rejections.
pub open spec fn reaction_to(
    metric: Seq<char>,
    severity: AnomalySeverity,
    value: Measure,
    latency: Measure,
    target_latency_ms: u64,
) -> Reaction {
    Reaction {
        shutdown: severity == AnomalySeverity::Critical && occurs(metric, "latency"@)
            && latency.is_above(target_latency_ms * 3000),
        clean_buffers: severity == AnomalySeverity::Warning && occurs(metric, "buffer_hit_rate"@)
            && value.is_below(500),
        adapt_quotas: severity == AnomalySeverity::Warning && occurs(metric, "qos_rejection"@)
            && value.is_above(100),
    }
}

/// What an anomaly calls for.
pub fn react_to(
    metric: &str,
    severity: AnomalySeverity,
    value: Measure,
    latency: Measure,
    target_latency_ms: u64,
) -> (r: Reaction)
    requires
        target_latency_ms * 3000 <= u64::MAX,
    ensures
        r == reaction_to(metric@, severity, value, latency, target_latency_ms),
        r.shutdown <==> severity is Critical && occurs(metric@, "latency"@)
            && latency.at_most > 3000
            * target_latency_ms,
        r.clean_buffers <==> severity is Warning && occurs(metric@, "buffer_hit_rate"@)
            && value.at_least < 500,
        r.adapt_quotas <==> severity is Warning && occurs(metric@, "qos_rejection"@)
            && value.at_most
            > 100,
{
    let mut r: Reaction = Reaction { shutdown: false, clean_buffers: false, adapt_quotas: false };
    match severity {
        AnomalySeverity::Critical => {
            r.shutdown = str_contains(metric, "latency") && latency.above(target_latency_ms * 3000);
        },
        AnomalySeverity::Warning => {
            r.clean_buffers = str_contains(metric, "buffer_hit_rate") && value.below(500);
            r.adapt_quotas = str_contains(metric, "qos_rejection") && value.above(100);
        },
        _ => {},
    }
    r
}

/// What the reader and the writer could use, and why.
#[derive(Debug)]
pub struct TransferProposal {
    pub read_timeout: u64,
    pub read_reason: String,
    pub flush_reason: String,
    pub batch_size: usize,
    pub batch_reason: String,
}

/// The configuration after a proposal for reader and writer. Read timeouts
/// move by more than a tenth of a second or not at all, where they adapt; so
/// do batch sizes.
pub open spec fn transfer_config(config: BatchConfig, p: TransferProposal) -> BatchConfig {
    BatchConfig {
        read_timeout: if moves_timeout(config, p) {
            p.read_timeout
        } else {
            config.read_timeout
        },
        flush_interval: half_latency(config.optimization_model.target_latency),
        batch_size: if config.enable_adaptive_batching {
            p.batch_size
        } else {
            config.batch_size
        },
        ..config
    }
}

/// Whether a proposal moves the read timeout.
pub open spec fn moves_timeout(config: BatchConfig, p: TransferProposal) -> bool {
    config.adaptive_read_timeout && (p.read_timeout - config.read_timeout > TIMEOUT_TOLERANCE
        || config.read_timeout - p.read_timeout > TIMEOUT_TOLERANCE)
}

/// The history after a proposal for reader and writer: an entry for each value
/// that changed.
pub open spec fn transfer_history(
    history: Seq<AdaptationRecord>,
    config: BatchConfig,
    p: TransferProposal,
    now: u64,
) -> Seq<AdaptationRecord> {
    let after = transfer_config(config, p);
    let one = if moves_timeout(config, p) {
        history.push(
            AdaptationRecord {
                timestamp: now,
                parameter: AdaptedParameter::ReadTimeout,
                old_value: (config.read_timeout / 1_000_000) as u64,
                new_value: (after.read_timeout / 1_000_000) as u64,
                reason: p.read_reason,
                confidence: 700,
            },
        )
    } else {
        history
    };
    let two = if after.flush_interval != config.flush_interval {
        one.push(
            AdaptationRecord {
                timestamp: now,
                parameter: AdaptedParameter::FlushInterval,
                old_value: (config.flush_interval / 1_000_000) as u64,
                new_value: (after.flush_interval / 1_000_000) as u64,
                reason: p.flush_reason,
                confidence: 800,
            },
        )
    } else {
        one
    };
    if after.batch_size != config.batch_size {
        two.push(
            AdaptationRecord {
                timestamp: now,
                parameter: AdaptedParameter::WriterBatchSize,
                old_value: config.batch_size as u64,
                new_value: after.batch_size as u64,
                reason: p.batch_reason,
                confidence: 750,
            },
        )
    } else {
        two
    }
}

/// The controller.
#[derive(Debug)]
pub struct AdaptiveSystemController {
    pub adaptation_history: VecDeque<AdaptationRecord>,
    pub last_adaptation: u64,
    pub control_interval: u64,
    pub is_running: bool,
}

impl AdaptiveSystemController {
    /// Whether this is a controller as it is made: it runs, and has adapted
    /// nothing.
    pub open spec fn is_new(self, now: u64) -> bool {
        &&& self.adaptation_history@.len() == 0
        &&& self.last_adaptation == now
        &&& self.control_interval == SECOND
        &&& self.is_running
    }

    /// A running controller that has adapted nothing.
    pub fn new(now: u64) -> (c: Self)
        ensures
            c.is_new(now),
    {
        AdaptiveSystemController {
            adaptation_history: VecDeque::new(),
            last_adaptation: now,
            control_interval: SECOND,
            is_running: true,
        }
    }

    /// Takes over a proposal for batch size and workers, once enough is known
    /// of the load. The batch size is kept within its limits. Says what is to
    /// be done about the workers.
    pub fn optimize_batch_size(
        &mut self,
        batcher: &mut AdaptiveBatcher,
        config: &mut BatchConfig,
        lambda: Measure,
        proposal: BatchProposal,
        now: u64,
    ) -> (command: Option<SystemCommand>)
        requires
            old(batcher).wf(),
            old(config).min_batch_size <= old(config).max_batch_size,
        ensures
            final(batcher).wf(),
            final(self).last_adaptation == old(self).last_adaptation,
            final(self).control_interval == old(self).control_interval,
            final(self).is_running == old(self).is_running,
            ({
                let b = clamped(
                    proposal.batch_size as int,
                    old(config).min_batch_size as int,
                    old(config).max_batch_size as int,
                ) as usize;
                if !batch_size_may_change(old(batcher).lambdas@.len(), lambda) {
                    &&& *final(batcher) == *old(batcher)
                    &&& *final(config) == *old(config)
                    &&& final(self).adaptation_history == old(self).adaptation_history
                    &&& command is None
                } else {
                    &&& *final(batcher) == (AdaptiveBatcher {
                        current_batch_size: b,
                        current_workers: proposal.workers,
                        ..*old(batcher)
                    })
                    &&& *final(config) == if b == old(batcher).current_batch_size {
                        *old(config)
                    } else {
                        BatchConfig { batch_size: b, ..*old(config) }
                    }
                    &&& final(self).adaptation_history@ == if b == old(
                        batcher).current_batch_size {
                        old(self).adaptation_history@
                    } else {
                        old(self).adaptation_history@.push(
                            AdaptationRecord {
                                timestamp: now,
                                parameter: AdaptedParameter::BatchSize,
                                old_value: old(batcher).current_batch_size as u64,
                                new_value: b as u64,
                                reason: proposal.reason,
                                confidence: proposal.confidence,
                            },
                        )
                    }
                    &&& is_scaling(old(batcher).current_workers, proposal.workers, command)
                }
            }),
    {
        if !may_change_batch_size(batcher.lambdas.len(), &lambda) {
            return None;
        }
        let b: usize = clamp_usize(
            proposal.batch_size,
            config.min_batch_size,
            config.max_batch_size,
        );
        let before: usize = batcher.current_batch_size;
        if before != b {
            batcher.current_batch_size = b;
            config.batch_size = b;
            self.adaptation_history.push_back(
                AdaptationRecord {
                    timestamp: now,
                    parameter: AdaptedParameter::BatchSize,
                    old_value: before as u64,
                    new_value: b as u64,
                    reason: proposal.reason,
                    confidence: proposal.confidence,
                },
            );
        }
        let workers: usize = batcher.current_workers;
        batcher.current_workers = proposal.workers;
        scaling(workers, proposal.workers)
    }

    /// Decides on the number of workers, once enough is known of the load, and
    /// adapts how often they steal.
    pub fn optimize_worker_count(
        &mut self,
        dispatcher: &mut WorkStealingDispatcher,
        batcher: &AdaptiveBatcher,
        lambda: Measure,
        optimal: usize,
        reason: String,
        now: u64,
    ) -> (command: Option<SystemCommand>)
        requires
            old(dispatcher).wf(),
            old(dispatcher).stealing_model.p_steal + 500 <= u64::MAX,
            workers_may_change(batcher.lambdas@.len(), lambda) ==> is_computable(
                queue_lengths(old(dispatcher).worker_queues@, old(dispatcher).num_workers as nat),
            ),
        ensures
            final(dispatcher).wf(),
            final(self).last_adaptation == old(self).last_adaptation,
            final(self).control_interval == old(self).control_interval,
            final(self).is_running == old(self).is_running,
            ({
                let current = old(dispatcher).num_workers;
                let change = optimal != current && MIN_WORKERS <= optimal <= MAX_WORKERS;
                if !workers_may_change(batcher.lambdas@.len(), lambda) {
                    &&& *final(dispatcher) == *old(dispatcher)
                    &&& final(self).adaptation_history == old(self).adaptation_history
                    &&& command is None
                } else {
                    &&& *final(dispatcher) == (WorkStealingDispatcher {
                        stealing_model: final(dispatcher).stealing_model,
                        ..*old(dispatcher)
                    })
                    &&& is_adapted(
                        old(dispatcher).stealing_model,
                        final(dispatcher).stealing_model,
                        queue_lengths(
                            old(dispatcher).worker_queues@,
                            old(dispatcher).num_workers as nat,
                        ),
                    )
                    &&& change ==> is_scaling(current, optimal, command)
                    &&& !change ==> command is None
                    &&& final(self).adaptation_history@ == if change {
                        old(self).adaptation_history@.push(
                            AdaptationRecord {
                                timestamp: now,
                                parameter: AdaptedParameter::WorkerCount,
                                old_value: current as u64,
                                new_value: optimal as u64,
                                reason,
                                confidence: 800,
                            },
                        )
                    } else {
                        old(self).adaptation_history@
                    }
                }
            }),
    {
        if batcher.lambdas.len() < WORKER_SAMPLES || default_rate(&lambda) || lambda.below(1000) {
            return None;
        }
        let current: usize = dispatcher.num_workers;
        let mut command: Option<SystemCommand> = None;
        if optimal != current && optimal >= MIN_WORKERS && optimal <= MAX_WORKERS {
            command = scaling(current, optimal);
            self.adaptation_history.push_back(
                AdaptationRecord {
                    timestamp: now,
                    parameter: AdaptedParameter::WorkerCount,
                    old_value: current as u64,
                    new_value: optimal as u64,
                    reason,
                    confidence: 800,
                },
            );
        }
        let p: u64 = dispatcher.stealing_model.p_steal;
        let imbalance: Measure = dispatcher.queue_imbalance();
        if imbalance.above(300) {
            dispatcher.stealing_model.imbalance = imbalance;
            dispatcher.stealing_model.p_steal = if p + 500 < 5000 {
                p + 500
            } else {
                5000
            };
        } else if imbalance.below(100) && p > 1000 {
            dispatcher.stealing_model.p_steal = max_u64(p - 200, 500);
        }
        command
    }

    /// Whether enough is known of the load to look at the quotas.
    pub open spec fn quotas_may_change(stats: QosStatistics, lambda: Measure) -> bool {
        is_real_load(lambda) && stats.total() >= QOS_SAMPLES
    }

    /// Whether enough is known of the load to look at the quotas.
    pub fn may_change_quotas(stats: &QosStatistics, lambda: &Measure) -> (r: bool)
        requires
            stats.total() <= u64::MAX,
        ensures
            r == Self::quotas_may_change(*stats, *lambda),
    {
        !lambda.below(10_000) && !lambda.above(990_000) && stats.high.requests
            + stats.normal.requests + stats.low.requests >= QOS_SAMPLES
    }

    /// What makes quotas adapt, once enough is known of the load.
    pub fn optimize_qos_quotas(
        &self,
        stats: &QosStatistics,
        lambda: Measure,
        waits: MeanWaits,
    ) -> (trigger: Option<QosTrigger>)
        requires
            stats.total() <= u64::MAX,
        ensures
            trigger == if Self::quotas_may_change(*stats, lambda) {
                qos_trigger(*stats, waits)
            } else {
                None
            },
    {
        if !AdaptiveSystemController::may_change_quotas(stats, &lambda) {
            return None;
        }
        if Ratio::new(stats.high.rejected, stats.high.requests).above(5, 100) {
            Some(QosTrigger::HighRejection)
        } else if Ratio::new(stats.normal.rejected, stats.normal.requests).above(10, 100) {
            Some(QosTrigger::NormalRejection)
        } else if Ratio::new(stats.low.rejected, stats.low.requests).above(20, 100) {
            Some(QosTrigger::LowRejection)
        } else if waits.high.above(100_000) {
            Some(QosTrigger::HighWait)
        } else if waits.normal.above(200_000) {
            Some(QosTrigger::NormalWait)
        } else if waits.low.above(500_000) {
            Some(QosTrigger::LowWait)
        } else {
            None
        }
    }

    /// Takes note of new quotas, in thousandths.
    pub fn note_quotas(
        &mut self,
        from_high: u64,
        to_high: u64,
        reason: String,
        confidence: u64,
        now: u64,
    )
        ensures
            final(self).adaptation_history@ == old(self).adaptation_history@.push(
                AdaptationRecord {
                    timestamp: now,
                    parameter: AdaptedParameter::QosQuotas,
                    old_value: from_high,
                    new_value: to_high,
                    reason,
                    confidence,
                },
            ),
            final(self).last_adaptation == old(self).last_adaptation,
            final(self).control_interval == old(self).control_interval,
            final(self).is_running == old(self).is_running,
    {
        self.adaptation_history.push_back(
            AdaptationRecord {
                timestamp: now,
                parameter: AdaptedParameter::QosQuotas,
                old_value: from_high,
                new_value: to_high,
                reason,
                confidence,
            },
        );
    }

    /// Adds buffers where fewer than three in ten requests are hits; none
    /// before the first hit. The pools grow towards a fifth of the longest
    /// queue.
    pub fn optimize_buffer_pool(
        &self,
        pool: &mut OptimizedBufferPool,
        max_queue_size: usize,
        now: u64,
    ) -> (grew: bool)
        requires
            old(pool).wf(),
        ensures
            final(pool).wf(),
            grew == (old(pool).global.current_hit_rate.exceeds(Ratio::zero()) && old(
                pool,
            ).global.current_hit_rate.is_below(3, 10)),
            !grew ==> *final(pool) == *old(pool),
            *final(pool) == (OptimizedBufferPool { pools: final(pool).pools, ..*old(pool) }),
            grew ==> forall|i: int|
                0 <= i < SIZE_CLASSES ==> grown(
                    old(pool).pools@[i]@,
                    (#[trigger] final(pool).pools@[i])@,
                    class_at(i),
                    (max_queue_size / 5) as nat,
                    now,
                ),
    {
        let hit_rate: Ratio = pool.global.current_hit_rate;
        if !hit_rate.more_than(&Ratio::new(0, 0)) {
            return false;
        }
        if hit_rate.below(3, 10) {
            pool.grow_pools(max_queue_size / 5, now);
            true
        } else {
            false
        }
    }

    /// Asks the watched breakers that are open and have waited long enough for
    /// a request.
    pub fn optimize_circuit_breaker(&self, breakers: &mut CircuitBreakerManager, now: u64)
        requires
            old(breakers).wf(),
            forall|name: Seq<char>|
                is_watched(name) && (#[trigger] old(breakers).core_of(name)) is Some ==> old(
                    breakers,
                ).core_of(name)->0.counters_fit(),
        ensures
            final(breakers).wf(),
            final(breakers).settings() == old(breakers).settings(),
            forall|name: Seq<char>| #[trigger]
                final(breakers).core_of(name) == match old(breakers).core_of(name) {
                    Some(c) => if is_watched(name) {
                        Some(retried(c, now))
                    } else {
                        Some(c)
                    },
                    None => None,
                },
    {
        proof {
            reveal_strlit("dispatcher");
            reveal_strlit("crypto_processor");
            reveal_strlit("packet_service");
            assert("dispatcher"@.len() == 10);
            assert("crypto_processor"@.len() == 16);
            assert("packet_service"@.len() == 14);
        }
        retry_breaker(breakers, "dispatcher", now);
        retry_breaker(breakers, "crypto_processor", now);
        retry_breaker(breakers, "packet_service", now);
    }

    /// Takes over a proposal for reader and writer. A queue of writes that is
    /// nine tenths full counts as a failure of the writer.
    pub fn optimize_reader_writer(
        &mut self,
        config: &mut BatchConfig,
        breakers: &mut CircuitBreakerManager,
        proposal: TransferProposal,
        queue_size: usize,
        now: u64,
    )
        requires
            old(breakers).wf(),
            old(breakers).core_of("writer"@) matches Some(c) ==> c.counters_fit(),
            old(config).max_pending_writes * 9 <= usize::MAX,
        ensures
            *final(config) == transfer_config(*old(config), proposal),
            final(self).adaptation_history@ == transfer_history(
                old(self).adaptation_history@,
                *old(config),
                proposal,
                now,
            ),
            final(self).last_adaptation == old(self).last_adaptation,
            final(self).control_interval == old(self).control_interval,
            final(self).is_running == old(self).is_running,
            final(breakers).wf(),
            ({
                let critical = queue_size >= old(config).max_pending_writes * 9 / 10;
                match old(breakers).core_of("writer"@) {
                    Some(c) => if critical {
                        final(breakers).after_change(
                            *old(breakers),
                            "writer"@,
                            c.after_failure(now),
                        )
                    } else {
                        *final(breakers) == *old(breakers)
                    },
                    None => *final(breakers) == *old(breakers),
                }
            }),
    {
        if config.adaptive_read_timeout {
            let before: u64 = config.read_timeout;
            let distance: u64 = if proposal.read_timeout > before {
                proposal.read_timeout - before
            } else {
                before - proposal.read_timeout
            };
            if distance > TIMEOUT_TOLERANCE {
                config.read_timeout = proposal.read_timeout;
                self.adaptation_history.push_back(
                    AdaptationRecord {
                        timestamp: now,
                        parameter: AdaptedParameter::ReadTimeout,
                        old_value: before / MILLISECOND,
                        new_value: proposal.read_timeout / MILLISECOND,
                        reason: proposal.read_reason,
                        confidence: 700,
                    },
                );
            }
        }
        let flush: u64 = config.optimization_model.optimal_flush_interval();
        if flush != config.flush_interval {
            let before: u64 = config.flush_interval;
            config.flush_interval = flush;
            self.adaptation_history.push_back(
                AdaptationRecord {
                    timestamp: now,
                    parameter: AdaptedParameter::FlushInterval,
                    old_value: before / MILLISECOND,
                    new_value: flush / MILLISECOND,
                    reason: proposal.flush_reason,
                    confidence: 800,
                },
            );
        }
        if proposal.batch_size != config.batch_size && config.enable_adaptive_batching {
            let before: usize = config.batch_size;
            config.batch_size = proposal.batch_size;
            self.adaptation_history.push_back(
                AdaptationRecord {
                    timestamp: now,
                    parameter: AdaptedParameter::WriterBatchSize,
                    old_value: before as u64,
                    new_value: proposal.batch_size as u64,
                    reason: proposal.batch_reason,
                    confidence: 750,
                },
            );
        }
        let mut pressure: BackpressureModel = BackpressureModel::new(config.max_pending_writes);
        pressure.update(queue_size);
        if pressure.is_critical() {
            if let Some(_i) = breakers.get_breaker("writer") {
                breakers.failed("writer", now);
            }
        }
    }

    /// Counts a failure of the crypto processor where fewer than 95 in a
    /// hundred of its tasks succeed, as long as its breaker is closed.
    pub fn optimize_crypto_processing(
        &self,
        processor: &OptimizedCryptoProcessor,
        breakers: &mut CircuitBreakerManager,
        now: u64,
    ) -> (low: bool)
        requires
            old(breakers).wf(),
            old(breakers).core_of("crypto_processor"@) matches Some(c) ==> c.counters_fit(),
        ensures
            final(breakers).wf(),
            low == (processor.processed() > 0 && processor.successes() * 100
                < processor.processed() * 95),
            match old(breakers).core_of("crypto_processor"@) {
                Some(c) => if low && c.state == CircuitState::Closed {
                    final(breakers).after_change(
                        *old(breakers),
                        "crypto_processor"@,
                        c.after_failure(now),
                    )
                } else {
                    *final(breakers) == *old(breakers)
                },
                None => *final(breakers) == *old(breakers),
            },
    {
        let (successes, processed) = processor.success_counts();
        let low: bool = processed > 0 && successes * 100 < processed as u128 * 95;
        if low {
            if let Some(i) = breakers.get_breaker("crypto_processor") {
                if breakers.breaker(i).core.state == CircuitState::Closed {
                    breakers.failed("crypto_processor", now);
                }
            }
        }
        low
    }

    /// The batch size from which vector instructions pay, for batches of the
    /// current size: half as much again.
    pub fn simd_threshold(&self, batch_size: usize) -> (n: u128)
        ensures
            n == batch_size * 3 / 2,
    {
        batch_size as u128 * 3 / 2
    }

    /// Whether the decisions of this round are reported: five seconds after
    /// the last that were.
    pub fn apply_decisions(&mut self, now: u64) -> (reported: Option<u64>)
        ensures
            ({
                let since = minus(now as int, old(self).last_adaptation as int);
                &&& reported == if since < ADAPTATION_PAUSE {
                    None
                } else {
                    Some(since as u64)
                }
                &&& *final(self) == (AdaptiveSystemController {
                    last_adaptation: if since < ADAPTATION_PAUSE {
                        old(self).last_adaptation
                    } else {
                        now
                    },
                    ..*old(self)
                })
            }),
    {
        let since: u64 = now.saturating_sub(self.last_adaptation);
        if since < ADAPTATION_PAUSE {
            return None;
        }
        self.last_adaptation = now;
        Some(since)
    }

    /// The last adaptations, the newest first.
    pub fn get_adaptation_history(&self, limit: usize) -> (v: Vec<&AdaptationRecord>)
        ensures
            v@.len() == smaller(limit as int, self.adaptation_history@.len() as int),
            forall|i: int|
                0 <= i < v@.len() ==> *(#[trigger] v@[i])
                    == self.adaptation_history@[self.adaptation_history@.len() - 1 - i],
    {
        let mut v: Vec<&AdaptationRecord> = Vec::new();
        let n: usize = self.adaptation_history.len();
        let mut i: usize = 0;
        while i < n && i < limit
            invariant
                n == self.adaptation_history@.len(),
                i <= n,
                i <= limit,
                v@.len() == i,
                forall|k: int|
                    0 <= k < i ==> *(#[trigger] v@[k]) == self.adaptation_history@[n - 1 - k],
            decreases n - i,
        {
            v.push(&self.adaptation_history[n - 1 - i]);
            i += 1;
        }
        v
    }

    /// Stops the controller.
    pub fn stop(&mut self)
        ensures
            *final(self) == (AdaptiveSystemController { is_running: false, ..*old(self) }),
    {
        self.is_running = false;
    }
}

/// The quotas are reconsidered for the first of these that holds: of the urgent
/// requests more than one in twenty was refused, of the normal ones more than
/// one in ten, of the others more than one in five; or they waited on average
/// more than a hundred, two hundred or five hundred milliseconds, in that order.
pub proof fn quotas_follow_refusals_and_waits(s: QosStatistics, waits: MeanWaits)
    ensures
        ({
            let high = s.high.requests > 0 && 20 * s.high.rejected > s.high.requests;
            let normal = s.normal.requests > 0 && 10 * s.normal.rejected > s.normal.requests;
            let low = s.low.requests > 0 && 5 * s.low.rejected > s.low.requests;
            let t = qos_trigger(s, waits);
            &&& t == Some(QosTrigger::HighRejection) <==> high
            &&& t == Some(QosTrigger::NormalRejection) <==> !high && normal
            &&& t == Some(QosTrigger::LowRejection) <==> !high && !normal && low
            &&& t == Some(QosTrigger::HighWait) <==> !high && !normal && !low
                && waits.high.at_most > 100_000
            &&& t == Some(QosTrigger::NormalWait) <==> !high && !normal && !low
                && waits.high.at_most <= 100_000 && waits.normal.at_most > 200_000
            &&& t == Some(QosTrigger::LowWait) <==> !high && !normal && !low && waits.high.at_most
                <= 100_000 && waits.normal.at_most <= 200_000 && waits.low.at_most > 500_000
        }),
{
}

/// How the chance of stealing follows the balance of the queues: where they are
/// out of balance by more than three tenths it rises by a twentieth, to at most
/// a half; where by less than a tenth, and the chance is above a tenth, it falls
/// by a fiftieth, to no less than a twentieth; else it stays.
pub proof fn stealing_follows_the_imbalance(p_steal: u64, imbalance: Measure)
    requires
        imbalance.wf(),
    ensures
        ({
            let p = adapted_steal_probability(p_steal, imbalance);
            &&& imbalance.at_most > 300 && p_steal <= 4500 ==> p == p_steal + 500
            &&& imbalance.at_most > 300 && p_steal > 4500 ==> p == 5000
            &&& imbalance.at_least < 100 && p_steal > 1000 ==> p == p_steal - 200
            &&& imbalance.at_least < 100 && p_steal <= 1000 ==> p == p_steal
            &&& imbalance.at_least >= 100 && imbalance.at_most <= 300 ==> p == p_steal
        }),
{
}

/// An open breaker is tried again once its delay has passed since the last
/// failure, and then is half open; before that, and in any other state, it
/// stays as it is.
pub proof fn open_breakers_are_retried(core: BreakerCore, now: u64)
    requires
        core.last_failure is Some,
        core.counters_fit(),
    ensures
        core.state != CircuitState::Open ==> retried(core, now) == core,
        core.state == CircuitState::Open && core.recovery.current_delay > 0 && now
            < core.last_failure->0 + core.recovery.current_delay ==> retried(core, now) == core,
        core.state == CircuitState::Open && now >= core.last_failure->0
            + core.recovery.current_delay ==> retried(core, now).state == CircuitState::HalfOpen,
{
}

/// What a proposal changes of the settings for transfers: the read timeout only
/// where it adapts and is more than a tenth of a second off, the batch size only
/// where it adapts, and nothing else but the flush interval. Each change is put
/// on record, after what was on record before.
pub proof fn transfers_follow_the_proposal(
    config: BatchConfig,
    p: TransferProposal,
    history: Seq<AdaptationRecord>,
    now: u64,
)
    ensures
        ({
            let after = transfer_config(config, p);
            let off = p.read_timeout > config.read_timeout + 100_000_000 || config.read_timeout
                > p.read_timeout + 100_000_000;
            let records = transfer_history(history, config, p, now);
            &&& after.read_timeout == if config.adaptive_read_timeout && off {
                p.read_timeout
            } else {
                config.read_timeout
            }
            &&& after.batch_size == if config.enable_adaptive_batching {
                p.batch_size
            } else {
                config.batch_size
            }
            &&& after == (BatchConfig {
                read_timeout: after.read_timeout,
                flush_interval: after.flush_interval,
                batch_size: after.batch_size,
                ..config
            })
            &&& records.len() == history.len() + (if after.read_timeout != config.read_timeout {
                1int
            } else {
                0
            }) + (if after.flush_interval != config.flush_interval {
                1int
            } else {
                0
            }) + (if after.batch_size != config.batch_size {
                1int
            } else {
                0
            })
            &&& records.take(history.len() as int) == history
            &&& after.batch_size != config.batch_size ==> records.last().old_value
                == config.batch_size as u64 && records.last().new_value == after.batch_size as u64
        }),
{
    assert(transfer_history(history, config, p, now).take(history.len() as int) =~= history);
}

} // verus!
