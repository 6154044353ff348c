//! What the system does when it is told to.

use vstd::prelude::*;
use vstd::string::*;

use crate::bounds::{clamped, minus, smaller};
use crate::circuit_breaker::{CircuitBreakerStats, CircuitState};
use crate::dash::count_of;
use crate::integration::controller::AdaptiveSystemController;
use crate::integration::events::{
    ConnectionInfo, MemoryUsage, SystemCommand, SystemEvent, SystemStatistics,
};
use crate::integration::scaling::{
    ScalingDecision, ScalingNeeds, ScalingSettings, WorkerPool, check_scaling_needs, needs_of,
    perform_auto_scaling, resettled, scale_down, scale_up, scaling_decision,
    update_scaling_settings, wanted_decrease, wanted_increase,
};
use crate::integration::system::IntegratedBatchSystem;
use crate::io::reader::{BatchReader, ConnectionReader};
use crate::io::writer::{
    BatchWriter, WriteGatherer, WriterStats, deactivated, serves_address, serves_session,
};
use crate::measure::Measure;
use crate::optimized::buffer_pool::{OptimizedBufferPool, pooled_capacity};
use crate::optimized::crypto_processor::OptimizedCryptoProcessor;
use crate::optimized::size_class::SIZE_CLASSES;
use crate::optimized::work_stealing_dispatcher::{
    DispatcherAdvancedStats, WorkStealingDispatcher, WorkStealingModel, WorkStealingResult,
};
use crate::qos_manager::QosStatistics;
use crate::ratio::Ratio;
use crate::store::NumberedStore;
use crate::text::{digits_part, is_number, number_of, parse_number, str_equal};
use crate::types::error::BatchError;

verus! {

/// What a change of the configuration came to.
#[derive(Debug, Clone, Copy, PartialEq, Eq, Structural)]
pub enum ConfigChange {
    /// The batch size is now this.
    BatchSize(usize),
    /// So many workers were added.
    WorkersAdded(usize),
    /// So many workers were removed.
    WorkersRemoved(usize),
    /// The target latency is noted, in milliseconds.
    TargetLatency(u64),
    /// Nothing changed: the parameter is not known, or its value is not
    /// acceptable.
    Nothing,
}

/// The number that a text writes, if it is at most `max`.
pub open spec fn number_in(value: Seq<char>, max: int) -> Option<int> {
    if is_number(value) && number_of(digits_part(value)) <= max {
        Some(number_of(digits_part(value)) as int)
    } else {
        None
    }
}

/// The state of the system in short.
#[derive(Debug)]
pub struct SystemStatus {
    pub timestamp: u64,
    pub is_running: bool,
    pub statistics: SystemStatistics,
    pub active_connections: usize,
    pub active_workers: usize,
    pub pending_tasks: usize,
    pub memory_usage: MemoryUsage,
    pub scaling_settings: ScalingSettings,
    pub batch_size: usize,
    pub qos_stats: QosStatistics,
    pub circuit_stats: Vec<CircuitBreakerStats>,
    pub dispatcher_stats: DispatcherAdvancedStats,
}

/// The whole mebibytes of a number of bytes, in bytes.
pub open spec fn in_mebibytes(bytes: usize) -> nat {
    (bytes / 1_048_576 * 1_048_576) as nat
}

/// The memory that a pool reports for its first `n` classes and for all of them
/// together, each in whole mebibytes.
pub open spec fn reported_memory(pool: OptimizedBufferPool, n: int) -> nat
    decreases n,
{
    if n <= 0 {
        in_mebibytes(pool.global.current_memory_usage)
    } else {
        reported_memory(pool, n - 1) + in_mebibytes(pool.stats@[n - 1].memory_usage)
    }
}

proof fn reported_memory_grows(pool: OptimizedBufferPool, i: int, j: int)
    requires
        0 <= i <= j,
    ensures
        reported_memory(pool, i) <= reported_memory(pool, j),
    decreases j,
{
    if i < j {
        reported_memory_grows(pool, i, j - 1);
    }
}

fn memory_of(pool: &OptimizedBufferPool) -> (n: usize)
    requires
        reported_memory(*pool, pool.stats@.len() as int) <= usize::MAX,
    ensures
        n == reported_memory(*pool, pool.stats@.len() as int),
{
    let mut n: usize = pool.global.current_memory_usage / 1_048_576 * 1_048_576;
    let mut i: usize = 0;
    while i < pool.stats.len()
        invariant
            i <= pool.stats@.len(),
            n == reported_memory(*pool, i as int),
            reported_memory(*pool, pool.stats@.len() as int) <= usize::MAX,
        decreases pool.stats@.len() - i,
    {
        proof {
            reported_memory_grows(*pool, i as int + 1, pool.stats@.len() as int);
        }
        n = n + pool.stats[i].memory_usage / 1_048_576 * 1_048_576;
        i += 1;
    }
    n
}

/// Whether the pool is what a forced cleanup leaves of it.
pub open spec fn is_cleaned_pool(
    before: OptimizedBufferPool,
    after: OptimizedBufferPool,
    now: u64,
) -> bool {
    exists|mid: OptimizedBufferPool| #[trigger]
        before.cleaned_up(mid, before.forced_age(), now) && mid.refreshed(after, now)
}

/// Whether a pool can be cleaned up.
pub open spec fn is_cleanable(pool: OptimizedBufferPool) -> bool {
    pooled_capacity(pool.pools@, SIZE_CLASSES as int) <= usize::MAX && pool.sums_fit()
}

/// A dispatcher whose workers steal more often.
pub open spec fn rebalanced(d: WorkStealingDispatcher) -> WorkStealingDispatcher {
    WorkStealingDispatcher {
        stealing_model: WorkStealingModel {
            p_steal: smaller(d.stealing_model.p_steal + 1000, 5000) as u64,
            ..d.stealing_model
        },
        ..d
    }
}

impl<V: Copy> IntegratedBatchSystem<V> {
    /// Whether dispatcher, crypto processor, reader and writer are those of
    /// `before`, stopped and with nothing left to do.
    pub open spec fn components_stopped(self, before: Self) -> bool {
        &&& self.work_stealing_dispatcher == (WorkStealingDispatcher {
            worker_queues: self.work_stealing_dispatcher.worker_queues,
            worker_loads: self.work_stealing_dispatcher.worker_loads,
            results: self.work_stealing_dispatcher.results,
            stats: self.work_stealing_dispatcher.stats,
            latency_histogram: self.work_stealing_dispatcher.latency_histogram,
            is_running: false,
            ..before.work_stealing_dispatcher
        })
        &&& self.work_stealing_dispatcher.backlog() == 0
        &&& self.work_stealing_dispatcher.worker_loads@.len() == 0
        &&& self.work_stealing_dispatcher.results.map() == Map::<u64, WorkStealingResult>::empty()
        &&& self.work_stealing_dispatcher.stats@ == Map::<Seq<char>, u64>::empty()
        &&& self.work_stealing_dispatcher.latency_histogram@ == Map::<u64, u64>::empty()
        &&& self.crypto_processor == (OptimizedCryptoProcessor {
            is_running: false,
            chacha_batch_buffer: self.crypto_processor.chacha_batch_buffer,
            blake_batch_buffer: self.crypto_processor.blake_batch_buffer,
            derive_batch_buffer: self.crypto_processor.derive_batch_buffer,
            ..before.crypto_processor
        })
        &&& self.crypto_processor.chacha_batch_buffer@.len() == 0
        &&& self.crypto_processor.blake_batch_buffer@.len() == 0
        &&& self.crypto_processor.derive_batch_buffer@.len() == 0
        &&& self.reader == (BatchReader { is_running: false, ..before.reader })
        &&& self.writer == (BatchWriter {
            connections: self.writer.connections,
            is_running: false,
            ..before.writer
        })
        &&& self.writer.connections@.len() == before.writer.connections@.len()
        &&& forall|i: int|
            0 <= i < before.writer.connections@.len() ==> #[trigger] self.writer.connections@[i]
                == deactivated(before.writer.connections@[i])
    }

    /// Whether the system is what is left of `before` once it is stopped.
    pub open spec fn is_stopped(self, before: Self) -> bool {
        &&& self == (IntegratedBatchSystem {
            is_running: false,
            controller: self.controller,
            work_stealing_dispatcher: self.work_stealing_dispatcher,
            crypto_processor: self.crypto_processor,
            reader: self.reader,
            writer: self.writer,
            ..before
        })
        &&& self.controller == (AdaptiveSystemController { is_running: false, ..before.controller })
        &&& self.components_stopped(before)
    }

    /// Starts processing.
    pub fn start_processing(&mut self)
        ensures
            *final(self) == (IntegratedBatchSystem { is_running: true, ..*old(self) }),
    {
        if !self.is_running {
            self.is_running = true;
        }
    }

    /// Pauses processing.
    pub fn pause_processing(&mut self)
        ensures
            *final(self) == (IntegratedBatchSystem { is_running: false, ..*old(self) }),
    {
        if self.is_running {
            self.is_running = false;
        }
    }

    /// Resumes processing.
    pub fn resume_processing(&mut self)
        ensures
            *final(self) == (IntegratedBatchSystem { is_running: true, ..*old(self) }),
    {
        self.start_processing();
    }

    /// Stops processing, the controller and all components.
    pub fn stop_processing(&mut self)
        requires
            old(self).wf(),
        ensures
            final(self).wf(),
            final(self).is_stopped(*old(self)),
            !final(self).is_running && !final(self).controller.is_running,
            !final(self).work_stealing_dispatcher.is_running
                && !final(self).crypto_processor.is_running,
            !final(self).reader.is_running && !final(self).writer.is_running,
            final(self).crypto_processor.chacha_batch_buffer@.len() == 0,
            final(self).crypto_processor.blake_batch_buffer@.len() == 0,
            final(self).crypto_processor.derive_batch_buffer@.len() == 0,
            final(self).stats == old(self).stats,
            final(self).buffer_pool == old(self).buffer_pool,
            final(self).session_cache == old(self).session_cache,
            final(self).pending_batches == old(self).pending_batches,
    {
        self.is_running = false;
        self.controller.stop();
        self.shutdown_components();
    }

    fn shutdown_components(&mut self)
        requires
            old(self).wf(),
        ensures
            final(self).wf(),
            *final(self) == (IntegratedBatchSystem {
                work_stealing_dispatcher: final(self).work_stealing_dispatcher,
                crypto_processor: final(self).crypto_processor,
                reader: final(self).reader,
                writer: final(self).writer,
                ..*old(self)
            }),
            final(self).components_stopped(*old(self)),
    {
        self.work_stealing_dispatcher.shutdown();
        self.crypto_processor.shutdown();
        self.reader.shutdown();
        self.writer.shutdown();
    }

    /// Stops everything at once. The name under which that is measured.
    pub fn emergency_shutdown(&mut self) -> (name: &'static str)
        requires
            old(self).wf(),
        ensures
            final(self).wf(),
            final(self).is_stopped(*old(self)),
            name@ == "system.emergency_shutdown"@,
    {
        self.stop_processing();
        "system.emergency_shutdown"
    }

    /// Cleans up the buffers and forgets the sessions.
    pub fn flush_buffers(&mut self, now: u64)
        requires
            old(self).wf(),
            is_cleanable(old(self).buffer_pool),
        ensures
            final(self).wf(),
            *final(self) == (IntegratedBatchSystem {
                buffer_pool: final(self).buffer_pool,
                session_cache: final(self).session_cache,
                ..*old(self)
            }),
            is_cleaned_pool(old(self).buffer_pool, final(self).buffer_pool, now),
            final(self).session_cache.entries@.len() == 0,
    {
        self.buffer_pool.force_cleanup(now);
        self.session_cache.clear();
    }

    /// Forgets sessions, connections, metrics and batches that wait.
    pub fn clear_caches(&mut self)
        requires
            old(self).wf(),
        ensures
            final(self).wf(),
            *final(self) == (IntegratedBatchSystem {
                session_cache: final(self).session_cache,
                active_connections: final(self).active_connections,
                metrics: final(self).metrics,
                pending_batches: final(self).pending_batches,
                ..*old(self)
            }),
            final(self).session_cache.entries@.len() == 0,
            final(self).active_connections.map() == Map::<u64, ConnectionInfo>::empty(),
            forall|name: Seq<char>| #[trigger]
                final(self).metrics.metrics.lookup(name) is None,
            forall|name: Seq<char>| #[trigger]
                final(self).metrics.performance_counters.lookup(name) is None,
            final(self).pending_batches@.len() == 0,
    {
        self.session_cache.clear();
        self.active_connections = NumberedStore::new();
        self.metrics.clear();
        self.pending_batches.clear();
    }

    /// Changes a parameter: `batch_size`, within the limits; `worker_count`,
    /// within the settings; `target_latency_ms`, which is only noted.
    pub fn adjust_config(
        &mut self,
        parameter: &str,
        value: &str,
        optimal: usize,
        now: u64,
    ) -> (c: ConfigChange)
        requires
            old(self).wf(),
        ensures
            final(self).wf(),
            is_adjusted(*old(self), parameter@, value@, optimal, now, c, *final(self)),
            number_in(value@, usize::MAX as int) matches Some(n) ==> {
                let (low, high) = (
                    old(self).adaptive_batcher.config.min_batch_size,
                    old(self).adaptive_batcher.config.max_batch_size,
                );
                let later = final(self).adaptive_batcher.current_batch_size;
                parameter@ == "batch_size"@ && low <= high ==> {
                    &&& low <= later <= high
                    &&& low <= n <= high ==> later == n
                    &&& n < low ==> later == low
                    &&& n > high ==> later == high
                }
            },
            parameter@ != "batch_size"@ ==> final(self).adaptive_batcher
                == old(self).adaptive_batcher,
            parameter@ != "worker_count"@ ==> final(self).worker_pool == old(self).worker_pool,
            final(self).is_running == old(self).is_running,
            final(self).stats == old(self).stats,
    {
        proof {
            reveal_strlit("batch_size");
            reveal_strlit("worker_count");
            reveal_strlit("target_latency_ms");
            assert("batch_size"@.len() == 10);
            assert("worker_count"@.len() == 12);
            assert("target_latency_ms"@.len() == 17);
        }
        if str_equal(parameter, "batch_size") {
            if let Some(size) = parse_number(value, usize::MAX as u64) {
                let b: usize = self.adaptive_batcher.optimal_batch_size(size as usize);
                self.adaptive_batcher.current_batch_size = b;
                return ConfigChange::BatchSize(b);
            }
        } else if str_equal(parameter, "worker_count") {
            if let Some(count) = parse_number(value, usize::MAX as u64) {
                let count: usize = count as usize;
                let current: usize = self.worker_pool.current_workers;
                if count > current {
                    if count <= self.scaling_settings.max_worker_count {
                        let added: usize = scale_up(
                            &mut self.worker_pool,
                            &mut self.scaling_settings,
                            count - current,
                            optimal,
                            now,
                        );
                        return ConfigChange::WorkersAdded(added);
                    }
                } else if count < current {
                    if count >= self.scaling_settings.min_worker_count {
                        let removed: usize = scale_down(
                            &mut self.worker_pool,
                            &mut self.scaling_settings,
                            current - count,
                            optimal,
                            now,
                        );
                        return ConfigChange::WorkersRemoved(removed);
                    }
                }
            }
        } else if str_equal(parameter, "target_latency_ms") {
            if let Some(ms) = parse_number(value, u64::MAX) {
                return ConfigChange::TargetLatency(ms);
            }
        }
        ConfigChange::Nothing
    }

    /// Whether the system is what is left of `before` once there are so many
    /// workers; `noted` says whether the time of that is taken down.
    pub open spec fn has_scaled(self, before: Self, workers: int, noted: bool, now: u64) -> bool {
        self == (IntegratedBatchSystem {
            worker_pool: WorkerPool { current_workers: workers as usize, ..before.worker_pool },
            scaling_settings: if noted {
                ScalingSettings { last_scaling_time: now, ..before.scaling_settings }
            } else {
                before.scaling_settings
            },
            ..before
        })
    }

    /// Forgets counters and metrics.
    pub fn reset_statistics(&mut self)
        requires
            old(self).wf(),
        ensures
            final(self).wf(),
            *final(self) == (IntegratedBatchSystem {
                stats: SystemStatistics::since(old(self).stats.startup_time),
                metrics: final(self).metrics,
                ..*old(self)
            }),
            forall|name: Seq<char>| #[trigger]
                final(self).metrics.metrics.lookup(name) is None,
            forall|name: Seq<char>| #[trigger]
                final(self).metrics.performance_counters.lookup(name) is None,
    {
        self.stats = SystemStatistics::starting(self.stats.startup_time);
        self.metrics.clear();
    }

    /// Has workers steal more often: one task in ten more, up to one in two.
    pub fn rebalance_workers(&mut self)
        requires
            old(self).wf(),
            old(self).work_stealing_dispatcher.stealing_model.p_steal + 1000 <= u64::MAX,
        ensures
            final(self).wf(),
            *final(self) == (IntegratedBatchSystem {
                work_stealing_dispatcher: rebalanced(old(self).work_stealing_dispatcher),
                ..*old(self)
            }),
            ({
                let (was, later) = (
                    old(self).work_stealing_dispatcher.stealing_model,
                    final(self).work_stealing_dispatcher.stealing_model,
                );
                &&& was.p_steal <= 4000 ==> later.p_steal == was.p_steal + 1000
                &&& was.p_steal > 4000 ==> later.p_steal == 5000
                &&& final(self).work_stealing_dispatcher.worker_queues
                    == old(self).work_stealing_dispatcher.worker_queues
            }),
    {
        let p: u64 = self.work_stealing_dispatcher.stealing_model.p_steal + 1000;
        self.work_stealing_dispatcher.stealing_model.p_steal = if p < 5000 {
            p
        } else {
            5000
        };
    }

    /// Adds workers.
    pub fn scale_up(&mut self, count: usize, optimal: usize, now: u64) -> (added: usize)
        requires
            old(self).wf(),
        ensures
            final(self).wf(),
            ({
                let current = old(self).worker_pool.current_workers as int;
                let wanted = wanted_increase(
                    current,
                    old(self).scaling_settings,
                    count as int,
                    optimal as int,
                );
                &&& added == smaller(wanted, old(self).worker_pool.max_workers - current)
                &&& final(self).has_scaled(*old(self), current + added, wanted > 0, now)
            }),
    {
        scale_up(&mut self.worker_pool, &mut self.scaling_settings, count, optimal, now)
    }

    /// Removes workers.
    pub fn scale_down(&mut self, count: usize, optimal: usize, now: u64) -> (removed: usize)
        requires
            old(self).wf(),
        ensures
            final(self).wf(),
            ({
                let current = old(self).worker_pool.current_workers as int;
                let wanted = wanted_decrease(
                    current,
                    old(self).scaling_settings,
                    count as int,
                    optimal as int,
                );
                &&& removed == smaller(wanted, current - old(self).worker_pool.min_workers)
                &&& final(self).has_scaled(*old(self), current - removed, wanted > 0, now)
            }),
    {
        scale_down(&mut self.worker_pool, &mut self.scaling_settings, count, optimal, now)
    }

    /// Acts on the state of the system: cleans up buffers, restarts the crypto
    /// processor's breaker, rebalances and adds workers, each where it is
    /// called for.
    pub fn check_scaling_needs(
        &mut self,
        hit_rate: Ratio,
        crypto_success: Option<Ratio>,
        imbalance: Measure,
        optimal: usize,
        now: u64,
    ) -> (needs: ScalingNeeds)
        requires
            old(self).wf(),
            is_cleanable(old(self).buffer_pool),
            old(self).work_stealing_dispatcher.stealing_model.p_steal + 1000 <= u64::MAX,
            old(self).scaling_settings.buffer_pool_target_hit_rate * 8 <= u64::MAX,
            old(self).scaling_settings.crypto_processor_target_success_rate * 9 <= u64::MAX,
            old(self).circuit_breaker_manager.core_of("crypto_processor"@) matches Some(c)
                ==> c.closed_count < u64::MAX,
        ensures
            final(self).wf(),
            needs == needs_of(
                old(self).scaling_settings,
                hit_rate,
                crypto_success,
                imbalance,
                old(self).active_connections.map().len() as usize,
                old(self).worker_pool.current_workers,
            ),
            *final(self) == (IntegratedBatchSystem {
                buffer_pool: final(self).buffer_pool,
                circuit_breaker_manager: final(self).circuit_breaker_manager,
                work_stealing_dispatcher: final(self).work_stealing_dispatcher,
                worker_pool: final(self).worker_pool,
                scaling_settings: final(self).scaling_settings,
                ..*old(self)
            }),
            if needs.clean_buffers {
                is_cleaned_pool(old(self).buffer_pool, final(self).buffer_pool, now)
            } else {
                final(self).buffer_pool == old(self).buffer_pool
            },
            match old(self).circuit_breaker_manager.core_of("crypto_processor"@) {
                Some(c) => if needs.reset_crypto_breaker {
                    final(self).circuit_breaker_manager.after_change(
                        old(self).circuit_breaker_manager,
                        "crypto_processor"@,
                        c.after_reset(now),
                    )
                } else {
                    final(self).circuit_breaker_manager == old(self).circuit_breaker_manager
                },
                None => final(self).circuit_breaker_manager == old(self).circuit_breaker_manager,
            },
            final(self).work_stealing_dispatcher == if needs.rebalance {
                rebalanced(old(self).work_stealing_dispatcher)
            } else {
                old(self).work_stealing_dispatcher
            },
            ({
                let pool = old(self).worker_pool;
                let current = pool.current_workers as int;
                let wanted = if needs.add_workers {
                    wanted_increase(current, old(self).scaling_settings, 2, optimal as int)
                } else {
                    0
                };
                &&& final(self).worker_pool == (WorkerPool {
                    current_workers: (current
                        + smaller(wanted, pool.max_workers - current)) as usize,
                    ..pool
                })
                &&& final(self).scaling_settings == if wanted > 0 {
                    ScalingSettings { last_scaling_time: now, ..old(self).scaling_settings }
                } else {
                    old(self).scaling_settings
                }
            }),
    {
        let connections: usize = self.active_connections.len();
        let needs: ScalingNeeds = check_scaling_needs(
            &self.scaling_settings,
            hit_rate,
            crypto_success,
            imbalance,
            connections,
            self.worker_pool.current_workers,
        );
        if needs.clean_buffers {
            self.buffer_pool.force_cleanup(now);
        }
        if needs.reset_crypto_breaker {
            if let Some(i) = self.circuit_breaker_manager.get_breaker("crypto_processor") {
                let ghost before = self.circuit_breaker_manager;
                self.circuit_breaker_manager.reset(i, now);
                proof {
                    self.circuit_breaker_manager.replaced_is_changed(
                        before,
                        i as int,
                        "crypto_processor"@,
                    );
                }
            }
        }
        if needs.rebalance {
            self.rebalance_workers();
        }
        if needs.add_workers {
            let _added: usize = self.scale_up(2, optimal, now);
        }
        needs
    }

    /// Adds or removes workers as the load calls for, if that is due.
    pub fn perform_auto_scaling(&mut self, optimal: usize, now: u64) -> (due: bool)
        requires
            old(self).wf(),
        ensures
            final(self).wf(),
            due == (old(self).scaling_settings.auto_scaling_enabled && minus(
                now as int,
                old(self).scaling_settings.last_scaling_time as int,
            ) >= old(self).scaling_settings.scaling_cooldown_seconds * 1_000_000_000),
            !due ==> *final(self) == *old(self),
            due ==> ({
                let pool = old(self).worker_pool;
                let settings = old(self).scaling_settings;
                let current = pool.current_workers as int;
                match scaling_decision(
                    settings,
                    pool.current_workers,
                    optimal,
                    old(self).work_stealing_dispatcher.backlog() as u128,
                    old(self).work_stealing_dispatcher.stealing_model.imbalance,
                ) {
                    ScalingDecision::Up { count } => {
                        let wanted = wanted_increase(
                            current,
                            settings,
                            count as int,
                            optimal as int,
                        );
                        final(self).has_scaled(
                            *old(self),
                            current + smaller(wanted, pool.max_workers - current),
                            wanted > 0,
                            now,
                        )
                    },
                    ScalingDecision::Down { count } => {
                        let wanted = wanted_decrease(
                            current,
                            settings,
                            count as int,
                            optimal as int,
                        );
                        final(self).has_scaled(
                            *old(self),
                            current - smaller(wanted, current - pool.min_workers),
                            wanted > 0,
                            now,
                        )
                    },
                    ScalingDecision::Stay => *final(self) == *old(self),
                }
            }),
    {
        if !self.scaling_settings.auto_scaling_due(now) {
            return false;
        }
        let backlog: u128 = self.work_stealing_dispatcher.queue_backlog();
        let imbalance: Measure = self.work_stealing_dispatcher.stealing_model.imbalance;
        perform_auto_scaling(
            &mut self.worker_pool,
            &mut self.scaling_settings,
            optimal,
            backlog,
            imbalance,
            now,
        );
        true
    }

    /// Takes over new settings.
    pub fn update_scaling_settings(&mut self, settings: ScalingSettings, optimal: usize, now: u64)
        requires
            old(self).wf(),
        ensures
            final(self).wf(),
            *final(self) == (IntegratedBatchSystem {
                scaling_settings: settings.corrected(),
                worker_pool: resettled(
                    old(self).worker_pool,
                    old(self).scaling_settings,
                    settings,
                    optimal,
                ),
                ..*old(self)
            }),
    {
        update_scaling_settings(
            &mut self.worker_pool,
            &mut self.scaling_settings,
            settings,
            optimal,
            now,
        );
    }

    /// Brings the time since the start up to date.
    pub fn collect_statistics(&mut self, now: u64)
        requires
            old(self).wf(),
        ensures
            final(self).wf(),
            *final(self) == (IntegratedBatchSystem {
                stats: SystemStatistics {
                    uptime: minus(now as int, old(self).stats.startup_time as int) as u64,
                    ..old(self).stats
                },
                ..*old(self)
            }),
    {
        self.stats.uptime = now.saturating_sub(self.stats.startup_time);
    }

    /// Takes over what dispatcher and buffer pool have counted.
    pub fn update_performance_counters(&mut self)
        requires
            old(self).wf(),
        ensures
            final(self).wf(),
            *final(self) == (IntegratedBatchSystem {
                stats: SystemStatistics {
                    work_stealing_count: count_of(
                        old(self).work_stealing_dispatcher.stats@,
                        "work_steals"@,
                    ),
                    buffer_hit_rate: old(self).buffer_pool.global.current_hit_rate,
                    ..old(self).stats
                },
                ..*old(self)
            }),
    {
        self.stats.work_stealing_count = self.work_stealing_dispatcher.stats.value("work_steals");
        self.stats.buffer_hit_rate = self.buffer_pool.global.current_hit_rate;
    }

    /// Takes on a connection, unless nobody listens for the reader any more.
    pub fn register_connection(
        &mut self,
        source_addr: u64,
        session_id: &[u8],
        channel_closed: bool,
        now: u64,
    ) -> (r: Result<(ConnectionReader, WriteGatherer, SystemEvent), BatchError>)
        requires
            old(self).wf(),
            old(self).reader.connection_count < usize::MAX,
            old(self).writer.connection_count < usize::MAX,
        ensures
            final(self).wf(),
            r is Err <==> channel_closed,
            r matches Err(e) ==> *final(self) == *old(self) && (e matches
                BatchError::ConnectionError(s) && s@ == "Event channel closed"@),
            r matches Ok((reader, gatherer, event)) ==> {
                &&& *final(self) == (IntegratedBatchSystem {
                    reader: final(self).reader,
                    writer: final(self).writer,
                    ..*old(self)
                })
                &&& final(self).reader == (BatchReader {
                    connection_count: (old(self).reader.connection_count + 1) as usize,
                    ..old(self).reader
                })
                &&& final(self).writer == (BatchWriter {
                    connections: final(self).writer.connections,
                    connection_count: (old(self).writer.connection_count + 1) as usize,
                    stats: WriterStats {
                        connection_count: (old(self).writer.connection_count + 1) as usize,
                        ..old(self).writer.stats
                    },
                    ..old(self).writer
                })
                &&& final(self).writer.connections@.drop_last() == old(self).writer.connections@
                &&& final(self).writer.connections@.len() == old(self).writer.connections@.len() + 1
                &&& serves_session(final(self).writer.connections@.last(), session_id@)
                &&& serves_address(final(self).writer.connections@.last(), source_addr)
                &&& final(self).writer.connections@.last().last_write_time == now
                &&& final(self).writer.connections@.last().bytes_written == 0
                &&& final(self).writer.connections@.last().packets_written == 0
                &&& gatherer.last_flush == now
                &&& reader.source_addr == source_addr
                &&& reader.session_id@ == session_id@
                &&& reader.consecutive_errors == 0
                &&& gatherer.destination_addr == source_addr
                &&& gatherer.pending@.len() == 0
                &&& event matches SystemEvent::ConnectionOpened { addr, session_id: s } && addr
                    == source_addr && s@ == session_id@
            },
    {
        match self.reader.register_connection(
            source_addr,
            vstd::slice::slice_to_vec(session_id),
            channel_closed,
        ) {
            Err(e) => Err(e),
            Ok(reader) => {
                let gatherer: WriteGatherer = self.writer.register_connection(
                    source_addr,
                    vstd::slice::slice_to_vec(session_id),
                    now,
                );
                let event: SystemEvent = SystemEvent::ConnectionOpened {
                    addr: source_addr,
                    session_id: vstd::slice::slice_to_vec(session_id),
                };
                Ok((reader, gatherer, event))
            },
        }
    }

    /// The state of the dispatcher's breaker.
    pub open spec fn dispatcher_state(self) -> CircuitState {
        match self.circuit_breaker_manager.core_of("dispatcher"@) {
            Some(c) => c.state,
            None => CircuitState::Closed,
        }
    }

    /// The state of the system in short.
    pub fn get_system_status(&self, now: u64) -> (s: SystemStatus)
        requires
            self.wf(),
            reported_memory(self.buffer_pool, self.buffer_pool.stats@.len() as int) <= usize::MAX,
        ensures
            s.timestamp == now,
            s.is_running == self.is_running,
            s.statistics == self.stats,
            s.active_connections == self.active_connections.map().len(),
            s.active_workers == self.worker_pool.current_workers,
            s.pending_tasks == self.pending_batches@.len(),
            s.memory_usage == (MemoryUsage {
                total: 0,
                used: 0,
                free: 0,
                buffer_pool: reported_memory(
                    self.buffer_pool,
                    self.buffer_pool.stats@.len() as int,
                ) as usize,
                crypto_pool: 0,
                connections: self.active_connections.map().len() as usize,
                session_cache: self.session_cache.entries@.len() as usize,
            }),
            s.scaling_settings == self.scaling_settings,
            s.batch_size == self.adaptive_batcher.current_batch_size,
            s.qos_stats == self.qos_manager.statistics,
            s.circuit_stats@.len() == self.circuit_breaker_manager.all().len(),
            forall|i: int|
                0 <= i < s.circuit_stats@.len() ==> (#[trigger] s.circuit_stats@[i]).describes(
                    self.circuit_breaker_manager.all()[i],
                    now,
                ),
            self.work_stealing_dispatcher.is_told_by(
                s.dispatcher_stats,
                self.adaptive_batcher.current_batch_size,
                self.dispatcher_state(),
                now,
            ),
    {
        let connections: usize = self.active_connections.len();
        let state: CircuitState = match self.circuit_breaker_manager.get_breaker("dispatcher") {
            Some(i) => self.circuit_breaker_manager.breaker(i).get_state(),
            None => CircuitState::Closed,
        };
        SystemStatus {
            timestamp: now,
            is_running: self.is_running,
            statistics: self.stats,
            active_connections: connections,
            active_workers: self.worker_pool.current_workers,
            pending_tasks: self.pending_batches.len(),
            memory_usage: MemoryUsage {
                total: 0,
                used: 0,
                free: 0,
                buffer_pool: memory_of(&self.buffer_pool),
                crypto_pool: 0,
                connections,
                session_cache: self.session_cache.len(),
            },
            scaling_settings: self.scaling_settings,
            batch_size: self.adaptive_batcher.current_batch_size,
            qos_stats: self.qos_manager.get_statistics(),
            circuit_stats: self.circuit_breaker_manager.get_all_stats(now),
            dispatcher_stats: self.work_stealing_dispatcher.get_advanced_stats(
                self.adaptive_batcher.current_batch_size,
                state,
                now,
            ),
        }
    }
}

/// Whether `after` is what a change of a parameter makes of `before`:
/// `batch_size` within the limits; `worker_count` within the settings;
/// `target_latency_ms` is only noted. Anything else changes nothing.
pub open spec fn is_adjusted<V: Copy>(
    before: IntegratedBatchSystem<V>,
    parameter: Seq<char>,
    value: Seq<char>,
    optimal: usize,
    now: u64,
    c: ConfigChange,
    after: IntegratedBatchSystem<V>,
) -> bool {
    let batcher = before.adaptive_batcher;
    let current = before.worker_pool.current_workers as int;
    let settings = before.scaling_settings;
    let count = number_in(value, usize::MAX as int);
    if parameter == "batch_size"@ && count is Some {
        let b = clamped(
            count->0,
            batcher.config.min_batch_size as int,
            batcher.config.max_batch_size as int,
        ) as usize;
        &&& c == ConfigChange::BatchSize(b)
        &&& after == (IntegratedBatchSystem {
            adaptive_batcher: crate::adaptive_batcher::AdaptiveBatcher {
                current_batch_size: b,
                ..batcher
            },
            ..before
        })
    } else if parameter == "worker_count"@ && count is Some && current < count->0
        <= settings.max_worker_count {
        let wanted = wanted_increase(
            current,
            settings,
            count->0 - current,
            optimal as int,
        );
        let added = smaller(wanted, before.worker_pool.max_workers - current);
        &&& c == ConfigChange::WorkersAdded(added as usize)
        &&& after.has_scaled(before, current + added, wanted > 0, now)
    } else if parameter == "worker_count"@ && count is Some
        && settings.min_worker_count <= count->0 < current {
        let wanted = wanted_decrease(
            current,
            settings,
            current - count->0,
            optimal as int,
        );
        let removed = smaller(wanted, current - before.worker_pool.min_workers);
        &&& c == ConfigChange::WorkersRemoved(removed as usize)
        &&& after.has_scaled(before, current - removed, wanted > 0, now)
    } else {
        &&& after == before
        &&& c == if parameter == "target_latency_ms"@ && number_in(
            value,
            u64::MAX as int,
        ) is Some {
            ConfigChange::TargetLatency(
                number_in(value, u64::MAX as int)->0 as u64,
            )
        } else {
            ConfigChange::Nothing
        }
    }
}

/// What a command leads to besides its effect on the system.
#[derive(Debug)]
pub enum CommandReply {
    Done,
    Changed(ConfigChange),
    Scaled(usize),
    /// The statistics are to be shown.
    Statistics(SystemStatistics),
    /// The system is shut down, for this reason.
    ShutDown(String),
}

impl<V: Copy> IntegratedBatchSystem<V> {
    /// Whether a command can be followed.
    pub open spec fn can_follow(self, command: SystemCommand) -> bool {
        match command {
            SystemCommand::FlushBuffers => is_cleanable(self.buffer_pool),
            SystemCommand::RebalanceWorkers =>
                self.work_stealing_dispatcher.stealing_model.p_steal + 1000 <= u64::MAX,
            _ => true,
        }
    }

    /// Does what it is told.
    pub fn handle_command(
        &mut self,
        command: SystemCommand,
        optimal: usize,
        now: u64,
    ) -> (reply: CommandReply)
        requires
            old(self).wf(),
            old(self).can_follow(command),
        ensures
            final(self).wf(),
            ({
                let before = *old(self);
                let after = *final(self);
                let current = before.worker_pool.current_workers as int;
                match command {
                    SystemCommand::StartProcessing | SystemCommand::ResumeProcessing => {
                        &&& reply == CommandReply::Done
                        &&& after == (IntegratedBatchSystem { is_running: true, ..before })
                    },
                    SystemCommand::PauseProcessing => {
                        &&& reply == CommandReply::Done
                        &&& after == (IntegratedBatchSystem { is_running: false, ..before })
                    },
                    SystemCommand::StopProcessing => {
                        &&& reply == CommandReply::Done
                        &&& after.is_stopped(before)
                    },
                    SystemCommand::EmergencyShutdown { reason } => {
                        &&& reply == CommandReply::ShutDown(reason)
                        &&& after.is_stopped(before)
                    },
                    SystemCommand::FlushBuffers => {
                        &&& reply == CommandReply::Done
                        &&& is_cleaned_pool(before.buffer_pool, after.buffer_pool, now)
                        &&& after.session_cache.entries@.len() == 0
                        &&& after == (IntegratedBatchSystem {
                            buffer_pool: after.buffer_pool,
                            session_cache: after.session_cache,
                            ..before
                        })
                    },
                    SystemCommand::ClearCaches => {
                        &&& reply == CommandReply::Done
                        &&& after.session_cache.entries@.len() == 0
                        &&& after.active_connections.map() == Map::<u64, ConnectionInfo>::empty()
                        &&& after.pending_batches@.len() == 0
                        &&& forall|name: Seq<char>| #[trigger]
                            after.metrics.metrics.lookup(name) is None
                        &&& forall|name: Seq<char>| #[trigger]
                            after.metrics.performance_counters.lookup(name) is None
                        &&& after == (IntegratedBatchSystem {
                            session_cache: after.session_cache,
                            active_connections: after.active_connections,
                            metrics: after.metrics,
                            pending_batches: after.pending_batches,
                            ..before
                        })
                    },
                    SystemCommand::AdjustConfig { .. } => reply is Changed,
                    SystemCommand::GetStatistics => {
                        &&& reply == CommandReply::Statistics(before.stats)
                        &&& after == before
                    },
                    SystemCommand::ResetStatistics => {
                        &&& reply == CommandReply::Done
                        &&& forall|name: Seq<char>| #[trigger]
                            after.metrics.metrics.lookup(name) is None
                        &&& forall|name: Seq<char>| #[trigger]
                            after.metrics.performance_counters.lookup(name) is None
                        &&& after == (IntegratedBatchSystem {
                            stats: SystemStatistics::since(before.stats.startup_time),
                            metrics: after.metrics,
                            ..before
                        })
                    },
                    SystemCommand::RebalanceWorkers => {
                        &&& reply == CommandReply::Done
                        &&& after == (IntegratedBatchSystem {
                            work_stealing_dispatcher: rebalanced(before.work_stealing_dispatcher),
                            ..before
                        })
                    },
                    SystemCommand::ScaleUp { count } => {
                        let wanted = wanted_increase(
                            current,
                            before.scaling_settings,
                            count as int,
                            optimal as int,
                        );
                        let added = smaller(wanted, before.worker_pool.max_workers - current);
                        &&& reply == CommandReply::Scaled(added as usize)
                        &&& after.has_scaled(before, current + added, wanted > 0, now)
                    },
                    SystemCommand::ScaleDown { count } => {
                        let wanted = wanted_decrease(
                            current,
                            before.scaling_settings,
                            count as int,
                            optimal as int,
                        );
                        let removed = smaller(wanted, current - before.worker_pool.min_workers);
                        &&& reply == CommandReply::Scaled(removed as usize)
                        &&& after.has_scaled(before, current - removed, wanted > 0, now)
                    },
                    SystemCommand::UpdateScalingSettings { settings } => {
                        &&& reply == CommandReply::Done
                        &&& after == (IntegratedBatchSystem {
                            scaling_settings: settings.corrected(),
                            worker_pool: resettled(
                                before.worker_pool,
                                before.scaling_settings,
                                settings,
                                optimal,
                            ),
                            ..before
                        })
                    },
                }
            }),
            command matches SystemCommand::AdjustConfig { parameter, value } ==> is_adjusted(
                *old(self),
                parameter@,
                value@,
                optimal,
                now,
                reply->Changed_0,
                *final(self),
            ),
    {
        match command {
            SystemCommand::StartProcessing => {
                self.start_processing();
                CommandReply::Done
            },
            SystemCommand::PauseProcessing => {
                self.pause_processing();
                CommandReply::Done
            },
            SystemCommand::ResumeProcessing => {
                self.resume_processing();
                CommandReply::Done
            },
            SystemCommand::StopProcessing => {
                self.stop_processing();
                CommandReply::Done
            },
            SystemCommand::FlushBuffers => {
                self.flush_buffers(now);
                CommandReply::Done
            },
            SystemCommand::ClearCaches => {
                self.clear_caches();
                CommandReply::Done
            },
            SystemCommand::AdjustConfig { parameter, value } => {
                let change: ConfigChange = self.adjust_config(
                    parameter.as_str(),
                    value.as_str(),
                    optimal,
                    now,
                );
                CommandReply::Changed(change)
            },
            SystemCommand::EmergencyShutdown { reason } => {
                let _name: &'static str = self.emergency_shutdown();
                CommandReply::ShutDown(reason)
            },
            SystemCommand::GetStatistics => CommandReply::Statistics(self.stats),
            SystemCommand::ResetStatistics => {
                self.reset_statistics();
                CommandReply::Done
            },
            SystemCommand::RebalanceWorkers => {
                self.rebalance_workers();
                CommandReply::Done
            },
            SystemCommand::ScaleUp { count } => {
                let added: usize = self.scale_up(count, optimal, now);
                CommandReply::Scaled(added)
            },
            SystemCommand::ScaleDown { count } => {
                let removed: usize = self.scale_down(count, optimal, now);
                CommandReply::Scaled(removed)
            },
            SystemCommand::UpdateScalingSettings { settings } => {
                self.update_scaling_settings(settings, optimal, now);
                CommandReply::Done
            },
        }
    }
}

/// The memory of the buffer pool is told in whole mebibytes, rounded down, for
/// the pool as a whole and for each class, and added up.
pub proof fn memory_is_told_in_mebibytes(pool: OptimizedBufferPool, n: int)
    requires
        0 <= n <= pool.stats@.len(),
    ensures
        reported_memory(pool, n) % 1_048_576 == 0,
        n == 0 ==> reported_memory(pool, n) <= pool.global.current_memory_usage
            < reported_memory(pool, n) + 1_048_576,
        n > 0 ==> {
            let more = reported_memory(pool, n) - reported_memory(pool, n - 1);
            more <= pool.stats@[n - 1].memory_usage < more + 1_048_576
        },
    decreases n,
{
    if n > 0 {
        memory_is_told_in_mebibytes(pool, n - 1);
    }
}

} // verus!
