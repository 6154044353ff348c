//! How many workers there are, and when that changes.

use vstd::prelude::*;

use crate::bounds::{greater, max_usize, min_usize, minus, smaller};
use crate::measure::Measure;
use crate::ratio::Ratio;

verus! {

/// The fewest workers.
pub const MIN_WORKERS: usize = 4;

/// The most workers.
pub const MAX_WORKERS: usize = 256;

/// The most workers that one decision adds or removes.
pub const SCALING_STEP: usize = 2;

/// Targets and limits of scaling. Rates are thousandths.
#[derive(Debug, Clone, Copy, PartialEq, Eq, Structural)]
pub struct ScalingSettings {
    pub buffer_pool_target_hit_rate: u64,
    pub crypto_processor_target_success_rate: u64,
    pub work_stealing_target_queue_size: usize,
    pub connection_target_count: usize,
    pub min_worker_count: usize,
    pub max_worker_count: usize,
    pub auto_scaling_enabled: bool,
    pub scaling_cooldown_seconds: u64,
    pub last_scaling_time: u64,
}

impl ScalingSettings {
    /// The settings of a system that starts at time `now`.
    pub open spec fn initial(now: u64) -> ScalingSettings {
        ScalingSettings {
            buffer_pool_target_hit_rate: 850,
            crypto_processor_target_success_rate: 990,
            work_stealing_target_queue_size: 1000,
            connection_target_count: 10_000,
            min_worker_count: 4,
            max_worker_count: 256,
            auto_scaling_enabled: true,
            scaling_cooldown_seconds: 60,
            last_scaling_time: now,
        }
    }

    /// The settings of a system that starts at time `now`.
    pub fn starting(now: u64) -> (s: Self)
        ensures
            s == Self::initial(now),
    {
        ScalingSettings {
            buffer_pool_target_hit_rate: 850,
            crypto_processor_target_success_rate: 990,
            work_stealing_target_queue_size: 1000,
            connection_target_count: 10_000,
            min_worker_count: MIN_WORKERS,
            max_worker_count: MAX_WORKERS,
            auto_scaling_enabled: true,
            scaling_cooldown_seconds: 60,
            last_scaling_time: now,
        }
    }

    /// The settings with nonsense corrected: at least one worker, room above
    /// the minimum, and at least ten seconds between changes.
    pub open spec fn corrected(self) -> ScalingSettings {
        let min = greater(self.min_worker_count as int, 1) as usize;
        ScalingSettings {
            min_worker_count: min,
            max_worker_count: if self.max_worker_count < min {
                greater(min as int, 256) as usize
            } else {
                self.max_worker_count
            },
            scaling_cooldown_seconds: greater(self.scaling_cooldown_seconds as int, 10) as u64,
            ..self
        }
    }

    /// The settings with nonsense corrected.
    pub fn validated(self) -> (s: Self)
        ensures
            s == self.corrected(),
            self.min_worker_count >= 1 ==> s.min_worker_count == self.min_worker_count,
            self.min_worker_count == 0 ==> s.min_worker_count == 1,
            self.max_worker_count >= s.min_worker_count
                ==> s.max_worker_count == self.max_worker_count,
            s.min_worker_count <= s.max_worker_count,
            self.scaling_cooldown_seconds >= 10 ==> s.scaling_cooldown_seconds
                == self.scaling_cooldown_seconds,
            self.scaling_cooldown_seconds < 10 ==> s.scaling_cooldown_seconds == 10,
    {
        let mut s: ScalingSettings = self;
        if s.min_worker_count < 1 {
            s.min_worker_count = 1;
        }
        if s.max_worker_count < s.min_worker_count {
            s.max_worker_count = max_usize(s.min_worker_count, MAX_WORKERS);
        }
        if s.scaling_cooldown_seconds < 10 {
            s.scaling_cooldown_seconds = 10;
        }
        s
    }

    /// Whether workers may be added or removed without being asked for:
    /// where that is enabled, and the last change is long enough ago.
    pub fn auto_scaling_due(&self, now: u64) -> (due: bool)
        ensures
            due == (self.auto_scaling_enabled && minus(now as int, self.last_scaling_time as int)
                >= self.scaling_cooldown_seconds * 1_000_000_000),
            due <==> self.auto_scaling_enabled && (now >= self.last_scaling_time + 1_000_000_000
                * self.scaling_cooldown_seconds || self.scaling_cooldown_seconds == 0),
    {
        self.auto_scaling_enabled && now.saturating_sub(self.last_scaling_time) as u128
            >= self.scaling_cooldown_seconds as u128 * 1_000_000_000
    }
}

/// Corrected settings make sense, and correcting them again changes nothing.
pub proof fn corrected_settings_make_sense(s: ScalingSettings)
    ensures
        1 <= s.corrected().min_worker_count <= s.corrected().max_worker_count,
        s.corrected().scaling_cooldown_seconds >= 10,
        s.corrected().corrected() == s.corrected(),
{
}

/// The workers.
#[derive(Debug, Clone, Copy)]
pub struct WorkerPool {
    pub min_workers: usize,
    pub max_workers: usize,
    pub current_workers: usize,
}

impl WorkerPool {
    /// The number of workers lies between its bounds.
    pub open spec fn wf(self) -> bool {
        self.min_workers <= self.current_workers <= self.max_workers
    }

    /// The fewest workers.
    pub fn new(min_workers: usize, max_workers: usize) -> (p: Self)
        requires
            min_workers <= max_workers,
        ensures
            p.wf(),
            p == (WorkerPool { min_workers, max_workers, current_workers: min_workers }),
    {
        WorkerPool { min_workers, max_workers, current_workers: min_workers }
    }

    /// Adds workers, up to the most.
    pub fn add_workers(&mut self, count: usize) -> (added: usize)
        requires
            old(self).wf(),
            old(self).current_workers + count <= usize::MAX,
        ensures
            final(self).wf(),
            added == smaller(count as int, old(self).max_workers - old(self).current_workers),
            *final(self) == (WorkerPool {
                current_workers: (old(self).current_workers + added) as usize,
                ..*old(self)
            }),
    {
        let target: usize = min_usize(self.current_workers + count, self.max_workers);
        let to_add: usize = target - self.current_workers;
        self.current_workers = target;
        to_add
    }

    /// Removes workers, down to the fewest.
    pub fn remove_workers(&mut self, count: usize) -> (removed: usize)
        requires
            old(self).wf(),
        ensures
            final(self).wf(),
            removed == smaller(count as int, old(self).current_workers - old(self).min_workers),
            *final(self) == (WorkerPool {
                current_workers: (old(self).current_workers - removed) as usize,
                ..*old(self)
            }),
    {
        let target: usize = max_usize(self.current_workers.saturating_sub(count), self.min_workers);
        let to_remove: usize = self.current_workers - target;
        self.current_workers = target;
        to_remove
    }
}

/// How many workers are to be added when `count` are asked for: no more than
/// the optimum and the settings allow.
pub open spec fn wanted_increase(
    current: int,
    settings: ScalingSettings,
    count: int,
    optimal: int,
) -> int {
    if count == 0 || current >= settings.max_worker_count {
        0
    } else {
        smaller(minus(smaller(optimal, settings.max_worker_count as int), current), count)
    }
}

/// How many workers are to be removed when `count` are to go: no more than the
/// optimum and the settings allow.
pub open spec fn wanted_decrease(
    current: int,
    settings: ScalingSettings,
    count: int,
    optimal: int,
) -> int {
    if count == 0 || current <= settings.min_worker_count {
        0
    } else {
        smaller(minus(current, greater(optimal, settings.min_worker_count as int)), count)
    }
}

/// Adds workers.
pub fn scale_up(
    pool: &mut WorkerPool,
    settings: &mut ScalingSettings,
    count: usize,
    optimal: usize,
    now: u64,
) -> (added: usize)
    requires
        old(pool).wf(),
    ensures
        final(pool).wf(),
        ({
            let wanted = wanted_increase(
                old(pool).current_workers as int,
                *old(settings),
                count as int,
                optimal as int,
            );
            &&& added == smaller(wanted, old(pool).max_workers - old(pool).current_workers)
            &&& *final(pool) == (WorkerPool {
                current_workers: (old(pool).current_workers + added) as usize,
                ..*old(pool)
            })
            &&& *final(settings) == if wanted > 0 {
                ScalingSettings { last_scaling_time: now, ..*old(settings) }
            } else {
                *old(settings)
            }
        }),
        added <= count,
        added > 0 ==> final(pool).current_workers <= optimal && final(pool).current_workers
            <= old(settings).max_worker_count,
        final(pool).current_workers <= old(pool).max_workers,
        added < count ==> final(pool).current_workers >= optimal || final(pool).current_workers
            >= old(settings).max_worker_count
                || final(pool).current_workers == old(pool).max_workers,
{
    let current: usize = pool.current_workers;
    if count == 0 || current >= settings.max_worker_count {
        return 0;
    }
    let target: usize = min_usize(optimal, settings.max_worker_count);
    let increase: usize = min_usize(target.saturating_sub(current), count);
    if increase > 0 {
        let added: usize = pool.add_workers(increase);
        settings.last_scaling_time = now;
        added
    } else {
        0
    }
}

/// Removes workers.
pub fn scale_down(
    pool: &mut WorkerPool,
    settings: &mut ScalingSettings,
    count: usize,
    optimal: usize,
    now: u64,
) -> (removed: usize)
    requires
        old(pool).wf(),
    ensures
        final(pool).wf(),
        ({
            let wanted = wanted_decrease(
                old(pool).current_workers as int,
                *old(settings),
                count as int,
                optimal as int,
            );
            &&& removed == smaller(wanted, old(pool).current_workers - old(pool).min_workers)
            &&& *final(pool) == (WorkerPool {
                current_workers: (old(pool).current_workers - removed) as usize,
                ..*old(pool)
            })
            &&& *final(settings) == if wanted > 0 {
                ScalingSettings { last_scaling_time: now, ..*old(settings) }
            } else {
                *old(settings)
            }
        }),
        removed <= count,
        removed > 0 ==> final(pool).current_workers >= optimal && final(pool).current_workers
            >= old(settings).min_worker_count,
        final(pool).current_workers >= old(pool).min_workers,
        removed < count ==> final(pool).current_workers <= optimal || final(pool).current_workers
            <= old(settings).min_worker_count
                || final(pool).current_workers == old(pool).min_workers,
{
    let current: usize = pool.current_workers;
    if count == 0 || current <= settings.min_worker_count {
        return 0;
    }
    let target: usize = max_usize(optimal, settings.min_worker_count);
    let decrease: usize = min_usize(current.saturating_sub(target), count);
    if decrease > 0 {
        let removed: usize = pool.remove_workers(decrease);
        settings.last_scaling_time = now;
        removed
    } else {
        0
    }
}

/// What the load calls for.
#[derive(Debug, Clone, Copy, PartialEq, Eq, Structural)]
pub enum ScalingDecision {
    Up { count: usize },
    Down { count: usize },
    Stay,
}

/// What the load calls for. More workers for fewer than the optimum, for a
/// backlog above twice the target, or for very uneven queues; fewer for more
/// than two above the optimum, with a small backlog and even queues.
pub open spec fn scaling_decision(
    settings: ScalingSettings,
    current: usize,
    optimal: usize,
    backlog: u128,
    imbalance: Measure,
) -> ScalingDecision {
    let up = current < optimal || backlog > settings.work_stealing_target_queue_size * 2
        || imbalance.is_above(700);
    let down = current > optimal + 2 && backlog < settings.work_stealing_target_queue_size / 4
        && imbalance.is_below(200);
    if up && current < settings.max_worker_count {
        ScalingDecision::Up {
            count: smaller(2, settings.max_worker_count - current) as usize,
        }
    } else if down && current > settings.min_worker_count {
        ScalingDecision::Down {
            count: smaller(2, current - settings.min_worker_count) as usize,
        }
    } else {
        ScalingDecision::Stay
    }
}

/// What the load calls for.
pub fn decide_scaling(
    settings: &ScalingSettings,
    current: usize,
    optimal: usize,
    backlog: u128,
    imbalance: Measure,
) -> (d: ScalingDecision)
    ensures
        d == scaling_decision(*settings, current, optimal, backlog, imbalance),
        ({
            let target = settings.work_stealing_target_queue_size;
            let up = current < settings.max_worker_count && (current < optimal
                || backlog > 2 * target
                || imbalance.at_most > 700);
            let down = current > settings.min_worker_count && current > optimal + 2
                && backlog < target
                / 4 && imbalance.at_least < 200;
            &&& d is Up <==> up
            &&& d is Down <==> !up && down
            &&& d matches ScalingDecision::Up { count } ==> 1 <= count <= 2 && current + count
                <= settings.max_worker_count && (count == 1 ==> current + 1
                == settings.max_worker_count)
            &&& d matches ScalingDecision::Down { count } ==> 1 <= count <= 2 && current - count
                >= settings.min_worker_count && (count == 1 ==> current - 1
                == settings.min_worker_count)
        }),
{
    let target: usize = settings.work_stealing_target_queue_size;
    let up: bool = current < optimal || backlog > target as u128 * 2 || imbalance.above(700);
    let down: bool = current as u128 > optimal as u128 + 2 && backlog < (target / 4) as u128
        && imbalance.below(200);
    if up && current < settings.max_worker_count {
        ScalingDecision::Up { count: min_usize(SCALING_STEP, settings.max_worker_count - current) }
    } else if down && current > settings.min_worker_count {
        ScalingDecision::Down {
            count: min_usize(SCALING_STEP, current - settings.min_worker_count),
        }
    } else {
        ScalingDecision::Stay
    }
}

/// Adds or removes workers as the load calls for.
pub fn perform_auto_scaling(
    pool: &mut WorkerPool,
    settings: &mut ScalingSettings,
    optimal: usize,
    backlog: u128,
    imbalance: Measure,
    now: u64,
)
    requires
        old(pool).wf(),
    ensures
        final(pool).wf(),
        final(pool).min_workers == old(pool).min_workers,
        final(pool).max_workers == old(pool).max_workers,
        ({
            let current = old(pool).current_workers;
            match scaling_decision(*old(settings), current, optimal, backlog, imbalance) {
                ScalingDecision::Up { count } => {
                    let wanted = wanted_increase(
                        current as int,
                        *old(settings),
                        count as int,
                        optimal as int,
                    );
                    &&& final(pool).current_workers == current + smaller(
                        wanted,
                        old(pool).max_workers - current,
                    )
                    &&& *final(settings) == if wanted > 0 {
                        ScalingSettings { last_scaling_time: now, ..*old(settings) }
                    } else {
                        *old(settings)
                    }
                },
                ScalingDecision::Down { count } => {
                    let wanted = wanted_decrease(
                        current as int,
                        *old(settings),
                        count as int,
                        optimal as int,
                    );
                    &&& final(pool).current_workers == current - smaller(
                        wanted,
                        current - old(pool).min_workers,
                    )
                    &&& *final(settings) == if wanted > 0 {
                        ScalingSettings { last_scaling_time: now, ..*old(settings) }
                    } else {
                        *old(settings)
                    }
                },
                ScalingDecision::Stay => {
                    &&& *final(pool) == *old(pool)
                    &&& *final(settings) == *old(settings)
                },
            }
        }),
{
    match decide_scaling(settings, pool.current_workers, optimal, backlog, imbalance) {
        ScalingDecision::Up { count } => {
            let _added: usize = scale_up(pool, settings, count, optimal, now);
        },
        ScalingDecision::Down { count } => {
            let _removed: usize = scale_down(pool, settings, count, optimal, now);
        },
        ScalingDecision::Stay => {},
    }
}

/// Scaling takes place within the limits of the settings, whatever is asked
/// for.
pub proof fn scaling_keeps_limits(
    current: int,
    settings: ScalingSettings,
    count: int,
    optimal: int,
)
    requires
        settings.min_worker_count <= current <= settings.max_worker_count,
        count >= 0,
    ensures
        0 <= wanted_increase(current, settings, count, optimal) <= count,
        0 <= wanted_decrease(current, settings, count, optimal) <= count,
        current + wanted_increase(current, settings, count, optimal) <= settings.max_worker_count,
        current - wanted_decrease(current, settings, count, optimal) >= settings.min_worker_count,
{
}

/// What the state of the system calls for.
#[derive(Debug, Clone, Copy, PartialEq, Eq, Structural)]
pub struct ScalingNeeds {
    pub clean_buffers: bool,
    pub reset_crypto_breaker: bool,
    pub rebalance: bool,
    pub add_workers: bool,
}

/// What the state of the system calls for: a cleanup where the pool's hit rate
/// is below four fifths of its target, a new start of the crypto processor's
/// breaker where its success rate is below nine tenths of its target, a new
/// balance for very uneven queues, and workers for half as many connections
/// again as are aimed at.
pub open spec fn needs_of(
    settings: ScalingSettings,
    hit_rate: Ratio,
    crypto_success: Option<Ratio>,
    imbalance: Measure,
    connections: usize,
    current: usize,
) -> ScalingNeeds {
    ScalingNeeds {
        clean_buffers: hit_rate.is_below(
            (settings.buffer_pool_target_hit_rate * 8) as nat,
            10_000,
        ),
        reset_crypto_breaker: crypto_success matches Some(s) && s.is_below(
            (settings.crypto_processor_target_success_rate * 9) as nat,
            10_000,
        ),
        rebalance: imbalance.is_above(700),
        add_workers: connections * 2 > settings.connection_target_count * 3 && current
            < settings.max_worker_count,
    }
}

/// What the state of the system calls for.
pub fn check_scaling_needs(
    settings: &ScalingSettings,
    hit_rate: Ratio,
    crypto_success: Option<Ratio>,
    imbalance: Measure,
    connections: usize,
    current: usize,
) -> (n: ScalingNeeds)
    requires
        settings.buffer_pool_target_hit_rate * 8 <= u64::MAX,
        settings.crypto_processor_target_success_rate * 9 <= u64::MAX,
    ensures
        n == needs_of(*settings, hit_rate, crypto_success, imbalance, connections, current),
        hit_rate.whole > 0 ==> (n.clean_buffers <==> hit_rate.part * 10_000
            < settings.buffer_pool_target_hit_rate * 8 * hit_rate.whole),
        n.reset_crypto_breaker <==> (crypto_success matches Some(s) && (if s.whole > 0 {
            s.part * 10_000 < settings.crypto_processor_target_success_rate * 9 * s.whole
        } else {
            settings.crypto_processor_target_success_rate > 0
        })),
        n.rebalance <==> imbalance.at_most > 700,
        n.add_workers <==> connections * 2 > settings.connection_target_count * 3 && current
            < settings.max_worker_count,
{
    let reset_crypto_breaker: bool = match crypto_success {
        Some(s) => s.below(settings.crypto_processor_target_success_rate * 9, 10_000),
        None => false,
    };
    ScalingNeeds {
        clean_buffers: hit_rate.below(settings.buffer_pool_target_hit_rate * 8, 10_000),
        reset_crypto_breaker,
        rebalance: imbalance.above(700),
        add_workers: connections as u128 * 2 > settings.connection_target_count as u128 * 3
            && current < settings.max_worker_count,
    }
}

/// The workers once new settings are in force: where a higher minimum asks for
/// more, some are added.
pub open spec fn resettled(
    pool: WorkerPool,
    settings: ScalingSettings,
    new: ScalingSettings,
    optimal: usize,
) -> WorkerPool {
    let min = new.corrected().min_worker_count;
    let current = pool.current_workers;
    WorkerPool {
        current_workers: (current + if min != settings.min_worker_count && current < min {
            smaller(
                wanted_increase(current as int, settings, min - current, optimal as int),
                pool.max_workers - current,
            )
        } else {
            0
        }) as usize,
        ..pool
    }
}

/// Takes over new settings. Where they ask for more workers than there are,
/// workers are added first, within the settings before.
pub fn update_scaling_settings(
    pool: &mut WorkerPool,
    settings: &mut ScalingSettings,
    new: ScalingSettings,
    optimal: usize,
    now: u64,
)
    requires
        old(pool).wf(),
    ensures
        final(pool).wf(),
        *final(settings) == new.corrected(),
        *final(pool) == resettled(*old(pool), *old(settings), new, optimal),
        ({
            let least = if new.min_worker_count >= 1 {
                new.min_worker_count
            } else {
                1
            };
            let (was, later) = (old(pool).current_workers, final(pool).current_workers);
            &&& final(settings).min_worker_count == least
            &&& was >= least || least == old(settings).min_worker_count ==> later == was
            &&& was <= later
            &&& later > was ==> later <= least && later <= optimal
            &&& final(pool).min_workers == old(pool).min_workers
            &&& final(pool).max_workers == old(pool).max_workers
        }),
{
    let validated: ScalingSettings = new.validated();
    if validated.min_worker_count != settings.min_worker_count && pool.current_workers
        < validated.min_worker_count {
        let increase: usize = validated.min_worker_count - pool.current_workers;
        let _added: usize = scale_up(pool, settings, increase, optimal, now);
    }
    *settings = validated;
}

} // verus!
