//! A pool of reusable buffers, sorted by size class.
//!
//! Points in time and durations are nanoseconds.

use std::collections::VecDeque;
use vstd::prelude::*;
use vstd::std_specs::vecdeque::*;

use crate::bounds::capped;
use crate::history::{
    filter_step, filtered_from, in_micros, is_percentile, mean, mean_u64, micros_of, percentile,
    remember, remembered, sum_u64, to_list, total, total_bounded,
};
use crate::measure::Measure;
use crate::optimized::size_class::{
    SIZE_CLASSES, SizeClass, class_at, class_of, fallbacks_are_larger,
};
use crate::ratio::Ratio;

verus! {

/// A buffer is not handed out again after this many uses.
pub const MAX_USES: u32 = 1000;

/// How many sizes and times the pool remembers.
pub const POOL_HISTORY: usize = 1000;

/// Buffers smaller than this are not worth keeping.
pub const MIN_KEPT_CAPACITY: usize = 256;

/// A buffer older than this is old.
pub const OLD_AGE: u64 = 3_600_000_000_000;

/// How many buffers one round adds to a class at most.
pub const MAX_ADDED: usize = 20;

/// How many buffers one round takes from a class at most.
pub const MAX_REMOVED: usize = 10;

/// A buffer with its record.
#[derive(Debug)]
pub struct PooledBuffer {
    pub data: Vec<u8>,
    /// The size the buffer was made with.
    pub capacity: usize,
    pub size_class: SizeClass,
    pub created_at: u64,
    pub last_used: u64,
    pub usage_count: u32,
    pub is_used: bool,
    pub requested_size: usize,
}

impl PooledBuffer {
    /// Whether the buffer can serve a request: free, large enough, at most
    /// twice as large as needed, and not worn out.
    pub open spec fn fits(self, requested: nat) -> bool {
        &&& !self.is_used
        &&& self.capacity >= requested
        &&& self.capacity <= requested * 2
        &&& self.usage_count < MAX_USES
    }

    /// A fresh buffer of a class.
    pub open spec fn is_fresh(self, class: SizeClass, capacity: nat, now: u64) -> bool {
        &&& self.data@ == Seq::new(capacity, |i: int| 0u8)
        &&& self.capacity == capacity
        &&& self.size_class == class
        &&& self.created_at == now
        &&& self.last_used == now
        &&& self.usage_count == 0
        &&& !self.is_used
        &&& self.requested_size == capacity
    }

    /// A buffer of the size that its class is made with.
    pub fn new(size_class: SizeClass, now: u64) -> (b: Self)
        ensures
            b.is_fresh(size_class, size_class.largest(), now),
    {
        let size: usize = size_class.optimal_size();
        let data: Vec<u8> = vec![0u8; size];
        proof {
            assert(data@ =~= Seq::new(size as nat, |i: int| 0u8));
        }
        PooledBuffer {
            data,
            capacity: size,
            size_class,
            created_at: now,
            last_used: now,
            usage_count: 0,
            is_used: false,
            requested_size: size,
        }
    }

    /// A buffer of exactly the given size.
    pub fn with_exact_size(size: usize, now: u64) -> (b: Self)
        requires
            size <= isize::MAX,
        ensures
            b.is_fresh(class_of(size as nat), size as nat, now),
    {
        let data: Vec<u8> = vec![0u8; size];
        proof {
            assert(data@ =~= Seq::new(size as nat, |i: int| 0u8));
        }
        PooledBuffer {
            data,
            capacity: size,
            size_class: SizeClass::from_size(size),
            created_at: now,
            last_used: now,
            usage_count: 0,
            is_used: false,
            requested_size: size,
        }
    }

    /// Whether the buffer can serve a request.
    pub fn can_reuse_for(&self, requested: usize) -> (r: bool)
        requires
            requested <= isize::MAX,
        ensures
            r == self.fits(requested as nat),
            r <==> !self.is_used && requested <= self.capacity <= 2 * requested && self.usage_count
                < 1000,
    {
        !self.is_used && self.capacity >= requested && self.capacity <= requested * 2
            && self.usage_count < MAX_USES
    }

    /// Empties the buffer and counts one more use.
    pub fn prepare_for_reuse(&mut self, now: u64)
        requires
            old(self).usage_count < u32::MAX,
        ensures
            final(self).data@ == Seq::<u8>::empty(),
            final(self).capacity == old(self).capacity,
            final(self).size_class == old(self).size_class,
            final(self).created_at == old(self).created_at,
            final(self).last_used == now,
            final(self).usage_count == old(self).usage_count + 1,
            final(self).is_used,
            final(self).requested_size == old(self).requested_size,
    {
        self.data.clear();
        self.last_used = now;
        self.usage_count = self.usage_count + 1;
        self.is_used = true;
    }

    /// Whether less than half of the buffer was asked for.
    pub open spec fn half_empty(self) -> bool {
        self.capacity == 0 || 2 * self.requested_size < self.capacity
    }

    /// Whether a cleanup at `now` would drop the buffer: idle for too long, or
    /// old, half empty and hardly used.
    pub open spec fn expired(self, now: u64, max_age: u64) -> bool {
        ||| now - self.last_used > max_age
        ||| now - self.created_at > OLD_AGE && self.half_empty() && self.usage_count < 5
    }

    /// How long ago the buffer was made.
    pub fn age(&self, now: u64) -> (d: u64)
        ensures
            d == if now >= self.created_at {
                now - self.created_at
            } else {
                0
            },
    {
        now.saturating_sub(self.created_at)
    }

    /// How long ago the buffer was last used.
    pub fn idle_time(&self, now: u64) -> (d: u64)
        ensures
            d == if now >= self.last_used {
                now - self.last_used
            } else {
                0
            },
    {
        now.saturating_sub(self.last_used)
    }

    /// Whether a cleanup at `now` would drop the buffer.
    pub fn is_expired(&self, now: u64, max_age: u64) -> (r: bool)
        ensures
            r == self.expired(now, max_age),
    {
        let stale: bool = self.idle_time(now) > max_age;
        let old: bool = self.age(now) > OLD_AGE;
        let half_empty: bool = self.capacity == 0 || (self.requested_size < self.capacity
            && self.requested_size < self.capacity - self.requested_size);
        stale || (old && half_empty && self.usage_count < 5)
    }
}

/// Counters of one size class. Times are microseconds.
#[derive(Debug, Clone, Copy)]
pub struct SizeClassStats {
    pub allocations: u64,
    pub reuses: u64,
    pub current_active: usize,
    pub peak_active: usize,
    pub memory_usage: usize,
    pub peak_memory: usize,
    pub hit_rate: Ratio,
    pub miss_rate: Ratio,
    pub allocation_time_avg: u64,
    pub allocation_time_p95: u64,
    pub wait_time_avg: u64,
}

/// The larger of two numbers.
pub open spec fn larger(a: usize, b: usize) -> usize {
    if a >= b {
        a
    } else {
        b
    }
}

fn larger_of(a: usize, b: usize) -> (r: usize)
    ensures
        r == larger(a, b),
{
    if a >= b {
        a
    } else {
        b
    }
}

/// `a - b`, zero where that is negative.
pub open spec fn reduced(a: usize, b: nat) -> usize {
    if a >= b {
        (a - b) as usize
    } else {
        0
    }
}

impl SizeClassStats {
    /// Nothing counted yet.
    pub open spec fn none() -> SizeClassStats {
        SizeClassStats {
            allocations: 0,
            reuses: 0,
            current_active: 0,
            peak_active: 0,
            memory_usage: 0,
            peak_memory: 0,
            hit_rate: Ratio::zero(),
            miss_rate: Ratio::zero(),
            allocation_time_avg: 0,
            allocation_time_p95: 0,
            wait_time_avg: 0,
        }
    }

    /// One more buffer of the given capacity is in use.
    pub open spec fn activated(self, capacity: usize) -> SizeClassStats {
        let active = (self.current_active + 1) as usize;
        SizeClassStats {
            current_active: active,
            peak_active: larger(self.peak_active, active),
            memory_usage: (self.memory_usage + capacity) as usize,
            ..self
        }
    }

    /// After a buffer of the class served a request of the class.
    pub open spec fn after_reuse(self, capacity: usize) -> SizeClassStats {
        let a = self.activated(capacity);
        SizeClassStats {
            reuses: (self.reuses + 1) as u64,
            peak_memory: larger(self.peak_memory, a.memory_usage),
            ..a
        }
    }

    /// After a buffer of the class served a request of a smaller class.
    pub open spec fn after_lending(self, capacity: usize) -> SizeClassStats {
        SizeClassStats { reuses: (self.reuses + 1) as u64, ..self.activated(capacity) }
    }

    /// After a buffer was made for a request of the class.
    pub open spec fn after_allocation(self, capacity: usize) -> SizeClassStats {
        let a = self.activated(capacity);
        SizeClassStats {
            allocations: (self.allocations + 1) as u64,
            peak_memory: larger(self.peak_memory, a.memory_usage),
            ..a
        }
    }

    /// After a buffer came back to the class.
    pub open spec fn after_return(self, capacity: usize) -> SizeClassStats {
        SizeClassStats {
            current_active: reduced(self.current_active, 1),
            memory_usage: reduced(self.memory_usage, capacity as nat),
            ..self
        }
    }

    /// The counters have room for one more buffer of the given capacity.
    pub open spec fn room_for(self, capacity: nat) -> bool {
        &&& self.allocations < u64::MAX
        &&& self.reuses < u64::MAX
        &&& self.current_active < usize::MAX
        &&& self.memory_usage + capacity <= usize::MAX
    }
}

/// Counters of the whole pool.
#[derive(Debug, Clone, Copy)]
pub struct GlobalStats {
    pub total_allocations: u64,
    pub total_reuses: u64,
    pub total_memory_allocated: usize,
    pub current_hit_rate: Ratio,
    pub peak_hit_rate: Ratio,
    pub current_memory_usage: usize,
    pub peak_memory_usage: usize,
    pub last_hit_rate_calc: u64,
    /// Memory in use, of all memory allocated.
    pub memory_in_use: Ratio,
}

impl GlobalStats {
    /// Nothing counted yet.
    pub open spec fn none(now: u64) -> GlobalStats {
        GlobalStats {
            total_allocations: 0,
            total_reuses: 0,
            total_memory_allocated: 0,
            current_hit_rate: Ratio::zero(),
            peak_hit_rate: Ratio::zero(),
            current_memory_usage: 0,
            peak_memory_usage: 0,
            last_hit_rate_calc: now,
            memory_in_use: Ratio::zero(),
        }
    }

    /// After a buffer served a request of its own class.
    pub open spec fn after_reuse(self, capacity: usize) -> GlobalStats {
        let usage = (self.current_memory_usage + capacity) as usize;
        GlobalStats {
            total_reuses: (self.total_reuses + 1) as u64,
            current_memory_usage: usage,
            peak_memory_usage: larger(self.peak_memory_usage, usage),
            ..self
        }
    }

    /// After a buffer served a request of a smaller class.
    pub open spec fn after_lending(self) -> GlobalStats {
        GlobalStats { total_reuses: (self.total_reuses + 1) as u64, ..self }
    }

    /// After a buffer was made.
    pub open spec fn after_allocation(self, capacity: usize) -> GlobalStats {
        let usage = (self.current_memory_usage + capacity) as usize;
        GlobalStats {
            total_allocations: (self.total_allocations + 1) as u64,
            total_memory_allocated: (self.total_memory_allocated + capacity) as usize,
            current_memory_usage: usage,
            peak_memory_usage: larger(self.peak_memory_usage, usage),
            ..self
        }
    }

    /// After a buffer came back.
    pub open spec fn after_return(self, capacity: usize) -> GlobalStats {
        GlobalStats {
            current_memory_usage: reduced(self.current_memory_usage, capacity as nat),
            ..self
        }
    }

    /// After buffers with the given total capacity were dropped.
    pub open spec fn after_freeing(self, freed: nat) -> GlobalStats {
        GlobalStats {
            total_memory_allocated: reduced(self.total_memory_allocated, freed),
            current_memory_usage: reduced(self.current_memory_usage, freed),
            ..self
        }
    }

    /// The counters have room for one more buffer of the given capacity.
    pub open spec fn room_for(self, capacity: nat) -> bool {
        &&& self.total_allocations < u64::MAX
        &&& self.total_reuses < u64::MAX
        &&& self.total_memory_allocated + capacity <= usize::MAX
        &&& self.current_memory_usage + capacity <= usize::MAX
    }
}

/// Settings of a pool.
#[derive(Debug, Clone, Copy)]
pub struct PoolConfig {
    pub max_buffers_per_class: usize,
    pub max_bytes_mut_buffers: usize,
    pub cleanup_interval_secs: u64,
    pub max_buffer_age_secs: u64,
    pub enable_adaptive_pooling: bool,
    pub target_hit_percent: u64,
    pub enable_size_prediction: bool,
    pub preallocation_percent: u64,
}

impl Default for PoolConfig {
    fn default() -> (c: Self)
        ensures
            c == (PoolConfig {
                max_buffers_per_class: 200,
                max_bytes_mut_buffers: 500,
                cleanup_interval_secs: 60,
                max_buffer_age_secs: 600,
                enable_adaptive_pooling: true,
                target_hit_percent: 85,
                enable_size_prediction: true,
                preallocation_percent: 80,
            }),
    {
        PoolConfig {
            max_buffers_per_class: 200,
            max_bytes_mut_buffers: 500,
            cleanup_interval_secs: 60,
            max_buffer_age_secs: 600,
            enable_adaptive_pooling: true,
            target_hit_percent: 85,
            enable_size_prediction: true,
            preallocation_percent: 80,
        }
    }
}

/// The first position at or behind `k` whose buffer fits the request.
pub open spec fn first_fit(pool: Seq<PooledBuffer>, requested: nat, k: int) -> Option<int>
    decreases pool.len() - k,
{
    if k >= pool.len() {
        None
    } else if pool[k].fits(requested) {
        Some(k)
    } else {
        first_fit(pool, requested, k + 1)
    }
}

/// Where a request is served from: the first class, in the given order, that
/// has a fitting buffer, and the first fitting buffer in it.
pub open spec fn choice(
    pools: Seq<Vec<PooledBuffer>>,
    classes: Seq<SizeClass>,
    requested: nat,
) -> Option<(SizeClass, int)>
    decreases classes.len(),
{
    if classes.len() == 0 {
        None
    } else {
        match first_fit(pools[classes[0].pos()]@, requested, 0) {
            Some(i) => Some((classes[0], i)),
            None => choice(pools, classes.skip(1), requested),
        }
    }
}

/// The list without the entry at `i`; the last entry takes its place.
pub open spec fn swapped_out<T>(s: Seq<T>, i: int) -> Seq<T> {
    s.update(i, s.last()).drop_last()
}

/// The total capacity of the buffers of a list.
pub open spec fn total_capacity(pool: Seq<PooledBuffer>) -> nat
    decreases pool.len(),
{
    if pool.len() == 0 {
        0
    } else {
        total_capacity(pool.drop_last()) + pool.last().capacity as nat
    }
}

/// The buffers of a list that a cleanup keeps.
pub open spec fn unexpired(pool: Seq<PooledBuffer>, now: u64, max_age: u64) -> Seq<PooledBuffer> {
    pool.filter(|b: PooledBuffer| !b.expired(now, max_age))
}

/// The buffers of a class that a cleanup keeps: all of them where the class
/// has no more than its minimum.
pub open spec fn cleaned(
    pool: Seq<PooledBuffer>,
    class: SizeClass,
    now: u64,
    max_age: u64,
) -> Seq<PooledBuffer> {
    if pool.len() > class.kept() {
        unexpired(pool, now, max_age)
    } else {
        pool
    }
}

/// A buffer handed out.
#[derive(Debug)]
pub struct Acquired {
    /// The empty buffer.
    pub data: Vec<u8>,
    /// The size the buffer was made with.
    pub capacity: usize,
    /// The class whose counters changed.
    pub class: SizeClass,
    /// How often the buffer was handed out, this time included.
    pub usage_count: u32,
}

/// The pool.
#[derive(Debug)]
pub struct OptimizedBufferPool {
    pub pools: Vec<Vec<PooledBuffer>>,
    pub size_history: VecDeque<usize>,
    pub stats: Vec<SizeClassStats>,
    pub global: GlobalStats,
    pub allocation_times: VecDeque<u64>,
    pub wait_times: VecDeque<u64>,
    pub last_cleanup: u64,
    pub last_adaptation: u64,
    pub config: PoolConfig,
}

/// Whether a buffer may lie in the pool of the class at position `i`.
pub open spec fn belongs(b: PooledBuffer, i: int) -> bool {
    &&& !b.is_used
    &&& b.size_class == class_at(i)
    &&& class_of(b.capacity as nat) == class_at(i)
}

impl OptimizedBufferPool {
    /// What holds of every pool: one list of free buffers for each class, one
    /// set of counters for each class or none at all, every buffer in the list
    /// of its class, and bounded histories.
    pub open spec fn wf(self) -> bool {
        &&& self.pools@.len() == SIZE_CLASSES
        &&& self.stats@.len() == SIZE_CLASSES || self.stats@.len() == 0
        &&& self.size_history@.len() <= POOL_HISTORY
        &&& self.allocation_times@.len() <= POOL_HISTORY
        &&& self.wait_times@.len() <= POOL_HISTORY
        &&& forall|i: int, j: int|
            0 <= i < SIZE_CLASSES && 0 <= j < self.pools@[i]@.len() ==> belongs(
                #[trigger] self.pools@[i]@[j],
                i,
            )
    }

    /// Whether there are counters for each class. A copy of a pool has none.
    pub open spec fn counts_classes(self) -> bool {
        self.stats@.len() == SIZE_CLASSES
    }

    /// All counters have room for a buffer of the given capacity.
    pub open spec fn room_for(self, capacity: nat) -> bool {
        &&& self.global.room_for(capacity)
        &&& forall|i: int|
            0 <= i < self.stats@.len() ==> (#[trigger] self.stats@[i]).room_for(capacity)
    }

    /// Where a request is served from.
    pub open spec fn source(self, requested: nat) -> Option<(SizeClass, int)> {
        let class = class_of(requested);
        choice(self.pools@, seq![class] + class.fallbacks(), requested)
    }

    /// Whether `after` is this pool once it handed out `r` for a request: the
    /// first fitting buffer of the class or of a larger one, or a new one.
    pub open spec fn served(self, after: Self, r: Acquired, requested: nat) -> bool {
        match self.source(requested) {
            Some((c, i)) => {
                let taken = self.pools@[c.pos()]@[i];
                &&& r.class == c
                &&& r.capacity == taken.capacity
                &&& r.usage_count == taken.usage_count + 1
                &&& after.pools@[c.pos()]@ == swapped_out(
                    self.pools@[c.pos()]@,
                    i,
                )
                &&& forall|k: int|
                    0 <= k < SIZE_CLASSES && k != c.pos() ==> (
                    #[trigger] after.pools@[k]) == self.pools@[k]
                &&& if c == class_of(requested) {
                    &&& after.global == self.global.after_reuse(r.capacity)
                    &&& after.stats@ == self.stats@.update(
                        c.pos(),
                        self.stats@[c.pos()].after_reuse(r.capacity),
                    )
                } else {
                    &&& after.global == self.global.after_lending()
                    &&& after.stats@ == self.stats@.update(
                        c.pos(),
                        self.stats@[c.pos()].after_lending(r.capacity),
                    )
                }
            },
            None => {
                &&& r.class == class_of(requested)
                &&& r.capacity == Self::fresh_capacity(requested)
                &&& r.usage_count == 1
                &&& after.pools == self.pools
                &&& after.global == self.global.after_allocation(r.capacity)
                &&& after.stats@ == self.stats@.update(
                    r.class.pos(),
                    self.stats@[r.class.pos()].after_allocation(r.capacity),
                )
            },
        }
    }

    /// The capacity of a buffer made for a request.
    pub open spec fn fresh_capacity(requested: nat) -> nat {
        let class = class_of(requested);
        if requested <= class.largest() {
            class.largest()
        } else {
            requested
        }
    }
}

/// The first position whose buffer fits the request.
fn find_fit(pool: &Vec<PooledBuffer>, requested: usize) -> (r: Option<usize>)
    requires
        requested <= isize::MAX,
    ensures
        r matches Some(i) ==> i < pool@.len() && pool@[i as int].fits(requested as nat)
            && first_fit(pool@, requested as nat, 0) == Some(i as int),
        r is None ==> first_fit(pool@, requested as nat, 0) is None,
{
    let mut i: usize = 0;
    while i < pool.len()
        invariant
            i <= pool@.len(),
            requested <= isize::MAX,
            first_fit(pool@, requested as nat, 0) == first_fit(pool@, requested as nat, i as int),
        decreases pool@.len() - i,
    {
        if pool[i].can_reuse_for(requested) {
            return Some(i);
        }
        i += 1;
    }
    None
}

impl OptimizedBufferPool {
    /// Whether this is a pool as it is made: eight tenths of the buffers it may
    /// keep lie ready, fresh ones of every class, and nothing is counted.
    pub open spec fn is_new(self, max_buffers: nat, now: u64) -> bool {
        &&& self.config == (PoolConfig {
            max_buffers_per_class: max_buffers as usize,
            max_bytes_mut_buffers: 500,
            cleanup_interval_secs: 60,
            max_buffer_age_secs: 600,
            enable_adaptive_pooling: true,
            target_hit_percent: 85,
            enable_size_prediction: true,
            preallocation_percent: 80,
        })
        &&& self.counts_classes()
        &&& self.global == GlobalStats::none(now)
        &&& self.last_cleanup == now
        &&& self.last_adaptation == now
        &&& self.size_history@.len() == 0
        &&& self.allocation_times@.len() == 0
        &&& self.wait_times@.len() == 0
        &&& forall|i: int|
            0 <= i < SIZE_CLASSES ==> (#[trigger] self.stats@[i]) == SizeClassStats::none()
        &&& forall|i: int|
            0 <= i < SIZE_CLASSES ==> (#[trigger] self.pools@[i])@.len() == max_buffers * 80 / 100
        &&& forall|i: int, j: int|
            0 <= i < SIZE_CLASSES && 0 <= j < self.pools@[i]@.len() ==> (
            #[trigger] self.pools@[i]@[j]).is_fresh(class_at(i), class_at(i).largest(), now)
    }

    /// A pool with buffers of every class made in advance.
    pub fn new(max_buffers_per_type: usize, now: u64) -> (p: Self)
        requires
            max_buffers_per_type * 100 <= usize::MAX,
        ensures
            p.wf(),
            p.is_new(max_buffers_per_type as nat, now),
    {
        let mut config: PoolConfig = PoolConfig::default();
        config.max_buffers_per_class = max_buffers_per_type;
        let initial: usize = max_buffers_per_type * 80 / 100;
        let classes: [SizeClass; 5] = SizeClass::all_classes();
        let mut pools: Vec<Vec<PooledBuffer>> = Vec::new();
        let mut stats: Vec<SizeClassStats> = Vec::new();
        let mut c: usize = 0;
        while c < SIZE_CLASSES
            invariant
                c <= SIZE_CLASSES,
                pools@.len() == c,
                stats@.len() == c,
                forall|i: int| 0 <= i < SIZE_CLASSES ==> #[trigger] classes@[i] == class_at(i),
                forall|i: int| 0 <= i < c ==> (#[trigger] stats@[i]) == SizeClassStats::none(),
                forall|i: int| 0 <= i < c ==> (#[trigger] pools@[i])@.len() == initial,
                forall|i: int, j: int|
                    0 <= i < c && 0 <= j < pools@[i]@.len() ==> (
                    #[trigger] pools@[i]@[j]).is_fresh(class_at(i), class_at(i).largest(), now),
            decreases SIZE_CLASSES - c,
        {
            let mut pool: Vec<PooledBuffer> = Vec::new();
            extend_with_fresh(&mut pool, classes[c], initial, now);
            pools.push(pool);
            stats.push(empty_class_stats());
            c += 1;
        }
        OptimizedBufferPool {
            pools,
            size_history: VecDeque::new(),
            stats,
            global: GlobalStats {
                total_allocations: 0,
                total_reuses: 0,
                total_memory_allocated: 0,
                current_hit_rate: Ratio::new(0, 0),
                peak_hit_rate: Ratio::new(0, 0),
                current_memory_usage: 0,
                peak_memory_usage: 0,
                last_hit_rate_calc: now,
                memory_in_use: Ratio::new(0, 0),
            },
            allocation_times: VecDeque::new(),
            wait_times: VecDeque::new(),
            last_cleanup: now,
            last_adaptation: now,
            config,
        }
    }

    /// Hands out an empty buffer that holds at least the requested number of
    /// bytes: a free one of the right class, or else of a larger class, or
    /// else a new one.
    pub fn acquire_buffer(&mut self, requested: usize, now: u64) -> (r: Acquired)
        requires
            old(self).wf(),
            old(self).counts_classes(),
            requested <= isize::MAX,
            old(self).room_for((2 * requested + 1048576) as nat),
        ensures
            final(self).wf(),
            r.data@ == Seq::<u8>::empty(),
            r.capacity >= requested,
            final(self).size_history@ == if old(self).config.enable_size_prediction {
                remembered(old(self).size_history@, requested, POOL_HISTORY as nat)
            } else {
                old(self).size_history@
            },
            final(self).allocation_times == old(self).allocation_times,
            final(self).wait_times == old(self).wait_times,
            final(self).last_cleanup == old(self).last_cleanup,
            final(self).last_adaptation == old(self).last_adaptation,
            final(self).config == old(self).config,
            old(self).served(*final(self), r, requested as nat),
    {
        if self.config.enable_size_prediction {
            remember(&mut self.size_history, requested, POOL_HISTORY);
        }
        self.try_acquire_from_pool(requested, SizeClass::from_size(requested), now)
    }

    fn try_acquire_from_pool(
        &mut self,
        requested: usize,
        size_class: SizeClass,
        now: u64,
    ) -> (r: Acquired)
        requires
            old(self).wf(),
            old(self).counts_classes(),
            requested <= isize::MAX,
            size_class == class_of(requested as nat),
            old(self).room_for((2 * requested + 1048576) as nat),
        ensures
            final(self).wf(),
            r.data@ == Seq::<u8>::empty(),
            r.capacity >= requested,
            final(self).size_history == old(self).size_history,
            final(self).allocation_times == old(self).allocation_times,
            final(self).wait_times == old(self).wait_times,
            final(self).last_cleanup == old(self).last_cleanup,
            final(self).last_adaptation == old(self).last_adaptation,
            final(self).config == old(self).config,
            old(self).served(*final(self), r, requested as nat),
    {
        let mut classes: Vec<SizeClass> = Vec::new();
        classes.push(size_class);
        let mut larger: Vec<SizeClass> = size_class.larger_classes();
        classes.append(&mut larger);
        let ghost all = seq![size_class] + size_class.fallbacks();
        proof {
            assert(classes@ =~= all);
            assert(all.skip(0) =~= all);
        }
        let mut k: usize = 0;
        while k < classes.len()
            invariant
                *self == *old(self),
                self.wf(),
                self.counts_classes(),
                requested <= isize::MAX,
                size_class == class_of(requested as nat),
                self.room_for((2 * requested + 1048576) as nat),
                k <= classes@.len(),
                classes@ == all,
                all == seq![size_class] + size_class.fallbacks(),
                self.source(requested as nat) == choice(
                    self.pools@,
                    all.skip(k as int),
                    requested as nat,
                ),
            decreases classes@.len() - k,
        {
            let class: SizeClass = classes[k];
            let c: usize = class.index();
            proof {
                assert(all.skip(k as int)[0] == class);
                assert(all.skip(k as int).skip(1) =~= all.skip(k as int + 1));
            }
            match find_fit(&self.pools[c], requested) {
                Some(i) => {
                    let ghost before = *self;
                    let ghost pool = self.pools@[c as int]@;
                    let mut buffer: PooledBuffer = self.pools[c].swap_remove(i);
                    buffer.prepare_for_reuse(now);
                    let mut s: SizeClassStats = self.stats[c];
                    let capacity: usize = buffer.capacity;
                    proof {
                        assert(self.stats@[c as int].room_for((2 * requested + 1048576) as nat));
                        assert(capacity <= 2 * requested);
                    }
                    s.reuses = s.reuses + 1;
                    s.current_active = s.current_active + 1;
                    s.peak_active = larger_of(s.peak_active, s.current_active);
                    s.memory_usage = s.memory_usage + capacity;
                    self.global.total_reuses = self.global.total_reuses + 1;
                    if class == size_class {
                        s.peak_memory = larger_of(s.peak_memory, s.memory_usage);
                        self.global.current_memory_usage = self.global.current_memory_usage
                            + capacity;
                        self.global.peak_memory_usage = larger_of(
                            self.global.peak_memory_usage,
                            self.global.current_memory_usage,
                        );
                    }
                    self.stats.set(c, s);
                    proof {
                        assert forall|a: int, b: int|
                            0 <= a < SIZE_CLASSES && 0 <= b < self.pools@[a]@.len() implies belongs(
                            #[trigger] self.pools@[a]@[b],
                            a,
                        ) by {
                            if a == c {
                                assert(self.pools@[a]@ == swapped_out(pool, i as int));
                                if b == i {
                                    assert(belongs(before.pools@[a]@[pool.len() - 1], a));
                                } else {
                                    assert(belongs(before.pools@[a]@[b], a));
                                }
                            } else {
                                assert(self.pools@[a] == before.pools@[a]);
                                assert(belongs(before.pools@[a]@[b], a));
                            }
                        }
                    }
                    return Acquired {
                        data: buffer.data,
                        capacity,
                        class,
                        usage_count: buffer.usage_count,
                    };
                },
                None => {},
            }
            k += 1;
        }
        proof {
            assert(all.skip(k as int) =~= Seq::<SizeClass>::empty());
        }
        let mut buffer: PooledBuffer = if requested <= size_class.optimal_size() {
            PooledBuffer::new(size_class, now)
        } else {
            PooledBuffer::with_exact_size(requested, now)
        };
        buffer.prepare_for_reuse(now);
        let capacity: usize = buffer.capacity;
        let c: usize = size_class.index();
        let mut s: SizeClassStats = self.stats[c];
        proof {
            assert(self.stats@[c as int].room_for((2 * requested + 1048576) as nat));
        }
        s.allocations = s.allocations + 1;
        s.current_active = s.current_active + 1;
        s.peak_active = larger_of(s.peak_active, s.current_active);
        s.memory_usage = s.memory_usage + capacity;
        s.peak_memory = larger_of(s.peak_memory, s.memory_usage);
        self.stats.set(c, s);
        self.global.total_allocations = self.global.total_allocations + 1;
        self.global.total_memory_allocated = self.global.total_memory_allocated + capacity;
        self.global.current_memory_usage = self.global.current_memory_usage + capacity;
        self.global.peak_memory_usage = larger_of(
            self.global.peak_memory_usage,
            self.global.current_memory_usage,
        );
        Acquired { data: buffer.data, capacity, class: size_class, usage_count: buffer.usage_count }
    }
}

fn empty_class_stats() -> (s: SizeClassStats)
    ensures
        s == SizeClassStats::none(),
{
    SizeClassStats {
        allocations: 0,
        reuses: 0,
        current_active: 0,
        peak_active: 0,
        memory_usage: 0,
        peak_memory: 0,
        hit_rate: Ratio::new(0, 0),
        miss_rate: Ratio::new(0, 0),
        allocation_time_avg: 0,
        allocation_time_p95: 0,
        wait_time_avg: 0,
    }
}

/// Adds `n` fresh buffers of a class.
fn extend_with_fresh(pool: &mut Vec<PooledBuffer>, class: SizeClass, n: usize, now: u64)
    ensures
        final(pool)@.len() == old(pool)@.len() + n,
        final(pool)@.take(old(pool)@.len() as int) == old(pool)@,
        forall|j: int|
            old(pool)@.len() <= j < final(pool)@.len() ==> (#[trigger] final(pool)@[j]).is_fresh(
                class,
                class.largest(),
                now,
            ),
{
    let ghost before = pool@;
    let mut i: usize = 0;
    proof {
        assert(pool@.take(before.len() as int) =~= before);
    }
    while i < n
        invariant
            i <= n,
            pool@.len() == before.len() + i,
            pool@.take(before.len() as int) == before,
            forall|j: int|
                before.len() <= j < pool@.len() ==> (#[trigger] pool@[j]).is_fresh(
                    class,
                    class.largest(),
                    now,
                ),
        decreases n - i,
    {
        let ghost prev = pool@;
        pool.push(PooledBuffer::new(class, now));
        proof {
            assert(pool@.take(before.len() as int) =~= prev.take(before.len() as int));
        }
        i += 1;
    }
}

proof fn capacity_without(pool: Seq<PooledBuffer>, i: int)
    requires
        0 <= i < pool.len(),
    ensures
        total_capacity(pool.remove(i)) + pool[i].capacity == total_capacity(pool),
    decreases pool.len(),
{
    let rest = pool.remove(i);
    if i == pool.len() - 1 {
        assert(rest =~= pool.drop_last());
    } else {
        capacity_without(pool.drop_last(), i);
        assert(rest.drop_last() =~= pool.drop_last().remove(i));
        assert(rest.last() == pool.last());
    }
}

/// Drops the expired buffers of a list. Returns their total capacity, capped
/// at the end of the range.
fn drop_expired(pool: &mut Vec<PooledBuffer>, now: u64, max_age: u64) -> (freed: usize)
    ensures
        final(pool)@ == unexpired(old(pool)@, now, max_age),
        total_capacity(final(pool)@) <= total_capacity(old(pool)@),
        ({
            let n = total_capacity(old(pool)@) - total_capacity(final(pool)@);
            freed == if n <= usize::MAX {
                n
            } else {
                usize::MAX as int
            }
        }),
{
    let ghost before = pool@;
    let ghost keep = |b: PooledBuffer| !b.expired(now, max_age);
    let ghost mut k: int = 0;
    let mut freed: usize = 0;
    let mut i: usize = 0;
    proof {
        reveal(Seq::filter);
        assert(before.take(0).filter(keep) + before.skip(0) =~= before);
    }
    while i < pool.len()
        invariant
            keep == (|b: PooledBuffer| !b.expired(now, max_age)),
            0 <= k <= before.len(),
            i == before.take(k).filter(keep).len(),
            pool@ == before.take(k).filter(keep) + before.skip(k),
            total_capacity(pool@) <= total_capacity(before),
            freed == if total_capacity(before) - total_capacity(pool@) <= usize::MAX {
                total_capacity(before) - total_capacity(pool@)
            } else {
                usize::MAX as int
            },
        decreases pool@.len() - i,
    {
        let ghost head = before.take(k).filter(keep);
        proof {
            assert(pool@[i as int] == before.skip(k)[0]);
            filter_step(before, keep, k);
            assert(before.skip(k).skip(1) =~= before.skip(k + 1));
        }
        if pool[i].is_expired(now, max_age) {
            let ghost current = pool@;
            let b: PooledBuffer = pool.remove(i);
            proof {
                capacity_without(current, i as int);
                assert(pool@ =~= head + before.skip(k + 1));
            }
            freed = freed.saturating_add(b.capacity);
        } else {
            proof {
                assert(pool@ =~= head.push(before[k]) + before.skip(k + 1));
            }
            i += 1;
        }
        proof {
            k = k + 1;
        }
    }
    proof {
        let head = before.take(k).filter(keep);
        assert(before.skip(k).len() == 0);
        assert(before.take(k) =~= before);
        assert(pool@ =~= head);
    }
    freed
}

/// Whether any of the first `n` lists became shorter.
pub open spec fn any_shorter(
    before: Seq<Vec<PooledBuffer>>,
    after: Seq<Vec<PooledBuffer>>,
    n: int,
) -> bool {
    exists|i: int| 0 <= i < n && (#[trigger] after[i])@.len() < before[i]@.len()
}

/// The total capacity of the first `n` lists.
pub open spec fn pooled_capacity(pools: Seq<Vec<PooledBuffer>>, n: int) -> nat
    decreases n,
{
    if n <= 0 {
        0
    } else {
        pooled_capacity(pools, n - 1) + total_capacity(pools[n - 1]@)
    }
}

/// The memory in use in the first `n` classes.
pub open spec fn memory_in_use(stats: Seq<SizeClassStats>, n: int) -> nat
    decreases n,
{
    if n <= 0 {
        0
    } else {
        memory_in_use(stats, n - 1) + stats[n - 1].memory_usage as nat
    }
}

fn capacity_of(pool: &Vec<PooledBuffer>) -> (n: usize)
    requires
        total_capacity(pool@) <= usize::MAX,
    ensures
        n == total_capacity(pool@),
{
    let mut n: usize = 0;
    let mut i: usize = 0;
    while i < pool.len()
        invariant
            i <= pool@.len(),
            n == total_capacity(pool@.take(i as int)),
            total_capacity(pool@) <= usize::MAX,
        decreases pool@.len() - i,
    {
        proof {
            let next = pool@.take(i as int + 1);
            assert(next.drop_last() =~= pool@.take(i as int));
            capacity_of_prefix(pool@, i as int + 1);
        }
        n = n + pool[i].capacity;
        i += 1;
    }
    proof {
        assert(pool@.take(pool@.len() as int) =~= pool@);
    }
    n
}

proof fn capacity_of_prefix(pool: Seq<PooledBuffer>, k: int)
    requires
        0 <= k <= pool.len(),
    ensures
        total_capacity(pool.take(k)) <= total_capacity(pool),
    decreases pool.len(),
{
    if k == pool.len() {
        assert(pool.take(k) =~= pool);
    } else {
        assert(pool.drop_last().take(k) =~= pool.take(k));
        capacity_of_prefix(pool.drop_last(), k);
    }
}

impl OptimizedBufferPool {
    /// Whether `after` is this pool after a cleanup: every class that has more
    /// than its minimum lost its expired buffers, and the counters tell what
    /// was freed.
    pub open spec fn cleaned_up(self, after: Self, max_age: u64, now: u64) -> bool {
        let freed = pooled_capacity(self.pools@, SIZE_CLASSES as int) - pooled_capacity(
            after.pools@,
            SIZE_CLASSES as int,
        );
        &&& forall|i: int|
            0 <= i < SIZE_CLASSES ==> (#[trigger] after.pools@[i])@ == cleaned(
                self.pools@[i]@,
                class_at(i),
                now,
                max_age,
            )
        &&& after.last_cleanup == now
        &&& after.last_adaptation == self.last_adaptation
        &&& after.config == self.config
        &&& after.size_history == self.size_history
        &&& after.allocation_times == self.allocation_times
        &&& after.wait_times == self.wait_times
        &&& if any_shorter(self.pools@, after.pools@, SIZE_CLASSES as int) {
            &&& after.global == self.global.after_freeing(freed as nat)
            &&& after.stats@.len() == self.stats@.len()
            &&& forall|i: int|
                0 <= i < self.stats@.len() ==> (#[trigger] after.stats@[i]) == (SizeClassStats {
                    memory_usage: total_capacity(after.pools@[i]@) as usize,
                    ..self.stats@[i]
                })
        } else {
            &&& after.global == self.global
            &&& after.stats == self.stats
        }
    }

    /// Whether `after` is this pool with refreshed statistics.
    pub open spec fn refreshed(self, after: Self, now: u64) -> bool {
        &&& after.pools == self.pools
        &&& after.config == self.config
        &&& after.size_history == self.size_history
        &&& after.allocation_times == self.allocation_times
        &&& after.wait_times == self.wait_times
        &&& after.last_cleanup == self.last_cleanup
        &&& after.last_adaptation == self.last_adaptation
        &&& after.global == self.refreshed_global(now)
        &&& after.stats@.len() == self.stats@.len()
        &&& forall|i: int|
            0 <= i < self.stats@.len() ==> self.refreshed_class(i, #[trigger] after.stats@[i])
    }

    /// Whether a buffer that comes back is worth keeping: not tiny, of a class
    /// that is reused in at least three of ten requests, for the two largest
    /// classes handed out twice or more on average, and of a class that is not
    /// full. Where classes are not counted, only that it is not tiny.
    pub open spec fn keeps(self, capacity: usize, avg_reuse: Measure) -> bool {
        let class = class_of(capacity as nat);
        let s = self.stats@[class.pos()];
        &&& capacity >= MIN_KEPT_CAPACITY
        &&& self.counts_classes() ==> {
            &&& !(Ratio {
                part: s.reuses,
                whole: (s.allocations + s.reuses) as u64,
            }).is_below(3, 10)
            &&& !(avg_reuse.is_below(2000) && (class == SizeClass::Giant || class
                == SizeClass::XLarge))
            &&& self.has_place(capacity)
        }
    }

    /// Whether the class of a buffer is not full.
    pub open spec fn has_place(self, capacity: usize) -> bool {
        self.pools@[class_of(capacity as nat).pos()]@.len() < self.config.max_buffers_per_class
    }

    /// The counters of the class of a buffer have room.
    pub open spec fn class_sums_fit(self, capacity: usize) -> bool {
        let c = class_of(capacity as nat).pos();
        self.counts_classes() ==> self.stats@[c].allocations + self.stats@[c].reuses <= u64::MAX
    }

    /// Whether a buffer that comes back is worth keeping. `avg_reuse` is the
    /// running mean of how often the buffers of its class are handed out.
    pub fn should_keep_buffer(
        &self,
        capacity: usize,
        size_class: SizeClass,
        avg_reuse: Measure,
    ) -> (r: bool)
        requires
            self.wf(),
            size_class == class_of(capacity as nat),
            self.class_sums_fit(capacity),
        ensures
            r == self.keeps(capacity, avg_reuse),
            capacity < 256 ==> !r,
            !self.counts_classes() ==> (r <==> capacity >= 256),
            self.counts_classes() && r ==> {
                let s = self.stats@[size_class.pos()];
                &&& 10 * s.reuses >= 3 * (s.allocations + s.reuses)
                &&& s.allocations + s.reuses > 0
                &&& size_class == SizeClass::Giant || size_class == SizeClass::XLarge
                    ==> avg_reuse.at_least >= 2000
                &&& self.pools@[size_class.pos()]@.len() < self.config.max_buffers_per_class
            },
            self.counts_classes() && !r ==> {
                let s = self.stats@[size_class.pos()];
                ||| capacity < 256
                ||| s.allocations + s.reuses == 0
                ||| 10 * s.reuses < 3 * (s.allocations + s.reuses)
                ||| (size_class == SizeClass::Giant || size_class == SizeClass::XLarge)
                    && avg_reuse.at_least < 2000
                ||| self.pools@[size_class.pos()]@.len() >= self.config.max_buffers_per_class
            },
    {
        if capacity < MIN_KEPT_CAPACITY {
            return false;
        }
        if self.stats.len() == 0 {
            return true;
        }
        let c: usize = size_class.index();
        let s: SizeClassStats = self.stats[c];
        let hit_rate: Ratio = Ratio::new(s.reuses, s.allocations + s.reuses);
        if hit_rate.below(3, 10) {
            return false;
        }
        match size_class {
            SizeClass::Giant | SizeClass::XLarge => {
                if avg_reuse.below(2000) {
                    return false;
                }
            },
            _ => {},
        }
        self.pools[c].len() < self.config.max_buffers_per_class
    }

    /// Takes a buffer back, emptied, or drops it where it is not worth
    /// keeping. Says which.
    pub fn return_buffer(
        &mut self,
        buffer: Vec<u8>,
        capacity: usize,
        avg_reuse: Measure,
        now: u64,
    ) -> (kept: bool)
        requires
            old(self).wf(),
            old(self).class_sums_fit(capacity),
        ensures
            final(self).wf(),
            kept == (old(self).keeps(capacity, avg_reuse) && old(self).has_place(capacity)),
            !kept ==> *final(self) == *old(self),
            kept ==> {
                let c = class_of(capacity as nat).pos();
                let pool = old(self).pools@[c]@;
                &&& final(self).pools@[c]@.len() == pool.len() + 1
                &&& final(self).pools@[c]@.drop_last() == pool
                &&& final(self).pools@[c]@.last().data@ == Seq::<u8>::empty()
                &&& final(self).pools@[c]@.last().capacity == capacity
                &&& final(self).pools@[c]@.last().created_at == now
                &&& final(self).pools@[c]@.last().last_used == now
                &&& final(self).pools@[c]@.last().usage_count == 1
                &&& !final(self).pools@[c]@.last().is_used
                &&& final(self).pools@[c]@.last().size_class == class_of(capacity as nat)
                &&& final(self).pools@[c]@.last().requested_size == capacity
                &&& forall|k: int|
                    0 <= k < SIZE_CLASSES && k != c ==> (#[trigger] final(self).pools@[k])
                        == old(self).pools@[k]
                &&& final(self).stats@ == if old(self).counts_classes() {
                    old(self).stats@.update(c, old(self).stats@[c].after_return(capacity))
                } else {
                    Seq::empty()
                }
                &&& final(self).global == old(self).global.after_return(capacity)
                &&& final(self).config == old(self).config
                &&& final(self).size_history == old(self).size_history
                &&& final(self).allocation_times == old(self).allocation_times
                &&& final(self).wait_times == old(self).wait_times
                &&& final(self).last_cleanup == old(self).last_cleanup
                &&& final(self).last_adaptation == old(self).last_adaptation
            },
            kept && old(self).global.current_memory_usage >= capacity
                ==> final(self).global.current_memory_usage == old(self).global.current_memory_usage
                - capacity,
            kept ==> final(self).global.total_allocations == old(self).global.total_allocations
                && final(self).global.total_reuses == old(self).global.total_reuses,
            kept && old(self).counts_classes() ==> {
                let c = class_of(capacity as nat).pos();
                let (was, later) = (old(self).stats@[c], final(self).stats@[c]);
                &&& was.current_active > 0 ==> later.current_active == was.current_active - 1
                &&& was.memory_usage >= capacity ==> later.memory_usage
                    == was.memory_usage - capacity
                &&& later.allocations == was.allocations && later.reuses == was.reuses
            },
    {
        let size_class: SizeClass = SizeClass::from_size(capacity);
        if !self.should_keep_buffer(capacity, size_class, avg_reuse) {
            return false;
        }
        let c: usize = size_class.index();
        if self.pools[c].len() >= self.config.max_buffers_per_class {
            return false;
        }
        let mut data: Vec<u8> = buffer;
        data.clear();
        let ghost before = *self;
        self.pools[c].push(
            PooledBuffer {
                data,
                capacity,
                size_class,
                created_at: now,
                last_used: now,
                usage_count: 1,
                is_used: false,
                requested_size: capacity,
            },
        );
        if self.stats.len() > 0 {
            let mut s: SizeClassStats = self.stats[c];
            s.current_active = s.current_active.saturating_sub(1);
            s.memory_usage = s.memory_usage.saturating_sub(capacity);
            self.stats.set(c, s);
        }
        self.global.current_memory_usage = self.global.current_memory_usage.saturating_sub(
            capacity,
        );
        proof {
            assert(self.pools@[c as int]@.drop_last() =~= before.pools@[c as int]@);
            assert forall|a: int, b: int|
                0 <= a < SIZE_CLASSES && 0 <= b < self.pools@[a]@.len() implies belongs(
                #[trigger] self.pools@[a]@[b],
                a,
            ) by {
                if a == c {
                    if b < before.pools@[a]@.len() {
                        assert(belongs(before.pools@[a]@[b], a));
                    }
                } else {
                    assert(self.pools@[a] == before.pools@[a]);
                    assert(belongs(before.pools@[a]@[b], a));
                }
            }
        }
        true
    }

    /// Takes note of how long handing out a buffer took.
    pub fn record_times(&mut self, wait_time: u64, allocation_time: u64)
        requires
            old(self).wf(),
        ensures
            final(self).wf(),
            final(self).wait_times@ == remembered(
                old(self).wait_times@,
                wait_time,
                POOL_HISTORY as nat,
            ),
            final(self).allocation_times@ == remembered(
                old(self).allocation_times@,
                allocation_time,
                POOL_HISTORY as nat,
            ),
            final(self).pools == old(self).pools,
            final(self).stats == old(self).stats,
            final(self).global == old(self).global,
            final(self).config == old(self).config,
            final(self).size_history == old(self).size_history,
            final(self).last_cleanup == old(self).last_cleanup,
            final(self).last_adaptation == old(self).last_adaptation,
    {
        remember(&mut self.wait_times, wait_time, POOL_HISTORY);
        remember(&mut self.allocation_times, allocation_time, POOL_HISTORY);
    }

    /// Drops the expired buffers of every class that has more than its
    /// minimum.
    pub fn cleanup_old_buffers(&mut self, max_age: u64, now: u64)
        requires
            old(self).wf(),
            pooled_capacity(old(self).pools@, SIZE_CLASSES as int) <= usize::MAX,
        ensures
            final(self).wf(),
            old(self).cleaned_up(*final(self), max_age, now),
    {
        let ghost before = *self;
        let classes: [SizeClass; 5] = SizeClass::all_classes();
        let mut freed: usize = 0;
        let mut removed_any: bool = false;
        let mut c: usize = 0;
        while c < SIZE_CLASSES
            invariant
                c <= SIZE_CLASSES,
                before.wf(),
                self.wf(),
                forall|i: int| 0 <= i < SIZE_CLASSES ==> #[trigger] classes@[i] == class_at(i),
                self.global == before.global,
                self.stats == before.stats,
                self.config == before.config,
                self.size_history == before.size_history,
                self.allocation_times == before.allocation_times,
                self.wait_times == before.wait_times,
                self.last_adaptation == before.last_adaptation,
                forall|i: int|
                    0 <= i < c ==> (#[trigger] self.pools@[i])@ == cleaned(
                        before.pools@[i]@,
                        class_at(i),
                        now,
                        max_age,
                    ),
                forall|i: int| c <= i < SIZE_CLASSES ==> #[trigger] self.pools@[i]
                    == before.pools@[i],
                removed_any == any_shorter(before.pools@, self.pools@, c as int),
                freed == pooled_capacity(before.pools@, c as int) - pooled_capacity(
                    self.pools@,
                    c as int,
                ),
                pooled_capacity(self.pools@, c as int) <= pooled_capacity(before.pools@, c as int),
                pooled_capacity(before.pools@, SIZE_CLASSES as int) <= usize::MAX,
                !removed_any ==> freed == 0,
            decreases SIZE_CLASSES - c,
        {
            let count: usize = self.pools[c].len();
            let ghost prev = *self;
            let ghost keep = |b: PooledBuffer| !b.expired(now, max_age);
            proof {
                pooled_capacity_grows(before.pools@, c as int + 1, SIZE_CLASSES as int);
                pooled_capacity_grows(before.pools@, c as int, c as int + 1);
            }
            if count > classes[c].min_pool_size() {
                let class_freed: usize = drop_expired(&mut self.pools[c], now, max_age);
                proof {
                    let pool = prev.pools@[c as int]@;
                    assert(pool == before.pools@[c as int]@);
                    pool.lemma_filter_len(keep);
                    same_pooled_capacity(self.pools@, prev.pools@, c as int);
                    assert forall|a: int, b: int|
                        0 <= a < SIZE_CLASSES && 0 <= b < self.pools@[a]@.len() implies belongs(
                        #[trigger] self.pools@[a]@[b],
                        a,
                    ) by {
                        if a == c {
                            filtered_from(pool, keep, b);
                            let j = choose|j: int|
                                0 <= j < pool.len() && pool[j] == self.pools@[a]@[b];
                            assert(belongs(before.pools@[a]@[j], a));
                        } else {
                            assert(self.pools@[a] == prev.pools@[a]);
                            assert(belongs(prev.pools@[a]@[b], a));
                        }
                    }
                    if self.pools@[c as int]@.len() == pool.len() {
                        unfiltered(pool, keep);
                    }
                }
                freed = freed + class_freed;
                if self.pools[c].len() < count {
                    removed_any = true;
                    assert(self.pools@[c as int]@.len() < before.pools@[c as int]@.len());
                }
            }
            proof {
                assert forall|i: int| 0 <= i < c implies #[trigger] self.pools@[i]
                    == prev.pools@[i] by {}
                same_pooled_capacity(self.pools@, prev.pools@, c as int);
                assert(forall|i: int|
                    0 <= i < c && (#[trigger] prev.pools@[i])@.len() < before.pools@[i]@.len()
                        ==> self.pools@[i]@.len() < before.pools@[i]@.len());
            }
            c += 1;
        }
        if removed_any {
            self.global.total_memory_allocated = self.global.total_memory_allocated.saturating_sub(
                freed,
            );
            self.global.current_memory_usage = self.global.current_memory_usage.saturating_sub(
                freed,
            );
            self.update_class_stats();
        }
        self.last_cleanup = now;
    }

    /// Sets the memory in use of every class to the capacity of its free
    /// buffers.
    fn update_class_stats(&mut self)
        requires
            old(self).wf(),
            pooled_capacity(old(self).pools@, SIZE_CLASSES as int) <= usize::MAX,
        ensures
            final(self).wf(),
            final(self).pools == old(self).pools,
            final(self).global == old(self).global,
            final(self).config == old(self).config,
            final(self).size_history == old(self).size_history,
            final(self).allocation_times == old(self).allocation_times,
            final(self).wait_times == old(self).wait_times,
            final(self).last_cleanup == old(self).last_cleanup,
            final(self).last_adaptation == old(self).last_adaptation,
            final(self).stats@.len() == old(self).stats@.len(),
            forall|i: int|
                0 <= i < old(self).stats@.len() ==> (#[trigger] final(self).stats@[i]) == (
                SizeClassStats {
                    memory_usage: total_capacity(old(self).pools@[i]@) as usize,
                    ..old(self).stats@[i]
                }),
    {
        let ghost before = *self;
        let mut c: usize = 0;
        while c < self.stats.len()
            invariant
                c <= self.stats@.len() == before.stats@.len(),
                self.wf(),
                self.pools == before.pools,
                self.global == before.global,
                self.config == before.config,
                self.size_history == before.size_history,
                self.allocation_times == before.allocation_times,
                self.wait_times == before.wait_times,
                self.last_cleanup == before.last_cleanup,
                self.last_adaptation == before.last_adaptation,
                pooled_capacity(before.pools@, SIZE_CLASSES as int) <= usize::MAX,
                forall|i: int|
                    0 <= i < c ==> (#[trigger] self.stats@[i]) == (SizeClassStats {
                        memory_usage: total_capacity(before.pools@[i]@) as usize,
                        ..before.stats@[i]
                    }),
                forall|i: int| c <= i < before.stats@.len() ==> (#[trigger] self.stats@[i])
                    == before.stats@[i],
            decreases before.stats@.len() - c,
        {
            proof {
                pooled_capacity_grows(self.pools@, c as int + 1, SIZE_CLASSES as int);
            }
            let mut s: SizeClassStats = self.stats[c];
            s.memory_usage = capacity_of(&self.pools[c]);
            self.stats.set(c, s);
            c += 1;
        }
    }

    /// The age that a forced cleanup allows.
    pub open spec fn forced_age(self) -> u64 {
        if self.config.enable_adaptive_pooling {
            10_000_000_000
        } else {
            0
        }
    }

    /// The age that regular cleanups allow.
    pub open spec fn regular_age(self) -> u64 {
        (self.config.max_buffer_age_secs * 1_000_000_000) as u64
    }

    /// Cleans up with the age that a forced cleanup allows: ten seconds, or
    /// none without adaptive pooling. Then refreshes the statistics.
    pub fn force_cleanup(&mut self, now: u64)
        requires
            old(self).wf(),
            pooled_capacity(old(self).pools@, SIZE_CLASSES as int) <= usize::MAX,
            old(self).sums_fit(),
        ensures
            final(self).wf(),
            exists|mid: OptimizedBufferPool| #[trigger]
                old(self).cleaned_up(mid, old(self).forced_age(), now)
                    && mid.refreshed(*final(self), now),
    {
        let max_age: u64 = if self.config.enable_adaptive_pooling {
            10_000_000_000
        } else {
            0
        };
        self.cleanup_old_buffers(max_age, now);
        let ghost mid = *self;
        self.update_statistics(now);
        proof {
            assert(old(self).cleaned_up(mid, old(self).forced_age(), now));
            assert(mid.refreshed(*self, now));
        }
    }

    /// One round of upkeep: cleanup with the configured age, fresh statistics
    /// and, with adaptive pooling, an adjustment of the pool sizes. Says
    /// whether the configuration is due for adaptation: more than thirty
    /// seconds after the last time.
    pub fn maintain(&mut self, now: u64) -> (adapt: bool)
        requires
            old(self).wf(),
            old(self).sums_fit(),
            pooled_capacity(old(self).pools@, SIZE_CLASSES as int) <= usize::MAX,
            old(self).config.target_hit_percent * 12 <= u64::MAX,
            old(self).config.max_buffer_age_secs * 1_000_000_000 <= u64::MAX,
            forall|i: int|
                0 <= i < old(self).stats@.len() ==> (#[trigger] old(self).stats@[i]).peak_active * 6
                    <= usize::MAX,
            old(self).config.max_buffers_per_class + 10 <= usize::MAX,
        ensures
            final(self).wf(),
            exists|cleaned: OptimizedBufferPool, fresh: OptimizedBufferPool|
                #![trigger old(self).cleaned_up(cleaned, old(self).regular_age(), now),
                    cleaned.refreshed(fresh, now)]
                {
                    &&& old(self).cleaned_up(cleaned, old(self).regular_age(), now)
                    &&& cleaned.refreshed(fresh, now)
                    &&& if old(self).config.enable_adaptive_pooling {
                        fresh.adjusted(final(self).pools@, now)
                    } else {
                        final(self).pools == fresh.pools
                    }
                    &&& *final(self) == (OptimizedBufferPool {
                        pools: final(self).pools,
                        last_adaptation: final(self).last_adaptation,
                        ..fresh
                    })
                },
            adapt == (now - old(self).last_adaptation > 30_000_000_000),
            final(self).last_adaptation == if adapt {
                now
            } else {
                old(self).last_adaptation
            },
            adapt <==> now > old(self).last_adaptation + 30_000_000_000,
    {
        let max_age: u64 = self.config.max_buffer_age_secs * 1_000_000_000;
        self.cleanup_old_buffers(max_age, now);
        let ghost cleaned = *self;
        self.update_statistics(now);
        let ghost fresh = *self;
        if self.config.enable_adaptive_pooling {
            self.adaptive_pool_adjustment(now);
        }
        let adapt: bool = now.saturating_sub(self.last_adaptation) > 30_000_000_000;
        if adapt {
            self.last_adaptation = now;
        }
        proof {
            assert(old(self).cleaned_up(cleaned, old(self).regular_age(), now));
            assert(cleaned.refreshed(fresh, now));
        }
        adapt
    }

    /// The sums that the statistics need do not overflow.
    pub open spec fn sums_fit(self) -> bool {
        &&& self.global.total_allocations + self.global.total_reuses <= u64::MAX
        &&& forall|i: int|
            0 <= i < self.stats@.len() ==> (#[trigger] self.stats@[i]).allocations
                + self.stats@[i].reuses <= u64::MAX
    }

    /// The pool's counters after a refresh.
    pub open spec fn refreshed_global(self, now: u64) -> GlobalStats {
        let ops = (self.global.total_allocations + self.global.total_reuses) as u64;
        let hit = Ratio { part: self.global.total_reuses, whole: ops };
        if ops == 0 {
            self.global
        } else {
            GlobalStats {
                current_hit_rate: hit,
                peak_hit_rate: if hit.exceeds(self.global.peak_hit_rate) {
                    hit
                } else {
                    self.global.peak_hit_rate
                },
                last_hit_rate_calc: now,
                memory_in_use: Ratio {
                    part: capped(memory_in_use(self.stats@, self.stats@.len() as int)),
                    whole: self.global.total_memory_allocated as u64,
                },
                ..self.global
            }
        }
    }

    /// Whether `s` are the counters of the class at `i` after a refresh.
    pub open spec fn refreshed_class(self, i: int, s: SizeClassStats) -> bool {
        let b = self.stats@[i];
        let ops = (b.allocations + b.reuses) as u64;
        &&& s.allocations == b.allocations
        &&& s.reuses == b.reuses
        &&& s.current_active == b.current_active
        &&& s.peak_active == b.peak_active
        &&& s.memory_usage == b.memory_usage
        &&& s.peak_memory == b.peak_memory
        &&& if ops == 0 {
            s.hit_rate == b.hit_rate && s.miss_rate == b.miss_rate
        } else {
            &&& s.hit_rate == (Ratio { part: b.reuses, whole: ops })
            &&& s.miss_rate == (Ratio { part: b.allocations, whole: ops })
        }
        &&& if self.allocation_times@.len() == 0 {
            s.allocation_time_avg == b.allocation_time_avg && s.allocation_time_p95
                == b.allocation_time_p95
        } else {
            &&& s.allocation_time_avg == mean(in_micros(self.allocation_times@))
            &&& is_percentile(
                in_micros(self.allocation_times@),
                95,
                Some(s.allocation_time_p95),
            )
        }
        &&& s.wait_time_avg == if self.wait_times@.len() == 0 {
            b.wait_time_avg as nat
        } else {
            total(self.wait_times@) / 1000 / self.wait_times@.len()
        }
    }

    /// Refreshes hit rates and mean times.
    pub fn update_statistics(&mut self, now: u64)
        requires
            old(self).wf(),
            old(self).sums_fit(),
        ensures
            final(self).wf(),
            old(self).refreshed(*final(self), now),
    {
        let ghost before = *self;
        let ops: u64 = self.global.total_allocations + self.global.total_reuses;
        if ops > 0 {
            let hit: Ratio = Ratio::new(self.global.total_reuses, ops);
            let in_use: u64 = self.used_memory();
            self.global.current_hit_rate = hit;
            self.global.peak_hit_rate = self.global.peak_hit_rate.max(hit);
            self.global.last_hit_rate_calc = now;
            self.global.memory_in_use = Ratio::new(
                in_use,
                self.global.total_memory_allocated as u64,
            );
        }
        let times: Vec<u64> = micros_of(&to_list(&self.allocation_times));
        let avg: u64 = mean_u64(&times);
        let p95: Option<u64> = percentile(&times, 95);
        let waits: Vec<u64> = to_list(&self.wait_times);
        let wait_sum: u128 = sum_u64(&waits);
        let wait_avg: u64 = if waits.len() == 0 {
            0
        } else {
            proof {
                total_bounded(waits@, u64::MAX);
                let n = waits@.len();
                let t = total(waits@);
                assert((t / 1000) / n <= u64::MAX) by (nonlinear_arith)
                    requires
                        t <= n * u64::MAX,
                        n > 0,
                ;
            }
            (wait_sum / 1000 / (waits.len() as u128)) as u64
        };
        let mut c: usize = 0;
        while c < self.stats.len()
            invariant
                c <= self.stats@.len() == before.stats@.len(),
                self.wf(),
                before.sums_fit(),
                self.global == before.refreshed_global(now),
                self.pools == before.pools,
                self.config == before.config,
                self.size_history == before.size_history,
                self.allocation_times == before.allocation_times,
                self.wait_times == before.wait_times,
                self.last_cleanup == before.last_cleanup,
                self.last_adaptation == before.last_adaptation,
                times@ == in_micros(before.allocation_times@),
                waits@ == before.wait_times@,
                avg == mean(times@),
                is_percentile(times@, 95, p95),
                waits@.len() > 0 ==> wait_avg == total(waits@) / 1000 / waits@.len(),
                forall|i: int| c <= i < before.stats@.len() ==> (#[trigger] self.stats@[i])
                    == before.stats@[i],
                forall|i: int|
                    0 <= i < c ==> before.refreshed_class(i, #[trigger] self.stats@[i]),
            decreases before.stats@.len() - c,
        {
            let mut s: SizeClassStats = self.stats[c];
            proof {
                assert(before.stats@[c as int].allocations + before.stats@[c as int].reuses
                    <= u64::MAX);
            }
            let class_ops: u64 = s.allocations + s.reuses;
            if class_ops > 0 {
                s.hit_rate = Ratio::new(s.reuses, class_ops);
                s.miss_rate = Ratio::new(s.allocations, class_ops);
            }
            match p95 {
                Some(t) => {
                    s.allocation_time_avg = avg;
                    s.allocation_time_p95 = t;
                },
                None => {},
            }
            if waits.len() > 0 {
                s.wait_time_avg = wait_avg;
            }
            self.stats.set(c, s);
            c += 1;
        }
    }

    fn used_memory(&self) -> (n: u64)
        requires
            self.wf(),
        ensures
            n == capped(memory_in_use(self.stats@, self.stats@.len() as int)),
    {
        let mut n: u64 = 0;
        let mut c: usize = 0;
        while c < self.stats.len()
            invariant
                c <= self.stats@.len(),
                n == capped(memory_in_use(self.stats@, c as int)),
            decreases self.stats@.len() - c,
        {
            n = n.saturating_add(self.stats[c].memory_usage as u64);
            c += 1;
        }
        n
    }

    /// The share of requests that were served by reuse.
    pub fn get_reuse_rate(&self) -> (r: Ratio)
        requires
            self.global.total_allocations + self.global.total_reuses <= u64::MAX,
        ensures
            r == (Ratio {
                part: self.global.total_reuses,
                whole: (self.global.total_allocations + self.global.total_reuses) as u64,
            }),
    {
        Ratio::new(
            self.global.total_reuses,
            self.global.total_allocations + self.global.total_reuses,
        )
    }

    /// Brings every class closer to `target` buffers: up to twenty fresh
    /// buffers are added to each class below it.
    pub fn grow_pools(&mut self, target: usize, now: u64)
        requires
            old(self).wf(),
        ensures
            final(self).wf(),
            *final(self) == (OptimizedBufferPool { pools: final(self).pools, ..*old(self) }),
            forall|i: int|
                0 <= i < SIZE_CLASSES ==> grown(
                    old(self).pools@[i]@,
                    (#[trigger] final(self).pools@[i])@,
                    class_at(i),
                    target as nat,
                    now,
                ),
    {
        let ghost before = *self;
        let classes: [SizeClass; 5] = SizeClass::all_classes();
        let mut c: usize = 0;
        while c < SIZE_CLASSES
            invariant
                c <= SIZE_CLASSES,
                self.wf(),
                before.wf(),
                forall|i: int| 0 <= i < SIZE_CLASSES ==> #[trigger] classes@[i] == class_at(i),
                self.stats == before.stats,
                self.global == before.global,
                self.config == before.config,
                self.size_history == before.size_history,
                self.allocation_times == before.allocation_times,
                self.wait_times == before.wait_times,
                self.last_cleanup == before.last_cleanup,
                self.last_adaptation == before.last_adaptation,
                forall|i: int| c <= i < SIZE_CLASSES ==> (#[trigger] self.pools@[i])
                    == before.pools@[i],
                forall|i: int|
                    0 <= i < c ==> grown(
                        before.pools@[i]@,
                        (#[trigger] self.pools@[i])@,
                        class_at(i),
                        target as nat,
                        now,
                    ),
            decreases SIZE_CLASSES - c,
        {
            let count: usize = self.pools[c].len();
            let ghost prev = *self;
            if count < target {
                let missing: usize = target - count;
                let to_add: usize = if missing < MAX_ADDED {
                    missing
                } else {
                    MAX_ADDED
                };
                extend_with_fresh(&mut self.pools[c], classes[c], to_add, now);
                proof {
                    assert forall|a: int, b: int|
                        0 <= a < SIZE_CLASSES && 0 <= b < self.pools@[a]@.len() implies belongs(
                        #[trigger] self.pools@[a]@[b],
                        a,
                    ) by {
                        if a == c {
                            if b < count {
                                assert(self.pools@[a]@[b] == self.pools@[a]@.take(count as int)[b]);
                                assert(belongs(prev.pools@[a]@[b], a));
                            }
                        } else {
                            assert(self.pools@[a] == prev.pools@[a]);
                            assert(belongs(prev.pools@[a]@[b], a));
                        }
                    }
                }
            }
            proof {
                assert(self.pools@[c as int]@.take(count as int) =~= prev.pools@[c as int]@);
            }
            c += 1;
        }
    }

    /// Brings every class closer to the size it is allowed.
    pub fn increase_pool_sizes(&mut self, now: u64)
        requires
            old(self).wf(),
        ensures
            final(self).wf(),
            *final(self) == (OptimizedBufferPool { pools: final(self).pools, ..*old(self) }),
            forall|i: int|
                0 <= i < SIZE_CLASSES ==> grown(
                    old(self).pools@[i]@,
                    (#[trigger] final(self).pools@[i])@,
                    class_at(i),
                    old(self).config.max_buffers_per_class as nat,
                    now,
                ),
    {
        self.grow_pools(self.config.max_buffers_per_class, now);
    }

    /// The number of buffers a class needs: its peak with a margin that
    /// shrinks as the hit rate grows, but no more than it is allowed.
    pub open spec fn needed(self, i: int) -> nat {
        let s = self.stats@[i];
        let n = if s.hit_rate.is_above(9, 10) {
            (s.peak_active * 6 / 5) as nat
        } else if s.hit_rate.is_above(7, 10) {
            (s.peak_active * 3 / 2) as nat
        } else {
            (s.peak_active * 2) as nat
        };
        if n <= self.config.max_buffers_per_class {
            n
        } else {
            self.config.max_buffers_per_class as nat
        }
    }

    /// A class after it was cut back to its need. Where classes are not counted,
    /// no need is known.
    pub open spec fn trimmed(self, i: int) -> Seq<PooledBuffer> {
        if self.counts_classes() {
            shrunk(self.pools@[i]@, self.needed(i))
        } else {
            self.pools@[i]@
        }
    }

    /// Takes up to ten buffers from every class that has more than ten above
    /// its need, the newest ones first.
    pub fn optimize_pool_sizes(&mut self)
        requires
            old(self).wf(),
            forall|i: int|
                0 <= i < old(self).stats@.len() ==> (#[trigger] old(self).stats@[i]).peak_active * 6
                    <= usize::MAX,
            old(self).config.max_buffers_per_class + 10 <= usize::MAX,
        ensures
            final(self).wf(),
            *final(self) == (OptimizedBufferPool { pools: final(self).pools, ..*old(self) }),
            forall|i: int|
                0 <= i < SIZE_CLASSES ==> (#[trigger] final(self).pools@[i])@ == old(self).trimmed(
                    i,
                ),
    {
        let ghost before = *self;
        if self.stats.len() == 0 {
            return ;
        }
        let mut c: usize = 0;
        while c < SIZE_CLASSES
            invariant
                c <= SIZE_CLASSES,
                self.wf(),
                before.wf(),
                before.counts_classes(),
                self.stats == before.stats,
                self.global == before.global,
                self.config == before.config,
                self.size_history == before.size_history,
                self.allocation_times == before.allocation_times,
                self.wait_times == before.wait_times,
                self.last_cleanup == before.last_cleanup,
                self.last_adaptation == before.last_adaptation,
                forall|i: int|
                    0 <= i < before.stats@.len() ==> (#[trigger] before.stats@[i]).peak_active * 6
                        <= usize::MAX,
                before.config.max_buffers_per_class + 10 <= usize::MAX,
                forall|i: int| c <= i < SIZE_CLASSES ==> (#[trigger] self.pools@[i])
                    == before.pools@[i],
                forall|i: int|
                    0 <= i < c ==> (#[trigger] self.pools@[i])@ == before.trimmed(i),
            decreases SIZE_CLASSES - c,
        {
            let s: SizeClassStats = self.stats[c];
            proof {
                assert(before.stats@[c as int].peak_active * 6 <= usize::MAX);
            }
            let mut optimal: usize = if s.hit_rate.above(9, 10) {
                s.peak_active * 6 / 5
            } else if s.hit_rate.above(7, 10) {
                s.peak_active * 3 / 2
            } else {
                s.peak_active * 2
            };
            if optimal > self.config.max_buffers_per_class {
                optimal = self.config.max_buffers_per_class;
            }
            let count: usize = self.pools[c].len();
            let ghost prev = *self;
            if count > optimal + 10 {
                self.pools[c].truncate(count - MAX_REMOVED);
                proof {
                    assert(self.pools@[c as int]@ =~= prev.pools@[c as int]@.take(count - 10));
                    assert forall|a: int, b: int|
                        0 <= a < SIZE_CLASSES && 0 <= b < self.pools@[a]@.len() implies belongs(
                        #[trigger] self.pools@[a]@[b],
                        a,
                    ) by {
                        assert(belongs(prev.pools@[a]@[b], a));
                    }
                }
            }
            c += 1;
        }
    }

    /// Whether the pool's lists became `after` by an adjustment to the hit
    /// rate.
    pub open spec fn adjusted(self, after: Seq<Vec<PooledBuffer>>, now: u64) -> bool {
        let rate = self.global.current_hit_rate;
        let target = self.config.target_hit_percent as nat;
        &&& after.len() == SIZE_CLASSES
        &&& forall|i: int|
            0 <= i < SIZE_CLASSES ==> {
                let pool = self.pools@[i]@;
                let pool_after = (#[trigger] after[i])@;
                if rate.is_below(target * 8, 1000) {
                    grown(
                        pool,
                        pool_after,
                        class_at(i),
                        self.config.max_buffers_per_class as nat,
                        now,
                    )
                } else if rate.is_above(target * 12, 1000) {
                    pool_after == self.trimmed(i)
                } else {
                    pool_after == pool
                }
            }
    }

    /// Grows the pool where the hit rate is below four fifths of its target,
    /// shrinks it where it is above six fifths.
    pub fn adaptive_pool_adjustment(&mut self, now: u64)
        requires
            old(self).wf(),
            old(self).config.target_hit_percent * 12 <= u64::MAX,
            forall|i: int|
                0 <= i < old(self).stats@.len() ==> (#[trigger] old(self).stats@[i]).peak_active * 6
                    <= usize::MAX,
            old(self).config.max_buffers_per_class + 10 <= usize::MAX,
        ensures
            final(self).wf(),
            *final(self) == (OptimizedBufferPool { pools: final(self).pools, ..*old(self) }),
            old(self).adjusted(final(self).pools@, now),
            ({
                let rate = old(self).global.current_hit_rate;
                let target = old(self).config.target_hit_percent;
                let low = rate.whole > 0 && rate.part * 1000 < target * 8 * rate.whole;
                let high = rate.whole > 0 && rate.part * 1000 > target * 12 * rate.whole;
                forall|i: int|
                    0 <= i < SIZE_CLASSES ==> {
                        let was = old(self).pools@[i]@;
                        let later = (#[trigger] final(self).pools@[i])@;
                        &&& low ==> later.len() >= was.len() && (was.len() < old(
                            self,
                        ).config.max_buffers_per_class ==> later.len() > was.len())
                        &&& !low && high ==> later.len() <= was.len()
                        &&& !low && !high && rate.whole > 0 ==> later == was
                    }
            }),
    {
        let rate: Ratio = self.global.current_hit_rate;
        if rate.below(self.config.target_hit_percent * 8, 1000) {
            self.increase_pool_sizes(now);
        } else if rate.above(self.config.target_hit_percent * 12, 1000) {
            self.optimize_pool_sizes();
        }
    }
}

/// Whether `after` is `before` with fresh buffers added: up to twenty, and not
/// beyond the target.
pub open spec fn grown(
    before: Seq<PooledBuffer>,
    after: Seq<PooledBuffer>,
    class: SizeClass,
    target: nat,
    now: u64,
) -> bool {
    let added = if before.len() >= target {
        0
    } else if target - before.len() < MAX_ADDED {
        target - before.len()
    } else {
        MAX_ADDED as int
    };
    &&& after.len() == before.len() + added
    &&& after.take(before.len() as int) == before
    &&& forall|j: int|
        before.len() <= j < after.len() ==> (#[trigger] after[j]).is_fresh(
            class,
            class.largest(),
            now,
        )
}

/// A list with its last ten entries gone, where it has more than ten above the
/// need.
pub open spec fn shrunk(pool: Seq<PooledBuffer>, needed: nat) -> Seq<PooledBuffer> {
    if pool.len() > needed + 10 {
        pool.take(pool.len() - MAX_REMOVED)
    } else {
        pool
    }
}

proof fn pooled_capacity_grows(pools: Seq<Vec<PooledBuffer>>, i: int, j: int)
    requires
        0 <= i <= j,
    ensures
        pooled_capacity(pools, i) <= pooled_capacity(pools, j),
    decreases j,
{
    if i < j {
        pooled_capacity_grows(pools, i, j - 1);
    }
}

proof fn same_pooled_capacity(a: Seq<Vec<PooledBuffer>>, b: Seq<Vec<PooledBuffer>>, n: int)
    requires
        forall|i: int| 0 <= i < n ==> #[trigger] a[i] == b[i],
    ensures
        pooled_capacity(a, n) == pooled_capacity(b, n),
    decreases n,
{
    if n > 0 {
        same_pooled_capacity(a, b, n - 1);
        assert(a[n - 1] == b[n - 1]);
    }
}

proof fn unfiltered(pool: Seq<PooledBuffer>, keep: spec_fn(PooledBuffer) -> bool)
    requires
        pool.filter(keep).len() == pool.len(),
    ensures
        pool.filter(keep) == pool,
    decreases pool.len(),
{
    reveal(Seq::filter);
    if pool.len() > 0 {
        pool.drop_last().lemma_filter_len(keep);
        unfiltered(pool.drop_last(), keep);
        assert(pool.filter(keep) =~= pool);
    }
}

/// What the pool reports of one class, or of all of them together.
#[derive(Debug, Clone, Copy)]
pub struct ClassDetailStats {
    pub class_name: &'static str,
    pub allocations: u64,
    pub reuses: u64,
    pub current_active: usize,
    pub peak_active: usize,
    pub hit_rate: Ratio,
    pub memory_usage: usize,
    pub allocation_time_us: u64,
}

impl OptimizedBufferPool {
    /// What the pool reports: one entry for each class that is counted, smallest
    /// first, and the entry `Global` last.
    pub fn get_detailed_stats(&self) -> (r: Vec<ClassDetailStats>)
        requires
            self.wf(),
        ensures
            r@.len() == self.stats@.len() + 1,
            forall|i: int|
                0 <= i < self.stats@.len() ==> is_class_report(
                    #[trigger] r@[i],
                    class_at(i),
                    self.stats@[i],
                ),
            self.is_global_report(r@.last()),
    {
        let classes: [SizeClass; 5] = SizeClass::all_classes();
        let mut r: Vec<ClassDetailStats> = Vec::new();
        let mut c: usize = 0;
        while c < self.stats.len()
            invariant
                self.wf(),
                c <= self.stats@.len(),
                forall|i: int| 0 <= i < SIZE_CLASSES ==> #[trigger] classes@[i] == class_at(i),
                r@.len() == c,
                forall|i: int|
                    0 <= i < c ==> is_class_report(#[trigger] r@[i], class_at(i), self.stats@[i]),
            decreases self.stats@.len() - c,
        {
            r.push(self.class_details(classes[c]));
            c += 1;
        }
        r.push(
            ClassDetailStats {
                class_name: "Global",
                allocations: self.global.total_allocations,
                reuses: self.global.total_reuses,
                current_active: 0,
                peak_active: 0,
                hit_rate: self.global.current_hit_rate,
                memory_usage: self.global.current_memory_usage,
                allocation_time_us: 0,
            },
        );
        r
    }

    /// Whether `d` reports on all classes together.
    pub open spec fn is_global_report(self, d: ClassDetailStats) -> bool {
        &&& d.class_name@ == "Global"@
        &&& d.allocations == self.global.total_allocations
        &&& d.reuses == self.global.total_reuses
        &&& d.current_active == 0
        &&& d.peak_active == 0
        &&& d.hit_rate == self.global.current_hit_rate
        &&& d.memory_usage == self.global.current_memory_usage
        &&& d.allocation_time_us == 0
    }

    fn class_details(&self, class: SizeClass) -> (d: ClassDetailStats)
        requires
            self.wf(),
            self.counts_classes(),
        ensures
            is_class_report(d, class, self.stats@[class.pos()]),
    {
        let s: SizeClassStats = self.stats[class.index()];
        ClassDetailStats {
            class_name: class.name(),
            allocations: s.allocations,
            reuses: s.reuses,
            current_active: s.current_active,
            peak_active: s.peak_active,
            hit_rate: s.hit_rate,
            memory_usage: s.memory_usage,
            allocation_time_us: s.allocation_time_avg,
        }
    }

    /// Another pool with the same settings and no buffers. It counts nothing by
    /// class.
    pub fn empty_copy(&self, now: u64) -> (p: Self)
        ensures
            p.wf(),
            p.config == self.config,
            p.global == GlobalStats::none(now),
            p.size_history@.len() == 0,
            p.allocation_times@.len() == 0,
            p.wait_times@.len() == 0,
            p.last_cleanup == now,
            p.last_adaptation == now,
            p.stats@.len() == 0,
            forall|i: int| 0 <= i < SIZE_CLASSES ==> (#[trigger] p.pools@[i])@.len() == 0,
    {
        let mut p: OptimizedBufferPool = OptimizedBufferPool::new(0, now);
        p.config = self.config;
        p.stats = Vec::new();
        p
    }
}

/// Whether `d` reports the counters of a class.
pub open spec fn is_class_report(d: ClassDetailStats, class: SizeClass, s: SizeClassStats) -> bool {
    &&& d.class_name@ == match class {
        SizeClass::Small => "Small"@,
        SizeClass::Medium => "Medium"@,
        SizeClass::Large => "Large"@,
        SizeClass::XLarge => "XLarge"@,
        SizeClass::Giant => "Giant"@,
    }
    &&& d.allocations == s.allocations
    &&& d.reuses == s.reuses
    &&& d.current_active == s.current_active
    &&& d.peak_active == s.peak_active
    &&& d.hit_rate == s.hit_rate
    &&& d.memory_usage == s.memory_usage
    &&& d.allocation_time_us == s.allocation_time_avg
}

/// A buffer that is handed out again serves a request it is large enough for,
/// and wastes no more than half of itself.
pub proof fn reused_buffers_fit(pool: OptimizedBufferPool, requested: nat)
    requires
        pool.wf(),
        pool.source(requested) is Some,
    ensures
        ({
            let (class, i) = pool.source(requested).unwrap();
            &&& 0 <= i < pool.pools@[class.pos()]@.len()
            &&& requested <= pool.pools@[class.pos()]@[i].capacity <= 2 * requested
            &&& class.pos() >= class_of(requested).pos()
        }),
{
    let class = class_of(requested);
    let all = seq![class] + class.fallbacks();
    choice_is_valid(pool.pools@, all, requested);
    let (c, i) = pool.source(requested).unwrap();
    let k = choose|k: int| 0 <= k < all.len() && all[k] == c;
    if k > 0 {
        fallbacks_are_larger(class, k - 1);
    }
}

proof fn choice_is_valid(
    pools: Seq<Vec<PooledBuffer>>,
    classes: Seq<SizeClass>,
    requested: nat,
)
    requires
        choice(pools, classes, requested) is Some,
    ensures
        ({
            let (c, i) = choice(pools, classes, requested).unwrap();
            &&& classes.contains(c)
            &&& 0 <= i < pools[c.pos()]@.len()
            &&& pools[c.pos()]@[i].fits(requested)
        }),
    decreases classes.len(),
{
    let pool = pools[classes[0].pos()]@;
    match first_fit(pool, requested, 0) {
        Some(i) => {
            first_fit_is_valid(pool, requested, 0);
            assert(classes[0] == classes[0]);
        },
        None => {
            choice_is_valid(pools, classes.skip(1), requested);
            let (c, i) = choice(pools, classes.skip(1), requested).unwrap();
            let k = choose|k: int| 0 <= k < classes.skip(1).len() && classes.skip(1)[k] == c;
            assert(classes[k + 1] == c);
        },
    }
}

proof fn first_fit_is_valid(pool: Seq<PooledBuffer>, requested: nat, k: int)
    requires
        k >= 0,
        first_fit(pool, requested, k) is Some,
    ensures
        ({
            let i = first_fit(pool, requested, k).unwrap();
            k <= i < pool.len() && pool[i].fits(requested)
        }),
    decreases pool.len() - k,
{
    if k < pool.len() && !pool[k].fits(requested) {
        first_fit_is_valid(pool, requested, k + 1);
    }
}

/// No buffer is made while one fits: where any pooled buffer is free, large
/// enough, at most twice as large as asked for and used fewer than a thousand
/// times, one of the pool is handed out. It is of the class of the request
/// where that class has one, and then the first of those.
pub proof fn fitting_buffers_are_reused(
    pool: OptimizedBufferPool,
    requested: nat,
    c: int,
    j: int,
)
    requires
        pool.wf(),
        0 <= c < SIZE_CLASSES,
        0 <= j < pool.pools@[c]@.len(),
        !pool.pools@[c]@[j].is_used,
        requested <= pool.pools@[c]@[j].capacity <= 2 * requested,
        pool.pools@[c]@[j].usage_count < 1000,
    ensures
        pool.source(requested) is Some,
        c == class_of(requested).pos() ==> {
            let (class, i) = pool.source(requested).unwrap();
            &&& class == class_of(requested)
            &&& i <= j
        },
{
    let b = pool.pools@[c]@[j];
    assert(belongs(b, c));
    assert(b.fits(requested));
    let class = class_of(requested);
    let all = seq![class] + class.fallbacks();
    assert(class_at(c).pos() == c);
    assert(class_of(b.capacity as nat).pos() == c);
    let k = c - class.pos();
    assert(0 <= k < all.len() && all[k] == class_at(c));
    assert(all[0] == class);
    choice_is_found(pool.pools@, all, requested, k, j);
    if k == 0 {
        first_fit_is_found(pool.pools@[c]@, requested, 0, j);
    }
}

proof fn choice_is_found(
    pools: Seq<Vec<PooledBuffer>>,
    classes: Seq<SizeClass>,
    requested: nat,
    k: int,
    j: int,
)
    requires
        0 <= k < classes.len(),
        0 <= j < pools[classes[k].pos()]@.len(),
        pools[classes[k].pos()]@[j].fits(requested),
    ensures
        choice(pools, classes, requested) is Some,
    decreases classes.len(),
{
    if k == 0 {
        first_fit_is_found(pools[classes[0].pos()]@, requested, 0, j);
    } else {
        assert(classes.skip(1)[k - 1] == classes[k]);
        choice_is_found(pools, classes.skip(1), requested, k - 1, j);
    }
}

proof fn first_fit_is_found(pool: Seq<PooledBuffer>, requested: nat, k: int, j: int)
    requires
        0 <= k <= j < pool.len(),
        pool[j].fits(requested),
    ensures
        first_fit(pool, requested, k) is Some,
        k <= first_fit(pool, requested, k).unwrap() <= j,
    decreases pool.len() - k,
{
    if !pool[k].fits(requested) {
        first_fit_is_found(pool, requested, k + 1, j);
    }
}

/// A buffer that is handed out leaves the pool, alone: the others stay, each as
/// often as it was there. Where one is made, the pool stays as it was.
pub proof fn handed_out_buffers_leave(
    before: OptimizedBufferPool,
    after: OptimizedBufferPool,
    r: Acquired,
    requested: nat,
)
    requires
        before.wf(),
        before.served(after, r, requested),
    ensures
        before.source(requested) is None ==> after.pools == before.pools,
        before.source(requested) matches Some((class, i)) ==> {
            let (was, later) = (before.pools@[class.pos()]@, after.pools@[class.pos()]@);
            &&& 0 <= i < was.len()
            &&& later.len() == was.len() - 1
            &&& later.to_multiset() == was.to_multiset().remove(was[i])
            &&& r.capacity == was[i].capacity
            &&& r.usage_count == was[i].usage_count + 1
            &&& forall|k: int|
                0 <= k < SIZE_CLASSES && k != class.pos() ==> (#[trigger] after.pools@[k])
                    == before.pools@[k]
        },
{
    if let Some((class, i)) = before.source(requested) {
        let all = seq![class_of(requested)] + class_of(requested).fallbacks();
        choice_is_valid(before.pools@, all, requested);
        swapping_out_removes_one(before.pools@[class.pos()]@, i);
    }
}

proof fn swapping_out_removes_one(s: Seq<PooledBuffer>, i: int)
    requires
        0 <= i < s.len(),
    ensures
        swapped_out(s, i).to_multiset() == s.to_multiset().remove(s[i]),
        swapped_out(s, i).len() == s.len() - 1,
{
    broadcast use vstd::seq_lib::group_to_multiset_ensures;

    let rest = s.drop_last();
    assert(s =~= rest.push(s.last()));
    if i == s.len() - 1 {
        assert(swapped_out(s, i) =~= rest);
        assert(rest.to_multiset() =~= s.to_multiset().remove(s.last()));
    } else {
        assert(swapped_out(s, i) =~= rest.update(i, s.last()));
        assert(rest.update(i, s.last()).to_multiset() =~= rest.to_multiset().insert(
            s.last(),
        ).remove(rest[i]));
        assert(s.to_multiset() =~= rest.to_multiset().insert(s.last()));
    }
}

/// Every request counts once: as a reuse where a pooled buffer served it, as an
/// allocation where one was made.
pub proof fn requests_for_buffers_are_counted(
    before: OptimizedBufferPool,
    after: OptimizedBufferPool,
    r: Acquired,
    requested: nat,
)
    requires
        before.wf(),
        before.counts_classes(),
        before.served(after, r, requested),
        before.room_for(r.capacity as nat),
    ensures
        ({
            let c = r.class.pos();
            let made = before.source(requested) is None;
            &&& after.global.total_allocations == before.global.total_allocations + if made {
                1int
            } else {
                0
            }
            &&& after.global.total_reuses == before.global.total_reuses + if made {
                0int
            } else {
                1
            }
            &&& after.stats@[c].allocations == before.stats@[c].allocations + if made {
                1int
            } else {
                0
            }
            &&& after.stats@[c].reuses == before.stats@[c].reuses + if made {
                0int
            } else {
                1
            }
            &&& after.stats@[c].current_active == before.stats@[c].current_active + 1
            &&& after.stats@[c].memory_usage == before.stats@[c].memory_usage + r.capacity
            &&& forall|k: int|
                0 <= k < SIZE_CLASSES && k != c ==> (#[trigger] after.stats@[k])
                    == before.stats@[k]
        }),
{
    assert(before.stats@[r.class.pos()].room_for(r.capacity as nat));
}

/// A cleanup removes from a pool that holds more than its class always keeps
/// the buffers that were idle for too long, and those over an hour old that are
/// more than half empty and were used fewer than five times; no others. The
/// rest keep their order. A smaller pool stays as it is.
pub proof fn cleanups_remove_what_expired(
    pool: Seq<PooledBuffer>,
    class: SizeClass,
    now: u64,
    max_age: u64,
    j: int,
)
    requires
        0 <= j < pool.len(),
    ensures
        ({
            let b = pool[j];
            let after = cleaned(pool, class, now, max_age);
            let idle = now > b.last_used + max_age;
            let old = now > b.created_at + 3_600_000_000_000 && (b.capacity == 0 || 2
                * b.requested_size < b.capacity) && b.usage_count < 5;
            &&& pool.len() <= class.kept() ==> after == pool
            &&& pool.len() > class.kept() ==> (after.contains(b) <==> !idle && !old)
            &&& after.len() <= pool.len()
            &&& pool.len() > class.kept() ==> after == pool.filter(
                |x: PooledBuffer|
                    !(now > x.last_used + max_age) && !(now > x.created_at + 3_600_000_000_000 && (
                    x.capacity == 0 || 2 * x.requested_size < x.capacity) && x.usage_count < 5),
            )
        }),
{
    broadcast use vstd::seq_lib::group_filter_ensures;

    let live = |x: PooledBuffer| !x.expired(now, max_age);
    let raw = |x: PooledBuffer|
        !(now > x.last_used + max_age) && !(now > x.created_at + 3_600_000_000_000 && (x.capacity
            == 0 || 2 * x.requested_size < x.capacity) && x.usage_count < 5);
    assert(live =~= raw);
    let after = pool.filter(live);
    if after.contains(pool[j]) {
        let i = choose|i: int| 0 <= i < after.len() && after[i] == pool[j];
        assert(live(after[i]));
    }
    if live(pool[j]) {
        assert(after.contains(pool[j]));
    }
}

/// A pool grows by as much as it lacks of its target, but by no more than
/// twenty buffers at a time, and keeps those it has.
pub proof fn pools_grow_towards_their_target(
    before: Seq<PooledBuffer>,
    after: Seq<PooledBuffer>,
    class: SizeClass,
    target: nat,
    now: u64,
)
    requires
        grown(before, after, class, target, now),
    ensures
        before.len() <= after.len() <= before.len() + 20,
        before.len() >= target ==> after == before,
        before.len() < target ==> after.len() <= target,
        before.len() < target <= before.len() + 20 ==> after.len() == target,
        before.len() + 20 <= target ==> after.len() == before.len() + 20,
        forall|i: int| 0 <= i < before.len() ==> after[i] == before[i],
{
    assert forall|i: int| 0 <= i < before.len() implies after[i] == before[i] by {
        assert(after.take(before.len() as int)[i] == before[i]);
    }
    if before.len() >= target {
        assert(after =~= before);
    }
}

/// A pool shrinks by ten buffers, and only where it holds more than ten over
/// what is needed; so it always holds what is needed. The first ones stay.
pub proof fn pools_keep_what_is_needed(pool: Seq<PooledBuffer>, needed: nat)
    ensures
        pool.len() <= needed + 10 ==> shrunk(pool, needed) == pool,
        pool.len() > needed + 10 ==> shrunk(pool, needed).len() == pool.len() - 10,
        pool.len() >= needed ==> shrunk(pool, needed).len() >= needed,
        forall|i: int|
            0 <= i < shrunk(pool, needed).len() ==> #[trigger] shrunk(pool, needed)[i] == pool[i],
{
}

/// The hit rate is the part of all requests that were served by reuse, and the
/// highest one on record is never below it.
pub proof fn hit_rates_are_shares(before: OptimizedBufferPool, after: OptimizedBufferPool, now: u64)
    requires
        before.refreshed(after, now),
        before.sums_fit(),
        before.global.total_allocations + before.global.total_reuses > 0,
    ensures
        after.global.current_hit_rate.part == before.global.total_reuses,
        after.global.current_hit_rate.whole == before.global.total_allocations
            + before.global.total_reuses,
        !after.global.current_hit_rate.exceeds(after.global.peak_hit_rate)
            || after.global.peak_hit_rate
            == after.global.current_hit_rate,
        after.global.last_hit_rate_calc == now,
        after.global.total_allocations == before.global.total_allocations,
        after.global.total_reuses == before.global.total_reuses,
        after.pools == before.pools,
{
}

/// A buffer that is made has the largest size of the class of the request, or,
/// where that is not enough, just the size that was asked for.
pub proof fn made_buffers_fill_their_class(requested: nat)
    ensures
        ({
            let made = OptimizedBufferPool::fresh_capacity(requested);
            &&& made >= requested
            &&& requested <= 1024 ==> made == 1024
            &&& 1024 < requested <= 8192 ==> made == 8192
            &&& 8192 < requested <= 65536 ==> made == 65536
            &&& 65536 < requested <= 262144 ==> made == 262144
            &&& 262144 < requested <= 1048576 ==> made == 1048576
            &&& requested > 1048576 ==> made == requested
        }),
{
}

/// How many buffers of a class are needed: six fifths of the most that were in
/// use at once where nine in ten requests were reuses, one and a half times as
/// many where seven in ten were, else twice as many; but never more than a pool
/// may hold.
pub proof fn needs_follow_the_hit_rate(pool: OptimizedBufferPool, i: int)
    requires
        0 <= i < pool.stats@.len(),
    ensures
        ({
            let s = pool.stats@[i];
            let (hits, all, peak) = (s.hit_rate.part, s.hit_rate.whole, s.peak_active as int);
            let n = pool.needed(i);
            let most = pool.config.max_buffers_per_class;
            &&& n <= most
            &&& all > 0 && 10 * hits > 9 * all && 6 * peak / 5 <= most ==> n == 6 * peak / 5
            &&& all > 0 && 9 * all >= 10 * hits > 7 * all && 3 * peak / 2 <= most ==> n == 3 * peak
                / 2
            &&& (all == 0 || 10 * hits <= 7 * all) && 2 * peak <= most ==> n == 2 * peak
        }),
{
}

/// A forced cleanup leaves, in a pool that holds more than its class always
/// keeps, only what was used within ten seconds, or just now where the pool does
/// not adapt; a regular one what was used within the age that is set.
pub proof fn cleanups_have_their_ages(pool: OptimizedBufferPool)
    ensures
        pool.config.enable_adaptive_pooling ==> pool.forced_age() == 10_000_000_000,
        !pool.config.enable_adaptive_pooling ==> pool.forced_age() == 0,
        pool.config.max_buffer_age_secs * 1_000_000_000 <= u64::MAX ==> pool.regular_age()
            == pool.config.max_buffer_age_secs * 1_000_000_000,
{
}

/// The memory that a cleanup frees is that of the buffers it removes, and is no
/// longer counted as used.
pub proof fn cleanups_free_what_they_remove(
    before: OptimizedBufferPool,
    after: OptimizedBufferPool,
    max_age: u64,
    now: u64,
)
    requires
        before.wf(),
        before.cleaned_up(after, max_age, now),
        any_shorter(before.pools@, after.pools@, SIZE_CLASSES as int),
    ensures
        ({
            let freed = pooled_capacity(before.pools@, SIZE_CLASSES as int) - pooled_capacity(
                after.pools@,
                SIZE_CLASSES as int,
            );
            &&& 0 <= freed <= before.global.current_memory_usage
                ==> after.global.current_memory_usage == before.global.current_memory_usage - freed
        }),
        after.global.total_allocations == before.global.total_allocations,
        after.global.total_reuses == before.global.total_reuses,
{
}

/// What is told of each class: which part of its requests were reuses and which
/// allocations, together all of them, and the times of the pool on average and
/// at the 95th percentile, in microseconds.
pub proof fn class_rates_are_shares(
    before: OptimizedBufferPool,
    after: OptimizedBufferPool,
    now: u64,
    i: int,
)
    requires
        before.refreshed(after, now),
        before.sums_fit(),
        0 <= i < before.stats@.len(),
        before.stats@[i].allocations + before.stats@[i].reuses > 0,
    ensures
        ({
            let (b, s) = (before.stats@[i], after.stats@[i]);
            &&& s.hit_rate.part == b.reuses
            &&& s.miss_rate.part == b.allocations
            &&& s.hit_rate.whole == b.allocations + b.reuses
            &&& s.miss_rate.whole == s.hit_rate.whole
            &&& s.allocations == b.allocations && s.reuses == b.reuses
            &&& before.allocation_times@.len() > 0 ==> is_percentile(
                before.allocation_times@.map_values(|t: u64| (t / 1000) as u64),
                95,
                Some(s.allocation_time_p95),
            )
        }),
{
    assert(before.refreshed_class(i, after.stats@[i]));
    assert(in_micros(before.allocation_times@) =~= before.allocation_times@.map_values(
        |t: u64| (t / 1000) as u64,
    ));
}

} // verus!
