//! A pool of buffers by purpose.
//!
//! Points in time and durations are nanoseconds.

use bytes::Bytes;
use vstd::prelude::*;

use crate::buffer::{bytes_content, bytes_from_vec};
use crate::history::{filter_step, filtered_from};

verus! {

/// What a buffer is for.
#[derive(Debug, Clone, Copy, PartialEq, Eq, Hash, Structural)]
pub enum BufferType {
    /// Reading from the network.
    Read,
    /// Writing to the network.
    Write,
    /// Cryptographic operations.
    Crypto,
    /// Anything short-lived.
    Temporary,
}

/// The number of buffer types.
pub const BUFFER_TYPES: usize = 4;

/// How many free buffers of one type are kept.
pub const MAX_POOL_SIZE: usize = 100;

/// Above this much allocated memory, four fifths of 512 MB, memory is short.
pub const PRESSURE_LIMIT: usize = 429_496_729;

impl BufferType {
    /// Position of the type.
    pub open spec fn pos(self) -> int {
        match self {
            BufferType::Read => 0,
            BufferType::Write => 1,
            BufferType::Crypto => 2,
            BufferType::Temporary => 3,
        }
    }

    /// The usual size of a buffer.
    pub open spec fn usual(self) -> usize {
        match self {
            BufferType::Read => 8192,
            BufferType::Write => 8192,
            BufferType::Crypto => 65536,
            BufferType::Temporary => 32768,
        }
    }

    /// The largest size of a buffer.
    pub open spec fn largest(self) -> usize {
        match self {
            BufferType::Read => 131072,
            BufferType::Write => 131072,
            BufferType::Crypto => 262144,
            BufferType::Temporary => 65536,
        }
    }

    /// The size of a buffer made for a request: at least the usual size, at
    /// most the largest.
    pub open spec fn size_for(self, min_size: usize) -> usize {
        let wanted = if min_size > self.usual() {
            min_size
        } else {
            self.usual()
        };
        if wanted < self.largest() {
            wanted
        } else {
            self.largest()
        }
    }

    /// The usual size of a buffer.
    pub fn default_size(&self) -> (n: usize)
        ensures
            n == self.usual(),
            self is Read || self is Write ==> n == 8 * 1024,
            self is Temporary ==> n == 32 * 1024,
            self is Crypto ==> n == 64 * 1024,
    {
        match self {
            BufferType::Read => 8192,
            BufferType::Write => 8192,
            BufferType::Crypto => 65536,
            BufferType::Temporary => 32768,
        }
    }

    /// The largest size of a buffer.
    pub fn max_size(&self) -> (n: usize)
        ensures
            n == self.largest(),
            self is Read || self is Write ==> n == 128 * 1024,
            self is Temporary ==> n == 64 * 1024,
            self is Crypto ==> n == 256 * 1024,
    {
        match self {
            BufferType::Read => 131072,
            BufferType::Write => 131072,
            BufferType::Crypto => 262144,
            BufferType::Temporary => 65536,
        }
    }

    /// The name of the type.
    pub fn name(&self) -> (s: &'static str)
        ensures
            s@ == match *self {
                BufferType::Read => "Read"@,
                BufferType::Write => "Write"@,
                BufferType::Crypto => "Crypto"@,
                BufferType::Temporary => "Temporary"@,
            },
    {
        match self {
            BufferType::Read => "Read",
            BufferType::Write => "Write",
            BufferType::Crypto => "Crypto",
            BufferType::Temporary => "Temporary",
        }
    }

    fn index(&self) -> (i: usize)
        ensures
            i == self.pos(),
            i < BUFFER_TYPES,
    {
        match self {
            BufferType::Read => 0,
            BufferType::Write => 1,
            BufferType::Crypto => 2,
            BufferType::Temporary => 3,
        }
    }
}

/// A buffer that was handed out.
#[derive(Debug)]
pub struct BufferHandle {
    pub buffer: Vec<u8>,
    pub buffer_type: BufferType,
    /// The size the buffer was made with.
    pub capacity: usize,
}

impl BufferHandle {
    /// The bytes in the buffer.
    pub fn as_slice(&self) -> (s: &[u8])
        ensures
            s@ == self.buffer@,
    {
        self.buffer.as_slice()
    }

    /// The buffer, for writing.
    pub fn buffer_mut(&mut self) -> (b: &mut Vec<u8>)
        ensures
            *b == old(self).buffer,
            *final(self) == (BufferHandle { buffer: *final(b), ..*old(self) }),
    {
        &mut self.buffer
    }

    /// The number of bytes in the buffer.
    pub fn len(&self) -> (n: usize)
        ensures
            n == self.buffer@.len(),
    {
        self.buffer.len()
    }

    /// Whether the buffer is empty.
    pub fn is_empty(&self) -> (r: bool)
        ensures
            r == (self.buffer@.len() == 0),
    {
        self.buffer.len() == 0
    }

    /// What the buffer has room for: the size it was made with, or more where
    /// it holds more.
    pub open spec fn room(self) -> usize {
        if self.buffer@.len() > self.capacity {
            self.buffer@.len() as usize
        } else {
            self.capacity
        }
    }

    /// What the buffer has room for.
    pub fn capacity(&self) -> (n: usize)
        ensures
            n == self.room(),
            n >= self.buffer@.len() && n >= self.capacity,
            n == self.buffer@.len() || n == self.capacity,
    {
        if self.buffer.len() > self.capacity {
            self.buffer.len()
        } else {
            self.capacity
        }
    }

    /// What the buffer is for.
    pub fn buffer_type(&self) -> (t: BufferType)
        ensures
            t == self.buffer_type,
    {
        self.buffer_type
    }

    /// The bytes in the buffer, for sharing. The pool does not learn of it: see
    /// `freeze_buffer` for that.
    pub fn freeze(self) -> (b: Bytes)
        ensures
            bytes_content(b) == self.buffer@,
    {
        bytes_from_vec(self.buffer)
    }
}

/// A free buffer.
#[derive(Debug)]
pub struct FreeBuffer {
    pub buffer: Vec<u8>,
    pub created_at: u64,
    pub last_used: u64,
    pub size: usize,
}

/// Counters of the pool.
#[derive(Debug, Clone, Copy)]
pub struct BufferStats {
    pub total_allocated: usize,
    pub currently_used: usize,
    pub allocation_count: u64,
    pub reuse_count: u64,
    pub memory_pressure_alerts: u64,
    pub peak_memory_usage: usize,
}

impl Default for BufferStats {
    fn default() -> (s: Self)
        ensures
            s == (BufferStats {
                total_allocated: 0,
                currently_used: 0,
                allocation_count: 0,
                reuse_count: 0,
                memory_pressure_alerts: 0,
                peak_memory_usage: 0,
            }),
    {
        BufferStats {
            total_allocated: 0,
            currently_used: 0,
            allocation_count: 0,
            reuse_count: 0,
            memory_pressure_alerts: 0,
            peak_memory_usage: 0,
        }
    }
}

impl BufferStats {
    /// After a free buffer was handed out.
    pub open spec fn after_reuse(self) -> BufferStats {
        BufferStats {
            currently_used: (self.currently_used + 1) as usize,
            reuse_count: (self.reuse_count + 1) as u64,
            ..self
        }
    }

    /// After a new buffer was handed out. An alert is counted where memory was
    /// short already.
    pub open spec fn after_allocation(self, size: usize) -> BufferStats {
        let allocated = (self.total_allocated + size) as usize;
        BufferStats {
            total_allocated: allocated,
            currently_used: (self.currently_used + 1) as usize,
            allocation_count: (self.allocation_count + 1) as u64,
            memory_pressure_alerts: if self.total_allocated > PRESSURE_LIMIT {
                (self.memory_pressure_alerts + 1) as u64
            } else {
                self.memory_pressure_alerts
            },
            peak_memory_usage: if allocated > self.peak_memory_usage {
                allocated
            } else {
                self.peak_memory_usage
            },
            ..self
        }
    }

    /// The counters have room for one more buffer.
    pub open spec fn room(self) -> bool {
        &&& self.total_allocated + 262144 <= usize::MAX
        &&& self.currently_used < usize::MAX
        &&& self.allocation_count < u64::MAX
        &&& self.reuse_count < u64::MAX
        &&& self.memory_pressure_alerts < u64::MAX
    }
}

/// The first free buffer at or behind `k` with at least the given size.
pub open spec fn first_large_enough(pool: Seq<FreeBuffer>, min_size: usize, k: int) -> Option<int>
    decreases pool.len() - k,
{
    if k >= pool.len() {
        None
    } else if pool[k].size >= min_size {
        Some(k)
    } else {
        first_large_enough(pool, min_size, k + 1)
    }
}

/// Whether the buffer at `i` has been free the longest, the first of several.
pub open spec fn is_oldest(pool: Seq<FreeBuffer>, i: int) -> bool {
    &&& 0 <= i < pool.len()
    &&& forall|j: int| 0 <= j < i ==> pool[i].last_used < (#[trigger] pool[j]).last_used
    &&& forall|j: int| i < j < pool.len() ==> pool[i].last_used <= (#[trigger] pool[j]).last_used
}

/// The list without the entry at `i`; the last entry takes its place.
pub open spec fn swapped_out<T>(s: Seq<T>, i: int) -> Seq<T> {
    s.update(i, s.last()).drop_last()
}

/// The free buffers that are no older than `max_age`.
pub open spec fn young(pool: Seq<FreeBuffer>, now: u64, max_age: u64) -> Seq<FreeBuffer> {
    pool.filter(|b: FreeBuffer| !(now - b.created_at > max_age))
}

/// Whether all buffers of a list are empty.
pub open spec fn all_empty(pool: Seq<FreeBuffer>) -> bool {
    forall|j: int| 0 <= j < pool.len() ==> (#[trigger] pool[j]).buffer@.len() == 0
}

/// The pool.
#[derive(Debug)]
pub struct UnifiedBufferPool {
    pub pools: Vec<Vec<FreeBuffer>>,
    pub stats: BufferStats,
}

fn oldest(pool: &Vec<FreeBuffer>) -> (i: usize)
    requires
        pool@.len() > 0,
    ensures
        is_oldest(pool@, i as int),
{
    let mut best: usize = 0;
    let mut k: usize = 1;
    while k < pool.len()
        invariant
            best < k <= pool@.len(),
            forall|j: int| 0 <= j < best ==> pool@[best as int].last_used < (
            #[trigger] pool@[j]).last_used,
            forall|j: int| best < j < k ==> pool@[best as int].last_used <= (
            #[trigger] pool@[j]).last_used,
        decreases pool@.len() - k,
    {
        if pool[k].last_used < pool[best].last_used {
            best = k;
        }
        k += 1;
    }
    best
}

impl UnifiedBufferPool {
    /// One list of free, empty buffers for each type.
    pub open spec fn wf(self) -> bool {
        &&& self.pools@.len() == BUFFER_TYPES
        &&& forall|i: int| 0 <= i < BUFFER_TYPES ==> all_empty((#[trigger] self.pools@[i])@)
    }

    /// A pool without buffers.
    pub fn new() -> (p: Self)
        ensures
            p.wf(),
            forall|i: int| 0 <= i < BUFFER_TYPES ==> (#[trigger] p.pools@[i])@.len() == 0,
            p.stats == (BufferStats {
                total_allocated: 0,
                currently_used: 0,
                allocation_count: 0,
                reuse_count: 0,
                memory_pressure_alerts: 0,
                peak_memory_usage: 0,
            }),
    {
        let mut pools: Vec<Vec<FreeBuffer>> = Vec::new();
        pools.push(Vec::new());
        pools.push(Vec::new());
        pools.push(Vec::new());
        pools.push(Vec::new());
        UnifiedBufferPool { pools, stats: BufferStats::default() }
    }

    /// Another pool: nothing is pooled, and nothing is counted.
    pub fn empty_copy(&self) -> (p: Self)
        ensures
            p.wf(),
            forall|i: int| 0 <= i < BUFFER_TYPES ==> (#[trigger] p.pools@[i])@.len() == 0,
            p.stats == (BufferStats {
                total_allocated: 0,
                currently_used: 0,
                allocation_count: 0,
                reuse_count: 0,
                memory_pressure_alerts: 0,
                peak_memory_usage: 0,
            }),
    {
        UnifiedBufferPool::new()
    }

    /// Hands out an empty buffer: the first free one of the type that is large
    /// enough, or a new one.
    pub fn acquire_buffer(&mut self, buffer_type: BufferType, min_size: usize) -> (h: BufferHandle)
        requires
            old(self).wf(),
            old(self).stats.room(),
        ensures
            final(self).wf(),
            h.buffer@.len() == 0,
            h.buffer_type == buffer_type,
            min_size <= buffer_type.largest() ==> h.capacity >= min_size,
            ({
                let pool = old(self).pools@[buffer_type.pos()]@;
                match first_large_enough(pool, min_size, 0) {
                    Some(i) => {
                        &&& h.capacity == pool[i].size
                        &&& final(self).pools@[buffer_type.pos()]@ == swapped_out(pool, i)
                        &&& final(self).stats == old(self).stats.after_reuse()
                    },
                    None => {
                        &&& h.capacity == buffer_type.size_for(min_size)
                        &&& final(self).pools@[buffer_type.pos()]@ == pool
                        &&& final(self).stats == old(self).stats.after_allocation(
                            buffer_type.size_for(min_size),
                        )
                    },
                }
            }),
            forall|k: int|
                0 <= k < BUFFER_TYPES && k != buffer_type.pos() ==> (
                #[trigger] final(self).pools@[k]) == old(self).pools@[k],
            h.capacity < min_size ==> h.capacity == buffer_type.largest(),
            final(self).stats.currently_used == old(self).stats.currently_used + 1,
            final(self).stats.allocation_count + final(self).stats.reuse_count == old(
                self,
            ).stats.allocation_count + old(self).stats.reuse_count + 1,
            (exists|j: int|
                0 <= j < old(self).pools@[buffer_type.pos()]@.len() && (#[trigger] old(
                    self,
                ).pools@[buffer_type.pos()]@[j]).size >= min_size) ==> {
                &&& final(self).stats.reuse_count == old(self).stats.reuse_count + 1
                &&& final(self).stats.total_allocated == old(self).stats.total_allocated
                &&& final(self).stats.peak_memory_usage == old(self).stats.peak_memory_usage
                &&& h.capacity >= min_size
            },
            final(self).stats.reuse_count == old(self).stats.reuse_count ==> {
                &&& final(self).stats.total_allocated == old(self).stats.total_allocated
                    + h.capacity
                &&& final(self).stats.peak_memory_usage >= final(self).stats.total_allocated
            },
    {
        proof {
            let pool = self.pools@[buffer_type.pos()]@;
            assert forall|j: int| 0 <= j < pool.len() && (#[trigger] pool[j]).size
                >= min_size implies first_large_enough(pool, min_size, 0) is Some by {
                large_enough_buffers_are_reused(pool, min_size, j);
            }
        }
        let t: usize = buffer_type.index();
        let mut i: usize = 0;
        while i < self.pools[t].len()
            invariant
                *self == *old(self),
                self.wf(),
                t == buffer_type.pos(),
                t < BUFFER_TYPES,
                i <= self.pools@[t as int]@.len(),
                self.stats.room(),
                first_large_enough(self.pools@[t as int]@, min_size, 0) == first_large_enough(
                    self.pools@[t as int]@,
                    min_size,
                    i as int,
                ),
            decreases self.pools@[t as int]@.len() - i,
        {
            if self.pools[t][i].size >= min_size {
                assert(all_empty(self.pools@[t as int]@));
                let free: FreeBuffer = self.pools[t].swap_remove(i);
                self.stats.currently_used = self.stats.currently_used + 1;
                self.stats.reuse_count = self.stats.reuse_count + 1;
                return BufferHandle { buffer: free.buffer, buffer_type, capacity: free.size };
            }
            i += 1;
        }
        let mut size: usize = buffer_type.default_size();
        if min_size > size {
            size = min_size;
        }
        if size > buffer_type.max_size() {
            size = buffer_type.max_size();
        }
        if self.check_memory_pressure() {
            self.stats.memory_pressure_alerts = self.stats.memory_pressure_alerts + 1;
        }
        self.stats.total_allocated = self.stats.total_allocated + size;
        self.stats.currently_used = self.stats.currently_used + 1;
        self.stats.allocation_count = self.stats.allocation_count + 1;
        if self.stats.total_allocated > self.stats.peak_memory_usage {
            self.stats.peak_memory_usage = self.stats.total_allocated;
        }
        BufferHandle { buffer: Vec::with_capacity(size), buffer_type, capacity: size }
    }

    /// Whether memory is short.
    pub fn check_memory_pressure(&self) -> (r: bool)
        ensures
            r == (self.stats.total_allocated > PRESSURE_LIMIT),
    {
        self.stats.total_allocated > PRESSURE_LIMIT
    }

    /// Whether a buffer of a type and a size came back, so that one less is in
    /// use. A full pool drops its oldest free buffer first.
    pub open spec fn has_taken_back(
        self,
        after: UnifiedBufferPool,
        buffer_type: BufferType,
        size: usize,
        now: u64,
    ) -> bool {
        let t = buffer_type.pos();
        let pool = self.pools@[t]@;
        let free = after.pools@[t]@;
        &&& free.len() > 0
        &&& free.last().buffer@.len() == 0
        &&& free.last().size == size
        &&& free.last().created_at == now
        &&& free.last().last_used == now
        &&& pool.len() < MAX_POOL_SIZE ==> free.drop_last() == pool
        &&& pool.len() >= MAX_POOL_SIZE ==> exists|i: int| #[trigger]
            is_oldest(pool, i) && free.drop_last() == swapped_out(pool, i)
        &&& forall|k: int|
            0 <= k < BUFFER_TYPES && k != t ==> (#[trigger] after.pools@[k]) == self.pools@[k]
        &&& after.stats == (BufferStats {
            currently_used: if self.stats.currently_used > 0 {
                (self.stats.currently_used - 1) as usize
            } else {
                0
            },
            ..self.stats
        })
    }

    /// The bytes in a buffer, for sharing. What comes back to the pool is a
    /// buffer without room.
    pub fn freeze_buffer(&mut self, handle: BufferHandle, now: u64) -> (b: Bytes)
        requires
            old(self).wf(),
        ensures
            final(self).wf(),
            bytes_content(b) == handle.buffer@,
            old(self).has_taken_back(*final(self), handle.buffer_type, 0, now),
    {
        let buffer_type: BufferType = handle.buffer_type;
        let content: Bytes = handle.freeze();
        self.release_buffer(BufferHandle { buffer: Vec::new(), buffer_type, capacity: 0 }, now);
        content
    }

    /// Takes a buffer back, emptied. It is kept with all the room it has.
    pub fn release_buffer(&mut self, handle: BufferHandle, now: u64)
        requires
            old(self).wf(),
        ensures
            final(self).wf(),
            old(self).has_taken_back(*final(self), handle.buffer_type, handle.room(), now),
    {
        let t: usize = handle.buffer_type.index();
        let size: usize = handle.capacity();
        let mut buffer: Vec<u8> = handle.buffer;
        buffer.clear();
        let ghost pool = self.pools@[t as int]@;
        assert(all_empty(pool));
        if self.pools[t].len() >= MAX_POOL_SIZE {
            let i: usize = oldest(&self.pools[t]);
            let _dropped: FreeBuffer = self.pools[t].swap_remove(i);
            assert(is_oldest(pool, i as int));
        }
        let ghost kept = self.pools@[t as int]@;
        self.pools[t].push(
            FreeBuffer { buffer, created_at: now, last_used: now, size },
        );
        self.stats.currently_used = self.stats.currently_used.saturating_sub(1);
        proof {
            assert(self.pools@[t as int]@.drop_last() =~= kept);
        }
    }

    /// Drops the free buffers that are older than `max_age`.
    pub fn cleanup_old_buffers(&mut self, max_age: u64, now: u64)
        requires
            old(self).wf(),
        ensures
            final(self).wf(),
            final(self).stats == old(self).stats,
            forall|i: int|
                0 <= i < BUFFER_TYPES ==> (#[trigger] final(self).pools@[i])@ == young(
                    old(self).pools@[i]@,
                    now,
                    max_age,
                ),
            forall|i: int|
                0 <= i < BUFFER_TYPES ==> (#[trigger] final(self).pools@[i])@ == old(
                    self,
                ).pools@[i]@.filter(|b: FreeBuffer| now - b.created_at <= max_age),
    {
        let ghost before = *self;
        let mut t: usize = 0;
        while t < BUFFER_TYPES
            invariant
                t <= BUFFER_TYPES,
                self.wf(),
                self.stats == before.stats,
                forall|i: int| t <= i < BUFFER_TYPES ==> (#[trigger] self.pools@[i])
                    == before.pools@[i],
                forall|i: int|
                    0 <= i < t ==> (#[trigger] self.pools@[i])@ == young(
                        before.pools@[i]@,
                        now,
                        max_age,
                    ),
            decreases BUFFER_TYPES - t,
        {
            drop_old(&mut self.pools[t], max_age, now);
            t += 1;
        }
        proof {
            let kept = |b: FreeBuffer| now - b.created_at <= max_age;
            let young_one = |b: FreeBuffer| !(now - b.created_at > max_age);
            assert(kept =~= young_one);
        }
    }

    /// Drops all free buffers; what is left counts as allocated: nothing.
    pub fn force_cleanup(&mut self)
        requires
            old(self).wf(),
        ensures
            final(self).wf(),
            forall|i: int| 0 <= i < BUFFER_TYPES ==> (#[trigger] final(self).pools@[i])@.len() == 0,
            final(self).stats == (BufferStats {
                total_allocated: 0,
                currently_used: 0,
                ..old(self).stats
            }),
    {
        let ghost before = *self;
        let mut t: usize = 0;
        while t < BUFFER_TYPES
            invariant
                t <= BUFFER_TYPES,
                self.wf(),
                self.stats == before.stats,
                forall|i: int| 0 <= i < t ==> (#[trigger] self.pools@[i])@.len() == 0,
            decreases BUFFER_TYPES - t,
        {
            self.pools[t].clear();
            t += 1;
        }
        self.stats.total_allocated = 0;
        self.stats.currently_used = 0;
    }

    /// The counters.
    pub fn get_stats(&self) -> (s: BufferStats)
        ensures
            s == self.stats,
    {
        self.stats
    }
}

fn drop_old(pool: &mut Vec<FreeBuffer>, max_age: u64, now: u64)
    ensures
        all_empty(old(pool)@) ==> all_empty(final(pool)@),
        final(pool)@ == young(old(pool)@, now, max_age),
{
    let ghost before = pool@;
    let ghost keep = |b: FreeBuffer| !(now - b.created_at > max_age);
    let ghost mut k: int = 0;
    let mut i: usize = 0;
    proof {
        reveal(Seq::filter);
        assert(before.take(0).filter(keep) + before.skip(0) =~= before);
    }
    while i < pool.len()
        invariant
            keep == (|b: FreeBuffer| !(now - b.created_at > max_age)),
            0 <= k <= before.len(),
            i == before.take(k).filter(keep).len(),
            pool@ == before.take(k).filter(keep) + before.skip(k),
        decreases pool@.len() - i,
    {
        let ghost head = before.take(k).filter(keep);
        proof {
            assert(pool@[i as int] == before.skip(k)[0]);
            filter_step(before, keep, k);
            assert(before.skip(k).skip(1) =~= before.skip(k + 1));
        }
        if now.saturating_sub(pool[i].created_at) > max_age {
            let _dropped: FreeBuffer = pool.remove(i);
            proof {
                assert(pool@ =~= head + before.skip(k + 1));
            }
        } else {
            proof {
                assert(pool@ =~= head.push(before[k]) + before.skip(k + 1));
            }
            i += 1;
        }
        proof {
            k = k + 1;
        }
    }
    proof {
        assert(before.skip(k).len() == 0);
        assert(before.take(k) =~= before);
        assert(pool@ =~= before.take(k).filter(keep));
        assert forall|j: int| all_empty(before) && 0 <= j < pool@.len() implies (
        #[trigger] pool@[j]).buffer@.len() == 0 by {
            filtered_from(before, keep, j);
            let i = choose|i: int| 0 <= i < before.len() && before[i] == pool@[j];
            assert(before[i].buffer@.len() == 0);
        }
    }
}

/// No buffer is made while a free one of its type is large enough: the first
/// such one is handed out and leaves the pool, alone, and counts as a reuse.
pub proof fn large_enough_buffers_are_reused(pool: Seq<FreeBuffer>, min_size: usize, j: int)
    requires
        0 <= j < pool.len(),
        pool[j].size >= min_size,
    ensures
        first_large_enough(pool, min_size, 0) matches Some(i) && 0 <= i <= j && pool[i].size
            >= min_size && swapped_out(pool, i).to_multiset() == pool.to_multiset().remove(pool[i])
            && (forall|k: int| 0 <= k < i ==> (#[trigger] pool[k]).size < min_size),
{
    first_is_found(pool, min_size, 0, j);
    let i = first_large_enough(pool, min_size, 0)->0;
    swapping_out_takes_one(pool, i);
}

proof fn first_is_found(pool: Seq<FreeBuffer>, min_size: usize, k: int, j: int)
    requires
        0 <= k <= j < pool.len(),
        pool[j].size >= min_size,
    ensures
        first_large_enough(pool, min_size, k) matches Some(i) && k <= i <= j && pool[i].size
            >= min_size && (forall|m: int| k <= m < i ==> (#[trigger] pool[m]).size < min_size),
    decreases pool.len() - k,
{
    if pool[k].size < min_size {
        first_is_found(pool, min_size, k + 1, j);
    }
}

proof fn swapping_out_takes_one<T>(s: Seq<T>, i: int)
    requires
        0 <= i < s.len(),
    ensures
        swapped_out(s, i).to_multiset() == s.to_multiset().remove(s[i]),
        swapped_out(s, i).len() == s.len() - 1,
{
    broadcast use vstd::seq_lib::group_to_multiset_ensures;

    let rest = s.drop_last();
    assert(s =~= rest.push(s.last()));
    if i == s.len() - 1 {
        assert(swapped_out(s, i) =~= rest);
        assert(rest.to_multiset() =~= s.to_multiset().remove(s.last()));
    } else {
        assert(swapped_out(s, i) =~= rest.update(i, s.last()));
        assert(rest.update(i, s.last()).to_multiset() =~= rest.to_multiset().insert(
            s.last(),
        ).remove(rest[i]));
        assert(s.to_multiset() =~= rest.to_multiset().insert(s.last()));
    }
}

/// A buffer that comes back joins the free ones of its type. They are never
/// more than a hundred: where there were as many, the one that was used longest
/// ago makes room, and no other.
pub proof fn returned_buffers_are_pooled(
    before: UnifiedBufferPool,
    after: UnifiedBufferPool,
    buffer_type: BufferType,
    size: usize,
    now: u64,
)
    requires
        before.wf(),
        before.has_taken_back(after, buffer_type, size, now),
        before.pools@[buffer_type.pos()]@.len() <= 100,
    ensures
        ({
            let (was, later) = (
                before.pools@[buffer_type.pos()]@,
                after.pools@[buffer_type.pos()]@,
            );
            &&& later.len() <= 100
            &&& later.last().size == size
            &&& later.last().created_at == now && later.last().last_used == now
            &&& was.len() < 100 ==> later.drop_last() == was
            &&& was.len() == 100 ==> exists|i: int|
                {
                    &&& 0 <= i < was.len()
                    &&& later.drop_last().to_multiset() == was.to_multiset().remove(
                        #[trigger] was[i],
                    )
                    &&& forall|j: int|
                        0 <= j < was.len() ==> was[i].last_used <= (#[trigger] was[j]).last_used
                }
        }),
        before.stats.currently_used > 0 ==> after.stats.currently_used
            == before.stats.currently_used - 1,
        after.stats.total_allocated == before.stats.total_allocated,
{
    let was = before.pools@[buffer_type.pos()]@;
    let later = after.pools@[buffer_type.pos()]@;
    if was.len() == 100 {
        let i = choose|i: int| #[trigger]
            is_oldest(was, i) && later.drop_last() == swapped_out(was, i);
        swapping_out_takes_one(was, i);
        assert(was[i].last_used <= was[i].last_used);
    }
}

/// A made buffer has the usual size of its type, or the size that was asked for
/// where that is more, but never more than the largest of its type.
pub proof fn made_buffers_are_bounded(t: BufferType, min_size: usize)
    ensures
        t.size_for(min_size) <= t.largest(),
        t.usual() <= t.size_for(min_size),
        min_size <= t.usual() ==> t.size_for(min_size) == t.usual(),
        t.usual() <= min_size <= t.largest() ==> t.size_for(min_size) == min_size,
        min_size >= t.largest() ==> t.size_for(min_size) == t.largest(),
{
}

} // verus!
