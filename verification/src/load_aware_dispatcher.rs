//! A dispatcher that chooses workers by their load.
//!
//! Points in time and durations are nanoseconds. A remote address is the
//! number its owner gives it.

use bytes::Bytes;
use vstd::prelude::*;
use vstd::string::*;

use crate::bounds::{min_usize, minus, smaller};
use crate::buffer::{bytes_as_slice, bytes_content};
use crate::dash::{Counters, count_of, counted};
use crate::history::{mean, mean_u64};
use crate::io::writer::{blend_tenth, tenth_mean};
use crate::optimized::work_stealing_dispatcher::{
    WorkStealingResult, worker_counter, worker_counter_name,
};
use crate::store::NumberedStore;
use crate::types::priority::Priority;

verus! {

/// A task.
#[derive(Debug)]
pub struct LoadAwareTask {
    pub id: u64,
    pub session_id: Vec<u8>,
    pub data: Bytes,
    pub source_addr: u64,
    pub priority: Priority,
    pub created_at: u64,
    pub estimated_complexity: u32,
    pub deadline: Option<u64>,
}

/// The load of a worker.
#[derive(Debug, Clone, Copy)]
pub struct WorkerLoadInfo {
    pub worker_id: usize,
    pub queue_size: usize,
    pub avg_processing_time: u64,
    pub last_update: u64,
    pub is_healthy: bool,
    pub current_complexity: u32,
}

/// The weight of a worker's load for urgent tasks, in tenths of a task: each
/// task counts ten, each unit of complexity one.
pub open spec fn load_score(w: WorkerLoadInfo) -> int {
    w.queue_size * 10 + w.current_complexity
}

/// Whether worker `i` is the first healthy one with the shortest queue.
pub open spec fn is_shortest(loads: Seq<WorkerLoadInfo>, i: int) -> bool {
    &&& 0 <= i < loads.len()
    &&& loads[i].is_healthy
    &&& forall|j: int|
        0 <= j < loads.len() && (#[trigger] loads[j]).is_healthy ==> {
            &&& loads[i].queue_size <= loads[j].queue_size
            &&& j < i ==> loads[i].queue_size < loads[j].queue_size
        }
}

/// Whether worker `i` is the first healthy one with the lowest score.
pub open spec fn is_lightest(loads: Seq<WorkerLoadInfo>, i: int) -> bool {
    &&& 0 <= i < loads.len()
    &&& loads[i].is_healthy
    &&& forall|j: int|
        0 <= j < loads.len() && (#[trigger] loads[j]).is_healthy ==> {
            &&& load_score(loads[i]) <= load_score(loads[j])
            &&& j < i ==> load_score(loads[i]) < load_score(loads[j])
        }
}

/// The worker `offset` places after worker `start`, counting round.
pub open spec fn round_robin(start: int, offset: int, workers: int) -> int {
    (start + offset) % workers
}

/// Whether the worker `offset` places after worker `start` is the first
/// healthy one from there, counting round.
pub open spec fn is_next_healthy(loads: Seq<WorkerLoadInfo>, start: int, offset: int) -> bool {
    &&& 0 <= offset < loads.len()
    &&& loads[round_robin(start, offset, loads.len() as int)].is_healthy
    &&& forall|o: int|
        0 <= o < offset ==> !loads[#[trigger] round_robin(
            start,
            o,
            loads.len() as int,
        )].is_healthy
}

/// Whether `r` is the worker for a task. Critical tasks go to the shortest
/// queue, urgent ones to the lowest score, others to the next healthy worker
/// in turn; none where no worker is healthy.
pub open spec fn is_choice(
    loads: Seq<WorkerLoadInfo>,
    priority: Priority,
    id: u64,
    r: Option<usize>,
) -> bool {
    match r {
        None => forall|j: int| 0 <= j < loads.len() ==> !(#[trigger] loads[j]).is_healthy,
        Some(w) => match priority {
            Priority::Critical => exists|i: int| #[trigger]
                is_shortest(loads, i) && w == loads[i].worker_id,
            Priority::High => exists|i: int| #[trigger]
                is_lightest(loads, i) && w == loads[i].worker_id,
            _ => exists|o: int| #[trigger]
                is_next_healthy(loads, id as int % loads.len() as int, o) && w == round_robin(
                    id as int % loads.len() as int,
                    o,
                    loads.len() as int,
                ),
        },
    }
}

/// How demanding a task is: by its priority, and up to ten more for its size.
pub open spec fn complexity(priority: Priority, len: nat) -> int {
    let base = match priority {
        Priority::Critical => 10int,
        Priority::High => 8,
        Priority::Normal => 5,
        Priority::Low => 2,
        Priority::Background => 1,
    };
    base + smaller(len as int / 1024, 10) + 3
}

/// The state of the queues.
#[derive(Debug, Clone, Copy)]
pub struct LoadSummary {
    pub total_queue: u128,
    /// Mean of the workers' mean processing times.
    pub avg_processing_time: u64,
    pub avg_processing_time_ms: u64,
    pub healthy_workers: usize,
    pub unhealthy_workers: usize,
}

/// How many tasks are queued with the first `n` workers.
pub open spec fn queue_total(loads: Seq<WorkerLoadInfo>) -> nat
    decreases loads.len(),
{
    if loads.len() == 0 {
        0
    } else {
        queue_total(loads.drop_last()) + loads.last().queue_size as nat
    }
}

/// How many workers are healthy.
pub open spec fn healthy_total(loads: Seq<WorkerLoadInfo>) -> nat
    decreases loads.len(),
{
    if loads.len() == 0 {
        0
    } else {
        healthy_total(loads.drop_last()) + if loads.last().is_healthy {
            1nat
        } else {
            0
        }
    }
}

/// The workers' mean processing times.
pub open spec fn mean_times(loads: Seq<WorkerLoadInfo>) -> Seq<u64> {
    loads.map_values(|w: WorkerLoadInfo| w.avg_processing_time)
}

/// How many tasks the first `n` workers have done.
pub open spec fn processed_total(stats: Map<Seq<char>, u64>, n: nat) -> nat
    decreases n,
{
    if n == 0 {
        0
    } else {
        processed_total(stats, (n - 1) as nat) + count_of(
            stats,
            worker_counter((n - 1) as usize, "_processed"@),
        ) as nat
    }
}

proof fn queue_total_bounded(loads: Seq<WorkerLoadInfo>)
    ensures
        queue_total(loads) <= loads.len() * 0xffff_ffff_ffff_ffff,
    decreases loads.len(),
{
    if loads.len() > 0 {
        queue_total_bounded(loads.drop_last());
        let n = loads.len() as int;
        assert((n - 1) * 0xffff_ffff_ffff_ffff + 0xffff_ffff_ffff_ffff == n
            * 0xffff_ffff_ffff_ffff) by (nonlinear_arith);
    }
}

proof fn processed_total_bounded(stats: Map<Seq<char>, u64>, n: nat)
    ensures
        processed_total(stats, n) <= n * 0xffff_ffff_ffff_ffff,
    decreases n,
{
    if n > 0 {
        processed_total_bounded(stats, (n - 1) as nat);
        assert((n - 1) * 0xffff_ffff_ffff_ffff + 0xffff_ffff_ffff_ffff == n
            * 0xffff_ffff_ffff_ffff) by (nonlinear_arith);
    }
}

proof fn products_fit(n: int)
    requires
        0 <= n <= 0x1_0000_0000_0000_0000,
    ensures
        n * 0xffff_ffff_ffff_ffff <= u128::MAX,
{
    assert(n * 0xffff_ffff_ffff_ffff <= 0x1_0000_0000_0000_0000 * 0xffff_ffff_ffff_ffff)
        by (nonlinear_arith)
        requires
            n <= 0x1_0000_0000_0000_0000,
    ;
}

/// The load of a worker after a task.
pub open spec fn relieved(
    w: WorkerLoadInfo,
    complexity: u32,
    processing_time: u64,
    now: u64,
) -> WorkerLoadInfo {
    WorkerLoadInfo {
        queue_size: minus(w.queue_size as int, 1) as usize,
        current_complexity: minus(w.current_complexity as int, complexity as int) as u32,
        avg_processing_time: tenth_mean(w.avg_processing_time, processing_time),
        last_update: now,
        ..w
    }
}

/// The dispatcher.
pub struct LoadAwareDispatcher {
    pub num_workers: usize,
    pub results: NumberedStore<WorkStealingResult>,
    pub stats: Counters,
    pub worker_loads: Vec<WorkerLoadInfo>,
    pub is_running: bool,
    pub next_task_id: u64,
}

impl LoadAwareDispatcher {
    /// What holds of every dispatcher.
    pub open spec fn wf(self) -> bool {
        self.results.wf()
    }

    /// A running dispatcher with idle, healthy workers.
    pub fn new(num_workers: usize, now: u64) -> (d: Self)
        ensures
            d.wf(),
            d.num_workers == num_workers,
            d.results.map() == Map::<u64, WorkStealingResult>::empty(),
            d.stats@ == Map::<Seq<char>, u64>::empty(),
            d.is_running,
            d.next_task_id == 1,
            d.worker_loads@ == Seq::new(
                num_workers as nat,
                |i: int|
                    WorkerLoadInfo {
                        worker_id: i as usize,
                        queue_size: 0,
                        avg_processing_time: 0,
                        last_update: now,
                        is_healthy: true,
                        current_complexity: 0,
                    },
            ),
    {
        let mut worker_loads: Vec<WorkerLoadInfo> = Vec::new();
        let mut i: usize = 0;
        while i < num_workers
            invariant
                i <= num_workers,
                worker_loads@.len() == i,
                forall|k: int|
                    0 <= k < i ==> #[trigger] worker_loads@[k] == (WorkerLoadInfo {
                        worker_id: k as usize,
                        queue_size: 0,
                        avg_processing_time: 0,
                        last_update: now,
                        is_healthy: true,
                        current_complexity: 0,
                    }),
            decreases num_workers - i,
        {
            worker_loads.push(
                WorkerLoadInfo {
                    worker_id: i,
                    queue_size: 0,
                    avg_processing_time: 0,
                    last_update: now,
                    is_healthy: true,
                    current_complexity: 0,
                },
            );
            i += 1;
        }
        LoadAwareDispatcher {
            num_workers,
            results: NumberedStore::new(),
            stats: Counters::new(),
            worker_loads,
            is_running: true,
            next_task_id: 1,
        }
    }

    /// A worker takes a task from the shared queue.
    pub fn note_steal(&mut self)
        requires
            old(self).wf(),
        ensures
            final(self).wf(),
            *final(self) == (LoadAwareDispatcher { stats: final(self).stats, ..*old(self) }),
            final(self).stats@ == counted(old(self).stats@, "work_steals"@, 1),
    {
        self.stats.add("work_steals", 1);
    }

    /// Concludes a task: the worker is relieved of it, its empty result is
    /// kept under its number, and it is counted.
    pub fn process_task(
        &mut self,
        worker_id: usize,
        task: LoadAwareTask,
        processing_time: u64,
        now: u64,
    )
        requires
            old(self).wf(),
        ensures
            final(self).wf(),
            *final(self) == (LoadAwareDispatcher {
                worker_loads: final(self).worker_loads,
                results: final(self).results,
                stats: final(self).stats,
                ..*old(self)
            }),
            final(self).worker_loads@ == if worker_id < old(self).worker_loads@.len() {
                old(self).worker_loads@.update(
                    worker_id as int,
                    relieved(
                        old(self).worker_loads@[worker_id as int],
                        task.estimated_complexity,
                        processing_time,
                        now,
                    ),
                )
            } else {
                old(self).worker_loads@
            },
            final(self).stats@ == counted(
                counted(old(self).stats@, worker_counter(worker_id, "_processed"@), 1),
                "total_tasks_processed"@,
                1,
            ),
            final(self).results.map().contains_key(task.id),
            final(self).results.map() == old(self).results.map().insert(
                task.id,
                final(self).results.map()[task.id],
            ),
            ({
                let r = final(self).results.map()[task.id];
                &&& r.task_id == task.id
                &&& r.session_id == task.session_id
                &&& r.result matches Ok(d) && d@.len() == 0
                &&& r.processing_time == processing_time
                &&& r.worker_id == worker_id
                &&& r.destination_addr == task.source_addr
                &&& r.completed_at == now
                &&& !r.was_stolen
            }),
    {
        if worker_id < self.worker_loads.len() {
            let w: WorkerLoadInfo = self.worker_loads[worker_id];
            self.worker_loads.set(
                worker_id,
                WorkerLoadInfo {
                    worker_id: w.worker_id,
                    queue_size: w.queue_size.saturating_sub(1),
                    avg_processing_time: blend_tenth(w.avg_processing_time, processing_time),
                    last_update: now,
                    is_healthy: w.is_healthy,
                    current_complexity: w.current_complexity.saturating_sub(
                        task.estimated_complexity,
                    ),
                },
            );
        }
        let id: u64 = task.id;
        self.results.insert(
            id,
            WorkStealingResult {
                task_id: id,
                session_id: task.session_id,
                result: Ok(Vec::new()),
                processing_time,
                worker_id,
                destination_addr: task.source_addr,
                completed_at: now,
                was_stolen: false,
            },
        );
        let name: String = worker_counter_name(worker_id, "_processed");
        self.stats.add(name.as_str(), 1);
        self.stats.add("total_tasks_processed", 1);
    }

    /// The state of the queues.
    pub fn load_summary(&self) -> (s: LoadSummary)
        ensures
            s.total_queue == queue_total(self.worker_loads@),
            s.avg_processing_time == mean(mean_times(self.worker_loads@)),
            s.avg_processing_time_ms == mean(mean_times(self.worker_loads@)) / 1_000_000,
            s.healthy_workers == healthy_total(self.worker_loads@),
            s.unhealthy_workers == self.worker_loads@.len() - healthy_total(self.worker_loads@),
    {
        let mut total_queue: u128 = 0;
        let mut healthy_workers: usize = 0;
        let mut times: Vec<u64> = Vec::new();
        let mut i: usize = 0;
        proof {
            assert(self.worker_loads@.take(0) =~= Seq::empty());
        }
        while i < self.worker_loads.len()
            invariant
                i <= self.worker_loads@.len(),
                total_queue == queue_total(self.worker_loads@.take(i as int)),
                healthy_workers == healthy_total(self.worker_loads@.take(i as int)),
                healthy_workers <= i,
                times@.len() == i,
                forall|k: int|
                    0 <= k < i ==> #[trigger] times@[k]
                        == self.worker_loads@[k].avg_processing_time,
            decreases self.worker_loads@.len() - i,
        {
            proof {
                let next = self.worker_loads@.take(i + 1);
                assert(next.drop_last() =~= self.worker_loads@.take(i as int));
                queue_total_bounded(next);
                products_fit(i + 1);
            }
            let w: WorkerLoadInfo = self.worker_loads[i];
            total_queue = total_queue + w.queue_size as u128;
            if w.is_healthy {
                healthy_workers += 1;
            }
            times.push(w.avg_processing_time);
            i += 1;
        }
        proof {
            assert(self.worker_loads@.take(i as int) =~= self.worker_loads@);
            assert(times@ =~= mean_times(self.worker_loads@));
        }
        let avg: u64 = mean_u64(&times);
        LoadSummary {
            total_queue,
            avg_processing_time: avg,
            avg_processing_time_ms: avg / 1_000_000,
            healthy_workers,
            unhealthy_workers: self.worker_loads.len() - healthy_workers,
        }
    }

    /// How many tasks the workers have done.
    pub fn total_tasks(&self) -> (n: u128)
        ensures
            n == processed_total(self.stats@, self.num_workers as nat),
    {
        let mut n: u128 = 0;
        let mut i: usize = 0;
        while i < self.num_workers
            invariant
                i <= self.num_workers,
                n == processed_total(self.stats@, i as nat),
            decreases self.num_workers - i,
        {
            proof {
                processed_total_bounded(self.stats@, (i + 1) as nat);
                products_fit(i + 1);
            }
            let name: String = worker_counter_name(i, "_processed");
            n = n + self.stats.value(name.as_str()) as u128;
            i += 1;
        }
        n
    }

    /// The worker for a task.
    pub fn select_optimal_worker(&self, task: &LoadAwareTask) -> (r: Option<usize>)
        ensures
            is_choice(self.worker_loads@, task.priority, task.id, r),
    {
        if self.worker_loads.len() == 0 {
            return None;
        }
        match task.priority {
            Priority::Critical => self.shortest_queue(),
            Priority::High => self.lowest_score(),
            _ => self.next_in_turn(task.id),
        }
    }

    fn shortest_queue(&self) -> (r: Option<usize>)
        ensures
            match r {
                None => forall|j: int|
                    0 <= j < self.worker_loads@.len() ==> !(
                    #[trigger] self.worker_loads@[j]).is_healthy,
                Some(w) => exists|i: int| #[trigger]
                    is_shortest(self.worker_loads@, i) && w == self.worker_loads@[i].worker_id,
            },
    {
        let mut best: Option<usize> = None;
        let mut k: usize = 0;
        while k < self.worker_loads.len()
            invariant
                k <= self.worker_loads@.len(),
                match best {
                    None => forall|j: int|
                        0 <= j < k ==> !(#[trigger] self.worker_loads@[j]).is_healthy,
                    Some(b) => b < k && is_shortest(self.worker_loads@.take(k as int), b as int),
                },
            decreases self.worker_loads@.len() - k,
        {
            let w: WorkerLoadInfo = self.worker_loads[k];
            let ghost now = self.worker_loads@.take(k as int);
            let ghost next = self.worker_loads@.take(k + 1);
            proof {
                assert(forall|j: int| 0 <= j < k ==> #[trigger] next[j] == now[j]);
                assert(next[k as int] == w);
            }
            if w.is_healthy {
                match best {
                    None => {
                        best = Some(k);
                    },
                    Some(b) => {
                        if w.queue_size < self.worker_loads[b].queue_size {
                            best = Some(k);
                        }
                    },
                }
            }
            k += 1;
        }
        proof {
            assert(self.worker_loads@.take(k as int) =~= self.worker_loads@);
        }
        match best {
            Some(b) => Some(self.worker_loads[b].worker_id),
            None => None,
        }
    }

    fn lowest_score(&self) -> (r: Option<usize>)
        ensures
            match r {
                None => forall|j: int|
                    0 <= j < self.worker_loads@.len() ==> !(
                    #[trigger] self.worker_loads@[j]).is_healthy,
                Some(w) => exists|i: int| #[trigger]
                    is_lightest(self.worker_loads@, i) && w == self.worker_loads@[i].worker_id,
            },
    {
        let mut best: Option<usize> = None;
        let mut k: usize = 0;
        while k < self.worker_loads.len()
            invariant
                k <= self.worker_loads@.len(),
                match best {
                    None => forall|j: int|
                        0 <= j < k ==> !(#[trigger] self.worker_loads@[j]).is_healthy,
                    Some(b) => b < k && is_lightest(self.worker_loads@.take(k as int), b as int),
                },
            decreases self.worker_loads@.len() - k,
        {
            let w: WorkerLoadInfo = self.worker_loads[k];
            let ghost now = self.worker_loads@.take(k as int);
            let ghost next = self.worker_loads@.take(k + 1);
            proof {
                assert(forall|j: int| 0 <= j < k ==> #[trigger] next[j] == now[j]);
                assert(next[k as int] == w);
            }
            if w.is_healthy {
                match best {
                    None => {
                        best = Some(k);
                    },
                    Some(b) => {
                        if score(&w) < score(&self.worker_loads[b]) {
                            best = Some(k);
                        }
                    },
                }
            }
            k += 1;
        }
        proof {
            assert(self.worker_loads@.take(k as int) =~= self.worker_loads@);
        }
        match best {
            Some(b) => Some(self.worker_loads[b].worker_id),
            None => None,
        }
    }

    fn next_in_turn(&self, id: u64) -> (r: Option<usize>)
        requires
            self.worker_loads@.len() > 0,
        ensures
            ({
                let n = self.worker_loads@.len() as int;
                match r {
                    None => forall|j: int|
                        0 <= j < n ==> !(#[trigger] self.worker_loads@[j]).is_healthy,
                    Some(w) => exists|o: int| #[trigger]
                        is_next_healthy(self.worker_loads@, id as int % n, o) && w == round_robin(
                            id as int % n,
                            o,
                            n,
                        ),
                }
            }),
    {
        let n: usize = self.worker_loads.len();
        let start: usize = (id % n as u64) as usize;
        let mut offset: usize = 0;
        while offset < n
            invariant
                offset <= n,
                n == self.worker_loads@.len(),
                n > 0,
                start == id as int % n as int,
                start < n,
                forall|o: int|
                    0 <= o < offset ==> !self.worker_loads@[#[trigger] round_robin(
                        start as int,
                        o,
                        n as int,
                    )].is_healthy,
            decreases n - offset,
        {
            let i: usize = if offset < n - start {
                start + offset
            } else {
                offset - (n - start)
            };
            proof {
                wrap_once(start as int, offset as int, n as int);
                assert(i == round_robin(start as int, offset as int, n as int));
            }
            if self.worker_loads[i].is_healthy {
                proof {
                    assert(is_next_healthy(self.worker_loads@, start as int, offset as int));
                }
                return Some(i);
            }
            offset += 1;
        }
        proof {
            assert forall|j: int| 0 <= j < n implies !(
            #[trigger] self.worker_loads@[j]).is_healthy by {
                let o = if j >= start {
                    j - start
                } else {
                    j - start + n
                };
                wrap_once(start as int, o, n as int);
                assert(round_robin(start as int, o, n as int) == j);
            }
        }
        None
    }

    /// How demanding a task is.
    pub fn estimate_task_complexity(&self, task: &LoadAwareTask) -> (c: u32)
        ensures
            c == complexity(task.priority, bytes_content(task.data).len()),
            ({
                let kib = bytes_content(task.data).len() / 1024;
                c == 3 + (if kib < 10 {
                    kib as int
                } else {
                    10
                }) + (match task.priority {
                    Priority::Critical => 10int,
                    Priority::High => 8,
                    Priority::Normal => 5,
                    Priority::Low => 2,
                    Priority::Background => 1,
                })
            }),
    {
        let base: u32 = match task.priority {
            Priority::Critical => 10,
            Priority::High => 8,
            Priority::Normal => 5,
            Priority::Low => 2,
            Priority::Background => 1,
        };
        let size: usize = min_usize(bytes_as_slice(&task.data).len() / 1024, 10);
        base + size as u32 + 3
    }
}

fn score(w: &WorkerLoadInfo) -> (s: u128)
    ensures
        s == load_score(*w),
{
    w.queue_size as u128 * 10 + w.current_complexity as u128
}

proof fn wrap_once(start: int, offset: int, n: int)
    requires
        0 <= start < n,
        0 <= offset < n,
    ensures
        round_robin(start, offset, n) == if start + offset < n {
            start + offset
        } else {
            start + offset - n
        },
{
    if start + offset < n {
        vstd::arithmetic::div_mod::lemma_small_mod((start + offset) as nat, n as nat);
    } else {
        vstd::arithmetic::div_mod::lemma_mod_sub_multiples_vanish(start + offset, n);
        vstd::arithmetic::div_mod::lemma_small_mod((start + offset - n) as nat, n as nat);
    }
}

/// A worker that is chosen is healthy, provided that workers are numbered by
/// their place.
pub proof fn chosen_workers_are_healthy(
    loads: Seq<WorkerLoadInfo>,
    priority: Priority,
    id: u64,
    w: usize,
)
    requires
        forall|i: int| 0 <= i < loads.len() ==> (#[trigger] loads[i]).worker_id == i,
        loads.len() > 0,
        is_choice(loads, priority, id, Some(w)),
    ensures
        w < loads.len(),
        loads[w as int].is_healthy,
{
    let n = loads.len() as int;
    let start = id as int % n;
    match priority {
        Priority::Critical => {},
        Priority::High => {},
        _ => {
            let o = choose|o: int| #[trigger]
                is_next_healthy(loads, start, o) && w == round_robin(start, o, n);
            assert(0 <= start < n);
            wrap_once(start, o, n);
        },
    }
}

/// The larger a task and the more urgent, the more demanding it is.
pub proof fn complexity_grows(p: Priority, q: Priority, a: nat, b: nat)
    requires
        q.rank() <= p.rank(),
        a <= b,
    ensures
        complexity(p, a) <= complexity(q, b),
        4 <= complexity(p, a) <= 23,
{
}

/// Where tasks go, each worker standing at its number: only where no worker is
/// healthy, nowhere. Critical ones go to a healthy worker with the shortest
/// queue, those of high priority to one with the least load, ten for each
/// waiting task and the complexity of what it has; where two are equal, to the
/// first. All others take turns: from the task's number, counted round, to the
/// next healthy worker.
pub proof fn tasks_go_to_the_best_worker(
    loads: Seq<WorkerLoadInfo>,
    priority: Priority,
    id: u64,
    r: Option<usize>,
    j: int,
)
    requires
        forall|i: int| 0 <= i < loads.len() ==> (#[trigger] loads[i]).worker_id == i,
        is_choice(loads, priority, id, r),
        0 <= j < loads.len(),
        loads[j].is_healthy,
    ensures
        r matches Some(w) && w < loads.len() && loads[w as int].is_healthy && (priority is Critical
            ==> {
            &&& loads[w as int].queue_size <= loads[j].queue_size
            &&& loads[w as int].queue_size == loads[j].queue_size ==> w <= j
        }) && (priority is High ==> {
            let (best, other) = (loads[w as int], loads[j]);
            &&& best.queue_size * 10 + best.current_complexity <= other.queue_size * 10
                + other.current_complexity
            &&& best.queue_size * 10 + best.current_complexity == other.queue_size * 10
                + other.current_complexity ==> w <= j
        }) && (!(priority is Critical) && !(priority is High) ==> {
            let n = loads.len() as int;
            (w - id) % n <= (j - id) % n
        }),
{
    let n = loads.len() as int;
    chosen_workers_are_healthy(loads, priority, id, r->0);
    let w = r->0 as int;
    if priority is Critical {
        let i = choose|i: int| #[trigger] is_shortest(loads, i) && w == loads[i].worker_id;
        assert(loads[i].worker_id == i);
    } else if priority is High {
        let i = choose|i: int| #[trigger] is_lightest(loads, i) && w == loads[i].worker_id;
        assert(loads[i].worker_id == i);
    } else {
        let start = id as int % n;
        let o = choose|o: int| #[trigger]
            is_next_healthy(loads, start, o) && w == round_robin(start, o, n);
        let d = (j - id) % n;
        turns_are_distances(id as int, j, n);
        turns_are_distances(id as int, w, n);
        if d < o {
            assert(!loads[round_robin(start, d, n)].is_healthy);
        }
        turns_are_offsets(id as int, o, n);
    }
}

proof fn turns_are_distances(id: int, j: int, n: int)
    requires
        0 <= j < n,
    ensures
        0 <= (j - id) % n < n,
        round_robin(id % n, (j - id) % n, n) == j,
{
    vstd::arithmetic::div_mod::lemma_mod_bound(j - id, n);
    vstd::arithmetic::div_mod::lemma_add_mod_noop(id, j - id, n);
    vstd::arithmetic::div_mod::lemma_small_mod(j as nat, n as nat);
}

proof fn turns_are_offsets(id: int, o: int, n: int)
    requires
        0 <= o < n,
    ensures
        (round_robin(id % n, o, n) - id) % n == o,
{
    let r = round_robin(id % n, o, n);
    vstd::arithmetic::div_mod::lemma_sub_mod_noop(r, id, n);
    vstd::arithmetic::div_mod::lemma_mod_twice(id % n + o, n);
    vstd::arithmetic::div_mod::lemma_mod_twice(id, n);
    vstd::arithmetic::div_mod::lemma_sub_mod_noop(id % n + o, id % n, n);
    vstd::arithmetic::div_mod::lemma_small_mod(o as nat, n as nat);
}

/// The totals over all workers add up every queue, and count the healthy ones.
pub proof fn load_totals_add_up(loads: Seq<WorkerLoadInfo>)
    ensures
        queue_total(loads) == loads.fold_left(
            0nat,
            |n: nat, w: WorkerLoadInfo| n + w.queue_size as nat,
        ),
        healthy_total(loads) == loads.filter(|w: WorkerLoadInfo| w.is_healthy).len(),
    decreases loads.len(),
{
    reveal(Seq::filter);
    reveal_with_fuel(Seq::fold_left, 2);
    if loads.len() > 0 {
        load_totals_add_up(loads.drop_last());
    }
}

/// A worker that has done a task has one task less waiting and the complexity
/// of that task less to bear, down to none, and a mean time that the new one
/// enters by a tenth.
pub proof fn finished_tasks_relieve_their_worker(
    w: WorkerLoadInfo,
    complexity: u32,
    processing_time: u64,
    now: u64,
)
    ensures
        ({
            let after = relieved(w, complexity, processing_time, now);
            &&& w.queue_size > 0 ==> after.queue_size == w.queue_size - 1
            &&& w.queue_size == 0 ==> after.queue_size == 0
            &&& w.current_complexity >= complexity ==> after.current_complexity
                == w.current_complexity - complexity
            &&& w.current_complexity < complexity ==> after.current_complexity == 0
            &&& after.avg_processing_time == (9 * w.avg_processing_time + processing_time) / 10
            &&& after.last_update == now
            &&& after.worker_id == w.worker_id
            &&& after.is_healthy == w.is_healthy
        }),
{
}

} // verus!
