//! Writing to connections: which tasks go out at once, which are gathered
//! into batches, and what a write leads to.
//!
//! Points in time and durations are nanoseconds. A remote address is the
//! number its owner gives it.

use bytes::Bytes;
use std::cmp::Ordering;
use std::collections::VecDeque;
use vstd::prelude::*;
use vstd::std_specs::cmp::PartialOrdSpec;
use vstd::std_specs::vecdeque::*;
use vstd::string::*;

use crate::bounds::{greater, max_u64, minus};
use crate::buffer::{bytes_as_slice, bytes_content, bytes_from_vec, same_bytes};
use crate::config::{BatchConfig, MILLISECOND};
use crate::history::{
    filter_step, in_micros, is_percentile, mean, mean_bounded, mean_u64, micros_of, percentile,
    percentile_is_an_entry, remember, remembered, to_list,
};
use crate::ratio::{Ratio, exceeds_all_below, ratios_compare_crosswise};
use crate::types::error::BatchError;
use crate::types::priority::Priority;

verus! {

/// How many batches are remembered.
pub const BATCH_HISTORY: usize = 100;

/// How many write times are remembered.
pub const WRITE_TIME_HISTORY: usize = 1000;

/// From this many batches on, the best batch size is estimated.
pub const MIN_BATCHES: usize = 10;

/// Writes are taken to last at least this long.
pub const SHORTEST_WRITE: u64 = 100_000;

/// The most write permits that there can be.
pub open spec fn max_permits() -> int {
    usize::MAX as int / 8
}

/// A batch that was written.
#[derive(Debug, Clone, Copy)]
pub struct BatchWriteRecord {
    pub batch_size: usize,
    pub write_time: u64,
    /// Tasks per nanosecond.
    pub throughput: Ratio,
    pub timestamp: u64,
}

/// Tasks per nanosecond.
pub open spec fn throughput(batch_size: usize, write_time: u64) -> Ratio {
    Ratio {
        part: batch_size as u64,
        whole: greater(write_time as int, SHORTEST_WRITE as int) as u64,
    }
}

/// Whether a batch can serve as a model: it held something and was written
/// within the target.
pub open spec fn eligible(r: BatchWriteRecord, target_latency: u64) -> bool {
    r.write_time <= target_latency && r.throughput.exceeds(Ratio::zero())
}

/// Whether entry `i` is the model batch: of those that can serve, the first
/// with the highest throughput.
pub open spec fn is_best(history: Seq<BatchWriteRecord>, target_latency: u64, i: int) -> bool {
    &&& 0 <= i < history.len()
    &&& eligible(history[i], target_latency)
    &&& forall|j: int|
        0 <= j < history.len() && eligible(#[trigger] history[j], target_latency) ==> {
            &&& !history[j].throughput.exceeds(history[i].throughput)
            &&& j < i ==> history[i].throughput.exceeds(history[j].throughput)
        }
}

/// Whether `size` is the estimated best batch size: that of the model batch,
/// or `current` where there is none.
pub open spec fn is_best_size(
    history: Seq<BatchWriteRecord>,
    target_latency: u64,
    current: usize,
    size: usize,
) -> bool {
    ||| exists|i: int| #[trigger]
        is_best(history, target_latency, i) && size == history[i].batch_size
    ||| size == current && forall|j: int|
        0 <= j < history.len() ==> !eligible(#[trigger] history[j], target_latency)
}

/// How large batches should be.
#[derive(Debug)]
pub struct WriteBatchModel {
    pub current_batch_size: usize,
    pub optimal_batch_size: usize,
    pub min_batch_size: usize,
    pub max_batch_size: usize,
    pub accumulation_time: u64,
    pub write_time: u64,
    pub target_latency: u64,
    pub history: VecDeque<BatchWriteRecord>,
}

impl WriteBatchModel {
    /// What holds of every model.
    pub open spec fn wf(self) -> bool {
        &&& self.history@.len() <= BATCH_HISTORY
        &&& forall|i: int|
            0 <= i < self.history@.len() ==> (#[trigger] self.history@[i]).throughput == throughput(
                self.history@[i].batch_size,
                self.history@[i].write_time,
            )
    }

    /// Starts with the smallest batches.
    pub fn new(min_size: usize, max_size: usize, target_latency: u64) -> (m: Self)
        ensures
            m.wf(),
            m.current_batch_size == min_size,
            m.optimal_batch_size == min_size,
            m.min_batch_size == min_size,
            m.max_batch_size == max_size,
            m.accumulation_time == 10 * MILLISECOND,
            m.write_time == 0,
            m.target_latency == target_latency,
            m.history@.len() == 0,
    {
        WriteBatchModel {
            current_batch_size: min_size,
            optimal_batch_size: min_size,
            min_batch_size: min_size,
            max_batch_size: max_size,
            accumulation_time: 10 * MILLISECOND,
            write_time: 0,
            target_latency,
            history: VecDeque::new(),
        }
    }

    /// Learns from a batch.
    pub fn update(&mut self, batch_size: usize, write_time: u64, now: u64)
        requires
            old(self).wf(),
        ensures
            final(self).wf(),
            has_learned_batch(*old(self), batch_size, write_time, now, *final(self)),
    {
        let record: BatchWriteRecord = BatchWriteRecord {
            batch_size,
            write_time,
            throughput: Ratio::new(batch_size as u64, max_u64(write_time, SHORTEST_WRITE)),
            timestamp: now,
        };
        remember(&mut self.history, record, BATCH_HISTORY);
        self.current_batch_size = batch_size;
        self.write_time = write_time;
        self.estimate_optimal_batch_size();
    }

    /// Takes the size of the model batch, once enough batches are known.
    fn estimate_optimal_batch_size(&mut self)
        requires
            old(self).wf(),
        ensures
            *final(self) == (WriteBatchModel {
                optimal_batch_size: final(self).optimal_batch_size,
                ..*old(self)
            }),
            old(self).history@.len() < MIN_BATCHES ==> final(self).optimal_batch_size == old(
                self,
            ).optimal_batch_size,
            old(self).history@.len() >= MIN_BATCHES ==> is_best_size(
                old(self).history@,
                old(self).target_latency,
                old(self).current_batch_size,
                final(self).optimal_batch_size,
            ),
    {
        if self.history.len() < MIN_BATCHES {
            return;
        }
        let ghost history = self.history@;
        let zero: Ratio = Ratio::new(0, 0);
        let mut best: Option<usize> = None;
        let mut k: usize = 0;
        while k < self.history.len()
            invariant
                k <= history.len(),
                history == self.history@,
                *self == *old(self),
                self.wf(),
                zero == Ratio::zero(),
                match best {
                    None => forall|j: int|
                        0 <= j < k ==> !eligible(#[trigger] history[j], self.target_latency),
                    Some(b) => {
                        &&& b < k
                        &&& eligible(history[b as int], self.target_latency)
                        &&& forall|j: int|
                            0 <= j < k && eligible(#[trigger] history[j], self.target_latency) ==> {
                                &&& !history[j].throughput.exceeds(history[b as int].throughput)
                                &&& j < b ==> history[b as int].throughput.exceeds(
                                    history[j].throughput,
                                )
                            }
                    },
                },
            decreases history.len() - k,
        {
            let record: BatchWriteRecord = self.history[k];
            proof {
                assert(record == history[k as int]);
            }
            if record.write_time <= self.target_latency {
                match best {
                    None => {
                        if record.throughput.more_than(&zero) {
                            best = Some(k);
                        }
                    },
                    Some(b) => {
                        if record.throughput.more_than(&self.history[b].throughput) {
                            proof {
                                assert forall|j: int|
                                    0 <= j < k && eligible(
                                        #[trigger] history[j],
                                        self.target_latency,
                                    ) implies history[k as int].throughput.exceeds(
                                    history[j].throughput,
                                ) && !history[j].throughput.exceeds(
                                    history[k as int].throughput,
                                ) by {
                                    exceeds_all_below(
                                        history[k as int].throughput,
                                        history[b as int].throughput,
                                        history[j].throughput,
                                    );
                                }
                            }
                            best = Some(k);
                        }
                    },
                }
            }
            k += 1;
        }
        match best {
            Some(b) => {
                proof {
                    assert(is_best(history, self.target_latency, b as int));
                }
                self.optimal_batch_size = self.history[b].batch_size;
            },
            None => {
                self.optimal_batch_size = self.current_batch_size;
            },
        }
    }
}

/// Whether `after` is what a model makes of a batch: the batch is remembered,
/// and with ten or more batches known the best size is estimated anew.
pub open spec fn has_learned_batch(
    before: WriteBatchModel,
    batch_size: usize,
    write_time: u64,
    now: u64,
    after: WriteBatchModel,
) -> bool {
    &&& after.history@ == remembered(
        before.history@,
        BatchWriteRecord {
            batch_size,
            write_time,
            throughput: throughput(batch_size, write_time),
            timestamp: now,
        },
        BATCH_HISTORY as nat,
    )
    &&& after.current_batch_size == batch_size
    &&& after.write_time == write_time
    &&& after.min_batch_size == before.min_batch_size
    &&& after.max_batch_size == before.max_batch_size
    &&& after.accumulation_time == before.accumulation_time
    &&& after.target_latency == before.target_latency
    &&& if after.history@.len() < MIN_BATCHES {
        after.optimal_batch_size == before.optimal_batch_size
    } else {
        is_best_size(
            after.history@,
            before.target_latency,
            batch_size,
            after.optimal_batch_size,
        )
    }
}

/// How full the queue of writes is.
#[derive(Debug, Clone, Copy)]
pub struct BackpressureModel {
    pub max_queue_size: usize,
    pub current_queue: usize,
}

impl BackpressureModel {
    /// Nothing queued.
    pub fn new(max_queue_size: usize) -> (m: Self)
        ensures
            m == (BackpressureModel { max_queue_size, current_queue: 0 }),
    {
        BackpressureModel { max_queue_size, current_queue: 0 }
    }

    /// Takes note of the length of the queue.
    pub fn update(&mut self, queue_size: usize)
        ensures
            *final(self) == (BackpressureModel { current_queue: queue_size, ..*old(self) }),
    {
        self.current_queue = queue_size;
    }

    /// Whether the queue is half full.
    pub fn is_backpressure(&self) -> (r: bool)
        ensures
            r == (self.current_queue >= self.max_queue_size / 2),
    {
        self.current_queue >= self.max_queue_size / 2
    }

    /// Whether the queue is nine tenths full.
    pub fn is_critical(&self) -> (r: bool)
        requires
            self.max_queue_size * 9 <= usize::MAX,
        ensures
            r == (self.current_queue >= self.max_queue_size * 9 / 10),
    {
        self.current_queue >= self.max_queue_size * 9 / 10
    }
}

/// A critical queue is one under pressure, whatever its bound.
pub proof fn critical_queues_are_under_pressure(m: BackpressureModel)
    requires
        m.current_queue >= m.max_queue_size * 9 / 10,
    ensures
        m.current_queue >= m.max_queue_size / 2,
{
}

/// Data to be written.
#[derive(Debug)]
pub struct WriteTask {
    pub destination_addr: u64,
    pub session_id: Vec<u8>,
    pub data: Bytes,
    pub priority: Priority,
    pub requires_flush: bool,
    pub created_at: u64,
    pub size_bytes: usize,
}

/// The score of a priority.
pub open spec fn score_of(p: Priority) -> i32 {
    match p {
        Priority::Critical => 1000,
        Priority::High => 750,
        Priority::Normal => 500,
        Priority::Low => 250,
        Priority::Background => 100,
    }
}

impl WriteTask {
    /// The score of the task's priority: higher is more urgent.
    pub fn priority_score(&self) -> (s: i32)
        ensures
            s == score_of(self.priority),
            self.priority is Critical ==> s == 1000,
            self.priority is High ==> s == 750,
            self.priority is Normal ==> s == 500,
            self.priority is Low ==> s == 250,
            self.priority is Background ==> s == 100,
    {
        match self.priority {
            Priority::Critical => 1000,
            Priority::High => 750,
            Priority::Normal => 500,
            Priority::Low => 250,
            Priority::Background => 100,
        }
    }
}

/// More urgent priorities have higher scores.
pub proof fn scores_follow_urgency(a: Priority, b: Priority)
    ensures
        score_of(a) > score_of(b) <==> a.rank() < b.rank(),
{
}

/// A task with its score. Tasks compare by score alone: of two tasks the more
/// urgent, with the higher score, is the greater, and leaves a queue that hands
/// out its greatest first.
#[derive(Debug)]
pub struct PrioritizedWriteTask {
    pub task: WriteTask,
    pub enqueue_time: u64,
    pub priority_score: i32,
}

impl PartialEq for PrioritizedWriteTask {
    fn eq(&self, other: &Self) -> (r: bool) {
        self.priority_score == other.priority_score
    }
}

impl vstd::std_specs::cmp::PartialEqSpecImpl for PrioritizedWriteTask {
    open spec fn obeys_eq_spec() -> bool {
        true
    }

    open spec fn eq_spec(&self, other: &Self) -> bool {
        self.priority_score == other.priority_score
    }
}

impl PartialOrd for PrioritizedWriteTask {
    fn partial_cmp(&self, other: &Self) -> (r: Option<Ordering>) {
        if self.priority_score > other.priority_score {
            Some(Ordering::Greater)
        } else if self.priority_score == other.priority_score {
            Some(Ordering::Equal)
        } else {
            Some(Ordering::Less)
        }
    }
}

impl vstd::std_specs::cmp::PartialOrdSpecImpl for PrioritizedWriteTask {
    open spec fn obeys_partial_cmp_spec() -> bool {
        true
    }

    open spec fn partial_cmp_spec(&self, other: &Self) -> Option<Ordering> {
        if self.priority_score > other.priority_score {
            Some(Ordering::Greater)
        } else if self.priority_score == other.priority_score {
            Some(Ordering::Equal)
        } else {
            Some(Ordering::Less)
        }
    }
}

/// Of two tasks with the scores of their priorities the more urgent is the
/// greater, and only tasks of one priority are equal.
pub proof fn urgent_tasks_are_greater(a: PrioritizedWriteTask, b: PrioritizedWriteTask)
    requires
        a.priority_score == score_of(a.task.priority),
        b.priority_score == score_of(b.task.priority),
    ensures
        a.partial_cmp_spec(&b) == Some(
            if a.task.priority.rank() < b.task.priority.rank() {
                Ordering::Greater
            } else if a.task.priority == b.task.priority {
                Ordering::Equal
            } else {
                Ordering::Less
            },
        ),
{
    scores_follow_urgency(a.task.priority, b.task.priority);
    scores_follow_urgency(b.task.priority, a.task.priority);
}

/// Counters of the writer. Times are nanoseconds.
#[derive(Debug, Clone, Copy)]
pub struct WriterStats {
    pub total_bytes_written: u64,
    pub total_packets_written: u64,
    pub total_batches_written: u64,
    pub optimal_batch_size: usize,
    pub avg_write_time: u64,
    pub p95_write_time: u64,
    pub p99_write_time: u64,
    pub queue_size: usize,
    pub max_queue_size: usize,
    pub backpressure_events: u64,
    pub timeout_events: u64,
    pub error_events: u64,
    pub connection_count: usize,
}

impl WriterStats {
    /// Nothing counted yet.
    pub open spec fn none() -> WriterStats {
        WriterStats {
            total_bytes_written: 0,
            total_packets_written: 0,
            total_batches_written: 0,
            optimal_batch_size: 32,
            avg_write_time: 0,
            p95_write_time: 0,
            p99_write_time: 0,
            queue_size: 0,
            max_queue_size: 0,
            backpressure_events: 0,
            timeout_events: 0,
            error_events: 0,
            connection_count: 0,
        }
    }
}

impl Default for WriterStats {
    fn default() -> (s: Self)
        ensures
            s == Self::none(),
    {
        WriterStats {
            total_bytes_written: 0,
            total_packets_written: 0,
            total_batches_written: 0,
            optimal_batch_size: 32,
            avg_write_time: 0,
            p95_write_time: 0,
            p99_write_time: 0,
            queue_size: 0,
            max_queue_size: 0,
            backpressure_events: 0,
            timeout_events: 0,
            error_events: 0,
            connection_count: 0,
        }
    }
}

/// The connection to one remote address.
#[derive(Debug)]
pub struct ConnectionWriter {
    pub destination_addr: u64,
    pub session_id: Vec<u8>,
    pub last_write_time: u64,
    pub is_active: bool,
    pub bytes_written: u64,
    pub packets_written: u64,
}

/// Whether a connection serves a session.
pub open spec fn serves_session(c: ConnectionWriter, session_id: Seq<u8>) -> bool {
    c.session_id@ == session_id && c.is_active
}

/// Whether a connection serves an address.
pub open spec fn serves_address(c: ConnectionWriter, destination_addr: u64) -> bool {
    c.destination_addr == destination_addr && c.is_active
}

/// A connection after a write of `bytes` bytes in `packets` packets.
pub open spec fn after_write(
    c: ConnectionWriter,
    bytes: nat,
    packets: nat,
    now: u64,
) -> ConnectionWriter {
    ConnectionWriter {
        last_write_time: now,
        bytes_written: (c.bytes_written + bytes) as u64,
        packets_written: (c.packets_written + packets) as u64,
        ..c
    }
}

/// A connection that failed.
pub open spec fn deactivated(c: ConnectionWriter) -> ConnectionWriter {
    ConnectionWriter { is_active: false, ..c }
}

/// How a task is to be written.
#[derive(Debug)]
pub enum WriteRoute {
    /// At once.
    Immediate(WriteTask),
    /// With others, from the queue.
    Queued(WriteTask),
}

/// What came of a write.
#[derive(Debug)]
pub enum WriteOutcome {
    Written,
    /// Written, but the flush that was due failed.
    FlushFailed(String),
    Failed(String),
    TimedOut,
}

/// The tasks of one priority, in their order.
pub open spec fn of_rank(tasks: Seq<WriteTask>, rank: int) -> Seq<WriteTask> {
    tasks.filter(|t: WriteTask| t.priority.rank() == rank)
}

/// The tasks in the order in which a batch holds them: least urgent first,
/// and in their own order where equally urgent.
pub open spec fn arranged(tasks: Seq<WriteTask>) -> Seq<WriteTask> {
    of_rank(tasks, 4) + of_rank(tasks, 3) + of_rank(tasks, 2) + of_rank(tasks, 1) + of_rank(
        tasks,
        0,
    )
}

/// The data of the tasks, one after the other.
pub open spec fn combined(tasks: Seq<WriteTask>) -> Seq<u8>
    decreases tasks.len(),
{
    if tasks.len() == 0 {
        Seq::empty()
    } else {
        combined(tasks.drop_last()) + bytes_content(tasks.last().data)
    }
}

/// Whether any task asks for a flush.
pub open spec fn any_flush(tasks: Seq<WriteTask>) -> bool {
    exists|i: int| 0 <= i < tasks.len() && (#[trigger] tasks[i]).requires_flush
}

fn wants_flush(tasks: &Vec<WriteTask>) -> (r: bool)
    ensures
        r == any_flush(tasks@),
{
    let mut i: usize = 0;
    while i < tasks.len()
        invariant
            i <= tasks@.len(),
            forall|k: int| 0 <= k < i ==> !(#[trigger] tasks@[k]).requires_flush,
        decreases tasks@.len() - i,
    {
        if tasks[i].requires_flush {
            return true;
        }
        i += 1;
    }
    false
}

proof fn rank_step(tasks: Seq<WriteTask>, k: int, rank: int)
    requires
        0 <= k < tasks.len(),
    ensures
        of_rank(tasks.take(k + 1), rank) == if tasks[k].priority.rank() == rank {
            of_rank(tasks.take(k), rank).push(tasks[k])
        } else {
            of_rank(tasks.take(k), rank)
        },
{
    filter_step(tasks, |t: WriteTask| t.priority.rank() == rank, k);
}

/// Arranges the tasks for a batch.
fn arrange(tasks: &mut Vec<WriteTask>)
    ensures
        final(tasks)@ == arranged(old(tasks)@),
{
    let ghost all = tasks@;
    let mut critical: Vec<WriteTask> = Vec::new();
    let mut high: Vec<WriteTask> = Vec::new();
    let mut normal: Vec<WriteTask> = Vec::new();
    let mut low: Vec<WriteTask> = Vec::new();
    let mut background: Vec<WriteTask> = Vec::new();
    let ghost mut k: int = 0;
    proof {
        reveal(Seq::filter);
        assert(all.take(0) =~= Seq::empty());
        assert(all.skip(0) =~= all);
    }
    while tasks.len() > 0
        invariant
            0 <= k <= all.len(),
            tasks@ == all.skip(k),
            critical@ == of_rank(all.take(k), 0),
            high@ == of_rank(all.take(k), 1),
            normal@ == of_rank(all.take(k), 2),
            low@ == of_rank(all.take(k), 3),
            background@ == of_rank(all.take(k), 4),
        decreases tasks@.len(),
    {
        proof {
            rank_step(all, k, 0);
            rank_step(all, k, 1);
            rank_step(all, k, 2);
            rank_step(all, k, 3);
            rank_step(all, k, 4);
        }
        let task: WriteTask = tasks.remove(0);
        match task.priority {
            Priority::Critical => critical.push(task),
            Priority::High => high.push(task),
            Priority::Normal => normal.push(task),
            Priority::Low => low.push(task),
            Priority::Background => background.push(task),
        }
        proof {
            assert(tasks@ =~= all.skip(k + 1));
            k = k + 1;
        }
    }
    proof {
        assert(all.take(k) =~= all);
    }
    tasks.append(&mut background);
    tasks.append(&mut low);
    tasks.append(&mut normal);
    tasks.append(&mut high);
    tasks.append(&mut critical);
}

/// A batch holds every task exactly as often as it was queued.
pub proof fn batches_keep_every_task(tasks: Seq<WriteTask>)
    ensures
        arranged(tasks).to_multiset() =~= tasks.to_multiset(),
        arranged(tasks).len() == tasks.len(),
    decreases tasks.len(),
{
    broadcast use vstd::seq_lib::group_to_multiset_ensures;

    arranged_multiset(tasks);
    if tasks.len() == 0 {
        reveal(Seq::filter);
        assert(arranged(tasks) =~= tasks);
    } else {
        let rest = tasks.drop_last();
        let k = tasks.len() - 1;
        batches_keep_every_task(rest);
        arranged_multiset(rest);
        assert(tasks.take(k + 1) =~= tasks);
        assert(tasks.take(k) =~= rest);
        rank_step(tasks, k, 0);
        rank_step(tasks, k, 1);
        rank_step(tasks, k, 2);
        rank_step(tasks, k, 3);
        rank_step(tasks, k, 4);
        assert(tasks =~= rest.push(tasks[k]));
        assert(arranged(tasks).to_multiset() =~= arranged(rest).to_multiset().insert(tasks[k]));
    }
}

proof fn arranged_multiset(tasks: Seq<WriteTask>)
    ensures
        arranged(tasks).to_multiset() == of_rank(tasks, 4).to_multiset().add(
            of_rank(tasks, 3).to_multiset(),
        ).add(of_rank(tasks, 2).to_multiset()).add(of_rank(tasks, 1).to_multiset()).add(
            of_rank(tasks, 0).to_multiset(),
        ),
{
    let (a, b, c, d, e) = (
        of_rank(tasks, 4),
        of_rank(tasks, 3),
        of_rank(tasks, 2),
        of_rank(tasks, 1),
        of_rank(tasks, 0),
    );
    vstd::seq_lib::lemma_multiset_commutative(a, b);
    vstd::seq_lib::lemma_multiset_commutative(a + b, c);
    vstd::seq_lib::lemma_multiset_commutative(a + b + c, d);
    vstd::seq_lib::lemma_multiset_commutative(a + b + c + d, e);
}

/// In a batch no task stands after a more urgent one, and the tasks of one
/// priority stand in the order in which they were queued.
pub proof fn batches_are_in_order(tasks: Seq<WriteTask>, p: Priority, i: int, j: int)
    ensures
        0 <= i <= j < arranged(tasks).len() ==> arranged(tasks)[i].priority.rank() >= arranged(
            tasks,
        )[j].priority.rank(),
        arranged(tasks).filter(|t: WriteTask| t.priority == p) == tasks.filter(
            |t: WriteTask| t.priority == p,
        ),
{
    let pred = |t: WriteTask| t.priority == p;
    let (a, b, c, d, e) = (
        of_rank(tasks, 4),
        of_rank(tasks, 3),
        of_rank(tasks, 2),
        of_rank(tasks, 1),
        of_rank(tasks, 0),
    );
    ranks_are_alike(tasks, 4);
    ranks_are_alike(tasks, 3);
    ranks_are_alike(tasks, 2);
    ranks_are_alike(tasks, 1);
    ranks_are_alike(tasks, 0);
    Seq::filter_distributes_over_add(a + b + c + d, e, pred);
    Seq::filter_distributes_over_add(a + b + c, d, pred);
    Seq::filter_distributes_over_add(a + b, c, pred);
    Seq::filter_distributes_over_add(a, b, pred);
    rank_of_priority(tasks, 4, p);
    rank_of_priority(tasks, 3, p);
    rank_of_priority(tasks, 2, p);
    rank_of_priority(tasks, 1, p);
    rank_of_priority(tasks, 0, p);
    assert(arranged(tasks).filter(pred) =~= tasks.filter(pred));
}

proof fn ranks_are_alike(tasks: Seq<WriteTask>, rank: int)
    ensures
        forall|i: int|
            0 <= i < of_rank(tasks, rank).len() ==> (#[trigger] of_rank(
                tasks,
                rank,
            )[i]).priority.rank() == rank,
    decreases tasks.len(),
{
    reveal(Seq::filter);
    if tasks.len() > 0 {
        ranks_are_alike(tasks.drop_last(), rank);
    }
}

proof fn rank_of_priority(tasks: Seq<WriteTask>, rank: int, p: Priority)
    ensures
        of_rank(tasks, rank).filter(|t: WriteTask| t.priority == p) == if p.rank() == rank {
            tasks.filter(|t: WriteTask| t.priority == p)
        } else {
            Seq::empty()
        },
    decreases tasks.len(),
{
    reveal(Seq::filter);
    let pred = |t: WriteTask| t.priority == p;
    if tasks.len() > 0 {
        let rest = tasks.drop_last();
        rank_of_priority(rest, rank, p);
        let k = tasks.len() - 1;
        assert(tasks.take(k + 1) =~= tasks);
        assert(tasks.take(k) =~= rest);
        rank_step(tasks, k, rank);
        let r = of_rank(rest, rank);
        assert(r.push(tasks[k]).drop_last() =~= r);
        assert(tasks[k].priority == p ==> tasks[k].priority.rank() == p.rank());
        assert(tasks[k].priority.rank() == p.rank() ==> tasks[k].priority == p);
    }
}

/// A batch holds the data of every task that has gathered, and nothing else:
/// as many bytes as all of them together, and the data of each task behind that
/// of the tasks before it.
pub proof fn batches_hold_all_data(pending: Seq<WriteTask>, i: int)
    requires
        0 <= i < pending.len(),
    ensures
        ({
            let tasks = arranged(pending);
            let data = combined(tasks);
            let start = tasks.take(i).fold_left(
                0int,
                |n: int, t: WriteTask| n + bytes_content(t.data).len(),
            );
            let len = bytes_content(tasks[i].data).len() as int;
            &&& tasks.len() == pending.len()
            &&& tasks.to_multiset() == pending.to_multiset()
            &&& data.len() == pending.fold_left(
                0int,
                |n: int, t: WriteTask| n + bytes_content(t.data).len(),
            )
            &&& data == tasks.map_values(|t: WriteTask| bytes_content(t.data)).flatten()
            &&& 0 <= start <= start + len <= data.len()
            &&& data.subrange(start, start + len) == bytes_content(tasks[i].data)
        }),
{
    let tasks = arranged(pending);
    let sum = |n: int, t: WriteTask| n + bytes_content(t.data).len();
    batches_keep_every_task(pending);
    vstd::seq_lib::lemma_fold_left_permutation(tasks, pending, sum, 0);
    data_is_joined(tasks, i);
}

proof fn data_is_joined(tasks: Seq<WriteTask>, i: int)
    ensures
        combined(tasks).len() == tasks.fold_left(
            0int,
            |n: int, t: WriteTask| n + bytes_content(t.data).len(),
        ),
        combined(tasks) == tasks.map_values(|t: WriteTask| bytes_content(t.data)).flatten(),
        0 <= i < tasks.len() ==> {
            let start = tasks.take(i).fold_left(
                0int,
                |n: int, t: WriteTask| n + bytes_content(t.data).len(),
            );
            let len = bytes_content(tasks[i].data).len() as int;
            &&& 0 <= start <= start + len <= combined(tasks).len()
            &&& combined(tasks).subrange(start, start + len) == bytes_content(tasks[i].data)
        },
    decreases tasks.len(),
{
    let sum = |n: int, t: WriteTask| n + bytes_content(t.data).len();
    let texts = |t: WriteTask| bytes_content(t.data);
    if tasks.len() == 0 {
        assert(tasks.map_values(texts) =~= Seq::empty());
    } else {
        let rest = tasks.drop_last();
        let last = bytes_content(tasks.last().data);
        data_is_joined(rest, i);
        assert(tasks.map_values(texts) =~= rest.map_values(texts).push(last));
        rest.map_values(texts).lemma_flatten_push(last);
        if 0 <= i < rest.len() {
            assert(rest.take(i) =~= tasks.take(i));
            let start = tasks.take(i).fold_left(0int, sum);
            let len = bytes_content(tasks[i].data).len() as int;
            assert(combined(tasks).subrange(start, start + len) =~= combined(rest).subrange(
                start,
                start + len,
            ));
        } else if i == rest.len() {
            assert(tasks.take(i) =~= rest);
            assert(combined(tasks).subrange(
                combined(rest).len() as int,
                combined(tasks).len() as int,
            ) =~= last);
        }
    }
}

/// A batch ready to be written.
#[derive(Debug)]
pub struct PreparedBatch {
    /// The position of the connection.
    pub connection: usize,
    pub data: Bytes,
    pub total_bytes: usize,
    pub requires_flush: bool,
    /// How long the write may take.
    pub timeout: u64,
}

/// A batch asks for a flush if and only if one of its tasks does.
pub proof fn flushes_are_kept(pending: Seq<WriteTask>)
    ensures
        any_flush(arranged(pending)) <==> exists|i: int|
            0 <= i < pending.len() && (#[trigger] pending[i]).requires_flush,
{
    broadcast use vstd::seq_lib::group_to_multiset_ensures;

    let tasks = arranged(pending);
    batches_keep_every_task(pending);
    if any_flush(tasks) {
        let i = choose|i: int| 0 <= i < tasks.len() && (#[trigger] tasks[i]).requires_flush;
        assert(tasks.contains(tasks[i]));
        assert(tasks.to_multiset().count(tasks[i]) > 0);
        assert(pending.contains(tasks[i]));
    }
    if exists|i: int| 0 <= i < pending.len() && (#[trigger] pending[i]).requires_flush {
        let i = choose|i: int| 0 <= i < pending.len() && (#[trigger] pending[i]).requires_flush;
        assert(pending.contains(pending[i]));
        assert(pending.to_multiset().count(pending[i]) > 0);
        assert(tasks.contains(pending[i]));
    }
}

/// What the loop that gathers writes does with a task.
#[derive(Debug, Clone, Copy, PartialEq, Eq, Structural)]
pub enum GatherStep {
    /// The task is for another address and is dropped.
    Ignored,
    /// The task waits for others.
    Waiting,
    /// What has gathered is to be written.
    Due,
}

/// The loop that gathers the writes to one address.
#[derive(Debug)]
pub struct WriteGatherer {
    pub destination_addr: u64,
    pub pending: Vec<WriteTask>,
    pub last_flush: u64,
}

impl WriteGatherer {
    /// Takes a task from the queue. A batch is due when it is large enough,
    /// when the last one is long ago, or when a task asks for a flush.
    pub fn gather(
        &mut self,
        task: WriteTask,
        optimal_size: usize,
        flush_interval: u64,
        now: u64,
    ) -> (step: GatherStep)
        ensures
            final(self).destination_addr == old(self).destination_addr,
            final(self).last_flush == old(self).last_flush,
            step == GatherStep::Ignored <==> task.destination_addr != old(self).destination_addr,
            task.destination_addr != old(self).destination_addr ==> final(self).pending@ == old(
                self).pending@,
            task.destination_addr == old(self).destination_addr ==> {
                &&& final(self).pending@ == old(self).pending@.push(task)
                &&& step == GatherStep::Due <==> {
                    ||| final(self).pending@.len() >= optimal_size
                    ||| minus(now as int, old(self).last_flush as int) >= flush_interval
                    ||| any_flush(final(self).pending@)
                }
            },
            task.destination_addr == old(self).destination_addr ==> (step == GatherStep::Due
                <==> old(self).pending@.len() + 1 >= optimal_size
                    || now >= old(self).last_flush + flush_interval
                || flush_interval == 0 || task.requires_flush || exists|i: int|
                0 <= i < old(self).pending@.len()
                    && (#[trigger] old(self).pending@[i]).requires_flush),
    {
        let ghost before = self.pending@;
        if task.destination_addr != self.destination_addr {
            return GatherStep::Ignored;
        }
        let ghost new = task;
        self.pending.push(task);
        proof {
            let after = self.pending@;
            assert(after[before.len() as int] == new);
            assert(forall|i: int| 0 <= i < before.len() ==> #[trigger] before[i] == after[i]);
            if any_flush(after) {
                let k = choose|k: int| 0 <= k < after.len() && (#[trigger] after[k]).requires_flush;
                assert(k == before.len() || before[k].requires_flush);
            }
        }
        if self.pending.len() >= optimal_size || now.saturating_sub(self.last_flush)
            >= flush_interval || wants_flush(&self.pending) {
            GatherStep::Due
        } else {
            GatherStep::Waiting
        }
    }

    /// Whether what has gathered is to be written although no task came.
    pub fn is_due(&self, flush_interval: u64, now: u64) -> (r: bool)
        ensures
            r == (self.pending@.len() > 0 && minus(now as int, self.last_flush as int)
                >= flush_interval),
            r <==> self.pending@.len() > 0 && (now >= self.last_flush + flush_interval
                || flush_interval
                == 0),
    {
        self.pending.len() > 0 && now.saturating_sub(self.last_flush) >= flush_interval
    }
}

/// A running mean that takes a tenth of each new value.
pub open spec fn tenth_mean(mean: u64, value: u64) -> u64 {
    ((mean * 9 + value) / 10) as u64
}

pub fn blend_tenth(mean: u64, value: u64) -> (r: u64)
    ensures
        r == tenth_mean(mean, value),
        10 * r <= 9 * mean + value < 10 * (r + 1),
{
    ((mean as u128 * 9 + value as u128) / 10) as u64
}

/// Joins the data of the tasks.
fn combine(tasks: &Vec<WriteTask>) -> (data: Vec<u8>)
    ensures
        data@ == combined(tasks@),
{
    let mut data: Vec<u8> = Vec::new();
    let mut i: usize = 0;
    proof {
        assert(tasks@.take(0) =~= Seq::empty());
    }
    while i < tasks.len()
        invariant
            i <= tasks@.len(),
            data@ == combined(tasks@.take(i as int)),
        decreases tasks@.len() - i,
    {
        data.extend_from_slice(bytes_as_slice(&tasks[i].data));
        proof {
            assert(tasks@.take(i + 1).drop_last() =~= tasks@.take(i as int));
            assert(data@ =~= combined(tasks@.take(i + 1)));
        }
        i += 1;
    }
    proof {
        assert(tasks@.take(i as int) =~= tasks@);
    }
    data
}

/// The writer.
#[derive(Debug)]
pub struct BatchWriter {
    pub write_timeout: u64,
    pub flush_interval: u64,
    pub batch_model: WriteBatchModel,
    pub backpressure_model: BackpressureModel,
    pub connections: Vec<ConnectionWriter>,
    /// How many more writes may be under way.
    pub permits: usize,
    pub is_running: bool,
    pub stats: WriterStats,
    pub connection_count: usize,
    pub write_times: VecDeque<u64>,
}

impl BatchWriter {
    /// What holds of every writer.
    pub open spec fn wf(self) -> bool {
        &&& self.batch_model.wf()
        &&& self.permits <= max_permits()
        &&& self.write_times@.len() <= WRITE_TIME_HISTORY
    }

    /// Whether everything but connections, permits, counters and histories is
    /// as before.
    pub open spec fn same_setup(self, before: Self) -> bool {
        &&& self.write_timeout == before.write_timeout
        &&& self.flush_interval == before.flush_interval
        &&& self.backpressure_model == before.backpressure_model
        &&& self.is_running == before.is_running
        &&& self.connection_count == before.connection_count
    }

    /// Whether this is a writer as it is made: it runs, and has written nothing.
    pub open spec fn is_new(self, config: BatchConfig) -> bool {
        &&& self.write_timeout == config.write_timeout
        &&& self.flush_interval == config.flush_interval
        &&& self.batch_model.optimal_batch_size == config.min_batch_size
        &&& self.batch_model.current_batch_size == config.min_batch_size
        &&& self.batch_model.min_batch_size == config.min_batch_size
        &&& self.batch_model.max_batch_size == config.max_batch_size
        &&& self.batch_model.accumulation_time == 10 * MILLISECOND
        &&& self.batch_model.write_time == 0
        &&& self.batch_model.target_latency == config.write_timeout
        &&& self.batch_model.history@.len() == 0
        &&& self.backpressure_model == (BackpressureModel {
            max_queue_size: config.max_pending_writes,
            current_queue: 0,
        })
        &&& self.connections@.len() == 0
        &&& self.permits == config.max_pending_writes
        &&& self.is_running
        &&& self.stats == WriterStats::none()
        &&& self.connection_count == 0
        &&& self.write_times@.len() == 0
    }

    /// A running writer without connections.
    pub fn new(config: &BatchConfig) -> (w: Self)
        requires
            0 < config.max_pending_writes <= max_permits(),
        ensures
            w.wf(),
            w.is_new(*config),
            w.permits == config.max_pending_writes,
            w.write_timeout == config.write_timeout && w.flush_interval == config.flush_interval,
            w.batch_model.min_batch_size == config.min_batch_size,
            w.batch_model.max_batch_size == config.max_batch_size,
            w.connections@.len() == 0 && w.is_running,
            w.stats.total_bytes_written == 0 && w.stats.total_packets_written == 0,
    {
        BatchWriter {
            write_timeout: config.write_timeout,
            flush_interval: config.flush_interval,
            batch_model: WriteBatchModel::new(
                config.min_batch_size,
                config.max_batch_size,
                config.write_timeout,
            ),
            backpressure_model: BackpressureModel::new(config.max_pending_writes),
            connections: Vec::new(),
            permits: config.max_pending_writes,
            is_running: true,
            stats: WriterStats::default(),
            connection_count: 0,
            write_times: VecDeque::new(),
        }
    }

    /// Takes on a connection, together with the loop that gathers its writes.
    pub fn register_connection(
        &mut self,
        destination_addr: u64,
        session_id: Vec<u8>,
        now: u64,
    ) -> (g: WriteGatherer)
        requires
            old(self).wf(),
            old(self).connection_count < usize::MAX,
        ensures
            final(self).wf(),
            final(self).connections@ == old(self).connections@.push(
                ConnectionWriter {
                    destination_addr,
                    session_id,
                    last_write_time: now,
                    is_active: true,
                    bytes_written: 0,
                    packets_written: 0,
                },
            ),
            final(self).connection_count == old(self).connection_count + 1,
            final(self).stats == (WriterStats {
                connection_count: (old(self).connection_count + 1) as usize,
                ..old(self).stats
            }),
            *final(self) == (BatchWriter {
                connections: final(self).connections,
                connection_count: final(self).connection_count,
                stats: final(self).stats,
                ..*old(self)
            }),
            g.destination_addr == destination_addr,
            g.pending@.len() == 0,
            g.last_flush == now,
    {
        self.connection_count = self.connection_count + 1;
        self.connections.push(
            ConnectionWriter {
                destination_addr,
                session_id,
                last_write_time: now,
                is_active: true,
                bytes_written: 0,
                packets_written: 0,
            },
        );
        self.stats.connection_count = self.connection_count;
        self.start_writer_for_connection(destination_addr, now)
    }

    /// The loop that gathers the writes to an address.
    pub fn start_writer_for_connection(&self, destination_addr: u64, now: u64) -> (g: WriteGatherer)
        ensures
            g.destination_addr == destination_addr,
            g.pending@.len() == 0,
            g.last_flush == now,
    {
        WriteGatherer { destination_addr, pending: Vec::new(), last_flush: now }
    }

    /// Starts a write, unless too many are under way. Critical data and data
    /// that asks for a flush goes out at once; other data is queued.
    pub fn write(
        &mut self,
        destination_addr: u64,
        session_id: Vec<u8>,
        data: Bytes,
        priority: Priority,
        requires_flush: bool,
        now: u64,
    ) -> (r: Result<WriteRoute, BatchError>)
        requires
            old(self).wf(),
        ensures
            final(self).wf(),
            r is Err <==> old(self).permits == 0,
            r matches Err(e) ==> e == BatchError::Backpressure && *final(self) == *old(self),
            *final(self) == (BatchWriter {
                permits: minus(old(self).permits as int, 1) as usize,
                ..*old(self)
            }),
            r matches Ok(route) ==> {
                let task = WriteTask {
                    destination_addr,
                    session_id,
                    data,
                    priority,
                    requires_flush,
                    created_at: now,
                    size_bytes: bytes_content(data).len() as usize,
                };
                route == if priority == Priority::Critical || requires_flush {
                    WriteRoute::Immediate(task)
                } else {
                    WriteRoute::Queued(task)
                }
            },
    {
        if self.permits == 0 {
            return Err(BatchError::Backpressure);
        }
        self.permits = self.permits - 1;
        let size_bytes: usize = bytes_as_slice(&data).len();
        let task: WriteTask = WriteTask {
            destination_addr,
            session_id,
            data,
            priority,
            requires_flush,
            created_at: now,
            size_bytes,
        };
        if priority.is_critical() || requires_flush {
            Ok(WriteRoute::Immediate(task))
        } else {
            Ok(WriteRoute::Queued(task))
        }
    }

    /// Ends a write that went out at once, whatever became of it: its permit is
    /// free again.
    pub fn release_permit(&mut self)
        requires
            old(self).wf(),
            old(self).permits < max_permits(),
        ensures
            final(self).wf(),
            *final(self) == (BatchWriter {
                permits: (old(self).permits + 1) as usize,
                ..*old(self)
            }),
    {
        self.permits = self.permits + 1;
    }

    /// Ends a queued write: its permit is free again. A task that could not be
    /// queued counts as one too many.
    pub fn finish_queued(&mut self, queued: bool) -> (r: Result<(), BatchError>)
        requires
            old(self).wf(),
            old(self).permits < max_permits(),
        ensures
            final(self).wf(),
            *final(self) == (BatchWriter {
                permits: (old(self).permits + 1) as usize,
                ..*old(self)
            }),
            r is Ok <==> queued,
            r matches Err(e) ==> e == BatchError::Backpressure,
    {
        self.release_permit();
        if queued {
            Ok(())
        } else {
            Err(BatchError::Backpressure)
        }
    }

    /// The connection for a write that goes out at once: the first that serves
    /// the session.
    pub fn find_session(&self, session_id: &[u8]) -> (r: Result<usize, BatchError>)
        ensures
            match r {
                Ok(i) => {
                    &&& i < self.connections@.len()
                    &&& serves_session(self.connections@[i as int], session_id@)
                    &&& forall|j: int|
                        0 <= j < i ==> !serves_session(
                            #[trigger] self.connections@[j],
                            session_id@,
                        )
                },
                Err(e) => {
                    &&& e matches BatchError::ConnectionError(s) && s@ == "Connection not found"@
                    &&& forall|j: int|
                        0 <= j < self.connections@.len() ==> !serves_session(
                            #[trigger] self.connections@[j],
                            session_id@,
                        )
                },
            },
    {
        let mut i: usize = 0;
        while i < self.connections.len()
            invariant
                i <= self.connections@.len(),
                forall|j: int|
                    0 <= j < i ==> !serves_session(#[trigger] self.connections@[j], session_id@),
            decreases self.connections@.len() - i,
        {
            if self.connections[i].is_active && same_bytes(
                self.connections[i].session_id.as_slice(),
                session_id,
            ) {
                return Ok(i);
            }
            i += 1;
        }
        Err(BatchError::ConnectionError(String::from_str("Connection not found")))
    }

    /// The connection for a batch: the first that serves the address.
    pub fn find_address(&self, destination_addr: u64) -> (r: Result<usize, BatchError>)
        ensures
            match r {
                Ok(i) => {
                    &&& i < self.connections@.len()
                    &&& serves_address(self.connections@[i as int], destination_addr)
                    &&& forall|j: int|
                        0 <= j < i ==> !serves_address(
                            #[trigger] self.connections@[j],
                            destination_addr,
                        )
                },
                Err(e) => {
                    &&& e matches BatchError::ConnectionError(s) && s@ == "Connection not found"@
                    &&& forall|j: int|
                        0 <= j < self.connections@.len() ==> !serves_address(
                            #[trigger] self.connections@[j],
                            destination_addr,
                        )
                },
            },
    {
        let mut i: usize = 0;
        while i < self.connections.len()
            invariant
                i <= self.connections@.len(),
                forall|j: int|
                    0 <= j < i ==> !serves_address(
                        #[trigger] self.connections@[j],
                        destination_addr,
                    ),
            decreases self.connections@.len() - i,
        {
            if self.connections[i].is_active && self.connections[i].destination_addr
                == destination_addr {
                return Ok(i);
            }
            i += 1;
        }
        Err(BatchError::ConnectionError(String::from_str("Connection not found")))
    }

    /// Ends a write that went out at once over connection `i`.
    pub fn write_immediate(
        &mut self,
        i: usize,
        task: &WriteTask,
        outcome: WriteOutcome,
        write_time: u64,
        now: u64,
    ) -> (r: Result<(), BatchError>)
        requires
            old(self).wf(),
            i < old(self).connections@.len(),
            old(self).connections@[i as int].bytes_written + task.size_bytes <= u64::MAX,
            old(self).connections@[i as int].packets_written < u64::MAX,
            old(self).stats.total_bytes_written + task.size_bytes <= u64::MAX,
            old(self).stats.total_packets_written < u64::MAX,
            old(self).stats.error_events < u64::MAX,
            old(self).stats.timeout_events < u64::MAX,
        ensures
            final(self).wf(),
            final(self).same_setup(*old(self)),
            final(self).permits == old(self).permits,
            final(self).batch_model == old(self).batch_model,
            match outcome {
                WriteOutcome::Written => {
                    &&& r is Ok
                    &&& final(self).connections@ == old(self).connections@.update(
                        i as int,
                        after_write(
                            old(self).connections@[i as int],
                            task.size_bytes as nat,
                            1,
                            now,
                        ),
                    )
                    &&& final(self).stats == (WriterStats {
                        total_bytes_written: (old(self).stats.total_bytes_written
                            + task.size_bytes) as u64,
                        total_packets_written: (old(self).stats.total_packets_written + 1) as u64,
                        avg_write_time: tenth_mean(old(self).stats.avg_write_time, write_time),
                        ..old(self).stats
                    })
                    &&& final(self).write_times@ == remembered(
                        old(self).write_times@,
                        write_time,
                        WRITE_TIME_HISTORY as nat,
                    )
                },
                WriteOutcome::FlushFailed(text) => {
                    &&& r == Err::<(), BatchError>(BatchError::Io(text))
                    &&& *final(self) == *old(self)
                },
                WriteOutcome::Failed(text) => {
                    &&& r == Err::<(), BatchError>(BatchError::ProcessingError(text))
                    &&& final(self).connections@ == old(self).connections@.update(
                        i as int,
                        deactivated(old(self).connections@[i as int]),
                    )
                    &&& final(self).stats == (WriterStats {
                        error_events: (old(self).stats.error_events + 1) as u64,
                        ..old(self).stats
                    })
                    &&& final(self).write_times == old(self).write_times
                },
                WriteOutcome::TimedOut => {
                    &&& r == Err::<(), BatchError>(BatchError::Timeout)
                    &&& final(self).connections@ == old(self).connections@.update(
                        i as int,
                        deactivated(old(self).connections@[i as int]),
                    )
                    &&& final(self).stats == (WriterStats {
                        timeout_events: (old(self).stats.timeout_events + 1) as u64,
                        ..old(self).stats
                    })
                    &&& final(self).write_times == old(self).write_times
                },
            },
            outcome is Written ==> {
                let was = old(self).connections@[i as int];
                let later = final(self).connections@[i as int];
                &&& later.bytes_written == was.bytes_written + task.size_bytes
                &&& later.packets_written == was.packets_written + 1
                &&& later.last_write_time == now
                &&& later.is_active == was.is_active
                &&& final(self).stats.total_bytes_written == old(self).stats.total_bytes_written
                    + task.size_bytes
            },
            outcome is Failed || outcome is TimedOut
                ==> !final(self).connections@[i as int].is_active
                && final(self).stats.total_bytes_written == old(self).stats.total_bytes_written,
            forall|j: int|
                0 <= j < old(self).connections@.len() && j != i
                    ==> #[trigger] final(self).connections@[j]
                    == old(self).connections@[j],
    {
        match outcome {
            WriteOutcome::Written => {
                self.note_write(i, task.size_bytes as u64, 1, now);
                self.stats.total_bytes_written = self.stats.total_bytes_written
                    + task.size_bytes as u64;
                self.stats.total_packets_written = self.stats.total_packets_written + 1;
                self.stats.avg_write_time = blend_tenth(self.stats.avg_write_time, write_time);
                remember(&mut self.write_times, write_time, WRITE_TIME_HISTORY);
                Ok(())
            },
            WriteOutcome::FlushFailed(text) => Err(BatchError::Io(text)),
            WriteOutcome::Failed(text) => {
                self.deactivate(i);
                self.stats.error_events = self.stats.error_events + 1;
                Err(BatchError::ProcessingError(text))
            },
            WriteOutcome::TimedOut => {
                self.deactivate(i);
                self.stats.timeout_events = self.stats.timeout_events + 1;
                Err(BatchError::Timeout)
            },
        }
    }

    fn note_write(&mut self, i: usize, bytes: u64, packets: u64, now: u64)
        requires
            i < old(self).connections@.len(),
            old(self).connections@[i as int].bytes_written + bytes <= u64::MAX,
            old(self).connections@[i as int].packets_written + packets <= u64::MAX,
        ensures
            final(self).connections@ == old(self).connections@.update(
                i as int,
                after_write(old(self).connections@[i as int], bytes as nat, packets as nat, now),
            ),
            *final(self) == (BatchWriter {
                connections: final(self).connections,
                ..*old(self)
            }),
    {
        let c: &mut ConnectionWriter = &mut self.connections[i];
        c.last_write_time = now;
        c.bytes_written = c.bytes_written + bytes;
        c.packets_written = c.packets_written + packets;
    }

    fn deactivate(&mut self, i: usize)
        requires
            i < old(self).connections@.len(),
        ensures
            final(self).connections@ == old(self).connections@.update(
                i as int,
                deactivated(old(self).connections@[i as int]),
            ),
            *final(self) == (BatchWriter {
                connections: final(self).connections,
                ..*old(self)
            }),
    {
        let c: &mut ConnectionWriter = &mut self.connections[i];
        c.is_active = false;
    }

    /// Makes a batch of what has gathered: nothing where nothing has; else the
    /// data of all tasks in the order of the batch, for the connection that
    /// serves the address. The write may take as many timeouts as there are
    /// tasks.
    pub fn prepare_batch(&self, g: &mut WriteGatherer) -> (r: Result<
        Option<PreparedBatch>,
        BatchError,
    >)
        requires
            old(g).pending@.len() <= u32::MAX,
            self.write_timeout * old(g).pending@.len() <= u64::MAX,
        ensures
            final(g).destination_addr == old(g).destination_addr,
            final(g).last_flush == old(g).last_flush,
            match r {
                Ok(None) => old(g).pending@.len() == 0 && final(g).pending@ == old(g).pending@,
                Ok(Some(b)) => {
                    &&& old(g).pending@.len() > 0
                    &&& b.connection < self.connections@.len()
                    &&& serves_address(
                        self.connections@[b.connection as int],
                        old(g).destination_addr,
                    )
                    &&& forall|j: int|
                        0 <= j < b.connection ==> !serves_address(
                            #[trigger] self.connections@[j],
                            old(g).destination_addr,
                        )
                    &&& final(g).pending@ == arranged(old(g).pending@)
                    &&& bytes_content(b.data) == combined(arranged(old(g).pending@))
                    &&& b.total_bytes == bytes_content(b.data).len()
                    &&& b.total_bytes == old(g).pending@.fold_left(
                        0int,
                        |n: int, t: WriteTask| n + bytes_content(t.data).len(),
                    )
                    &&& final(g).pending@.to_multiset() == old(g).pending@.to_multiset()
                    &&& bytes_content(b.data) == final(g).pending@.map_values(
                        |t: WriteTask| bytes_content(t.data),
                    ).flatten()
                    &&& forall|i: int, j: int|
                        0 <= i <= j < final(g).pending@.len() ==> (
                        #[trigger] final(g).pending@[i]).priority.rank() >= (
                        #[trigger] final(g).pending@[j]).priority.rank()
                    &&& b.requires_flush == any_flush(arranged(old(g).pending@))
                    &&& b.requires_flush <==> exists|i: int|
                        0 <= i < old(g).pending@.len() && (
                        #[trigger] old(g).pending@[i]).requires_flush
                    &&& b.timeout == self.write_timeout * old(g).pending@.len()
                },
                Err(e) => {
                    &&& old(g).pending@.len() > 0
                    &&& e matches BatchError::ConnectionError(s) && s@ == "Connection not found"@
                    &&& forall|j: int|
                        0 <= j < self.connections@.len() ==> !serves_address(
                            #[trigger] self.connections@[j],
                            old(g).destination_addr,
                        )
                    &&& final(g).pending@ == old(g).pending@
                },
            },
    {
        if g.pending.len() == 0 {
            return Ok(None);
        }
        match self.find_address(g.destination_addr) {
            Err(e) => Err(e),
            Ok(connection) => {
                let count: usize = g.pending.len();
                let timeout: u64 = self.write_timeout * count as u64;
                arrange(&mut g.pending);
                let data: Vec<u8> = combine(&g.pending);
                let total_bytes: usize = data.len();
                let requires_flush: bool = wants_flush(&g.pending);
                proof {
                    let before = old(g).pending@;
                    batches_hold_all_data(before, 0);
                    assert forall|i: int, j: int| 0 <= i <= j < g.pending@.len() implies (
                    #[trigger] g.pending@[i]).priority.rank() >= (
                    #[trigger] g.pending@[j]).priority.rank() by {
                        batches_are_in_order(before, Priority::Normal, i, j);
                    }
                    flushes_are_kept(before);
                }
                Ok(
                    Some(
                        PreparedBatch {
                            connection,
                            data: bytes_from_vec(data),
                            total_bytes,
                            requires_flush,
                            timeout,
                        },
                    ),
                )
            },
        }
    }

    /// Ends the write of a batch of `count` tasks.
    pub fn process_batch(
        &mut self,
        batch: &PreparedBatch,
        count: usize,
        outcome: WriteOutcome,
        now: u64,
    ) -> (r: Result<(), BatchError>)
        requires
            old(self).wf(),
            batch.connection < old(self).connections@.len(),
            old(self).connections@[batch.connection as int].bytes_written + batch.total_bytes
                <= u64::MAX,
            old(self).connections@[batch.connection as int].packets_written + count <= u64::MAX,
        ensures
            final(self).wf(),
            *final(self) == (BatchWriter {
                connections: final(self).connections,
                ..*old(self)
            }),
            final(self).connections@ == old(self).connections@.update(
                batch.connection as int,
                match outcome {
                    WriteOutcome::Written | WriteOutcome::FlushFailed(_) => after_write(
                        old(self).connections@[batch.connection as int],
                        batch.total_bytes as nat,
                        count as nat,
                        now,
                    ),
                    _ => deactivated(old(self).connections@[batch.connection as int]),
                },
            ),
            r == match outcome {
                WriteOutcome::Written => Ok::<(), BatchError>(()),
                WriteOutcome::FlushFailed(text) => Err(BatchError::Io(text)),
                WriteOutcome::Failed(text) => Err(BatchError::ProcessingError(text)),
                WriteOutcome::TimedOut => Err(BatchError::Timeout),
            },
            ({
                let c = batch.connection as int;
                let (was, later) = (old(self).connections@[c], final(self).connections@[c]);
                &&& outcome is Written
                    ==> later.bytes_written == was.bytes_written + batch.total_bytes
                    && later.packets_written == was.packets_written + count
                        && later.last_write_time == now
                &&& outcome is Failed || outcome is TimedOut ==> !later.is_active
                &&& forall|j: int|
                    0 <= j < old(self).connections@.len() && j != c ==> (
                    #[trigger] final(self).connections@[j]) == old(self).connections@[j]
            }),
    {
        match outcome {
            WriteOutcome::Written => {
                self.note_write(batch.connection, batch.total_bytes as u64, count as u64, now);
                Ok(())
            },
            WriteOutcome::FlushFailed(text) => {
                self.note_write(batch.connection, batch.total_bytes as u64, count as u64, now);
                Err(BatchError::Io(text))
            },
            WriteOutcome::Failed(text) => {
                self.deactivate(batch.connection);
                Err(BatchError::ProcessingError(text))
            },
            WriteOutcome::TimedOut => {
                self.deactivate(batch.connection);
                Err(BatchError::Timeout)
            },
        }
    }

    /// Starts gathering anew after a batch, whatever came of it. A batch that
    /// was written teaches the model.
    pub fn conclude_batch(
        &mut self,
        g: &mut WriteGatherer,
        written: bool,
        write_time: u64,
        now: u64,
    )
        requires
            old(self).wf(),
            old(self).permits + old(g).pending@.len() <= max_permits(),
            old(self).stats.total_batches_written < u64::MAX,
        ensures
            final(self).wf(),
            final(self).same_setup(*old(self)),
            final(self).connections == old(self).connections,
            final(self).write_times == old(self).write_times,
            final(self).permits == old(self).permits + old(g).pending@.len(),
            !written ==> final(self).batch_model == old(self).batch_model && final(self).stats
                == old(self).stats,
            written ==> {
                &&& has_learned_batch(
                    old(self).batch_model,
                    old(g).pending@.len() as usize,
                    write_time,
                    now,
                    final(self).batch_model,
                )
                &&& final(self).stats == (WriterStats {
                    total_batches_written: (old(self).stats.total_batches_written + 1) as u64,
                    optimal_batch_size: final(self).batch_model.optimal_batch_size,
                    ..old(self).stats
                })
            },
            final(g).pending@.len() == 0,
            final(g).last_flush == now,
            final(g).destination_addr == old(g).destination_addr,
    {
        let count: usize = g.pending.len();
        if written {
            self.batch_model.update(count, write_time, now);
            self.stats.total_batches_written = self.stats.total_batches_written + 1;
            self.stats.optimal_batch_size = self.batch_model.optimal_batch_size;
        }
        self.permits = self.permits + count;
        g.pending.clear();
        g.last_flush = now;
    }

    /// The counters, with write times and connections brought up to date.
    pub fn get_stats(&mut self) -> (s: WriterStats)
        requires
            old(self).wf(),
        ensures
            final(self).wf(),
            *final(self) == (BatchWriter { stats: s, ..*old(self) }),
            s == (WriterStats {
                avg_write_time: s.avg_write_time,
                p95_write_time: s.p95_write_time,
                p99_write_time: s.p99_write_time,
                connection_count: old(self).connection_count,
                queue_size: 0,
                ..old(self).stats
            }),
            ({
                let times = in_micros(old(self).write_times@);
                if times.len() == 0 {
                    &&& s.avg_write_time == old(self).stats.avg_write_time
                    &&& s.p95_write_time == old(self).stats.p95_write_time
                    &&& s.p99_write_time == old(self).stats.p99_write_time
                } else {
                    &&& s.avg_write_time == mean(times) * 1000
                    &&& exists|p95: u64, p99: u64|
                        {
                            &&& #[trigger] is_percentile(times, 95, Some(p95))
                            &&& #[trigger] is_percentile(times, 99, Some(p99))
                            &&& s.p95_write_time == p95 * 1000
                            &&& s.p99_write_time == p99 * 1000
                        }
                }
            }),
    {
        let list: Vec<u64> = to_list(&self.write_times);
        let times: Vec<u64> = micros_of(&list);
        if times.len() > 0 {
            if let Some(p95) = percentile(&times, 95) {
                if let Some(p99) = percentile(&times, 99) {
                    let avg: u64 = mean_u64(&times);
                    proof {
                        percentiles_stay_in_range(list@, 95, p95);
                        percentiles_stay_in_range(list@, 99, p99);
                        means_stay_in_range(list@);
                    }
                    self.stats.avg_write_time = avg * 1000;
                    self.stats.p95_write_time = p95 * 1000;
                    self.stats.p99_write_time = p99 * 1000;
                }
            }
        }
        self.stats.connection_count = self.connection_count;
        self.stats.queue_size = 0;
        self.stats
    }

    /// Stops all connections.
    pub fn shutdown(&mut self)
        requires
            old(self).wf(),
        ensures
            final(self).wf(),
            *final(self) == (BatchWriter {
                connections: final(self).connections,
                is_running: false,
                ..*old(self)
            }),
            final(self).connections@.len() == old(self).connections@.len(),
            forall|i: int|
                0 <= i < old(self).connections@.len() ==> #[trigger] final(self).connections@[i]
                    == deactivated(old(self).connections@[i]),
    {
        self.is_running = false;
        let mut i: usize = 0;
        while i < self.connections.len()
            invariant
                i <= self.connections@.len(),
                self.connections@.len() == old(self).connections@.len(),
                forall|k: int|
                    0 <= k < i ==> #[trigger] self.connections@[k] == deactivated(
                        old(self).connections@[k],
                    ),
                forall|k: int|
                    i <= k < self.connections@.len() ==> #[trigger] self.connections@[k] == old(
                        self,
                    ).connections@[k],
                *self == (BatchWriter {
                    connections: self.connections,
                    is_running: false,
                    ..*old(self)
                }),
            decreases self.connections@.len() - i,
        {
            self.deactivate(i);
            i += 1;
        }
    }
}

proof fn percentiles_stay_in_range(times: Seq<u64>, percent: nat, p: u64)
    requires
        percent < 100,
        is_percentile(in_micros(times), percent, Some(p)),
    ensures
        p * 1000 <= u64::MAX,
{
    percentile_is_an_entry(in_micros(times), percent, p);
    let i = choose|i: int| 0 <= i < times.len() && in_micros(times)[i] == p;
    assert(in_micros(times)[i] == times[i] / 1000);
}

proof fn means_stay_in_range(times: Seq<u64>)
    ensures
        mean(in_micros(times)) * 1000 <= u64::MAX,
{
    let s = in_micros(times);
    let bound = (u64::MAX / 1000) as u64;
    assert forall|i: int| 0 <= i < s.len() implies s[i] <= bound by {
        assert(s[i] == times[i] / 1000);
    }
    mean_bounded(s, bound);
}

/// The optimal batch size, with ten batches known, is that of the batch that
/// wrote the most in its time, among those that took no longer than the target;
/// a write that took less than a tenth of a millisecond counts as having taken
/// that long.
pub proof fn the_fastest_batch_is_optimal(
    before: WriteBatchModel,
    batch_size: usize,
    write_time: u64,
    now: u64,
    after: WriteBatchModel,
    j: int,
)
    requires
        before.wf(),
        after.wf(),
        has_learned_batch(before, batch_size, write_time, now, after),
        after.history@.len() >= 10,
        0 <= j < after.history@.len(),
        after.history@[j].write_time <= before.target_latency,
        after.history@[j].batch_size > 0,
    ensures
        exists|i: int|
            {
                let (best, other) = (#[trigger] after.history@[i], after.history@[j]);
                &&& 0 <= i < after.history@.len()
                &&& after.optimal_batch_size == best.batch_size
                &&& best.write_time <= before.target_latency
                &&& best.throughput.part == best.batch_size
                &&& best.throughput.whole == if best.write_time > 100_000 {
                    best.write_time
                } else {
                    100_000
                }
                &&& best.throughput.part * other.throughput.whole >= other.throughput.part
                    * best.throughput.whole
            },
{
    let h = after.history@;
    assert(h[j].throughput == throughput(h[j].batch_size, h[j].write_time));
    assert(eligible(h[j], before.target_latency));
    let i = choose|i: int| #[trigger]
        is_best(h, before.target_latency, i) && after.optimal_batch_size == h[i].batch_size;
    assert(is_best(h, before.target_latency, i));
    assert(h[i].throughput == throughput(h[i].batch_size, h[i].write_time));
    assert(!h[j].throughput.exceeds(h[i].throughput));
    ratios_compare_crosswise(h[j].throughput, h[i].throughput);
}

} // verus!
