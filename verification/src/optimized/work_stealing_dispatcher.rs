//! A dispatcher whose workers steal tasks from a shared queue.
//!
//! Points in time, durations and loads are nanoseconds. A remote address is
//! the number its owner gives it.

use bytes::Bytes;
use std::collections::VecDeque;
use vstd::prelude::*;
use vstd::std_specs::vecdeque::*;
use vstd::string::*;

use crate::balance::{are_small, imbalance_of, is_computable, is_imbalance, is_small};
use crate::bounds::{greater, max_u64, minus, smaller};
use crate::buffer::{bytes_as_slice, bytes_content};
use crate::circuit_breaker::{BreakerCore, CircuitBreaker, CircuitState};
use crate::config::MILLISECOND;
use crate::dash::{Counters, Numbers, count_of, counted, entries_total, lists_named};
use crate::histogram::{Histogram, is_histogram_percentile, seen_once_more};
use crate::history::{mean, mean_u64, remember, remembered, sum_u64, to_list, total};
use crate::measure::Measure;
use crate::ratio::Ratio;
use crate::store::NumberedStore;
use crate::text::{decimal, decimal_string, hex, hex_string, str_equal};
use crate::types::error::BatchError;
use crate::types::priority::Priority;

verus! {

/// How long results are kept: five minutes.
pub const RESULT_LIFETIME: u64 = 300_000_000_000;

/// The deadline of a task that came without one: thirty seconds.
pub const DEFAULT_DEADLINE: u64 = 30_000_000_000;

/// How often a worker considers stealing: every ten milliseconds.
pub const STEAL_INTERVAL: u64 = 10_000_000;

/// How often a worker asks for the batch size anew: every 100 milliseconds.
pub const BATCH_SIZE_INTERVAL: u64 = 100_000_000;

/// How many processing times a worker remembers.
pub const WORKER_TIMES: usize = 100;

/// How evenly the queues are filled.
#[derive(Debug, Clone, Copy, PartialEq, Eq, Structural)]
pub enum Balance {
    /// The coefficient of variation is above one half.
    Uneven,
    Fair,
    /// The coefficient of variation is below one fifth.
    Even,
}

/// How evenly the queues are filled, by their coefficient of variation.
pub open spec fn balance_for(imbalance: Measure) -> Balance {
    if imbalance.is_above(500) {
        Balance::Uneven
    } else if imbalance.is_below(200) {
        Balance::Even
    } else {
        Balance::Fair
    }
}

fn balance_of(imbalance: &Measure) -> (b: Balance)
    ensures
        b == balance_for(*imbalance),
{
    if imbalance.above(500) {
        Balance::Uneven
    } else if imbalance.below(200) {
        Balance::Even
    } else {
        Balance::Fair
    }
}

/// When to steal. Costs are thousandths, the probability ten-thousandths.
#[derive(Debug, Clone, Copy)]
pub struct WorkStealingModel {
    pub m: usize,
    pub p_steal: u64,
    /// The coefficient of variation of the queues, as it was last measured.
    pub imbalance: Measure,
    pub cost_idle: u64,
    pub cost_steal: u64,
}

/// Whether stealing from a queue of `queue_len` tasks is worth its cost in
/// thousandths: the gain is a tenth of the queue, times the chance of
/// `queue_len / (queue_len + 1)` to succeed.
pub open spec fn worth_stealing(queue_len: nat, cost_steal: nat) -> bool {
    queue_len > 0 && queue_len * queue_len * 100 > cost_steal * (queue_len + 1)
}

/// The steal probability for a backlog, before the balance is considered: one
/// tenth, and up to three tenths more as the backlog grows to 3000.
pub open spec fn base_steal_probability(total_queue: nat) -> int {
    1000 + smaller(total_queue as int, 3000)
}

/// The steal probability for a backlog and the balance of the queues.
pub open spec fn steal_probability(total_queue: nat, balance: Balance) -> int {
    let base = base_steal_probability(total_queue);
    match balance {
        Balance::Uneven => smaller(base + 500, 5000),
        Balance::Fair => base,
        Balance::Even => greater(base - 100, 500),
    }
}

impl WorkStealingModel {
    /// One task in ten is stolen to begin with.
    pub fn new(m: usize) -> (r: Self)
        ensures
            r == (WorkStealingModel {
                m,
                p_steal: 1000,
                imbalance: Measure { at_least: 0, at_most: 0 },
                cost_idle: 500,
                cost_steal: 200,
            }),
    {
        WorkStealingModel {
            m,
            p_steal: 1000,
            imbalance: Measure::exact(0),
            cost_idle: 500,
            cost_steal: 200,
        }
    }

    /// The chance that stealing from a queue succeeds.
    pub fn steal_success_probability(&self, queue_len: usize) -> (p: Ratio)
        requires
            queue_len < usize::MAX,
        ensures
            p == (Ratio { part: queue_len as u64, whole: (queue_len + 1) as u64 }),
    {
        Ratio::new(queue_len as u64, (queue_len + 1) as u64)
    }

    /// Whether stealing from a queue is worth its cost.
    pub fn optimal_steal_policy(&self, queue_len: usize, cost_steal: u64) -> (steal: bool)
        ensures
            steal == worth_stealing(queue_len as nat, cost_steal as nat),
            steal <==> queue_len > 0 && queue_len * queue_len * 100 > cost_steal * (queue_len + 1),
    {
        if queue_len == 0 {
            return false;
        }
        // The square of the length is one more than the product of its
        // neighbours.
        let gain: u128 = (queue_len as u128 - 1) * 100;
        let cost: u128 = cost_steal as u128;
        proof {
            let (q, c) = (queue_len as int, cost as int);
            assert(q * q * 100 - c * (q + 1) == (q + 1) * ((q - 1) * 100 - c) + 100)
                by (nonlinear_arith);
            if cost <= gain {
                assert((q + 1) * ((q - 1) * 100 - c) >= 0) by (nonlinear_arith)
                    requires
                        q > 0,
                        (q - 1) * 100 - c >= 0,
                ;
            } else {
                let d = cost - gain;
                assert(0 <= (q + 1) * d <= 0x1_0000_0000_0000_0000 * 0xffff_ffff_ffff_ffff)
                    by (nonlinear_arith)
                    requires
                        0 < q <= 0xffff_ffff_ffff_ffff,
                        0 <= d <= 0xffff_ffff_ffff_ffff,
                ;
                assert((q + 1) * ((q - 1) * 100 - c) == -((q + 1) * d)) by (nonlinear_arith)
                    requires
                        d == c - (q - 1) * 100,
                ;
            }
        }
        cost <= gain || (queue_len as u128 + 1) * (cost - gain) < 100
    }

    /// Adapts the steal probability to the backlog and the coefficient of
    /// variation of the queues.
    pub fn adapt(&mut self, m: usize, total_queue: u64, imbalance: Measure)
        ensures
            *final(self) == (WorkStealingModel {
                m,
                p_steal: steal_probability(total_queue as nat, balance_for(imbalance)) as u64,
                imbalance,
                ..*old(self)
            }),
    {
        self.m = m;
        self.imbalance = imbalance;
        let base: u64 = if total_queue < 3000 {
            1000 + total_queue
        } else {
            4000
        };
        self.p_steal = match balance_of(&imbalance) {
            Balance::Uneven => {
                if base + 500 < 5000 {
                    base + 500
                } else {
                    5000
                }
            },
            Balance::Fair => base,
            Balance::Even => max_u64(base - 100, 500),
        };
    }
}

/// The longer a queue, the more stealing from it is worth.
pub proof fn longer_queues_are_worth_more(a: nat, b: nat, cost_steal: nat)
    requires
        a <= b,
        worth_stealing(a, cost_steal),
    ensures
        worth_stealing(b, cost_steal),
{
    let (x, y, c) = (a as int, b as int, cost_steal as int);
    assert(y * y * 100 > c * (y + 1)) by (nonlinear_arith)
        requires
            0 < x <= y,
            c >= 0,
            x * x * 100 > c * (x + 1),
    {
        assert(x * x * 100 * (y + 1) > c * (x + 1) * (y + 1));
        assert(y * y * (x + 1) >= x * x * (y + 1)) by {
            assert(y * y * x >= x * x * y);
            assert(y * y >= x * x);
        }
        assert(y * y * 100 * (x + 1) > c * (y + 1) * (x + 1));
    }
}

/// Whatever the backlog, between one in twenty and one in two tasks is stolen.
pub proof fn steal_probability_stays_in_range(total_queue: nat, balance: Balance)
    ensures
        500 <= steal_probability(total_queue, balance) <= 5000,
{
}

/// A load moved three tenths of the way to a new value.
pub open spec fn blended_load(load: u64, current: u64) -> u64 {
    ((current * 3 + load * 7) / 10) as u64
}

fn blend_load(load: u64, current: u64) -> (r: u64)
    ensures
        r == blended_load(load, current),
        10 * r <= 3 * current + 7 * load < 10 * (r + 1),
{
    ((current as u128 * 3 + load as u128 * 7) / 10) as u64
}

fn capped(n: u128) -> (r: u64)
    ensures
        r == smaller(n as int, u64::MAX as int),
{
    if n > u64::MAX as u128 {
        u64::MAX
    } else {
        n as u64
    }
}

/// `rand::random`: a number drawn at random, about which nothing is stated.
#[verifier::external_body]
fn random_index() -> (n: usize) {
    rand::random::<usize>()
}

/// Chooses workers by their load.
#[derive(Debug)]
pub struct LoadBalancer {
    pub worker_loads: Vec<u64>,
    pub predicted_loads: Vec<u64>,
}

fn zeros(n: usize) -> (v: Vec<u64>)
    ensures
        v@ == Seq::new(n as nat, |i: int| 0u64),
{
    let mut v: Vec<u64> = Vec::new();
    let mut i: usize = 0;
    while i < n
        invariant
            i <= n,
            v@ == Seq::new(i as nat, |k: int| 0u64),
        decreases n - i,
    {
        v.push(0);
        proof {
            assert(v@ =~= Seq::new((i + 1) as nat, |k: int| 0u64));
        }
        i += 1;
    }
    v
}

/// Two workers, the less loaded first; the second where they are equally
/// loaded.
pub open spec fn lighter_first(loads: Seq<u64>, a: usize, b: usize) -> (usize, usize) {
    if loads[a as int] < loads[b as int] {
        (a, b)
    } else {
        (b, a)
    }
}

/// The two workers that two numbers stand for, counted round over all workers,
/// the less loaded first.
pub open spec fn drawn_pair(loads: Seq<u64>, a: usize, b: usize) -> (usize, usize) {
    lighter_first(
        loads,
        (a as int % loads.len() as int) as usize,
        (b as int % loads.len() as int) as usize,
    )
}

impl LoadBalancer {
    /// No load anywhere.
    pub fn new(num_workers: usize) -> (l: Self)
        ensures
            l.worker_loads@ == Seq::new(num_workers as nat, |i: int| 0u64),
            l.predicted_loads@ == Seq::new(num_workers as nat, |i: int| 0u64),
    {
        LoadBalancer { worker_loads: zeros(num_workers), predicted_loads: zeros(num_workers) }
    }

    /// Two workers drawn at random, the less loaded first. Which two they are is
    /// up to chance.
    pub fn select_worker_power_of_two(&self) -> (pair: (usize, usize))
        requires
            self.worker_loads@.len() > 0,
        ensures
            exists|a: usize, b: usize| pair == #[trigger] drawn_pair(self.worker_loads@, a, b),
            pair.0 < self.worker_loads@.len(),
            pair.1 < self.worker_loads@.len(),
            self.worker_loads@[pair.0 as int] <= self.worker_loads@[pair.1 as int],
    {
        let first: usize = random_index();
        let second: usize = random_index();
        self.select_drawn(first, second)
    }

    /// The two workers that two numbers stand for, the less loaded first.
    pub fn select_drawn(&self, first: usize, second: usize) -> (pair: (usize, usize))
        requires
            self.worker_loads@.len() > 0,
        ensures
            pair == drawn_pair(self.worker_loads@, first, second),
            pair.0 < self.worker_loads@.len(),
            pair.1 < self.worker_loads@.len(),
            self.worker_loads@[pair.0 as int] <= self.worker_loads@[pair.1 as int],
    {
        let n: usize = self.worker_loads.len();
        self.lighter(first % n, second % n)
    }

    /// Of two workers, the less loaded first.
    pub fn lighter(&self, first: usize, second: usize) -> (pair: (usize, usize))
        requires
            first < self.worker_loads@.len(),
            second < self.worker_loads@.len(),
        ensures
            pair == lighter_first(self.worker_loads@, first, second),
            pair == (first, second) || pair == (second, first),
            self.worker_loads@[pair.0 as int] <= self.worker_loads@[pair.1 as int],
    {
        if self.worker_loads[first] < self.worker_loads[second] {
            (first, second)
        } else {
            (second, first)
        }
    }

    /// Moves the load of a worker towards a new value.
    pub fn update_ema(&mut self, worker_id: usize, current_load: u64)
        requires
            worker_id < old(self).worker_loads@.len(),
        ensures
            final(self).worker_loads@ == old(self).worker_loads@.update(
                worker_id as int,
                blended_load(old(self).worker_loads@[worker_id as int], current_load),
            ),
            final(self).predicted_loads == old(self).predicted_loads,
            ({
                let before = old(self).worker_loads@[worker_id as int];
                let after = final(self).worker_loads@[worker_id as int];
                10 * after <= 7 * before + 3 * current_load < 10 * after + 10
            }),
    {
        let load: u64 = blend_load(self.worker_loads[worker_id], current_load);
        self.worker_loads.set(worker_id, load);
    }
}

/// A task.
#[derive(Debug)]
pub struct WorkStealingTask {
    pub id: u64,
    pub session_id: Vec<u8>,
    pub data: Bytes,
    pub source_addr: u64,
    pub priority: Priority,
    pub created_at: u64,
    pub worker_id: Option<usize>,
    pub retry_count: u8,
    pub deadline: Option<u64>,
    pub size_bytes: usize,
    pub estimated_processing_time: u128,
}

impl WorkStealingTask {
    /// Whether the deadline is over.
    pub open spec fn expired(self, now: u64) -> bool {
        self.deadline matches Some(d) && now > d
    }

    /// Whether the deadline is over.
    pub fn is_expired(&self, now: u64) -> (r: bool)
        ensures
            r == self.expired(now),
            r <==> self.deadline is Some && now > self.deadline->0,
    {
        match self.deadline {
            Some(d) => now > d,
            None => false,
        }
    }

    /// Estimates the processing time: a microsecond for each byte, and 100
    /// more.
    pub fn estimate_processing_time(&mut self)
        ensures
            *final(self) == (WorkStealingTask {
                estimated_processing_time: estimate(bytes_content(old(self).data).len()),
                ..*old(self)
            }),
            bytes_content(old(self).data).len() <= u64::MAX
                ==> final(self).estimated_processing_time
                == 100_000 + 1000 * bytes_content(old(self).data).len(),
            final(self).data == old(self).data && final(self).id == old(self).id,
    {
        let n: usize = bytes_as_slice(&self.data).len();
        self.estimated_processing_time = n as u128 * 1000 + 100_000;
    }
}

/// The estimated processing time of `len` bytes.
pub open spec fn estimate(len: nat) -> u128 {
    (len * 1000 + 100_000) as u128
}

/// What came of a task.
#[derive(Debug)]
pub struct WorkStealingResult {
    pub task_id: u64,
    pub session_id: Vec<u8>,
    pub result: Result<Vec<u8>, String>,
    pub processing_time: u64,
    pub worker_id: usize,
    pub destination_addr: u64,
    pub completed_at: u64,
    pub was_stolen: bool,
}

/// What decrypting a packet led to.
#[derive(Debug)]
pub enum Decryption {
    /// There is no such session.
    NoSession,
    Failed(String),
    Decrypted { packet_type: u8, data: Vec<u8> },
}

/// The name of a worker's counter.
pub open spec fn worker_counter(worker_id: usize, what: Seq<char>) -> Seq<char> {
    "worker_"@ + decimal(worker_id as nat) + what
}

pub fn worker_counter_name(worker_id: usize, what: &str) -> (s: String)
    ensures
        s@ == worker_counter(worker_id, what@),
{
    String::from_str("worker_").concat(decimal_string(worker_id as u64).as_str()).concat(what)
}

/// The text of the result of a task without a session.
pub open spec fn no_session_text(session_id: Seq<u8>) -> Seq<char> {
    "Session not found: "@ + hex(session_id)
}

/// Whether `result` is what a task comes to. A task that is too late is not
/// looked at; data that was decrypted is preceded by the type of its packet.
pub open spec fn is_outcome(
    result: Result<Vec<u8>, String>,
    expired: bool,
    decryption: Decryption,
    session_id: Seq<u8>,
) -> bool {
    if expired {
        result matches Err(e) && e@ == "Task expired"@
    } else {
        match decryption {
            Decryption::NoSession => result matches Err(e) && e@ == no_session_text(session_id),
            Decryption::Failed(why) => result matches Err(e) && e@ == "Decryption failed: "@ + why@,
            Decryption::Decrypted { packet_type, data } => result matches Ok(d) && d@
                == seq![packet_type] + data@,
        }
    }
}

/// The counters after a task.
pub open spec fn counted_task(
    stats: Map<Seq<char>, u64>,
    worker_id: usize,
    expired: bool,
    decryption: Decryption,
    processing_ms: u64,
) -> Map<Seq<char>, u64> {
    if expired {
        counted(stats, "tasks_expired"@, 1)
    } else {
        match decryption {
            Decryption::NoSession => counted(
                counted(stats, "session_not_found"@, 1),
                worker_counter(worker_id, "_session_errors"@),
                1,
            ),
            Decryption::Failed(_) => counted(
                counted(stats, "failed_decryptions"@, 1),
                worker_counter(worker_id, "_errors"@),
                1,
            ),
            Decryption::Decrypted { packet_type, .. } => counted(
                counted(
                    counted(
                        counted(
                            counted(stats, "total_tasks_processed"@, 1),
                            worker_counter(worker_id, "_tasks"@),
                            1,
                        ),
                        "successful_decryptions"@,
                        1,
                    ),
                    "processing_time_ms_total"@,
                    processing_ms,
                ),
                "packet_type_"@ + decimal(packet_type as nat),
                1,
            ),
        }
    }
}

/// The state of one worker.
#[derive(Debug)]
pub struct DispatchWorker {
    pub worker_id: usize,
    pub tasks_processed: usize,
    pub successful_tasks: usize,
    pub failed_tasks: usize,
    pub stolen_tasks: usize,
    /// Processing times, rounded down to milliseconds.
    pub processing_times: VecDeque<u64>,
    pub batch_start_time: u64,
    pub batch_size: usize,
    pub last_steal_check: u64,
}

impl DispatchWorker {
    /// The counters can count on.
    pub open spec fn counters_fit(self) -> bool {
        &&& self.tasks_processed < usize::MAX
        &&& self.successful_tasks < usize::MAX
        &&& self.failed_tasks < usize::MAX
        &&& self.stolen_tasks < usize::MAX
    }

    /// Everything but the counters and times is as before.
    pub open spec fn same_schedule(self, before: Self) -> bool {
        &&& self.worker_id == before.worker_id
        &&& self.batch_size == before.batch_size
        &&& self.last_steal_check == before.last_steal_check
    }

    /// A worker that has done nothing.
    pub fn new(worker_id: usize, batch_size: usize, now: u64) -> (w: Self)
        ensures
            w.worker_id == worker_id,
            w.tasks_processed == 0,
            w.successful_tasks == 0,
            w.failed_tasks == 0,
            w.stolen_tasks == 0,
            w.processing_times@.len() == 0,
            w.batch_start_time == now,
            w.batch_size == batch_size,
            w.last_steal_check == now,
    {
        DispatchWorker {
            worker_id,
            tasks_processed: 0,
            successful_tasks: 0,
            failed_tasks: 0,
            stolen_tasks: 0,
            processing_times: VecDeque::new(),
            batch_start_time: now,
            batch_size,
            last_steal_check: now,
        }
    }

    /// The stolen task could not get a permit.
    pub fn stolen_task_refused(&mut self)
        requires
            old(self).counters_fit(),
        ensures
            *final(self) == (DispatchWorker {
                failed_tasks: (old(self).failed_tasks + 1) as usize,
                ..*old(self)
            }),
    {
        self.failed_tasks = self.failed_tasks + 1;
    }

    /// The own task could not get a permit: that counts as a failure. Whether
    /// the permit of a task of low priority is to be waited for, which is so
    /// for the first three attempts of a task.
    pub fn own_task_refused(
        &mut self,
        breaker: &mut CircuitBreaker,
        retry_count: u8,
        now: u64,
    ) -> (wait: bool)
        requires
            old(self).counters_fit(),
            old(breaker).wf(),
            old(breaker).core.counters_fit(),
        ensures
            *final(self) == (DispatchWorker {
                failed_tasks: (old(self).failed_tasks + 1) as usize,
                ..*old(self)
            }),
            final(breaker).wf(),
            final(breaker).records(*old(breaker), Some((old(breaker).core, now))),
            final(breaker).metrics@ == old(breaker).core.failure_noted(
                old(breaker).metrics@,
                old(breaker).name@,
                now,
            ),
            final(breaker).core == old(breaker).core.after_failure(now),
            wait == (retry_count < 3),
    {
        breaker.record_failure(now);
        self.failed_tasks = self.failed_tasks + 1;
        retry_count < 3
    }
}

/// What a worker reports after a batch of tasks.
#[derive(Debug, Clone, Copy)]
pub struct BatchReport {
    pub tasks: usize,
    pub elapsed: u64,
    pub success_rate: Ratio,
    /// The number of queues.
    pub queues: usize,
}

/// Where a task was sent.
#[derive(Debug, Clone, Copy, PartialEq, Eq, Structural)]
pub enum Placement {
    ToWorker,
    ToInjector,
    Nowhere,
}

/// A task on its way to a worker.
#[derive(Debug)]
pub struct Submission {
    pub task: WorkStealingTask,
    pub worker: usize,
}

/// A task as it is sent: numbered, with an estimate and a deadline.
pub open spec fn as_sent(task: WorkStealingTask, id: u64, now: u64) -> WorkStealingTask {
    WorkStealingTask {
        id,
        estimated_processing_time: estimate(bytes_content(task.data).len()),
        deadline: if task.deadline is None {
            Some((now + DEFAULT_DEADLINE) as u64)
        } else {
            task.deadline
        },
        ..task
    }
}

/// How many tasks are queued with the first `n` workers.
pub open spec fn queued(queues: Map<u64, u64>, n: nat) -> nat
    decreases n,
{
    if n == 0 {
        0
    } else {
        queued(queues, (n - 1) as nat) + queue_of(queues, (n - 1) as u64)
    }
}

/// How many tasks are queued with one worker.
pub open spec fn queue_of(queues: Map<u64, u64>, worker: u64) -> nat {
    if queues.contains_key(worker) {
        queues[worker] as nat
    } else {
        0
    }
}

proof fn queued_bounded(queues: Map<u64, u64>, n: nat)
    ensures
        queued(queues, n) <= n * 0xffff_ffff_ffff_ffff,
    decreases n,
{
    if n > 0 {
        queued_bounded(queues, (n - 1) as nat);
        assert((n - 1) * 0xffff_ffff_ffff_ffff + 0xffff_ffff_ffff_ffff == n
            * 0xffff_ffff_ffff_ffff) by (nonlinear_arith);
    }
}

/// The lengths of the queues of the first `n` workers.
pub open spec fn queue_lengths(queues: Map<u64, u64>, n: nat) -> Seq<u64>
    decreases n,
{
    if n == 0 {
        Seq::empty()
    } else {
        let rest = queue_lengths(queues, (n - 1) as nat);
        if queues.contains_key((n - 1) as u64) {
            rest.push(queues[(n - 1) as u64])
        } else {
            rest
        }
    }
}

/// How many of the first `n` workers have done a task.
pub open spec fn active_workers(stats: Map<Seq<char>, u64>, n: nat) -> nat
    decreases n,
{
    if n == 0 {
        0
    } else {
        active_workers(stats, (n - 1) as nat) + if count_of(
            stats,
            worker_counter((n - 1) as usize, "_tasks"@),
        ) > 0 {
            1nat
        } else {
            0
        }
    }
}

/// Statistics of the dispatcher. The steal probability is in ten-thousandths.
#[derive(Debug, Clone, Copy)]
pub struct DispatcherAdvancedStats {
    pub total_workers: usize,
    pub healthy_workers: usize,
    pub total_tasks_submitted: u64,
    pub total_tasks_processed: u64,
    pub successful_decryptions: u64,
    pub failed_decryptions: u64,
    pub work_steals: u64,
    pub avg_processing_time_ms: Ratio,
    pub p95_processing_time_ms: u64,
    pub p99_processing_time_ms: u64,
    pub current_batch_size: usize,
    pub circuit_state: CircuitState,
    pub imbalance: Measure,
    pub queue_backlog: u128,
    pub injector_backlog: usize,
    pub steal_probability: u64,
    pub timestamp: u64,
}

/// The dispatcher.
pub struct WorkStealingDispatcher {
    pub num_workers: usize,
    /// The length of each worker's queue.
    pub worker_queues: Numbers,
    pub worker_loads: Vec<u64>,
    pub injector_backlog: usize,
    pub results: NumberedStore<WorkStealingResult>,
    pub stealing_model: WorkStealingModel,
    pub load_balancer: LoadBalancer,
    pub stats: Counters,
    pub latency_histogram: Histogram,
    pub is_running: bool,
    pub next_task_id: u64,
    pub backpressure_threshold: usize,
}

impl WorkStealingDispatcher {
    /// What holds of every dispatcher.
    pub open spec fn wf(self) -> bool {
        &&& self.results.wf()
        &&& self.load_balancer.worker_loads@.len() == self.num_workers
        &&& forall|k: u64| #[trigger]
            self.worker_queues@.contains_key(k) ==> k < self.num_workers
    }

    /// Whether this is the dispatcher `before` once a task for a worker went
    /// where the placement says.
    pub open spec fn has_placed(self, before: Self, worker: usize, placement: Placement) -> bool {
        &&& self == (WorkStealingDispatcher {
            worker_queues: self.worker_queues,
            injector_backlog: self.injector_backlog,
            stats: self.stats,
            ..before
        })
        &&& match placement {
            Placement::ToWorker => {
                &&& self.injector_backlog == before.injector_backlog
                &&& self.stats@ == counted(before.stats@, "tasks_submitted"@, 1)
                &&& self.worker_queues@ == lengthened(
                    before.worker_queues@,
                    worker as u64,
                )
            },
            Placement::ToInjector => {
                &&& self.injector_backlog == add_one(before.injector_backlog)
                &&& self.stats@ == counted(
                    counted(before.stats@, "tasks_submitted"@, 1),
                    "injector_usage"@,
                    1,
                )
                &&& self.worker_queues == before.worker_queues
            },
            Placement::Nowhere => self == before,
        }
    }

    /// The tasks queued with workers.
    pub open spec fn backlog(self) -> nat {
        queued(self.worker_queues@, self.num_workers as nat)
    }

    /// Whether this is a dispatcher as it is made: it runs, its queues are
    /// empty, and nothing was done yet.
    pub open spec fn is_new(self, num_workers: usize, queue_capacity: usize) -> bool {
        &&& self.num_workers == num_workers
        &&& forall|k: u64| #[trigger]
            self.worker_queues@.contains_key(k) <==> k < num_workers
        &&& forall|k: u64|
            k < num_workers ==> #[trigger] self.worker_queues@[k] == 0
        &&& self.worker_loads@ == Seq::new(num_workers as nat, |i: int| 0u64)
        &&& self.injector_backlog == 0
        &&& self.results.map() == Map::<u64, WorkStealingResult>::empty()
        &&& self.stealing_model == (WorkStealingModel {
            m: num_workers,
            p_steal: 1000,
            imbalance: Measure { at_least: 0, at_most: 0 },
            cost_idle: 500,
            cost_steal: 200,
        })
        &&& self.load_balancer.worker_loads@ == Seq::new(num_workers as nat, |i: int| 0u64)
        &&& self.load_balancer.predicted_loads@ == Seq::new(num_workers as nat, |i: int| 0u64)
        &&& self.stats@ == Map::<Seq<char>, u64>::empty().insert(
            "workers_started"@,
            num_workers as u64,
        )
        &&& self.latency_histogram@ == Map::<u64, u64>::empty()
        &&& self.is_running
        &&& self.next_task_id == 1
        &&& self.backpressure_threshold == queue_capacity * 4 / 5
    }

    /// A running dispatcher with empty queues.
    pub fn new(num_workers: usize, queue_capacity: usize) -> (d: Self)
        requires
            queue_capacity * 4 <= usize::MAX,
            queue_capacity * num_workers <= usize::MAX / 8,
        ensures
            d.wf(),
            d.is_new(num_workers, queue_capacity),
            d.injector_backlog == 0 && d.is_running && d.num_workers == num_workers,
            5 * d.backpressure_threshold <= 4 * queue_capacity < 5 * (d.backpressure_threshold + 1),
    {
        let mut worker_queues: Numbers = Numbers::new();
        let mut i: usize = 0;
        while i < num_workers
            invariant
                i <= num_workers,
                forall|k: u64| #[trigger]
                    worker_queues@.contains_key(k) <==> k < i,
                forall|k: u64| k < i ==> #[trigger] worker_queues@[k] == 0,
            decreases num_workers - i,
        {
            worker_queues.set(i as u64, 0);
            i += 1;
        }
        let mut d: WorkStealingDispatcher = WorkStealingDispatcher {
            num_workers,
            worker_queues,
            worker_loads: zeros(num_workers),
            injector_backlog: 0,
            results: NumberedStore::new(),
            stealing_model: WorkStealingModel::new(num_workers),
            load_balancer: LoadBalancer::new(num_workers),
            stats: Counters::new(),
            latency_histogram: Histogram::new(),
            is_running: true,
            next_task_id: 1,
            backpressure_threshold: queue_capacity * 4 / 5,
        };
        d.start_workers();
        d
    }

    /// Takes note of the number of workers.
    pub fn start_workers(&mut self)
        requires
            old(self).wf(),
        ensures
            *final(self) == (WorkStealingDispatcher {
                stats: final(self).stats,
                ..*old(self)
            }),
            final(self).stats@ == old(self).stats@.insert(
                "workers_started"@,
                old(self).num_workers as u64,
            ),
    {
        self.stats.set("workers_started", self.num_workers as u64);
    }

    /// The length of a worker's queue.
    pub fn queue_len(&self, worker: usize) -> (n: u64)
        ensures
            n == queue_of(self.worker_queues@, worker as u64),
            self.worker_queues@.contains_key(worker as u64)
                ==> n == self.worker_queues@[worker as u64],
            !self.worker_queues@.contains_key(worker as u64) ==> n == 0,
    {
        match self.worker_queues.get(worker as u64) {
            Some(n) => n,
            None => 0,
        }
    }

    /// How many tasks are queued with workers.
    pub fn queue_backlog(&self) -> (n: u128)
        ensures
            n == self.backlog(),
    {
        let mut n: u128 = 0;
        let mut i: usize = 0;
        while i < self.num_workers
            invariant
                i <= self.num_workers,
                n == queued(self.worker_queues@, i as nat),
                n <= i * 0xffff_ffff_ffff_ffff,
            decreases self.num_workers - i,
        {
            proof {
                queued_bounded(self.worker_queues@, (i + 1) as nat);
                assert((i + 1) * 0xffff_ffff_ffff_ffff <= 0x1_0000_0000_0000_0000
                    * 0xffff_ffff_ffff_ffff) by (nonlinear_arith)
                    requires
                        i + 1 <= 0x1_0000_0000_0000_0000,
                ;
            }
            n = n + self.queue_len(i) as u128;
            i += 1;
        }
        n
    }

    /// Whether there are more tasks than four fifths of the queues can hold.
    pub open spec fn overloaded(self) -> bool {
        self.backlog() + self.injector_backlog > self.backpressure_threshold * self.num_workers
    }

    /// Takes on a task: nothing passes an open breaker, nor an overloaded
    /// dispatcher. A task that passes is numbered and sent to the less loaded
    /// of two workers drawn at random.
    pub fn submit_task(
        &mut self,
        breaker: &mut CircuitBreaker,
        task: WorkStealingTask,
        now: u64,
    ) -> (r: Result<Submission, BatchError>)
        requires
            old(self).wf(),
            old(self).num_workers > 0,
            old(breaker).wf(),
            old(breaker).core.counters_fit(),
            old(breaker).core.after_request(now).counters_fit(),
            now + DEFAULT_DEADLINE <= u64::MAX,
        ensures
            final(self).wf(),
            final(breaker).wf(),
            final(breaker).records(
                *old(breaker),
                if r is Err {
                    Some((old(breaker).core.after_request(now), now))
                } else {
                    None
                },
            ),
            final(breaker).metrics@ == ({
                let asked = old(breaker).core.request_noted(
                    old(breaker).metrics@,
                    old(breaker).name@,
                    now,
                );
                if r is Err {
                    old(breaker).core.after_request(now).failure_noted(
                        asked,
                        old(breaker).name@,
                        now,
                    )
                } else {
                    asked
                }
            }),
            exists|first: usize, second: usize| #[trigger]
                is_submission(
                    *old(self),
                    old(breaker).core,
                    task,
                    first,
                    second,
                    now,
                    r,
                    *final(self),
                    final(breaker).core,
                ),
    {
        let (first, second) = self.draw_workers();
        self.submit_between(breaker, task, first, second, now)
    }

    /// Two workers drawn at random.
    pub fn draw_workers(&self) -> (pair: (usize, usize))
        requires
            self.num_workers > 0,
        ensures
            pair.0 < self.num_workers,
            pair.1 < self.num_workers,
    {
        (random_index() % self.num_workers, random_index() % self.num_workers)
    }

    /// Takes on a task for one of two workers.
    pub fn submit_between(
        &mut self,
        breaker: &mut CircuitBreaker,
        task: WorkStealingTask,
        first: usize,
        second: usize,
        now: u64,
    ) -> (r: Result<Submission, BatchError>)
        requires
            old(self).wf(),
            first < old(self).num_workers,
            second < old(self).num_workers,
            old(breaker).wf(),
            old(breaker).core.counters_fit(),
            old(breaker).core.after_request(now).counters_fit(),
            now + DEFAULT_DEADLINE <= u64::MAX,
        ensures
            final(self).wf(),
            final(breaker).wf(),
            final(breaker).records(
                *old(breaker),
                if r is Err {
                    Some((old(breaker).core.after_request(now), now))
                } else {
                    None
                },
            ),
            final(breaker).metrics@ == ({
                let asked = old(breaker).core.request_noted(
                    old(breaker).metrics@,
                    old(breaker).name@,
                    now,
                );
                if r is Err {
                    old(breaker).core.after_request(now).failure_noted(
                        asked,
                        old(breaker).name@,
                        now,
                    )
                } else {
                    asked
                }
            }),
            is_submission(
                *old(self),
                old(breaker).core,
                task,
                first,
                second,
                now,
                r,
                *final(self),
                final(breaker).core,
            ),
    {
        if !breaker.allow_request(now) {
            breaker.record_failure(now);
            return Err(BatchError::ProcessingError(String::from_str("Circuit breaker is open")));
        }
        let id: u64 = self.next_task_id;
        self.next_task_id = self.next_task_id.wrapping_add(1);
        let mut task: WorkStealingTask = task;
        task.id = id;
        task.estimate_processing_time();
        if task.deadline.is_none() {
            task.deadline = Some(now + DEFAULT_DEADLINE);
        }
        let queued: u128 = self.queue_backlog();
        proof {
            let n = self.num_workers as nat;
            queued_bounded(self.worker_queues@, n);
            assert(n * 0xffff_ffff_ffff_ffff <= 0xffff_ffff_ffff_ffff * 0xffff_ffff_ffff_ffff)
                by (nonlinear_arith)
                requires
                    n <= 0xffff_ffff_ffff_ffff,
            ;
            let t = self.backpressure_threshold as int;
            let m = self.num_workers as int;
            assert(0 <= t * m <= 0xffff_ffff_ffff_ffff * 0xffff_ffff_ffff_ffff) by (nonlinear_arith)
                requires
                    0 <= t <= 0xffff_ffff_ffff_ffff,
                    0 <= m <= 0xffff_ffff_ffff_ffff,
            ;
        }
        if queued + self.injector_backlog as u128 > self.backpressure_threshold as u128
            * self.num_workers as u128 {
            breaker.record_failure(now);
            return Err(BatchError::Backpressure);
        }
        let (worker, _other) = self.load_balancer.lighter(first, second);
        Ok(Submission { task, worker })
    }

    /// Ends a submission: where the task was sent is counted, and the breaker
    /// learns of it.
    pub fn finish_submission(
        &mut self,
        breaker: &mut CircuitBreaker,
        id: u64,
        worker: usize,
        placement: Placement,
        now: u64,
    ) -> (r: Result<u64, BatchError>)
        requires
            old(self).wf(),
            worker < old(self).num_workers,
            old(breaker).wf(),
            old(breaker).core.counters_fit(),
        ensures
            final(self).wf(),
            final(breaker).wf(),
            final(breaker).records(
                *old(breaker),
                if placement == Placement::Nowhere {
                    Some((old(breaker).core, now))
                } else {
                    None
                },
            ),
            final(breaker).metrics@ == if placement == Placement::Nowhere {
                old(breaker).core.failure_noted(old(breaker).metrics@, old(breaker).name@, now)
            } else {
                old(breaker).core.success_noted(old(breaker).metrics@, old(breaker).name@)
            },
            final(breaker).core == if placement == Placement::Nowhere {
                old(breaker).core.after_failure(now)
            } else {
                old(breaker).core.after_success(now)
            },
            r == if placement == Placement::Nowhere {
                Err::<u64, BatchError>(BatchError::Backpressure)
            } else {
                Ok(id)
            },
            final(self).has_placed(*old(self), worker, placement),
    {
        match placement {
            Placement::ToWorker => {
                if let Some(n) = self.worker_queues.get(worker as u64) {
                    self.worker_queues.set(worker as u64, n.saturating_add(1));
                }
                self.stats.add("tasks_submitted", 1);
                breaker.record_success(now);
                Ok(id)
            },
            Placement::ToInjector => {
                self.injector_backlog = self.injector_backlog.wrapping_add(1);
                self.stats.add("tasks_submitted", 1);
                self.stats.add("injector_usage", 1);
                breaker.record_success(now);
                Ok(id)
            },
            Placement::Nowhere => {
                breaker.record_failure(now);
                Err(BatchError::Backpressure)
            },
        }
    }
}

/// One more, wrapping around at the end of the range.
pub open spec fn add_one(n: usize) -> usize {
    if n == usize::MAX {
        0
    } else {
        (n + 1) as usize
    }
}

/// The queues with one more task for a worker, as far as it can be counted.
pub open spec fn lengthened(queues: Map<u64, u64>, worker: u64) -> Map<u64, u64> {
    if queues.contains_key(worker) {
        queues.insert(worker, smaller(queues[worker] + 1, u64::MAX as int) as u64)
    } else {
        queues
    }
}

/// The queues with one task less for a worker.
pub open spec fn shortened(queues: Map<u64, u64>, worker: u64) -> Map<u64, u64> {
    if queues.contains_key(worker) {
        queues.insert(worker, minus(queues[worker] as int, 1) as u64)
    } else {
        queues
    }
}

/// Whether `r` is what becomes of a task that is to go to one of two workers,
/// and `after` and `core_after` what becomes of dispatcher and breaker.
pub open spec fn is_submission(
    before: WorkStealingDispatcher,
    core: BreakerCore,
    task: WorkStealingTask,
    first: usize,
    second: usize,
    now: u64,
    r: Result<Submission, BatchError>,
    after: WorkStealingDispatcher,
    core_after: BreakerCore,
) -> bool {
    if !core.admits(now) {
        &&& r matches Err(BatchError::ProcessingError(s)) && s@ == "Circuit breaker is open"@
        &&& after == before
        &&& core_after == core.after_request(now).after_failure(now)
    } else {
        &&& after == (WorkStealingDispatcher {
            next_task_id: ((before.next_task_id + 1) % 0x1_0000_0000_0000_0000) as u64,
            ..before
        })
        &&& if before.overloaded() {
            &&& r == Err::<Submission, BatchError>(BatchError::Backpressure)
            &&& core_after == core.after_request(now).after_failure(now)
        } else {
            &&& r matches Ok(s) && s.task == as_sent(task, before.next_task_id, now) && s.worker
                == lighter_first(before.load_balancer.worker_loads@, first, second).0
            &&& first < before.num_workers
            &&& second < before.num_workers
            &&& core_after == core.after_request(now)
        }
    }
}

/// Steals a second at a hundred checks a second, in hundredths: each check
/// steals with the base probability, and finds another worker's task.
pub open spec fn steal_rate(total_queue: nat, workers: nat) -> u64 {
    (base_steal_probability(total_queue) * (workers - 1) / (workers as int)) as u64
}

/// A load of so many nanoseconds in hundredths of a millisecond.
pub open spec fn load_figure(load: nat) -> u64 {
    smaller(load as int / 10_000, u64::MAX as int) as u64
}

/// The statistics that `update_balancer` notes.
pub open spec fn loads_noted(
    stats: Map<Seq<char>, u64>,
    loads: Seq<u64>,
    throughput: u64,
    imbalance: u64,
) -> Map<Seq<char>, u64> {
    let all = stats.insert("load_balancer_total_load"@, load_figure(total(loads))).insert(
        "load_balancer_total_throughput"@,
        throughput,
    );
    if loads.len() == 0 {
        all
    } else {
        all.insert("load_balancer_avg_load"@, load_figure(mean(loads))).insert(
            "load_balancer_imbalance"@,
            imbalance,
        )
    }
}

/// Whether a result is older than results are kept.
pub open spec fn stale(r: WorkStealingResult, now: u64) -> bool {
    now - r.completed_at > RESULT_LIFETIME
}

/// The stale results among the given ones.
pub open spec fn stale_ids(results: Map<u64, WorkStealingResult>, now: u64) -> Set<u64> {
    results.dom().filter(|id: u64| stale(results[id], now))
}

/// A processing time, rounded down to milliseconds.
pub open spec fn whole_millis(t: u64) -> u64 {
    (t / 1_000_000 * 1_000_000) as u64
}

impl WorkStealingDispatcher {
    /// A worker starts a round: it asks for the batch size anew from time to
    /// time, and from time to time considers stealing.
    pub fn worker_round(
        &self,
        worker: &mut DispatchWorker,
        batch_size: usize,
        now: u64,
    ) -> (steal: bool)
        ensures
            ({
                let refresh = now - old(worker).batch_start_time > BATCH_SIZE_INTERVAL;
                let due = now - old(worker).last_steal_check > STEAL_INTERVAL;
                let queue = queue_of(
                    self.worker_queues@,
                    old(worker).worker_id as u64,
                );
                &&& steal == (due && worth_stealing(
                    smaller(queue as int, usize::MAX as int) as nat,
                    self.stealing_model.cost_steal as nat,
                ))
                &&& *final(worker) == (DispatchWorker {
                    batch_size: if refresh {
                        batch_size
                    } else {
                        old(worker).batch_size
                    },
                    batch_start_time: if refresh {
                        now
                    } else {
                        old(worker).batch_start_time
                    },
                    last_steal_check: if due {
                        now
                    } else {
                        old(worker).last_steal_check
                    },
                    ..*old(worker)
                })
            }),
            now <= old(worker).last_steal_check + 10_000_000 ==> !steal,
            steal ==> final(worker).last_steal_check == now && queue_of(
                self.worker_queues@,
                old(worker).worker_id as u64,
            ) > 0,
            final(worker).tasks_processed == old(worker).tasks_processed,
    {
        if now.saturating_sub(worker.batch_start_time) > BATCH_SIZE_INTERVAL {
            worker.batch_size = batch_size;
            worker.batch_start_time = now;
        }
        if now.saturating_sub(worker.last_steal_check) > STEAL_INTERVAL {
            worker.last_steal_check = now;
            let n: u64 = self.queue_len(worker.worker_id);
            let len: usize = if n > usize::MAX as u64 {
                usize::MAX
            } else {
                n as usize
            };
            self.stealing_model.optimal_steal_policy(len, self.stealing_model.cost_steal)
        } else {
            false
        }
    }

    /// A worker takes a task from its own queue.
    pub fn take_own_task(&mut self, worker_id: usize)
        requires
            old(self).wf(),
        ensures
            final(self).wf(),
            *final(self) == (WorkStealingDispatcher {
                worker_queues: final(self).worker_queues,
                ..*old(self)
            }),
            final(self).worker_queues@ == shortened(
                old(self).worker_queues@,
                worker_id as u64,
            ),
    {
        if let Some(n) = self.worker_queues.get(worker_id as u64) {
            self.worker_queues.set(worker_id as u64, n.saturating_sub(1));
        }
    }

    /// A worker steals a task.
    pub fn take_stolen_task(&mut self, worker: &mut DispatchWorker)
        requires
            old(self).wf(),
            old(worker).counters_fit(),
        ensures
            final(self).wf(),
            *final(self) == (WorkStealingDispatcher {
                stats: final(self).stats,
                ..*old(self)
            }),
            final(self).stats@ == counted(old(self).stats@, "work_steals"@, 1),
            *final(worker) == (DispatchWorker {
                stolen_tasks: (old(worker).stolen_tasks + 1) as usize,
                ..*old(worker)
            }),
    {
        self.stats.add("work_steals", 1);
        worker.stolen_tasks = worker.stolen_tasks + 1;
    }

    /// Concludes a task: its result is kept under its number, and counted.
    pub fn process_task(
        &mut self,
        worker_id: usize,
        task: WorkStealingTask,
        decryption: Decryption,
        started: u64,
        processing_time: u64,
        now: u64,
        was_stolen: bool,
    ) -> (ok: bool)
        requires
            old(self).wf(),
        ensures
            final(self).wf(),
            *final(self) == (WorkStealingDispatcher {
                results: final(self).results,
                stats: final(self).stats,
                latency_histogram: final(self).latency_histogram,
                ..*old(self)
            }),
            ok == (!task.expired(started) && decryption is Decrypted),
            final(self).stats@ == counted_task(
                old(self).stats@,
                worker_id,
                task.expired(started),
                decryption,
                processing_time / 1_000_000,
            ),
            final(self).latency_histogram@ == if ok {
                seen_once_more(old(self).latency_histogram@, processing_time / 1_000_000)
            } else {
                old(self).latency_histogram@
            },
            final(self).results.map().contains_key(task.id),
            final(self).results.map() == old(self).results.map().insert(
                task.id,
                final(self).results.map()[task.id],
            ),
            ({
                let r = final(self).results.map()[task.id];
                &&& is_outcome(r.result, task.expired(started), decryption, task.session_id@)
                &&& r.task_id == task.id
                &&& r.session_id == task.session_id
                &&& r.processing_time == processing_time
                &&& r.worker_id == worker_id
                &&& r.destination_addr == task.source_addr
                &&& r.completed_at == now
                &&& r.was_stolen == was_stolen
            }),
    {
        let mut ok: bool = false;
        let result: Result<Vec<u8>, String>;
        if task.is_expired(started) {
            self.stats.add("tasks_expired", 1);
            result = Err(String::from_str("Task expired"));
        } else {
            match decryption {
                Decryption::NoSession => {
                    let text: String = String::from_str("Session not found: ").concat(
                        hex_string(task.session_id.as_slice()).as_str(),
                    );
                    result = Err(text);
                    self.stats.add("session_not_found", 1);
                    let name: String = worker_counter_name(worker_id, "_session_errors");
                    self.stats.add(name.as_str(), 1);
                },
                Decryption::Failed(why) => {
                    let text: String = String::from_str("Decryption failed: ").concat(why.as_str());
                    result = Err(text);
                    self.stats.add("failed_decryptions", 1);
                    let name: String = worker_counter_name(worker_id, "_errors");
                    self.stats.add(name.as_str(), 1);
                },
                Decryption::Decrypted { packet_type, data } => {
                    let mut out: Vec<u8> = Vec::new();
                    out.push(packet_type);
                    out.extend_from_slice(data.as_slice());
                    proof {
                        assert(out@ =~= seq![packet_type] + data@);
                    }
                    result = Ok(out);
                    ok = true;
                    self.stats.add("total_tasks_processed", 1);
                    let tasks: String = worker_counter_name(worker_id, "_tasks");
                    self.stats.add(tasks.as_str(), 1);
                    self.stats.add("successful_decryptions", 1);
                    self.stats.add("processing_time_ms_total", processing_time / 1_000_000);
                    let name: String = String::from_str("packet_type_").concat(
                        decimal_string(packet_type as u64).as_str(),
                    );
                    self.stats.add(name.as_str(), 1);
                    self.latency_histogram.note(processing_time / 1_000_000);
                },
            }
        }
        let id: u64 = task.id;
        self.results.insert(
            id,
            WorkStealingResult {
                task_id: id,
                session_id: task.session_id,
                result,
                processing_time,
                worker_id,
                destination_addr: task.source_addr,
                completed_at: now,
                was_stolen,
            },
        );
        ok
    }

    /// A worker has done a task of its own queue. Once it has done as many as
    /// a batch holds, its load is brought up to date and it reports the batch.
    pub fn own_task_done(
        &mut self,
        breaker: &mut CircuitBreaker,
        worker: &mut DispatchWorker,
        ok: bool,
        processing_time: u64,
        now: u64,
    ) -> (report: Option<BatchReport>)
        requires
            old(self).wf(),
            old(worker).counters_fit(),
            old(breaker).wf(),
            old(breaker).core.counters_fit(),
        ensures
            final(self).wf(),
            final(breaker).wf(),
            final(breaker).records(
                *old(breaker),
                if ok {
                    None
                } else {
                    Some((old(breaker).core, now))
                },
            ),
            final(breaker).metrics@ == if ok {
                old(breaker).core.success_noted(old(breaker).metrics@, old(breaker).name@)
            } else {
                old(breaker).core.failure_noted(old(breaker).metrics@, old(breaker).name@, now)
            },
            final(breaker).core == if ok {
                old(breaker).core.after_success(now)
            } else {
                old(breaker).core.after_failure(now)
            },
            *final(self) == (WorkStealingDispatcher {
                worker_loads: final(self).worker_loads,
                stats: final(self).stats,
                ..*old(self)
            }),
            final(worker).same_schedule(*old(worker)),
            final(worker).processing_times@ == remembered(
                old(worker).processing_times@,
                whole_millis(processing_time),
                WORKER_TIMES as nat,
            ),
            ({
                let tasks = old(worker).tasks_processed + 1;
                let successes = old(worker).successful_tasks + if ok {
                    1int
                } else {
                    0
                };
                let failures = old(worker).failed_tasks + if ok {
                    0int
                } else {
                    1
                };
                let id = old(worker).worker_id;
                if tasks >= old(worker).batch_size {
                    &&& report matches Some(b) && b.tasks == tasks && b.elapsed == minus(
                        now as int,
                        old(worker).batch_start_time as int,
                    ) && b.success_rate == (Ratio {
                        part: successes as u64,
                        whole: tasks as u64,
                    }) && b.queues == old(self).num_workers
                    &&& final(worker).tasks_processed == 0
                    &&& final(worker).successful_tasks == 0
                    &&& final(worker).failed_tasks == 0
                    &&& final(worker).stolen_tasks == 0
                    &&& final(worker).batch_start_time == now
                    &&& final(self).worker_loads@ == if id < old(self).worker_loads@.len() {
                        old(self).worker_loads@.update(
                            id as int,
                            blended_load(
                                old(self).worker_loads@[id as int],
                                mean(final(worker).processing_times@) as u64,
                            ),
                        )
                    } else {
                        old(self).worker_loads@
                    }
                    &&& final(self).stats@ == counted(
                        counted(old(self).stats@, worker_counter(id, "_batches"@), 1),
                        worker_counter(id, "_stolen"@),
                        old(worker).stolen_tasks as u64,
                    )
                } else {
                    &&& report is None
                    &&& final(worker).tasks_processed == tasks
                    &&& final(worker).successful_tasks == successes
                    &&& final(worker).failed_tasks == failures
                    &&& final(worker).stolen_tasks == old(worker).stolen_tasks
                    &&& final(worker).batch_start_time == old(worker).batch_start_time
                    &&& final(self).worker_loads == old(self).worker_loads
                    &&& final(self).stats == old(self).stats
                }
            }),
    {
        worker.tasks_processed = worker.tasks_processed + 1;
        remember(
            &mut worker.processing_times,
            processing_time / 1_000_000 * 1_000_000,
            WORKER_TIMES,
        );
        if ok {
            worker.successful_tasks = worker.successful_tasks + 1;
            breaker.record_success(now);
        } else {
            worker.failed_tasks = worker.failed_tasks + 1;
            breaker.record_failure(now);
        }
        if worker.tasks_processed < worker.batch_size {
            return None;
        }
        let id: usize = worker.worker_id;
        let report: BatchReport = BatchReport {
            tasks: worker.tasks_processed,
            elapsed: now.saturating_sub(worker.batch_start_time),
            success_rate: Ratio::new(worker.successful_tasks as u64, worker.tasks_processed as u64),
            queues: self.num_workers,
        };
        if id < self.worker_loads.len() {
            let load: u64 = mean_u64(&to_list(&worker.processing_times));
            let blended: u64 = blend_load(self.worker_loads[id], load);
            self.worker_loads.set(id, blended);
        }
        let batches: String = worker_counter_name(id, "_batches");
        self.stats.add(batches.as_str(), 1);
        let stolen: String = worker_counter_name(id, "_stolen");
        self.stats.add(stolen.as_str(), worker.stolen_tasks as u64);
        worker.tasks_processed = 0;
        worker.successful_tasks = 0;
        worker.failed_tasks = 0;
        worker.stolen_tasks = 0;
        worker.batch_start_time = now;
        Some(report)
    }

    /// A worker has done a task that it stole.
    pub fn stolen_task_done(
        &self,
        breaker: &mut CircuitBreaker,
        worker: &mut DispatchWorker,
        ok: bool,
        processing_time: u64,
        now: u64,
    )
        requires
            old(worker).counters_fit(),
            old(breaker).wf(),
            old(breaker).core.counters_fit(),
        ensures
            final(breaker).wf(),
            final(breaker).records(
                *old(breaker),
                if ok {
                    None
                } else {
                    Some((old(breaker).core, now))
                },
            ),
            final(breaker).metrics@ == if ok {
                old(breaker).core.success_noted(old(breaker).metrics@, old(breaker).name@)
            } else {
                old(breaker).core.failure_noted(old(breaker).metrics@, old(breaker).name@, now)
            },
            final(breaker).core == if ok {
                old(breaker).core.after_success(now)
            } else {
                old(breaker).core.after_failure(now)
            },
            final(worker).same_schedule(*old(worker)),
            final(worker).batch_start_time == old(worker).batch_start_time,
            final(worker).processing_times@ == old(worker).processing_times@.push(
                whole_millis(processing_time),
            ),
            final(worker).stolen_tasks == old(worker).stolen_tasks,
            final(worker).tasks_processed == old(worker).tasks_processed + 1,
            final(worker).successful_tasks == old(worker).successful_tasks + if ok {
                1int
            } else {
                0
            },
            final(worker).failed_tasks == old(worker).failed_tasks + if ok {
                0int
            } else {
                1
            },
    {
        worker.tasks_processed = worker.tasks_processed + 1;
        worker.processing_times.push_back(processing_time / 1_000_000 * 1_000_000);
        if ok {
            worker.successful_tasks = worker.successful_tasks + 1;
            breaker.record_success(now);
        } else {
            worker.failed_tasks = worker.failed_tasks + 1;
            breaker.record_failure(now);
        }
    }

    /// A worker has stopped: what it had not reported is noted.
    pub fn worker_stopped(&mut self, worker: &DispatchWorker)
        requires
            old(self).wf(),
        ensures
            final(self).wf(),
            *final(self) == (WorkStealingDispatcher {
                stats: final(self).stats,
                ..*old(self)
            }),
            final(self).stats@ == old(self).stats@.insert(
                worker_counter(worker.worker_id, "_final_tasks"@),
                worker.tasks_processed as u64,
            ).insert(
                worker_counter(worker.worker_id, "_final_success"@),
                worker.successful_tasks as u64,
            ).insert(
                worker_counter(worker.worker_id, "_final_failed"@),
                worker.failed_tasks as u64,
            ).insert(
                worker_counter(worker.worker_id, "_final_stolen"@),
                worker.stolen_tasks as u64,
            ),
    {
        let id: usize = worker.worker_id;
        self.stats.set(
            worker_counter_name(id, "_final_tasks").as_str(),
            worker.tasks_processed as u64,
        );
        self.stats.set(
            worker_counter_name(id, "_final_success").as_str(),
            worker.successful_tasks as u64,
        );
        self.stats.set(
            worker_counter_name(id, "_final_failed").as_str(),
            worker.failed_tasks as u64,
        );
        self.stats.set(
            worker_counter_name(id, "_final_stolen").as_str(),
            worker.stolen_tasks as u64,
        );
    }

    /// Adapts the steal probability to the queues and their coefficient of
    /// variation, and notes both together with the rate of steals for a hundred
    /// checks a second, in hundredths.
    pub fn optimize_stealing(&mut self) -> (imbalance: Measure)
        requires
            old(self).wf(),
            old(self).num_workers > 0,
            is_computable(
                queue_lengths(
                    old(self).worker_queues@,
                    old(self).num_workers as nat,
                ),
            ),
        ensures
            final(self).wf(),
            imbalance.wf(),
            is_imbalance(
                queue_lengths(
                    old(self).worker_queues@,
                    old(self).num_workers as nat,
                ),
                1,
                imbalance,
            ),
            *final(self) == (WorkStealingDispatcher {
                stealing_model: final(self).stealing_model,
                stats: final(self).stats,
                ..*old(self)
            }),
            final(self).stealing_model == (WorkStealingModel {
                m: old(self).num_workers,
                p_steal: steal_probability(
                    old(self).backlog(),
                    balance_for(imbalance),
                ) as u64,
                imbalance,
                ..old(self).stealing_model
            }),
            final(self).stats@ == old(self).stats@.insert(
                "steal_probability"@,
                (steal_probability(
                    old(self).backlog(),
                    balance_for(imbalance),
                ) / 10) as u64,
            ).insert(
                "steal_lambda"@,
                steal_rate(old(self).backlog(), old(self).num_workers as nat),
            ).insert("steal_imbalance"@, imbalance.at_least),
            ({
                let waiting = old(self).backlog() as int;
                let base = 1000 + if waiting < 3000 {
                    waiting
                } else {
                    3000
                };
                let p = final(self).stealing_model.p_steal;
                &&& imbalance.at_most > 500 && base <= 4500 ==> p == base + 500
                &&& imbalance.at_least < 200 ==> p == base - 100
                &&& imbalance.at_most <= 500 && imbalance.at_least >= 200 ==> p == base
                &&& final(self).stealing_model.imbalance == imbalance
            }),
    {
        let backlog: u128 = self.queue_backlog();
        let total: u64 = capped(backlog);
        let imbalance: Measure = imbalance_of(&self.queue_list(), 1);
        self.stealing_model.adapt(self.num_workers, total, imbalance);
        let base: u64 = if total < 3000 {
            1000 + total
        } else {
            4000
        };
        proof {
            let b = base as int;
            let n = self.num_workers as int;
            assert(0 <= b * (n - 1) <= 4000 * 0x1_0000_0000_0000_0000) by (nonlinear_arith)
                requires
                    0 <= b <= 4000,
                    0 < n <= 0x1_0000_0000_0000_0000,
            ;
            assert(b * (n - 1) / n <= b) by (nonlinear_arith)
                requires
                    0 <= b,
                    0 < n,
            ;
        }
        let rate: u128 = base as u128 * (self.num_workers as u128 - 1) / self.num_workers as u128;
        self.stats.set("steal_probability", self.stealing_model.p_steal / 10);
        self.stats.set("steal_lambda", rate as u64);
        self.stats.set("steal_imbalance", imbalance.at_least);
        imbalance
    }

    /// The lengths of the workers' queues.
    fn queue_list(&self) -> (v: Vec<u64>)
        ensures
            v@ == queue_lengths(self.worker_queues@, self.num_workers as nat),
    {
        let mut v: Vec<u64> = Vec::new();
        let mut i: usize = 0;
        while i < self.num_workers
            invariant
                i <= self.num_workers,
                v@ == queue_lengths(self.worker_queues@, i as nat),
            decreases self.num_workers - i,
        {
            if let Some(n) = self.worker_queues.get(i as u64) {
                v.push(n);
            }
            i += 1;
        }
        v
    }

    /// Whether the queues are few and short enough for their coefficient of
    /// variation to be computed.
    pub fn can_measure_queues(&self) -> (r: bool)
        ensures
            r == is_small(
                queue_lengths(self.worker_queues@, self.num_workers as nat),
            ),
            r ==> is_computable(
                queue_lengths(self.worker_queues@, self.num_workers as nat),
            ),
    {
        are_small(&self.queue_list())
    }

    /// The coefficient of variation of the queues.
    pub fn queue_imbalance(&self) -> (imbalance: Measure)
        requires
            is_computable(
                queue_lengths(self.worker_queues@, self.num_workers as nat),
            ),
        ensures
            imbalance.wf(),
            is_imbalance(
                queue_lengths(self.worker_queues@, self.num_workers as nat),
                1,
                imbalance,
            ),
    {
        imbalance_of(&self.queue_list(), 1)
    }

    /// Moves the loads that workers are chosen by towards the loads that the
    /// workers report, and notes the loads and their coefficient of variation
    /// together with the given throughput, in hundredths.
    pub fn update_balancer(&mut self, throughput: u64) -> (imbalance: Measure)
        requires
            old(self).wf(),
            is_computable(old(self).worker_loads@),
        ensures
            final(self).wf(),
            *final(self) == (WorkStealingDispatcher {
                load_balancer: final(self).load_balancer,
                stats: final(self).stats,
                ..*old(self)
            }),
            final(self).stats@ == loads_noted(
                old(self).stats@,
                old(self).worker_loads@,
                throughput,
                imbalance.at_least,
            ),
            imbalance.wf(),
            is_imbalance(old(self).worker_loads@, MILLISECOND, imbalance),
            final(self).load_balancer.predicted_loads == old(self).load_balancer.predicted_loads,
            forall|i: int|
                0 <= i < old(self).num_workers ==> #[trigger] final(
                    self).load_balancer.worker_loads@[i] == if i < old(self).worker_loads@.len() {
                    blended_load(
                        old(self).load_balancer.worker_loads@[i],
                        old(self).worker_loads@[i],
                    )
                } else {
                    old(self).load_balancer.worker_loads@[i]
                },
    {
        let mut i: usize = 0;
        while i < self.num_workers && i < self.worker_loads.len()
            invariant
                i <= self.num_workers,
                i <= self.worker_loads@.len(),
                self.wf(),
                *self == (WorkStealingDispatcher {
                    load_balancer: self.load_balancer,
                    ..*old(self)
                }),
                self.load_balancer.predicted_loads == old(self).load_balancer.predicted_loads,
                old(self).load_balancer.worker_loads@.len() == self.num_workers,
                forall|k: int|
                    0 <= k < i ==> #[trigger] self.load_balancer.worker_loads@[k] == blended_load(
                        old(self).load_balancer.worker_loads@[k],
                        old(self).worker_loads@[k],
                    ),
                forall|k: int|
                    i <= k < self.num_workers ==> #[trigger] self.load_balancer.worker_loads@[k]
                        == old(self).load_balancer.worker_loads@[k],
            decreases self.num_workers - i,
        {
            self.load_balancer.update_ema(i, self.worker_loads[i]);
            i += 1;
        }
        let imbalance: Measure = imbalance_of(&self.worker_loads, MILLISECOND);
        let total: u128 = sum_u64(&self.worker_loads);
        self.stats.set("load_balancer_total_load", capped(total / 10_000));
        self.stats.set("load_balancer_total_throughput", throughput);
        if self.worker_loads.len() > 0 {
            let mean: u64 = mean_u64(&self.worker_loads);
            self.stats.set("load_balancer_avg_load", mean / 10_000);
            self.stats.set("load_balancer_imbalance", imbalance.at_least);
        }
        imbalance
    }

    /// Notes the percentiles of the processing times, the backlog and the
    /// number of results kept.
    pub fn collect_metrics(&mut self, collection_count: u64)
        requires
            old(self).wf(),
            old(self).backlog() <= u64::MAX,
        ensures
            final(self).wf(),
            *final(self) == (WorkStealingDispatcher {
                stats: final(self).stats,
                ..*old(self)
            }),
            exists|p50: u64, p95: u64, p99: u64| #[trigger]
                metrics_collected(*old(self), collection_count, p50, p95, p99, final(self).stats@),
    {
        let p50: u64 = self.latency_histogram.percentile(50);
        let p95: u64 = self.latency_histogram.percentile(95);
        let p99: u64 = self.latency_histogram.percentile(99);
        self.stats.set("metrics_collection_count", collection_count);
        self.stats.set("current_p50_latency", p50);
        self.stats.set("current_p95_latency", p95);
        self.stats.set("current_p99_latency", p99);
        let backlog: u128 = self.queue_backlog();
        self.stats.set("current_total_queue", backlog as u64);
        let kept: usize = self.results.len();
        self.stats.set("active_results", kept as u64);
        proof {
            assert(metrics_collected(
                *old(self),
                collection_count,
                p50,
                p95,
                p99,
                self.stats@,
            ));
        }
    }

    /// Takes note that metrics are collected from now on.
    pub fn collector_started(&mut self)
        requires
            old(self).wf(),
        ensures
            final(self).wf(),
            *final(self) == (WorkStealingDispatcher {
                stats: final(self).stats,
                ..*old(self)
            }),
            final(self).stats@ == old(self).stats@.insert("metrics_collector_started"@, 1),
    {
        self.stats.set("metrics_collector_started", 1);
    }

    /// Takes note that metrics are not collected any more.
    pub fn collector_stopped(&mut self)
        requires
            old(self).wf(),
        ensures
            final(self).wf(),
            *final(self) == (WorkStealingDispatcher {
                stats: final(self).stats,
                ..*old(self)
            }),
            final(self).stats@ == old(self).stats@.insert("metrics_collector_stopped"@, 1),
    {
        self.stats.set("metrics_collector_stopped", 1);
    }

    /// Takes note that results are not cleaned up any more: how often they were,
    /// and how many went.
    pub fn cleaner_stopped(&mut self, cleanups: u64, cleaned: u64)
        requires
            old(self).wf(),
        ensures
            final(self).wf(),
            *final(self) == (WorkStealingDispatcher {
                stats: final(self).stats,
                ..*old(self)
            }),
            final(self).stats@ == old(self).stats@.insert(
                "final_cleanup_count"@,
                cleanups,
            ).insert("final_total_cleaned"@, cleaned),
    {
        self.stats.set("final_cleanup_count", cleanups);
        self.stats.set("final_total_cleaned", cleaned);
    }

    /// The result of a task, as long as it is kept.
    pub fn get_result(&self, task_id: u64) -> (r: Option<&WorkStealingResult>)
        requires
            self.wf(),
        ensures
            r is Some <==> self.results.map().contains_key(task_id),
            r matches Some(v) ==> *v == self.results.map()[task_id],
    {
        self.results.get(task_id)
    }

    /// Removes the results that are older than results are kept.
    pub fn clean_results(&mut self, now: u64) -> (cleaned: usize)
        requires
            old(self).wf(),
        ensures
            final(self).wf(),
            *final(self) == (WorkStealingDispatcher {
                results: final(self).results,
                stats: final(self).stats,
                ..*old(self)
            }),
            final(self).results.map() == old(self).results.map().remove_keys(
                stale_ids(old(self).results.map(), now),
            ),
            cleaned == stale_ids(old(self).results.map(), now).len(),
            final(self).stats@ == counted(
                counted(old(self).stats@, "total_cleaned_tasks"@, cleaned as u64),
                "cleanup_operations"@,
                1,
            ),
    {
        let ids: Vec<u64> = self.results.ids();
        let ghost before = self.results.map();
        let ghost mut gone: Set<u64> = Set::empty();
        let mut cleaned: usize = 0;
        let mut i: usize = 0;
        proof {
            assert(before.remove_keys(gone) =~= before);
        }
        while i < ids.len()
            invariant
                i <= ids@.len(),
                cleaned <= i,
                ids@.no_duplicates(),
                forall|id: u64| ids@.contains(id) <==> #[trigger] before.contains_key(id),
                self.wf(),
                *self == (WorkStealingDispatcher { results: self.results, ..*old(self) }),
                gone.finite(),
                gone.len() == cleaned,
                self.results.map() == before.remove_keys(gone),
                forall|id: u64| #[trigger]
                    gone.contains(id) <==> exists|k: int|
                        0 <= k < i && #[trigger] ids@[k] == id && stale(before[id], now),
            decreases ids@.len() - i,
        {
            let id: u64 = ids[i];
            proof {
                assert(ids@.contains(id));
                assert(before.contains_key(id));
                if gone.contains(id) {
                    let k = choose|k: int|
                        0 <= k < i && #[trigger] ids@[k] == id && stale(before[id], now);
                    assert(ids@[k] == ids@[i as int]);
                    assert(false);
                }
                assert(self.results.map().contains_key(id));
            }
            if let Some(r) = self.results.get(id) {
                if now.saturating_sub(r.completed_at) > RESULT_LIFETIME {
                    self.results.remove(id);
                    cleaned += 1;
                    proof {
                        let more = gone.insert(id);
                        assert(self.results.map() =~= before.remove_keys(more));
                        assert forall|x: u64| #[trigger] more.contains(x) implies exists|k: int|
                            0 <= k < i + 1 && #[trigger] ids@[k] == x && stale(before[x], now) by {
                            if x == id {
                                assert(ids@[i as int] == x);
                            } else {
                                assert(gone.contains(x));
                                let k = choose|k: int|
                                    0 <= k < i && #[trigger] ids@[k] == x && stale(before[x], now);
                                assert(ids@[k] == x);
                            }
                        }
                        gone = more;
                    }
                }
            }
            i += 1;
        }
        proof {
            let all = stale_ids(before, now);
            assert forall|id: u64| gone.contains(id) <==> all.contains(id) by {
                if all.contains(id) {
                    assert(before.contains_key(id));
                    assert(ids@.contains(id));
                    let k = choose|k: int| 0 <= k < ids@.len() && ids@[k] == id;
                    assert(ids@[k] == id);
                }
                if gone.contains(id) {
                    let k = choose|k: int|
                        0 <= k < i && #[trigger] ids@[k] == id && stale(before[id], now);
                    assert(ids@.contains(id));
                }
            }
            assert(gone =~= all);
        }
        self.stats.add("total_cleaned_tasks", cleaned as u64);
        self.stats.add("cleanup_operations", 1);
        cleaned
    }

    /// The statistics: the counters, and with them the two backlogs.
    pub open spec fn statistics(self) -> Map<Seq<char>, u64> {
        self.stats@.insert("current_queue_size"@, self.backlog() as u64).insert(
            "injector_backlog"@,
            self.injector_backlog as u64,
        )
    }

    /// The statistics by name.
    pub fn get_stats(&self) -> (s: Counters)
        requires
            self.backlog() <= u64::MAX,
        ensures
            s@ == self.statistics(),
    {
        let mut s: Counters = self.stats.copy();
        s.set("current_queue_size", self.queue_backlog() as u64);
        s.set("injector_backlog", self.injector_backlog as u64);
        s
    }

    /// The sum of all statistics.
    pub fn total_count(&self) -> (n: u128)
        requires
            self.backlog() <= u64::MAX,
        ensures
            forall|entries: Seq<(String, u64)>| #[trigger]
                lists_named(entries, self.statistics()) ==> n == entries_total(entries),
            exists|entries: Seq<(String, u64)>| #[trigger]
                lists_named(entries, self.statistics()),
    {
        self.get_stats().total()
    }

    /// A statistic by name.
    pub fn stat(&self, name: &str) -> (r: Option<u64>)
        requires
            self.backlog() <= u64::MAX,
        ensures
            r is Some <==> self.statistics().contains_key(name@),
            r matches Some(v) ==> v == self.statistics()[name@],
    {
        if str_equal(name, "injector_backlog") {
            Some(self.injector_backlog as u64)
        } else if str_equal(name, "current_queue_size") {
            Some(self.queue_backlog() as u64)
        } else {
            self.stats.get(name)
        }
    }

    /// Whether `s` are the statistics at a given time.
    pub open spec fn is_told_by(
        self,
        s: DispatcherAdvancedStats,
        current_batch_size: usize,
        circuit_state: CircuitState,
        now: u64,
    ) -> bool {
        &&& s.total_workers == self.num_workers
        &&& s.healthy_workers == active_workers(self.stats@, self.num_workers as nat)
        &&& s.total_tasks_submitted == count_of(self.stats@, "tasks_submitted"@)
        &&& s.total_tasks_processed == count_of(self.stats@, "total_tasks_processed"@)
        &&& s.successful_decryptions == count_of(self.stats@, "successful_decryptions"@)
        &&& s.failed_decryptions == count_of(self.stats@, "failed_decryptions"@)
        &&& s.work_steals == count_of(self.stats@, "work_steals"@)
        &&& s.avg_processing_time_ms == (Ratio {
            part: count_of(self.stats@, "processing_time_ms_total"@),
            whole: count_of(self.stats@, "total_tasks_processed"@),
        })
        &&& is_histogram_percentile(self.latency_histogram@, 95, s.p95_processing_time_ms)
        &&& is_histogram_percentile(self.latency_histogram@, 99, s.p99_processing_time_ms)
        &&& s.current_batch_size == current_batch_size
        &&& s.circuit_state == circuit_state
        &&& s.imbalance == self.stealing_model.imbalance
        &&& s.queue_backlog == self.backlog()
        &&& s.injector_backlog == self.injector_backlog
        &&& s.steal_probability == self.stealing_model.p_steal
        &&& s.timestamp == now
    }

    /// The statistics.
    pub fn get_advanced_stats(
        &self,
        current_batch_size: usize,
        circuit_state: CircuitState,
        now: u64,
    ) -> (s: DispatcherAdvancedStats)
        requires
            self.wf(),
        ensures
            self.is_told_by(s, current_batch_size, circuit_state, now),
    {
        let processed: u64 = self.stats.value("total_tasks_processed");
        let mut healthy_workers: usize = 0;
        let mut i: usize = 0;
        while i < self.num_workers
            invariant
                i <= self.num_workers,
                healthy_workers <= i,
                healthy_workers == active_workers(self.stats@, i as nat),
            decreases self.num_workers - i,
        {
            let name: String = worker_counter_name(i, "_tasks");
            if self.stats.value(name.as_str()) > 0 {
                healthy_workers += 1;
            }
            i += 1;
        }
        DispatcherAdvancedStats {
            total_workers: self.num_workers,
            healthy_workers,
            total_tasks_submitted: self.stats.value("tasks_submitted"),
            total_tasks_processed: processed,
            successful_decryptions: self.stats.value("successful_decryptions"),
            failed_decryptions: self.stats.value("failed_decryptions"),
            work_steals: self.stats.value("work_steals"),
            avg_processing_time_ms: Ratio::new(
                self.stats.value("processing_time_ms_total"),
                processed,
            ),
            p95_processing_time_ms: self.latency_histogram.percentile(95),
            p99_processing_time_ms: self.latency_histogram.percentile(99),
            current_batch_size,
            circuit_state,
            imbalance: self.stealing_model.imbalance,
            queue_backlog: self.queue_backlog(),
            injector_backlog: self.injector_backlog,
            steal_probability: self.stealing_model.p_steal,
            timestamp: now,
        }
    }

    /// Stops the dispatcher and forgets results and statistics.
    pub fn shutdown(&mut self)
        requires
            old(self).wf(),
        ensures
            final(self).wf(),
            *final(self) == (WorkStealingDispatcher {
                worker_queues: final(self).worker_queues,
                worker_loads: final(self).worker_loads,
                results: final(self).results,
                stats: final(self).stats,
                latency_histogram: final(self).latency_histogram,
                is_running: false,
                ..*old(self)
            }),
            final(self).backlog() == 0,
            final(self).worker_loads@.len() == 0,
            final(self).results.map() == Map::<u64, WorkStealingResult>::empty(),
            final(self).stats@ == Map::<Seq<char>, u64>::empty(),
            final(self).latency_histogram@ == Map::<u64, u64>::empty(),
    {
        self.is_running = false;
        self.worker_queues = Numbers::new();
        self.worker_loads.clear();
        self.results = NumberedStore::new();
        self.stats = Counters::new();
        self.latency_histogram = Histogram::new();
        proof {
            nothing_queued(self.worker_queues@, self.num_workers as nat);
        }
    }
}

/// The statistics that `collect_metrics` notes.
pub open spec fn metrics_collected(
    d: WorkStealingDispatcher,
    collection_count: u64,
    p50: u64,
    p95: u64,
    p99: u64,
    stats: Map<Seq<char>, u64>,
) -> bool {
    &&& is_histogram_percentile(d.latency_histogram@, 50, p50)
    &&& is_histogram_percentile(d.latency_histogram@, 95, p95)
    &&& is_histogram_percentile(d.latency_histogram@, 99, p99)
    &&& stats == d.stats@.insert("metrics_collection_count"@, collection_count).insert(
        "current_p50_latency"@,
        p50,
    ).insert("current_p95_latency"@, p95).insert("current_p99_latency"@, p99).insert(
        "current_total_queue"@,
        d.backlog() as u64,
    ).insert("active_results"@, d.results.map().len() as u64)
}

proof fn nothing_queued(queues: Map<u64, u64>, n: nat)
    requires
        forall|k: u64| !queues.contains_key(k),
    ensures
        queued(queues, n) == 0,
    decreases n,
{
    if n > 0 {
        nothing_queued(queues, (n - 1) as nat);
    }
}

/// A task sent to a worker lengthens the backlog by one, and taking it
/// restores the backlog.
pub proof fn sent_tasks_can_be_taken(queues: Map<u64, u64>, n: nat, worker: u64)
    requires
        worker < n <= u64::MAX,
        queues.contains_key(worker),
        queues[worker] < u64::MAX,
    ensures
        queued(lengthened(queues, worker), n) == queued(queues, n) + 1,
        shortened(lengthened(queues, worker), worker) == queues,
{
    let more = lengthened(queues, worker);
    queued_up_to(queues, more, worker as nat, worker);
    assert(queued(more, (worker + 1) as nat) == queued(queues, (worker + 1) as nat) + 1);
    queued_beyond(queues, more, n, worker);
    assert(shortened(more, worker) =~= queues);
}

proof fn queued_up_to(queues: Map<u64, u64>, more: Map<u64, u64>, n: nat, worker: u64)
    requires
        n <= worker,
        more == lengthened(queues, worker),
    ensures
        queued(more, n) == queued(queues, n),
    decreases n,
{
    if n > 0 {
        queued_up_to(queues, more, (n - 1) as nat, worker);
    }
}

proof fn queued_beyond(queues: Map<u64, u64>, more: Map<u64, u64>, n: nat, worker: u64)
    requires
        worker < n <= u64::MAX,
        more == lengthened(queues, worker),
        queued(more, (worker + 1) as nat) == queued(queues, (worker + 1) as nat) + 1,
    ensures
        queued(more, n) == queued(queues, n) + 1,
    decreases n,
{
    if n > worker + 1 {
        queued_beyond(queues, more, (n - 1) as nat, worker);
    }
}

/// A task that is taken on is handed out as it came: its session, data, source
/// and priority stay; it gets the next number, and a deadline thirty seconds
/// away where it had none. It goes to the less loaded of the two workers. Later
/// tasks get other numbers.
pub proof fn submitted_tasks_stay_themselves(
    before: WorkStealingDispatcher,
    core: BreakerCore,
    task: WorkStealingTask,
    first: usize,
    second: usize,
    now: u64,
    r: Result<Submission, BatchError>,
    after: WorkStealingDispatcher,
    core_after: BreakerCore,
)
    requires
        before.wf(),
        now + DEFAULT_DEADLINE <= u64::MAX,
        is_submission(before, core, task, first, second, now, r, after, core_after),
        r is Ok,
    ensures
        ({
            let s = r->Ok_0;
            let loads = before.load_balancer.worker_loads@;
            &&& s.task.id == before.next_task_id
            &&& s.task.session_id == task.session_id
            &&& s.task.data == task.data
            &&& s.task.source_addr == task.source_addr
            &&& s.task.priority == task.priority
            &&& s.task.created_at == task.created_at
            &&& s.task.retry_count == task.retry_count
            &&& task.deadline is Some ==> s.task.deadline == task.deadline
            &&& task.deadline is None ==> s.task.deadline == Some((now + 30_000_000_000) as u64)
            &&& s.worker == first || s.worker == second
            &&& s.worker < before.num_workers
            &&& loads[s.worker as int] <= loads[first as int]
            &&& loads[s.worker as int] <= loads[second as int]
            &&& before.next_task_id < u64::MAX ==> after.next_task_id == before.next_task_id + 1
            &&& after.next_task_id != before.next_task_id
            &&& after.worker_queues == before.worker_queues
            &&& after.results == before.results
        }),
{
}

/// A task is refused if and only if the breaker lets no request pass, or more
/// tasks wait, with workers and for all of them, than the threshold allows for
/// each worker. Either counts as a failure.
pub proof fn tasks_are_refused_for_cause(
    before: WorkStealingDispatcher,
    core: BreakerCore,
    task: WorkStealingTask,
    first: usize,
    second: usize,
    now: u64,
    r: Result<Submission, BatchError>,
    after: WorkStealingDispatcher,
    core_after: BreakerCore,
)
    requires
        is_submission(before, core, task, first, second, now, r, after, core_after),
    ensures
        ({
            let waiting = queued(before.worker_queues@, before.num_workers as nat)
                + before.injector_backlog;
            let allowed = before.backpressure_threshold * before.num_workers;
            &&& r is Err <==> !core.admits(now) || waiting > allowed
            &&& core.admits(now) && waiting > allowed ==> r == Err::<Submission, BatchError>(
                BatchError::Backpressure,
            )
            &&& !core.admits(now) ==> {
                &&& r matches Err(BatchError::ProcessingError(s)) && s@
                    == "Circuit breaker is open"@
                &&& after == before
            }
            &&& r is Err ==> core_after.failure_count == (core.after_request(now).failure_count
                + 1) as usize && core_after.last_failure == Some(now)
            &&& r is Ok ==> core_after == core.after_request(now)
        }),
{
}

/// The backlog is the sum of the lengths of all queues.
pub proof fn backlogs_add_up(queues: Map<u64, u64>, n: nat)
    requires
        n <= u64::MAX,
        forall|k: u64| k < n ==> #[trigger] queues.contains_key(k),
    ensures
        queue_lengths(queues, n) == Seq::new(n, |i: int| queues[i as u64]),
        queued(queues, n) == queue_lengths(queues, n).fold_left(0int, |sum: int, l: u64| sum + l),
    decreases n,
{
    if n > 0 {
        let m = (n - 1) as nat;
        backlogs_add_up(queues, m);
        assert(queues.contains_key(m as u64));
        let rest = queue_lengths(queues, m);
        assert(rest.push(queues[m as u64]).drop_last() =~= rest);
        assert(queue_lengths(queues, n) =~= Seq::new(n, |i: int| queues[i as u64]));
    }
}

/// A task that was placed with a worker and taken from its queue again leaves
/// the queues as they were; while it waits, that queue is one longer and no
/// other has changed.
pub proof fn placed_tasks_wait_until_taken(queues: Map<u64, u64>, worker: u64, other: u64)
    requires
        queues.contains_key(worker),
        queues[worker] < u64::MAX,
        other != worker,
    ensures
        lengthened(queues, worker)[worker] == queues[worker] + 1,
        lengthened(queues, worker).contains_key(other) == queues.contains_key(other),
        lengthened(queues, worker)[other] == queues[other],
        shortened(lengthened(queues, worker), worker) == queues,
        queues[worker] > 0 ==> shortened(queues, worker)[worker] == queues[worker] - 1,
        queues[worker] == 0 ==> shortened(queues, worker)[worker] == 0,
        shortened(queues, worker)[other] == queues[other],
{
    assert(shortened(lengthened(queues, worker), worker) =~= queues);
}

/// A task that finds a place counts as submitted and lengthens either the queue
/// of its worker or the shared one, and nothing else; one that finds none
/// changes nothing.
pub proof fn placements_are_counted(
    before: WorkStealingDispatcher,
    after: WorkStealingDispatcher,
    worker: usize,
    placement: Placement,
)
    requires
        after.has_placed(before, worker, placement),
        before.worker_queues@.contains_key(worker as u64),
        before.worker_queues@[worker as u64] < u64::MAX,
        before.injector_backlog < usize::MAX,
        count_of(before.stats@, "tasks_submitted"@) < u64::MAX,
    ensures
        placement == Placement::Nowhere ==> after == before,
        placement != Placement::Nowhere ==> count_of(after.stats@, "tasks_submitted"@) == count_of(
            before.stats@,
            "tasks_submitted"@,
        ) + 1,
        after.injector_backlog == before.injector_backlog + if placement == Placement::ToInjector {
            1int
        } else {
            0
        },
        after.worker_queues@[worker as u64] == before.worker_queues@[worker as u64] + if placement
            == Placement::ToWorker {
            1int
        } else {
            0
        },
{
    reveal_strlit("tasks_submitted");
    reveal_strlit("injector_usage");
    assert("tasks_submitted"@.len() == 15 && "injector_usage"@.len() == 14);
}

/// What becomes of a task: past its deadline it is told to be expired, whatever
/// else; without a session, that there is none; where it cannot be decrypted,
/// why; otherwise its type, followed by its text.
pub proof fn outcomes_tell_what_happened(
    result: Result<Vec<u8>, String>,
    task: WorkStealingTask,
    started: u64,
    decryption: Decryption,
)
    requires
        is_outcome(result, task.expired(started), decryption, task.session_id@),
    ensures
        task.deadline matches Some(d) && started > d ==> (result matches Err(e) && e@
            == "Task expired"@),
        task.deadline is None || started <= task.deadline->0 ==> match decryption {
            Decryption::NoSession => result matches Err(e) && e@ == "Session not found: "@ + hex(
                task.session_id@,
            ),
            Decryption::Failed(why) => result matches Err(e) && e@ == "Decryption failed: "@ + why@,
            Decryption::Decrypted { packet_type, data } => {
                &&& result is Ok
                &&& result->Ok_0@.len() == data@.len() + 1
                &&& result->Ok_0@[0] == packet_type
                &&& result->Ok_0@.skip(1) == data@
            },
        },
{
    if let Decryption::Decrypted { packet_type, data } = decryption {
        if let Ok(d) = result {
            assert((seq![packet_type] + data@).skip(1) =~= data@);
        }
    }
}

/// Every task counts once: as expired, as one without a session, as one that
/// could not be decrypted, or as processed and decrypted.
pub proof fn tasks_are_counted_once(
    stats: Map<Seq<char>, u64>,
    worker_id: usize,
    expired: bool,
    decryption: Decryption,
    processing_ms: u64,
)
    requires
        forall|name: Seq<char>| #[trigger] count_of(stats, name) < u64::MAX,
        decryption is Decrypted ==> count_of(stats, "processing_time_ms_total"@) + processing_ms
            <= u64::MAX,
    ensures
        ({
            let after = counted_task(stats, worker_id, expired, decryption, processing_ms);
            let one = |yes: bool| {
                if yes {
                    1int
                } else {
                    0
                }
            };
            let done = !expired && decryption is Decrypted;
            &&& count_of(after, "tasks_expired"@) == count_of(stats, "tasks_expired"@) + one(
                expired,
            )
            &&& count_of(after, "session_not_found"@) == count_of(stats, "session_not_found"@)
                + one(!expired && decryption is NoSession)
            &&& count_of(after, "failed_decryptions"@) == count_of(stats, "failed_decryptions"@)
                + one(!expired && decryption is Failed)
            &&& count_of(after, "total_tasks_processed"@) == count_of(
                stats,
                "total_tasks_processed"@,
            ) + one(done)
            &&& count_of(after, "successful_decryptions"@) == count_of(
                stats,
                "successful_decryptions"@,
            ) + one(done)
            &&& count_of(after, "processing_time_ms_total"@) == count_of(
                stats,
                "processing_time_ms_total"@,
            ) + if done {
                processing_ms as int
            } else {
                0
            }
        }),
{
    names_differ(worker_id, decryption);
}

proof fn names_differ(worker_id: usize, decryption: Decryption)
    ensures
        "tasks_expired"@.len() == 13,
        "session_not_found"@.len() == 17,
        "failed_decryptions"@.len() == 18,
        "total_tasks_processed"@.len() == 21,
        "successful_decryptions"@.len() == 22,
        "processing_time_ms_total"@.len() == 24,
        "tasks_expired"@[0] == 't' && "session_not_found"@[0] == 's' && "failed_decryptions"@[0]
            == 'f' && "total_tasks_processed"@[0] == 't' && "successful_decryptions"@[0] == 's'
            && "processing_time_ms_total"@[0] == 'p' && "processing_time_ms_total"@[1] == 'r',
        worker_counter(worker_id, "_tasks"@)[0] == 'w',
        worker_counter(worker_id, "_errors"@)[0] == 'w',
        worker_counter(worker_id, "_session_errors"@)[0] == 'w',
        decryption matches Decryption::Decrypted { packet_type, .. } ==> ("packet_type_"@ + decimal(
            packet_type as nat,
        ))[0] == 'p' && ("packet_type_"@ + decimal(packet_type as nat))[1] == 'a',
{
    reveal_strlit("tasks_expired");
    reveal_strlit("session_not_found");
    reveal_strlit("failed_decryptions");
    reveal_strlit("total_tasks_processed");
    reveal_strlit("successful_decryptions");
    reveal_strlit("processing_time_ms_total");
    reveal_strlit("worker_");
    reveal_strlit("packet_type_");
}

/// A result is kept for five minutes, and no longer.
pub proof fn results_live_five_minutes(
    results: Map<u64, WorkStealingResult>,
    id: u64,
    now: u64,
)
    requires
        results.contains_key(id),
    ensures
        stale_ids(results, now).contains(id) <==> now > results[id].completed_at
            + 300_000_000_000,
        results.remove_keys(stale_ids(results, now)).contains_key(id) <==> now
            <= results[id].completed_at + 300_000_000_000,
{
}

/// Workers steal more when more tasks wait, and more when the queues are
/// uneven: never less than one task in twenty, never more than one in two.
pub proof fn stealing_follows_the_backlog(a: nat, b: nat, balance: Balance)
    requires
        a <= b,
    ensures
        steal_probability(a, balance) <= steal_probability(b, balance),
        500 <= steal_probability(a, balance) <= 5000,
        steal_probability(a, Balance::Even) + 100 == steal_probability(a, Balance::Fair),
        steal_probability(a, Balance::Fair) + 500 == steal_probability(a, Balance::Uneven),
        a <= 3000 ==> steal_probability(a, Balance::Fair) == 1000 + a,
        a >= 3000 ==> steal_probability(a, Balance::Fair) == 4000,
{
}

/// The lengths of the queues stand in the order of their workers, each worker's
/// at its number, and add up to the backlog.
pub proof fn queue_lengths_are_of_all_workers(queues: Map<u64, u64>, n: nat)
    requires
        n <= u64::MAX,
        forall|k: u64| k < n ==> #[trigger] queues.contains_key(k),
    ensures
        queue_lengths(queues, n).len() == n,
        forall|i: int|
            0 <= i < n ==> #[trigger] queue_lengths(queues, n)[i] == queues[i as u64],
        total(queue_lengths(queues, n)) == queued(queues, n),
    decreases n,
{
    if n > 0 {
        queue_lengths_are_of_all_workers(queues, (n - 1) as nat);
        let rest = queue_lengths(queues, (n - 1) as nat);
        assert(queues.contains_key((n - 1) as u64));
        let last = queues[(n - 1) as u64];
        assert(queue_lengths(queues, n) == rest.push(last));
        assert(rest.push(last).drop_last() =~= rest);
        assert forall|i: int| 0 <= i < n implies #[trigger] queue_lengths(queues, n)[i]
            == queues[i as u64] by {
            if i < n - 1 {
                assert(rest[i] == queues[i as u64]);
            }
        }
    }
}

/// What the collection of metrics notes: the percentiles of the latencies, each
/// under its own name, and how many tasks wait and how many results are kept.
pub proof fn collected_metrics_are_noted(
    d: WorkStealingDispatcher,
    n: u64,
    p50: u64,
    p95: u64,
    p99: u64,
    stats: Map<Seq<char>, u64>,
)
    requires
        metrics_collected(d, n, p50, p95, p99, stats),
    ensures
        is_histogram_percentile(d.latency_histogram@, 50, p50),
        is_histogram_percentile(d.latency_histogram@, 95, p95),
        is_histogram_percentile(d.latency_histogram@, 99, p99),
        stats["metrics_collection_count"@] == n,
        stats["current_p50_latency"@] == p50,
        stats["current_p95_latency"@] == p95,
        stats["current_p99_latency"@] == p99,
        stats["current_total_queue"@] == d.backlog() as u64,
        stats["active_results"@] == d.results.map().len() as u64,
{
    reveal_strlit("metrics_collection_count");
    reveal_strlit("current_p50_latency");
    reveal_strlit("current_p95_latency");
    reveal_strlit("current_p99_latency");
    reveal_strlit("current_total_queue");
    reveal_strlit("active_results");
    assert("current_p50_latency"@[9] == '5');
    assert("current_p50_latency"@[10] == '0');
    assert("current_p95_latency"@[9] == '9');
    assert("current_p95_latency"@[10] == '5');
    assert("current_p99_latency"@[9] == '9');
    assert("current_p99_latency"@[10] == '9');
    assert("current_total_queue"@[9] == 'o');
    assert("current_p50_latency"@[8] == 'p');
    assert("current_p95_latency"@[8] == 'p');
    assert("current_p99_latency"@[8] == 'p');
    assert("current_total_queue"@[8] == 't');
    assert("metrics_collection_count"@.len() == 24);
    assert("active_results"@.len() == 14);
}

/// A worker counts as active once it has done a task.
pub proof fn active_workers_have_worked(stats: Map<Seq<char>, u64>, n: nat)
    ensures
        active_workers(stats, n) == Seq::new(n, |i: int| i).filter(
            |i: int| count_of(stats, worker_counter(i as usize, "_tasks"@)) > 0,
        ).len(),
    decreases n,
{
    reveal(Seq::filter);
    let active = |i: int| count_of(stats, worker_counter(i as usize, "_tasks"@)) > 0;
    if n > 0 {
        active_workers_have_worked(stats, (n - 1) as nat);
        let (all, rest) = (Seq::new(n, |i: int| i), Seq::new((n - 1) as nat, |i: int| i));
        assert(all.drop_last() =~= rest);
        assert(all.last() == n - 1);
    }
}

} // verus!
