//! Batch sizes that adapt to the load.
//!
//! Points in time and durations are nanoseconds. Rates are thousandths of a
//! task per second.

use std::collections::VecDeque;
use vstd::prelude::*;
use vstd::std_specs::vecdeque::*;

use crate::bounds::{clamp_usize, clamped, greater, max_usize, min_usize, minus, smaller};
use crate::config::{MILLISECOND, SECOND};
use crate::history::{remember, remembered, sum_u64, total};
use crate::ratio::Ratio;

verus! {

/// How many measurements are remembered.
pub const MEASUREMENTS: usize = 1000;

/// The number of levels into which rates are divided.
pub const LOAD_LEVELS: usize = 10;

/// Rates up to this one share the lowest scale: 1000 tasks per second.
pub const MIN_SCALE: u64 = 1_000_000;

/// From this many measurements on, the model of the processing time is
/// estimated.
pub const MODEL_MEASUREMENTS: usize = 50;

/// From this many latencies on, their extremes are estimated.
pub const EXTREME_LATENCIES: usize = 100;

/// Seconds between two estimates.
pub const MODEL_INTERVAL_SECS: u64 = 60;

/// The number of batch sizes that are compared.
pub const SIZE_CANDIDATES: usize = 5;

/// The number of worker counts that are compared.
pub const WORKER_CANDIDATES: usize = 3;

/// Limits and targets.
#[derive(Debug, Clone, Copy)]
pub struct AdaptiveBatcherConfig {
    pub min_batch_size: usize,
    pub max_batch_size: usize,
    pub initial_batch_size: usize,
    pub target_latency: u64,
    pub adaptation_interval: u64,
}

impl Default for AdaptiveBatcherConfig {
    fn default() -> (c: Self)
        ensures
            c == (AdaptiveBatcherConfig {
                min_batch_size: 32,
                max_batch_size: 1024,
                initial_batch_size: 256,
                target_latency: (50 * MILLISECOND) as u64,
                adaptation_interval: SECOND,
            }),
    {
        AdaptiveBatcherConfig {
            min_batch_size: 32,
            max_batch_size: 1024,
            initial_batch_size: 256,
            target_latency: 50 * MILLISECOND,
            adaptation_interval: SECOND,
        }
    }
}

/// Whether a table holds counts for every sequence of three levels, each row
/// with a total that can be counted.
pub open spec fn is_count_table(counts: Seq<Vec<Vec<u64>>>, levels: nat) -> bool {
    &&& counts.len() == levels
    &&& forall|a: int| 0 <= a < levels ==> (#[trigger] counts[a])@.len() == levels
    &&& forall|a: int, b: int|
        0 <= a < levels && 0 <= b < levels ==> is_count_row(#[trigger] counts[a]@[b]@, levels)
}

/// Whether a row holds a count for every level, with a total that can be
/// counted.
pub open spec fn is_count_row(row: Seq<u64>, levels: nat) -> bool {
    row.len() == levels && total(row) <= u64::MAX
}

/// Whether `best` is the first level with the highest count, or the middle one
/// where nothing was counted.
pub open spec fn is_likeliest(row: Seq<u64>, levels: nat, best: int) -> bool {
    if forall|k: int| 0 <= k < row.len() ==> #[trigger] row[k] == 0 {
        best == levels / 2
    } else {
        &&& 0 <= best < row.len()
        &&& row[best] > 0
        &&& forall|k: int|
            0 <= k < row.len() ==> {
                &&& #[trigger] row[k] <= row[best]
                &&& k < best ==> row[k] < row[best]
            }
    }
}

/// The level of a rate on a scale.
pub open spec fn level_of(rate: u64, scale: u64, levels: nat) -> int {
    smaller(rate * (levels - 1) / (scale as int), levels - 1)
}

/// The rate in the middle of a level.
pub open spec fn rate_of(level: nat, scale: u64, levels: nat) -> int {
    (2 * level + 1) * scale / (2 * levels) as int
}

/// Which level follows upon two others, learned by counting.
#[derive(Debug)]
pub struct MarkovChain2nd {
    pub levels: usize,
    pub counts: Vec<Vec<Vec<u64>>>,
}

impl MarkovChain2nd {
    /// What holds of every chain.
    pub open spec fn wf(self) -> bool {
        is_count_table(self.counts@, self.levels as nat)
    }

    /// How often level `c` followed upon `a` and `b`.
    pub open spec fn count(self, a: int, b: int, c: int) -> u64 {
        self.counts@[a]@[b]@[c]
    }

    /// How often anything followed upon `a` and `b`.
    pub open spec fn row_total(self, a: int, b: int) -> nat {
        total(self.counts@[a]@[b]@)
    }

    /// The share of the cases in which `c` followed upon `a` and `b`: its count,
    /// of all that were counted there.
    pub open spec fn share(self, a: int, b: int, c: int) -> Ratio {
        Ratio { part: self.count(a, b, c), whole: self.row_total(a, b) as u64 }
    }

    /// Whether `after` is this chain once `k` was counted to follow upon `i` and
    /// `j`. Levels that do not exist change nothing.
    pub open spec fn has_counted(self, after: Self, i: int, j: int, k: int) -> bool {
        let known = i < self.levels && j < self.levels && k < self.levels;
        &&& after.levels == self.levels
        &&& forall|a: int, b: int, c: int|
            0 <= a < self.levels && 0 <= b < self.levels && 0 <= c < self.levels
                ==> #[trigger] after.count(a, b, c) == self.count(a, b, c) + if known && a == i && b
                == j && c == k {
                1int
            } else {
                0
            }
        &&& forall|a: int, b: int|
            0 <= a < self.levels && 0 <= b < self.levels ==> #[trigger] after.row_total(a, b)
                == self.row_total(a, b) + if known && a == i && b == j {
                1int
            } else {
                0
            }
    }

    /// Nothing counted.
    pub fn new(levels: usize) -> (m: Self)
        ensures
            m.wf(),
            m.levels == levels,
            forall|a: int, b: int, c: int|
                0 <= a < levels && 0 <= b < levels && 0 <= c < levels ==> #[trigger] m.count(
                    a,
                    b,
                    c,
                ) == 0,
    {
        let mut counts: Vec<Vec<Vec<u64>>> = Vec::new();
        let mut a: usize = 0;
        while a < levels
            invariant
                a <= levels,
                counts@.len() == a,
                forall|i: int| 0 <= i < a ==> (#[trigger] counts@[i])@.len() == levels,
                forall|i: int, j: int|
                    0 <= i < a && 0 <= j < levels ==> (#[trigger] counts@[i]@[j])@ == Seq::new(
                        levels as nat,
                        |k: int| 0u64,
                    ),
            decreases levels - a,
        {
            let mut plane: Vec<Vec<u64>> = Vec::new();
            let mut b: usize = 0;
            while b < levels
                invariant
                    b <= levels,
                    plane@.len() == b,
                    forall|j: int|
                        0 <= j < b ==> (#[trigger] plane@[j])@ == Seq::new(
                            levels as nat,
                            |k: int| 0u64,
                        ),
                decreases levels - b,
            {
                let row: Vec<u64> = vec![0u64; levels];
                proof {
                    assert(row@ =~= Seq::new(levels as nat, |k: int| 0u64));
                }
                plane.push(row);
                b += 1;
            }
            counts.push(plane);
            a += 1;
        }
        proof {
            no_counts(Seq::new(levels as nat, |k: int| 0u64));
        }
        MarkovChain2nd { levels, counts }
    }

    /// Counts that level `l_tp1` followed upon `l_tm1` and `l_t`. Levels that
    /// do not exist are ignored.
    pub fn update(&mut self, l_tm1: usize, l_t: usize, l_tp1: usize)
        requires
            old(self).wf(),
            l_tm1 < old(self).levels && l_t < old(self).levels && l_tp1 < old(self).levels
                ==> total(
                old(self).counts@[l_tm1 as int]@[l_t as int]@,
            ) < u64::MAX,
        ensures
            final(self).wf(),
            old(self).has_counted(*final(self), l_tm1 as int, l_t as int, l_tp1 as int),
    {
        if l_tm1 < self.levels && l_t < self.levels && l_tp1 < self.levels {
            let ghost before = *self;
            let ghost old_row = self.counts@[l_tm1 as int]@[l_t as int]@;
            proof {
                entry_below_total(old_row, l_tp1 as int);
            }
            let count: u64 = self.counts[l_tm1][l_t][l_tp1] + 1;
            let plane: &mut Vec<Vec<u64>> = &mut self.counts[l_tm1];
            let row: &mut Vec<u64> = &mut plane[l_t];
            row.set(l_tp1, count);
            proof {
                let new_row = self.counts@[l_tm1 as int]@[l_t as int]@;
                assert(new_row =~= old_row.update(l_tp1 as int, count));
                total_after_update(old_row, l_tp1 as int, count);
                assert(is_count_row(new_row, self.levels as nat));
                assert forall|a: int, b: int|
                    0 <= a < self.levels && 0 <= b < self.levels implies is_count_row(
                    #[trigger] self.counts@[a]@[b]@,
                    self.levels as nat,
                ) by {
                    assert(is_count_row(before.counts@[a]@[b]@, self.levels as nat));
                }
            }
        }
    }

    /// The share of the cases in which a level followed upon two others; none
    /// where a level does not exist.
    pub fn transition(&self, l_tm1: usize, l_t: usize, l_tp1: usize) -> (r: Ratio)
        requires
            self.wf(),
        ensures
            r == if l_tm1 < self.levels && l_t < self.levels && l_tp1 < self.levels {
                self.share(l_tm1 as int, l_t as int, l_tp1 as int)
            } else {
                Ratio { part: 0, whole: 0 }
            },
    {
        if l_tm1 < self.levels && l_t < self.levels && l_tp1 < self.levels {
            let row: &Vec<u64> = &self.counts[l_tm1][l_t];
            proof {
                assert(is_count_row(row@, self.levels as nat));
            }
            let sum: u128 = sum_u64(row);
            Ratio::new(row[l_tp1], sum as u64)
        } else {
            Ratio::new(0, 0)
        }
    }

    /// The level that most often followed upon two others, with its share; the
    /// middle one, with a share of one half, for levels that do not exist.
    pub fn predict(&self, l_tm1: usize, l_t: usize) -> (r: (usize, Ratio))
        requires
            self.wf(),
        ensures
            if l_tm1 >= self.levels || l_t >= self.levels {
                r == ((self.levels / 2) as usize, Ratio { part: 1, whole: 2 })
            } else {
                let row = self.counts@[l_tm1 as int]@[l_t as int]@;
                &&& is_likeliest(row, self.levels as nat, r.0 as int)
                &&& r.1.whole == total(row)
                &&& r.1.part == if total(row) == 0 {
                    0
                } else {
                    row[r.0 as int]
                }
            },
            l_tm1 < self.levels && l_t < self.levels ==> {
                let row = self.counts@[l_tm1 as int]@[l_t as int]@;
                &&& (exists|k: int| 0 <= k < row.len() && #[trigger] row[k] > 0) ==> r.0 < row.len()
                    && r.1.part == row[r.0 as int] && forall|k: int|
                    0 <= k < row.len() ==> #[trigger] row[k] <= row[r.0 as int]
                &&& (forall|k: int| 0 <= k < row.len() ==> #[trigger] row[k] == 0)
                    ==> r.0 == self.levels
                    / 2
            },
    {
        if l_tm1 >= self.levels || l_t >= self.levels {
            return (self.levels / 2, Ratio::new(1, 2));
        }
        let row: &Vec<u64> = &self.counts[l_tm1][l_t];
        proof {
            assert(is_count_row(row@, self.levels as nat));
        }
        let sum: u128 = sum_u64(row);
        let mut highest: u64 = 0;
        let mut best: usize = self.levels / 2;
        let mut k: usize = 0;
        while k < row.len()
            invariant
                k <= row@.len(),
                row@.len() == self.levels,
                highest == 0 ==> best == self.levels / 2 && forall|j: int|
                    0 <= j < k ==> #[trigger] row@[j] == 0,
                highest > 0 ==> {
                    &&& best < k
                    &&& row@[best as int] == highest
                    &&& forall|j: int|
                        0 <= j < k ==> {
                            &&& #[trigger] row@[j] <= highest
                            &&& j < best ==> row@[j] < highest
                        }
                },
            decreases row@.len() - k,
        {
            if row[k] > highest {
                highest = row[k];
                best = k;
            }
            k += 1;
        }
        proof {
            if highest > 0 {
                entry_below_total(row@, best as int);
                assert(row@[best as int] != 0);
            } else {
                assert(row@ =~= Seq::new(row@.len(), |k: int| 0u64));
                no_counts(row@);
            }
        }
        (best, Ratio::new(highest, sum as u64))
    }

    /// The level of a rate on a scale.
    pub fn quantize(&self, rate: u64, scale: u64) -> (level: usize)
        requires
            scale > 0,
            self.levels > 0,
        ensures
            level == level_of(rate, scale, self.levels as nat),
            level < self.levels,
    {
        proof {
            let (r, l, s) = (rate as int, self.levels - 1, scale as int);
            assert(0 <= r * l <= 0xffff_ffff_ffff_ffff * 0xffff_ffff_ffff_ffff) by (nonlinear_arith)
                requires
                    0 <= r <= 0xffff_ffff_ffff_ffff,
                    0 <= l <= 0xffff_ffff_ffff_ffff,
            ;
            assert(r * l / s >= 0) by (nonlinear_arith)
                requires
                    r * l >= 0,
                    s > 0,
            ;
        }
        let n: u128 = rate as u128 * (self.levels - 1) as u128 / scale as u128;
        if n > (self.levels - 1) as u128 {
            self.levels - 1
        } else {
            n as usize
        }
    }

    /// The rate in the middle of a level.
    pub fn dequantize(&self, level: usize, scale: u64) -> (rate: u64)
        requires
            level < self.levels,
            self.levels < 0x7fff_ffff_ffff_ffff,
        ensures
            rate == rate_of(level as nat, scale, self.levels as nat),
    {
        proof {
            let (l, s, n) = (level as int, scale as int, self.levels as int);
            assert(0 <= (2 * l + 1) * s <= 0xffff_ffff_ffff_ffff * 0xffff_ffff_ffff_ffff)
                by (nonlinear_arith)
                requires
                    0 <= l < 0x7fff_ffff_ffff_ffff,
                    0 <= s <= 0xffff_ffff_ffff_ffff,
            ;
            assert(0 <= (2 * l + 1) * s / (2 * n) <= s) by (nonlinear_arith)
                requires
                    0 <= l < n,
                    0 <= s,
                    0 <= (2 * l + 1) * s,
            ;
        }
        let n: u128 = (2 * level as u128 + 1) * scale as u128 / (2 * self.levels as u128);
        n as u64
    }
}

/// Higher rates fall into higher levels, and all into levels that exist.
pub proof fn levels_are_ordered(a: u64, b: u64, scale: u64, levels: nat)
    requires
        a <= b,
        scale > 0,
        levels > 0,
    ensures
        level_of(a, scale, levels) <= level_of(b, scale, levels),
        0 <= level_of(a, scale, levels) < levels,
{
    let (x, y, l, s) = (a as int, b as int, levels - 1, scale as int);
    assert(0 <= x * l <= y * l) by (nonlinear_arith)
        requires
            0 <= x <= y,
            l >= 0,
    ;
    vstd::arithmetic::div_mod::lemma_div_is_ordered(x * l, y * l, s);
    assert(x * l / s >= 0) by (nonlinear_arith)
        requires
            x * l >= 0,
            s > 0,
    ;
}

proof fn no_counts(row: Seq<u64>)
    requires
        row == Seq::new(row.len(), |k: int| 0u64),
    ensures
        total(row) == 0,
    decreases row.len(),
{
    if row.len() > 0 {
        assert(row.drop_last() =~= Seq::new((row.len() - 1) as nat, |k: int| 0u64));
        no_counts(row.drop_last());
        assert(row[row.len() - 1] == 0);
    }
}

proof fn entry_below_total(row: Seq<u64>, k: int)
    requires
        0 <= k < row.len(),
    ensures
        row[k] <= total(row),
    decreases row.len(),
{
    if k < row.len() - 1 {
        entry_below_total(row.drop_last(), k);
    }
}

/// The share of a level is its count over the total of its row, so that the
/// shares of a row add up to the whole.
pub proof fn shares_of_a_row_add_up(m: MarkovChain2nd, a: int, b: int, c: int)
    requires
        m.wf(),
        0 <= a < m.levels,
        0 <= b < m.levels,
        0 <= c < m.levels,
    ensures
        m.share(a, b, c).part == m.count(a, b, c),
        m.share(a, b, c).whole == m.row_total(a, b),
        m.share(a, b, c).part <= m.share(a, b, c).whole,
        total(Seq::new(m.levels as nat, |k: int| m.share(a, b, k).part)) == m.share(a, b, c).whole,
{
    let row = m.counts@[a]@[b]@;
    assert(is_count_row(row, m.levels as nat));
    entry_below_total(row, c);
    assert(Seq::new(m.levels as nat, |k: int| m.share(a, b, k).part) =~= row);
}

/// Counting that `k` followed upon `i` and `j` raises that count by one and no
/// other. The shares of that row are its counts over its total, which is one
/// more, and add up to the whole; all other rows keep theirs. Where one of the
/// levels does not exist, every count and share stays.
pub proof fn counting_changes_one_row(
    before: MarkovChain2nd,
    after: MarkovChain2nd,
    i: int,
    j: int,
    k: int,
    a: int,
    b: int,
    c: int,
)
    requires
        before.wf(),
        after.wf(),
        0 <= i,
        0 <= j,
        0 <= k,
        0 <= a < before.levels,
        0 <= b < before.levels,
        0 <= c < before.levels,
        before.has_counted(after, i, j, k),
    ensures
        ({
            let known = i < before.levels && j < before.levels && k < before.levels;
            &&& after.levels == before.levels
            &&& known ==> after.count(i, j, k) == before.count(i, j, k) + 1
            &&& !(known && a == i && b == j && c == k) ==> after.count(a, b, c) == before.count(
                a,
                b,
                c,
            )
            &&& !(known && a == i && b == j) ==> after.share(a, b, c) == before.share(a, b, c)
            &&& known ==> after.share(i, j, c).part == after.count(i, j, c)
            &&& known ==> after.share(i, j, c).whole == before.row_total(i, j) + 1
            &&& known ==> total(Seq::new(after.levels as nat, |n: int| after.share(i, j, n).part))
                == after.share(i, j, c).whole
        }),
{
    let known = i < before.levels && j < before.levels && k < before.levels;
    if known {
        shares_of_a_row_add_up(after, i, j, c);
        assert(after.count(i, j, k) == before.count(i, j, k) + 1);
        assert(after.row_total(i, j) == before.row_total(i, j) + 1);
    }
    assert(after.count(a, b, c) == before.count(a, b, c) + if known && a == i && b == j && c == k {
        1int
    } else {
        0
    });
    assert(after.row_total(a, b) == before.row_total(a, b) + if known && a == i && b == j {
        1int
    } else {
        0
    });
}

proof fn total_after_update(row: Seq<u64>, k: int, v: u64)
    requires
        0 <= k < row.len(),
    ensures
        total(row.update(k, v)) == total(row) - row[k] + v,
    decreases row.len(),
{
    let updated = row.update(k, v);
    if k == row.len() - 1 {
        assert(updated.drop_last() =~= row.drop_last());
    } else {
        assert(updated.drop_last() =~= row.drop_last().update(k, v));
        total_after_update(row.drop_last(), k, v);
    }
}

/// Chooses among neighbouring batch sizes and worker counts.
#[derive(Debug, Clone, Copy)]
pub struct ModelPredictiveController {
    pub b_min: usize,
    pub b_max: usize,
    pub m_min: usize,
    pub m_max: usize,
}

/// The batch sizes that are compared with the current one.
pub open spec fn size_candidates(c: ModelPredictiveController, current: usize) -> Seq<usize> {
    seq![
        greater(minus(current as int, 64), c.b_min as int) as usize,
        greater(minus(current as int, 32), c.b_min as int) as usize,
        current,
        smaller(current + 32, c.b_max as int) as usize,
        smaller(current + 64, c.b_max as int) as usize,
    ]
}

/// The worker counts that are compared with the current one.
pub open spec fn worker_candidates(c: ModelPredictiveController, current: usize) -> Seq<usize> {
    seq![
        greater(minus(current as int, 2), c.m_min as int) as usize,
        current,
        smaller(current + 2, c.m_max as int) as usize,
    ]
}

/// Whether pair `i` is the first with the lowest cost. A cost of `u64::MAX` is
/// beyond all bounds.
pub open spec fn is_cheapest(costs: Seq<u64>, i: int) -> bool {
    &&& 0 <= i < costs.len()
    &&& costs[i] < u64::MAX
    &&& forall|j: int|
        0 <= j < costs.len() ==> {
            &&& costs[i] <= #[trigger] costs[j]
            &&& j < i ==> costs[i] < costs[j]
        }
}

/// Whether `r` is the cheapest of the candidates: the first of several, and the
/// current pair where every cost is beyond all bounds.
pub open spec fn is_solution(
    c: ModelPredictiveController,
    current_b: usize,
    current_m: usize,
    costs: Seq<u64>,
    r: (usize, usize),
) -> bool {
    ||| exists|i: int| #[trigger]
        is_cheapest(costs, i) && r == (
            size_candidates(c, current_b)[i / 3],
            worker_candidates(c, current_m)[i % 3],
        )
    ||| r == (current_b, current_m) && forall|j: int|
        0 <= j < costs.len() ==> #[trigger] costs[j] == u64::MAX
}

/// Whether `r` is the pair of the candidates at `x` and `y`, and no pair of
/// candidates costs less.
pub open spec fn is_best_pair(
    c: ModelPredictiveController,
    current_b: usize,
    current_m: usize,
    costs: Seq<u64>,
    r: (usize, usize),
    x: int,
    y: int,
) -> bool {
    &&& 0 <= x < SIZE_CANDIDATES
    &&& 0 <= y < WORKER_CANDIDATES
    &&& r == (size_candidates(c, current_b)[x], worker_candidates(c, current_m)[y])
    &&& forall|i: int, j: int|
        0 <= i < SIZE_CANDIDATES && 0 <= j < WORKER_CANDIDATES ==> costs[x * 3 + y]
            <= #[trigger] costs[i * 3 + j]
}

/// From a pair within the limits, with any cost within bounds, a pair of
/// candidates is chosen that no other undercuts, and it is within the limits
/// again.
pub proof fn the_best_pair_is_chosen(
    c: ModelPredictiveController,
    current_b: usize,
    current_m: usize,
    costs: Seq<u64>,
    r: (usize, usize),
    finite: int,
)
    requires
        c.b_min <= current_b <= c.b_max,
        c.m_min <= current_m <= c.m_max,
        costs.len() == SIZE_CANDIDATES * WORKER_CANDIDATES,
        0 <= finite < costs.len(),
        costs[finite] < u64::MAX,
        is_solution(c, current_b, current_m, costs, r),
    ensures
        exists|x: int, y: int| #[trigger]
            is_best_pair(c, current_b, current_m, costs, r, x, y),
        c.b_min <= r.0 <= c.b_max,
        c.m_min <= r.1 <= c.m_max,
{
    let i = choose|i: int| #[trigger]
        is_cheapest(costs, i) && r == (
            size_candidates(c, current_b)[i / 3],
            worker_candidates(c, current_m)[i % 3],
        );
    let (x, y) = (i / 3, i % 3);
    assert(x * 3 + y == i);
    assert forall|a: int, b: int|
        0 <= a < SIZE_CANDIDATES && 0 <= b < WORKER_CANDIDATES implies costs[x * 3 + y]
        <= #[trigger] costs[a * 3 + b] by {
        assert(0 <= a * 3 + b < costs.len());
    }
    assert(is_best_pair(c, current_b, current_m, costs, r, x, y));
    candidates_keep_limits(c, current_b, current_m, x);
    candidates_keep_limits(c, current_b, current_m, y);
}

impl ModelPredictiveController {
    /// Batches of 32 to 1024, one to 64 workers.
    pub fn new() -> (c: Self)
        ensures
            c == (ModelPredictiveController { b_min: 32, b_max: 1024, m_min: 1, m_max: 64 }),
    {
        ModelPredictiveController { b_min: 32, b_max: 1024, m_min: 1, m_max: 64 }
    }

    /// The batch sizes that are compared with the current one.
    pub fn b_candidates(&self, current_b: usize) -> (v: [usize; 5])
        requires
            current_b + 64 <= usize::MAX,
        ensures
            v@ == size_candidates(*self, current_b),
            v@[2] == current_b,
            current_b >= self.b_min + 64 ==> v@[0] == current_b - 64 && v@[1] == current_b - 32,
            current_b + 64 <= self.b_max ==> v@[3] == current_b + 32 && v@[4] == current_b + 64,
            forall|i: int| 0 <= i < 2 ==> #[trigger] v@[i] >= self.b_min,
            forall|i: int| 3 <= i < 5 ==> #[trigger] v@[i] <= self.b_max,
    {
        let v: [usize; 5] = [
            max_usize(current_b.saturating_sub(64), self.b_min),
            max_usize(current_b.saturating_sub(32), self.b_min),
            current_b,
            min_usize(current_b + 32, self.b_max),
            min_usize(current_b + 64, self.b_max),
        ];
        proof {
            assert(v@ =~= size_candidates(*self, current_b));
        }
        v
    }

    /// The worker counts that are compared with the current one.
    pub fn m_candidates(&self, current_m: usize) -> (v: [usize; 3])
        requires
            current_m + 2 <= usize::MAX,
        ensures
            v@ == worker_candidates(*self, current_m),
            v@[1] == current_m,
            current_m >= self.m_min + 2 ==> v@[0] == current_m - 2,
            current_m + 2 <= self.m_max ==> v@[2] == current_m + 2,
            v@[0] >= self.m_min && v@[2] <= self.m_max,
    {
        let v: [usize; 3] = [
            max_usize(current_m.saturating_sub(2), self.m_min),
            current_m,
            min_usize(current_m + 2, self.m_max),
        ];
        proof {
            assert(v@ =~= worker_candidates(*self, current_m));
        }
        v
    }

    /// The cheapest batch size and worker count. The costs come in the order
    /// of the batch sizes, and for each in the order of the worker counts.
    /// Nothing changes where every cost is beyond all bounds.
    pub fn solve(&self, current_b: usize, current_m: usize, costs: &Vec<u64>) -> (r: (usize, usize))
        requires
            current_b + 64 <= usize::MAX,
            current_m + 2 <= usize::MAX,
            costs@.len() == SIZE_CANDIDATES * WORKER_CANDIDATES,
        ensures
            is_solution(*self, current_b, current_m, costs@, r),
    {
        let sizes: [usize; 5] = self.b_candidates(current_b);
        let workers: [usize; 3] = self.m_candidates(current_m);
        let mut best: Option<usize> = None;
        let mut i: usize = 0;
        while i < costs.len()
            invariant
                i <= costs@.len(),
                match best {
                    None => forall|j: int| 0 <= j < i ==> #[trigger] costs@[j] == u64::MAX,
                    Some(b) => b < i && is_cheapest(costs@.take(i as int), b as int),
                },
            decreases costs@.len() - i,
        {
            let ghost now = costs@.take(i as int);
            let ghost next = costs@.take(i + 1);
            proof {
                assert(forall|j: int| 0 <= j < i ==> #[trigger] next[j] == now[j]);
                assert(next[i as int] == costs@[i as int]);
            }
            match best {
                None => {
                    if costs[i] < u64::MAX {
                        best = Some(i);
                    }
                },
                Some(b) => {
                    if costs[i] < costs[b] {
                        best = Some(i);
                    }
                },
            }
            i += 1;
        }
        proof {
            assert(costs@.take(i as int) =~= costs@);
        }
        match best {
            Some(b) => {
                proof {
                    assert(is_cheapest(costs@, b as int));
                }
                (sizes[b / 3], workers[b % 3])
            },
            None => (current_b, current_m),
        }
    }
}

/// From a batch size and a worker count within their limits, only such are
/// reached.
pub proof fn candidates_keep_limits(c: ModelPredictiveController, b: usize, m: usize, i: int)
    requires
        c.b_min <= b <= c.b_max,
        c.m_min <= m <= c.m_max,
    ensures
        0 <= i < 5 ==> c.b_min <= size_candidates(c, b)[i] <= c.b_max,
        0 <= i < 3 ==> c.m_min <= worker_candidates(c, m)[i] <= c.m_max,
{
}

/// The rate at which a batch was processed, a millisecond added to its time.
pub open spec fn measured_rate(batch_size: usize, processing_time: u64) -> u64 {
    smaller(
        batch_size * 1_000_000_000_000 / (processing_time + 1_000_000),
        u64::MAX as int,
    ) as u64
}

fn measure_rate(batch_size: usize, processing_time: u64) -> (r: u64)
    ensures
        r == measured_rate(batch_size, processing_time),
{
    let n: u128 = batch_size as u128 * 1_000_000_000_000 / (processing_time as u128 + 1_000_000);
    if n > u64::MAX as u128 {
        u64::MAX
    } else {
        n as u64
    }
}

/// The largest of some rates, but at least the lowest scale.
pub open spec fn is_scale(rates: Seq<u64>, scale: u64) -> bool {
    &&& scale >= MIN_SCALE
    &&& forall|i: int| 0 <= i < rates.len() ==> #[trigger] rates[i] <= scale
    &&& scale == MIN_SCALE || rates.contains(scale)
}

fn scale_of(rates: &VecDeque<u64>) -> (scale: u64)
    ensures
        is_scale(rates@, scale),
{
    let mut scale: u64 = MIN_SCALE;
    let mut i: usize = 0;
    while i < rates.len()
        invariant
            i <= rates@.len(),
            scale >= MIN_SCALE,
            forall|k: int| 0 <= k < i ==> #[trigger] rates@[k] <= scale,
            scale == MIN_SCALE || rates@.contains(scale),
        decreases rates@.len() - i,
    {
        if rates[i] > scale {
            scale = rates[i];
            proof {
                assert(rates@[i as int] == scale);
            }
        }
        i += 1;
    }
    scale
}

/// The batcher.
#[derive(Debug)]
pub struct AdaptiveBatcher {
    pub config: AdaptiveBatcherConfig,
    pub current_batch_size: usize,
    pub current_workers: usize,
    pub markov: MarkovChain2nd,
    pub mpc: ModelPredictiveController,
    /// Batch sizes with their processing times in milliseconds.
    pub measurements: VecDeque<(usize, u64)>,
    /// Milliseconds.
    pub latencies: VecDeque<u64>,
    pub lambdas: VecDeque<u64>,
    pub last_throughput: u64,
    pub last_processing_ms: u64,
    pub last_model_update: u64,
}

impl AdaptiveBatcher {
    /// What holds of every batcher.
    pub open spec fn wf(self) -> bool {
        &&& self.config.min_batch_size <= self.config.max_batch_size
        &&& self.markov.wf()
        &&& self.markov.levels == LOAD_LEVELS
        &&& self.measurements@.len() <= MEASUREMENTS
        &&& self.latencies@.len() <= MEASUREMENTS
        &&& self.lambdas@.len() <= MEASUREMENTS
    }

    /// Every row of the chain can count on.
    pub open spec fn chain_fits(self) -> bool {
        forall|a: int, b: int|
            0 <= a < LOAD_LEVELS && 0 <= b < LOAD_LEVELS ==> total(
                #[trigger] self.markov.counts@[a]@[b]@,
            ) < u64::MAX
    }

    /// Whether this is a batcher as it is made: with the initial batch size and
    /// four workers, and without any measurement.
    pub open spec fn is_new(self, config: AdaptiveBatcherConfig) -> bool {
        &&& self.config == config
        &&& self.current_batch_size == config.initial_batch_size
        &&& self.current_workers == 4
        &&& self.mpc == (ModelPredictiveController { b_min: 32, b_max: 1024, m_min: 1, m_max: 64 })
        &&& self.measurements@.len() == 0
        &&& self.latencies@.len() == 0
        &&& self.lambdas@.len() == 0
        &&& self.last_throughput == 0
        &&& self.last_processing_ms == 0
        &&& self.last_model_update == 0
        &&& forall|x: int, y: int, z: int|
            0 <= x < LOAD_LEVELS && 0 <= y < LOAD_LEVELS && 0 <= z < LOAD_LEVELS
                ==> #[trigger] self.markov.count(x, y, z) == 0
    }

    /// Starts with the initial batch size and four workers.
    pub fn new(config: AdaptiveBatcherConfig) -> (b: Self)
        requires
            config.min_batch_size <= config.max_batch_size,
        ensures
            b.wf(),
            b.is_new(config),
            b.config == config,
            b.current_batch_size == config.initial_batch_size,
            b.lambdas@.len() == 0 && b.measurements@.len() == 0,
    {
        AdaptiveBatcher {
            config,
            current_batch_size: config.initial_batch_size,
            current_workers: 4,
            markov: MarkovChain2nd::new(LOAD_LEVELS),
            mpc: ModelPredictiveController::new(),
            measurements: VecDeque::new(),
            latencies: VecDeque::new(),
            lambdas: VecDeque::new(),
            last_throughput: 0,
            last_processing_ms: 0,
            last_model_update: 0,
        }
    }

    /// Takes note of a batch. Says whether the models are to be estimated
    /// anew, which is so every minute.
    pub fn record_batch_execution(
        &mut self,
        batch_size: usize,
        processing_time: u64,
        now_secs: u64,
    ) -> (update_models: bool)
        requires
            old(self).wf(),
            old(self).chain_fits(),
        ensures
            final(self).wf(),
            has_recorded(
                *old(self),
                batch_size,
                processing_time,
                now_secs,
                update_models,
                *final(self),
            ),
            update_models <==> now_secs >= old(self).last_model_update + 60,
            final(self).last_processing_ms == processing_time as int / 1_000_000,
            final(self).lambdas@.len() > 0
                && final(self).lambdas@.last() == final(self).last_throughput,
            final(self).measurements@.len() > 0 && final(self).measurements@.last().0 == batch_size,
    {
        let ms: u64 = processing_time / MILLISECOND;
        let rate: u64 = measure_rate(batch_size, processing_time);
        remember(&mut self.measurements, (batch_size, ms), MEASUREMENTS);
        remember(&mut self.latencies, ms, MEASUREMENTS);
        remember(&mut self.lambdas, rate, MEASUREMENTS);
        self.last_throughput = rate;
        self.last_processing_ms = ms;
        let n: usize = self.lambdas.len();
        let ghost mut used: u64 = 0;
        if n >= 3 {
            let scale: u64 = scale_of(&self.lambdas);
            let x: usize = self.markov.quantize(self.lambdas[n - 3], scale);
            let y: usize = self.markov.quantize(self.lambdas[n - 2], scale);
            let z: usize = self.markov.quantize(self.lambdas[n - 1], scale);
            proof {
                assert(total(self.markov.counts@[x as int]@[y as int]@) < u64::MAX);
            }
            self.markov.update(x, y, z);
            proof {
                used = scale;
            }
        }
        let due: bool = now_secs.saturating_sub(self.last_model_update) >= MODEL_INTERVAL_SECS;
        if due {
            self.last_model_update = now_secs;
        }
        proof {
            if n >= 3 {
                assert(has_learned_rates(old(self).markov, self.lambdas@, used, self.markov));
            }
        }
        due
    }

    /// Whether there are enough measurements to estimate the processing time.
    pub fn can_estimate_model(&self) -> (r: bool)
        ensures
            r == (self.measurements@.len() >= MODEL_MEASUREMENTS),
    {
        self.measurements.len() >= MODEL_MEASUREMENTS
    }

    /// Whether there are enough latencies to estimate their extremes.
    pub fn can_estimate_extremes(&self) -> (r: bool)
        ensures
            r == (self.latencies@.len() >= EXTREME_LATENCIES),
    {
        self.latencies.len() >= EXTREME_LATENCIES
    }

    /// The rate that the chain expects next, if it is more likely than not.
    pub fn predict_load(&self) -> (r: Option<u64>)
        requires
            self.wf(),
        ensures
            self.lambdas@.len() < 3 ==> r is None,
            self.lambdas@.len() >= 3 ==> exists|scale: u64, level: usize| #[trigger]
                is_forecast(*self, scale, level, r),
    {
        let n: usize = self.lambdas.len();
        if n < 3 {
            return None;
        }
        let scale: u64 = scale_of(&self.lambdas);
        let x: usize = self.markov.quantize(self.lambdas[n - 2], scale);
        let y: usize = self.markov.quantize(self.lambdas[n - 1], scale);
        let (level, share) = self.markov.predict(x, y);
        proof {
            let row = self.markov.counts@[x as int]@[y as int]@;
            assert(is_count_row(row, LOAD_LEVELS as nat));
            assert(is_likeliest(row, LOAD_LEVELS as nat, level as int));
            assert(level < LOAD_LEVELS);
        }
        let r: Option<u64> = if share.above(1, 2) {
            Some(self.markov.dequantize(level, scale))
        } else {
            None
        };
        proof {
            assert(is_forecast(*self, scale, level, r));
        }
        r
    }

    /// The last measured rate; zero before the first batch.
    pub fn get_measured_throughput(&self) -> (r: u64)
        ensures
            r == self.last_throughput,
    {
        self.last_throughput
    }

    /// The last measured processing time in milliseconds; zero before the
    /// first batch.
    pub fn get_measured_latency(&self) -> (r: u64)
        ensures
            r == self.last_processing_ms,
    {
        self.last_processing_ms
    }

    /// A computed batch size, kept within the limits.
    pub fn optimal_batch_size(&self, computed: usize) -> (n: usize)
        requires
            self.wf(),
        ensures
            n == clamped(
                computed as int,
                self.config.min_batch_size as int,
                self.config.max_batch_size as int,
            ),
            self.config.min_batch_size <= n <= self.config.max_batch_size,
            self.config.min_batch_size <= computed <= self.config.max_batch_size ==> n == computed,
    {
        clamp_usize(computed, self.config.min_batch_size, self.config.max_batch_size)
    }

    /// The cheapest batch size and worker count next to the current ones.
    pub fn mpc_optimize(&self, costs: &Vec<u64>) -> (r: (usize, usize))
        requires
            self.current_batch_size + 64 <= usize::MAX,
            self.current_workers + 2 <= usize::MAX,
            costs@.len() == SIZE_CANDIDATES * WORKER_CANDIDATES,
        ensures
            ({
                ||| exists|i: int| #[trigger]
                    is_cheapest(costs@, i) && r == (
                        size_candidates(self.mpc, self.current_batch_size)[i / 3],
                        worker_candidates(self.mpc, self.current_workers)[i % 3],
                    )
                ||| r == (self.current_batch_size, self.current_workers) && forall|j: int|
                    0 <= j < costs@.len() ==> #[trigger] costs@[j] == u64::MAX
            }),
    {
        self.mpc.solve(self.current_batch_size, self.current_workers, costs)
    }

    /// Takes over the worker count, and keeps the batch size that was computed
    /// within the limits.
    pub fn compute_batch_size(&mut self, computed: usize, workers: usize) -> (n: usize)
        requires
            old(self).wf(),
        ensures
            final(self).wf(),
            *final(self) == (AdaptiveBatcher { current_workers: workers, ..*old(self) }),
            n == clamped(
                computed as int,
                old(self).config.min_batch_size as int,
                old(self).config.max_batch_size as int,
            ),
            old(self).config.min_batch_size <= n <= old(self).config.max_batch_size,
            old(self).config.min_batch_size <= computed <= old(self).config.max_batch_size ==> n
                == computed,
            final(self).current_workers == workers,
    {
        self.current_workers = workers;
        self.optimal_batch_size(computed)
    }

    /// The current batch size.
    pub fn get_batch_size(&self) -> (n: usize)
        ensures
            n == self.current_batch_size,
    {
        self.current_batch_size
    }
}

/// Whether `after` counts one transition more than `before`.
pub open spec fn counted_transition(
    before: MarkovChain2nd,
    x: int,
    y: int,
    z: int,
    after: MarkovChain2nd,
) -> bool {
    &&& after.levels == before.levels
    &&& forall|a: int, b: int, c: int|
        0 <= a < before.levels && 0 <= b < before.levels && 0 <= c < before.levels
            ==> #[trigger] after.count(a, b, c) == before.count(a, b, c) + if a == x && b == y
            && c == z {
            1int
        } else {
            0
        }
}

/// Whether `after` counts that the last of some rates followed upon the two
/// before it.
pub open spec fn has_learned_rates(
    before: MarkovChain2nd,
    rates: Seq<u64>,
    scale: u64,
    after: MarkovChain2nd,
) -> bool {
    let n = rates.len() as int;
    &&& is_scale(rates, scale)
    &&& counted_transition(
        before,
        level_of(rates[n - 3], scale, LOAD_LEVELS as nat),
        level_of(rates[n - 2], scale, LOAD_LEVELS as nat),
        level_of(rates[n - 1], scale, LOAD_LEVELS as nat),
        after,
    )
}

/// Whether `after` is what is known after one more batch, and whether the
/// models are to be estimated anew, which is so every minute.
pub open spec fn has_recorded(
    before: AdaptiveBatcher,
    batch_size: usize,
    processing_time: u64,
    now_secs: u64,
    update_models: bool,
    after: AdaptiveBatcher,
) -> bool {
    let ms = (processing_time / 1_000_000) as u64;
    let rate = measured_rate(batch_size, processing_time);
    &&& after.config == before.config
    &&& after.current_batch_size == before.current_batch_size
    &&& after.current_workers == before.current_workers
    &&& after.mpc == before.mpc
    &&& after.measurements@ == remembered(
        before.measurements@,
        (batch_size, ms),
        MEASUREMENTS as nat,
    )
    &&& after.latencies@ == remembered(before.latencies@, ms, MEASUREMENTS as nat)
    &&& after.lambdas@ == remembered(before.lambdas@, rate, MEASUREMENTS as nat)
    &&& after.last_throughput == rate
    &&& after.last_processing_ms == ms
    &&& update_models == (now_secs - before.last_model_update >= MODEL_INTERVAL_SECS)
    &&& after.last_model_update == if update_models {
        now_secs
    } else {
        before.last_model_update
    }
    &&& after.lambdas@.len() < 3 ==> after.markov == before.markov
    &&& after.lambdas@.len() >= 3 ==> exists|scale: u64| #[trigger]
        has_learned_rates(before.markov, after.lambdas@, scale, after.markov)
}

/// A rate lies in its level: all levels but the highest are equally wide, and
/// the highest begins where the scale ends.
pub proof fn levels_divide_the_scale(rate: u64, scale: u64, levels: nat)
    requires
        scale > 0,
        levels > 0,
    ensures
        ({
            let l = level_of(rate, scale, levels);
            &&& 0 <= l < levels
            &&& l * scale <= rate * (levels - 1)
            &&& l < levels - 1 ==> rate * (levels - 1) < (l + 1) * scale
        }),
{
    let (n, s) = (rate * (levels - 1), scale as int);
    assert(n >= 0) by (nonlinear_arith)
        requires
            n == rate * (levels - 1),
            levels > 0,
            rate >= 0,
    ;
    vstd::arithmetic::div_mod::lemma_fundamental_div_mod(n, s);
    vstd::arithmetic::div_mod::lemma_mod_bound(n, s);
    let q = n / s;
    assert(q >= 0) by (nonlinear_arith)
        requires
            q == n / s,
            n >= 0,
            s > 0,
    ;
    assert(s * q == q * s && (q + 1) * s == q * s + s) by (nonlinear_arith);
    let l = level_of(rate, scale, levels);
    assert(l * s <= q * s) by (nonlinear_arith)
        requires
            l <= q,
            s > 0,
    ;
}

/// The rate of a level is the middle of it, rounded down.
pub proof fn rates_are_middles(level: nat, scale: u64, levels: nat)
    requires
        level < levels,
    ensures
        ({
            let r = rate_of(level, scale, levels);
            &&& 0 <= r <= scale
            &&& 2 * levels * r <= (2 * level + 1) * scale
            &&& (2 * level + 1) * scale < 2 * levels * (r + 1)
        }),
{
    let (n, d) = ((2 * level + 1) * scale, 2 * levels as int);
    let r = rate_of(level, scale, levels);
    vstd::arithmetic::div_mod::lemma_fundamental_div_mod(n, d);
    vstd::arithmetic::div_mod::lemma_mod_bound(n, d);
    assert(0 <= r <= scale && d * (r + 1) == d * r + d) by (nonlinear_arith)
        requires
            r == n / d,
            n == (2 * level + 1) * scale,
            d == 2 * levels,
            0 <= level < levels,
            scale >= 0,
    ;
}

/// The rate of a batch, in thousandths of a task per second: a batch that took
/// `t` nanoseconds and a millisecond more, at that rate, has its size.
pub proof fn rates_are_measured(batch_size: usize, processing_time: u64)
    requires
        measured_rate(batch_size, processing_time) < u64::MAX,
    ensures
        ({
            let r = measured_rate(batch_size, processing_time);
            let t = processing_time + MILLISECOND;
            r * t <= batch_size * 1000 * SECOND < (r + 1) * t
        }),
{
    let (n, t) = (batch_size * 1_000_000_000_000, processing_time + 1_000_000);
    vstd::arithmetic::div_mod::lemma_fundamental_div_mod(n, t);
    vstd::arithmetic::div_mod::lemma_mod_bound(n, t);
    let q = n / t;
    assert(t * q == q * t && (q + 1) * t == q * t + t) by (nonlinear_arith);
    assert(batch_size * 1000 * SECOND == n) by (nonlinear_arith)
        requires
            n == batch_size * 1_000_000_000_000,
            SECOND == 1_000_000_000,
    ;
}

/// What a batch teaches: that the level of its rate followed upon the levels of
/// the two rates before it, and nothing else.
pub proof fn batches_teach_what_followed(
    before: AdaptiveBatcher,
    batch_size: usize,
    processing_time: u64,
    now_secs: u64,
    update_models: bool,
    after: AdaptiveBatcher,
    scale: u64,
    a: int,
    b: int,
    c: int,
)
    requires
        has_recorded(before, batch_size, processing_time, now_secs, update_models, after),
        before.wf(),
        before.lambdas@.len() >= 2,
        is_scale(after.lambdas@, scale),
        0 <= a < LOAD_LEVELS,
        0 <= b < LOAD_LEVELS,
        0 <= c < LOAD_LEVELS,
    ensures
        ({
            let n = before.lambdas@.len() as int;
            let r1 = before.lambdas@[n - 2];
            let r2 = before.lambdas@[n - 1];
            let r3 = measured_rate(batch_size, processing_time);
            let followed = a == level_of(r1, scale, LOAD_LEVELS as nat) && b == level_of(
                r2,
                scale,
                LOAD_LEVELS as nat,
            ) && c == level_of(r3, scale, LOAD_LEVELS as nat);
            &&& after.lambdas@.last() == r3
            &&& after.markov.count(a, b, c) == before.markov.count(a, b, c) + if followed {
                1int
            } else {
                0
            }
        }),
{
    let rates = after.lambdas@;
    let n = before.lambdas@.len() as int;
    assert(rates[rates.len() - 3] == before.lambdas@[n - 2]);
    assert(rates[rates.len() - 2] == before.lambdas@[n - 1]);
    let used = choose|used: u64| #[trigger]
        has_learned_rates(before.markov, rates, used, after.markov);
    scales_are_unique(rates, used, scale);
    assert(after.markov.count(a, b, c) >= before.markov.count(a, b, c));
}

proof fn scales_are_unique(rates: Seq<u64>, a: u64, b: u64)
    requires
        is_scale(rates, a),
        is_scale(rates, b),
    ensures
        a == b,
{
    if a != MIN_SCALE {
        let i = choose|i: int| 0 <= i < rates.len() && rates[i] == a;
        assert(rates[i] <= b);
    }
    if b != MIN_SCALE {
        let i = choose|i: int| 0 <= i < rates.len() && rates[i] == b;
        assert(rates[i] <= a);
    }
}

/// A forecast tells what followed: where upon the levels of the last two rates,
/// the earlier before the later, one level followed and no other, the forecast
/// is the middle of that level. Where nothing followed there is none.
pub proof fn forecasts_tell_what_followed(
    b: AdaptiveBatcher,
    scale: u64,
    level: usize,
    r: Option<u64>,
    next: int,
)
    requires
        b.wf(),
        b.lambdas@.len() >= 3,
        is_forecast(b, scale, level, r),
        0 <= next < LOAD_LEVELS,
        ({
            let n = b.lambdas@.len() as int;
            let x = level_of(b.lambdas@[n - 2], scale, LOAD_LEVELS as nat);
            let y = level_of(b.lambdas@[n - 1], scale, LOAD_LEVELS as nat);
            forall|k: int|
                0 <= k < LOAD_LEVELS && k != next ==> #[trigger] b.markov.count(x, y, k) == 0
        }),
    ensures
        ({
            let n = b.lambdas@.len() as int;
            let x = level_of(b.lambdas@[n - 2], scale, LOAD_LEVELS as nat);
            let y = level_of(b.lambdas@[n - 1], scale, LOAD_LEVELS as nat);
            r == if b.markov.count(x, y, next) > 0 {
                Some(rate_of(next as nat, scale, LOAD_LEVELS as nat) as u64)
            } else {
                None
            }
        }),
{
    let n = b.lambdas@.len() as int;
    levels_divide_the_scale(b.lambdas@[n - 2], scale, LOAD_LEVELS as nat);
    levels_divide_the_scale(b.lambdas@[n - 1], scale, LOAD_LEVELS as nat);
    let (r1, r2) = (b.lambdas@[n - 2], b.lambdas@[n - 1]);
    let x = level_of(r1, scale, LOAD_LEVELS as nat);
    let y = level_of(r2, scale, LOAD_LEVELS as nat);
    let row = b.markov.counts@[x]@[y]@;
    assert(is_count_row(row, LOAD_LEVELS as nat));
    assert forall|k: int| 0 <= k < row.len() && k != next implies #[trigger] row[k] == 0 by {
        assert(b.markov.count(x, y, k) == 0);
    }
    assert(row[next] == b.markov.count(x, y, next));
    single_entry(row, next);
}

proof fn single_entry(row: Seq<u64>, next: int)
    requires
        0 <= next < row.len(),
        forall|k: int| 0 <= k < row.len() && k != next ==> #[trigger] row[k] == 0,
    ensures
        total(row) == row[next],
    decreases row.len(),
{
    let rest = row.drop_last();
    if next == row.len() - 1 {
        assert(rest =~= Seq::new(rest.len(), |k: int| 0u64));
        no_counts(rest);
    } else {
        assert(row[row.len() - 1] == 0);
        single_entry(rest, next);
    }
}

/// What was seen to follow is forecast when it is due again: a batch with rate
/// `r3` is recorded after rates `r1` and `r2`, upon whose levels nothing else
/// has followed so far. A batcher that has learned this much, on the same
/// scale, and whose last two rates are again `r1` and `r2`, in this order,
/// forecasts the middle of the level of `r3`.
pub proof fn what_followed_is_forecast_again(
    before: AdaptiveBatcher,
    batch_size: usize,
    processing_time: u64,
    now_secs: u64,
    update_models: bool,
    after: AdaptiveBatcher,
    later: AdaptiveBatcher,
    scale: u64,
    level: usize,
    forecast: Option<u64>,
)
    requires
        before.wf(),
        before.lambdas@.len() >= 2,
        has_recorded(before, batch_size, processing_time, now_secs, update_models, after),
        is_scale(after.lambdas@, scale),
        later.wf(),
        later.markov == after.markov,
        later.lambdas@.len() >= 3,
        later.lambdas@[later.lambdas@.len() - 2] == before.lambdas@[before.lambdas@.len() - 2],
        later.lambdas@[later.lambdas@.len() - 1] == before.lambdas@[before.lambdas@.len() - 1],
        is_forecast(later, scale, level, forecast),
        ({
            let n = before.lambdas@.len() as int;
            let x = level_of(before.lambdas@[n - 2], scale, LOAD_LEVELS as nat);
            let y = level_of(before.lambdas@[n - 1], scale, LOAD_LEVELS as nat);
            let z = level_of(after.lambdas@.last(), scale, LOAD_LEVELS as nat);
            forall|k: int|
                0 <= k < LOAD_LEVELS && k != z ==> #[trigger] before.markov.count(x, y, k) == 0
        }),
    ensures
        after.lambdas@.last() == measured_rate(batch_size, processing_time),
        forecast == Some(
            rate_of(
                level_of(
                    measured_rate(batch_size, processing_time),
                    scale,
                    LOAD_LEVELS as nat,
                ) as nat,
                scale,
                LOAD_LEVELS as nat,
            ) as u64,
        ),
{
    let n = before.lambdas@.len() as int;
    let (r1, r2) = (before.lambdas@[n - 2], before.lambdas@[n - 1]);
    let r3 = measured_rate(batch_size, processing_time);
    levels_divide_the_scale(r1, scale, LOAD_LEVELS as nat);
    levels_divide_the_scale(r2, scale, LOAD_LEVELS as nat);
    levels_divide_the_scale(r3, scale, LOAD_LEVELS as nat);
    let x = level_of(r1, scale, LOAD_LEVELS as nat);
    let y = level_of(r2, scale, LOAD_LEVELS as nat);
    let z = level_of(r3, scale, LOAD_LEVELS as nat);
    assert forall|k: int| 0 <= k < LOAD_LEVELS && k != z implies #[trigger] later.markov.count(
        x,
        y,
        k,
    ) == 0 by {
        batches_teach_what_followed(
            before,
            batch_size,
            processing_time,
            now_secs,
            update_models,
            after,
            scale,
            x,
            y,
            k,
        );
        assert(before.markov.count(x, y, k) == 0);
    }
    batches_teach_what_followed(
        before,
        batch_size,
        processing_time,
        now_secs,
        update_models,
        after,
        scale,
        x,
        y,
        z,
    );
    forecasts_tell_what_followed(later, scale, level, forecast, z);
}

/// Whether `after` is what is known after a batch of a given rate.
pub open spec fn has_recorded_rate(
    before: AdaptiveBatcher,
    rate: u64,
    after: AdaptiveBatcher,
) -> bool {
    exists|batch_size: usize, processing_time: u64, now_secs: u64, update_models: bool| #[trigger]
        has_recorded(before, batch_size, processing_time, now_secs, update_models, after)
            && measured_rate(batch_size, processing_time) == rate
}

/// Two rates by turns.
pub open spec fn turn(even: u64, odd: u64, i: int) -> u64 {
    if i % 2 == 0 {
        even
    } else {
        odd
    }
}

/// Rates that alternate are forecast to go on alternating: a new batcher that
/// records four or more batches, whose rates are by turns `even` and `odd`,
/// forecasts the middle of the level of the rate whose turn is next.
pub proof fn alternating_rates_are_forecast(
    states: Seq<AdaptiveBatcher>,
    config: AdaptiveBatcherConfig,
    even: u64,
    odd: u64,
    scale: u64,
    level: usize,
    forecast: Option<u64>,
)
    requires
        states.len() >= 5,
        states[0].is_new(config),
        forall|i: int| 0 <= i < states.len() ==> (#[trigger] states[i]).wf(),
        forall|i: int|
            0 <= i < states.len() - 1 ==> has_recorded_rate(
                states[i],
                #[trigger] turn(even, odd, i),
                states[i + 1],
            ),
        is_forecast(states.last(), scale, level, forecast),
    ensures
        forecast == Some(
            rate_of(
                level_of(turn(even, odd, states.len() - 1), scale, LOAD_LEVELS as nat) as nat,
                scale,
                LOAD_LEVELS as nat,
            ) as u64,
        ),
{
    let n = states.len() - 1;
    let last = states.last();
    let top = highest(even, odd);
    let e = level_of(even, top, LOAD_LEVELS as nat);
    let o = level_of(odd, top, LOAD_LEVELS as nat);
    turns_are_learned(states, config, even, odd, n);
    turns_give_the_scale(last.lambdas@, even, odd, n);
    scales_are_unique(last.lambdas@, scale, top);
    levels_divide_the_scale(even, scale, LOAD_LEVELS as nat);
    levels_divide_the_scale(odd, scale, LOAD_LEVELS as nat);
    let len = last.lambdas@.len() as int;
    assert(len >= 3 && last.lambdas@[len - 1] == turn(even, odd, n - 1) && last.lambdas@[len - 2]
        == turn(even, odd, n - 2)) by {
        reveal(turns_are_kept);
    }
    let next = if n % 2 == 0 {
        e
    } else {
        o
    };
    let x = if n % 2 == 0 {
        e
    } else {
        o
    };
    let y = if n % 2 == 0 {
        o
    } else {
        e
    };
    assert(last.markov.count(x, y, next) > 0 && forall|k: int|
        0 <= k < LOAD_LEVELS && k != next ==> #[trigger] last.markov.count(x, y, k) == 0) by {
        reveal(turns_are_counted);
    }
    forecasts_tell_what_followed(last, scale, level, forecast, next);
}

spec fn highest(even: u64, odd: u64) -> u64 {
    greater(greater(even as int, odd as int), MIN_SCALE as int) as u64
}

/// Whether the history of `i` rates by turns holds the newest of them.
#[verifier::opaque]
spec fn turns_are_kept(rates: Seq<u64>, even: u64, odd: u64, i: int) -> bool {
    &&& rates.len() == smaller(i, MEASUREMENTS as int)
    &&& forall|k: int|
        0 <= k < rates.len() ==> #[trigger] rates[k] == turn(even, odd, i - rates.len() + k)
}

/// Whether a chain knows nothing but what `i` rates of two levels by turns have
/// taught it.
#[verifier::opaque]
spec fn turns_are_counted(m: MarkovChain2nd, e: int, o: int, i: int) -> bool {
    &&& forall|x: int, y: int, z: int|
        0 <= x < LOAD_LEVELS && 0 <= y < LOAD_LEVELS && 0 <= z < LOAD_LEVELS && !((x == e && y == o
            && z == e) || (x == o && y == e && z == o)) ==> #[trigger] m.count(x, y, z) == 0
    &&& i >= 3 ==> m.count(e, o, e) > 0
    &&& i >= 4 ==> m.count(o, e, o) > 0
}

proof fn turns_go_on(rates: Seq<u64>, even: u64, odd: u64, i: int)
    requires
        i >= 0,
        turns_are_kept(rates, even, odd, i),
    ensures
        turns_are_kept(
            remembered(rates, turn(even, odd, i), MEASUREMENTS as nat),
            even,
            odd,
            i + 1,
        ),
{
    reveal(turns_are_kept);
}

proof fn turns_give_the_scale(rates: Seq<u64>, even: u64, odd: u64, i: int)
    requires
        i >= 2,
        turns_are_kept(rates, even, odd, i),
    ensures
        is_scale(rates, highest(even, odd)),
{
    reveal(turns_are_kept);
    let len = rates.len() as int;
    assert(rates[len - 1] == turn(even, odd, i - 1));
    assert(rates[len - 2] == turn(even, odd, i - 2));
    assert(rates.contains(even) && rates.contains(odd));
}

proof fn turns_are_learned(
    states: Seq<AdaptiveBatcher>,
    config: AdaptiveBatcherConfig,
    even: u64,
    odd: u64,
    i: int,
)
    requires
        0 <= i < states.len(),
        states[0].is_new(config),
        forall|k: int| 0 <= k < states.len() ==> (#[trigger] states[k]).wf(),
        forall|k: int|
            0 <= k < states.len() - 1 ==> has_recorded_rate(
                states[k],
                #[trigger] turn(even, odd, k),
                states[k + 1],
            ),
    ensures
        turns_are_kept(states[i].lambdas@, even, odd, i),
        turns_are_counted(
            states[i].markov,
            level_of(even, highest(even, odd), LOAD_LEVELS as nat),
            level_of(odd, highest(even, odd), LOAD_LEVELS as nat),
            i,
        ),
    decreases i,
{
    if i == 0 {
        reveal(turns_are_kept);
        reveal(turns_are_counted);
    } else {
        turns_are_learned(states, config, even, odd, i - 1);
        assert(has_recorded_rate(states[i - 1], turn(even, odd, i - 1), states[i - 1 + 1]));
        turn_is_learned(states[i - 1], states[i], even, odd, i - 1);
    }
}

proof fn turn_is_learned(
    before: AdaptiveBatcher,
    after: AdaptiveBatcher,
    even: u64,
    odd: u64,
    i: int,
)
    requires
        i >= 0,
        before.wf(),
        has_recorded_rate(before, turn(even, odd, i), after),
        turns_are_kept(before.lambdas@, even, odd, i),
        turns_are_counted(
            before.markov,
            level_of(even, highest(even, odd), LOAD_LEVELS as nat),
            level_of(odd, highest(even, odd), LOAD_LEVELS as nat),
            i,
        ),
    ensures
        turns_are_kept(after.lambdas@, even, odd, i + 1),
        turns_are_counted(
            after.markov,
            level_of(even, highest(even, odd), LOAD_LEVELS as nat),
            level_of(odd, highest(even, odd), LOAD_LEVELS as nat),
            i + 1,
        ),
{
    let top = highest(even, odd);
    let e = level_of(even, top, LOAD_LEVELS as nat);
    let o = level_of(odd, top, LOAD_LEVELS as nat);
    let rate = turn(even, odd, i);
    let (size, time, secs, due) = choose|
        batch_size: usize,
        processing_time: u64,
        now_secs: u64,
        update_models: bool,
    | #[trigger]
        has_recorded(before, batch_size, processing_time, now_secs, update_models, after)
            && measured_rate(batch_size, processing_time) == rate;
    turns_go_on(before.lambdas@, even, odd, i);
    let m = before.lambdas@.len() as int;
    assert(m == smaller(i, MEASUREMENTS as int)) by {
        reveal(turns_are_kept);
    }
    if i >= 2 {
        turns_give_the_scale(after.lambdas@, even, odd, i + 1);
        assert(before.lambdas@[m - 1] == turn(even, odd, i - 1) && before.lambdas@[m - 2] == turn(
            even,
            odd,
            i - 2,
        )) by {
            reveal(turns_are_kept);
        }
        turn_is_counted(before, size, time, secs, due, after, even, odd, i);
    } else {
        assert(after.markov == before.markov);
        reveal(turns_are_counted);
    }
}

#[verifier::spinoff_prover]
proof fn turn_is_counted(
    before: AdaptiveBatcher,
    size: usize,
    time: u64,
    secs: u64,
    due: bool,
    after: AdaptiveBatcher,
    even: u64,
    odd: u64,
    i: int,
)
    requires
        i >= 2,
        before.wf(),
        has_recorded(before, size, time, secs, due, after),
        measured_rate(size, time) == turn(even, odd, i),
        before.lambdas@.len() >= 2,
        before.lambdas@[before.lambdas@.len() - 1] == turn(even, odd, i - 1),
        before.lambdas@[before.lambdas@.len() - 2] == turn(even, odd, i - 2),
        is_scale(after.lambdas@, highest(even, odd)),
        turns_are_counted(
            before.markov,
            level_of(even, highest(even, odd), LOAD_LEVELS as nat),
            level_of(odd, highest(even, odd), LOAD_LEVELS as nat),
            i,
        ),
    ensures
        turns_are_counted(
            after.markov,
            level_of(even, highest(even, odd), LOAD_LEVELS as nat),
            level_of(odd, highest(even, odd), LOAD_LEVELS as nat),
            i + 1,
        ),
{
    let top = highest(even, odd);
    let e = level_of(even, top, LOAD_LEVELS as nat);
    let o = level_of(odd, top, LOAD_LEVELS as nat);
    levels_divide_the_scale(even, top, LOAD_LEVELS as nat);
    levels_divide_the_scale(odd, top, LOAD_LEVELS as nat);
    let (x1, y1, z1) = if i % 2 == 0 {
        (e, o, e)
    } else {
        (o, e, o)
    };
    assert forall|x: int, y: int, z: int|
        0 <= x < LOAD_LEVELS && 0 <= y < LOAD_LEVELS && 0 <= z < LOAD_LEVELS implies (
    #[trigger] after.markov.count(x, y, z)) == before.markov.count(x, y, z) + if x == x1 && y == y1
        && z == z1 {
        1int
    } else {
        0
    } by {
        batches_teach_what_followed(before, size, time, secs, due, after, top, x, y, z);
    }
    turns_count_on(before.markov, after.markov, e, o, i);
}

proof fn turns_count_on(before: MarkovChain2nd, after: MarkovChain2nd, e: int, o: int, i: int)
    requires
        i >= 2,
        0 <= e < LOAD_LEVELS,
        0 <= o < LOAD_LEVELS,
        turns_are_counted(before, e, o, i),
        forall|x: int, y: int, z: int|
            0 <= x < LOAD_LEVELS && 0 <= y < LOAD_LEVELS && 0 <= z < LOAD_LEVELS ==> (
            #[trigger] after.count(x, y, z)) == before.count(x, y, z) + if x == (if i % 2 == 0 {
                e
            } else {
                o
            }) && y == (if i % 2 == 0 {
                o
            } else {
                e
            }) && z == (if i % 2 == 0 {
                e
            } else {
                o
            }) {
                1int
            } else {
                0
            },
    ensures
        turns_are_counted(after, e, o, i + 1),
{
    reveal(turns_are_counted);
    assert(after.count(e, o, e) >= before.count(e, o, e));
    assert(after.count(o, e, o) >= before.count(o, e, o));
}

/// Whether `r` is the rate that the chain expects next: the middle of the
/// level that most often followed upon the last two, if it did so more often
/// than not.
pub open spec fn is_forecast(b: AdaptiveBatcher, scale: u64, level: usize, r: Option<u64>) -> bool {
    let n = b.lambdas@.len() as int;
    let x = level_of(b.lambdas@[n - 2], scale, LOAD_LEVELS as nat);
    let y = level_of(b.lambdas@[n - 1], scale, LOAD_LEVELS as nat);
    let row = b.markov.counts@[x]@[y]@;
    &&& is_scale(b.lambdas@, scale)
    &&& is_likeliest(row, LOAD_LEVELS as nat, level as int)
    &&& r == if total(row) > 0 && row[level as int] * 2 > total(row) {
        Some(rate_of(level as nat, scale, LOAD_LEVELS as nat) as u64)
    } else {
        None
    }
}

} // verus!
