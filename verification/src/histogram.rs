//! How often each value was seen.

use vstd::prelude::*;

use crate::dash::{
    NumberedMap, lists, numbered_entries, numbered_get, numbered_insert, numbered_list,
    numbered_new,
};
use crate::history::{percentile_in_range, percentile_index};

verus! {

/// How many values a list of values with counts stands for.
pub open spec fn weight(entries: Seq<(u64, u64)>) -> nat
    decreases entries.len(),
{
    if entries.len() == 0 {
        0
    } else {
        weight(entries.drop_last()) + entries.last().1 as nat
    }
}

/// How many of those values are at most `bound`.
pub open spec fn weight_up_to(entries: Seq<(u64, u64)>, bound: int) -> nat
    decreases entries.len(),
{
    if entries.len() == 0 {
        0
    } else if entries.last().0 <= bound {
        weight_up_to(entries.drop_last(), bound) + entries.last().1 as nat
    } else {
        weight_up_to(entries.drop_last(), bound)
    }
}

/// Whether `x` is the value at a percentile: the one at the percentile's
/// position once all values are sorted. Zero where there are no values.
pub open spec fn is_weighted_percentile(entries: Seq<(u64, u64)>, percent: nat, x: u64) -> bool {
    let k = percentile_index(weight(entries), percent);
    if weight(entries) == 0 {
        x == 0
    } else {
        weight_up_to(entries, x - 1) <= k < weight_up_to(entries, x as int)
    }
}

/// There is only one value at a percentile.
pub proof fn percentiles_are_unique(entries: Seq<(u64, u64)>, percent: nat, x: u64, y: u64)
    requires
        is_weighted_percentile(entries, percent, x),
        is_weighted_percentile(entries, percent, y),
    ensures
        x == y,
{
    if weight(entries) > 0 {
        if x < y {
            weight_grows(entries, x as int, y - 1);
        }
        if y < x {
            weight_grows(entries, y as int, x - 1);
        }
    }
}

proof fn weight_grows(entries: Seq<(u64, u64)>, a: int, b: int)
    requires
        a <= b,
    ensures
        weight_up_to(entries, a) <= weight_up_to(entries, b),
    decreases entries.len(),
{
    if entries.len() > 0 {
        weight_grows(entries.drop_last(), a, b);
    }
}

/// No value lies above `a` and at most at `b`.
proof fn weight_same(entries: Seq<(u64, u64)>, a: int, b: int)
    requires
        a <= b,
        forall|i: int| 0 <= i < entries.len() ==> !(a < (#[trigger] entries[i]).0 <= b),
    ensures
        weight_up_to(entries, a) == weight_up_to(entries, b),
    decreases entries.len(),
{
    if entries.len() > 0 {
        let last = entries[entries.len() - 1];
        assert forall|i: int| 0 <= i < entries.drop_last().len() implies !(a < (
        #[trigger] entries.drop_last()[i]).0 <= b) by {
            assert(entries[i] == entries.drop_last()[i]);
        }
        weight_same(entries.drop_last(), a, b);
    }
}

/// The weight up to a value is that up to the one before, and the counts of
/// the value itself.
proof fn weight_step(entries: Seq<(u64, u64)>, m: int, x: int)
    requires
        0 <= m < entries.len(),
        entries[m].0 == x,
        forall|i: int, j: int|
            0 <= i < j < entries.len() ==> (#[trigger] entries[i]).0 != (#[trigger] entries[j]).0,
    ensures
        weight_up_to(entries, x) == weight_up_to(entries, x - 1) + entries[m].1,
    decreases entries.len(),
{
    let rest = entries.drop_last();
    assert forall|i: int, j: int| 0 <= i < j < rest.len() implies (#[trigger] rest[i]).0 != (
    #[trigger] rest[j]).0 by {
        assert(rest[i] == entries[i] && rest[j] == entries[j]);
    }
    if m == entries.len() - 1 {
        assert forall|i: int| 0 <= i < rest.len() implies !(x - 1 < (#[trigger] rest[i]).0
            <= x) by {
            assert(rest[i] == entries[i]);
            assert(entries[i].0 != entries[m].0);
        }
        weight_same(rest, x - 1, x);
    } else {
        assert(rest[m] == entries[m]);
        weight_step(rest, m, x);
        assert(entries[m].0 != entries[entries.len() - 1].0);
    }
}

proof fn weight_complete(entries: Seq<(u64, u64)>, bound: int)
    requires
        forall|i: int| 0 <= i < entries.len() ==> (#[trigger] entries[i]).0 <= bound,
    ensures
        weight_up_to(entries, bound) == weight(entries),
    decreases entries.len(),
{
    if entries.len() > 0 {
        let last = entries[entries.len() - 1];
        assert forall|i: int| 0 <= i < entries.drop_last().len() implies (
        #[trigger] entries.drop_last()[i]).0 <= bound by {
            assert(entries[i] == entries.drop_last()[i]);
        }
        weight_complete(entries.drop_last(), bound);
    }
}

proof fn weight_empty(entries: Seq<(u64, u64)>)
    ensures
        weight_up_to(entries, -1) == 0,
    decreases entries.len(),
{
    if entries.len() > 0 {
        weight_empty(entries.drop_last());
    }
}

proof fn weight_bounded(entries: Seq<(u64, u64)>)
    ensures
        weight(entries) <= entries.len() * 0xffff_ffff_ffff_ffff,
    decreases entries.len(),
{
    if entries.len() > 0 {
        weight_bounded(entries.drop_last());
        let n = entries.len() as int;
        assert((n - 1) * 0xffff_ffff_ffff_ffff + 0xffff_ffff_ffff_ffff == n
            * 0xffff_ffff_ffff_ffff) by (nonlinear_arith);
    }
}

fn total_weight(entries: &Vec<(u64, u64)>) -> (n: u128)
    ensures
        n == weight(entries@),
{
    let mut n: u128 = 0;
    let mut i: usize = 0;
    while i < entries.len()
        invariant
            i <= entries@.len(),
            n == weight(entries@.take(i as int)),
        decreases entries@.len() - i,
    {
        proof {
            assert(entries@.take(i + 1).drop_last() =~= entries@.take(i as int));
            weight_bounded(entries@.take(i + 1));
            assert((i + 1) * 0xffff_ffff_ffff_ffff <= 0x1_0000_0000_0000_0000
                * 0xffff_ffff_ffff_ffff) by (nonlinear_arith)
                requires
                    i + 1 <= 0x1_0000_0000_0000_0000,
            ;
        }
        n = n + entries[i].1 as u128;
        i += 1;
    }
    proof {
        assert(entries@.take(i as int) =~= entries@);
    }
    n
}

/// The position of the smallest value that is at least `bound`.
fn next_value(entries: &Vec<(u64, u64)>, bound: u64) -> (r: Option<usize>)
    ensures
        match r {
            Some(m) => {
                &&& m < entries@.len()
                &&& entries@[m as int].0 >= bound
                &&& forall|i: int|
                    0 <= i < entries@.len() && (#[trigger] entries@[i]).0 >= bound ==> entries@[i].0
                        >= entries@[m as int].0
            },
            None => forall|i: int| 0 <= i < entries@.len() ==> (#[trigger] entries@[i]).0 < bound,
        },
{
    let mut best: Option<usize> = None;
    let mut i: usize = 0;
    while i < entries.len()
        invariant
            i <= entries@.len(),
            match best {
                Some(m) => {
                    &&& m < i
                    &&& entries@[m as int].0 >= bound
                    &&& forall|k: int|
                        0 <= k < i && (#[trigger] entries@[k]).0 >= bound ==> entries@[k].0
                            >= entries@[m as int].0
                },
                None => forall|k: int| 0 <= k < i ==> (#[trigger] entries@[k]).0 < bound,
            },
        decreases entries@.len() - i,
    {
        if entries[i].0 >= bound {
            match best {
                Some(m) => {
                    if entries[i].0 < entries[m].0 {
                        best = Some(i);
                    }
                },
                None => {
                    best = Some(i);
                },
            }
        }
        i += 1;
    }
    best
}

/// The value at a percentile of a list of values with counts.
pub fn weighted_percentile(entries: &Vec<(u64, u64)>, percent: u64) -> (x: u64)
    requires
        percent < 100,
        forall|i: int, j: int|
            0 <= i < j < entries@.len()
                ==> (#[trigger] entries@[i]).0 != (#[trigger] entries@[j]).0,
    ensures
        is_weighted_percentile(entries@, percent as nat, x),
{
    let total: u128 = total_weight(entries);
    if total == 0 {
        return 0;
    }
    proof {
        percentile_in_range(total as nat, percent as nat);
        let t = total as int;
        let p = percent as int;
        split_percentile(t, p);
        assert((t / 100) * p <= t) by (nonlinear_arith)
            requires
                t >= 0,
                0 <= p < 100,
        ;
        assert((t % 100) * p < 10000) by (nonlinear_arith)
            requires
                0 <= p < 100,
        ;
    }
    let k: u128 = (total / 100) * percent as u128 + (total % 100) * percent as u128 / 100;
    let mut bound: u64 = 0;
    let mut seen: u128 = 0;
    proof {
        weight_empty(entries@);
    }
    loop
        invariant
            total == weight(entries@),
            k == percentile_index(weight(entries@), percent as nat),
            k < total,
            total > 0,
            seen == weight_up_to(entries@, bound - 1),
            seen <= k,
            forall|i: int, j: int|
                0 <= i < j < entries@.len() ==> (#[trigger] entries@[i]).0 != (
                #[trigger] entries@[j]).0,
        decreases u64::MAX - bound,
    {
        match next_value(entries, bound) {
            Some(m) => {
                let x: u64 = entries[m].0;
                proof {
                    assert forall|i: int| 0 <= i < entries@.len() implies !(bound - 1 < (
                    #[trigger] entries@[i]).0 <= x - 1) by {}
                    weight_same(entries@, bound - 1, x - 1);
                    weight_step(entries@, m as int, x as int);
                    weight_grows(entries@, x as int, u64::MAX as int);
                    weight_complete(entries@, u64::MAX as int);
                }
                if seen + entries[m].1 as u128 > k {
                    return x;
                }
                seen = seen + entries[m].1 as u128;
                proof {
                    if x == u64::MAX {
                        assert(seen == weight(entries@));
                        assert(false);
                    }
                }
                bound = x + 1;
            },
            None => {
                proof {
                    weight_complete(entries@, bound - 1);
                    assert(false);
                }
                return 0;
            },
        }
    }
}

proof fn split_percentile(t: int, p: int)
    requires
        t >= 0,
        0 <= p < 100,
    ensures
        t * p / 100 == (t / 100) * p + (t % 100) * p / 100,
{
    let a = t / 100;
    let b = t % 100;
    assert(t * p == 100 * (a * p) + b * p) by (nonlinear_arith)
        requires
            t == 100 * a + b,
    ;
    assert(b * p >= 0) by (nonlinear_arith)
        requires
            b >= 0,
            p >= 0,
    ;
}

/// How often each value was seen.
pub struct Histogram {
    counts: NumberedMap,
}

impl View for Histogram {
    type V = Map<u64, u64>;

    closed spec fn view(&self) -> Map<u64, u64> {
        numbered_entries(self.counts)
    }
}

/// A histogram with one more value. Counts wrap around at the end of the
/// range.
pub open spec fn seen_once_more(counts: Map<u64, u64>, value: u64) -> Map<u64, u64> {
    counts.insert(
        value,
        if counts.contains_key(value) {
            ((counts[value] + 1) % 0x1_0000_0000_0000_0000) as u64
        } else {
            1
        },
    )
}

/// Whether `x` is the value at a percentile of a histogram, in whatever order
/// its entries are listed.
pub open spec fn is_histogram_percentile(counts: Map<u64, u64>, percent: nat, x: u64) -> bool {
    exists|entries: Seq<(u64, u64)>| #[trigger]
        lists(entries, counts) && is_weighted_percentile(entries, percent, x)
}

proof fn weight_without(entries: Seq<(u64, u64)>, j: int, bound: int)
    requires
        0 <= j < entries.len(),
    ensures
        weight_up_to(entries, bound) == weight_up_to(entries.remove(j), bound) + if entries[j].0
            <= bound {
            entries[j].1 as nat
        } else {
            0
        },
    decreases entries.len(),
{
    if j == entries.len() - 1 {
        assert(entries.remove(j) =~= entries.drop_last());
    } else {
        weight_without(entries.drop_last(), j, bound);
        assert(entries.remove(j).drop_last() =~= entries.drop_last().remove(j));
        assert(entries.remove(j).last() == entries.last());
    }
}

proof fn listing_without(entries: Seq<(u64, u64)>, map: Map<u64, u64>, j: int)
    requires
        lists(entries, map),
        0 <= j < entries.len(),
    ensures
        lists(entries.remove(j), map.remove(entries[j].0)),
{
    let rest = entries.remove(j);
    let less = map.remove(entries[j].0);
    assert forall|i: int| 0 <= i < rest.len() implies less.contains_key((#[trigger] rest[i]).0)
        && less[rest[i].0] == rest[i].1 by {
        let k = if i < j {
            i
        } else {
            i + 1
        };
        assert(rest[i] == entries[k]);
        assert(entries[k].0 != entries[j].0);
    }
    assert forall|i: int, k: int| 0 <= i < k < rest.len() implies (#[trigger] rest[i]).0 != (
    #[trigger] rest[k]).0 by {
        let i2 = if i < j {
            i
        } else {
            i + 1
        };
        let k2 = if k < j {
            k
        } else {
            k + 1
        };
        assert(entries[i2].0 != entries[k2].0);
    }
    assert forall|key: u64| #[trigger] less.contains_key(key) implies exists|i: int|
        0 <= i < rest.len() && (#[trigger] rest[i]).0 == key by {
        assert(map.contains_key(key));
        let i = choose|i: int| 0 <= i < entries.len() && (#[trigger] entries[i]).0 == key;
        let k = if i < j {
            i
        } else {
            i - 1
        };
        assert(rest[k].0 == key);
    }
}

proof fn listings_weigh_the_same(
    a: Seq<(u64, u64)>,
    b: Seq<(u64, u64)>,
    map: Map<u64, u64>,
    bound: int,
)
    requires
        lists(a, map),
        lists(b, map),
    ensures
        weight_up_to(a, bound) == weight_up_to(b, bound),
    decreases a.len(),
{
    if a.len() == 0 {
        if b.len() > 0 {
            assert(map.contains_key(b[0].0));
            assert(false);
        }
    } else {
        let k = a.len() - 1;
        assert(map.contains_key(a[k].0));
        let j = choose|j: int| 0 <= j < b.len() && (#[trigger] b[j]).0 == a[k].0;
        listing_without(a, map, k);
        listing_without(b, map, j);
        listings_weigh_the_same(a.remove(k), b.remove(j), map.remove(a[k].0), bound);
        weight_without(a, k, bound);
        weight_without(b, j, bound);
    }
}

/// A histogram has one value at a percentile: the order in which its entries
/// are listed does not matter.
pub proof fn histogram_percentiles_are_unique(
    counts: Map<u64, u64>,
    percent: nat,
    x: u64,
    y: u64,
)
    requires
        is_histogram_percentile(counts, percent, x),
        is_histogram_percentile(counts, percent, y),
    ensures
        x == y,
{
    let a = choose|entries: Seq<(u64, u64)>| #[trigger]
        lists(entries, counts) && is_weighted_percentile(entries, percent, x);
    let b = choose|entries: Seq<(u64, u64)>| #[trigger]
        lists(entries, counts) && is_weighted_percentile(entries, percent, y);
    listings_weigh_the_same(a, b, counts, y - 1);
    listings_weigh_the_same(a, b, counts, y as int);
    listings_weigh_the_same(a, b, counts, u64::MAX as int);
    weight_complete(a, u64::MAX as int);
    weight_complete(b, u64::MAX as int);
    percentiles_are_unique(a, percent, x, y);
}

impl Histogram {
    /// Nothing seen.
    pub fn new() -> (h: Self)
        ensures
            h@ == Map::<u64, u64>::empty(),
    {
        let h: Histogram = Histogram { counts: numbered_new() };
        proof {
            assert(h@ =~= Map::<u64, u64>::empty());
        }
        h
    }

    /// Takes note of a value.
    pub fn note(&mut self, value: u64)
        ensures
            final(self)@ == seen_once_more(old(self)@, value),
            final(self)@.dom() == old(self)@.dom().insert(value),
            !old(self)@.contains_key(value) ==> final(self)@[value] == 1,
            old(self)@.contains_key(value) && old(self)@[value] < u64::MAX ==> final(self)@[value]
                == old(self)@[value] + 1,
            forall|other: u64|
                other != value && old(self)@.contains_key(other)
                    ==> (#[trigger] final(self)@[other])
                    == old(self)@[other],
    {
        let count: u64 = match numbered_get(&self.counts, value) {
            Some(n) => n.wrapping_add(1),
            None => 1,
        };
        numbered_insert(&mut self.counts, value, count);
    }

    /// The value at a percentile, zero where nothing was seen.
    pub fn percentile(&self, percent: u64) -> (x: u64)
        requires
            percent < 100,
        ensures
            is_histogram_percentile(self@, percent as nat, x),
    {
        let entries: Vec<(u64, u64)> = numbered_list(&self.counts);
        weighted_percentile(&entries, percent)
    }
}

/// The weight of a list of values with their counts adds up all counts, and the
/// weight up to a bound those of the values that do not exceed it.
pub proof fn weights_add_up(entries: Seq<(u64, u64)>, bound: int)
    ensures
        weight(entries) == entries.fold_left(0nat, |n: nat, e: (u64, u64)| n + e.1 as nat),
        weight_up_to(entries, bound) == entries.filter(|e: (u64, u64)| e.0 <= bound).fold_left(
            0nat,
            |n: nat, e: (u64, u64)| n + e.1 as nat,
        ),
    decreases entries.len(),
{
    reveal(Seq::filter);
    reveal_with_fuel(Seq::fold_left, 2);
    if entries.len() > 0 {
        weights_add_up(entries.drop_last(), bound);
        let small = |e: (u64, u64)| e.0 <= bound;
        let rest = entries.drop_last().filter(small);
        if small(entries.last()) {
            assert(entries.filter(small) == rest.push(entries.last()));
            assert(rest.push(entries.last()).drop_last() =~= rest);
        }
    }
}

/// A percentile of counted values: those below it count for no more than that
/// part of all, and those up to it for more.
pub proof fn counts_split_at_the_percentile(entries: Seq<(u64, u64)>, percent: nat, x: u64)
    requires
        is_weighted_percentile(entries, percent, x),
        weight(entries) > 0,
    ensures
        100 * weight_up_to(entries, x - 1) <= percent * weight(entries),
        percent * weight(entries) < 100 * weight_up_to(entries, x as int),
{
    let (w, k) = (weight(entries) as int, percentile_index(weight(entries), percent) as int);
    assert(w * percent == percent * w) by (nonlinear_arith);
    assert(k == percent * w / 100);
}

} // verus!
