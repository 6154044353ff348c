//! Bounded histories: the newest entries of a stream, oldest first.

use std::collections::VecDeque;
use vstd::prelude::*;
use vstd::std_specs::vecdeque::*;

verus! {

/// A history with one more entry. Above `capacity` the oldest entry leaves.
pub open spec fn remembered<T>(history: Seq<T>, entry: T, capacity: nat) -> Seq<T> {
    let longer = history.push(entry);
    if longer.len() > capacity {
        longer.skip(1)
    } else {
        longer
    }
}

/// The newest `limit` entries, oldest first.
pub open spec fn newest<T>(history: Seq<T>, limit: nat) -> Seq<T> {
    if history.len() <= limit {
        history
    } else {
        history.skip(history.len() - limit)
    }
}

/// Adds an entry; above `capacity` the oldest entry leaves.
pub fn remember<T>(history: &mut VecDeque<T>, entry: T, capacity: usize)
    ensures
        final(history)@ == remembered(old(history)@, entry, capacity as nat),
        old(history)@.len() <= capacity ==> final(history)@.len() <= capacity,
        old(history)@.len() < capacity ==> final(history)@ == old(history)@.push(entry),
        old(history)@.len() >= capacity ==> final(history)@ == old(history)@.push(entry).skip(1),
{
    history.push_back(entry);
    if history.len() > capacity {
        let _ = history.pop_front();
        proof {
            assert(history@ =~= old(history)@.push(entry).skip(1));
        }
    }
}

/// Adding an entry to a history within its bound keeps it within the bound,
/// and what it then holds are the newest entries.
pub proof fn histories_stay_bounded<T>(history: Seq<T>, entry: T, capacity: nat)
    requires
        history.len() <= capacity,
    ensures
        remembered(history, entry, capacity).len() <= capacity,
        remembered(history, entry, capacity) == newest(history.push(entry), capacity),
        capacity > 0 ==> remembered(history, entry, capacity).last() == entry,
{
}

/// The position of a percentile in a sorted list.
pub open spec fn percentile_index(len: nat, percent: nat) -> nat {
    len * percent / 100
}

/// A percentile below the hundredth is a position in the list.
pub proof fn percentile_in_range(len: nat, percent: nat)
    requires
        len > 0,
        percent < 100,
    ensures
        percentile_index(len, percent) < len,
{
    assert(len * percent < len * 100) by (nonlinear_arith)
        requires
            len > 0,
            percent < 100,
    ;
}

/// Whether a list is sorted, smallest first.
pub open spec fn sorted(s: Seq<u64>) -> bool {
    forall|i: int, j: int| 0 <= i <= j < s.len() ==> s[i] <= s[j]
}

/// The sorted list with the same entries.
pub open spec fn is_sorting(s: Seq<u64>, t: Seq<u64>) -> bool {
    &&& sorted(t)
    &&& t.to_multiset() =~= s.to_multiset()
}

/// Inserts `x` into a sorted list behind the entries that do not exceed it.
fn insert_sorted(v: &mut Vec<u64>, x: u64)
    requires
        sorted(old(v)@),
        old(v)@.len() < usize::MAX,
    ensures
        sorted(final(v)@),
        final(v)@.to_multiset() =~= old(v)@.to_multiset().insert(x),
        final(v)@.len() == old(v)@.len() + 1,
{
    let ghost before = v@;
    let mut i: usize = v.len();
    while i > 0 && v[i - 1] > x
        invariant
            i <= v.len(),
            v@ == before,
            sorted(before),
            forall|k: int| i <= k < before.len() ==> before[k] > x,
        decreases i,
    {
        i -= 1;
    }
    v.insert(i, x);
    proof {
        broadcast use vstd::seq_lib::group_to_multiset_ensures;

        assert(v@ == before.insert(i as int, x));
        before.to_multiset_ensures();
        vstd::seq_lib::to_multiset_insert(before, i as int, x);
    }
}

/// The entries in increasing order.
pub fn sort_u64(v: &Vec<u64>) -> (t: Vec<u64>)
    requires
        v@.len() < usize::MAX,
    ensures
        is_sorting(v@, t@),
        t@.len() == v@.len(),
        t@.to_multiset() =~= v@.to_multiset(),
        forall|i: int, j: int| 0 <= i <= j < t@.len() ==> t@[i] <= t@[j],
{
    let mut t: Vec<u64> = Vec::new();
    let mut i: usize = 0;
    proof {
        broadcast use vstd::seq_lib::group_to_multiset_ensures;

        assert(v@.take(0) =~= Seq::<u64>::empty());
    }
    while i < v.len()
        invariant
            i <= v.len(),
            v@.len() < usize::MAX,
            t@.len() == i,
            sorted(t@),
            t@.to_multiset() =~= v@.take(i as int).to_multiset(),
        decreases v.len() - i,
    {
        insert_sorted(&mut t, v[i]);
        proof {
            broadcast use vstd::seq_lib::group_to_multiset_ensures;

            let next = v@.take(i as int + 1);
            assert(next =~= v@.take(i as int).push(v@[i as int]));
        }
        i += 1;
    }
    proof {
        assert(v@.take(v@.len() as int) =~= v@);
    }
    t
}

/// The entry at a percentile of a list: the one at the percentile's position
/// once the list is sorted. `None` for an empty list.
pub open spec fn is_percentile(s: Seq<u64>, percent: nat, r: Option<u64>) -> bool {
    match r {
        None => s.len() == 0,
        Some(x) => s.len() > 0 && exists|t: Seq<u64>| #[trigger]
            is_sorting(s, t) && t.len() == s.len() && x == t[percentile_index(
                s.len(),
                percent,
            ) as int],
    }
}

/// The entry at a percentile of a list.
pub fn percentile(v: &Vec<u64>, percent: usize) -> (r: Option<u64>)
    requires
        percent < 100,
        v@.len() * 100 <= usize::MAX,
    ensures
        is_percentile(v@, percent as nat, r),
{
    if v.len() == 0 {
        return None;
    }
    let t: Vec<u64> = sort_u64(v);
    proof {
        percentile_in_range(v@.len(), percent as nat);
        assert(v@.len() * percent <= v@.len() * 100) by (nonlinear_arith)
            requires
                percent < 100,
        ;
    }
    let k: usize = t.len() * percent / 100;
    Some(t[k])
}

/// A percentile of a list is one of its entries.
pub proof fn percentile_is_an_entry(s: Seq<u64>, percent: nat, p: u64)
    requires
        percent < 100,
        is_percentile(s, percent, Some(p)),
    ensures
        s.contains(p),
{
    broadcast use vstd::seq_lib::group_to_multiset_ensures;

    let k = percentile_index(s.len(), percent) as int;
    let t = choose|t: Seq<u64>| #[trigger] is_sorting(s, t) && t.len() == s.len() && p == t[k];
    percentile_in_range(s.len(), percent);
    assert(t.contains(t[k]));
    assert(t.to_multiset().count(p) > 0);
    assert(s.to_multiset().count(p) > 0);
}

/// What a filter leaves was there before.
pub proof fn filtered_from<T>(s: Seq<T>, pred: spec_fn(T) -> bool, k: int)
    requires
        0 <= k < s.filter(pred).len(),
    ensures
        s.contains(s.filter(pred)[k]),
    decreases s.len(),
{
    reveal(Seq::filter);
    if s.len() > 0 {
        let rest = s.drop_last().filter(pred);
        if k < rest.len() {
            filtered_from(s.drop_last(), pred, k);
            let x = rest[k];
            let i = choose|i: int| 0 <= i < s.drop_last().len() && s.drop_last()[i] == x;
            assert(s[i] == x);
        } else {
            assert(s[s.len() - 1] == s.last());
        }
    }
}

/// Filtering one entry more: it is appended, or it is not.
pub proof fn filter_step<T>(s: Seq<T>, pred: spec_fn(T) -> bool, k: int)
    requires
        0 <= k < s.len(),
    ensures
        s.take(k + 1).filter(pred) == if pred(s[k]) {
            s.take(k).filter(pred).push(s[k])
        } else {
            s.take(k).filter(pred)
        },
{
    reveal(Seq::filter);
    assert(s.take(k + 1).drop_last() =~= s.take(k));
    assert(s.take(k + 1).last() == s[k]);
}

/// The sum of a list.
pub open spec fn total(s: Seq<u64>) -> nat
    decreases s.len(),
{
    if s.len() == 0 {
        0
    } else {
        total(s.drop_last()) + s.last() as nat
    }
}

/// The sum of a list of at most 2^64 entries.
pub fn sum_u64(v: &Vec<u64>) -> (n: u128)
    ensures
        n == total(v@),
{
    let mut n: u128 = 0;
    let mut i: usize = 0;
    while i < v.len()
        invariant
            i <= v@.len(),
            n == total(v@.take(i as int)),
            n <= i * 0xffff_ffff_ffff_ffff,
        decreases v@.len() - i,
    {
        proof {
            let next = v@.take(i as int + 1);
            assert(next.drop_last() =~= v@.take(i as int));
            assert(next.last() == v@[i as int]);
            assert(i * 0xffff_ffff_ffff_ffff + 0xffff_ffff_ffff_ffff == (i + 1)
                * 0xffff_ffff_ffff_ffff) by (nonlinear_arith);
            assert((i + 1) * 0xffff_ffff_ffff_ffff <= 0x1_0000_0000_0000_0000
                * 0xffff_ffff_ffff_ffff) by (nonlinear_arith)
                requires
                    i + 1 <= 0x1_0000_0000_0000_0000,
            ;
        }
        n = n + v[i] as u128;
        i += 1;
    }
    proof {
        assert(v@.take(v@.len() as int) =~= v@);
    }
    n
}

/// The sum of a list is at most its length times its largest entry.
pub proof fn total_bounded(s: Seq<u64>, bound: u64)
    requires
        forall|i: int| 0 <= i < s.len() ==> s[i] <= bound,
    ensures
        total(s) <= s.len() * bound,
    decreases s.len(),
{
    if s.len() > 0 {
        total_bounded(s.drop_last(), bound);
        let n = s.len();
        assert((n - 1) * bound + bound == n * bound) by (nonlinear_arith);
    }
}

/// The mean of a list, rounded down; zero for an empty list.
pub open spec fn mean(s: Seq<u64>) -> nat {
    if s.len() == 0 {
        0
    } else {
        total(s) / s.len()
    }
}

/// The mean of a list is at most its largest entry.
pub proof fn mean_bounded(s: Seq<u64>, bound: u64)
    requires
        forall|i: int| 0 <= i < s.len() ==> s[i] <= bound,
    ensures
        mean(s) <= bound,
{
    total_bounded(s, bound);
    if s.len() > 0 {
        let n = s.len();
        let t = total(s);
        assert(t / n <= bound) by (nonlinear_arith)
            requires
                t <= n * bound,
                n > 0,
        ;
    }
}

/// The mean of a list, rounded down.
pub fn mean_u64(v: &Vec<u64>) -> (m: u64)
    ensures
        m == mean(v@),
{
    if v.len() == 0 {
        return 0;
    }
    let sum: u128 = sum_u64(v);
    proof {
        mean_bounded(v@, u64::MAX);
    }
    (sum / (v.len() as u128)) as u64
}

/// The entries of a history as a list.
pub fn to_list(h: &VecDeque<u64>) -> (v: Vec<u64>)
    ensures
        v@ == h@,
{
    let mut v: Vec<u64> = Vec::new();
    let mut i: usize = 0;
    while i < h.len()
        invariant
            i <= h@.len(),
            v@ == h@.take(i as int),
        decreases h@.len() - i,
    {
        v.push(h[i]);
        proof {
            assert(h@.take(i as int + 1) =~= h@.take(i as int).push(h@[i as int]));
        }
        i += 1;
    }
    proof {
        assert(h@.take(h@.len() as int) =~= h@);
    }
    v
}

/// Nanoseconds as whole microseconds.
pub open spec fn in_micros(s: Seq<u64>) -> Seq<u64> {
    s.map_values(|t: u64| (t / 1000) as u64)
}

/// The entries of a list of nanoseconds in whole microseconds.
pub fn micros_of(v: &Vec<u64>) -> (m: Vec<u64>)
    ensures
        m@ == in_micros(v@),
{
    let mut m: Vec<u64> = Vec::new();
    let mut i: usize = 0;
    while i < v.len()
        invariant
            i <= v@.len(),
            m@.len() == i,
            forall|k: int| 0 <= k < i ==> #[trigger] m@[k] == v@[k] / 1000,
        decreases v@.len() - i,
    {
        m.push(v[i] / 1000);
        i += 1;
    }
    proof {
        assert(m@ =~= in_micros(v@));
    }
    m
}

/// At a percentile of a list, no more than that part of the entries are smaller,
/// and more than that part are not greater.
pub proof fn percentiles_split_the_list(s: Seq<u64>, percent: nat, p: u64)
    requires
        percent < 100,
        is_percentile(s, percent, Some(p)),
    ensures
        s.filter(|x: u64| x < p).len() <= s.len() * percent / 100,
        s.len() * percent / 100 < s.filter(|x: u64| x <= p).len(),
{
    let k = (s.len() * percent / 100) as int;
    let t = choose|t: Seq<u64>| #[trigger] is_sorting(s, t) && t.len() == s.len() && p == t[k];
    percentile_in_range(s.len(), percent);
    let below = |x: u64| x < p;
    let up_to = |x: u64| x <= p;
    same_entries_pass(s, t, below);
    same_entries_pass(s, t, up_to);
    assert(t =~= t.take(k) + t.skip(k));
    Seq::filter_distributes_over_add(t.take(k), t.skip(k), below);
    none_pass(t.skip(k), below);
    filters_leave_no_more(t.take(k), below);
    assert(t =~= t.take(k + 1) + t.skip(k + 1));
    Seq::filter_distributes_over_add(t.take(k + 1), t.skip(k + 1), up_to);
    all_pass(t.take(k + 1), up_to);
}

/// A list has one value at a percentile.
pub proof fn percentiles_are_unique(s: Seq<u64>, percent: nat, p: u64, q: u64)
    requires
        percent < 100,
        is_percentile(s, percent, Some(p)),
        is_percentile(s, percent, Some(q)),
    ensures
        p == q,
{
    percentiles_split_the_list(s, percent, p);
    percentiles_split_the_list(s, percent, q);
    if p < q {
        more_pass(s, |x: u64| x <= p, |x: u64| x < q);
    } else if q < p {
        more_pass(s, |x: u64| x <= q, |x: u64| x < p);
    }
}

pub(crate) proof fn all_pass<T>(s: Seq<T>, pred: spec_fn(T) -> bool)
    requires
        forall|i: int| 0 <= i < s.len() ==> pred(#[trigger] s[i]),
    ensures
        s.filter(pred) == s,
    decreases s.len(),
{
    reveal(Seq::filter);
    if s.len() > 0 {
        all_pass(s.drop_last(), pred);
        assert(s =~= s.drop_last().push(s.last()));
    }
}

pub(crate) proof fn none_pass<T>(s: Seq<T>, pred: spec_fn(T) -> bool)
    requires
        forall|i: int| 0 <= i < s.len() ==> !pred(#[trigger] s[i]),
    ensures
        s.filter(pred).len() == 0,
    decreases s.len(),
{
    reveal(Seq::filter);
    if s.len() > 0 {
        none_pass(s.drop_last(), pred);
    }
}

proof fn filters_leave_no_more<T>(s: Seq<T>, pred: spec_fn(T) -> bool)
    ensures
        s.filter(pred).len() <= s.len(),
    decreases s.len(),
{
    reveal(Seq::filter);
    if s.len() > 0 {
        filters_leave_no_more(s.drop_last(), pred);
    }
}

pub(crate) proof fn more_pass<T>(s: Seq<T>, few: spec_fn(T) -> bool, many: spec_fn(T) -> bool)
    requires
        forall|x: T| #[trigger] few(x) ==> many(x),
    ensures
        s.filter(few).len() <= s.filter(many).len(),
    decreases s.len(),
{
    reveal(Seq::filter);
    if s.len() > 0 {
        more_pass(s.drop_last(), few, many);
        assert(few(s.last()) ==> many(s.last()));
    }
}

pub(crate) proof fn same_entries_pass<T>(s: Seq<T>, t: Seq<T>, pred: spec_fn(T) -> bool)
    requires
        s.to_multiset() == t.to_multiset(),
    ensures
        s.filter(pred).len() == t.filter(pred).len(),
    decreases s.len(),
{
    broadcast use vstd::seq_lib::group_to_multiset_ensures;

    reveal(Seq::filter);
    assert(s.to_multiset().len() == t.to_multiset().len());
    if s.len() > 0 {
        let x = s.last();
        assert(s.contains(x));
        assert(t.to_multiset().count(x) > 0);
        let j = choose|j: int| 0 <= j < t.len() && t[j] == x;
        let u = t.remove(j);
        let (left, right) = (t.take(j), t.skip(j + 1));
        assert(t =~= left.push(x) + right);
        assert(u =~= left + right);
        assert(left.push(x).drop_last() =~= left);
        Seq::filter_distributes_over_add(left.push(x), right, pred);
        Seq::filter_distributes_over_add(left, right, pred);
        assert(s =~= s.drop_last().push(x));
        assert(s.drop_last().to_multiset() =~= s.to_multiset().remove(x));
        assert(u.to_multiset() =~= t.to_multiset().remove(x));
        same_entries_pass(s.drop_last(), u, pred);
        let one = if pred(x) {
            1nat
        } else {
            0
        };
        assert(left.push(x).filter(pred).len() == left.filter(pred).len() + one);
        assert(s.filter(pred).len() == s.drop_last().filter(pred).len() + one);
        assert(t.filter(pred) == left.push(x).filter(pred) + right.filter(pred));
        assert(u.filter(pred) == left.filter(pred) + right.filter(pred));
    } else {
        s.to_multiset_ensures();
        t.to_multiset_ensures();
        assert(t.len() == 0);
    }
}

/// The sum of a list adds up all of its entries, and the mean times the number
/// of entries is the sum, up to a remainder smaller than that number.
pub proof fn means_share_the_sum(s: Seq<u64>)
    ensures
        total(s) == s.fold_left(0nat, |n: nat, x: u64| n + x as nat),
        s.len() == 0 ==> mean(s) == 0,
        s.len() > 0 ==> mean(s) * s.len() <= total(s) < (mean(s) + 1) * s.len(),
    decreases s.len(),
{
    reveal_with_fuel(Seq::fold_left, 2);
    if s.len() > 0 {
        means_share_the_sum(s.drop_last());
        let (n, d) = (total(s) as int, s.len() as int);
        vstd::arithmetic::div_mod::lemma_fundamental_div_mod(n, d);
        assert(mean(s) * d <= n < (mean(s) + 1) * d) by (nonlinear_arith)
            requires
                d > 0,
                n == d * mean(s) + n % d,
                0 <= n % d < d,
        ;
    }
}

} // verus!
