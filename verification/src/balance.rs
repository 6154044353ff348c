//! How evenly a load is spread.

use vstd::prelude::*;

use crate::history::{means_share_the_sum, sum_u64, total};
use crate::measure::Measure;

verus! {

/// The sum of the squares of some loads.
pub open spec fn squares(loads: Seq<u64>) -> nat
    decreases loads.len(),
{
    if loads.len() == 0 {
        0
    } else {
        squares(loads.drop_last()) + (loads.last() * loads.last()) as nat
    }
}

/// The variance of some loads, times the square of their number.
pub open spec fn scaled_variance(loads: Seq<u64>) -> int {
    loads.len() * squares(loads) - total(loads) * total(loads)
}

/// Whether the mean of some loads is below a millionth. A load of one is
/// written as `unit`.
pub open spec fn is_negligible(loads: Seq<u64>, unit: u64) -> bool {
    total(loads) == 0 || total(loads) * 1_000_000 < loads.len() * unit
}

/// Whether `m` is the coefficient of variation of some loads: the square root
/// of their variance, divided by their mean. It is zero where the mean is below
/// a millionth, and at most one. A load of one is written as `unit`.
pub open spec fn is_imbalance(loads: Seq<u64>, unit: u64, m: Measure) -> bool {
    let v = scaled_variance(loads) * 1_000_000;
    let s = total(loads) as int;
    if is_negligible(loads, unit) {
        m == (Measure { at_least: 0, at_most: 0 })
    } else if scaled_variance(loads) >= s * s {
        m == (Measure { at_least: 1000, at_most: 1000 })
    } else {
        let a = m.at_least as int;
        &&& (a * s) * (a * s) <= v < ((a + 1) * s) * ((a + 1) * s)
        &&& m.at_most == if (a * s) * (a * s) == v {
            a
        } else {
            a + 1
        }
    }
}

/// Whether the coefficient of variation of some loads can be computed.
pub open spec fn is_computable(loads: Seq<u64>) -> bool {
    &&& loads.len() * squares(loads) * 1_000_000 <= u128::MAX
    &&& total(loads) * total(loads) * 1_000_000 <= u128::MAX
}

proof fn variance_is_not_negative(loads: Seq<u64>)
    ensures
        scaled_variance(loads) >= 0,
    decreases loads.len(),
{
    if loads.len() > 0 {
        let rest = loads.drop_last();
        let x = loads.last() as int;
        variance_is_not_negative(rest);
        let (n, q, s) = (rest.len() as int, squares(rest) as int, total(rest) as int);
        mean_square(rest, x);
        assert((n + 1) * (q + x * x) - (s + x) * (s + x) == (n * q - s * s) + (n * (x * x) - 2 * s
            * x + q)) by (nonlinear_arith);
    }
}

/// The squares of the distances of some loads from a value.
spec fn distances(loads: Seq<u64>, x: int) -> int
    decreases loads.len(),
{
    if loads.len() == 0 {
        0
    } else {
        distances(loads.drop_last(), x) + (loads.last() - x) * (loads.last() - x)
    }
}

proof fn mean_square(loads: Seq<u64>, x: int)
    ensures
        distances(loads, x) == loads.len() * (x * x) - 2 * total(loads) * x + squares(loads),
        distances(loads, x) >= 0,
    decreases loads.len(),
{
    if loads.len() > 0 {
        let rest = loads.drop_last();
        let y = loads.last() as int;
        mean_square(rest, x);
        let (n, s) = (rest.len() as int, total(rest) as int);
        assert((y - x) * (y - x) == y * y - 2 * y * x + x * x) by (nonlinear_arith);
        assert((y - x) * (y - x) >= 0) by (nonlinear_arith);
        assert((n + 1) * (x * x) - 2 * (s + y) * x == n * (x * x) - 2 * s * x + (x * x - 2 * y * x))
            by (nonlinear_arith);
        assert(loads.len() == n + 1);
        assert(total(loads) == s + y);
    } else {
        let n = loads.len() as int;
        let s = total(loads) as int;
        assert(n * (x * x) == 0 && 2 * s * x == 0) by (nonlinear_arith)
            requires
                n == 0,
                s == 0,
        ;
    }
}

proof fn square_bounds(loads: Seq<u64>, i: int)
    requires
        0 <= i < loads.len(),
    ensures
        loads[i] * loads[i] <= squares(loads),
        squares(loads.take(i)) + loads[i] * loads[i] == squares(loads.take(i + 1)),
        squares(loads.take(i + 1)) <= squares(loads),
        loads[i] * loads[i] >= 0,
    decreases loads.len() - i,
{
    let x = loads[i] as int;
    assert(x * x >= 0) by (nonlinear_arith);
    assert(loads.take(i + 1).drop_last() =~= loads.take(i));
    assert(loads.take(i + 1).last() == loads[i]);
    if i + 1 < loads.len() {
        square_bounds(loads, i + 1);
    } else {
        assert(loads.take(i + 1) =~= loads);
    }
}

fn sum_squares(loads: &Vec<u64>) -> (n: u128)
    requires
        squares(loads@) <= u128::MAX,
    ensures
        n == squares(loads@),
{
    let mut n: u128 = 0;
    let mut i: usize = 0;
    while i < loads.len()
        invariant
            i <= loads@.len(),
            squares(loads@) <= u128::MAX,
            n == squares(loads@.take(i as int)),
        decreases loads@.len() - i,
    {
        proof {
            square_bounds(loads@, i as int);
        }
        n = n + loads[i] as u128 * loads[i] as u128;
        i += 1;
    }
    proof {
        assert(loads@.take(i as int) =~= loads@);
    }
    n
}

fn scaled_square(a: u64, sum: u128) -> (n: u128)
    requires
        a <= 1000,
        sum * sum * 1_000_000 <= u128::MAX,
    ensures
        n == (a * sum) * (a * sum),
{
    proof {
        step_square(a as int, sum as int);
        let s = sum as int;
        assert(1000 * s <= s * s * 1_000_000) by (nonlinear_arith)
            requires
                s >= 0,
        ;
    }
    let p: u128 = a as u128 * sum;
    p * p
}

/// The coefficient of variation of some loads. A load of one is written as
/// `unit`.
pub fn imbalance_of(loads: &Vec<u64>, unit: u64) -> (m: Measure)
    requires
        is_computable(loads@),
    ensures
        m.wf(),
        is_imbalance(loads@, unit, m),
{
    proof {
        variance_is_not_negative(loads@);
        let (n, q, s) = (loads@.len() as int, squares(loads@) as int, total(loads@) as int);
        assert(0 <= n * q <= n * q * 1_000_000) by (nonlinear_arith)
            requires
                n >= 0,
                q >= 0,
        ;
        assert(0 <= s * s <= s * s * 1_000_000) by (nonlinear_arith)
            requires
                s >= 0,
        ;
        assert(n > 0 ==> q <= n * q) by (nonlinear_arith)
            requires
                q >= 0,
        ;
        if n == 0 {
            assert(q == 0);
        }
    }
    let sum: u128 = sum_u64(loads);
    proof {
        let (s, n, u) = (sum as int, loads.len() as int, unit as int);
        assert(s * 1_000_000 <= s * s * 1_000_000) by (nonlinear_arith)
            requires
                s >= 0,
        ;
        assert(0 <= n * u <= 0xffff_ffff_ffff_ffff * 0xffff_ffff_ffff_ffff) by (nonlinear_arith)
            requires
                0 <= n <= 0xffff_ffff_ffff_ffff,
                0 <= u <= 0xffff_ffff_ffff_ffff,
        ;
    }
    if sum == 0 || sum * 1_000_000 < loads.len() as u128 * unit as u128 {
        return Measure::exact(0);
    }
    let square: u128 = sum * sum;
    let variance: u128 = loads.len() as u128 * sum_squares(loads) - square;
    if variance >= square {
        return Measure::exact(1000);
    }
    let target: u128 = variance * 1_000_000;
    let mut a: u64 = 0;
    proof {
        step_square(0, sum as int);
    }
    while a < 999 && scaled_square(a + 1, sum) <= target
        invariant
            a <= 999,
            square == sum * sum,
            square * 1_000_000 <= u128::MAX,
            sum > 0,
            target < square * 1_000_000,
            (a * sum) * (a * sum) <= target,
        decreases 999 - a,
    {
        a += 1;
    }
    proof {
        step_square(a as int, sum as int);
        step_square(a + 1, sum as int);
        if a == 999 {
            assert((1000 * sum as int) * (1000 * sum as int) == 1_000_000 * (sum * sum))
                by (nonlinear_arith);
        }
    }
    if scaled_square(a, sum) == target {
        Measure { at_least: a, at_most: a }
    } else {
        Measure { at_least: a, at_most: a + 1 }
    }
}

proof fn step_square(a: int, s: int)
    requires
        0 <= a <= 1000,
        s >= 0,
    ensures
        0 <= a * s,
        (a * s) * (a * s) <= s * s * 1_000_000,
        a == 0 ==> (a * s) * (a * s) == 0,
        a * s <= 1000 * s,
{
    assert(0 <= a * s <= 1000 * s) by (nonlinear_arith)
        requires
            0 <= a <= 1000,
            s >= 0,
    ;
    let p = a * s;
    assert(p * p <= s * s * 1_000_000) by (nonlinear_arith)
        requires
            0 <= p <= 1000 * s,
            s >= 0,
    ;
    if a == 0 {
        assert(p == 0);
        assert(p * p == 0) by (nonlinear_arith)
            requires
                p == 0,
        ;
    }
}

/// Loads that are all the same are perfectly balanced.
pub proof fn equal_loads_are_balanced(loads: Seq<u64>, x: u64, unit: u64, m: Measure)
    requires
        forall|i: int| 0 <= i < loads.len() ==> #[trigger] loads[i] == x,
        is_imbalance(loads, unit, m),
    ensures
        m == (Measure { at_least: 0, at_most: 0 }),
{
    equal_sums(loads, x);
    let (n, y) = (loads.len() as int, x as int);
    assert(n * (n * (y * y)) == (n * y) * (n * y)) by (nonlinear_arith);
    assert(scaled_variance(loads) == 0);
    let s = total(loads) as int;
    if !is_negligible(loads, unit) {
        assert(s * s > 0) by (nonlinear_arith)
            requires
                s > 0,
        ;
        let a = m.at_least as int;
        assert(a == 0) by (nonlinear_arith)
            requires
                a >= 0,
                s > 0,
                (a * s) * (a * s) <= 0,
        ;
    }
}

proof fn equal_sums(loads: Seq<u64>, x: u64)
    requires
        forall|i: int| 0 <= i < loads.len() ==> #[trigger] loads[i] == x,
    ensures
        total(loads) == loads.len() * x,
        squares(loads) == loads.len() * (x * x),
    decreases loads.len(),
{
    if loads.len() > 0 {
        let rest = loads.drop_last();
        assert forall|i: int| 0 <= i < rest.len() implies #[trigger] rest[i] == x by {
            assert(rest[i] == loads[i]);
        }
        equal_sums(rest, x);
        assert(loads[loads.len() - 1] == x);
        let (n, y) = (rest.len() as int, x as int);
        assert((n + 1) * y == n * y + y) by (nonlinear_arith);
        assert((n + 1) * (y * y) == n * (y * y) + y * y) by (nonlinear_arith);
    }
}

/// Loads below this total, and as many of them, are small.
pub const SMALL_LOAD: u64 = 0x1_0000_0000;

/// Whether loads are few and small.
pub open spec fn is_small(loads: Seq<u64>) -> bool {
    loads.len() < SMALL_LOAD && total(loads) < SMALL_LOAD
}

proof fn squares_below_square(loads: Seq<u64>)
    ensures
        squares(loads) <= total(loads) * total(loads),
    decreases loads.len(),
{
    if loads.len() > 0 {
        squares_below_square(loads.drop_last());
        let (s, x) = (total(loads.drop_last()) as int, loads.last() as int);
        assert((s + x) * (s + x) >= s * s + x * x) by (nonlinear_arith)
            requires
                s >= 0,
                x >= 0,
        ;
    }
}

/// The coefficient of variation of few and small loads can be computed.
pub proof fn small_loads_are_computable(loads: Seq<u64>)
    requires
        is_small(loads),
    ensures
        is_computable(loads),
{
    squares_below_square(loads);
    let (n, q, s) = (loads.len() as int, squares(loads) as int, total(loads) as int);
    assert(0 <= s * s < 0x1_0000_0000_0000_0000) by (nonlinear_arith)
        requires
            0 <= s < 0x1_0000_0000,
    ;
    assert(0 <= n * q <= 0x1_0000_0000 * 0x1_0000_0000_0000_0000) by (nonlinear_arith)
        requires
            0 <= n < 0x1_0000_0000,
            0 <= q < 0x1_0000_0000_0000_0000,
    ;
}

/// Whether loads are few and small.
pub fn are_small(loads: &Vec<u64>) -> (r: bool)
    ensures
        r == is_small(loads@),
        r ==> is_computable(loads@),
{
    let r: bool = (loads.len() as u64) < SMALL_LOAD && sum_u64(loads) < SMALL_LOAD as u128;
    proof {
        if r {
            small_loads_are_computable(loads@);
        }
    }
    r
}

/// The scaled variance is the number of loads times the sum of their squares,
/// less the square of their sum.
pub proof fn variance_is_of_all_loads(loads: Seq<u64>)
    ensures
        squares(loads) == loads.fold_left(0nat, |n: nat, x: u64| n + (x * x) as nat),
        scaled_variance(loads) == loads.len() * loads.fold_left(
            0nat,
            |n: nat, x: u64| n + (x * x) as nat,
        ) - loads.fold_left(0nat, |n: nat, x: u64| n + x as nat) * loads.fold_left(
            0nat,
            |n: nat, x: u64| n + x as nat,
        ),
    decreases loads.len(),
{
    reveal_with_fuel(Seq::fold_left, 2);
    means_share_the_sum(loads);
    if loads.len() > 0 {
        variance_is_of_all_loads(loads.drop_last());
    }
}

} // verus!
