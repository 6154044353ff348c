//! Keeping numbers within bounds.

use vstd::prelude::*;

verus! {

/// The number nearest to `x` between `lo` and `hi`.
pub open spec fn clamped(x: int, lo: int, hi: int) -> int {
    if x < lo {
        lo
    } else if x > hi {
        hi
    } else {
        x
    }
}

/// The number nearest to `x` between `lo` and `hi`.
pub fn clamp_usize(x: usize, lo: usize, hi: usize) -> (r: usize)
    requires
        lo <= hi,
    ensures
        r == clamped(x as int, lo as int, hi as int),
        lo <= r <= hi,
        r == x || (r == lo && x < lo) || (r == hi && x > hi),
{
    if x < lo {
        lo
    } else if x > hi {
        hi
    } else {
        x
    }
}

/// The number nearest to `x` between `lo` and `hi`.
pub fn clamp_u64(x: u64, lo: u64, hi: u64) -> (r: u64)
    requires
        lo <= hi,
    ensures
        r == clamped(x as int, lo as int, hi as int),
        lo <= r <= hi,
        r == x || (r == lo && x < lo) || (r == hi && x > hi),
{
    if x < lo {
        lo
    } else if x > hi {
        hi
    } else {
        x
    }
}

/// The smaller of two numbers.
pub open spec fn smaller(a: int, b: int) -> int {
    if a <= b {
        a
    } else {
        b
    }
}

/// The smaller of two numbers.
pub fn min_usize(a: usize, b: usize) -> (r: usize)
    ensures
        r == smaller(a as int, b as int),
        r <= a && r <= b && (r == a || r == b),
{
    if a <= b {
        a
    } else {
        b
    }
}

/// The larger of two numbers.
pub open spec fn greater(a: int, b: int) -> int {
    if a >= b {
        a
    } else {
        b
    }
}

/// The larger of two numbers.
pub fn max_usize(a: usize, b: usize) -> (r: usize)
    ensures
        r == greater(a as int, b as int),
        r >= a && r >= b && (r == a || r == b),
{
    if a >= b {
        a
    } else {
        b
    }
}

/// The larger of two numbers.
pub fn max_u64(a: u64, b: u64) -> (r: u64)
    ensures
        r == greater(a as int, b as int),
        r >= a && r >= b && (r == a || r == b),
{
    if a >= b {
        a
    } else {
        b
    }
}

/// `a - b`, zero where that is negative.
pub open spec fn minus(a: int, b: int) -> int {
    if a >= b {
        a - b
    } else {
        0
    }
}

/// A number capped at the end of the 64-bit range.
pub open spec fn capped(n: nat) -> u64 {
    if n <= u64::MAX {
        n as u64
    } else {
        u64::MAX
    }
}

/// A number capped at the end of the 64-bit range.
pub fn cap(n: u128) -> (r: u64)
    ensures
        r == capped(n as nat),
        r <= n,
        n <= u64::MAX ==> r == n,
        n > u64::MAX ==> r == u64::MAX,
{
    if n <= u64::MAX as u128 {
        n as u64
    } else {
        u64::MAX
    }
}

/// The smaller and the greater of two numbers are those two numbers, in order;
/// what is within bounds stays, and what is not goes to the nearer bound.
pub proof fn bounds_are_kept(a: int, b: int, lo: int, hi: int)
    requires
        lo <= hi,
    ensures
        smaller(a, b) <= a && smaller(a, b) <= b,
        greater(a, b) >= a && greater(a, b) >= b,
        smaller(a, b) + greater(a, b) == a + b,
        lo <= clamped(a, lo, hi) <= hi,
        lo <= a <= hi ==> clamped(a, lo, hi) == a,
        a < lo ==> clamped(a, lo, hi) == lo,
        a > hi ==> clamped(a, lo, hi) == hi,
        minus(a, b) >= 0,
        a >= b ==> minus(a, b) + b == a,
        a < b ==> minus(a, b) == 0,
{
}

} // verus!
