//! Exact ratios of counts.

use vstd::prelude::*;

verus! {

/// `part / whole`; zero where `whole` is zero.
#[derive(Debug, Clone, Copy, PartialEq, Eq, Structural)]
pub struct Ratio {
    pub part: u64,
    pub whole: u64,
}

impl Ratio {
    /// The ratio zero.
    pub open spec fn zero() -> Ratio {
        Ratio { part: 0, whole: 0 }
    }

    /// Whether the ratio is below `num / den`.
    pub open spec fn is_below(self, num: nat, den: nat) -> bool {
        if self.whole == 0 {
            0 < num
        } else {
            self.part * den < num * self.whole
        }
    }

    /// Whether the ratio is above `num / den`.
    pub open spec fn is_above(self, num: nat, den: nat) -> bool {
        self.whole != 0 && self.part * den > num * self.whole
    }

    /// Whether the ratio exceeds another one.
    pub open spec fn exceeds(self, other: Ratio) -> bool {
        if self.whole == 0 {
            false
        } else if other.whole == 0 {
            self.part > 0
        } else {
            self.part * other.whole > other.part * self.whole
        }
    }

    /// The ratio of two counts.
    pub fn new(part: u64, whole: u64) -> (r: Self)
        ensures
            r == (Ratio { part, whole }),
    {
        Ratio { part, whole }
    }

    /// Whether the ratio is below `num / den`.
    pub fn below(&self, num: u64, den: u64) -> (r: bool)
        ensures
            r == self.is_below(num as nat, den as nat),
            self.whole > 0 ==> (r <==> self.part * den < num * self.whole),
            self.whole == 0 ==> (r <==> num > 0),
    {
        if self.whole == 0 {
            0 < num
        } else {
            proof {
                products_fit(self.part, den);
                products_fit(num, self.whole);
            }
            (self.part as u128) * (den as u128) < (num as u128) * (self.whole as u128)
        }
    }

    /// Whether the ratio is above `num / den`.
    pub fn above(&self, num: u64, den: u64) -> (r: bool)
        ensures
            r == self.is_above(num as nat, den as nat),
            self.whole > 0 ==> (r <==> self.part * den > num * self.whole),
            self.whole == 0 ==> !r,
    {
        proof {
            products_fit(self.part, den);
            products_fit(num, self.whole);
        }
        self.whole != 0 && (self.part as u128) * (den as u128) > (num as u128) * (
        self.whole as u128)
    }

    /// Whether the ratio exceeds another one.
    pub fn more_than(&self, other: &Ratio) -> (r: bool)
        ensures
            r == self.exceeds(*other),
    {
        proof {
            products_fit(self.part, other.whole);
            products_fit(other.part, self.whole);
        }
        if self.whole == 0 {
            false
        } else if other.whole == 0 {
            self.part > 0
        } else {
            (self.part as u128) * (other.whole as u128) > (other.part as u128) * (
            self.whole as u128)
        }
    }

    /// The larger of two ratios; `self` where they are equal.
    pub fn max(self, other: Ratio) -> (r: Ratio)
        ensures
            r == if other.exceeds(self) {
                other
            } else {
                self
            },
    {
        if other.more_than(&self) {
            other
        } else {
            self
        }
    }
}

/// A ratio that exceeds one that a third does not exceed, exceeds the third.
pub proof fn exceeds_all_below(a: Ratio, b: Ratio, c: Ratio)
    requires
        a.whole > 0,
        b.whole > 0,
        c.whole > 0,
        a.exceeds(b),
        !c.exceeds(b),
    ensures
        a.exceeds(c),
{
    let (ap, aw, bp, bw, cp, cw) = (
        a.part as int,
        a.whole as int,
        b.part as int,
        b.whole as int,
        c.part as int,
        c.whole as int,
    );
    assert(ap * cw > cp * aw) by (nonlinear_arith)
        requires
            aw > 0,
            bw > 0,
            cw > 0,
            ap * bw > bp * aw,
            cp * bw <= bp * cw,
    {
        assert(ap * bw * cw > bp * aw * cw);
        assert(cp * bw * aw <= bp * cw * aw);
        assert(bp * aw * cw == bp * cw * aw);
        assert(bw * (ap * cw - cp * aw) > 0);
    }
}

proof fn products_fit(a: u64, b: u64)
    ensures
        0 <= a * b <= u128::MAX,
{
    assert(0 <= a * b <= 0xffff_ffff_ffff_ffff * 0xffff_ffff_ffff_ffff) by (nonlinear_arith)
        requires
            0 <= a <= 0xffff_ffff_ffff_ffff,
            0 <= b <= 0xffff_ffff_ffff_ffff,
    ;
}

/// Of two ratios one exceeds the other where its part, taken as often as the
/// other's whole, is more; one of nothing exceeds none, and is exceeded by any
/// that is not zero.
pub proof fn ratios_compare_crosswise(a: Ratio, b: Ratio)
    ensures
        a.whole > 0 && b.whole > 0 ==> (a.exceeds(b) <==> a.part * b.whole > b.part * a.whole),
        a.whole == 0 ==> !a.exceeds(b),
        a.whole > 0 && b.whole == 0 ==> (a.exceeds(b) <==> a.part > 0),
        !(a.exceeds(b) && b.exceeds(a)),
{
    if a.exceeds(b) && b.exceeds(a) {
        assert(false) by (nonlinear_arith)
            requires
                a.part * b.whole > b.part * a.whole,
                b.part * a.whole > a.part * b.whole,
        ;
    }
}

} // verus!
