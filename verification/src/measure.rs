//! Measured values, as exact as their comparisons need.

use vstd::prelude::*;

verus! {

/// A measured value, known by the two neighbouring whole thousandths between
/// which it lies; they are the same for a value that is a whole number of
/// thousandths itself. That tells on which side of any whole number of
/// thousandths the value lies.
#[derive(Debug, Clone, Copy, PartialEq, Eq, Structural)]
pub struct Measure {
    pub at_least: u64,
    pub at_most: u64,
}

impl Measure {
    /// Whether the bounds are those of a value.
    pub open spec fn wf(self) -> bool {
        self.at_least <= self.at_most <= self.at_least + 1
    }

    /// Whether the value is below so many thousandths.
    pub open spec fn is_below(self, thousandths: int) -> bool {
        self.at_least < thousandths
    }

    /// Whether the value is above so many thousandths.
    pub open spec fn is_above(self, thousandths: int) -> bool {
        self.at_most > thousandths
    }

    /// A whole number of thousandths.
    pub fn exact(thousandths: u64) -> (m: Self)
        ensures
            m == (Measure { at_least: thousandths, at_most: thousandths }),
            m.wf(),
    {
        Measure { at_least: thousandths, at_most: thousandths }
    }

    /// Whether the value is below so many thousandths.
    pub fn below(&self, thousandths: u64) -> (r: bool)
        ensures
            r == self.is_below(thousandths as int),
            r <==> self.at_least < thousandths,
    {
        self.at_least < thousandths
    }

    /// Whether the value is above so many thousandths.
    pub fn above(&self, thousandths: u64) -> (r: bool)
        ensures
            r == self.is_above(thousandths as int),
            r <==> self.at_most > thousandths,
    {
        self.at_most > thousandths
    }
}

/// A value is never on both sides of a number, and on neither only where it
/// equals it.
pub proof fn sides_are_distinct(m: Measure, thousandths: int)
    requires
        m.wf(),
    ensures
        !(m.is_below(thousandths) && m.is_above(thousandths)),
        !m.is_below(thousandths) && !m.is_above(thousandths) <==> m.at_least == thousandths
            && m.at_most == thousandths,
{
}

} // verus!
