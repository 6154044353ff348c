//! Size classes of pooled buffers.

use vstd::prelude::*;

verus! {

/// A class of buffer sizes.
#[derive(Debug, Clone, Copy, PartialEq, Eq, Hash, Structural)]
pub enum SizeClass {
    /// Up to 1 KB: frequent small operations.
    Small,
    /// Up to 8 KB: medium packets.
    Medium,
    /// Up to 64 KB: large transfers.
    Large,
    /// Up to 256 KB: very large transfers.
    XLarge,
    /// Everything above.
    Giant,
}

/// The number of size classes.
pub const SIZE_CLASSES: usize = 5;

/// The class that a buffer of the given size belongs to.
pub open spec fn class_of(size: nat) -> SizeClass {
    if size <= 1024 {
        SizeClass::Small
    } else if size <= 8192 {
        SizeClass::Medium
    } else if size <= 65536 {
        SizeClass::Large
    } else if size <= 262144 {
        SizeClass::XLarge
    } else {
        SizeClass::Giant
    }
}

/// The class at a position, for positions below the number of classes.
pub open spec fn class_at(i: int) -> SizeClass {
    if i == 0 {
        SizeClass::Small
    } else if i == 1 {
        SizeClass::Medium
    } else if i == 2 {
        SizeClass::Large
    } else if i == 3 {
        SizeClass::XLarge
    } else {
        SizeClass::Giant
    }
}

impl SizeClass {
    /// Position of the class, smallest first.
    pub open spec fn pos(self) -> int {
        match self {
            SizeClass::Small => 0,
            SizeClass::Medium => 1,
            SizeClass::Large => 2,
            SizeClass::XLarge => 3,
            SizeClass::Giant => 4,
        }
    }

    /// The smallest size of the class.
    pub open spec fn smallest(self) -> nat {
        match self {
            SizeClass::Small => 1,
            SizeClass::Medium => 1025,
            SizeClass::Large => 8193,
            SizeClass::XLarge => 65537,
            SizeClass::Giant => 262145,
        }
    }

    /// The size that buffers of the class are made with.
    pub open spec fn largest(self) -> nat {
        match self {
            SizeClass::Small => 1024,
            SizeClass::Medium => 8192,
            SizeClass::Large => 65536,
            SizeClass::XLarge => 262144,
            SizeClass::Giant => 1048576,
        }
    }

    /// The classes that are searched when the class itself has no buffer.
    pub open spec fn fallbacks(self) -> Seq<SizeClass> {
        match self {
            SizeClass::Small => seq![SizeClass::Medium, SizeClass::Large],
            SizeClass::Medium => seq![SizeClass::Large, SizeClass::XLarge],
            SizeClass::Large => seq![SizeClass::XLarge, SizeClass::Giant],
            SizeClass::XLarge => seq![SizeClass::Giant],
            SizeClass::Giant => Seq::empty(),
        }
    }

    /// How many buffers of the class a cleanup leaves alone.
    pub open spec fn kept(self) -> nat {
        match self {
            SizeClass::Small => 50,
            SizeClass::Medium => 30,
            SizeClass::Large => 20,
            SizeClass::XLarge => 10,
            SizeClass::Giant => 5,
        }
    }

    /// The size that buffers of the class are made with.
    pub fn optimal_size(&self) -> (n: usize)
        ensures
            n == self.largest(),
            self is Small ==> n == 1024,
            self is Medium ==> n == 8 * 1024,
            self is Large ==> n == 64 * 1024,
            self is XLarge ==> n == 256 * 1024,
            self is Giant ==> n == 1024 * 1024,
    {
        match self {
            SizeClass::Small => 1024,
            SizeClass::Medium => 8192,
            SizeClass::Large => 65536,
            SizeClass::XLarge => 262144,
            SizeClass::Giant => 1048576,
        }
    }

    /// The smallest size of the class.
    pub fn min_size(&self) -> (n: usize)
        ensures
            n == self.smallest(),
    {
        match self {
            SizeClass::Small => 1,
            SizeClass::Medium => 1025,
            SizeClass::Large => 8193,
            SizeClass::XLarge => 65537,
            SizeClass::Giant => 262145,
        }
    }

    /// The largest size of the class.
    pub fn max_size(&self) -> (n: usize)
        ensures
            n == self.largest(),
            self is Small ==> n == 1024,
            self is Medium ==> n == 8 * 1024,
            self is Large ==> n == 64 * 1024,
            self is XLarge ==> n == 256 * 1024,
            self is Giant ==> n == 1024 * 1024,
    {
        match self {
            SizeClass::Small => 1024,
            SizeClass::Medium => 8192,
            SizeClass::Large => 65536,
            SizeClass::XLarge => 262144,
            SizeClass::Giant => 1048576,
        }
    }

    /// The class of a size.
    pub fn from_size(size: usize) -> (c: Self)
        ensures
            c == class_of(size as nat),
            c == SizeClass::Small <==> size <= 1024,
            c == SizeClass::Medium <==> 1024 < size <= 8192,
            c == SizeClass::Large <==> 8192 < size <= 65536,
            c == SizeClass::XLarge <==> 65536 < size <= 262144,
            c == SizeClass::Giant <==> 262144 < size,
    {
        if size <= 1024 {
            SizeClass::Small
        } else if size <= 8192 {
            SizeClass::Medium
        } else if size <= 65536 {
            SizeClass::Large
        } else if size <= 262144 {
            SizeClass::XLarge
        } else {
            SizeClass::Giant
        }
    }

    /// The name of the class.
    pub fn name(&self) -> (s: &'static str)
        ensures
            s@ == match *self {
                SizeClass::Small => "Small"@,
                SizeClass::Medium => "Medium"@,
                SizeClass::Large => "Large"@,
                SizeClass::XLarge => "XLarge"@,
                SizeClass::Giant => "Giant"@,
            },
    {
        match self {
            SizeClass::Small => "Small",
            SizeClass::Medium => "Medium",
            SizeClass::Large => "Large",
            SizeClass::XLarge => "XLarge",
            SizeClass::Giant => "Giant",
        }
    }

    /// Position of the class, smallest first.
    pub fn index(&self) -> (i: usize)
        ensures
            i == self.pos(),
            i < SIZE_CLASSES,
            class_at(i as int) == *self,
    {
        match self {
            SizeClass::Small => 0,
            SizeClass::Medium => 1,
            SizeClass::Large => 2,
            SizeClass::XLarge => 3,
            SizeClass::Giant => 4,
        }
    }

    /// All classes, smallest first.
    pub fn all_classes() -> (classes: [SizeClass; 5])
        ensures
            classes@.len() == SIZE_CLASSES,
            forall|i: int| 0 <= i < SIZE_CLASSES ==> #[trigger] classes@[i] == class_at(i),
    {
        [
            SizeClass::Small,
            SizeClass::Medium,
            SizeClass::Large,
            SizeClass::XLarge,
            SizeClass::Giant,
        ]
    }

    /// The classes that are searched when the class itself has no buffer.
    pub fn larger_classes(&self) -> (classes: Vec<SizeClass>)
        ensures
            classes@ == self.fallbacks(),
    {
        match self {
            SizeClass::Small => vec![SizeClass::Medium, SizeClass::Large],
            SizeClass::Medium => vec![SizeClass::Large, SizeClass::XLarge],
            SizeClass::Large => vec![SizeClass::XLarge, SizeClass::Giant],
            SizeClass::XLarge => vec![SizeClass::Giant],
            SizeClass::Giant => vec![],
        }
    }

    /// How many buffers of the class a cleanup leaves alone.
    pub fn min_pool_size(&self) -> (n: usize)
        ensures
            n == self.kept(),
    {
        match self {
            SizeClass::Small => 50,
            SizeClass::Medium => 30,
            SizeClass::Large => 20,
            SizeClass::XLarge => 10,
            SizeClass::Giant => 5,
        }
    }
}

/// Every size from one byte to one megabyte lies within the bounds of its
/// class, and of no other class.
pub proof fn classes_partition_sizes(size: nat, class: SizeClass)
    requires
        1 <= size <= 1048576,
    ensures
        class.smallest() <= size <= class.largest() <==> class == class_of(size),
{
}

/// Larger sizes never belong to smaller classes.
pub proof fn classes_are_monotone(a: nat, b: nat)
    requires
        a <= b,
    ensures
        class_of(a).pos() <= class_of(b).pos(),
{
}

/// The fallbacks of a class are larger classes.
pub proof fn fallbacks_are_larger(class: SizeClass, i: int)
    requires
        0 <= i < class.fallbacks().len(),
    ensures
        class.fallbacks()[i].pos() > class.pos(),
        class.fallbacks()[i].largest() > class.largest(),
{
}

/// The classes part all sizes among them: a size belongs to the class between
/// whose smallest and largest size it lies, each class starts where the one
/// before it ends, and larger sizes never belong to smaller classes.
pub proof fn classes_part_the_sizes(a: nat, b: nat, i: int)
    requires
        1 <= a <= b,
    ensures
        class_of(a).smallest() <= a,
        a <= class_of(a).largest() || class_of(a) == SizeClass::Giant,
        class_of(a).pos() <= class_of(b).pos(),
        0 <= i < 5 ==> class_at(i).pos() == i,
        0 <= i < 4 ==> class_at(i + 1).smallest() == class_at(i).largest() + 1,
        0 <= i < 4 ==> class_at(i + 1).kept() < class_at(i).kept(),
{
}

/// Where a class has no buffer, the next larger classes are tried, two at most,
/// the nearest first.
pub proof fn fallbacks_are_the_next_classes(c: SizeClass, j: int)
    ensures
        c.fallbacks().len() <= 2,
        c.pos() <= 2 ==> c.fallbacks().len() == 2,
        c.fallbacks().len() == 2 || c.pos() + c.fallbacks().len() == 4,
        0 <= j < c.fallbacks().len() ==> c.fallbacks()[j].pos() == c.pos() + 1 + j,
{
}

} // verus!
