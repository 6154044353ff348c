//! How resources are shared among the components.

use vstd::prelude::*;
use vstd::string::*;

use crate::dash::entries_total;
use crate::ratio::Ratio;

verus! {

/// Whether a list holds one name with one number.
pub open spec fn is_entry(e: (String, u64), name: Seq<char>, n: u64) -> bool {
    e.0@ == name && e.1 == n
}

/// Shares out resources.
#[derive(Debug)]
pub struct ResourceScheduler {
    /// The weight of each component, in any unit.
    pub component_weights: Vec<(String, u64)>,
    /// The last shares, in the order of the components.
    pub resource_allocation: Vec<(String, Ratio)>,
    /// How much there is of each resource.
    pub resource_limits: Vec<(String, u64)>,
}

/// The share of a weight in a total.
pub open spec fn share_of(weight: u64, all: nat, total_resources: u64) -> Ratio {
    Ratio { part: (weight * total_resources) as u64, whole: all as u64 }
}

/// Whether `shares` are the shares of some components in a total, each by its
/// weight among all weights.
pub open spec fn are_shares(
    weights: Seq<(String, u64)>,
    total_resources: u64,
    shares: Seq<(String, Ratio)>,
) -> bool {
    &&& shares.len() == weights.len()
    &&& forall|i: int|
        0 <= i < weights.len() ==> (#[trigger] shares[i]).0@ == weights[i].0@ && shares[i].1
            == share_of(weights[i].1, entries_total(weights), total_resources)
}

/// Whether all shares can be counted.
pub open spec fn shares_fit(weights: Seq<(String, u64)>, total_resources: u64) -> bool {
    &&& entries_total(weights) <= u64::MAX
    &&& forall|i: int|
        0 <= i < weights.len() ==> (#[trigger] weights[i]).1 * total_resources <= u64::MAX
}

fn sum_of_weights(weights: &Vec<(String, u64)>) -> (n: u64)
    requires
        entries_total(weights@) <= u64::MAX,
    ensures
        n == entries_total(weights@),
{
    let mut n: u64 = 0;
    let mut i: usize = 0;
    proof {
        assert(weights@.take(0) =~= Seq::empty());
    }
    while i < weights.len()
        invariant
            i <= weights@.len(),
            n == entries_total(weights@.take(i as int)),
            entries_total(weights@) <= u64::MAX,
        decreases weights@.len() - i,
    {
        proof {
            assert(weights@.take(i as int + 1).drop_last() =~= weights@.take(i as int));
            prefixes_weigh_less(weights@, i as int + 1);
        }
        n = n + weights[i].1;
        i += 1;
    }
    proof {
        assert(weights@.take(i as int) =~= weights@);
    }
    n
}

proof fn prefixes_weigh_less(weights: Seq<(String, u64)>, k: int)
    requires
        0 <= k <= weights.len(),
    ensures
        entries_total(weights.take(k)) <= entries_total(weights),
    decreases weights.len(),
{
    if k == weights.len() {
        assert(weights.take(k) =~= weights);
    } else {
        assert(weights.drop_last().take(k) =~= weights.take(k));
        prefixes_weigh_less(weights.drop_last(), k);
    }
}

fn entry(name: &str, n: u64) -> (e: (String, u64))
    ensures
        is_entry(e, name@, n),
{
    (String::from_str(name), n)
}

impl ResourceScheduler {
    /// The usual weights, in hundredths, and limits. Nothing is shared out yet.
    pub fn new() -> (s: Self)
        ensures
            s.component_weights@.len() == 6,
            is_entry(s.component_weights@[0], "dispatcher"@, 30),
            is_entry(s.component_weights@[1], "crypto"@, 25),
            is_entry(s.component_weights@[2], "reader"@, 15),
            is_entry(s.component_weights@[3], "writer"@, 15),
            is_entry(s.component_weights@[4], "adaptive_batcher"@, 10),
            is_entry(s.component_weights@[5], "qos"@, 5),
            entries_total(s.component_weights@) == 100,
            s.resource_limits@.len() == 5,
            is_entry(s.resource_limits@[0], "cpu"@, 100),
            is_entry(s.resource_limits@[1], "memory"@, 8192),
            is_entry(s.resource_limits@[2], "network"@, 1000),
            is_entry(s.resource_limits@[3], "disk_io"@, 500),
            is_entry(s.resource_limits@[4], "concurrent_tasks"@, 1000),
            s.resource_allocation@.len() == 0,
    {
        let mut weights: Vec<(String, u64)> = Vec::new();
        weights.push(entry("dispatcher", 30));
        weights.push(entry("crypto", 25));
        weights.push(entry("reader", 15));
        weights.push(entry("writer", 15));
        weights.push(entry("adaptive_batcher", 10));
        weights.push(entry("qos", 5));
        proof {
            reveal_with_fuel(entries_total, 7);
        }
        let mut limits: Vec<(String, u64)> = Vec::new();
        limits.push(entry("cpu", 100));
        limits.push(entry("memory", 8192));
        limits.push(entry("network", 1000));
        limits.push(entry("disk_io", 500));
        limits.push(entry("concurrent_tasks", 1000));
        ResourceScheduler {
            component_weights: weights,
            resource_allocation: Vec::new(),
            resource_limits: limits,
        }
    }

    /// Shares out a total: each component gets the part of it that its weight
    /// is of all weights.
    pub fn proportional_allocation(&mut self, total_resources: u64) -> (shares: Vec<
        (String, Ratio),
    >)
        requires
            shares_fit(old(self).component_weights@, total_resources),
        ensures
            are_shares(old(self).component_weights@, total_resources, shares@),
            are_shares(
                old(self).component_weights@,
                total_resources,
                final(self).resource_allocation@,
            ),
            *final(self) == (ResourceScheduler {
                resource_allocation: final(self).resource_allocation,
                ..*old(self)
            }),
            shares@.len() == old(self).component_weights@.len(),
            forall|i: int|
                0 <= i < shares@.len() ==> {
                    let w = old(self).component_weights@[i];
                    &&& (#[trigger] shares@[i]).0@ == w.0@
                    &&& shares@[i].1.part == w.1 * total_resources
                    &&& shares@[i].1.whole == entries_total(old(self).component_weights@)
                },
    {
        let all: u64 = sum_of_weights(&self.component_weights);
        let mut shares: Vec<(String, Ratio)> = Vec::new();
        let mut kept: Vec<(String, Ratio)> = Vec::new();
        let mut i: usize = 0;
        while i < self.component_weights.len()
            invariant
                *self == *old(self),
                i <= self.component_weights@.len(),
                shares_fit(self.component_weights@, total_resources),
                all == entries_total(self.component_weights@),
                shares@.len() == i,
                kept@.len() == i,
                forall|k: int|
                    0 <= k < i ==> (#[trigger] shares@[k]).0@ == self.component_weights@[k].0@
                        && shares@[k].1 == share_of(
                        self.component_weights@[k].1,
                        all as nat,
                        total_resources,
                    ),
                forall|k: int|
                    0 <= k < i ==> (#[trigger] kept@[k]).0@ == self.component_weights@[k].0@
                        && kept@[k].1 == share_of(
                        self.component_weights@[k].1,
                        all as nat,
                        total_resources,
                    ),
            decreases self.component_weights@.len() - i,
        {
            let weight: u64 = self.component_weights[i].1;
            assert(self.component_weights@[i as int].1 * total_resources <= u64::MAX);
            let share: Ratio = Ratio::new(weight * total_resources, all);
            shares.push((self.component_weights[i].0.clone(), share));
            kept.push((self.component_weights[i].0.clone(), share));
            i += 1;
        }
        self.resource_allocation = kept;
        shares
    }
}

/// The sum of the parts of some shares.
pub open spec fn parts_total(shares: Seq<(String, Ratio)>) -> nat
    decreases shares.len(),
{
    if shares.len() == 0 {
        0
    } else {
        parts_total(shares.drop_last()) + shares.last().1.part as nat
    }
}

/// The shares add up to the whole.
pub proof fn shares_add_up(
    weights: Seq<(String, u64)>,
    total_resources: u64,
    shares: Seq<(String, Ratio)>,
)
    requires
        shares_fit(weights, total_resources),
        are_shares(weights, total_resources, shares),
    ensures
        parts_total(shares) == entries_total(weights) * total_resources,
{
    parts_add_up(weights, total_resources, shares);
}

proof fn parts_add_up(
    weights: Seq<(String, u64)>,
    total_resources: u64,
    shares: Seq<(String, Ratio)>,
)
    requires
        shares.len() == weights.len(),
        forall|i: int|
            0 <= i < weights.len() ==> (#[trigger] shares[i]).1.part == weights[i].1
                * total_resources,
    ensures
        parts_total(shares) == entries_total(weights) * total_resources,
    decreases weights.len(),
{
    if weights.len() > 0 {
        let (w, s) = (weights.drop_last(), shares.drop_last());
        assert forall|i: int| 0 <= i < w.len() implies (#[trigger] s[i]).1.part == w[i].1
            * total_resources by {
            assert(s[i] == shares[i] && w[i] == weights[i]);
        }
        parts_add_up(w, total_resources, s);
        let (a, b, t) = (entries_total(w) as int, weights.last().1 as int, total_resources as int);
        assert(shares[shares.len() - 1].1.part == b * t);
        assert((a + b) * t == a * t + b * t) by (nonlinear_arith);
    } else {
        assert(0 * (total_resources as int) == 0);
    }
}

} // verus!
