//! The concurrent maps of the `dashmap` crate: counters by name and small
//! tables by number.

use dashmap::DashMap;
use vstd::prelude::*;
use vstd::string::*;

verus! {

/// `dashmap::DashMap`, a concurrent hash map.
#[verifier::external_type_specification]
#[verifier::external_body]
#[verifier::reject_recursive_types(K)]
#[verifier::reject_recursive_types(V)]
#[verifier::reject_recursive_types(S)]
pub struct ExDashMap<K, V, S>(DashMap<K, V, S>);

/// A map from names to numbers.
pub type NamedMap = DashMap<String, u64>;

/// A map from numbers to numbers.
pub type NumberedMap = DashMap<u64, u64>;

/// What a map from names to numbers holds.
pub uninterp spec fn named_entries(m: DashMap<String, u64>) -> Map<Seq<char>, u64>;

/// What a map from numbers to numbers holds.
pub uninterp spec fn numbered_entries(m: DashMap<u64, u64>) -> Map<u64, u64>;

/// `DashMap::new`: holds nothing.
#[verifier::external_body]
pub(crate) fn named_new() -> (m: NamedMap)
    ensures
        forall|name: Seq<char>| !named_entries(m).contains_key(name),
{
    DashMap::new()
}

/// `DashMap::get`, the value copied out: what the map holds for the name.
#[verifier::external_body]
pub(crate) fn named_get(m: &DashMap<String, u64>, name: &str) -> (r: Option<u64>)
    ensures
        r is Some <==> named_entries(*m).contains_key(name@),
        r matches Some(v) ==> v == named_entries(*m)[name@],
{
    m.get(name).map(|e| *e.value())
}

/// `DashMap::insert`: the map holds the value for the name, and all else as
/// before. The value returned, the one replaced, is dropped.
#[verifier::external_body]
pub(crate) fn named_insert(m: &mut DashMap<String, u64>, name: String, value: u64)
    ensures
        named_entries(*final(m)) == named_entries(*old(m)).insert(name@, value),
{
    m.insert(name, value);
}

/// Whether a point in time lies less than `age` before `now`.
pub open spec fn recent(time: u64, now: u64, age: u64) -> bool {
    time > now || now - time < age
}

/// Whether a point in time lies less than `age` before `now`.
pub fn is_recent(time: u64, now: u64, age: u64) -> (r: bool)
    ensures
        r == recent(time, now, age),
        r <==> time > now || now - time < age,
{
    time > now || now - time < age
}

/// `DashMap::retain` with `is_recent` on the values: the map holds what it
/// held before, without the values that are not recent.
#[verifier::external_body]
pub(crate) fn named_retain_recent(m: &mut DashMap<String, u64>, now: u64, age: u64)
    ensures
        forall|name: Seq<char>|
            #![trigger named_entries(*final(m)).contains_key(name)]
            named_entries(*final(m)).contains_key(name) == (named_entries(*old(m)).contains_key(
                name,
            ) && recent(named_entries(*old(m))[name], now, age)),
        forall|name: Seq<char>|
            #![trigger named_entries(*final(m))[name]]
            named_entries(*final(m)).contains_key(name) ==> named_entries(*final(m))[name]
                == named_entries(*old(m))[name],
{
    m.retain(|_, time| is_recent(*time, now, age));
}

/// `DashMap::new`: holds nothing.
#[verifier::external_body]
pub(crate) fn numbered_new() -> (m: NumberedMap)
    ensures
        forall|key: u64| !numbered_entries(m).contains_key(key),
{
    DashMap::new()
}

/// `DashMap::get`, the value copied out: what the map holds for the key.
#[verifier::external_body]
pub(crate) fn numbered_get(m: &DashMap<u64, u64>, key: u64) -> (r: Option<u64>)
    ensures
        r is Some <==> numbered_entries(*m).contains_key(key),
        r matches Some(v) ==> v == numbered_entries(*m)[key],
{
    m.get(&key).map(|e| *e.value())
}

/// `DashMap::insert`: the map holds the value for the key, and all else as
/// before. The value returned, the one replaced, is dropped.
#[verifier::external_body]
pub(crate) fn numbered_insert(m: &mut DashMap<u64, u64>, key: u64, value: u64)
    ensures
        numbered_entries(*final(m)) == numbered_entries(*old(m)).insert(key, value),
{
    m.insert(key, value);
}

/// `DashMap::remove`: the map holds nothing for the key, and all else as
/// before. What is returned, the entry removed, is dropped.
#[verifier::external_body]
pub(crate) fn numbered_remove(m: &mut DashMap<u64, u64>, key: u64)
    ensures
        numbered_entries(*final(m)) == numbered_entries(*old(m)).remove(key),
{
    m.remove(&key);
}

/// Whether a list holds every entry of a map once, in any order.
pub open spec fn lists(entries: Seq<(u64, u64)>, map: Map<u64, u64>) -> bool {
    &&& forall|i: int|
        0 <= i < entries.len() ==> map.contains_key((#[trigger] entries[i]).0)
            && map[entries[i].0] == entries[i].1
    &&& forall|i: int, j: int|
        0 <= i < j < entries.len() ==> (#[trigger] entries[i]).0 != (#[trigger] entries[j]).0
    &&& forall|key: u64| #[trigger]
        map.contains_key(key) ==> exists|i: int|
            0 <= i < entries.len() && (#[trigger] entries[i]).0 == key
}

/// `DashMap::iter`, each entry copied out: every entry of the map once. The
/// order in which they come is not stated.
#[verifier::external_body]
pub(crate) fn numbered_list(m: &DashMap<u64, u64>) -> (entries: Vec<(u64, u64)>)
    ensures
        lists(entries@, numbered_entries(*m)),
{
    m.iter().map(|e| (*e.key(), *e.value())).collect()
}

/// Whether a list holds every entry of a map from names once, in any order.
pub open spec fn lists_named(entries: Seq<(String, u64)>, map: Map<Seq<char>, u64>) -> bool {
    &&& forall|i: int|
        0 <= i < entries.len() ==> map.contains_key((#[trigger] entries[i]).0@)
            && map[entries[i].0@] == entries[i].1
    &&& forall|i: int, j: int|
        0 <= i < j < entries.len() ==> (#[trigger] entries[i]).0@ != (#[trigger] entries[j]).0@
    &&& forall|name: Seq<char>| #[trigger]
        map.contains_key(name) ==> exists|i: int|
            0 <= i < entries.len() && (#[trigger] entries[i]).0@ == name
}

/// `DashMap::iter`, each entry copied out: every entry of the map once. The
/// order in which they come is not stated.
#[verifier::external_body]
pub(crate) fn named_list(m: &DashMap<String, u64>) -> (entries: Vec<(String, u64)>)
    ensures
        lists_named(entries@, named_entries(*m)),
{
    m.iter().map(|e| (e.key().clone(), *e.value())).collect()
}

/// The sum of the numbers in a list of entries.
pub open spec fn entries_total(entries: Seq<(String, u64)>) -> nat
    decreases entries.len(),
{
    if entries.len() == 0 {
        0
    } else {
        entries_total(entries.drop_last()) + entries.last().1 as nat
    }
}

/// Numbers by number.
pub struct Numbers {
    map: DashMap<u64, u64>,
}

impl View for Numbers {
    type V = Map<u64, u64>;

    closed spec fn view(&self) -> Map<u64, u64> {
        numbered_entries(self.map)
    }
}

impl Numbers {
    /// No numbers.
    pub fn new() -> (n: Self)
        ensures
            n@ == Map::<u64, u64>::empty(),
    {
        let n: Numbers = Numbers { map: numbered_new() };
        proof {
            assert(n@ =~= Map::<u64, u64>::empty());
        }
        n
    }

    /// The number of a key, if it has one.
    pub fn get(&self, key: u64) -> (r: Option<u64>)
        ensures
            r is Some <==> self@.contains_key(key),
            r matches Some(v) ==> v == self@[key],
    {
        numbered_get(&self.map, key)
    }

    /// Gives a key a number.
    pub fn set(&mut self, key: u64, value: u64)
        ensures
            final(self)@ == old(self)@.insert(key, value),
    {
        numbered_insert(&mut self.map, key, value);
    }
}

/// Points in time by name.
pub struct NamedTimes {
    map: DashMap<String, u64>,
}

impl View for NamedTimes {
    type V = Map<Seq<char>, u64>;

    closed spec fn view(&self) -> Map<Seq<char>, u64> {
        named_entries(self.map)
    }
}

impl NamedTimes {
    /// No names.
    pub fn new() -> (t: Self)
        ensures
            t@ == Map::<Seq<char>, u64>::empty(),
    {
        let t: NamedTimes = NamedTimes { map: named_new() };
        proof {
            assert(t@ =~= Map::<Seq<char>, u64>::empty());
        }
        t
    }

    /// The time of a name, if it has one.
    pub fn get(&self, name: &str) -> (r: Option<u64>)
        ensures
            r is Some <==> self@.contains_key(name@),
            r matches Some(v) ==> v == self@[name@],
    {
        named_get(&self.map, name)
    }

    /// Gives a name a time.
    pub fn set(&mut self, name: String, time: u64)
        ensures
            final(self)@ == old(self)@.insert(name@, time),
    {
        named_insert(&mut self.map, name, time);
    }

    /// Forgets the times that are not recent.
    pub fn keep_recent(&mut self, now: u64, age: u64)
        ensures
            forall|name: Seq<char>|
                #![trigger final(self)@.contains_key(name)]
                final(self)@.contains_key(name) == (old(self)@.contains_key(name) && recent(
                    old(self)@[name],
                    now,
                    age,
                )),
            forall|name: Seq<char>|
                #![trigger final(self)@[name]]
                final(self)@.contains_key(name) ==> final(self)@[name] == old(self)@[name],
    {
        named_retain_recent(&mut self.map, now, age);
    }
}

/// Counters by name. A counter that was never counted reads as zero.
pub struct Counters {
    map: DashMap<String, u64>,
}

impl View for Counters {
    type V = Map<Seq<char>, u64>;

    closed spec fn view(&self) -> Map<Seq<char>, u64> {
        named_entries(self.map)
    }
}

/// The value of a counter.
pub open spec fn count_of(counters: Map<Seq<char>, u64>, name: Seq<char>) -> u64 {
    if counters.contains_key(name) {
        counters[name]
    } else {
        0
    }
}

/// The counters after counting `n` more under a name; counting wraps around
/// at the end of the range.
pub open spec fn counted(counters: Map<Seq<char>, u64>, name: Seq<char>, n: u64) -> Map<
    Seq<char>,
    u64,
> {
    counters.insert(name, ((count_of(counters, name) + n) % 0x1_0000_0000_0000_0000) as u64)
}

impl Counters {
    /// No counters.
    pub fn new() -> (c: Self)
        ensures
            c@ == Map::<Seq<char>, u64>::empty(),
    {
        let c: Counters = Counters { map: named_new() };
        proof {
            assert(c@ =~= Map::<Seq<char>, u64>::empty());
        }
        c
    }

    /// The value of a counter, if anything was counted under the name.
    pub fn get(&self, name: &str) -> (r: Option<u64>)
        ensures
            r is Some <==> self@.contains_key(name@),
            r matches Some(v) ==> v == self@[name@],
    {
        named_get(&self.map, name)
    }

    /// The value of a counter, zero if nothing was counted under the name.
    pub fn value(&self, name: &str) -> (v: u64)
        ensures
            v == count_of(self@, name@),
            self@.contains_key(name@) ==> v == self@[name@],
            !self@.contains_key(name@) ==> v == 0,
    {
        match self.get(name) {
            Some(v) => v,
            None => 0,
        }
    }

    /// Every counter once, in any order.
    pub fn list(&self) -> (entries: Vec<(String, u64)>)
        ensures
            lists_named(entries@, self@),
    {
        named_list(&self.map)
    }

    /// The same counters.
    pub fn copy(&self) -> (c: Self)
        ensures
            c@ == self@,
    {
        let entries: Vec<(String, u64)> = self.list();
        let mut c: Counters = Counters::new();
        let mut i: usize = 0;
        while i < entries.len()
            invariant
                i <= entries@.len(),
                lists_named(entries@, self@),
                forall|k: int|
                    0 <= k < i ==> c@.contains_key((#[trigger] entries@[k]).0@)
                        && c@[entries@[k].0@] == entries@[k].1,
                forall|name: Seq<char>| #[trigger]
                    c@.contains_key(name) ==> exists|k: int|
                        0 <= k < i && (#[trigger] entries@[k]).0@ == name,
            decreases entries@.len() - i,
        {
            let ghost before = c@;
            c.set(entries[i].0.as_str(), entries[i].1);
            proof {
                assert forall|name: Seq<char>| #[trigger] c@.contains_key(name) implies exists|
                    k: int,
                |
                    0 <= k < i + 1 && (#[trigger] entries@[k]).0@ == name by {
                    if before.contains_key(name) {
                        let k = choose|k: int| 0 <= k < i && (#[trigger] entries@[k]).0@ == name;
                        assert(entries@[k].0@ == name);
                    } else {
                        assert(entries@[i as int].0@ == name);
                    }
                }
            }
            i += 1;
        }
        proof {
            assert(c@ =~= self@);
        }
        c
    }

    /// The sum of all counters.
    pub fn total(&self) -> (n: u128)
        ensures
            forall|entries: Seq<(String, u64)>| #[trigger]
                lists_named(entries, self@) ==> n == entries_total(entries),
            exists|entries: Seq<(String, u64)>| #[trigger] lists_named(entries, self@),
    {
        let entries: Vec<(String, u64)> = self.list();
        let mut n: u128 = 0;
        let mut i: usize = 0;
        proof {
            assert(entries@.take(0) =~= Seq::empty());
        }
        while i < entries.len()
            invariant
                i <= entries@.len(),
                n == entries_total(entries@.take(i as int)),
                n <= i * 0xffff_ffff_ffff_ffff,
            decreases entries@.len() - i,
        {
            proof {
                assert(entries@.take(i as int + 1).drop_last() =~= entries@.take(i as int));
            }
            n = n + entries[i].1 as u128;
            i += 1;
        }
        proof {
            assert(entries@.take(i as int) =~= entries@);
            assert forall|other: Seq<(String, u64)>| #[trigger] lists_named(other, self@) implies n
                == entries_total(other) by {
                listings_have_one_total(entries@, other, self@);
            }
        }
        n
    }

    /// Replaces the value of a counter.
    pub fn set(&mut self, name: &str, value: u64)
        ensures
            final(self)@ == old(self)@.insert(name@, value),
    {
        named_insert(&mut self.map, String::from_str(name), value);
    }

    /// Counts `n` more under a name.
    pub fn add(&mut self, name: &str, n: u64)
        ensures
            final(self)@ == counted(old(self)@, name@, n),
            final(self)@.contains_key(name@),
            !old(self)@.contains_key(name@) ==> final(self)@[name@] == n,
            old(self)@.contains_key(name@) && old(self)@[name@] + n <= u64::MAX
                ==> final(self)@[name@]
                == old(self)@[name@] + n,
            final(self)@.remove(name@) == old(self)@.remove(name@),
    {
        let v: u64 = self.value(name);
        self.set(name, v.wrapping_add(n));
    }
}

proof fn total_without(entries: Seq<(String, u64)>, i: int)
    requires
        0 <= i < entries.len(),
    ensures
        entries_total(entries) == entries_total(entries.remove(i)) + entries[i].1,
    decreases entries.len(),
{
    if i == entries.len() - 1 {
        assert(entries.remove(i) =~= entries.drop_last());
    } else {
        total_without(entries.drop_last(), i);
        assert(entries.remove(i).drop_last() =~= entries.drop_last().remove(i));
        assert(entries.remove(i).last() == entries.last());
    }
}

proof fn listing_without(entries: Seq<(String, u64)>, map: Map<Seq<char>, u64>, i: int)
    requires
        lists_named(entries, map),
        0 <= i < entries.len(),
    ensures
        lists_named(entries.remove(i), map.remove(entries[i].0@)),
{
    let rest = entries.remove(i);
    let name = entries[i].0@;
    assert forall|k: int| 0 <= k < rest.len() implies map.remove(name).contains_key(
        (#[trigger] rest[k]).0@,
    ) && map.remove(name)[rest[k].0@] == rest[k].1 by {
        let at = if k < i {
            k
        } else {
            k + 1
        };
        assert(rest[k] == entries[at]);
        assert(entries[at].0@ != entries[i].0@);
    }
    assert forall|k: int, l: int| 0 <= k < l < rest.len() implies (#[trigger] rest[k]).0@ != (
    #[trigger] rest[l]).0@ by {
        let a = if k < i {
            k
        } else {
            k + 1
        };
        let b = if l < i {
            l
        } else {
            l + 1
        };
        assert(rest[k] == entries[a] && rest[l] == entries[b]);
    }
    assert forall|other: Seq<char>| #[trigger] map.remove(name).contains_key(other) implies exists|
        k: int,
    |
        0 <= k < rest.len() && (#[trigger] rest[k]).0@ == other by {
        assert(map.contains_key(other));
        let at = choose|at: int| 0 <= at < entries.len() && (#[trigger] entries[at]).0@ == other;
        let k = if at < i {
            at
        } else {
            at - 1
        };
        assert(rest[k] == entries[at]);
    }
}

/// However the counters are listed, they add up to the same.
pub proof fn listings_have_one_total(
    a: Seq<(String, u64)>,
    b: Seq<(String, u64)>,
    map: Map<Seq<char>, u64>,
)
    requires
        lists_named(a, map),
        lists_named(b, map),
    ensures
        entries_total(a) == entries_total(b),
    decreases a.len(),
{
    if a.len() == 0 {
        if b.len() > 0 {
            assert(map.contains_key(b[0].0@));
        }
    } else {
        let i = a.len() - 1;
        let name = a[i].0@;
        assert(map.contains_key(name));
        let j = choose|j: int| 0 <= j < b.len() && (#[trigger] b[j]).0@ == name;
        listing_without(a, map, i);
        listing_without(b, map, j);
        total_without(a, i);
        total_without(b, j);
        listings_have_one_total(a.remove(i), b.remove(j), map.remove(name));
    }
}

/// Counting under one name leaves every other counter as it is.
pub proof fn counting_is_independent(
    counters: Map<Seq<char>, u64>,
    name: Seq<char>,
    other: Seq<char>,
    n: u64,
)
    requires
        name != other,
    ensures
        count_of(counted(counters, name, n), other) == count_of(counters, other),
{
}

} // verus!
