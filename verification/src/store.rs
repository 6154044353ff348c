//! Values by number.

use vstd::prelude::*;
use vstd::string::*;

use crate::dash::{
    NamedMap, NumberedMap, named_entries, named_get, named_insert, named_new, numbered_entries,
    numbered_get, numbered_insert, numbered_new, numbered_remove,
};

verus! {

/// Values by number, with the position of each in a map.
pub struct NumberedStore<T> {
    index: NumberedMap,
    entries: Vec<(u64, T)>,
}

impl<T> NumberedStore<T> {
    /// Every number leads to its one entry.
    pub closed spec fn wf(self) -> bool {
        &&& forall|i: int|
            0 <= i < self.entries@.len() ==> {
                &&& numbered_entries(self.index).contains_key((#[trigger] self.entries@[i]).0)
                &&& numbered_entries(self.index)[self.entries@[i].0] == i
            }
        &&& forall|id: u64| #[trigger]
            numbered_entries(self.index).contains_key(id) ==> {
                &&& numbered_entries(self.index)[id] < self.entries@.len()
                &&& self.entries@[numbered_entries(self.index)[id] as int].0 == id
            }
    }

    /// The values by number.
    pub closed spec fn map(self) -> Map<u64, T> {
        Map::new(
            |id: u64| numbered_entries(self.index).contains_key(id),
            |id: u64| self.entries@[numbered_entries(self.index)[id] as int].1,
        )
    }

    /// No values.
    pub fn new() -> (s: Self)
        ensures
            s.wf(),
            s.map() == Map::<u64, T>::empty(),
    {
        let s: NumberedStore<T> = NumberedStore { index: numbered_new(), entries: Vec::new() };
        proof {
            assert(s.map() =~= Map::<u64, T>::empty());
        }
        s
    }

    /// Stores a value under a number; an earlier one is replaced.
    pub fn insert(&mut self, id: u64, value: T)
        requires
            old(self).wf(),
        ensures
            final(self).wf(),
            final(self).map() == old(self).map().insert(id, value),
    {
        let count: usize = self.entries.len();
        match numbered_get(&self.index, id) {
            Some(i) => {
                self.entries.set(i as usize, (id, value));
                proof {
                    assert forall|k: int| 0 <= k < self.entries@.len() implies {
                        &&& numbered_entries(self.index).contains_key(
                            (#[trigger] self.entries@[k]).0,
                        )
                        &&& numbered_entries(self.index)[self.entries@[k].0] == k
                    } by {
                        assert(old(self).entries@[k].0 == self.entries@[k].0);
                    }
                    assert(self.map() =~= old(self).map().insert(id, value));
                }
            },
            None => {
                self.entries.push((id, value));
                numbered_insert(&mut self.index, id, count as u64);
                proof {
                    assert forall|k: int| 0 <= k < self.entries@.len() implies {
                        &&& numbered_entries(self.index).contains_key(
                            (#[trigger] self.entries@[k]).0,
                        )
                        &&& numbered_entries(self.index)[self.entries@[k].0] == k
                    } by {
                        if k < count {
                            assert(old(self).entries@[k] == self.entries@[k]);
                        }
                    }
                    assert(self.map() =~= old(self).map().insert(id, value));
                }
            },
        }
    }

    /// The value stored under a number.
    pub fn get(&self, id: u64) -> (r: Option<&T>)
        requires
            self.wf(),
        ensures
            r is Some <==> self.map().contains_key(id),
            r matches Some(v) ==> *v == self.map()[id],
    {
        assert(self.entries@.len() == self.entries.len());
        match numbered_get(&self.index, id) {
            Some(i) => Some(&self.entries[i as usize].1),
            None => None,
        }
    }

    /// What is stored under a number, to be changed. There must be something.
    pub fn get_mut(&mut self, id: u64) -> (v: &mut T)
        requires
            old(self).wf(),
            old(self).map().contains_key(id),
        ensures
            *v == old(self).map()[id],
            final(self).wf(),
            final(self).map() == old(self).map().insert(id, *final(v)),
    {
        let ghost before = *self;
        assert(self.entries@.len() == self.entries.len());
        let i: usize = match numbered_get(&self.index, id) {
            Some(i) => i as usize,
            None => 0,
        };
        proof {
            assert forall|after: Self|
                #![trigger after.entries@]
                after.index == before.index && after.entries@.len() == before.entries@.len()
                    && after.entries@[i as int].0 == id && (forall|k: int|
                    0 <= k < after.entries@.len() && k != i ==> after.entries@[k]
                        == before.entries@[k]) implies after.wf() && after.map()
                == before.map().insert(id, after.entries@[i as int].1) by {
                assert(after.map() =~= before.map().insert(id, after.entries@[i as int].1));
            }
        }
        &mut self.entries[i].1
    }

    /// Removes what is stored under a number.
    pub fn remove(&mut self, id: u64)
        requires
            old(self).wf(),
        ensures
            final(self).wf(),
            final(self).map() == old(self).map().remove(id),
    {
        let count: usize = self.entries.len();
        match numbered_get(&self.index, id) {
            None => {
                proof {
                    assert(self.map() =~= old(self).map().remove(id));
                }
            },
            Some(i) => {
                let last: u64 = self.entries[count - 1].0;
                let _removed: (u64, T) = self.entries.swap_remove(i as usize);
                if last != id {
                    numbered_insert(&mut self.index, last, i);
                }
                numbered_remove(&mut self.index, id);
                proof {
                    let before = old(self).entries@;
                    assert forall|k: int| 0 <= k < self.entries@.len() implies {
                        &&& numbered_entries(self.index).contains_key(
                            (#[trigger] self.entries@[k]).0,
                        )
                        &&& numbered_entries(self.index)[self.entries@[k].0] == k
                    } by {
                        if k == i {
                            assert(self.entries@[k] == before[count - 1]);
                            assert(before[count - 1].0 == last);
                        } else {
                            assert(self.entries@[k] == before[k]);
                            assert(numbered_entries(old(self).index)[before[k].0] == k);
                            assert(numbered_entries(old(self).index)[before[count - 1].0] == count
                                - 1);
                        }
                    }
                    assert forall|other: u64| #[trigger]
                        numbered_entries(self.index).contains_key(other) implies {
                        &&& numbered_entries(self.index)[other] < self.entries@.len()
                        &&& self.entries@[numbered_entries(self.index)[other] as int].0 == other
                    } by {
                        assert(numbered_entries(old(self).index).contains_key(other));
                        let j = numbered_entries(old(self).index)[other] as int;
                        if other != last {
                            assert(before[j].0 == other);
                            assert(j != count - 1);
                        }
                    }
                    assert forall|other: u64| other != id && #[trigger] old(
                        self,
                    ).map().contains_key(other) implies self.map().contains_key(other)
                        && self.map()[other] == old(self).map()[other] by {
                        assert(numbered_entries(old(self).index).contains_key(other));
                        let j = numbered_entries(old(self).index)[other] as int;
                        assert(before[j].0 == other);
                        if other == last {
                            assert(numbered_entries(old(self).index)[before[count - 1].0] == count
                                - 1);
                        } else {
                            assert(j != count - 1);
                        }
                    }
                    assert(self.map() =~= old(self).map().remove(id));
                }
            },
        }
    }

    /// The numbers in use.
    pub fn ids(&self) -> (v: Vec<u64>)
        requires
            self.wf(),
        ensures
            forall|id: u64| v@.contains(id) <==> #[trigger] self.map().contains_key(id),
            v@.no_duplicates(),
    {
        let mut v: Vec<u64> = Vec::new();
        let mut i: usize = 0;
        while i < self.entries.len()
            invariant
                i <= self.entries@.len(),
                v@.len() == i,
                forall|k: int| 0 <= k < i ==> #[trigger] v@[k] == self.entries@[k].0,
            decreases self.entries@.len() - i,
        {
            v.push(self.entries[i].0);
            i += 1;
        }
        proof {
            assert forall|id: u64| v@.contains(id) <==> #[trigger] self.map().contains_key(id) by {
                if v@.contains(id) {
                    let k = choose|k: int| 0 <= k < v@.len() && v@[k] == id;
                    assert(self.entries@[k].0 == id);
                }
                if self.map().contains_key(id) {
                    assert(numbered_entries(self.index).contains_key(id));
                    let k = numbered_entries(self.index)[id] as int;
                    assert(v@[k] == id);
                }
            }
            assert forall|a: int, b: int|
                0 <= a < v@.len() && 0 <= b < v@.len() && a != b implies v@[a] != v@[b] by {
                assert(numbered_entries(self.index)[self.entries@[a].0] == a);
                assert(numbered_entries(self.index)[self.entries@[b].0] == b);
            }
        }
        v
    }

    /// The number of values.
    pub fn len(&self) -> (n: usize)
        requires
            self.wf(),
        ensures
            self.map().dom().finite(),
            n == self.map().len(),
    {
        proof {
            let ids = self.entries@.map_values(|e: (u64, T)| e.0);
            assert forall|a: int, b: int|
                0 <= a < ids.len() && 0 <= b < ids.len() && a != b implies ids[a] != ids[b] by {
                assert(numbered_entries(self.index)[self.entries@[a].0] == a);
                assert(numbered_entries(self.index)[self.entries@[b].0] == b);
            }
            assert forall|id: u64| ids.contains(id) <==> #[trigger] self.map().contains_key(
                id,
            ) by {
                if ids.contains(id) {
                    let k = choose|k: int| 0 <= k < ids.len() && ids[k] == id;
                    assert(self.entries@[k].0 == id);
                }
                if self.map().contains_key(id) {
                    let k = numbered_entries(self.index)[id] as int;
                    assert(ids[k] == id);
                }
            }
            assert(self.map().dom() =~= ids.to_set());
            ids.unique_seq_to_set();
            vstd::seq_lib::seq_to_set_is_finite(ids);
        }
        self.entries.len()
    }
}

/// Values by name, in the order in which the names were added.
pub struct NamedStore<T> {
    index: NamedMap,
    entries: Vec<(String, T)>,
}

impl<T> NamedStore<T> {
    /// Names and values, in the order in which the names were added.
    pub closed spec fn items(self) -> Seq<(String, T)> {
        self.entries@
    }

    /// The position of a name.
    pub closed spec fn position(self, name: Seq<char>) -> Option<int> {
        if named_entries(self.index).contains_key(name) {
            Some(named_entries(self.index)[name] as int)
        } else {
            None
        }
    }

    /// Every name has one position, and the entry there is that of the name.
    pub open spec fn wf(self) -> bool {
        &&& forall|i: int|
            0 <= i < self.items().len() ==> self.position((#[trigger] self.items()[i]).0@) == Some(
                i,
            )
        &&& forall|name: Seq<char>|
            (#[trigger] self.position(name)) matches Some(i) ==> 0 <= i < self.items().len()
                && self.items()[i].0@ == name
    }

    /// No names.
    pub fn new() -> (s: Self)
        ensures
            s.wf(),
            s.items().len() == 0,
            forall|name: Seq<char>| #[trigger] s.position(name) is None,
    {
        NamedStore { index: named_new(), entries: Vec::new() }
    }

    /// The position of a name, if it was added.
    pub fn find(&self, name: &str) -> (r: Option<usize>)
        requires
            self.wf(),
        ensures
            r is Some <==> self.position(name@) is Some,
            r matches Some(i) ==> self.position(name@) == Some(i as int) && i < self.items().len(),
    {
        assert(self.entries@.len() == self.entries.len());
        match named_get(&self.index, name) {
            Some(i) => {
                proof {
                    assert(self.position(name@) == Some(i as int));
                }
                Some(i as usize)
            },
            None => None,
        }
    }

    /// Adds a name that is new.
    pub fn add(&mut self, name: &str, value: T) -> (i: usize)
        requires
            old(self).wf(),
            old(self).position(name@) is None,
        ensures
            final(self).wf(),
            i == old(self).items().len(),
            final(self).items().len() == i + 1,
            final(self).items().take(i as int) == old(self).items(),
            final(self).items()[i as int].0@ == name@,
            final(self).items()[i as int].1 == value,
            forall|other: Seq<char>| #[trigger]
                final(self).position(other) == if other == name@ {
                    Some(i as int)
                } else {
                    old(self).position(other)
                },
    {
        let i: usize = self.entries.len();
        self.entries.push((String::from_str(name), value));
        named_insert(&mut self.index, String::from_str(name), i as u64);
        proof {
            assert(self.items().take(i as int) =~= old(self).items());
            assert forall|other: Seq<char>| #[trigger]
                self.position(other) == if other == name@ {
                    Some(i as int)
                } else {
                    old(self).position(other)
                } by {}
            assert forall|k: int| 0 <= k < self.items().len() implies self.position(
                (#[trigger] self.items()[k]).0@,
            ) == Some(k) by {
                if k < i {
                    assert(self.items()[k] == old(self).items()[k]);
                    assert(old(self).position(old(self).items()[k].0@) == Some(k));
                }
            }
            assert forall|other: Seq<char>|
                (#[trigger] self.position(other)) is Some implies 0 <= self.position(other).unwrap()
                < self.items().len() && self.items()[self.position(other).unwrap()].0@ == other by {
                if other != name@ {
                    assert(self.position(other) == old(self).position(other));
                }
            }
        }
        i
    }

    /// The number of names.
    pub fn len(&self) -> (n: usize)
        ensures
            n == self.items().len(),
    {
        self.entries.len()
    }

    /// The value at a position.
    pub fn get(&self, i: usize) -> (v: &T)
        requires
            i < self.items().len(),
        ensures
            *v == self.items()[i as int].1,
    {
        &self.entries[i].1
    }

    /// The name at a position.
    pub fn name(&self, i: usize) -> (s: &String)
        requires
            i < self.items().len(),
        ensures
            *s == self.items()[i as int].0,
    {
        &self.entries[i].0
    }

    /// Replaces the value at a position, and returns the one before.
    pub fn replace(&mut self, i: usize, value: T) -> (before: T)
        requires
            old(self).wf(),
            i < old(self).items().len(),
        ensures
            final(self).wf(),
            before == old(self).items()[i as int].1,
            final(self).items().len() == old(self).items().len(),
            final(self).items()[i as int].0 == old(self).items()[i as int].0,
            final(self).items()[i as int].1 == value,
            forall|k: int|
                0 <= k < final(self).items().len() && k != i ==> (#[trigger] final(
                    self).items()[k]) == old(self).items()[k],
            forall|other: Seq<char>| #[trigger] final(self).position(other) == old(self).position(
                other,
            ),
    {
        let mut value: T = value;
        std::mem::swap(&mut self.entries[i].1, &mut value);
        proof {
            assert forall|other: Seq<char>| #[trigger] self.position(other) == old(self).position(
                other,
            ) by {}
            assert forall|k: int| 0 <= k < self.items().len() implies self.position(
                (#[trigger] self.items()[k]).0@,
            ) == Some(k) by {
                assert(old(self).position(old(self).items()[k].0@) == Some(k));
                assert(self.items()[k].0 == old(self).items()[k].0);
            }
            assert forall|other: Seq<char>|
                (#[trigger] self.position(other)) is Some implies 0 <= self.position(other).unwrap()
                < self.items().len() && self.items()[self.position(other).unwrap()].0@ == other by {
                assert(self.position(other) == old(self).position(other));
            }
        }
        value
    }

    /// Forgets all names.
    pub fn clear(&mut self)
        ensures
            final(self).wf(),
            final(self).items().len() == 0,
            forall|name: Seq<char>| #[trigger] final(self).position(name) is None,
    {
        self.index = named_new();
        self.entries = Vec::new();
    }
}

impl<T> NamedStore<T> {
    /// The value of a name, if it has one.
    pub open spec fn lookup(self, name: Seq<char>) -> Option<T> {
        match self.position(name) {
            Some(i) => Some(self.items()[i].1),
            None => None,
        }
    }

    /// Gives a name a value; the one before is handed back.
    pub fn put(&mut self, name: &str, value: T) -> (before: Option<T>)
        requires
            old(self).wf(),
        ensures
            final(self).wf(),
            before == old(self).lookup(name@),
            final(self).lookup(name@) == Some(value),
            forall|other: Seq<char>|
                other != name@ ==> #[trigger] final(self).lookup(other) == old(self).lookup(other),
    {
        match self.find(name) {
            Some(i) => {
                let before: T = self.replace(i, value);
                proof {
                    assert forall|other: Seq<char>| other != name@ implies #[trigger] self.lookup(
                        other,
                    ) == old(self).lookup(other) by {
                        assert(self.position(other) == old(self).position(other));
                        if let Some(k) = old(self).position(other) {
                            assert(old(self).items()[k].0@ == other);
                            assert(old(self).items()[i as int].0@ == name@);
                        }
                    }
                }
                Some(before)
            },
            None => {
                let i: usize = self.add(name, value);
                proof {
                    assert forall|other: Seq<char>| other != name@ implies #[trigger] self.lookup(
                        other,
                    ) == old(self).lookup(other) by {
                        assert(self.position(other) == old(self).position(other));
                        if let Some(k) = old(self).position(other) {
                            assert(self.items().take(i as int)[k] == self.items()[k]);
                        }
                    }
                }
                None
            },
        }
    }
}

} // verus!
