//! Metrics by name, kept for a while.
//!
//! Metric values are of any type. Points in time and durations are
//! nanoseconds.

use vstd::prelude::*;
use vstd::string::*;

use crate::dash::{is_recent, recent};
use crate::history::{filter_step, newest};
use crate::store::NamedStore;

verus! {

/// One value of a metric.
#[derive(Debug)]
pub struct BatchSystemMetric<V> {
    pub value: V,
    pub timestamp: u64,
    pub tags: Vec<(String, String)>,
}

/// The values that are kept of a list: those of the retention time, and of
/// these the newest up to a limit.
pub open spec fn kept<V>(
    list: Seq<BatchSystemMetric<V>>,
    now: u64,
    retention: u64,
    max: nat,
) -> Seq<BatchSystemMetric<V>> {
    newest(list.filter(|m: BatchSystemMetric<V>| recent(m.timestamp, now, retention)), max)
}

/// Collects metrics.
pub struct BatchSystemMetricsCollector<V> {
    pub metrics: NamedStore<Vec<BatchSystemMetric<V>>>,
    pub retention_period: u64,
    pub max_metrics_per_name: usize,
}

fn drop_stale<V>(list: &mut Vec<BatchSystemMetric<V>>, now: u64, retention: u64, max: usize)
    ensures
        final(list)@ == kept(old(list)@, now, retention, max as nat),
{
    let ghost before = list@;
    let ghost keep = |m: BatchSystemMetric<V>| recent(m.timestamp, now, retention);
    let ghost mut k: int = 0;
    let mut i: usize = 0;
    proof {
        reveal(Seq::filter);
        assert(before.take(0).filter(keep) + before.skip(0) =~= before);
    }
    while i < list.len()
        invariant
            keep == (|m: BatchSystemMetric<V>| recent(m.timestamp, now, retention)),
            0 <= k <= before.len(),
            i == before.take(k).filter(keep).len(),
            list@ == before.take(k).filter(keep) + before.skip(k),
        decreases list@.len() - i,
    {
        let ghost head = before.take(k).filter(keep);
        proof {
            assert(list@[i as int] == before.skip(k)[0]);
            filter_step(before, keep, k);
            assert(before.skip(k).skip(1) =~= before.skip(k + 1));
        }
        if is_recent(list[i].timestamp, now, retention) {
            proof {
                assert(list@ =~= head.push(before[k]) + before.skip(k + 1));
            }
            i += 1;
        } else {
            let _stale: BatchSystemMetric<V> = list.remove(i);
            proof {
                assert(list@ =~= head + before.skip(k + 1));
            }
        }
        proof {
            k = k + 1;
        }
    }
    proof {
        assert(before.skip(k).len() == 0);
        assert(before.take(k) =~= before);
        assert(list@ =~= before.filter(keep));
    }
    let ghost fresh = list@;
    if list.len() > max {
        let excess: usize = list.len() - max;
        let tail: Vec<BatchSystemMetric<V>> = list.split_off(excess);
        *list = tail;
        proof {
            assert(list@ =~= fresh.skip(excess as int));
        }
    }
}

impl<V> BatchSystemMetricsCollector<V> {
    /// What holds of every collector.
    pub open spec fn wf(self) -> bool {
        self.metrics.wf()
    }

    /// A collector without metrics.
    pub fn new(retention_period: u64, max_metrics_per_name: usize) -> (c: Self)
        ensures
            c.wf(),
            c.metrics.items().len() == 0,
            c.retention_period == retention_period,
            c.max_metrics_per_name == max_metrics_per_name,
    {
        BatchSystemMetricsCollector {
            metrics: NamedStore::new(),
            retention_period,
            max_metrics_per_name,
        }
    }

    /// The values kept under a name; none under an unknown name.
    pub open spec fn values(self, name: Seq<char>) -> Seq<BatchSystemMetric<V>> {
        match self.metrics.position(name) {
            Some(i) => self.metrics.items()[i].1@,
            None => Seq::empty(),
        }
    }

    /// Adds a value under a name, then drops stale and surplus values of that
    /// name.
    pub fn record_metric(&mut self, name: &str, value: V, tags: Vec<(String, String)>, now: u64)
        requires
            old(self).wf(),
        ensures
            final(self).wf(),
            final(self).retention_period == old(self).retention_period,
            final(self).max_metrics_per_name == old(self).max_metrics_per_name,
            final(self).metrics.position(name@) is Some,
            final(self).values(name@) == kept(
                old(self).values(name@).push((BatchSystemMetric { value, timestamp: now, tags })),
                now,
                old(self).retention_period,
                old(self).max_metrics_per_name as nat,
            ),
            forall|other: Seq<char>|
                other != name@ ==> #[trigger] final(self).values(other) == old(self).values(other),
    {
        let ghost before = *self;
        let i: usize = match self.metrics.find(name) {
            Some(i) => i,
            None => self.metrics.add(name, Vec::new()),
        };
        let ghost found = *self;
        proof {
            assert(found.metrics.items()[i as int].1@ =~= before.values(name@));
            assert forall|other: Seq<char>| other != name@ implies #[trigger] found.values(other)
                == before.values(other) by {
                assert(found.metrics.position(other) == before.metrics.position(other));
                if before.metrics.position(other) is Some {
                    let k = before.metrics.position(other).unwrap();
                    if before.metrics.position(name@) is None {
                        assert(found.metrics.items().take(i as int)[k]
                            == before.metrics.items()[k]);
                    }
                }
            }
        }
        let mut list: Vec<BatchSystemMetric<V>> = self.metrics.replace(i, Vec::new());
        list.push(BatchSystemMetric { value, timestamp: now, tags });
        drop_stale(&mut list, now, self.retention_period, self.max_metrics_per_name);
        let _empty: Vec<BatchSystemMetric<V>> = self.metrics.replace(i, list);
        proof {
            assert(self.metrics.position(name@) == found.metrics.position(name@));
            assert forall|other: Seq<char>| other != name@ implies #[trigger] self.values(other)
                == before.values(other) by {
                assert(found.values(other) == before.values(other));
                assert(self.metrics.position(other) == found.metrics.position(other));
                if found.metrics.position(other) is Some {
                    let k = found.metrics.position(other).unwrap();
                    assert(found.metrics.items()[k].0@ == other);
                    assert(found.metrics.items()[i as int].0@ == name@);
                    assert(k != i);
                    assert(self.metrics.items()[k] == found.metrics.items()[k]);
                }
            }
        }
    }

    /// The newest values under a name, oldest first: all of them, or up to a
    /// limit.
    pub fn get_metric_history(&self, name: &str, limit: Option<usize>) -> (r: Vec<
        &BatchSystemMetric<V>,
    >)
        requires
            self.wf(),
        ensures
            ({
                let all = self.values(name@);
                let wanted = match limit {
                    Some(n) => newest(all, n as nat),
                    None => all,
                };
                &&& r@.len() == wanted.len()
                &&& forall|i: int| 0 <= i < r@.len() ==> *(#[trigger] r@[i]) == wanted[i]
            }),
    {
        let mut r: Vec<&BatchSystemMetric<V>> = Vec::new();
        match self.metrics.find(name) {
            Some(p) => {
                let list: &Vec<BatchSystemMetric<V>> = self.metrics.get(p);
                let start: usize = match limit {
                    Some(n) => list.len().saturating_sub(n),
                    None => 0,
                };
                let mut i: usize = start;
                while i < list.len()
                    invariant
                        start <= i <= list@.len(),
                        r@.len() == i - start,
                        forall|k: int| 0 <= k < r@.len()
                            ==> *(#[trigger] r@[k]) == list@[start + k],
                    decreases list@.len() - i,
                {
                    r.push(&list[i]);
                    i += 1;
                }
            },
            None => {},
        }
        r
    }

    /// The names of all metrics.
    pub fn get_metric_names(&self) -> (r: Vec<String>)
        ensures
            r@.len() == self.metrics.items().len(),
            forall|i: int| 0 <= i < r@.len() ==> (#[trigger] r@[i])@ == self.metrics.items()[i].0@,
    {
        let mut r: Vec<String> = Vec::new();
        let mut i: usize = 0;
        while i < self.metrics.len()
            invariant
                i <= self.metrics.items().len(),
                r@.len() == i,
                forall|k: int|
                    0 <= k < i ==> (#[trigger] r@[k])@ == self.metrics.items()[k].0@,
            decreases self.metrics.items().len() - i,
        {
            r.push(self.metrics.name(i).clone());
            i += 1;
        }
        r
    }

    /// Whether `r` lists every name once, with all its values.
    pub open spec fn is_export(self, r: Seq<(&String, &Vec<BatchSystemMetric<V>>)>) -> bool {
        &&& forall|i: int|
            0 <= i < r.len() ==> self.metrics.position((#[trigger] r[i]).0@) == Some(i)
                && r[i].1@ == self.values(r[i].0@)
        &&& forall|name: Seq<char>|
            (#[trigger] self.metrics.position(name)) matches Some(i) ==> 0 <= i < r.len()
                && r[i].0@ == name
    }

    /// All metrics with their values.
    pub fn export_metrics(&self) -> (r: Vec<(&String, &Vec<BatchSystemMetric<V>>)>)
        requires
            self.wf(),
        ensures
            self.is_export(r@),
    {
        let mut r: Vec<(&String, &Vec<BatchSystemMetric<V>>)> = Vec::new();
        let mut i: usize = 0;
        while i < self.metrics.len()
            invariant
                i <= self.metrics.items().len(),
                r@.len() == i,
                forall|k: int|
                    0 <= k < i ==> *(#[trigger] r@[k]).0 == self.metrics.items()[k].0 && *r@[k].1
                        == self.metrics.items()[k].1,
            decreases self.metrics.items().len() - i,
        {
            r.push((self.metrics.name(i), self.metrics.get(i)));
            i += 1;
        }
        r
    }

    /// Forgets all metrics.
    pub fn reset_metrics(&mut self)
        ensures
            final(self).wf(),
            final(self).metrics.items().len() == 0,
            final(self).retention_period == old(self).retention_period,
            final(self).max_metrics_per_name == old(self).max_metrics_per_name,
    {
        self.metrics.clear();
    }
}

/// Whether no value is older than the one before it.
pub open spec fn in_order<V>(list: Seq<BatchSystemMetric<V>>) -> bool {
    forall|i: int, j: int|
        0 <= i < j < list.len() ==> (#[trigger] list[i]).timestamp <= (#[trigger] list[j]).timestamp
}

/// Whether `part` is the end of `list`.
pub open spec fn is_tail<T>(part: Seq<T>, list: Seq<T>) -> bool {
    part.len() <= list.len() && part == list.skip(list.len() - part.len())
}

proof fn recent_values_are_a_tail<V>(list: Seq<BatchSystemMetric<V>>, now: u64, retention: u64)
    requires
        in_order(list),
    ensures
        is_tail(
            list.filter(|m: BatchSystemMetric<V>| recent(m.timestamp, now, retention)),
            list,
        ),
    decreases list.len(),
{
    let keep = |m: BatchSystemMetric<V>| recent(m.timestamp, now, retention);
    reveal(Seq::filter);
    if list.len() > 0 {
        let rest = list.drop_last();
        assert(in_order(rest)) by {
            assert forall|i: int, j: int| 0 <= i < j < rest.len() implies (
            #[trigger] rest[i]).timestamp <= (#[trigger] rest[j]).timestamp by {
                assert(rest[i] == list[i] && rest[j] == list[j]);
            }
        }
        recent_values_are_a_tail(rest, now, retention);
        let part = rest.filter(keep);
        if keep(list.last()) {
            assert(list.filter(keep) == part.push(list.last()));
            assert(part.push(list.last()) =~= list.skip(rest.len() - part.len()));
        } else {
            assert(list.filter(keep) == part);
            if part.len() > 0 {
                rest.lemma_filter_pred(keep, part.len() - 1);
                assert(part[part.len() - 1] == rest[rest.len() - 1]);
                assert(list[rest.len() - 1] == rest[rest.len() - 1]);
                assert(list[list.len() - 1] == list.last());
            }
            assert(part =~= list.skip(list.len() as int));
        }
    } else {
        assert(list.filter(keep) =~= list.skip(0));
    }
}

/// After a value was recorded, the history of its name ends with it and is
/// otherwise a tail of what it was: as long as time does not go back, recording
/// drops the oldest values alone. It is at most as long as the limit allows,
/// holds nothing that is stale, and is in order again.
pub proof fn histories_end_with_the_newest_value<V>(
    list: Seq<BatchSystemMetric<V>>,
    new: BatchSystemMetric<V>,
    retention: u64,
    max: nat,
)
    requires
        max >= 1,
        retention > 0,
        in_order(list.push(new)),
    ensures
        ({
            let after = kept(list.push(new), new.timestamp, retention, max);
            &&& after.len() > 0
            &&& after.last() == new
            &&& is_tail(after.drop_last(), list)
            &&& after.len() <= max
            &&& forall|i: int|
                0 <= i < after.len() ==> recent(
                    (#[trigger] after[i]).timestamp,
                    new.timestamp,
                    retention,
                )
            &&& in_order(after)
        }),
{
    let now = new.timestamp;
    let all = list.push(new);
    let keep = |m: BatchSystemMetric<V>| recent(m.timestamp, now, retention);
    recent_values_are_a_tail(all, now, retention);
    let fresh = all.filter(keep);
    assert(fresh.len() > 0) by {
        reveal(Seq::filter);
        assert(all.last() == new && keep(new));
        assert(all.filter(keep) == all.drop_last().filter(keep).push(new));
    }
    let after = kept(all, now, retention, max);
    assert(is_tail(after, all)) by {
        assert(after =~= all.skip(all.len() - after.len()));
    }
    assert(after.last() == all.last());
    assert(after.drop_last() =~= list.skip(list.len() - (after.len() - 1)));
    assert forall|i: int| 0 <= i < after.len() implies recent(
        (#[trigger] after[i]).timestamp,
        now,
        retention,
    ) by {
        kept_values_are_bounded(all, now, retention, max, i);
    }
    assert forall|i: int, j: int| 0 <= i < j < after.len() implies (#[trigger] after[i]).timestamp
        <= (#[trigger] after[j]).timestamp by {
        let k = all.len() - after.len();
        assert(after[i] == all[k + i] && after[j] == all[k + j]);
    }
}

/// No more values are kept under a name than the limit allows, and none that
/// is stale.
pub proof fn kept_values_are_bounded<V>(
    list: Seq<BatchSystemMetric<V>>,
    now: u64,
    retention: u64,
    max: nat,
    i: int,
)
    requires
        0 <= i < kept(list, now, retention, max).len(),
    ensures
        kept(list, now, retention, max).len() <= max,
        recent(kept(list, now, retention, max)[i].timestamp, now, retention),
{
    let keep = |m: BatchSystemMetric<V>| recent(m.timestamp, now, retention);
    let all = list.filter(keep);
    let offset = all.len() - kept(list, now, retention, max).len();
    list.lemma_filter_pred(keep, i + offset);
    assert(kept(list, now, retention, max)[i] == all[i + offset]);
}

/// What is kept of the values of a metric: those younger than the retention
/// period, and of them the newest, as many as there may be.
pub proof fn old_values_are_dropped<V>(
    list: Seq<BatchSystemMetric<V>>,
    now: u64,
    retention: u64,
    max: nat,
)
    ensures
        ({
            let young = list.filter(
                |m: BatchSystemMetric<V>| m.timestamp > now || now - m.timestamp < retention,
            );
            &&& young.len() <= max ==> kept(list, now, retention, max) == young
            &&& young.len() > max ==> kept(list, now, retention, max) == young.skip(
                young.len() - max,
            )
        }),
{
    let a = |m: BatchSystemMetric<V>| m.timestamp > now || now - m.timestamp < retention;
    let b = |m: BatchSystemMetric<V>| recent(m.timestamp, now, retention);
    assert(a =~= b);
}

} // verus!
