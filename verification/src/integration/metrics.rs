//! The metrics of the system.

use vstd::prelude::*;
use vstd::string::*;

use crate::integration::events::PerformanceCounter;
use crate::store::NamedStore;

verus! {

/// How many values a counter remembers.
pub const COUNTER_WINDOW: usize = 60;

/// The last value of each metric, and counters with the values before.
pub struct SystemMetrics<V> {
    pub metrics: NamedStore<V>,
    pub performance_counters: NamedStore<PerformanceCounter<V>>,
}

/// Whether `after` is the counter of a name after one more value; `before` is
/// the counter before, if there was one.
pub open spec fn is_counted<V: Copy>(
    before: Option<PerformanceCounter<V>>,
    value: V,
    now: u64,
    after: Option<PerformanceCounter<V>>,
) -> bool {
    &&& after matches Some(a) && a.wf() && a.value == Some(value) && a.timestamp == now
        && a.window_size == match before {
        Some(b) => b.window_size,
        None => COUNTER_WINDOW,
    } && a.values@ == crate::history::remembered(
        match before {
            Some(b) => b.values@,
            None => Seq::empty(),
        },
        value,
        a.window_size as nat,
    )
}

impl<V: Copy> SystemMetrics<V> {
    /// What holds of the metrics at all times.
    pub open spec fn wf(self) -> bool {
        &&& self.metrics.wf()
        &&& self.performance_counters.wf()
        &&& forall|name: Seq<char>| #[trigger]
            self.performance_counters.lookup(name) matches Some(c) ==> c.wf()
    }

    /// No metrics.
    pub fn new() -> (m: Self)
        ensures
            m.wf(),
            forall|name: Seq<char>| #[trigger] m.metrics.lookup(name) is None,
            forall|name: Seq<char>| #[trigger] m.performance_counters.lookup(name) is None,
    {
        SystemMetrics { metrics: NamedStore::new(), performance_counters: NamedStore::new() }
    }

    /// Takes note of a value in a counter alone.
    pub fn count(&mut self, name: &str, value: V, now: u64)
        requires
            old(self).wf(),
        ensures
            final(self).wf(),
            final(self).metrics == old(self).metrics,
            is_counted(
                old(self).performance_counters.lookup(name@),
                value,
                now,
                final(self).performance_counters.lookup(name@),
            ),
            forall|other: Seq<char>|
                other != name@ ==> #[trigger] final(self).performance_counters.lookup(other)
                    == old(self).performance_counters.lookup(other),
    {
        let ghost before = self.performance_counters.lookup(name@);
        let fresh: PerformanceCounter<V> = PerformanceCounter::new(
            String::from_str(name),
            COUNTER_WINDOW,
            now,
        );
        let mut counter: PerformanceCounter<V> = match self.performance_counters.put(name, fresh) {
            Some(c) => c,
            None => PerformanceCounter::new(String::from_str(name), COUNTER_WINDOW, now),
        };
        proof {
            assert(before matches Some(c) ==> c.wf());
            if before is None {
                assert(counter.values@ =~= Seq::<V>::empty());
            }
        }
        counter.update(value, now);
        let _fresh: Option<PerformanceCounter<V>> = self.performance_counters.put(name, counter);
        proof {
            assert forall|other: Seq<char>|
                (#[trigger] self.performance_counters.lookup(other)) is Some implies
                self.performance_counters.lookup(other)->0.wf() by {
                if other != name@ {
                    assert(self.performance_counters.lookup(other) == old(
                        self,
                    ).performance_counters.lookup(other));
                }
            }
        }
    }

    /// Takes note of a value.
    pub fn record_metric(&mut self, name: &str, value: V, now: u64)
        requires
            old(self).wf(),
        ensures
            final(self).wf(),
            final(self).metrics.lookup(name@) == Some(value),
            is_counted(
                old(self).performance_counters.lookup(name@),
                value,
                now,
                final(self).performance_counters.lookup(name@),
            ),
            forall|other: Seq<char>|
                other != name@ ==> {
                    &&& #[trigger] final(self).metrics.lookup(other) == old(self).metrics.lookup(
                        other,
                    )
                    &&& #[trigger] final(self).performance_counters.lookup(other) == old(
                        self).performance_counters.lookup(other)
                },
    {
        let _before: Option<V> = self.metrics.put(name, value);
        self.count(name, value, now);
    }

    /// The last value of a metric.
    pub fn get_metric(&self, name: &str) -> (v: Option<V>)
        requires
            self.wf(),
        ensures
            v == self.metrics.lookup(name@),
    {
        match self.metrics.find(name) {
            Some(i) => Some(*self.metrics.get(i)),
            None => None,
        }
    }

    /// Forgets all metrics.
    pub fn clear(&mut self)
        ensures
            final(self).wf(),
            forall|name: Seq<char>| #[trigger] final(self).metrics.lookup(name) is None,
            forall|name: Seq<char>| #[trigger]
                final(self).performance_counters.lookup(name) is None,
    {
        self.metrics.clear();
        self.performance_counters.clear();
    }
}

} // verus!
