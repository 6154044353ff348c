//! Regular health checks.
//!
//! Points in time and durations are nanoseconds.

use vstd::prelude::*;

use crate::heartbeat::batch_system_monitor::{
    Alert, BatchSystemMetrics, BatchSystemMonitor, Component, ComponentHealth, Readings, alerts,
    alerts_for, all_well, health_of, is_all_well, is_none_critical, none_critical,
};

verus! {

/// From this many failed checks in a row on, the system is in trouble.
pub const MAX_CONSECUTIVE_FAILURES: u32 = 3;

/// How many components are in each health.
#[derive(Debug, Clone, Copy, PartialEq, Eq, Structural)]
pub struct HealthCounts {
    pub healthy: usize,
    pub degraded: usize,
    pub unhealthy: usize,
    pub critical: usize,
}

/// The number of components in a given health.
pub open spec fn count_in(statuses: Seq<(Component, ComponentHealth)>, h: ComponentHealth) -> nat
    decreases statuses.len(),
{
    if statuses.len() == 0 {
        0
    } else {
        count_in(statuses.drop_last(), h) + if statuses.last().1 == h {
            1nat
        } else {
            0nat
        }
    }
}

/// Counts components by health.
pub fn count_health(statuses: &Vec<(Component, ComponentHealth)>) -> (c: HealthCounts)
    ensures
        c.healthy == count_in(statuses@, ComponentHealth::Healthy),
        c.degraded == count_in(statuses@, ComponentHealth::Degraded),
        c.unhealthy == count_in(statuses@, ComponentHealth::Unhealthy),
        c.critical == count_in(statuses@, ComponentHealth::Critical),
        c.healthy + c.degraded + c.unhealthy + c.critical == statuses@.len(),
{
    let mut c: HealthCounts = HealthCounts { healthy: 0, degraded: 0, unhealthy: 0, critical: 0 };
    let mut i: usize = 0;
    while i < statuses.len()
        invariant
            i <= statuses@.len(),
            c.healthy == count_in(statuses@.take(i as int), ComponentHealth::Healthy),
            c.degraded == count_in(statuses@.take(i as int), ComponentHealth::Degraded),
            c.unhealthy == count_in(statuses@.take(i as int), ComponentHealth::Unhealthy),
            c.critical == count_in(statuses@.take(i as int), ComponentHealth::Critical),
            c.healthy + c.degraded + c.unhealthy + c.critical == i,
        decreases statuses@.len() - i,
    {
        match statuses[i].1 {
            ComponentHealth::Healthy => c.healthy = c.healthy + 1,
            ComponentHealth::Degraded => c.degraded = c.degraded + 1,
            ComponentHealth::Unhealthy => c.unhealthy = c.unhealthy + 1,
            ComponentHealth::Critical => c.critical = c.critical + 1,
        }
        proof {
            let next = statuses@.take(i as int + 1);
            assert(next.drop_last() =~= statuses@.take(i as int));
            assert(next.last() == statuses@[i as int]);
        }
        i += 1;
    }
    proof {
        assert(statuses@.take(statuses@.len() as int) =~= statuses@);
    }
    c
}

/// Keeps count of failed checks.
#[derive(Debug, Clone, Copy)]
pub struct BatchSystemHealthChecker {
    pub check_interval: u64,
    pub last_check_time: u64,
    pub consecutive_failures: u32,
    pub max_consecutive_failures: u32,
}

/// The outcome of a check.
#[derive(Debug)]
pub struct CheckOutcome {
    pub counts: HealthCounts,
    pub alerts: Vec<Alert>,
    pub healthy: bool,
    /// The checks have failed too often in a row.
    pub in_trouble: bool,
}

impl BatchSystemHealthChecker {
    /// A checker without failures.
    pub fn new(check_interval: u64, now: u64) -> (c: Self)
        ensures
            c == (BatchSystemHealthChecker {
                check_interval,
                last_check_time: now,
                consecutive_failures: 0,
                max_consecutive_failures: MAX_CONSECUTIVE_FAILURES,
            }),
    {
        BatchSystemHealthChecker {
            check_interval,
            last_check_time: now,
            consecutive_failures: 0,
            max_consecutive_failures: MAX_CONSECUTIVE_FAILURES,
        }
    }

    /// The failures in a row after one more check.
    pub open spec fn failures_after(self, healthy: bool) -> int {
        if healthy {
            0
        } else {
            self.consecutive_failures + 1
        }
    }

    /// Gathers metrics, judges the components and keeps count of failures: a
    /// good check starts the count over, a bad one adds to it.
    pub fn run_health_check(
        &mut self,
        monitor: &mut BatchSystemMonitor,
        readings: Readings,
        now: u64,
    ) -> (o: CheckOutcome)
        requires
            old(monitor).wf(),
            readings.sums_fit(),
            old(self).consecutive_failures < u32::MAX,
        ensures
            final(monitor).wf(),
            o.healthy == all_well(health_of(readings)),
            alerts_for(o.alerts@, health_of(readings)),
            o.counts.healthy == count_in(health_of(readings), ComponentHealth::Healthy),
            o.counts.degraded == count_in(health_of(readings), ComponentHealth::Degraded),
            o.counts.unhealthy == count_in(health_of(readings), ComponentHealth::Unhealthy),
            o.counts.critical == count_in(health_of(readings), ComponentHealth::Critical),
            final(self).consecutive_failures == old(self).failures_after(o.healthy),
            final(self).last_check_time == now,
            final(self).check_interval == old(self).check_interval,
            final(self).max_consecutive_failures == old(self).max_consecutive_failures,
            o.in_trouble == (!o.healthy && final(self).consecutive_failures
                >= old(self).max_consecutive_failures),
            exists|collected: BatchSystemMonitor|
                #![trigger final(monitor).has_checked(collected, readings, now)]
                {
                    &&& collected.has_collected(*old(monitor), readings, now)
                    &&& final(monitor).has_checked(collected, readings, now)
                },
            o.healthy ==> final(self).consecutive_failures == 0,
            !o.healthy ==> final(self).consecutive_failures == old(self).consecutive_failures + 1,
    {
        let _metrics: BatchSystemMetrics = monitor.collect_metrics(readings, now);
        let ghost collected = *monitor;
        let statuses: Vec<(Component, ComponentHealth)> = monitor.check_components_health(
            readings,
            now,
        );
        assert(monitor.has_checked(collected, readings, now));
        let sent: Vec<Alert> = alerts(&statuses);
        let counts: HealthCounts = count_health(&statuses);
        let healthy: bool = is_all_well(&statuses);
        let mut in_trouble: bool = false;
        if healthy {
            self.consecutive_failures = 0;
        } else {
            self.consecutive_failures = self.consecutive_failures + 1;
            if self.consecutive_failures >= self.max_consecutive_failures {
                in_trouble = true;
            }
        }
        self.last_check_time = now;
        CheckOutcome { counts, alerts: sent, healthy, in_trouble }
    }

    /// Judges the components at once; fails only where one is critical.
    pub fn emergency_check(
        &self,
        monitor: &mut BatchSystemMonitor,
        readings: Readings,
        now: u64,
    ) -> (r: (bool, Vec<Alert>))
        requires
            old(monitor).wf(),
            readings.sums_fit(),
        ensures
            final(monitor).wf(),
            r.0 == none_critical(health_of(readings)),
            alerts_for(r.1@, health_of(readings)),
            final(monitor).has_checked(*old(monitor), readings, now),
    {
        let statuses: Vec<(Component, ComponentHealth)> = monitor.check_components_health(
            readings,
            now,
        );
        let sent: Vec<Alert> = alerts(&statuses);
        (is_none_critical(&statuses), sent)
    }

    /// The failed checks in a row.
    pub fn get_consecutive_failures(&self) -> (n: u32)
        ensures
            n == self.consecutive_failures,
    {
        self.consecutive_failures
    }

    /// When the last check was.
    pub fn get_last_check_time(&self) -> (t: u64)
        ensures
            t == self.last_check_time,
    {
        self.last_check_time
    }
}

/// A health is counted once for each component that has it.
pub proof fn counts_are_of_components(
    statuses: Seq<(Component, ComponentHealth)>,
    h: ComponentHealth,
)
    ensures
        count_in(statuses, h) == statuses.filter(
            |s: (Component, ComponentHealth)| s.1 == h,
        ).len(),
    decreases statuses.len(),
{
    reveal(Seq::filter);
    if statuses.len() > 0 {
        counts_are_of_components(statuses.drop_last(), h);
    }
}

} // verus!
