//! The health of the components of the batch system.
//!
//! Points in time are nanoseconds.

use std::collections::VecDeque;
use vstd::prelude::*;
use vstd::std_specs::vecdeque::*;
use vstd::string::*;

use crate::history::{newest, remember, remembered};
use crate::io::buffer::BufferStats;
use crate::ratio::Ratio;

verus! {

/// How many collections are remembered.
pub const MONITOR_HISTORY: usize = 1000;

/// How a component is doing.
#[derive(Debug, Clone, Copy, PartialEq, Eq, Structural)]
pub enum ComponentHealth {
    Healthy,
    Degraded,
    Unhealthy,
    Critical,
}

/// The components that are watched.
#[derive(Debug, Clone, Copy, PartialEq, Eq, Structural)]
pub enum Component {
    BufferPool,
    CryptoProcessor,
    Dispatchers,
}

impl Component {
    /// The name of the component.
    pub open spec fn label(self) -> Seq<char> {
        match self {
            Component::BufferPool => "buffer_pool"@,
            Component::CryptoProcessor => "crypto_processor"@,
            Component::Dispatchers => "dispatchers"@,
        }
    }

    /// The name of the component.
    pub fn name(&self) -> (s: &'static str)
        ensures
            s@ == self.label(),
    {
        match self {
            Component::BufferPool => "buffer_pool",
            Component::CryptoProcessor => "crypto_processor",
            Component::Dispatchers => "dispatchers",
        }
    }
}

/// What the attached components report. A component that is not attached
/// reports nothing.
#[derive(Debug, Clone, Copy)]
pub struct Readings {
    pub buffers: Option<BufferStats>,
    /// Share of requests the optimized pool served by reuse.
    pub reuse_rate: Option<Ratio>,
    /// Operations of the crypto processor, and how many of them failed.
    pub crypto: Option<(u64, u64)>,
    /// Tasks the dispatcher counted.
    pub dispatcher_tasks: Option<u64>,
}

impl Readings {
    /// The counters of the buffer pool can be added up.
    pub open spec fn sums_fit(self) -> bool {
        self.buffers matches Some(b) ==> b.allocation_count + b.reuse_count <= u64::MAX
    }
}

/// The share of requests a buffer pool served by reuse.
pub open spec fn hit_ratio(b: BufferStats) -> Ratio {
    Ratio { part: b.reuse_count, whole: (b.allocation_count + b.reuse_count) as u64 }
}

/// The health of the buffer pools: good before anything was allocated, or
/// where most requests are served by reuse in both.
pub open spec fn buffer_health(b: BufferStats, reuse: Ratio) -> ComponentHealth {
    let hit = hit_ratio(b);
    if b.total_allocated == 0 {
        ComponentHealth::Healthy
    } else if hit.is_above(7, 10) && reuse.is_above(6, 10) {
        ComponentHealth::Healthy
    } else if hit.is_above(5, 10) && reuse.is_above(4, 10) {
        ComponentHealth::Degraded
    } else {
        ComponentHealth::Unhealthy
    }
}

/// The health of the crypto processor: fewer than one operation in a hundred
/// fails, or fewer than one in twenty. One that has done nothing is healthy.
pub open spec fn crypto_health(operations: u64, failed: u64) -> ComponentHealth {
    if operations == 0 || failed * 100 < operations {
        ComponentHealth::Healthy
    } else if failed * 20 < operations {
        ComponentHealth::Degraded
    } else {
        ComponentHealth::Unhealthy
    }
}

/// The health of the dispatchers: good once there were tasks.
pub open spec fn dispatcher_health(tasks: u64) -> ComponentHealth {
    if tasks > 0 {
        ComponentHealth::Healthy
    } else {
        ComponentHealth::Degraded
    }
}

/// The health of every attached component. The buffer pools are judged only
/// where both are attached.
pub open spec fn health_of(r: Readings) -> Seq<(Component, ComponentHealth)> {
    let buffers = match (r.buffers, r.reuse_rate) {
        (Some(b), Some(reuse)) => seq![(Component::BufferPool, buffer_health(b, reuse))],
        _ => Seq::empty(),
    };
    let crypto = match r.crypto {
        Some((operations, failed)) => seq![
            (Component::CryptoProcessor, crypto_health(operations, failed)),
        ],
        None => Seq::empty(),
    };
    let dispatchers = match r.dispatcher_tasks {
        Some(tasks) => seq![(Component::Dispatchers, dispatcher_health(tasks))],
        None => Seq::empty(),
    };
    buffers + crypto + dispatchers
}

/// Whether no component is unhealthy or critical.
pub open spec fn all_well(statuses: Seq<(Component, ComponentHealth)>) -> bool {
    forall|i: int|
        0 <= i < statuses.len() ==> (#[trigger] statuses[i]).1 != ComponentHealth::Unhealthy
            && statuses[i].1 != ComponentHealth::Critical
}

/// Whether no component is critical.
pub open spec fn none_critical(statuses: Seq<(Component, ComponentHealth)>) -> bool {
    forall|i: int|
        0 <= i < statuses.len() ==> (#[trigger] statuses[i]).1 != ComponentHealth::Critical
}

/// How urgent an alert is.
#[derive(Debug, Clone, Copy, PartialEq, Eq, Structural)]
pub enum AlertLevel {
    Warning,
    Error,
}

/// An alert.
#[derive(Debug, Clone)]
pub struct Alert {
    pub level: AlertLevel,
    pub text: String,
}

/// Whether an alert is sent for a component in a given health.
pub open spec fn raises_alert(h: ComponentHealth) -> bool {
    h != ComponentHealth::Healthy
}

/// Whether an alert is the one for a component in a given health.
pub open spec fn alert_for(a: Alert, c: Component, h: ComponentHealth) -> bool {
    match h {
        ComponentHealth::Critical => a.level == AlertLevel::Error && a.text@ == "Component "@
            + c.label() + " is critical"@,
        ComponentHealth::Unhealthy => a.level == AlertLevel::Error && a.text@ == "Component "@
            + c.label() + " is unhealthy"@,
        ComponentHealth::Degraded => a.level == AlertLevel::Warning && a.text@ == "Component "@
            + c.label() + " is degraded"@,
        ComponentHealth::Healthy => false,
    }
}

/// Whether `alerts` are the alerts for a list of components, in its order.
pub open spec fn alerts_for(alerts: Seq<Alert>, statuses: Seq<(Component, ComponentHealth)>) -> bool
    decreases statuses.len(),
{
    if statuses.len() == 0 {
        alerts.len() == 0
    } else {
        let (c, h) = statuses.last();
        if raises_alert(h) {
            &&& alerts.len() > 0
            &&& alert_for(alerts.last(), c, h)
            &&& alerts_for(alerts.drop_last(), statuses.drop_last())
        } else {
            alerts_for(alerts, statuses.drop_last())
        }
    }
}

/// The alerts for a list of components.
pub fn alerts(statuses: &Vec<(Component, ComponentHealth)>) -> (out: Vec<Alert>)
    ensures
        alerts_for(out@, statuses@),
{
    let mut out: Vec<Alert> = Vec::new();
    let mut i: usize = 0;
    while i < statuses.len()
        invariant
            i <= statuses@.len(),
            alerts_for(out@, statuses@.take(i as int)),
        decreases statuses@.len() - i,
    {
        let (component, health): (Component, ComponentHealth) = statuses[i];
        let ghost before = out@;
        let text: String = String::from_str("Component ").concat(component.name());
        match health {
            ComponentHealth::Critical => out.push(
                Alert { level: AlertLevel::Error, text: text.concat(" is critical") },
            ),
            ComponentHealth::Unhealthy => out.push(
                Alert { level: AlertLevel::Error, text: text.concat(" is unhealthy") },
            ),
            ComponentHealth::Degraded => out.push(
                Alert { level: AlertLevel::Warning, text: text.concat(" is degraded") },
            ),
            ComponentHealth::Healthy => {},
        }
        proof {
            let next = statuses@.take(i as int + 1);
            assert(next.drop_last() =~= statuses@.take(i as int));
            assert(next.last() == statuses@[i as int]);
            if raises_alert(health) {
                assert(out@.drop_last() =~= before);
            }
        }
        i += 1;
    }
    proof {
        assert(statuses@.take(statuses@.len() as int) =~= statuses@);
    }
    out
}

/// What one collection gathers.
#[derive(Debug, Clone, Copy)]
pub struct BatchSystemMetrics {
    pub buffer_pool_hit_rate: Ratio,
    pub buffer_pool_reuse_rate: Ratio,
    /// Failed crypto operations, of all of them.
    pub crypto_failure_rate: Ratio,
    pub work_stealing_tasks: u64,
    pub active_connections: usize,
    pub pending_tasks: usize,
    pub total_data_processed: u64,
}

/// What a collection gathers from the attached components.
pub open spec fn gathered(r: Readings) -> BatchSystemMetrics {
    BatchSystemMetrics {
        buffer_pool_hit_rate: match r.buffers {
            Some(b) => hit_ratio(b),
            None => Ratio::zero(),
        },
        buffer_pool_reuse_rate: match r.reuse_rate {
            Some(rate) => rate,
            None => Ratio::zero(),
        },
        crypto_failure_rate: match r.crypto {
            Some((operations, failed)) => Ratio { part: failed, whole: operations },
            None => Ratio::zero(),
        },
        work_stealing_tasks: match r.dispatcher_tasks {
            Some(tasks) => tasks,
            None => 0,
        },
        active_connections: 0,
        pending_tasks: 0,
        total_data_processed: 0,
    }
}

/// What a component was judged by.
#[derive(Debug, Clone, Copy)]
pub enum ComponentMetrics {
    BufferPool { hit_rate: Ratio, reuse_rate: Ratio, allocations: u64, reuses: u64 },
    /// The rate is that of failed operations among all of them.
    CryptoProcessor { failure_rate: Ratio, total_operations: u64, failed_operations: u64 },
    Dispatchers { total_tasks: u64 },
}

/// The last known status of a component.
#[derive(Debug, Clone, Copy)]
pub struct ComponentStatus {
    pub component: Component,
    pub health: ComponentHealth,
    pub last_check: u64,
    pub metrics: ComponentMetrics,
}

/// The monitor.
#[derive(Debug)]
pub struct BatchSystemMonitor {
    pub buffer_pool: Option<ComponentStatus>,
    pub crypto_processor: Option<ComponentStatus>,
    pub dispatchers: Option<ComponentStatus>,
    pub metrics_history: VecDeque<(u64, BatchSystemMetrics)>,
    pub last_collection_time: u64,
}

/// A component with its status, where there is one.
pub open spec fn known_status(component: Component, status: Option<ComponentStatus>) -> Seq<
    (Component, ComponentStatus),
> {
    match status {
        Some(s) => seq![(component, s)],
        None => Seq::empty(),
    }
}

impl BatchSystemMonitor {
    /// What holds of every monitor.
    pub open spec fn wf(self) -> bool {
        self.metrics_history@.len() <= MONITOR_HISTORY
    }

    /// A monitor that has seen nothing.
    pub fn new(now: u64) -> (m: Self)
        ensures
            m.wf(),
            m.buffer_pool is None,
            m.crypto_processor is None,
            m.dispatchers is None,
            m.metrics_history@.len() == 0,
            m.last_collection_time == now,
    {
        BatchSystemMonitor {
            buffer_pool: None,
            crypto_processor: None,
            dispatchers: None,
            metrics_history: VecDeque::new(),
            last_collection_time: now,
        }
    }

    /// Whether this is the monitor `before` with one more collection.
    pub open spec fn has_collected(self, before: Self, readings: Readings, now: u64) -> bool {
        &&& self.metrics_history@ == remembered(
            before.metrics_history@,
            (now, gathered(readings)),
            MONITOR_HISTORY as nat,
        )
        &&& self.last_collection_time == now
        &&& self.buffer_pool == before.buffer_pool
        &&& self.crypto_processor == before.crypto_processor
        &&& self.dispatchers == before.dispatchers
    }

    /// Gathers what the attached components report, and remembers it.
    pub fn collect_metrics(&mut self, readings: Readings, now: u64) -> (m: BatchSystemMetrics)
        requires
            old(self).wf(),
            readings.sums_fit(),
        ensures
            final(self).wf(),
            m == gathered(readings),
            final(self).has_collected(*old(self), readings, now),
            readings.buffers matches Some(b) ==> m.buffer_pool_hit_rate.part == b.reuse_count
                && m.buffer_pool_hit_rate.whole == b.allocation_count + b.reuse_count,
            readings.crypto matches Some((operations, failed))
                ==> m.crypto_failure_rate.part == failed
                && m.crypto_failure_rate.whole == operations,
            readings.dispatcher_tasks matches Some(n) ==> m.work_stealing_tasks == n,
    {
        let hit: Ratio = match readings.buffers {
            Some(b) => Ratio::new(b.reuse_count, b.allocation_count + b.reuse_count),
            None => Ratio::new(0, 0),
        };
        let reuse: Ratio = match readings.reuse_rate {
            Some(rate) => rate,
            None => Ratio::new(0, 0),
        };
        let failure: Ratio = match readings.crypto {
            Some((operations, failed)) => Ratio::new(failed, operations),
            None => Ratio::new(0, 0),
        };
        let tasks: u64 = match readings.dispatcher_tasks {
            Some(tasks) => tasks,
            None => 0,
        };
        let metrics: BatchSystemMetrics = BatchSystemMetrics {
            buffer_pool_hit_rate: hit,
            buffer_pool_reuse_rate: reuse,
            crypto_failure_rate: failure,
            work_stealing_tasks: tasks,
            active_connections: 0,
            pending_tasks: 0,
            total_data_processed: 0,
        };
        remember(&mut self.metrics_history, (now, metrics), MONITOR_HISTORY);
        self.last_collection_time = now;
        metrics
    }

    /// Whether this is the monitor `before` once the components were judged.
    pub open spec fn has_checked(self, before: Self, readings: Readings, now: u64) -> bool {
        &&& self.buffer_pool == match (readings.buffers, readings.reuse_rate) {
            (Some(b), Some(reuse)) => Some(
                ComponentStatus {
                    component: Component::BufferPool,
                    health: buffer_health(b, reuse),
                    last_check: now,
                    metrics: ComponentMetrics::BufferPool {
                        hit_rate: hit_ratio(b),
                        reuse_rate: reuse,
                        allocations: b.allocation_count,
                        reuses: b.reuse_count,
                    },
                },
            ),
            _ => before.buffer_pool,
        }
        &&& self.crypto_processor == match readings.crypto {
            Some((operations, failed)) => Some(
                ComponentStatus {
                    component: Component::CryptoProcessor,
                    health: crypto_health(operations, failed),
                    last_check: now,
                    metrics: ComponentMetrics::CryptoProcessor {
                        failure_rate: (Ratio { part: failed, whole: operations }),
                        total_operations: operations,
                        failed_operations: failed,
                    },
                },
            ),
            None => before.crypto_processor,
        }
        &&& self.dispatchers == match readings.dispatcher_tasks {
            Some(tasks) => Some(
                ComponentStatus {
                    component: Component::Dispatchers,
                    health: dispatcher_health(tasks),
                    last_check: now,
                    metrics: ComponentMetrics::Dispatchers { total_tasks: tasks },
                },
            ),
            None => before.dispatchers,
        }
        &&& self.metrics_history == before.metrics_history
        &&& self.last_collection_time == before.last_collection_time
    }

    /// Judges every attached component, and remembers the outcome.
    pub fn check_components_health(&mut self, readings: Readings, now: u64) -> (out: Vec<
        (Component, ComponentHealth),
    >)
        requires
            old(self).wf(),
            readings.sums_fit(),
        ensures
            final(self).wf(),
            out@ == health_of(readings),
            final(self).has_checked(*old(self), readings, now),
            ({
                let buffers = readings.buffers is Some && readings.reuse_rate is Some;
                &&& out@.len() == (if buffers {
                    1int
                } else {
                    0
                }) + (if readings.crypto is Some {
                    1int
                } else {
                    0
                }) + (if readings.dispatcher_tasks is Some {
                    1int
                } else {
                    0
                })
                &&& buffers ==> out@[0].0 is BufferPool
                &&& readings.dispatcher_tasks is Some ==> out@.last().0 is Dispatchers
                &&& readings.dispatcher_tasks matches Some(n) ==> (out@.last().1 is Healthy
                    <==> n > 0)
            }),
    {
        let mut out: Vec<(Component, ComponentHealth)> = Vec::new();
        let ghost buffers = match (readings.buffers, readings.reuse_rate) {
            (Some(b), Some(reuse)) => seq![(Component::BufferPool, buffer_health(b, reuse))],
            _ => Seq::empty(),
        };
        let ghost crypto = match readings.crypto {
            Some((operations, failed)) => seq![
                (Component::CryptoProcessor, crypto_health(operations, failed)),
            ],
            None => Seq::empty(),
        };
        if let Some(b) = readings.buffers {
            if let Some(reuse) = readings.reuse_rate {
                let hit: Ratio = Ratio::new(b.reuse_count, b.allocation_count + b.reuse_count);
                let health: ComponentHealth = if b.total_allocated == 0 {
                    ComponentHealth::Healthy
                } else if hit.above(7, 10) && reuse.above(6, 10) {
                    ComponentHealth::Healthy
                } else if hit.above(5, 10) && reuse.above(4, 10) {
                    ComponentHealth::Degraded
                } else {
                    ComponentHealth::Unhealthy
                };
                out.push((Component::BufferPool, health));
                self.buffer_pool = Some(
                    ComponentStatus {
                        component: Component::BufferPool,
                        health,
                        last_check: now,
                        metrics: ComponentMetrics::BufferPool {
                            hit_rate: hit,
                            reuse_rate: reuse,
                            allocations: b.allocation_count,
                            reuses: b.reuse_count,
                        },
                    },
                );
            }
        }
        assert(out@ =~= buffers);
        if let Some((operations, failed)) = readings.crypto {
            let health: ComponentHealth = if operations == 0 || (failed as u128) * 100 < (
            operations as u128) {
                ComponentHealth::Healthy
            } else if (failed as u128) * 20 < (operations as u128) {
                ComponentHealth::Degraded
            } else {
                ComponentHealth::Unhealthy
            };
            out.push((Component::CryptoProcessor, health));
            self.crypto_processor = Some(
                ComponentStatus {
                    component: Component::CryptoProcessor,
                    health,
                    last_check: now,
                    metrics: ComponentMetrics::CryptoProcessor {
                        failure_rate: Ratio::new(failed, operations),
                        total_operations: operations,
                        failed_operations: failed,
                    },
                },
            );
        }
        assert(out@ =~= buffers + crypto);
        if let Some(tasks) = readings.dispatcher_tasks {
            let health: ComponentHealth = if tasks > 0 {
                ComponentHealth::Healthy
            } else {
                ComponentHealth::Degraded
            };
            out.push((Component::Dispatchers, health));
            self.dispatchers = Some(
                ComponentStatus {
                    component: Component::Dispatchers,
                    health,
                    last_check: now,
                    metrics: ComponentMetrics::Dispatchers { total_tasks: tasks },
                },
            );
        }
        assert(out@ =~= health_of(readings));
        out
    }

    /// The last known status of a component.
    pub fn get_component_status(&self, component: Component) -> (s: Option<ComponentStatus>)
        ensures
            s == match component {
                Component::BufferPool => self.buffer_pool,
                Component::CryptoProcessor => self.crypto_processor,
                Component::Dispatchers => self.dispatchers,
            },
    {
        match component {
            Component::BufferPool => self.buffer_pool,
            Component::CryptoProcessor => self.crypto_processor,
            Component::Dispatchers => self.dispatchers,
        }
    }

    /// The last known status of every component that has one.
    pub fn get_all_statuses(&self) -> (r: Vec<(Component, ComponentStatus)>)
        ensures
            r@ == known_status(Component::BufferPool, self.buffer_pool) + known_status(
                Component::CryptoProcessor,
                self.crypto_processor,
            ) + known_status(Component::Dispatchers, self.dispatchers),
    {
        let mut r: Vec<(Component, ComponentStatus)> = Vec::new();
        if let Some(s) = self.buffer_pool {
            r.push((Component::BufferPool, s));
        }
        if let Some(s) = self.crypto_processor {
            r.push((Component::CryptoProcessor, s));
        }
        if let Some(s) = self.dispatchers {
            r.push((Component::Dispatchers, s));
        }
        r
    }

    /// The newest collections, oldest first.
    pub fn get_metrics_history(&self, limit: usize) -> (r: Vec<(u64, BatchSystemMetrics)>)
        ensures
            r@ == newest(self.metrics_history@, limit as nat),
    {
        let n: usize = self.metrics_history.len();
        let start: usize = if n > limit {
            n - limit
        } else {
            0
        };
        let mut r: Vec<(u64, BatchSystemMetrics)> = Vec::new();
        let mut i: usize = start;
        while i < n
            invariant
                start <= i <= n,
                n == self.metrics_history@.len(),
                r@ == self.metrics_history@.subrange(start as int, i as int),
            decreases n - i,
        {
            r.push(self.metrics_history[i]);
            proof {
                assert(r@ =~= self.metrics_history@.subrange(start as int, i as int + 1));
            }
            i += 1;
        }
        proof {
            assert(r@ =~= newest(self.metrics_history@, limit as nat));
        }
        r
    }

    /// Forgets collections and statuses.
    pub fn reset_metrics(&mut self)
        ensures
            final(self).wf(),
            final(self).metrics_history@.len() == 0,
            final(self).buffer_pool is None,
            final(self).crypto_processor is None,
            final(self).dispatchers is None,
            final(self).last_collection_time == old(self).last_collection_time,
    {
        self.metrics_history.clear();
        self.buffer_pool = None;
        self.crypto_processor = None;
        self.dispatchers = None;
    }

    /// Whether no component is unhealthy or critical.
    pub fn health_check(&mut self, readings: Readings, now: u64) -> (ok: bool)
        requires
            old(self).wf(),
            readings.sums_fit(),
        ensures
            final(self).wf(),
            ok == all_well(health_of(readings)),
            final(self).has_checked(*old(self), readings, now),
    {
        let statuses: Vec<(Component, ComponentHealth)> = self.check_components_health(
            readings,
            now,
        );
        is_all_well(&statuses)
    }
}

/// Whether no component is unhealthy or critical.
pub fn is_all_well(statuses: &Vec<(Component, ComponentHealth)>) -> (r: bool)
    ensures
        r == all_well(statuses@),
        r <==> !exists|i: int|
            0 <= i < statuses@.len() && ((#[trigger] statuses@[i]).1 is Unhealthy
                || statuses@[i].1 is Critical),
{
    let mut i: usize = 0;
    while i < statuses.len()
        invariant
            i <= statuses@.len(),
            all_well(statuses@.take(i as int)),
        decreases statuses@.len() - i,
    {
        let health: ComponentHealth = statuses[i].1;
        if health == ComponentHealth::Unhealthy || health == ComponentHealth::Critical {
            assert(statuses@[i as int].1 == health);
            return false;
        }
        proof {
            assert forall|k: int| 0 <= k < i + 1 implies (#[trigger] statuses@.take(
                i as int + 1,
            )[k]).1 != ComponentHealth::Unhealthy && statuses@.take(i as int + 1)[k].1
                != ComponentHealth::Critical by {
                if k < i {
                    assert(statuses@.take(i as int)[k] == statuses@[k]);
                }
            }
        }
        i += 1;
    }
    proof {
        assert(statuses@.take(statuses@.len() as int) =~= statuses@);
    }
    true
}

/// Whether no component is critical.
pub fn is_none_critical(statuses: &Vec<(Component, ComponentHealth)>) -> (r: bool)
    ensures
        r == none_critical(statuses@),
        r <==> !exists|i: int| 0 <= i < statuses@.len() && (#[trigger] statuses@[i]).1 is Critical,
{
    let mut i: usize = 0;
    while i < statuses.len()
        invariant
            i <= statuses@.len(),
            forall|k: int| 0 <= k < i ==> (#[trigger] statuses@[k]).1 != ComponentHealth::Critical,
        decreases statuses@.len() - i,
    {
        if statuses[i].1 == ComponentHealth::Critical {
            assert(statuses@[i as int].1 == ComponentHealth::Critical);
            return false;
        }
        i += 1;
    }
    true
}

/// No component that is watched is ever judged critical, so that an emergency
/// check never fails.
pub proof fn watched_components_are_never_critical(r: Readings)
    ensures
        none_critical(health_of(r)),
{
}

/// What the readings say of each component. The buffers are healthy before the
/// first allocation, and where more than seven in ten requests were reuses and
/// the reuse rate is above six in ten; with five and four in ten they are
/// degraded, else unhealthy. The crypto processor is healthy while less than one
/// operation in a hundred has failed, degraded while less than one in twenty.
/// The dispatchers are healthy once they have tasks, before that degraded.
pub proof fn readings_decide_health(
    b: BufferStats,
    reuse: Ratio,
    operations: u64,
    failed: u64,
    tasks: u64,
)
    requires
        b.allocation_count + b.reuse_count <= u64::MAX,
    ensures
        ({
            let (hits, all) = (b.reuse_count, b.allocation_count + b.reuse_count);
            let good = all > 0 && reuse.whole > 0 && 10 * hits > 7 * all && reuse.part * 10
                > 6 * reuse.whole;
            let fair = all > 0 && reuse.whole > 0 && 10 * hits > 5 * all && reuse.part * 10
                > 4 * reuse.whole;
            &&& buffer_health(b, reuse) is Healthy <==> b.total_allocated == 0 || good
            &&& buffer_health(b, reuse) is Degraded <==> b.total_allocated > 0 && !good && fair
            &&& buffer_health(b, reuse) is Unhealthy <==> b.total_allocated > 0 && !fair
        }),
        crypto_health(operations, failed) is Healthy <==> operations == 0 || 100 * failed
            < operations,
        crypto_health(operations, failed) is Degraded <==> operations > 0 && 20 * failed
            < operations <= 100 * failed,
        crypto_health(operations, failed) is Unhealthy <==> 0 < operations <= 20 * failed,
        dispatcher_health(tasks) is Healthy <==> tasks > 0,
        dispatcher_health(tasks) is Degraded <==> tasks == 0,
{
}

/// Alerts are raised for the components that are not healthy, one for each and
/// in their order, and as errors unless the component is only degraded.
pub proof fn alerts_are_for_the_unhealthy(
    alerts: Seq<Alert>,
    statuses: Seq<(Component, ComponentHealth)>,
    i: int,
)
    requires
        alerts_for(alerts, statuses),
        0 <= i < statuses.len(),
    ensures
        alerts.len() == statuses.filter(
            |s: (Component, ComponentHealth)| s.1 != ComponentHealth::Healthy,
        ).len(),
        statuses[i].1 != ComponentHealth::Healthy ==> {
            let j = statuses.take(i).filter(
                |s: (Component, ComponentHealth)| s.1 != ComponentHealth::Healthy,
            ).len() as int;
            &&& 0 <= j < alerts.len()
            &&& alerts[j].level == AlertLevel::Warning <==> statuses[i].1
                == ComponentHealth::Degraded
            &&& alerts[j].text@ == "Component "@ + statuses[i].0.label()
                + match statuses[i].1 {
                ComponentHealth::Critical => " is critical"@,
                ComponentHealth::Unhealthy => " is unhealthy"@,
                _ => " is degraded"@,
            }
        },
    decreases statuses.len(),
{
    let sick = |s: (Component, ComponentHealth)| s.1 != ComponentHealth::Healthy;
    let rest = statuses.drop_last();
    let earlier = if raises_alert(statuses.last().1) {
        alerts.drop_last()
    } else {
        alerts
    };
    alerts_are_counted(alerts, statuses);
    alerts_are_counted(earlier, rest);
    if i < rest.len() {
        alerts_are_for_the_unhealthy(earlier, rest, i);
        assert(rest.take(i) =~= statuses.take(i));
        if sick(statuses[i]) {
            let j = rest.take(i).filter(sick).len() as int;
            assert(earlier[j] == alerts[j]);
        }
    } else {
        assert(statuses.take(i) =~= rest);
    }
}

proof fn alerts_are_counted(alerts: Seq<Alert>, statuses: Seq<(Component, ComponentHealth)>)
    requires
        alerts_for(alerts, statuses),
    ensures
        alerts.len() == statuses.filter(
            |s: (Component, ComponentHealth)| s.1 != ComponentHealth::Healthy,
        ).len(),
    decreases statuses.len(),
{
    reveal(Seq::filter);
    let sick = |s: (Component, ComponentHealth)| s.1 != ComponentHealth::Healthy;
    if statuses.len() > 0 {
        let rest = statuses.drop_last();
        if raises_alert(statuses.last().1) {
            alerts_are_counted(alerts.drop_last(), rest);
            assert(statuses.filter(sick) == rest.filter(sick).push(statuses.last()));
        } else {
            alerts_are_counted(alerts, rest);
            assert(statuses.filter(sick) == rest.filter(sick));
        }
    }
}

} // verus!
