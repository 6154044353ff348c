//! Metrics by name, and anomalies in them.
//!
//! Metric values are of any type; the arithmetic on them is their owner's.
//! Points in time and durations are nanoseconds.

use std::collections::VecDeque;
use vstd::prelude::*;
use vstd::std_specs::vecdeque::*;
use vstd::string::*;

use crate::dash::{NamedTimes, is_recent, recent};
use crate::history::{newest, remember, remembered};
use crate::measure::Measure;
use crate::store::NamedStore;
use crate::text::{decimal, decimal_string};

verus! {

/// How many values of a metric are kept.
pub const METRIC_HISTORY: usize = 1000;

/// An anomaly is not reported again within this time.
pub const ANOMALY_COOLDOWN: u64 = 300_000_000_000;

/// Reports older than this are forgotten.
pub const ANOMALY_MEMORY: u64 = 3_600_000_000_000;

/// With fewer values than this nothing is called an anomaly.
pub const MIN_VALUES: u64 = 10;

/// From this many trends on, changes of the trend are reported.
pub const MIN_TRENDS: usize = 5;

/// How bad an anomaly is.
#[derive(Debug, Clone, Copy, PartialEq, Eq, Structural)]
pub enum AnomalySeverity {
    Info,
    Warning,
    Critical,
}

/// What went wrong with metrics.
#[derive(Debug, Clone)]
pub enum MetricsError {
    TracingNotInitialized,
    MetricNotFound(String),
    InvalidConfig(String),
    StorageError(String),
}

impl MetricsError {
    /// The text of the error.
    pub open spec fn text(self) -> Seq<char> {
        match self {
            MetricsError::TracingNotInitialized => "Tracing not initialized"@,
            MetricsError::MetricNotFound(s) => "Metric not found: "@ + s@,
            MetricsError::InvalidConfig(s) => "Invalid configuration: "@ + s@,
            MetricsError::StorageError(s) => "Storage error: "@ + s@,
        }
    }

    /// Renders the error.
    pub fn message(&self) -> (s: String)
        ensures
            s@ == self.text(),
    {
        match self {
            MetricsError::TracingNotInitialized => String::from_str("Tracing not initialized"),
            MetricsError::MetricNotFound(s) => {
                String::from_str("Metric not found: ").concat(s.as_str())
            },
            MetricsError::InvalidConfig(s) => {
                String::from_str("Invalid configuration: ").concat(s.as_str())
            },
            MetricsError::StorageError(s) => String::from_str("Storage error: ").concat(s.as_str()),
        }
    }
}

/// Settings of the metrics.
#[derive(Debug, Clone, Copy)]
pub struct MetricsConfig {
    pub enabled: bool,
    pub collection_interval: u64,
    /// Thousandths.
    pub trace_sampling_rate: u64,
    pub retention_period: u64,
    pub max_metrics_per_service: usize,
    pub enable_histograms: bool,
    pub enable_time_series: bool,
    pub enable_anomaly_detection: bool,
}

impl Default for MetricsConfig {
    fn default() -> (c: Self)
        ensures
            c == (MetricsConfig {
                enabled: true,
                collection_interval: 5_000_000_000,
                trace_sampling_rate: 100,
                retention_period: 3_600_000_000_000,
                max_metrics_per_service: 1000,
                enable_histograms: true,
                enable_time_series: true,
                enable_anomaly_detection: true,
            }),
    {
        MetricsConfig {
            enabled: true,
            collection_interval: 5_000_000_000,
            trace_sampling_rate: 100,
            retention_period: 3_600_000_000_000,
            max_metrics_per_service: 1000,
            enable_histograms: true,
            enable_time_series: true,
            enable_anomaly_detection: true,
        }
    }
}

/// The values of one metric, oldest first, with the time of each.
#[derive(Debug)]
pub struct AggregatedMetric<V> {
    pub values: VecDeque<V>,
    pub timestamps: VecDeque<u64>,
    /// How many values there have been.
    pub count: u64,
    pub max_history: usize,
    pub last_updated: Option<u64>,
    pub labels: Vec<(String, String)>,
}

impl<V> AggregatedMetric<V> {
    /// Values and times go together, within the bound.
    pub open spec fn wf(self) -> bool {
        &&& self.values@.len() == self.timestamps@.len()
        &&& self.values@.len() <= self.max_history
    }

    /// A metric without values.
    pub fn new(max_history: usize) -> (m: Self)
        ensures
            m.wf(),
            m.values@.len() == 0,
            m.timestamps@.len() == 0,
            m.count == 0,
            m.max_history == max_history,
            m.last_updated is None,
            m.labels@.len() == 0,
    {
        AggregatedMetric {
            values: VecDeque::new(),
            timestamps: VecDeque::new(),
            count: 0,
            max_history,
            last_updated: None,
            labels: Vec::new(),
        }
    }

    /// Whether `after` is this metric with one more value.
    pub open spec fn with_value(self, after: Self, value: V, now: u64) -> bool {
        &&& after.values@ == remembered(self.values@, value, self.max_history as nat)
        &&& after.timestamps@ == remembered(self.timestamps@, now, self.max_history as nat)
        &&& after.count == if self.count < u64::MAX {
            self.count + 1
        } else {
            self.count as int
        }
        &&& after.max_history == self.max_history
        &&& after.last_updated == Some(now)
        &&& after.labels == self.labels
    }

    /// Adds a value; of a full history the oldest value leaves.
    pub fn add_value(&mut self, value: V, now: u64)
        requires
            old(self).wf(),
        ensures
            final(self).wf(),
            old(self).with_value(*final(self), value, now),
            old(self).max_history > 0 ==> {
                &&& final(self).values@.len() > 0 && final(self).values@.last() == value
                &&& final(self).timestamps@.len() > 0 && final(self).timestamps@.last() == now
            },
            final(self).last_updated == Some(now),
            old(self).count < u64::MAX ==> final(self).count == old(self).count + 1,
            final(self).labels == old(self).labels,
    {
        remember(&mut self.values, value, self.max_history);
        remember(&mut self.timestamps, now, self.max_history);
        self.count = self.count.saturating_add(1);
        self.last_updated = Some(now);
    }
}

/// An anomaly.
#[derive(Debug)]
pub struct Anomaly<V> {
    pub metric_name: String,
    pub timestamp: u64,
    pub value: V,
    pub expected_value: V,
    pub deviation: V,
    pub threshold: V,
    pub severity: AnomalySeverity,
    pub description: String,
}

/// How a value compares to the others of its metric, in thousandths.
#[derive(Debug, Clone, Copy)]
pub struct Evidence {
    /// How many values the metric has had.
    pub count: u64,
    /// The standard deviation.
    pub std_dev: Measure,
    /// The distance from the mean, in standard deviations.
    pub zscore: Measure,
    /// The distance from the median, in scaled median deviations; zero where
    /// there is no such deviation.
    pub mad_score: Measure,
    /// How many values the metric holds.
    pub held: usize,
    pub trend: TrendEvidence,
}

/// How a trend compares to the trends before it, in thousandths.
#[derive(Debug, Clone, Copy)]
pub struct TrendEvidence {
    /// How many trends are known, the last included.
    pub known: usize,
    /// The distance from the trend before.
    pub change: Measure,
    /// The largest trend known, whatever its direction.
    pub largest: Measure,
}

impl TrendEvidence {
    /// Whether the trend has changed: by more than a half, and not among
    /// trends that are all next to nothing.
    pub open spec fn changed(self) -> bool {
        &&& self.known >= MIN_TRENDS
        &&& !self.change.is_below(100)
        &&& !self.largest.is_below(100)
        &&& self.change.is_above(500)
    }

    /// Whether the trend has changed.
    pub fn has_changed(&self) -> (r: bool)
        ensures
            r == self.changed(),
            r <==> self.known >= 5 && self.change.at_least >= 100 && self.largest.at_least >= 100
                && self.change.at_most > 500,
    {
        if self.known < MIN_TRENDS {
            return false;
        }
        if self.change.below(100) {
            return false;
        }
        if self.largest.below(100) {
            return false;
        }
        self.change.above(500)
    }
}

/// What is reported of a value.
#[derive(Debug, Clone, Copy, PartialEq, Eq, Structural)]
pub struct Findings {
    pub deviation: Option<AnomalySeverity>,
    pub median: Option<AnomalySeverity>,
    pub trend: Option<AnomalySeverity>,
}

/// What is reported of a value: nothing of a metric with few values or without
/// variation; else distances from the mean above three standard deviations,
/// from the median above three and a half scaled deviations, and changes of
/// the trend.
pub open spec fn findings_of(e: Evidence) -> Findings {
    if e.count < MIN_VALUES || e.std_dev.is_below(1) {
        Findings { deviation: None, median: None, trend: None }
    } else {
        Findings {
            deviation: if e.zscore.is_above(5000) {
                Some(AnomalySeverity::Critical)
            } else if e.zscore.is_above(4000) {
                Some(AnomalySeverity::Warning)
            } else if e.zscore.is_above(3000) {
                Some(AnomalySeverity::Info)
            } else {
                None
            },
            median: if e.held > 0 && e.mad_score.is_above(3500) {
                Some(AnomalySeverity::Warning)
            } else {
                None
            },
            trend: if e.held >= 10 && e.trend.changed() {
                Some(AnomalySeverity::Warning)
            } else {
                None
            },
        }
    }
}

/// What is reported of a value.
pub fn detect_anomalies(e: Evidence) -> (f: Findings)
    ensures
        f == findings_of(e),
        ({
            let judged = e.count >= 10 && e.std_dev.at_least >= 1;
            &&& f.deviation == Some(AnomalySeverity::Critical) <==> judged
                && e.zscore.at_most > 5000
            &&& f.deviation == Some(AnomalySeverity::Warning) <==> judged && 4000 < e.zscore.at_most
                <= 5000
            &&& f.deviation == Some(AnomalySeverity::Info) <==> judged && 3000 < e.zscore.at_most
                <= 4000
            &&& f.median is Some <==> judged && e.held > 0 && e.mad_score.at_most > 3500
            &&& f.trend is Some <==> judged && e.held >= 10 && e.trend.known >= 5
                && e.trend.change.at_least >= 100 && e.trend.largest.at_least >= 100
                && e.trend.change.at_most > 500
            &&& f.median is Some ==> f.median == Some(AnomalySeverity::Warning)
            &&& f.trend is Some ==> f.trend == Some(AnomalySeverity::Warning)
        }),
{
    if e.count < MIN_VALUES {
        return Findings { deviation: None, median: None, trend: None };
    }
    if e.std_dev.below(1) {
        return Findings { deviation: None, median: None, trend: None };
    }
    let deviation: Option<AnomalySeverity> = if e.zscore.above(5000) {
        Some(AnomalySeverity::Critical)
    } else if e.zscore.above(4000) {
        Some(AnomalySeverity::Warning)
    } else if e.zscore.above(3000) {
        Some(AnomalySeverity::Info)
    } else {
        None
    };
    let median: Option<AnomalySeverity> = if e.held > 0 && e.mad_score.above(3500) {
        Some(AnomalySeverity::Warning)
    } else {
        None
    };
    let trend: Option<AnomalySeverity> = if e.held >= 10 && e.trend.has_changed() {
        Some(AnomalySeverity::Warning)
    } else {
        None
    };
    Findings { deviation, median, trend }
}

/// The key under which an anomaly is remembered: metric, description and the
/// minutes since it was seen.
pub open spec fn anomaly_key(
    metric: Seq<char>,
    description: Seq<char>,
    seen: u64,
    now: u64,
) -> Seq<char> {
    metric + ":"@ + description + ":"@ + decimal(
        (if now >= seen {
            (now - seen) / 60_000_000_000
        } else {
            0
        }) as nat,
    )
}

/// Counters of the metrics.
#[derive(Debug, Clone, Copy)]
pub struct MetricsStats {
    pub total_metrics: u64,
    pub total_recorded: u64,
    pub total_anomalies: u64,
    pub uptime: u64,
    pub collection_interval: u64,
    pub sampling_rate: u64,
}

/// The metrics system.
pub struct MetricsTracingSystem<V> {
    pub metrics_store: NamedStore<AggregatedMetric<V>>,
    pub config: MetricsConfig,
    pub total_metrics_recorded: u64,
    pub total_anomalies_detected: u64,
    pub start_time: u64,
    pub anomalies: VecDeque<Anomaly<V>>,
    pub recent_anomalies: NamedTimes,
}

/// A count, which wraps around at the end of its range.
pub open spec fn next_count(n: u64) -> u64 {
    ((n + 1) % 0x1_0000_0000_0000_0000) as u64
}

impl<V> MetricsTracingSystem<V> {
    /// What holds of every system: metrics are well formed and bounded.
    pub open spec fn wf(self) -> bool {
        &&& self.metrics_store.wf()
        &&& forall|i: int|
            0 <= i < self.metrics_store.items().len() ==> (
            #[trigger] self.metrics_store.items()[i]).1.wf()
                && self.metrics_store.items()[i].1.max_history == METRIC_HISTORY
    }

    /// Whether nothing was measured yet.
    pub open spec fn is_new(self, config: MetricsConfig, now: u64) -> bool {
        &&& self.metrics_store.items().len() == 0
        &&& self.config == config
        &&& self.total_metrics_recorded == 0
        &&& self.total_anomalies_detected == 0
        &&& self.start_time == now
        &&& self.anomalies@.len() == 0
        &&& forall|k: Seq<char>| !self.recent_anomalies@.contains_key(k)
    }

    /// A system without metrics. One that is enabled needs tracing to be set
    /// up.
    pub fn new(config: MetricsConfig, tracing_ready: bool, now: u64) -> (r: Result<
        Self,
        MetricsError,
    >)
        ensures
            r is Err <==> config.enabled && !tracing_ready,
            r matches Err(e) ==> e is TracingNotInitialized,
            r matches Ok(s) ==> s.wf() && s.is_new(config, now),
    {
        if config.enabled && !tracing_ready {
            return Err(MetricsError::TracingNotInitialized);
        }
        Ok(
            MetricsTracingSystem {
                metrics_store: NamedStore::new(),
                config,
                total_metrics_recorded: 0,
                total_anomalies_detected: 0,
                start_time: now,
                anomalies: VecDeque::new(),
                recent_anomalies: NamedTimes::new(),
            },
        )
    }

    /// The metric of a name; one without values where the name is new.
    pub open spec fn metric_or_new(self, name: Seq<char>, m: AggregatedMetric<V>) -> bool {
        match self.metrics_store.position(name) {
            Some(i) => m == self.metrics_store.items()[i].1,
            None => {
                &&& m.wf()
                &&& m.values@.len() == 0
                &&& m.timestamps@.len() == 0
                &&& m.count == 0
                &&& m.max_history == METRIC_HISTORY
                &&& m.last_updated is None
                &&& m.labels@.len() == 0
            },
        }
    }

    /// Adds a value to the metric of a name. Says whether the value is to be
    /// examined for anomalies. Disabled metrics change nothing.
    pub fn record_metric(&mut self, name: &str, value: V, now: u64) -> (examine: bool)
        requires
            old(self).wf(),
        ensures
            final(self).wf(),
            examine == (old(self).config.enabled && old(self).config.enable_anomaly_detection),
            final(self).config == old(self).config,
            final(self).start_time == old(self).start_time,
            final(self).anomalies == old(self).anomalies,
            final(self).recent_anomalies == old(self).recent_anomalies,
            final(self).total_anomalies_detected == old(self).total_anomalies_detected,
            !old(self).config.enabled ==> *final(self) == *old(self),
            old(self).config.enabled ==> {
                &&& final(self).total_metrics_recorded == next_count(
                    old(self).total_metrics_recorded,
                )
                &&& final(self).metrics_store.position(name@) is Some
                &&& final(self).metrics_store.items().len() >= old(
                    self).metrics_store.items().len()
                &&& exists|before: AggregatedMetric<V>|
                    {
                        &&& #[trigger] old(self).metric_or_new(name@, before)
                        &&& before.with_value(
                            final(self).metrics_store.items()[final(self).metrics_store.position(
                                name@,
                            ).unwrap()].1,
                            value,
                            now,
                        )
                    }
                &&& forall|other: Seq<char>|
                    other != name@ ==> #[trigger] final(self).metrics_store.position(other) == old(
                        self).metrics_store.position(other)
                &&& forall|i: int|
                    0 <= i < old(self).metrics_store.items().len() && Some(i) != final(
                        self).metrics_store.position(name@) ==> final(
                        self).metrics_store.items()[i] == #[trigger] old(
                        self).metrics_store.items()[i]
            },
    {
        if !self.config.enabled {
            return false;
        }
        let ghost before_all = *self;
        match self.metrics_store.find(name) {
            Some(i) => {
                let placeholder: AggregatedMetric<V> = AggregatedMetric::new(METRIC_HISTORY);
                let mut metric: AggregatedMetric<V> = self.metrics_store.replace(i, placeholder);
                let ghost before = metric;
                assert(before_all.metrics_store.items()[i as int].1.wf());
                metric.add_value(value, now);
                let _placeholder: AggregatedMetric<V> = self.metrics_store.replace(i, metric);
                assert(before_all.metric_or_new(name@, before));
                proof {
                    assert forall|k: int|
                        0 <= k < self.metrics_store.items().len() implies (
                    #[trigger] self.metrics_store.items()[k]).1.wf()
                        && self.metrics_store.items()[k].1.max_history == METRIC_HISTORY by {
                        if k != i {
                            assert(self.metrics_store.items()[k]
                                == before_all.metrics_store.items()[k]);
                        }
                    }
                }
            },
            None => {
                let mut metric: AggregatedMetric<V> = AggregatedMetric::new(METRIC_HISTORY);
                let ghost before = metric;
                metric.add_value(value, now);
                let i: usize = self.metrics_store.add(name, metric);
                assert(before_all.metric_or_new(name@, before));
                proof {
                    assert forall|k: int|
                        0 <= k < before_all.metrics_store.items().len() implies
                        self.metrics_store.items()[k]
                        == #[trigger] before_all.metrics_store.items()[k] by {
                        assert(self.metrics_store.items().take(i as int)[k]
                            == before_all.metrics_store.items()[k]);
                    }
                    assert forall|k: int|
                        0 <= k < self.metrics_store.items().len() implies (
                    #[trigger] self.metrics_store.items()[k]).1.wf()
                        && self.metrics_store.items()[k].1.max_history == METRIC_HISTORY by {
                        if k < i {
                            assert(self.metrics_store.items()[k]
                                == before_all.metrics_store.items()[k]);
                        }
                    }
                }
            },
        }
        self.total_metrics_recorded = self.total_metrics_recorded.wrapping_add(1);
        self.config.enable_anomaly_detection
    }

    /// Adds a value to the metric of a name, and replaces its labels. Disabled
    /// metrics change nothing.
    pub fn record_metric_with_labels(
        &mut self,
        name: &str,
        value: V,
        labels: Vec<(String, String)>,
        now: u64,
    )
        requires
            old(self).wf(),
        ensures
            final(self).wf(),
            final(self).config == old(self).config,
            final(self).start_time == old(self).start_time,
            final(self).anomalies == old(self).anomalies,
            final(self).recent_anomalies == old(self).recent_anomalies,
            final(self).total_anomalies_detected == old(self).total_anomalies_detected,
            !old(self).config.enabled ==> *final(self) == *old(self),
            old(self).config.enabled ==> {
                &&& final(self).total_metrics_recorded == next_count(
                    old(self).total_metrics_recorded,
                )
                &&& final(self).metrics_store.lookup(name@) matches Some(m) && m.labels == labels
                    && exists|before: AggregatedMetric<V>, after: AggregatedMetric<V>|
                    {
                        &&& #[trigger] old(self).metric_or_new(name@, before)
                        &&& #[trigger] before.with_value(after, value, now)
                        &&& m == (AggregatedMetric { labels, ..after })
                    }
                &&& forall|other: Seq<char>|
                    other != name@ ==> #[trigger] final(self).metrics_store.position(other) == old(
                        self).metrics_store.position(other)
                &&& forall|i: int|
                    0 <= i < old(self).metrics_store.items().len() && Some(i) != final(
                        self).metrics_store.position(name@) ==> final(
                        self).metrics_store.items()[i] == #[trigger] old(
                        self).metrics_store.items()[i]
            },
    {
        if !self.config.enabled {
            return;
        }
        let ghost first = *self;
        let _examine: bool = self.record_metric(name, value, now);
        let ghost recorded = *self;
        if let Some(i) = self.metrics_store.find(name) {
            let placeholder: AggregatedMetric<V> = AggregatedMetric::new(METRIC_HISTORY);
            let mut metric: AggregatedMetric<V> = self.metrics_store.replace(i, placeholder);
            let ghost after = metric;
            proof {
                assert(recorded.metrics_store.items()[i as int].1.wf());
            }
            metric.labels = labels;
            let _placeholder: AggregatedMetric<V> = self.metrics_store.replace(i, metric);
            proof {
                let before = choose|before: AggregatedMetric<V>|
                    {
                        &&& #[trigger] first.metric_or_new(name@, before)
                        &&& before.with_value(
                            recorded.metrics_store.items()[recorded.metrics_store.position(
                                name@,
                            ).unwrap()].1,
                            value,
                            now,
                        )
                    };
                assert(first.metric_or_new(name@, before));
                assert(before.with_value(after, value, now));
                assert forall|k: int| 0 <= k < self.metrics_store.items().len() implies (
                #[trigger] self.metrics_store.items()[k]).1.wf()
                    && self.metrics_store.items()[k].1.max_history == METRIC_HISTORY by {
                    if k != i {
                        assert(self.metrics_store.items()[k] == recorded.metrics_store.items()[k]);
                    }
                }
            }
        }
    }

    /// Whether an anomaly with this key was reported within the cooldown.
    pub open spec fn suppressed(self, key: Seq<char>, now: u64) -> bool {
        &&& self.recent_anomalies@.contains_key(key)
        &&& recent(self.recent_anomalies@[key], now, ANOMALY_COOLDOWN)
    }

    /// Reports an anomaly, unless the same one was reported within the
    /// cooldown. Reports of more than an hour ago are forgotten then.
    pub fn report_anomaly(
        &mut self,
        metric_name: &str,
        description: &str,
        seen: u64,
        now: u64,
    ) -> (reported: bool)
        requires
            old(self).wf(),
        ensures
            final(self).wf(),
            reported == !old(self).suppressed(
                anomaly_key(metric_name@, description@, seen, now),
                now,
            ),
            final(self).metrics_store == old(self).metrics_store,
            final(self).config == old(self).config,
            final(self).total_metrics_recorded == old(self).total_metrics_recorded,
            final(self).start_time == old(self).start_time,
            final(self).anomalies == old(self).anomalies,
            !reported ==> *final(self) == *old(self),
            reported ==> {
                let key = anomaly_key(metric_name@, description@, seen, now);
                &&& final(self).total_anomalies_detected == next_count(
                    old(self).total_anomalies_detected,
                )
                &&& final(self).recent_anomalies@.contains_key(key)
                &&& final(self).recent_anomalies@[key] == now
                &&& forall|other: Seq<char>|
                    other != key ==> {
                        &&& #[trigger] final(self).recent_anomalies@.contains_key(
                            other,
                        ) == (old(self).recent_anomalies@.contains_key(other)
                            && recent(
                            old(self).recent_anomalies@[other],
                            now,
                            ANOMALY_MEMORY,
                        ))
                        &&& final(self).recent_anomalies@.contains_key(other)
                            ==> final(self).recent_anomalies@[other]
                            == old(self).recent_anomalies@[other]
                    }
            },
            ({
                let key = anomaly_key(metric_name@, description@, seen, now);
                let last = old(self).recent_anomalies@;
                reported <==> !last.contains_key(key) || (now >= last[key] && now - last[key]
                    >= 300_000_000_000)
            }),
    {
        let minutes: u64 = now.saturating_sub(seen) / 60_000_000_000;
        let key: String = String::from_str(metric_name).concat(":").concat(description).concat(
            ":",
        ).concat(decimal_string(minutes).as_str());
        match self.recent_anomalies.get(key.as_str()) {
            Some(last) => {
                if is_recent(last, now, ANOMALY_COOLDOWN) {
                    return false;
                }
            },
            None => {},
        }
        self.recent_anomalies.keep_recent(now, ANOMALY_MEMORY);
        self.recent_anomalies.set(key, now);
        self.total_anomalies_detected = self.total_anomalies_detected.wrapping_add(1);
        true
    }

    /// The newest anomalies on record, oldest first.
    pub fn get_anomalies(&self, limit: usize) -> (r: Vec<&Anomaly<V>>)
        ensures
            r@.len() == newest(self.anomalies@, limit as nat).len(),
            forall|i: int|
                0 <= i < r@.len() ==> *(#[trigger] r@[i]) == newest(
                    self.anomalies@,
                    limit as nat,
                )[i],
    {
        let n: usize = self.anomalies.len();
        let start: usize = if n > limit {
            n - limit
        } else {
            0
        };
        let mut r: Vec<&Anomaly<V>> = Vec::new();
        let mut i: usize = start;
        while i < n
            invariant
                start <= i <= n,
                n == self.anomalies@.len(),
                r@.len() == i - start,
                forall|k: int| 0 <= k < r@.len() ==> *(#[trigger] r@[k]) == self.anomalies@[start
                    + k],
            decreases n - i,
        {
            r.push(&self.anomalies[i]);
            i += 1;
        }
        r
    }

    /// The values of a metric, if there are any.
    pub fn get_aggregated_metric(&self, name: &str) -> (r: Option<&AggregatedMetric<V>>)
        requires
            self.wf(),
        ensures
            r is Some <==> self.metrics_store.lookup(name@) is Some,
            r matches Some(m) ==> self.metrics_store.lookup(name@) == Some(*m),
    {
        match self.metrics_store.find(name) {
            Some(i) => Some(self.metrics_store.get(i)),
            None => None,
        }
    }

    /// All metrics, in the order in which they were first recorded.
    pub fn get_all_metrics(&self) -> (r: Vec<&AggregatedMetric<V>>)
        ensures
            r@.len() == self.metrics_store.items().len(),
            forall|i: int|
                0 <= i < r@.len() ==> *(#[trigger] r@[i]) == self.metrics_store.items()[i].1,
    {
        let mut r: Vec<&AggregatedMetric<V>> = Vec::new();
        let mut i: usize = 0;
        while i < self.metrics_store.len()
            invariant
                i <= self.metrics_store.items().len(),
                r@.len() == i,
                forall|k: int|
                    0 <= k < i ==> *(#[trigger] r@[k]) == self.metrics_store.items()[k].1,
            decreases self.metrics_store.items().len() - i,
        {
            r.push(self.metrics_store.get(i));
            i += 1;
        }
        r
    }

    /// The counters at time `now`.
    pub fn get_stats(&self, now: u64) -> (s: MetricsStats)
        ensures
            s.total_metrics == self.metrics_store.items().len(),
            s.total_recorded == self.total_metrics_recorded,
            s.total_anomalies == self.total_anomalies_detected,
            s.uptime == if now >= self.start_time {
                now - self.start_time
            } else {
                0
            },
            s.collection_interval == self.config.collection_interval,
            s.sampling_rate == self.config.trace_sampling_rate,
    {
        MetricsStats {
            total_metrics: self.metrics_store.len() as u64,
            total_recorded: self.total_metrics_recorded,
            total_anomalies: self.total_anomalies_detected,
            uptime: now.saturating_sub(self.start_time),
            collection_interval: self.config.collection_interval,
            sampling_rate: self.config.trace_sampling_rate,
        }
    }

    /// Forgets metrics, counts and anomalies. What was reported lately stays
    /// known.
    pub fn reset_metrics(&mut self)
        requires
            old(self).wf(),
        ensures
            final(self).wf(),
            final(self).metrics_store.items().len() == 0,
            final(self).total_metrics_recorded == 0,
            final(self).total_anomalies_detected == 0,
            final(self).anomalies@.len() == 0,
            final(self).recent_anomalies == old(self).recent_anomalies,
            final(self).config == old(self).config,
            final(self).start_time == old(self).start_time,
    {
        self.metrics_store.clear();
        self.total_metrics_recorded = 0;
        self.total_anomalies_detected = 0;
        self.anomalies.clear();
    }
}

/// Anomalies of the same age are told apart by their metric and their
/// description, as far as these are of one length.
pub proof fn anomalies_are_told_apart(
    m1: Seq<char>,
    m2: Seq<char>,
    d1: Seq<char>,
    d2: Seq<char>,
    seen: u64,
    now: u64,
)
    requires
        m1.len() == m2.len(),
        d1.len() == d2.len(),
        anomaly_key(m1, d1, seen, now) == anomaly_key(m2, d2, seen, now),
    ensures
        m1 == m2,
        d1 == d2,
{
    let (k1, k2) = (anomaly_key(m1, d1, seen, now), anomaly_key(m2, d2, seen, now));
    let sep = ":"@.len() as int;
    assert(k1.take(m1.len() as int) =~= m1);
    assert(k2.take(m2.len() as int) =~= m2);
    let from = m1.len() + sep;
    assert(k1.subrange(from, from + d1.len()) =~= d1);
    assert(k2.subrange(from, from + d2.len()) =~= d2);
}

/// The age of an anomaly enters its name in whole minutes: within one minute
/// the name stays.
pub proof fn anomalies_are_named_by_the_minute(
    metric: Seq<char>,
    description: Seq<char>,
    seen: u64,
    a: u64,
    b: u64,
)
    requires
        seen <= a <= b < seen + 60_000_000_000,
    ensures
        anomaly_key(metric, description, seen, a) == anomaly_key(metric, description, seen, b),
{
}

} // verus!
