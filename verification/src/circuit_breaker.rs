//! Circuit breakers: a component that keeps failing is left alone for a while,
//! then tried again with care.
//!
//! Points in time and durations are nanoseconds.

use std::collections::VecDeque;
use vstd::prelude::*;
use vstd::std_specs::vecdeque::*;
use vstd::string::*;

use crate::dash::{NamedMap, named_entries, named_get, named_insert, named_new};
use crate::history::{remember, remembered};
use crate::ratio::Ratio;
use crate::store::NamedStore;

verus! {

/// How many failures a breaker remembers.
pub const FAILURE_HISTORY: usize = 100;

/// The recovery delay never exceeds the base delay times this factor.
pub const MAX_DELAY_FACTOR: u64 = 16;

/// Each failed recovery multiplies the recovery delay by this factor.
pub const BACKOFF_FACTOR: u64 = 2;

/// What a breaker does with requests.
#[derive(Debug, Clone, Copy, PartialEq, Eq, Hash, Structural)]
pub enum CircuitState {
    /// All requests pass.
    Closed,
    /// All requests are refused until the recovery delay is over.
    Open,
    /// Requests pass on trial.
    HalfOpen,
}

/// `base` multiplied `n` times by `factor`.
pub open spec fn backed_off(base: nat, factor: nat, n: nat) -> nat
    decreases n,
{
    if n == 0 {
        base
    } else {
        backed_off(base, factor, (n - 1) as nat) * factor
    }
}

/// The `n`-th recovery delay: `base * factor^n`, but at most `max`.
pub open spec fn delay_after(base: nat, max: nat, factor: nat, n: nat) -> nat {
    let d = backed_off(base, factor, n);
    if d <= max {
        d
    } else {
        max
    }
}

/// Later delays are no shorter than earlier ones.
pub proof fn delays_grow(base: nat, max: nat, factor: nat, i: nat, j: nat)
    requires
        factor >= 1,
        i <= j,
    ensures
        backed_off(base, factor, i) <= backed_off(base, factor, j),
        delay_after(base, max, factor, i) <= delay_after(base, max, factor, j) <= max,
    decreases j,
{
    if i < j {
        delays_grow(base, max, factor, i, (j - 1) as nat);
        let d = backed_off(base, factor, (j - 1) as nat);
        assert(d <= d * factor) by (nonlinear_arith)
            requires
                factor >= 1,
        ;
    }
}

proof fn zero_stays_zero(factor: nat, n: nat)
    ensures
        backed_off(0, factor, n) == 0,
    decreases n,
{
    if n > 0 {
        zero_stays_zero(factor, (n - 1) as nat);
        assert(0 * factor == 0) by (nonlinear_arith);
    }
}

proof fn factor_one_changes_nothing(base: nat, n: nat)
    ensures
        backed_off(base, 1, n) == base,
    decreases n,
{
    if n > 0 {
        factor_one_changes_nothing(base, (n - 1) as nat);
    }
}

/// Exponentially growing recovery delays.
#[derive(Debug, Clone, Copy)]
pub struct RecoveryModel {
    pub base_delay: u64,
    pub max_delay: u64,
    pub backoff_factor: u64,
    pub current_delay: u64,
    pub recovery_attempts: u32,
}

impl RecoveryModel {
    /// Starts with the base delay.
    pub fn new(base_delay: u64, max_delay: u64, backoff_factor: u64) -> (m: Self)
        ensures
            m == (RecoveryModel {
                base_delay,
                max_delay,
                backoff_factor,
                current_delay: base_delay,
                recovery_attempts: 0,
            }),
    {
        RecoveryModel {
            base_delay,
            max_delay,
            backoff_factor,
            current_delay: base_delay,
            recovery_attempts: 0,
        }
    }

    /// The delay that follows `n` failed recoveries.
    pub open spec fn delay(self, n: nat) -> nat {
        delay_after(
            self.base_delay as nat,
            self.max_delay as nat,
            self.backoff_factor as nat,
            n,
        )
    }

    /// The model after one more failed recovery.
    pub open spec fn backed_off_once(self) -> RecoveryModel {
        RecoveryModel {
            current_delay: self.delay(self.recovery_attempts as nat) as u64,
            recovery_attempts: (self.recovery_attempts + 1) as u32,
            ..self
        }
    }

    /// The model after a successful recovery.
    pub open spec fn restored(self) -> RecoveryModel {
        RecoveryModel { current_delay: self.base_delay, recovery_attempts: 0, ..self }
    }

    /// Moves on to the next delay and returns it.
    pub fn next_delay(&mut self) -> (d: u64)
        requires
            old(self).backoff_factor >= 1,
            old(self).recovery_attempts < u32::MAX,
        ensures
            *final(self) == old(self).backed_off_once(),
            d == final(self).current_delay,
            d == old(self).delay(old(self).recovery_attempts as nat),
    {
        let base: u64 = self.base_delay;
        let max: u64 = self.max_delay;
        let factor: u64 = self.backoff_factor;
        let n: u32 = self.recovery_attempts;
        let mut d: u64 = base;
        let mut i: u32 = 0;
        let mut exceeded: bool = base > max;
        while i < n && !exceeded && d > 0 && factor > 1
            invariant
                i <= n,
                factor >= 1,
                !exceeded ==> d == backed_off(base as nat, factor as nat, i as nat) && d <= max,
                exceeded ==> backed_off(base as nat, factor as nat, i as nat) > max,
            decreases n - i,
        {
            let limit: u64 = max / factor;
            proof {
                assert(d > limit ==> d * factor > max) by (nonlinear_arith)
                    requires
                        factor >= 1,
                        limit == max / factor,
                ;
                assert(d <= limit ==> d * factor <= max) by (nonlinear_arith)
                    requires
                        factor >= 1,
                        limit == max / factor,
                ;
            }
            if d > limit {
                exceeded = true;
            } else {
                d = d * factor;
            }
            i += 1;
        }
        proof {
            delays_grow(base as nat, max as nat, factor as nat, i as nat, n as nat);
            if d == 0 && !exceeded {
                if base != 0 {
                    positive_stays_positive(base as nat, factor as nat, i as nat);
                }
                zero_stays_zero(factor as nat, n as nat);
            }
            if factor == 1 {
                factor_one_changes_nothing(base as nat, i as nat);
                factor_one_changes_nothing(base as nat, n as nat);
            }
        }
        let delay: u64 = if exceeded {
            max
        } else {
            d
        };
        self.current_delay = delay;
        self.recovery_attempts = n + 1;
        delay
    }

    /// Back to the base delay.
    pub fn reset(&mut self)
        ensures
            *final(self) == old(self).restored(),
    {
        self.current_delay = self.base_delay;
        self.recovery_attempts = 0;
    }
}

proof fn positive_stays_positive(base: nat, factor: nat, n: nat)
    requires
        base > 0,
        factor >= 1,
    ensures
        backed_off(base, factor, n) > 0,
    decreases n,
{
    if n > 0 {
        positive_stays_positive(base, factor, (n - 1) as nat);
        let d = backed_off(base, factor, (n - 1) as nat);
        assert(d * factor > 0) by (nonlinear_arith)
            requires
                d > 0,
                factor >= 1,
        ;
    }
}

/// Everything a breaker's decisions depend on.
#[derive(Debug, Clone, Copy)]
pub struct BreakerCore {
    pub state: CircuitState,
    pub failure_count: usize,
    pub success_count: usize,
    pub total_requests: usize,
    pub last_failure: Option<u64>,
    pub last_success: Option<u64>,
    pub state_change_time: u64,
    pub half_open_success_count: usize,
    pub opened_count: u64,
    pub closed_count: u64,
    pub half_open_count: u64,
    pub recovery: RecoveryModel,
    pub failure_threshold: usize,
    pub half_open_max_requests: usize,
}

/// The time from `earlier` to `now`, zero if `now` comes first.
pub open spec fn elapsed(now: u64, earlier: u64) -> u64 {
    if now >= earlier {
        (now - earlier) as u64
    } else {
        0
    }
}

impl BreakerCore {
    /// What holds of every breaker: it is open or on trial only after a
    /// failure, counts trial successes only while on trial and closes at the
    /// last one needed, and opens when the failures reach the threshold.
    pub open spec fn wf(self) -> bool {
        &&& self.state != CircuitState::Closed ==> self.last_failure is Some
        &&& self.state != CircuitState::HalfOpen ==> self.half_open_success_count == 0
        &&& self.half_open_success_count == 0 || self.half_open_success_count
            < self.half_open_max_requests
        &&& self.state == CircuitState::Closed ==> self.failure_count == 0 || self.failure_count
            < self.failure_threshold
        &&& self.recovery.backoff_factor == BACKOFF_FACTOR
        &&& self.recovery.max_delay == self.recovery.base_delay * MAX_DELAY_FACTOR
        &&& self.recovery.current_delay == if self.recovery.recovery_attempts == 0 {
            self.recovery.base_delay as nat
        } else {
            self.recovery.delay((self.recovery.recovery_attempts - 1) as nat)
        }
        &&& self.closed_count >= 1
    }

    /// No counter is at the end of its range.
    pub open spec fn counters_fit(self) -> bool {
        &&& self.failure_count < usize::MAX
        &&& self.success_count < usize::MAX
        &&& self.total_requests < usize::MAX
        &&& self.half_open_success_count < usize::MAX
        &&& self.opened_count < u64::MAX
        &&& self.closed_count < u64::MAX
        &&& self.half_open_count < u64::MAX
        &&& self.recovery.recovery_attempts < u32::MAX
    }

    /// Whether the recovery delay since the last failure is over.
    pub open spec fn recovery_due(self, now: u64) -> bool {
        self.last_failure matches Some(t) && elapsed(now, t) >= self.recovery.current_delay
    }

    /// Whether a request passes.
    pub open spec fn admits(self, now: u64) -> bool {
        match self.state {
            CircuitState::Closed => true,
            CircuitState::Open => self.recovery_due(now),
            CircuitState::HalfOpen => self.half_open_success_count < self.half_open_max_requests,
        }
    }

    /// The breaker after it was asked for a request: an open one whose delay
    /// is over goes on trial.
    pub open spec fn after_request(self, now: u64) -> BreakerCore {
        let counted = BreakerCore { total_requests: (self.total_requests + 1) as usize, ..self };
        if self.state == CircuitState::Open && self.recovery_due(now) {
            BreakerCore {
                state: CircuitState::HalfOpen,
                half_open_success_count: 0,
                state_change_time: now,
                half_open_count: (self.half_open_count + 1) as u64,
                ..counted
            }
        } else {
            counted
        }
    }

    /// The breaker after a success: on trial, the last success needed closes
    /// it; a closed one forgets its failures.
    pub open spec fn after_success(self, now: u64) -> BreakerCore {
        let counted = BreakerCore {
            success_count: (self.success_count + 1) as usize,
            last_success: Some(now),
            ..self
        };
        match self.state {
            CircuitState::Open => counted,
            CircuitState::Closed => BreakerCore { failure_count: 0, ..counted },
            CircuitState::HalfOpen => if self.half_open_success_count + 1
                >= self.half_open_max_requests {
                BreakerCore {
                    state: CircuitState::Closed,
                    failure_count: 0,
                    last_failure: None,
                    half_open_success_count: 0,
                    state_change_time: now,
                    closed_count: (self.closed_count + 1) as u64,
                    recovery: self.recovery.restored(),
                    ..counted
                }
            } else {
                BreakerCore {
                    half_open_success_count: (self.half_open_success_count + 1) as usize,
                    ..counted
                }
            },
        }
    }

    /// The breaker after a failure: a closed one opens at the threshold, one
    /// on trial at once; opening moves on to the next recovery delay.
    pub open spec fn after_failure(self, now: u64) -> BreakerCore {
        let counted = BreakerCore {
            failure_count: (self.failure_count + 1) as usize,
            last_failure: Some(now),
            ..self
        };
        match self.state {
            CircuitState::Open => counted,
            CircuitState::Closed => if self.failure_count + 1 >= self.failure_threshold {
                BreakerCore {
                    state: CircuitState::Open,
                    state_change_time: now,
                    opened_count: (self.opened_count + 1) as u64,
                    recovery: self.recovery.backed_off_once(),
                    ..counted
                }
            } else {
                counted
            },
            CircuitState::HalfOpen => BreakerCore {
                state: CircuitState::Open,
                state_change_time: now,
                half_open_success_count: 0,
                recovery: self.recovery.backed_off_once(),
                ..counted
            },
        }
    }

    /// The breaker after a manual reset; requests and openings stay counted.
    pub open spec fn after_reset(self, now: u64) -> BreakerCore {
        BreakerCore {
            state: CircuitState::Closed,
            failure_count: 0,
            success_count: 0,
            last_failure: None,
            last_success: None,
            half_open_success_count: 0,
            state_change_time: now,
            closed_count: (self.closed_count + 1) as u64,
            recovery: self.recovery.restored(),
            ..self
        }
    }
}

/// One failure as the breaker saw it.
#[derive(Debug, Clone)]
pub struct FailureRecord {
    pub timestamp: u64,
    pub state: CircuitState,
    pub failure_count: usize,
    pub error: Option<String>,
}

/// The name of a metric of a breaker.
pub open spec fn breaker_metric(name: Seq<char>, key: Seq<char>) -> Seq<char> {
    "circuit_breaker."@ + name + "."@ + key
}

/// Metrics with the metric of a breaker set.
pub open spec fn with_metric(
    metrics: Map<Seq<char>, Ratio>,
    name: Seq<char>,
    key: Seq<char>,
    value: Ratio,
) -> Map<Seq<char>, Ratio> {
    metrics.insert(breaker_metric(name, key), value)
}

/// Metrics with the metric of a breaker set to one.
pub open spec fn with_mark(
    metrics: Map<Seq<char>, Ratio>,
    name: Seq<char>,
    key: Seq<char>,
) -> Map<Seq<char>, Ratio> {
    with_metric(metrics, name, key, Ratio { part: 1, whole: 1 })
}

impl BreakerCore {
    /// The metrics after a request.
    pub open spec fn request_noted(
        self,
        m: Map<Seq<char>, Ratio>,
        name: Seq<char>,
        now: u64,
    ) -> Map<Seq<char>, Ratio> {
        match self.state {
            CircuitState::Closed => with_mark(m, name, "allowed"@),
            CircuitState::Open => if self.recovery_due(now) {
                with_mark(
                    with_mark(m, name, "transition.half_open"@),
                    name,
                    "recovery_attempts"@,
                )
            } else {
                with_mark(m, name, "rejected.open"@)
            },
            CircuitState::HalfOpen => if self.admits(now) {
                with_mark(m, name, "allowed.half_open"@)
            } else {
                with_mark(m, name, "rejected.half_open"@)
            },
        }
    }

    /// The metrics after a success.
    pub open spec fn success_noted(
        self,
        m: Map<Seq<char>, Ratio>,
        name: Seq<char>,
    ) -> Map<Seq<char>, Ratio> {
        let counted = with_mark(m, name, "successes"@);
        if self.state == CircuitState::HalfOpen {
            let tried = with_mark(counted, name, "half_open.successes"@);
            if self.half_open_success_count + 1 >= self.half_open_max_requests {
                with_mark(with_mark(tried, name, "recovered"@), name, "state.closed"@)
            } else {
                tried
            }
        } else {
            counted
        }
    }

    /// The metrics after a failure. The share of failures is that of the failures
    /// in a row among those that open the breaker; a delay is told in whole
    /// milliseconds.
    pub open spec fn failure_noted(
        self,
        m: Map<Seq<char>, Ratio>,
        name: Seq<char>,
        now: u64,
    ) -> Map<Seq<char>, Ratio> {
        let failures = (self.failure_count + 1) as u64;
        let counted = with_metric(
            with_metric(
                with_mark(m, name, "failures"@),
                name,
                "failure_count"@,
                Ratio { part: failures, whole: 1 },
            ),
            name,
            "failure_rate"@,
            Ratio { part: failures, whole: self.failure_threshold as u64 },
        );
        match self.state {
            CircuitState::Closed => if failures >= self.failure_threshold {
                with_metric(
                    with_mark(
                        with_mark(counted, name, "circuit_opened"@),
                        name,
                        "state.open"@,
                    ),
                    name,
                    "recovery_delay_ms"@,
                    Ratio {
                        part: self.after_failure(now).recovery.current_delay / 1_000_000,
                        whole: 1,
                    },
                )
            } else {
                counted
            },
            CircuitState::HalfOpen => with_mark(
                with_mark(counted, name, "half_open.failure"@),
                name,
                "state.open"@,
            ),
            CircuitState::Open => counted,
        }
    }

    /// The metrics after a manual reset.
    pub open spec fn reset_noted(
        self,
        m: Map<Seq<char>, Ratio>,
        name: Seq<char>,
    ) -> Map<Seq<char>, Ratio> {
        with_mark(with_mark(m, name, "manual_reset"@), name, "state.closed"@)
    }
}

/// Named values that a breaker keeps of what happened last.
pub struct BreakerMetrics {
    values: NamedStore<Ratio>,
}

impl View for BreakerMetrics {
    type V = Map<Seq<char>, Ratio>;

    closed spec fn view(&self) -> Map<Seq<char>, Ratio> {
        Map::new(
            |name: Seq<char>| self.values.lookup(name) is Some,
            |name: Seq<char>| self.values.lookup(name)->0,
        )
    }
}

impl BreakerMetrics {
    /// What holds of all metrics.
    pub closed spec fn wf(self) -> bool {
        self.values.wf()
    }

    /// No metrics.
    pub fn new() -> (m: Self)
        ensures
            m.wf(),
            m@ == Map::<Seq<char>, Ratio>::empty(),
    {
        let m: BreakerMetrics = BreakerMetrics { values: NamedStore::new() };
        proof {
            assert(m@ =~= Map::empty());
        }
        m
    }

    /// Sets the metric of a breaker.
    fn note(&mut self, name: &String, key: &str, value: Ratio)
        requires
            old(self).wf(),
        ensures
            final(self).wf(),
            final(self)@ == with_metric(old(self)@, name@, key@, value),
    {
        let full: String = String::from_str("circuit_breaker.").concat(name.as_str()).concat(
            ".",
        ).concat(key);
        let _before: Option<Ratio> = self.values.put(full.as_str(), value);
        proof {
            assert(self@ =~= old(self)@.insert(full@, value));
        }
    }

    /// Sets the metric of a breaker to one.
    fn mark(&mut self, name: &String, key: &str)
        requires
            old(self).wf(),
        ensures
            final(self).wf(),
            final(self)@ == with_mark(old(self)@, name@, key@),
    {
        self.note(name, key, Ratio::new(1, 1));
    }

    /// A metric by its full name.
    pub fn get(&self, full_name: &str) -> (r: Option<Ratio>)
        requires
            self.wf(),
        ensures
            r is Some <==> self@.contains_key(full_name@),
            r matches Some(v) ==> v == self@[full_name@],
    {
        match self.values.find(full_name) {
            Some(i) => Some(*self.values.get(i)),
            None => None,
        }
    }
}

/// A circuit breaker.
pub struct CircuitBreaker {
    pub name: String,
    pub core: BreakerCore,
    pub recovery_timeout: u64,
    pub failure_history: VecDeque<FailureRecord>,
    pub metrics: BreakerMetrics,
}

/// Counters and times of a breaker.
#[derive(Debug, Clone)]
pub struct CircuitBreakerStats {
    pub name: String,
    pub state: CircuitState,
    pub failure_count: usize,
    pub success_count: usize,
    pub total_requests: usize,
    pub last_failure: Option<u64>,
    pub last_success: Option<u64>,
    pub failure_threshold: usize,
    pub recovery_timeout: u64,
    pub current_delay: u64,
    pub recovery_attempts: u32,
    pub opened_count: u64,
    pub closed_count: u64,
    pub half_open_count: u64,
    pub uptime: u64,
}

impl CircuitBreakerStats {
    /// What the statistics of a breaker are at a point in time.
    pub open spec fn describes(self, b: CircuitBreaker, now: u64) -> bool {
        &&& self.name@ == b.name@
        &&& self.state == b.core.state
        &&& self.failure_count == b.core.failure_count
        &&& self.success_count == b.core.success_count
        &&& self.total_requests == b.core.total_requests
        &&& self.last_failure == b.core.last_failure
        &&& self.last_success == b.core.last_success
        &&& self.failure_threshold == b.core.failure_threshold
        &&& self.recovery_timeout == b.recovery_timeout
        &&& self.current_delay == b.core.recovery.current_delay
        &&& self.recovery_attempts == b.core.recovery.recovery_attempts
        &&& self.opened_count == b.core.opened_count
        &&& self.closed_count == b.core.closed_count
        &&& self.half_open_count == b.core.half_open_count
        &&& self.uptime == if b.core.state == CircuitState::Closed {
            elapsed(now, b.core.state_change_time)
        } else {
            0
        }
    }
}

/// A breaker as it starts: closed, nothing counted.
pub open spec fn fresh_core(
    failure_threshold: usize,
    recovery_timeout: u64,
    half_open_max_requests: usize,
    now: u64,
) -> BreakerCore {
    BreakerCore {
        state: CircuitState::Closed,
        failure_count: 0,
        success_count: 0,
        total_requests: 0,
        last_failure: None,
        last_success: None,
        state_change_time: now,
        half_open_success_count: 0,
        opened_count: 0,
        closed_count: 1,
        half_open_count: 0,
        recovery: RecoveryModel {
            base_delay: recovery_timeout,
            max_delay: (recovery_timeout * MAX_DELAY_FACTOR) as u64,
            backoff_factor: BACKOFF_FACTOR,
            current_delay: recovery_timeout,
            recovery_attempts: 0,
        },
        failure_threshold,
        half_open_max_requests,
    }
}

impl CircuitBreaker {
    /// What holds of every breaker.
    pub open spec fn wf(self) -> bool {
        &&& self.core.wf()
        &&& self.core.recovery.base_delay == self.recovery_timeout
        &&& self.failure_history@.len() <= FAILURE_HISTORY
        &&& self.metrics.wf()
    }

    /// Whether this is the breaker `before`, whatever its state now, with one
    /// failure more on record, or none. A failure is given by the state it
    /// was met in and its time.
    pub open spec fn records(self, before: Self, failure: Option<(BreakerCore, u64)>) -> bool {
        &&& self.name == before.name
        &&& self.recovery_timeout == before.recovery_timeout
        &&& self.failure_history@ == match failure {
            Some((core, now)) => remembered(
                before.failure_history@,
                FailureRecord {
                    timestamp: now,
                    state: core.state,
                    failure_count: (core.failure_count + 1) as usize,
                    error: None,
                },
                FAILURE_HISTORY as nat,
            ),
            None => before.failure_history@,
        }
    }

    /// A closed breaker.
    pub fn new(
        name: String,
        failure_threshold: usize,
        recovery_timeout: u64,
        half_open_max_requests: usize,
        now: u64,
    ) -> (b: Self)
        requires
            recovery_timeout * MAX_DELAY_FACTOR <= u64::MAX,
        ensures
            b.wf(),
            b.name == name,
            b.core == fresh_core(failure_threshold, recovery_timeout, half_open_max_requests, now),
            b.recovery_timeout == recovery_timeout,
            b.failure_history@ == Seq::<FailureRecord>::empty(),
            b.metrics@ == Map::<Seq<char>, Ratio>::empty(),
    {
        CircuitBreaker {
            name,
            core: BreakerCore {
                state: CircuitState::Closed,
                failure_count: 0,
                success_count: 0,
                total_requests: 0,
                last_failure: None,
                last_success: None,
                state_change_time: now,
                half_open_success_count: 0,
                opened_count: 0,
                closed_count: 1,
                half_open_count: 0,
                recovery: RecoveryModel::new(
                    recovery_timeout,
                    recovery_timeout * MAX_DELAY_FACTOR,
                    BACKOFF_FACTOR,
                ),
                failure_threshold,
                half_open_max_requests,
            },
            recovery_timeout,
            failure_history: VecDeque::new(),
            metrics: BreakerMetrics::new(),
        }
    }

    /// Whether a request passes at time `now`.
    pub fn allow_request(&mut self, now: u64) -> (allowed: bool)
        requires
            old(self).wf(),
            old(self).core.counters_fit(),
        ensures
            final(self).wf(),
            allowed == old(self).core.admits(now),
            old(self).core.state == CircuitState::Closed ==> allowed,
            old(self).core.state == CircuitState::HalfOpen && old(self).core.half_open_max_requests
                > 0 ==> allowed,
            old(self).core.state == CircuitState::Open ==> (allowed <==> final(self).core.state
                == CircuitState::HalfOpen),
            final(self).core == old(self).core.after_request(now),
            final(self).metrics@ == old(self).core.request_noted(
                old(self).metrics@,
                old(self).name@,
                now,
            ),
            final(self).name == old(self).name,
            final(self).recovery_timeout == old(self).recovery_timeout,
            final(self).failure_history == old(self).failure_history,
            old(self).core.state == CircuitState::Open ==> (allowed <==> (old(
                self,
            ).core.last_failure matches Some(t) && (now >= t + old(self).core.recovery.current_delay
                || old(self).core.recovery.current_delay == 0))),
            final(self).core.total_requests == old(self).core.total_requests + 1,
            ({
                let key = "circuit_breaker."@ + old(self).name@ + "."@ + match old(self).core.state {
                    CircuitState::Closed => "allowed"@,
                    CircuitState::Open => if allowed {
                        "recovery_attempts"@
                    } else {
                        "rejected.open"@
                    },
                    CircuitState::HalfOpen => if allowed {
                        "allowed.half_open"@
                    } else {
                        "rejected.half_open"@
                    },
                };
                final(self).metrics@.contains_key(key) && final(self).metrics@[key] == (Ratio {
                    part: 1,
                    whole: 1,
                })
            }),
    {
        self.core.total_requests = self.core.total_requests + 1;
        match self.core.state {
            CircuitState::Closed => {
                self.metrics.mark(&self.name, "allowed");
                true
            },
            CircuitState::Open => {
                if self.should_attempt_recovery(now) {
                    self.metrics.mark(&self.name, "transition.half_open");
                    self.metrics.mark(&self.name, "recovery_attempts");
                    self.core.state = CircuitState::HalfOpen;
                    self.core.half_open_success_count = 0;
                    self.core.state_change_time = now;
                    self.core.half_open_count = self.core.half_open_count + 1;
                    true
                } else {
                    self.metrics.mark(&self.name, "rejected.open");
                    false
                }
            },
            CircuitState::HalfOpen => {
                let allowed: bool = self.core.half_open_success_count
                    < self.core.half_open_max_requests;
                if allowed {
                    self.metrics.mark(&self.name, "allowed.half_open");
                } else {
                    self.metrics.mark(&self.name, "rejected.half_open");
                }
                allowed
            },
        }
    }

    /// Whether the recovery delay since the last failure is over.
    pub fn should_attempt_recovery(&self, now: u64) -> (due: bool)
        ensures
            due == self.core.recovery_due(now),
            due <==> (self.core.last_failure matches Some(t) && (now >= t
                + self.core.recovery.current_delay || self.core.recovery.current_delay == 0)),
    {
        match self.core.last_failure {
            Some(t) => now.saturating_sub(t) >= self.core.recovery.current_delay,
            None => false,
        }
    }

    /// Takes note of a success at time `now`.
    pub fn record_success(&mut self, now: u64)
        requires
            old(self).wf(),
            old(self).core.counters_fit(),
        ensures
            final(self).wf(),
            final(self).core == old(self).core.after_success(now),
            final(self).metrics@ == old(self).core.success_noted(
                old(self).metrics@,
                old(self).name@,
            ),
            final(self).name == old(self).name,
            final(self).recovery_timeout == old(self).recovery_timeout,
            final(self).failure_history == old(self).failure_history,
            old(self).core.state == CircuitState::Open
                ==> final(self).core.state == CircuitState::Open,
            old(self).core.state == CircuitState::Closed
                ==> final(self).core.state == CircuitState::Closed
                && final(self).core.failure_count == 0,
            old(self).core.state == CircuitState::HalfOpen ==> {
                let (was, later) = (old(self).core, final(self).core);
                let last = was.half_open_success_count + 1 >= was.half_open_max_requests;
                &&& later.state == CircuitState::Closed <==> last
                &&& later.state == CircuitState::HalfOpen <==> !last
                &&& !last ==> later.half_open_success_count == was.half_open_success_count + 1
                &&& last ==> later.failure_count == 0 && later.last_failure is None
                    && later.recovery.current_delay == was.recovery.base_delay
                    && later.recovery.recovery_attempts == 0 && later.state_change_time == now
            },
    {
        self.core.success_count = self.core.success_count + 1;
        self.core.last_success = Some(now);
        self.metrics.mark(&self.name, "successes");
        match self.core.state {
            CircuitState::HalfOpen => {
                self.metrics.mark(&self.name, "half_open.successes");
                self.core.half_open_success_count = self.core.half_open_success_count + 1;
                if self.core.half_open_success_count >= self.core.half_open_max_requests {
                    self.core.state = CircuitState::Closed;
                    self.core.failure_count = 0;
                    self.core.last_failure = None;
                    self.core.half_open_success_count = 0;
                    self.core.state_change_time = now;
                    self.core.closed_count = self.core.closed_count + 1;
                    self.core.recovery.reset();
                    self.metrics.mark(&self.name, "recovered");
                    self.metrics.mark(&self.name, "state.closed");
                }
            },
            CircuitState::Closed => {
                self.core.failure_count = 0;
            },
            CircuitState::Open => {},
        }
    }

    /// Takes note of a failure at time `now`.
    pub fn record_failure(&mut self, now: u64)
        requires
            old(self).wf(),
            old(self).core.counters_fit(),
        ensures
            final(self).wf(),
            final(self).core == old(self).core.after_failure(now),
            final(self).metrics@ == old(self).core.failure_noted(
                old(self).metrics@,
                old(self).name@,
                now,
            ),
            final(self).name == old(self).name,
            final(self).recovery_timeout == old(self).recovery_timeout,
            final(self).failure_history@ == remembered(
                old(self).failure_history@,
                (FailureRecord {
                    timestamp: now,
                    state: old(self).core.state,
                    failure_count: (old(self).core.failure_count + 1) as usize,
                    error: None,
                }),
                FAILURE_HISTORY as nat,
            ),
            ({
                let (was, later) = (old(self).core, final(self).core);
                let opens = was.state == CircuitState::HalfOpen
                    || (was.state == CircuitState::Closed
                    && was.failure_count + 1 >= was.failure_threshold);
                &&& later.state == CircuitState::Open <==> opens || was.state == CircuitState::Open
                &&& opens ==> later.state_change_time == now && later.recovery.recovery_attempts
                    == was.recovery.recovery_attempts + 1
                &&& !opens ==> later.state == was.state
                    && later.state_change_time == was.state_change_time
                    && later.recovery == was.recovery
                &&& later.failure_count == was.failure_count + 1
                &&& later.last_failure == Some(now)
                &&& final(self).failure_history@.len() > 0
                &&& final(self).failure_history@.last().timestamp == now
                &&& final(self).failure_history@.last().state == was.state
            }),
    {
        self.core.failure_count = self.core.failure_count + 1;
        self.core.last_failure = Some(now);
        let record: FailureRecord = FailureRecord {
            timestamp: now,
            state: self.core.state,
            failure_count: self.core.failure_count,
            error: None,
        };
        remember(&mut self.failure_history, record, FAILURE_HISTORY);
        let failures: u64 = self.core.failure_count as u64;
        self.metrics.mark(&self.name, "failures");
        self.metrics.note(&self.name, "failure_count", Ratio::new(failures, 1));
        self.metrics.note(
            &self.name,
            "failure_rate",
            Ratio::new(failures, self.core.failure_threshold as u64),
        );
        match self.core.state {
            CircuitState::Closed => {
                if self.core.failure_count >= self.core.failure_threshold {
                    self.core.state = CircuitState::Open;
                    self.core.state_change_time = now;
                    self.core.opened_count = self.core.opened_count + 1;
                    let delay: u64 = self.core.recovery.next_delay();
                    self.metrics.mark(&self.name, "circuit_opened");
                    self.metrics.mark(&self.name, "state.open");
                    self.metrics.note(
                        &self.name,
                        "recovery_delay_ms",
                        Ratio::new(delay / 1_000_000, 1),
                    );
                }
            },
            CircuitState::HalfOpen => {
                self.core.state = CircuitState::Open;
                self.core.state_change_time = now;
                self.core.half_open_success_count = 0;
                let _delay: u64 = self.core.recovery.next_delay();
                self.metrics.mark(&self.name, "half_open.failure");
                self.metrics.mark(&self.name, "state.open");
            },
            CircuitState::Open => {},
        }
    }

    /// Closes the breaker and forgets failures and successes.
    pub fn reset(&mut self, now: u64)
        requires
            old(self).wf(),
            old(self).core.closed_count < u64::MAX,
        ensures
            final(self).wf(),
            final(self).core == old(self).core.after_reset(now),
            final(self).metrics@ == old(self).core.reset_noted(old(self).metrics@, old(self).name@),
            final(self).name == old(self).name,
            final(self).recovery_timeout == old(self).recovery_timeout,
            final(self).failure_history == old(self).failure_history,
            final(self).core.state == CircuitState::Closed,
            final(self).core.failure_count == 0 && final(self).core.success_count == 0,
            final(self).core.last_failure is None && final(self).core.last_success is None,
            final(self).core.recovery.current_delay == old(self).core.recovery.base_delay,
            final(self).core.total_requests == old(self).core.total_requests,
            final(self).core.opened_count == old(self).core.opened_count,
    {
        self.core.state = CircuitState::Closed;
        self.core.failure_count = 0;
        self.core.success_count = 0;
        self.core.last_failure = None;
        self.core.last_success = None;
        self.core.half_open_success_count = 0;
        self.core.state_change_time = now;
        self.core.closed_count = self.core.closed_count + 1;
        self.core.recovery.reset();
        self.metrics.mark(&self.name, "manual_reset");
        self.metrics.mark(&self.name, "state.closed");
    }

    /// The current state.
    pub fn get_state(&self) -> (s: CircuitState)
        ensures
            s == self.core.state,
    {
        self.core.state
    }

    /// Counters and times at time `now`.
    pub fn get_stats(&self, now: u64) -> (stats: CircuitBreakerStats)
        ensures
            stats.describes(*self, now),
            stats.state == self.core.state,
            stats.total_requests == self.core.total_requests,
            stats.failure_count == self.core.failure_count,
            stats.success_count == self.core.success_count,
            self.core.state == CircuitState::Closed && now >= self.core.state_change_time
                ==> stats.uptime
                == now - self.core.state_change_time,
            self.core.state != CircuitState::Closed ==> stats.uptime == 0,
    {
        let uptime: u64 = if self.core.state == CircuitState::Closed {
            now.saturating_sub(self.core.state_change_time)
        } else {
            0
        };
        CircuitBreakerStats {
            name: self.name.clone(),
            state: self.core.state,
            failure_count: self.core.failure_count,
            success_count: self.core.success_count,
            total_requests: self.core.total_requests,
            last_failure: self.core.last_failure,
            last_success: self.core.last_success,
            failure_threshold: self.core.failure_threshold,
            recovery_timeout: self.recovery_timeout,
            current_delay: self.core.recovery.current_delay,
            recovery_attempts: self.core.recovery.recovery_attempts,
            opened_count: self.core.opened_count,
            closed_count: self.core.closed_count,
            half_open_count: self.core.half_open_count,
            uptime,
        }
    }
}

/// The breaker after `n` failures in a row, the `i`-th of them at `times[i]`.
pub open spec fn after_failures(core: BreakerCore, times: Seq<u64>) -> BreakerCore
    decreases times.len(),
{
    if times.len() == 0 {
        core
    } else {
        after_failures(core, times.drop_last()).after_failure(times.last())
    }
}

/// The breaker after successes in a row, the `i`-th of them at `times[i]`.
pub open spec fn after_successes(core: BreakerCore, times: Seq<u64>) -> BreakerCore
    decreases times.len(),
{
    if times.len() == 0 {
        core
    } else {
        after_successes(core, times.drop_last()).after_success(times.last())
    }
}

/// Every event keeps the invariant of a breaker.
pub proof fn events_keep_invariant(core: BreakerCore, now: u64)
    requires
        core.wf(),
        core.counters_fit(),
    ensures
        core.after_request(now).wf(),
        core.after_success(now).wf(),
        core.after_failure(now).wf(),
        core.after_reset(now).wf(),
{
    let attempts = core.recovery.recovery_attempts as nat;
    delays_grow(
        core.recovery.base_delay as nat,
        core.recovery.max_delay as nat,
        core.recovery.backoff_factor as nat,
        attempts,
        attempts,
    );
}

/// A breaker that was just opened or kept open by a failure refuses every
/// request until the recovery delay is over, and then lets one pass and goes
/// on trial.
pub proof fn open_breaker_waits(core: BreakerCore, failed_at: u64, now: u64)
    requires
        core.wf(),
        core.state == CircuitState::Open,
        core.last_failure == Some(failed_at),
        failed_at <= now,
    ensures
        core.admits(now) <==> now - failed_at >= core.recovery.current_delay,
        core.admits(now) ==> core.after_request(now).state == CircuitState::HalfOpen,
        !core.admits(now) ==> core.after_request(now).state == CircuitState::Open,
{
}

/// Only an open breaker ever refuses, or one on trial that has had its
/// successes; a closed one lets everything pass.
pub proof fn closed_breaker_admits(core: BreakerCore, now: u64)
    requires
        core.wf(),
        core.state == CircuitState::Closed,
    ensures
        core.admits(now),
        core.after_request(now).state == CircuitState::Closed,
{
}

/// A closed breaker stays closed through any number of failures in a row
/// below the threshold, and opens with the failure that reaches it.
pub proof fn threshold_failures_open(core: BreakerCore, times: Seq<u64>)
    requires
        core.wf(),
        core.state == CircuitState::Closed,
        core.failure_threshold > 0,
        core.failure_count + times.len() <= core.failure_threshold,
    ensures
        after_failures(core, times).failure_threshold == core.failure_threshold,
        after_failures(core, times).failure_count == core.failure_count + times.len(),
        times.len() > 0 && core.failure_count + times.len() == core.failure_threshold
            ==> after_failures(core, times).state == CircuitState::Open,
        core.failure_count + times.len() < core.failure_threshold ==> after_failures(
            core,
            times,
        ).state == CircuitState::Closed,
    decreases times.len(),
{
    if times.len() > 0 {
        threshold_failures_open(core, times.drop_last());
    }
}

/// A breaker on trial closes with the last success it needs, not before, and
/// then starts over with the base delay.
pub proof fn trial_successes_close(core: BreakerCore, times: Seq<u64>)
    requires
        core.wf(),
        core.state == CircuitState::HalfOpen,
        core.half_open_success_count == 0,
        times.len() <= core.half_open_max_requests,
    ensures
        after_successes(core, times).half_open_max_requests == core.half_open_max_requests,
        after_successes(core, times).recovery.base_delay == core.recovery.base_delay,
        times.len() < core.half_open_max_requests ==> {
            &&& after_successes(core, times).state == CircuitState::HalfOpen
            &&& after_successes(core, times).half_open_success_count == times.len()
        },
        times.len() > 0 && times.len() == core.half_open_max_requests ==> {
            &&& after_successes(core, times).state == CircuitState::Closed
            &&& after_successes(core, times).failure_count == 0
            &&& after_successes(core, times).recovery.current_delay == core.recovery.base_delay
        },
    decreases times.len(),
{
    if times.len() > 0 {
        trial_successes_close(core, times.drop_last());
    }
}

/// A breaker on trial lets every request pass, as long as it needs a success at
/// all.
pub proof fn breaker_on_trial_admits(core: BreakerCore, now: u64)
    requires
        core.wf(),
        core.state == CircuitState::HalfOpen,
        core.half_open_max_requests > 0,
    ensures
        core.admits(now),
        core.after_request(now).state == CircuitState::HalfOpen,
        core.after_request(now).half_open_success_count == core.half_open_success_count,
{
}

/// The breaker after requests that each were followed by a success, the `i`-th
/// of them at `times[i]`.
pub open spec fn after_trials(core: BreakerCore, times: Seq<u64>) -> BreakerCore
    decreases times.len(),
{
    if times.len() == 0 {
        core
    } else {
        after_trials(core, times.drop_last()).after_request(times.last()).after_success(
            times.last(),
        )
    }
}

/// An open breaker whose delay is over recovers: asked for as many requests as
/// it needs successes, each followed by a success, it lets every one of them
/// pass and is closed after the last, but not before. Then it lets everything
/// pass and starts over with the base delay.
pub proof fn open_breaker_recovers(core: BreakerCore, failed_at: u64, times: Seq<u64>)
    requires
        core.wf(),
        core.state == CircuitState::Open,
        core.last_failure == Some(failed_at),
        0 < times.len() <= core.half_open_max_requests,
        failed_at + core.recovery.current_delay <= times[0],
    ensures
        forall|i: int|
            0 <= i < times.len() ==> #[trigger] after_trials(core, times.take(i)).admits(times[i]),
        times.len() < core.half_open_max_requests ==> after_trials(core, times).state
            == CircuitState::HalfOpen,
        times.len() == core.half_open_max_requests ==> {
            let end = after_trials(core, times);
            &&& end.state == CircuitState::Closed
            &&& end.failure_count == 0
            &&& end.recovery.current_delay == core.recovery.base_delay
            &&& forall|now: u64| #[trigger] end.admits(now)
        },
    decreases times.len(),
{
    trials_succeed(core, failed_at, times);
    assert forall|i: int| 0 <= i < times.len() implies #[trigger] after_trials(
        core,
        times.take(i),
    ).admits(times[i]) by {
        if i == 0 {
            assert(after_trials(core, times.take(0)) == core);
        } else {
            assert(times.take(i)[0] == times[0]);
            trials_succeed(core, failed_at, times.take(i));
        }
    }
}

proof fn trials_succeed(core: BreakerCore, failed_at: u64, times: Seq<u64>)
    requires
        core.wf(),
        core.state == CircuitState::Open,
        core.last_failure == Some(failed_at),
        0 < times.len() <= core.half_open_max_requests,
        failed_at + core.recovery.current_delay <= times[0],
    ensures
        ({
            let end = after_trials(core, times);
            &&& end.half_open_max_requests == core.half_open_max_requests
            &&& end.recovery.base_delay == core.recovery.base_delay
            &&& times.len() < core.half_open_max_requests ==> {
                &&& end.state == CircuitState::HalfOpen
                &&& end.half_open_success_count == times.len()
            }
            &&& times.len() == core.half_open_max_requests ==> {
                &&& end.state == CircuitState::Closed
                &&& end.failure_count == 0
                &&& end.recovery.current_delay == core.recovery.base_delay
            }
        }),
    decreases times.len(),
{
    let shorter = times.drop_last();
    if shorter.len() == 0 {
        assert(after_trials(core, shorter) == core);
        assert(times.last() == times[0]);
    } else {
        assert(shorter[0] == times[0]);
        trials_succeed(core, failed_at, shorter);
    }
}

/// A success of a closed breaker starts its count of failures anew: it takes
/// the whole threshold to open it after that, and no fewer.
pub proof fn success_starts_the_count_anew(core: BreakerCore, now: u64, times: Seq<u64>)
    requires
        core.wf(),
        core.state == CircuitState::Closed,
        0 < times.len() <= core.failure_threshold,
    ensures
        core.after_success(now).state == CircuitState::Closed,
        times.len() < core.failure_threshold ==> after_failures(
            core.after_success(now),
            times,
        ).state == CircuitState::Closed,
        times.len() == core.failure_threshold ==> after_failures(
            core.after_success(now),
            times,
        ).state == CircuitState::Open,
{
    threshold_failures_open(core.after_success(now), times);
}

/// The first opening waits for the base delay. Each trial that fails doubles
/// the delay, up to sixteen times the base, and the breaker then waits so long
/// from that failure on.
pub proof fn failed_trials_double_the_delay(core: BreakerCore, now: u64, later: u64)
    requires
        core.wf(),
        core.counters_fit(),
        core.state == CircuitState::HalfOpen,
        core.recovery.recovery_attempts > 0,
        now <= later,
    ensures
        ({
            let after = core.after_failure(now);
            let doubled = 2 * core.recovery.current_delay;
            let most = 16 * core.recovery.base_delay;
            &&& after.state == CircuitState::Open
            &&& after.recovery.current_delay == if doubled <= most {
                doubled
            } else {
                most
            }
            &&& after.recovery.base_delay == core.recovery.base_delay
            &&& after.admits(later) <==> later - now >= after.recovery.current_delay
        }),
{
    let r = core.recovery;
    let n = r.recovery_attempts as nat;
    delays_grow(r.base_delay as nat, r.max_delay as nat, 2, (n - 1) as nat, n);
}

/// A closed breaker that has not failed a trial opens with the base delay.
pub proof fn first_opening_waits_for_the_base_delay(core: BreakerCore, now: u64, later: u64)
    requires
        core.wf(),
        core.counters_fit(),
        core.state == CircuitState::Closed,
        core.recovery.recovery_attempts == 0,
        core.failure_count + 1 >= core.failure_threshold,
        now <= later,
    ensures
        core.after_failure(now).state == CircuitState::Open,
        core.after_failure(now).recovery.current_delay == core.recovery.base_delay,
        core.after_failure(now).admits(later) <==> later - now >= core.recovery.base_delay,
{
}

/// Every request, success and failure is counted once, and so is every change
/// of state; a refused request changes nothing else.
pub proof fn events_are_counted(core: BreakerCore, now: u64)
    requires
        core.wf(),
        core.counters_fit(),
    ensures
        ({
            let asked = core.after_request(now);
            let ok = core.after_success(now);
            let failed = core.after_failure(now);
            &&& asked.total_requests == core.total_requests + 1
            &&& asked.success_count == core.success_count
            &&& asked.failure_count == core.failure_count
            &&& asked.half_open_count - core.half_open_count == if core.state == CircuitState::Open
                && core.admits(now) {
                1int
            } else {
                0
            }
            &&& !core.admits(now) ==> asked == (BreakerCore {
                total_requests: asked.total_requests,
                ..core
            })
            &&& ok.success_count == core.success_count + 1
            &&& ok.total_requests == core.total_requests
            &&& ok.last_success == Some(now)
            &&& ok.closed_count - core.closed_count == if core.state != CircuitState::Closed
                && ok.state == CircuitState::Closed {
                1int
            } else {
                0
            }
            &&& failed.failure_count == core.failure_count + 1
            &&& failed.success_count == core.success_count
            &&& failed.total_requests == core.total_requests
            &&& failed.last_failure == Some(now)
            &&& failed.opened_count - core.opened_count == if core.state == CircuitState::Closed
                && failed.state == CircuitState::Open {
                1int
            } else {
                0
            }
            &&& core.state == CircuitState::Open ==> ok.state == CircuitState::Open && failed.state
                == CircuitState::Open
        }),
{
}

/// A failure on trial opens the breaker again at once, whatever the threshold.
pub proof fn trial_failure_reopens(core: BreakerCore, now: u64)
    requires
        core.wf(),
        core.state == CircuitState::HalfOpen,
    ensures
        core.after_failure(now).state == CircuitState::Open,
        core.after_failure(now).opened_count == core.opened_count,
{
}

/// A reset breaker lets requests pass, whatever came before.
pub proof fn reset_breaker_admits(core: BreakerCore, reset_at: u64, now: u64)
    ensures
        core.after_reset(reset_at).admits(now),
{
}

/// The recovery delay lies between the base delay and sixteen times the base
/// delay.
pub proof fn recovery_delay_is_bounded(core: BreakerCore)
    requires
        core.wf(),
    ensures
        core.recovery.base_delay <= core.recovery.current_delay <= core.recovery.base_delay
            * MAX_DELAY_FACTOR,
{
    let r = core.recovery;
    if r.recovery_attempts > 0 {
        let n = (r.recovery_attempts - 1) as nat;
        delays_grow(
            r.base_delay as nat,
            r.max_delay as nat,
            r.backoff_factor as nat,
            0,
            n,
        );
    }
}

/// Breakers by name, all made alike.
pub struct CircuitBreakerManager {
    /// Position of each name in `breakers`.
    index: NamedMap,
    breakers: Vec<CircuitBreaker>,
    failure_threshold: usize,
    recovery_timeout: u64,
    half_open_max_requests: usize,
}

impl CircuitBreakerManager {
    /// The breakers, in the order of their creation.
    pub closed spec fn all(self) -> Seq<CircuitBreaker> {
        self.breakers@
    }

    /// The position of a name, where it has a breaker.
    pub closed spec fn position(self, name: Seq<char>) -> Option<int> {
        if named_entries(self.index).contains_key(name) {
            Some(named_entries(self.index)[name] as int)
        } else {
            None
        }
    }

    /// The settings new breakers get: threshold, recovery time, trial requests.
    pub closed spec fn settings(self) -> (usize, u64, usize) {
        (self.failure_threshold, self.recovery_timeout, self.half_open_max_requests)
    }

    /// Every name leads to the one breaker of that name, and every breaker is
    /// well formed.
    pub closed spec fn wf(self) -> bool {
        &&& self.recovery_timeout * MAX_DELAY_FACTOR <= u64::MAX
        &&& forall|i: int|
            0 <= i < self.breakers@.len() ==> {
                &&& (#[trigger] self.breakers@[i]).wf()
                &&& named_entries(self.index).contains_key(self.breakers@[i].name@)
                &&& named_entries(self.index)[self.breakers@[i].name@] == i
            }
        &&& forall|name: Seq<char>| #[trigger]
            named_entries(self.index).contains_key(name) ==> {
                &&& named_entries(self.index)[name] < self.breakers@.len()
                &&& self.breakers@[named_entries(self.index)[name] as int].name@ == name
            }
    }

    /// No breakers yet.
    pub fn new(
        failure_threshold: usize,
        recovery_timeout: u64,
        half_open_max_requests: usize,
    ) -> (m: Self)
        requires
            recovery_timeout * MAX_DELAY_FACTOR <= u64::MAX,
        ensures
            m.wf(),
            m.all() == Seq::<CircuitBreaker>::empty(),
            m.settings() == (failure_threshold, recovery_timeout, half_open_max_requests),
            forall|name: Seq<char>| #[trigger] m.position(name) is None,
    {
        CircuitBreakerManager {
            index: named_new(),
            breakers: Vec::new(),
            failure_threshold,
            recovery_timeout,
            half_open_max_requests,
        }
    }

    /// The position of the breaker with the given name; a closed one is
    /// created where there is none.
    pub fn get_or_create(&mut self, name: &str, now: u64) -> (i: usize)
        requires
            old(self).wf(),
        ensures
            final(self).wf(),
            final(self).settings() == old(self).settings(),
            i < final(self).all().len(),
            final(self).position(name@) == Some(i as int),
            final(self).all()[i as int].name@ == name@,
            old(self).position(name@) is Some ==> final(self).all() == old(self).all()
                && old(self).position(name@) == Some(i as int),
            old(self).position(name@) is None ==> {
                &&& i == old(self).all().len()
                &&& final(self).all().len() == i + 1
                &&& final(self).all().take(i as int) == old(self).all()
                &&& final(self).all()[i as int].core == fresh_core(
                    old(self).settings().0,
                    old(self).settings().1,
                    old(self).settings().2,
                    now,
                )
                &&& final(self).all()[i as int].failure_history@.len() == 0
            },
            forall|other: Seq<char>|
                other != name@ ==> #[trigger] final(self).position(other) == old(self).position(
                    other,
                ),
    {
        let i: usize = self.breakers.len();
        match named_get(&self.index, name) {
            Some(found) => found as usize,
            None => {
                let breaker: CircuitBreaker = CircuitBreaker::new(
                    String::from_str(name),
                    self.failure_threshold,
                    self.recovery_timeout,
                    self.half_open_max_requests,
                    now,
                );
                self.breakers.push(breaker);
                named_insert(&mut self.index, String::from_str(name), i as u64);
                proof {
                    assert(self.breakers@.take(i as int) =~= old(self).breakers@);
                    assert forall|j: int| 0 <= j < self.breakers@.len() implies {
                        &&& (#[trigger] self.breakers@[j]).wf()
                        &&& named_entries(self.index).contains_key(self.breakers@[j].name@)
                        &&& named_entries(self.index)[self.breakers@[j].name@] == j
                    } by {
                        if j < i {
                            assert(self.breakers@[j] == old(self).breakers@[j]);
                        }
                    }
                }
                i
            },
        }
    }

    /// The position of the breaker with the given name, if there is one.
    pub fn get_breaker(&self, name: &str) -> (r: Option<usize>)
        requires
            self.wf(),
        ensures
            r is Some <==> self.position(name@) is Some,
            r matches Some(i) ==> i < self.all().len() && self.position(name@) == Some(i as int)
                && self.all()[i as int].name@ == name@,
    {
        assert(self.breakers@.len() == self.breakers.len());
        match named_get(&self.index, name) {
            Some(i) => Some(i as usize),
            None => None,
        }
    }

    /// The breaker at a position.
    pub fn breaker(&self, i: usize) -> (b: &CircuitBreaker)
        requires
            i < self.all().len(),
        ensures
            *b == self.all()[i as int],
    {
        &self.breakers[i]
    }

    /// Asks the breaker at a position for a request.
    pub fn allow_request(&mut self, i: usize, now: u64) -> (allowed: bool)
        requires
            old(self).wf(),
            i < old(self).all().len(),
            old(self).all()[i as int].core.counters_fit(),
        ensures
            final(self).wf(),
            allowed == old(self).all()[i as int].core.admits(now),
            final(self).replaces_core(
                *old(self),
                i as int,
                old(self).all()[i as int].core.after_request(now),
            ),
    {
        let ghost before = *self;
        let allowed: bool = self.breakers[i].allow_request(now);
        proof {
            self.lemma_replaced(before, i as int);
        }
        allowed
    }

    /// Takes note of a success of the component at a position.
    pub fn record_success(&mut self, i: usize, now: u64)
        requires
            old(self).wf(),
            i < old(self).all().len(),
            old(self).all()[i as int].core.counters_fit(),
        ensures
            final(self).wf(),
            final(self).replaces_core(
                *old(self),
                i as int,
                old(self).all()[i as int].core.after_success(now),
            ),
    {
        let ghost before = *self;
        self.breakers[i].record_success(now);
        proof {
            self.lemma_replaced(before, i as int);
        }
    }

    /// Takes note of a failure of the component at a position.
    pub fn record_failure(&mut self, i: usize, now: u64)
        requires
            old(self).wf(),
            i < old(self).all().len(),
            old(self).all()[i as int].core.counters_fit(),
        ensures
            final(self).wf(),
            final(self).replaces_core(
                *old(self),
                i as int,
                old(self).all()[i as int].core.after_failure(now),
            ),
    {
        let ghost before = *self;
        self.breakers[i].record_failure(now);
        proof {
            self.lemma_replaced(before, i as int);
        }
    }

    /// Resets the breaker at a position.
    pub fn reset(&mut self, i: usize, now: u64)
        requires
            old(self).wf(),
            i < old(self).all().len(),
            old(self).all()[i as int].core.closed_count < u64::MAX,
        ensures
            final(self).wf(),
            final(self).replaces_core(
                *old(self),
                i as int,
                old(self).all()[i as int].core.after_reset(now),
            ),
    {
        let ghost before = *self;
        self.breakers[i].reset(now);
        proof {
            self.lemma_replaced(before, i as int);
        }
    }

    /// This manager is `before` with the breaker at `i` moved on to `core`.
    pub open spec fn replaces_core(self, before: Self, i: int, core: BreakerCore) -> bool {
        &&& self.settings() == before.settings()
        &&& self.all().len() == before.all().len()
        &&& self.all()[i].core == core
        &&& self.all()[i].name == before.all()[i].name
        &&& forall|j: int|
            0 <= j < self.all().len() && j != i ==> #[trigger] self.all()[j] == before.all()[j]
        &&& forall|name: Seq<char>| #[trigger] self.position(name) == before.position(name)
    }

    proof fn lemma_replaced(self, before: Self, i: int)
        requires
            before.wf(),
            0 <= i < before.breakers@.len(),
            self.breakers@ == before.breakers@.update(i, self.breakers@[i]),
            self.breakers@.len() == before.breakers@.len(),
            self.breakers@[i].wf(),
            self.breakers@[i].name == before.breakers@[i].name,
            self.index == before.index,
            self.settings() == before.settings(),
        ensures
            self.wf(),
            self.replaces_core(before, i, self.breakers@[i].core),
    {
        assert forall|j: int| 0 <= j < self.breakers@.len() implies {
            &&& (#[trigger] self.breakers@[j]).wf()
            &&& named_entries(self.index).contains_key(self.breakers@[j].name@)
            &&& named_entries(self.index)[self.breakers@[j].name@] == j
        } by {
            if j != i {
                assert(self.breakers@[j] == before.breakers@[j]);
            } else {
                assert(before.breakers@[i].wf());
            }
        }
        assert forall|name: Seq<char>| #[trigger]
            named_entries(self.index).contains_key(name) implies {
            &&& named_entries(self.index)[name] < self.breakers@.len()
            &&& self.breakers@[named_entries(self.index)[name] as int].name@ == name
        } by {
            let j = named_entries(self.index)[name] as int;
            if j != i {
                assert(self.breakers@[j] == before.breakers@[j]);
            }
        }
    }

    /// The statistics of all breakers, in the order of their creation.
    pub fn get_all_stats(&self, now: u64) -> (stats: Vec<CircuitBreakerStats>)
        ensures
            stats@.len() == self.all().len(),
            forall|i: int|
                0 <= i < stats@.len() ==> (#[trigger] stats@[i]).describes(self.all()[i], now),
    {
        let mut stats: Vec<CircuitBreakerStats> = Vec::new();
        let mut i: usize = 0;
        while i < self.breakers.len()
            invariant
                i <= self.breakers@.len(),
                stats@.len() == i,
                forall|j: int|
                    0 <= j < i ==> (#[trigger] stats@[j]).describes(self.breakers@[j], now),
            decreases self.breakers@.len() - i,
        {
            stats.push(self.breakers[i].get_stats(now));
            i += 1;
        }
        stats
    }
}

impl CircuitBreakerManager {
    /// The state of the breaker with the given name, if there is one.
    pub open spec fn core_of(self, name: Seq<char>) -> Option<BreakerCore> {
        match self.position(name) {
            Some(i) => Some(self.all()[i].core),
            None => None,
        }
    }

    /// The state of the breaker with the given name, or of the one that would
    /// be created.
    pub open spec fn core_for(self, name: Seq<char>, now: u64) -> BreakerCore {
        match self.core_of(name) {
            Some(core) => core,
            None => fresh_core(self.settings().0, self.settings().1, self.settings().2, now),
        }
    }

    /// Whether this is what is left of `before` after one breaker came into
    /// the given state.
    pub open spec fn after_change(self, before: Self, name: Seq<char>, core: BreakerCore) -> bool {
        &&& self.settings() == before.settings()
        &&& self.core_of(name) == Some(core)
        &&& forall|other: Seq<char>|
            other != name ==> #[trigger] self.core_of(other) == before.core_of(other)
    }

    proof fn lemma_positions(self)
        requires
            self.wf(),
        ensures
            forall|name: Seq<char>|
                self.position(name) matches Some(i) ==> 0 <= i < self.all().len()
                    && #[trigger] self.position(name) is Some && self.all()[i].name@ == name,
    {
    }

    /// Asks the breaker with the given name for a request; a closed one is
    /// created where there is none.
    pub fn request(&mut self, name: &str, now: u64) -> (allowed: bool)
        requires
            old(self).wf(),
            old(self).core_for(name@, now).counters_fit(),
        ensures
            final(self).wf(),
            allowed == old(self).core_for(name@, now).admits(now),
            final(self).after_change(
                *old(self),
                name@,
                old(self).core_for(name@, now).after_request(now),
            ),
    {
        let ghost first = *self;
        let i: usize = self.get_or_create(name, now);
        let ghost before = *self;
        proof {
            first.lemma_positions();
            before.lemma_positions();
            before.lemma_created(first, name@, i as int);
        }
        let allowed: bool = self.allow_request(i, now);
        proof {
            self.lemma_positions();
        }
        allowed
    }

    proof fn lemma_created(self, before: Self, name: Seq<char>, i: int)
        requires
            self.wf(),
            before.wf(),
            self.position(name) == Some(i),
            before.position(name) is Some ==> self.all() == before.all(),
            before.position(name) is None ==> self.all().len() == before.all().len() + 1
                && self.all().take(before.all().len() as int) == before.all(),
            forall|other: Seq<char>|
                other != name ==> #[trigger] self.position(other) == before.position(other),
        ensures
            forall|other: Seq<char>|
                other != name ==> #[trigger] self.core_of(other) == before.core_of(other),
    {
        before.lemma_positions();
        assert forall|other: Seq<char>| other != name implies #[trigger] self.core_of(other)
            == before.core_of(other) by {
            assert(self.position(other) == before.position(other));
            if before.position(name) is None && before.position(other) is Some {
                let j = before.position(other)->0;
                assert(self.all().take(before.all().len() as int)[j] == self.all()[j]);
            }
        }
    }

    /// A change of the breaker at the position of a name is a change of the
    /// breaker of that name.
    pub proof fn replaced_is_changed(self, before: Self, i: int, name: Seq<char>)
        requires
            before.wf(),
            before.position(name) == Some(i),
            self.replaces_core(before, i, self.all()[i].core),
        ensures
            self.after_change(before, name, self.all()[i].core),
    {
        before.lemma_positions();
        assert forall|other: Seq<char>| other != name implies #[trigger] self.core_of(other)
            == before.core_of(other) by {
            assert(self.position(other) == before.position(other));
        }
    }

    /// Tells the breaker with the given name of a success; a closed one is
    /// created where there is none.
    pub fn succeeded(&mut self, name: &str, now: u64)
        requires
            old(self).wf(),
            old(self).core_for(name@, now).counters_fit(),
        ensures
            final(self).wf(),
            final(self).after_change(
                *old(self),
                name@,
                old(self).core_for(name@, now).after_success(now),
            ),
    {
        let ghost first = *self;
        let i: usize = self.get_or_create(name, now);
        let ghost before = *self;
        proof {
            first.lemma_positions();
            before.lemma_positions();
            before.lemma_created(first, name@, i as int);
        }
        self.record_success(i, now);
        proof {
            self.lemma_positions();
        }
    }

    /// Tells the breaker with the given name of a failure; a closed one is
    /// created where there is none.
    pub fn failed(&mut self, name: &str, now: u64)
        requires
            old(self).wf(),
            old(self).core_for(name@, now).counters_fit(),
        ensures
            final(self).wf(),
            final(self).after_change(
                *old(self),
                name@,
                old(self).core_for(name@, now).after_failure(now),
            ),
    {
        let ghost first = *self;
        let i: usize = self.get_or_create(name, now);
        let ghost before = *self;
        proof {
            first.lemma_positions();
            before.lemma_positions();
            before.lemma_created(first, name@, i as int);
        }
        self.record_failure(i, now);
        proof {
            self.lemma_positions();
        }
    }
}

impl CircuitBreakerManager {
    /// The breaker with the given name, to be changed; a closed one is created
    /// where there is none. Its name must stay, and it must stay well formed.
    pub fn breaker_mut(&mut self, name: &str, now: u64) -> (b: &mut CircuitBreaker)
        requires
            old(self).wf(),
        ensures
            b.wf(),
            b.core == old(self).core_for(name@, now),
            final(b).wf() && final(b).name == b.name ==> {
                &&& final(self).wf()
                &&& final(self).after_change(*old(self), name@, final(b).core)
            },
    {
        let ghost first = *self;
        let i: usize = self.get_or_create(name, now);
        let ghost before = *self;
        proof {
            first.lemma_positions();
            before.lemma_positions();
            before.lemma_created(first, name@, i as int);
        }
        proof {
            assert forall|after: Self|
                #![trigger after.breakers@]
                after.breakers@ == before.breakers@.update(i as int, after.breakers@[i as int])
                    && after.index == before.index && after.settings() == before.settings()
                    && after.breakers@[i as int].wf() && after.breakers@[i as int].name
                    == before.breakers@[i as int].name implies after.wf() && after.after_change(
                first,
                name@,
                after.breakers@[i as int].core,
            ) by {
                after.lemma_replaced(before, i as int);
                after.lemma_positions();
            }
        }
        &mut self.breakers[i]
    }
}

} // verus!
