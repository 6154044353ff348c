//! Quality of service: who may start work, and how the shares of the three
//! priority groups adapt.
//!
//! Points in time and durations are nanoseconds. Bucket contents are counted
//! in units of which a million million make one token, so that all bucket
//! arithmetic is exact.

use std::collections::VecDeque;
use vstd::prelude::*;
use vstd::std_specs::vecdeque::*;

use crate::bounds::minus;
use crate::history::{remember, remembered};
use crate::measure::Measure;
use crate::ratio::Ratio;
use crate::types::priority::{PRIORITY_LEVELS, Priority};

verus! {

/// One token.
pub const TOKEN: u128 = 1_000_000_000_000;

/// How many wait times are remembered.
pub const WAIT_HISTORY: usize = 1000;

/// How many adaptations are remembered.
pub const ADAPTATION_HISTORY: usize = 100;

/// Fewer requests than this are no basis for an adaptation.
pub const MIN_SAMPLES: u64 = 100;

/// What the time between two updates adds up to.
pub open spec fn flow(rate: u64, now: u64, last: u64) -> nat {
    (minus(now as int, last as int) * rate) as nat
}

fn flow_since(rate: u64, now: u64, last: u64) -> (n: u128)
    ensures
        n == flow(rate, now, last),
{
    let elapsed: u64 = now.saturating_sub(last);
    proof {
        assert(0 <= elapsed * rate <= 0xffff_ffff_ffff_ffff * 0xffff_ffff_ffff_ffff)
            by (nonlinear_arith)
            requires
                0 <= elapsed <= 0xffff_ffff_ffff_ffff,
                0 <= rate <= 0xffff_ffff_ffff_ffff,
        ;
    }
    (elapsed as u128) * (rate as u128)
}

/// A token bucket: tokens come in at a steady rate and are taken out by
/// requests.
#[derive(Debug, Clone, Copy)]
pub struct TokenBucket {
    /// Units that come in each nanosecond.
    pub rate: u64,
    pub capacity: u128,
    pub tokens: u128,
    pub last_update: u64,
}

impl TokenBucket {
    /// The bucket holds no more than its capacity.
    pub open spec fn wf(self) -> bool {
        self.tokens <= self.capacity
    }

    /// A full bucket.
    pub fn new(rate: u64, capacity: u128, now: u64) -> (b: Self)
        ensures
            b == (TokenBucket { rate, capacity, tokens: capacity, last_update: now }),
            b.wf(),
    {
        TokenBucket { rate, capacity, tokens: capacity, last_update: now }
    }

    /// The bucket at a later time.
    pub open spec fn updated(self, now: u64) -> TokenBucket {
        let n = self.tokens + flow(self.rate, now, self.last_update);
        TokenBucket {
            tokens: if n <= self.capacity {
                n as u128
            } else {
                self.capacity
            },
            last_update: now,
            ..self
        }
    }

    /// Whether a request at a given time gets its tokens.
    pub open spec fn grants(self, cost: u128, now: u64) -> bool {
        self.updated(now).tokens >= cost
    }

    /// The bucket after a request at a given time.
    pub open spec fn after_request(self, cost: u128, now: u64) -> TokenBucket {
        let u = self.updated(now);
        if u.tokens >= cost {
            TokenBucket { tokens: (u.tokens - cost) as u128, ..u }
        } else {
            u
        }
    }

    /// Brings the bucket up to date.
    pub fn update(&mut self, now: u64)
        requires
            old(self).wf(),
        ensures
            final(self).wf(),
            *final(self) == old(self).updated(now),
    {
        let gain: u128 = flow_since(self.rate, now, self.last_update);
        if gain >= self.capacity - self.tokens {
            self.tokens = self.capacity;
        } else {
            self.tokens = self.tokens + gain;
        }
        self.last_update = now;
    }

    /// Takes tokens out, if there are enough.
    pub fn try_consume(&mut self, cost: u128, now: u64) -> (ok: bool)
        requires
            old(self).wf(),
        ensures
            final(self).wf(),
            ok == old(self).grants(cost, now),
            *final(self) == old(self).after_request(cost, now),
    {
        self.update(now);
        if self.tokens >= cost {
            self.tokens = self.tokens - cost;
            true
        } else {
            false
        }
    }
}

/// A leaky bucket: requests fill it, and it drains at a steady rate.
#[derive(Debug, Clone, Copy)]
pub struct LeakyBucket {
    /// Units that drain each nanosecond.
    pub rate: u64,
    pub capacity: u128,
    pub level: u128,
    pub last_update: u64,
}

impl LeakyBucket {
    /// The bucket holds no more than its capacity.
    pub open spec fn wf(self) -> bool {
        self.level <= self.capacity
    }

    /// An empty bucket.
    pub fn new(rate: u64, capacity: u128, now: u64) -> (b: Self)
        ensures
            b == (LeakyBucket { rate, capacity, level: 0, last_update: now }),
            b.wf(),
    {
        LeakyBucket { rate, capacity, level: 0, last_update: now }
    }

    /// The bucket at a later time.
    pub open spec fn updated(self, now: u64) -> LeakyBucket {
        LeakyBucket {
            level: minus(
                self.level as int,
                flow(self.rate, now, self.last_update) as int,
            ) as u128,
            last_update: now,
            ..self
        }
    }

    /// Whether there is room for more at a given time.
    pub open spec fn takes(self, amount: u128, now: u64) -> bool {
        self.updated(now).level + amount <= self.capacity
    }

    /// The bucket after a request at a given time.
    pub open spec fn after_request(self, amount: u128, now: u64) -> LeakyBucket {
        let u = self.updated(now);
        if u.level + amount <= self.capacity {
            LeakyBucket { level: (u.level + amount) as u128, ..u }
        } else {
            u
        }
    }

    /// Brings the bucket up to date.
    pub fn update(&mut self, now: u64)
        requires
            old(self).wf(),
        ensures
            final(self).wf(),
            *final(self) == old(self).updated(now),
    {
        let loss: u128 = flow_since(self.rate, now, self.last_update);
        if loss >= self.level {
            self.level = 0;
        } else {
            self.level = self.level - loss;
        }
        self.last_update = now;
    }

    /// Fills in more, if there is room.
    pub fn try_add(&mut self, amount: u128, now: u64) -> (ok: bool)
        requires
            old(self).wf(),
        ensures
            final(self).wf(),
            ok == old(self).takes(amount, now),
            *final(self) == old(self).after_request(amount, now),
    {
        self.update(now);
        if amount <= self.capacity - self.level {
            self.level = self.level + amount;
            true
        } else {
            false
        }
    }
}

/// Why a request for quality of service was refused.
#[derive(Debug, Clone, Copy, PartialEq, Eq, Structural)]
pub enum QosError {
    Timeout,
    SemaphoreClosed,
    InsufficientData,
    NoAdaptationNeeded,
    RateLimitExceeded,
    LeakyBucketFull,
}

impl QosError {
    /// The text of the error.
    pub fn message(&self) -> (s: &'static str)
        ensures
            s@ == match *self {
                QosError::Timeout => "Timeout waiting for QoS permit"@,
                QosError::SemaphoreClosed => "Semaphore closed"@,
                QosError::InsufficientData => "Insufficient data for adaptation"@,
                QosError::NoAdaptationNeeded => "No adaptation needed"@,
                QosError::RateLimitExceeded => "Rate limit exceeded"@,
                QosError::LeakyBucketFull => "Leaky bucket full"@,
            },
    {
        match self {
            QosError::Timeout => "Timeout waiting for QoS permit",
            QosError::SemaphoreClosed => "Semaphore closed",
            QosError::InsufficientData => "Insufficient data for adaptation",
            QosError::NoAdaptationNeeded => "No adaptation needed",
            QosError::RateLimitExceeded => "Rate limit exceeded",
            QosError::LeakyBucketFull => "Leaky bucket full",
        }
    }
}

/// The three groups that priorities are served in.
#[derive(Debug, Clone, Copy, PartialEq, Eq, Structural)]
pub enum QosGroup {
    High,
    Normal,
    Low,
}

/// The group of a priority.
pub open spec fn group_of(p: Priority) -> QosGroup {
    match p {
        Priority::Critical => QosGroup::High,
        Priority::High => QosGroup::High,
        Priority::Normal => QosGroup::Normal,
        Priority::Low => QosGroup::Low,
        Priority::Background => QosGroup::Low,
    }
}

/// The tokens a request of a priority costs.
pub open spec fn cost_of(p: Priority) -> u128 {
    match group_of(p) {
        QosGroup::High => TOKEN,
        QosGroup::Normal => 500_000_000_000,
        QosGroup::Low => 250_000_000_000,
    }
}

/// The group of a priority.
pub fn priority_group(priority: Priority) -> (g: QosGroup)
    ensures
        g == group_of(priority),
        g is High <==> priority is Critical || priority is High,
        g is Normal <==> priority is Normal,
        g is Low <==> priority is Low || priority is Background,
{
    match priority {
        Priority::Critical | Priority::High => QosGroup::High,
        Priority::Normal => QosGroup::Normal,
        Priority::Low | Priority::Background => QosGroup::Low,
    }
}

/// The tokens a request of a priority costs.
pub fn token_cost(priority: Priority) -> (c: u128)
    ensures
        c == cost_of(priority),
{
    match priority {
        Priority::Critical | Priority::High => TOKEN,
        Priority::Normal => 500_000_000_000,
        Priority::Low | Priority::Background => 250_000_000_000,
    }
}

/// The name of a priority's group.
pub fn priority_to_str(priority: Priority) -> (s: &'static str)
    ensures
        s@ == match group_of(priority) {
            QosGroup::High => "high"@,
            QosGroup::Normal => "normal"@,
            QosGroup::Low => "low"@,
        },
{
    match priority {
        Priority::Critical | Priority::High => "high",
        Priority::Normal => "normal",
        Priority::Low | Priority::Background => "low",
    }
}

/// The class of a priority, most urgent first.
pub fn priority_to_class(priority: Priority) -> (n: usize)
    ensures
        n == priority.rank(),
        n < PRIORITY_LEVELS,
{
    match priority {
        Priority::Critical => 0,
        Priority::High => 1,
        Priority::Normal => 2,
        Priority::Low => 3,
        Priority::Background => 4,
    }
}

/// How long a request waits for a permit of its group, in milliseconds.
pub fn permit_timeout_ms(priority: Priority) -> (ms: u64)
    ensures
        ms == match group_of(priority) {
            QosGroup::High => 50int,
            QosGroup::Normal => 100int,
            QosGroup::Low => 200int,
        },
        priority is Critical || priority is High ==> ms == 50,
        priority is Normal ==> ms == 100,
        priority is Low || priority is Background ==> ms == 200,
{
    match priority {
        Priority::Critical | Priority::High => 50,
        Priority::Normal => 100,
        Priority::Low | Priority::Background => 200,
    }
}

/// Requests of one group.
#[derive(Debug, Clone, Copy)]
pub struct GroupStats {
    pub requests: u64,
    pub rejected: u64,
    /// The share of requests rejected, as of the last rejection.
    pub loss: Ratio,
}

impl GroupStats {
    /// One more request, rejected or not.
    pub open spec fn after(self, was_rejected: bool) -> GroupStats {
        let requests = (self.requests + 1) as u64;
        let rejected = (self.rejected + 1) as u64;
        if was_rejected {
            GroupStats { requests, rejected, loss: Ratio { part: rejected, whole: requests } }
        } else {
            GroupStats { requests, ..self }
        }
    }

    fn note(&mut self, was_rejected: bool)
        requires
            old(self).requests < u64::MAX,
            old(self).rejected < u64::MAX,
        ensures
            *final(self) == old(self).after(was_rejected),
    {
        self.requests = self.requests + 1;
        if was_rejected {
            self.rejected = self.rejected + 1;
            self.loss = Ratio::new(self.rejected, self.requests);
        }
    }
}

/// Requests of all groups.
#[derive(Debug, Clone, Copy)]
pub struct QosStatistics {
    pub high: GroupStats,
    pub normal: GroupStats,
    pub low: GroupStats,
    pub adaptation_count: u64,
}

impl QosStatistics {
    /// The counters of a group.
    pub open spec fn group(self, g: QosGroup) -> GroupStats {
        match g {
            QosGroup::High => self.high,
            QosGroup::Normal => self.normal,
            QosGroup::Low => self.low,
        }
    }

    /// One more request of a group.
    pub open spec fn after(self, g: QosGroup, was_rejected: bool) -> QosStatistics {
        match g {
            QosGroup::High => QosStatistics { high: self.high.after(was_rejected), ..self },
            QosGroup::Normal => QosStatistics { normal: self.normal.after(was_rejected), ..self },
            QosGroup::Low => QosStatistics { low: self.low.after(was_rejected), ..self },
        }
    }

    /// The counters have room for two more requests of a group.
    pub open spec fn room(self, g: QosGroup) -> bool {
        &&& self.group(g).requests + 2 <= u64::MAX
        &&& self.group(g).rejected + 2 <= u64::MAX
    }

    /// All requests.
    pub open spec fn total(self) -> nat {
        (self.high.requests + self.normal.requests + self.low.requests) as nat
    }
}

impl QosStatistics {
    /// Nothing counted.
    pub open spec fn none() -> QosStatistics {
        let group = GroupStats { requests: 0, rejected: 0, loss: Ratio::zero() };
        QosStatistics { high: group, normal: group, low: group, adaptation_count: 0 }
    }
}

impl Default for QosStatistics {
    fn default() -> (s: Self)
        ensures
            s == Self::none(),
    {
        let none: GroupStats = GroupStats { requests: 0, rejected: 0, loss: Ratio::new(0, 0) };
        QosStatistics { high: none, normal: none, low: none, adaptation_count: 0 }
    }
}

/// The number of permits of each group.
#[derive(Debug, Clone, Copy, PartialEq, Eq, Structural)]
pub struct Capacities {
    pub high: usize,
    pub normal: usize,
    pub low: usize,
}

/// What the shares of a whole are measured by: a thousand, or the sum of the
/// shares where that is off by more than ten.
pub open spec fn quota_base(sum: int) -> int {
    if sum > 1010 || sum < 990 {
        sum
    } else {
        1000
    }
}

/// A share of a number of permits, rounded up.
pub open spec fn permits_of(total: int, quota: int, base: int) -> int {
    if base == 0 {
        0
    } else {
        (total * quota + base - 1) / base
    }
}

impl Capacities {
    /// The permits of each group for quotas in thousandths.
    pub open spec fn of(high: u64, normal: u64, low: u64, total: usize) -> (int, int, int) {
        let base = quota_base(high + normal + low);
        (
            permits_of(total as int, high as int, base),
            permits_of(total as int, normal as int, base),
            permits_of(total as int, low as int, base),
        )
    }

    /// Whether each group's permits can be counted.
    pub open spec fn can_count(high: u64, normal: u64, low: u64, total: usize) -> bool {
        let c = Self::of(high, normal, low, total);
        c.0 <= usize::MAX && c.1 <= usize::MAX && c.2 <= usize::MAX
    }

    /// The permits of each group for quotas in thousandths. Quotas that do not
    /// add up to the whole are scaled.
    pub fn from_quotas(high: u64, normal: u64, low: u64, total: usize) -> (c: Self)
        requires
            Self::can_count(high, normal, low, total),
        ensures
            (c.high as int, c.normal as int, c.low as int) == Self::of(high, normal, low, total),
            ({
                let sum = high + normal + low;
                let base = if 990 <= sum <= 1010 {
                    1000
                } else {
                    sum
                };
                base > 0 ==> {
                    &&& (c.high - 1) * base < total * high <= c.high * base
                    &&& (c.normal - 1) * base < total * normal <= c.normal * base
                    &&& (c.low - 1) * base < total * low <= c.low * base
                }
            }),
    {
        proof {
            let base = quota_base(high + normal + low);
            permits_are_rounded_up(total as int, high as int, base);
            permits_are_rounded_up(total as int, normal as int, base);
            permits_are_rounded_up(total as int, low as int, base);
        }
        let sum: u128 = high as u128 + normal as u128 + low as u128;
        let base: u128 = if sum > 1010 || sum < 990 {
            sum
        } else {
            1000
        };
        Capacities {
            high: share(total, high, base),
            normal: share(total, normal, base),
            low: share(total, low, base),
        }
    }
}

/// No group gets more permits than there are, but for what quotas that add up
/// to a little more than the whole give it.
pub proof fn groups_share_the_permits(high: u64, normal: u64, low: u64, total: usize)
    ensures
        ({
            let c = Capacities::of(high, normal, low, total);
            let most = if quota_base(high + normal + low) == 1000 {
                (total * 1010 + 999) / 1000
            } else {
                total as int
            };
            0 <= c.0 <= most && 0 <= c.1 <= most && 0 <= c.2 <= most
        }),
{
    let base = quota_base(high + normal + low);
    permits_are_bounded(total as int, high as int, base);
    permits_are_bounded(total as int, normal as int, base);
    permits_are_bounded(total as int, low as int, base);
}

proof fn permits_are_bounded(total: int, quota: int, base: int)
    requires
        total >= 0,
        quota >= 0,
        base >= 0,
        quota <= base || (base == 1000 && quota <= 1010),
    ensures
        0 <= permits_of(total, quota, base),
        quota <= base ==> permits_of(total, quota, base) <= total,
        base == 1000 ==> permits_of(total, quota, base) <= (total * 1010 + 999) / 1000,
{
    if base > 0 {
        assert(0 <= (total * quota + base - 1) / base) by (nonlinear_arith)
            requires
                total >= 0,
                quota >= 0,
                base > 0,
        ;
        if quota <= base {
            assert((total * quota + base - 1) / base <= total) by (nonlinear_arith)
                requires
                    total >= 0,
                    0 <= quota <= base,
                    base > 0,
            ;
        }
        if base == 1000 {
            assert(total * quota <= total * 1010) by (nonlinear_arith)
                requires
                    total >= 0,
                    quota <= 1010,
            ;
        }
    }
}

fn share(total: usize, quota: u64, base: u128) -> (n: usize)
    requires
        permits_of(total as int, quota as int, base as int) <= usize::MAX,
    ensures
        n == permits_of(total as int, quota as int, base as int),
{
    if base == 0 {
        return 0;
    }
    proof {
        let (t, q, b) = (total as int, quota as int, base as int);
        assert(0 <= t * q <= 0xffff_ffff_ffff_ffff * 0xffff_ffff_ffff_ffff) by (nonlinear_arith)
            requires
                0 <= t <= 0xffff_ffff_ffff_ffff,
                0 <= q <= 0xffff_ffff_ffff_ffff,
        ;
        let (d, r) = ((t * q) / b, (t * q) % b);
        vstd::arithmetic::div_mod::lemma_fundamental_div_mod(t * q, b);
        vstd::arithmetic::div_mod::lemma_mod_bound(t * q, b);
        assert((d + 1) * b == b * d + b) by (nonlinear_arith);
        assert(d * b == b * d) by (nonlinear_arith);
        if r > 0 {
            vstd::arithmetic::div_mod::lemma_fundamental_div_mod_converse(
                t * q + b - 1,
                b,
                d + 1,
                r - 1,
            );
        } else {
            vstd::arithmetic::div_mod::lemma_fundamental_div_mod_converse(
                t * q + b - 1,
                b,
                d,
                b - 1,
            );
        }
    }
    let product: u128 = total as u128 * quota as u128;
    if product % base > 0 {
        (product / base + 1) as usize
    } else {
        (product / base) as usize
    }
}

/// How the wait for a permit ended.
#[derive(Debug, Clone, Copy, PartialEq, Eq, Structural)]
pub enum PermitWait {
    /// A permit came after so many milliseconds.
    Granted { wait_ms: u64 },
    Closed,
    TimedOut,
}

/// How quotas change.
#[derive(Debug, Clone, Copy, PartialEq, Eq, Structural)]
pub enum AdaptationRule {
    /// Too many urgent requests rejected: take from the low group.
    HighFromLow,
    /// Too many urgent requests rejected: take from the normal group.
    HighFromNormal,
    /// Too many normal requests rejected: take from the low group.
    NormalFromLow,
    /// The low group starves: take from the high group.
    LowFromHigh,
    /// Urgent requests wait too long: give up some of their share.
    ReduceHigh,
    /// Normal requests wait too long: give up some of their share.
    ReduceNormal,
}

/// Where quotas and mean waits stand. Quotas are shares of the whole, waits
/// milliseconds, both in thousandths.
#[derive(Debug, Clone, Copy)]
pub struct QuotaLevels {
    pub high: Measure,
    pub normal: Measure,
    pub low: Measure,
    /// The low quota is below one and a half times its base.
    pub low_below_base_and_half: bool,
    pub high_wait: Measure,
    pub normal_wait: Measure,
}

/// The rule that applies, if any: rejections first, most urgent group first,
/// then waits.
pub open spec fn rule_for(s: QosStatistics, l: QuotaLevels) -> Option<AdaptationRule> {
    let rejected = |g: GroupStats| Ratio { part: g.rejected, whole: g.requests };
    if rejected(s.high).is_above(5, 100) {
        if l.low.is_above(100) {
            Some(AdaptationRule::HighFromLow)
        } else if l.normal.is_above(300) {
            Some(AdaptationRule::HighFromNormal)
        } else {
            None
        }
    } else if rejected(s.normal).is_above(10, 100) {
        if l.low.is_above(150) {
            Some(AdaptationRule::NormalFromLow)
        } else {
            None
        }
    } else if rejected(s.low).is_above(20, 100) && l.low_below_base_and_half {
        if l.high.is_above(300) {
            Some(AdaptationRule::LowFromHigh)
        } else {
            None
        }
    } else if l.high_wait.is_above(100_000) && l.high.is_above(300) {
        Some(AdaptationRule::ReduceHigh)
    } else if l.normal_wait.is_above(200_000) && l.normal.is_above(300) {
        Some(AdaptationRule::ReduceNormal)
    } else {
        None
    }
}

/// The manager.
#[derive(Debug)]
pub struct QosManager {
    pub total_capacity: usize,
    pub high_tokens: TokenBucket,
    pub normal_tokens: TokenBucket,
    pub low_tokens: TokenBucket,
    pub high_leaky: LeakyBucket,
    pub normal_leaky: LeakyBucket,
    pub low_leaky: LeakyBucket,
    pub statistics: QosStatistics,
    pub wait_time_history: VecDeque<[u64; 5]>,
    pub adaptation_history: VecDeque<(u64, AdaptationRule)>,
    pub last_adaptation: u64,
}

/// A full token bucket for a number of tokens, refilled in a thousand seconds.
fn bucket_of(tokens: u64, now: u64) -> (b: TokenBucket)
    ensures
        b == token_bucket(tokens, now),
        b.wf(),
{
    TokenBucket::new(tokens, (tokens as u128) * TOKEN, now)
}

/// A full token bucket for a number of tokens, refilled in a thousand seconds.
pub open spec fn token_bucket(tokens: u64, now: u64) -> TokenBucket {
    TokenBucket {
        rate: tokens,
        capacity: (tokens * TOKEN) as u128,
        tokens: (tokens * TOKEN) as u128,
        last_update: now,
    }
}

/// An empty leaky bucket for a number of tokens, drained at `rate`.
pub open spec fn leaky_bucket(tokens: u64, rate: u64, now: u64) -> LeakyBucket {
    LeakyBucket { rate, capacity: (tokens * TOKEN) as u128, level: 0, last_update: now }
}

fn leaky_of(tokens: u64, rate: u64, now: u64) -> (b: LeakyBucket)
    ensures
        b == leaky_bucket(tokens, rate, now),
        b.wf(),
{
    LeakyBucket::new(rate, (tokens as u128) * TOKEN, now)
}

impl QosManager {
    /// What holds of every manager.
    pub open spec fn wf(self) -> bool {
        &&& self.high_tokens.wf()
        &&& self.normal_tokens.wf()
        &&& self.low_tokens.wf()
        &&& self.high_leaky.wf()
        &&& self.normal_leaky.wf()
        &&& self.low_leaky.wf()
        &&& self.wait_time_history@.len() <= WAIT_HISTORY
        &&& self.adaptation_history@.len() <= ADAPTATION_HISTORY
    }

    /// The token bucket of a group.
    pub open spec fn tokens(self, g: QosGroup) -> TokenBucket {
        match g {
            QosGroup::High => self.high_tokens,
            QosGroup::Normal => self.normal_tokens,
            QosGroup::Low => self.low_tokens,
        }
    }

    /// The leaky bucket of a group.
    pub open spec fn leaky(self, g: QosGroup) -> LeakyBucket {
        match g {
            QosGroup::High => self.high_leaky,
            QosGroup::Normal => self.normal_leaky,
            QosGroup::Low => self.low_leaky,
        }
    }

    /// Whether this is a manager as it is made: full token buckets, empty leaky
    /// ones, and nothing counted.
    pub open spec fn is_new(self, capacities: Capacities, total_capacity: usize, now: u64) -> bool {
        &&& self.total_capacity == total_capacity
        &&& self.high_tokens == token_bucket((capacities.high * 10) as u64, now)
        &&& self.normal_tokens == token_bucket((capacities.normal * 10) as u64, now)
        &&& self.low_tokens == token_bucket((capacities.low * 10) as u64, now)
        &&& self.high_leaky == leaky_bucket(
            (capacities.high * 10) as u64,
            (capacities.high * 100) as u64,
            now,
        )
        &&& self.normal_leaky == leaky_bucket(
            (capacities.normal * 10) as u64,
            (capacities.normal * 100) as u64,
            now,
        )
        &&& self.low_leaky == leaky_bucket(
            (capacities.low * 10) as u64,
            (capacities.low * 100) as u64,
            now,
        )
        &&& self.statistics == QosStatistics::none()
        &&& self.wait_time_history@.len() == 0
        &&& self.adaptation_history@.len() == 0
        &&& self.last_adaptation == now
    }

    /// A manager for the given numbers of permits. The buckets hold ten times
    /// as many tokens; the leaky ones drain in a hundred seconds.
    pub fn new(capacities: Capacities, total_capacity: usize, now: u64) -> (m: Self)
        requires
            capacities.high * 100 <= u64::MAX,
            capacities.normal * 100 <= u64::MAX,
            capacities.low * 100 <= u64::MAX,
        ensures
            m.wf(),
            m.is_new(capacities, total_capacity, now),
            ({
                let one = TOKEN as int;
                &&& m.high_tokens.rate == 10 * capacities.high && m.high_tokens.capacity == 10
                    * capacities.high * one && m.high_tokens.tokens == m.high_tokens.capacity
                &&& m.normal_tokens.rate == 10 * capacities.normal && m.normal_tokens.capacity == 10
                    * capacities.normal * one && m.normal_tokens.tokens == m.normal_tokens.capacity
                &&& m.low_tokens.rate == 10 * capacities.low && m.low_tokens.capacity == 10
                    * capacities.low * one && m.low_tokens.tokens == m.low_tokens.capacity
                &&& m.high_leaky.rate == 100 * capacities.high && m.high_leaky.capacity == 10
                    * capacities.high * one && m.high_leaky.level == 0
                &&& m.normal_leaky.rate == 100 * capacities.normal && m.normal_leaky.capacity == 10
                    * capacities.normal * one && m.normal_leaky.level == 0
                &&& m.low_leaky.rate == 100 * capacities.low && m.low_leaky.capacity == 10
                    * capacities.low * one && m.low_leaky.level == 0
            }),
    {
        let high: u64 = capacities.high as u64 * 10;
        let normal: u64 = capacities.normal as u64 * 10;
        let low: u64 = capacities.low as u64 * 10;
        QosManager {
            total_capacity,
            high_tokens: bucket_of(high, now),
            normal_tokens: bucket_of(normal, now),
            low_tokens: bucket_of(low, now),
            high_leaky: leaky_of(high, high * 10, now),
            normal_leaky: leaky_of(normal, normal * 10, now),
            low_leaky: leaky_of(low, low * 10, now),
            statistics: QosStatistics::default(),
            wait_time_history: VecDeque::new(),
            adaptation_history: VecDeque::new(),
            last_adaptation: now,
        }
    }

    /// Whether a request passes the buckets. Critical requests pass always,
    /// high ones need tokens, all others need tokens and room to flow off.
    pub open spec fn admission(self, p: Priority, now: u64) -> Result<(), QosError> {
        let g = group_of(p);
        if p == Priority::Critical {
            Ok(())
        } else if !self.tokens(g).grants(cost_of(p), now) {
            Err(QosError::RateLimitExceeded)
        } else if p != Priority::High && !self.leaky(g).takes(TOKEN, now) {
            Err(QosError::LeakyBucketFull)
        } else {
            Ok(())
        }
    }

    /// Whether `after` is this manager once a request went through the
    /// buckets. A refused request is counted twice, once as refused.
    pub open spec fn admitted(self, after: Self, p: Priority, now: u64) -> bool {
        let g = group_of(p);
        let once = self.statistics.after(g, false);
        &&& after.statistics == if self.admission(p, now) is Ok {
            once
        } else {
            once.after(g, true)
        }
        &&& forall|h: QosGroup| #[trigger]
            after.tokens(h) == if h == g && p != Priority::Critical {
                self.tokens(h).after_request(cost_of(p), now)
            } else {
                self.tokens(h)
            }
        &&& forall|h: QosGroup| #[trigger]
            after.leaky(h) == if h == g && p != Priority::Critical && p != Priority::High
                && self.tokens(h).grants(cost_of(p), now) {
                self.leaky(h).after_request(TOKEN, now)
            } else {
                self.leaky(h)
            }
        &&& after.total_capacity == self.total_capacity
        &&& after.wait_time_history == self.wait_time_history
        &&& after.adaptation_history == self.adaptation_history
        &&& after.last_adaptation == self.last_adaptation
    }

    /// Counts a request and puts it through the buckets of its group.
    pub fn acquire_permit(&mut self, priority: Priority, now: u64) -> (r: Result<(), QosError>)
        requires
            old(self).wf(),
            old(self).statistics.room(group_of(priority)),
        ensures
            final(self).wf(),
            r == old(self).admission(priority, now),
            old(self).admitted(*final(self), priority, now),
            ({
                let (was, later) = (old(self).statistics, final(self).statistics);
                let refused = r is Err;
                let high = priority is Critical || priority is High;
                let normal = priority is Normal;
                &&& later.high.requests - was.high.requests == if !high {
                    0int
                } else if refused {
                    2
                } else {
                    1
                }
                &&& later.normal.requests - was.normal.requests == if !normal {
                    0int
                } else if refused {
                    2
                } else {
                    1
                }
                &&& later.low.requests - was.low.requests == if high || normal {
                    0int
                } else if refused {
                    2
                } else {
                    1
                }
                &&& later.high.rejected - was.high.rejected == if high && refused {
                    1int
                } else {
                    0
                }
                &&& later.normal.rejected - was.normal.rejected == if normal && refused {
                    1int
                } else {
                    0
                }
                &&& later.low.rejected - was.low.rejected == if !high && !normal && refused {
                    1int
                } else {
                    0
                }
            }),
            priority is Critical ==> r is Ok,
    {
        self.update_statistics(priority, false);
        if priority == Priority::Critical {
            return Ok(());
        }
        let cost: u128 = token_cost(priority);
        let enough: bool = match priority {
            Priority::Critical | Priority::High => self.high_tokens.try_consume(cost, now),
            Priority::Normal => self.normal_tokens.try_consume(cost, now),
            Priority::Low | Priority::Background => self.low_tokens.try_consume(cost, now),
        };
        if !enough {
            self.update_statistics(priority, true);
            return Err(QosError::RateLimitExceeded);
        }
        if priority == Priority::High {
            return Ok(());
        }
        let room: bool = match priority {
            Priority::Critical | Priority::High => self.high_leaky.try_add(TOKEN, now),
            Priority::Normal => self.normal_leaky.try_add(TOKEN, now),
            Priority::Low | Priority::Background => self.low_leaky.try_add(TOKEN, now),
        };
        if !room {
            self.update_statistics(priority, true);
            return Err(QosError::LeakyBucketFull);
        }
        Ok(())
    }

    /// Counts one more request of a priority.
    pub fn update_statistics(&mut self, priority: Priority, rejected: bool)
        requires
            old(self).wf(),
            old(self).statistics.group(group_of(priority)).requests < u64::MAX,
            old(self).statistics.group(group_of(priority)).rejected < u64::MAX,
        ensures
            final(self).wf(),
            final(self).statistics == old(self).statistics.after(group_of(priority), rejected),
            final(self).high_tokens == old(self).high_tokens,
            final(self).normal_tokens == old(self).normal_tokens,
            final(self).low_tokens == old(self).low_tokens,
            final(self).high_leaky == old(self).high_leaky,
            final(self).normal_leaky == old(self).normal_leaky,
            final(self).low_leaky == old(self).low_leaky,
            final(self).total_capacity == old(self).total_capacity,
            final(self).wait_time_history == old(self).wait_time_history,
            final(self).adaptation_history == old(self).adaptation_history,
            final(self).last_adaptation == old(self).last_adaptation,
            ({
                let (was, later) = (old(self).statistics, final(self).statistics);
                let refused = if rejected {
                    1int
                } else {
                    0
                };
                &&& priority is Critical || priority is High
                    ==> later.high.requests == was.high.requests + 1
                    && later.high.rejected == was.high.rejected + refused
                        && later.normal == was.normal && later.low
                    == was.low
                &&& priority is Normal ==> later.normal.requests == was.normal.requests + 1
                    && later.normal.rejected == was.normal.rejected + refused
                        && later.high == was.high && later.low
                    == was.low
                &&& priority is Low || priority is Background
                    ==> later.low.requests == was.low.requests + 1
                    && later.low.rejected == was.low.rejected + refused && later.high == was.high
                        && later.normal
                    == was.normal
            }),
    {
        match priority {
            Priority::Critical | Priority::High => self.statistics.high.note(rejected),
            Priority::Normal => self.statistics.normal.note(rejected),
            Priority::Low | Priority::Background => self.statistics.low.note(rejected),
        }
    }

    /// Takes note of how the wait for a permit ended, and says what the
    /// request gets.
    pub fn conclude(&mut self, priority: Priority, wait: PermitWait) -> (r: Result<(), QosError>)
        requires
            old(self).wf(),
            old(self).statistics.room(group_of(priority)),
        ensures
            final(self).wf(),
            r == match wait {
                PermitWait::Granted { .. } => Ok::<(), QosError>(()),
                PermitWait::Closed => Err(QosError::SemaphoreClosed),
                PermitWait::TimedOut => Err(QosError::Timeout),
            },
            final(self).statistics == match wait {
                PermitWait::Granted { .. } => old(self).statistics,
                _ => old(self).statistics.after(group_of(priority), true),
            },
            match wait {
                PermitWait::Granted { wait_ms } => exists|row: [u64; 5]|
                    #![trigger remembered(old(self).wait_time_history@, row, WAIT_HISTORY as nat)]
                    {
                        &&& final(self).wait_time_history@ == remembered(
                            old(self).wait_time_history@,
                            row,
                            WAIT_HISTORY as nat,
                        )
                        &&& forall|i: int|
                            0 <= i < 5 ==> (#[trigger] row@[i]) == if i == priority.rank() {
                                wait_ms
                            } else {
                                0
                            }
                    },
                _ => final(self).wait_time_history == old(self).wait_time_history,
            },
            final(self).high_tokens == old(self).high_tokens,
            final(self).normal_tokens == old(self).normal_tokens,
            final(self).low_tokens == old(self).low_tokens,
            final(self).high_leaky == old(self).high_leaky,
            final(self).normal_leaky == old(self).normal_leaky,
            final(self).low_leaky == old(self).low_leaky,
            final(self).total_capacity == old(self).total_capacity,
            final(self).adaptation_history == old(self).adaptation_history,
            final(self).last_adaptation == old(self).last_adaptation,
    {
        match wait {
            PermitWait::Granted { wait_ms } => {
                let mut row: [u64; 5] = [0, 0, 0, 0, 0];
                row[priority_to_class(priority)] = wait_ms;
                remember(&mut self.wait_time_history, row, WAIT_HISTORY);
                Ok(())
            },
            PermitWait::Closed => {
                self.update_statistics(priority, true);
                Err(QosError::SemaphoreClosed)
            },
            PermitWait::TimedOut => {
                self.update_statistics(priority, true);
                Err(QosError::Timeout)
            },
        }
    }

    /// Which rule adapts the quotas: none without enough requests, and none
    /// where nothing needs to change.
    pub fn adapt_quotas(&self, levels: QuotaLevels) -> (r: Result<AdaptationRule, QosError>)
        requires
            self.statistics.total() <= u64::MAX,
        ensures
            r == if self.statistics.total() < MIN_SAMPLES {
                Err::<AdaptationRule, QosError>(QosError::InsufficientData)
            } else {
                match rule_for(self.statistics, levels) {
                    Some(rule) => Ok(rule),
                    None => Err(QosError::NoAdaptationNeeded),
                }
            },
            ({
                let s = self.statistics;
                let l = levels;
                let high = s.high.requests > 0 && 20 * s.high.rejected > s.high.requests;
                let normal = s.normal.requests > 0 && 10 * s.normal.rejected > s.normal.requests;
                let low = s.low.requests > 0 && 5 * s.low.rejected > s.low.requests
                    && l.low_below_base_and_half;
                let enough = s.high.requests + s.normal.requests + s.low.requests >= 100;
                &&& r == Err::<AdaptationRule, QosError>(QosError::InsufficientData) <==> !enough
                &&& r == Ok::<AdaptationRule, QosError>(AdaptationRule::HighFromLow) <==> enough
                    && high
                    && l.low.at_most > 100
                &&& r == Ok::<AdaptationRule, QosError>(AdaptationRule::HighFromNormal) <==> enough
                    && high && l.low.at_most <= 100 && l.normal.at_most > 300
                &&& r == Ok::<AdaptationRule, QosError>(AdaptationRule::NormalFromLow) <==> enough
                    && !high && normal && l.low.at_most > 150
                &&& r == Ok::<AdaptationRule, QosError>(AdaptationRule::LowFromHigh) <==> enough
                    && !high
                    && !normal && low && l.high.at_most > 300
                &&& r == Ok::<AdaptationRule, QosError>(AdaptationRule::ReduceHigh) <==> enough
                    && !high
                    && !normal && !low && l.high_wait.at_most > 100_000 && l.high.at_most > 300
                &&& r == Ok::<AdaptationRule, QosError>(AdaptationRule::ReduceNormal) <==> enough
                    && !high
                    && !normal && !low && !(l.high_wait.at_most > 100_000 && l.high.at_most > 300)
                    && l.normal_wait.at_most > 200_000 && l.normal.at_most > 300
            }),
    {
        let s: QosStatistics = self.statistics;
        let total: u64 = s.high.requests + s.normal.requests + s.low.requests;
        if total < MIN_SAMPLES {
            return Err(QosError::InsufficientData);
        }
        let high: Ratio = Ratio::new(s.high.rejected, s.high.requests);
        let normal: Ratio = Ratio::new(s.normal.rejected, s.normal.requests);
        let low: Ratio = Ratio::new(s.low.rejected, s.low.requests);
        if high.above(5, 100) {
            if levels.low.above(100) {
                return Ok(AdaptationRule::HighFromLow);
            } else if levels.normal.above(300) {
                return Ok(AdaptationRule::HighFromNormal);
            }
        } else if normal.above(10, 100) {
            if levels.low.above(150) {
                return Ok(AdaptationRule::NormalFromLow);
            }
        } else if low.above(20, 100) && levels.low_below_base_and_half {
            if levels.high.above(300) {
                return Ok(AdaptationRule::LowFromHigh);
            }
        } else if levels.high_wait.above(100_000) && levels.high.above(300) {
            return Ok(AdaptationRule::ReduceHigh);
        } else if levels.normal_wait.above(200_000) && levels.normal.above(300) {
            return Ok(AdaptationRule::ReduceNormal);
        }
        Err(QosError::NoAdaptationNeeded)
    }

    /// Puts new capacities in force: fresh buckets, and permits to add where
    /// fewer are available than the capacity says. Permits are never taken
    /// away.
    pub fn apply_adaptation(
        &mut self,
        rule: AdaptationRule,
        capacities: Capacities,
        available: Capacities,
        now: u64,
    ) -> (added: Capacities)
        requires
            old(self).wf(),
            old(self).statistics.adaptation_count < u64::MAX,
        ensures
            final(self).wf(),
            added.high == minus(capacities.high as int, available.high as int),
            added.normal == minus(capacities.normal as int, available.normal as int),
            added.low == minus(capacities.low as int, available.low as int),
            final(self).high_tokens == token_bucket(capacities.high as u64, now),
            final(self).normal_tokens == token_bucket(capacities.normal as u64, now),
            final(self).low_tokens == token_bucket(capacities.low as u64, now),
            final(self).high_leaky == leaky_bucket(
                capacities.high as u64,
                capacities.high as u64,
                now,
            ),
            final(self).normal_leaky == leaky_bucket(
                capacities.normal as u64,
                capacities.normal as u64,
                now,
            ),
            final(self).low_leaky == leaky_bucket(
                capacities.low as u64,
                capacities.low as u64,
                now,
            ),
            final(self).statistics == (QosStatistics {
                adaptation_count: (old(self).statistics.adaptation_count + 1) as u64,
                ..old(self).statistics
            }),
            final(self).last_adaptation == now,
            final(self).total_capacity == old(self).total_capacity,
            final(self).wait_time_history == old(self).wait_time_history,
            final(self).adaptation_history@ == remembered(
                old(self).adaptation_history@,
                (now, rule),
                ADAPTATION_HISTORY as nat,
            ),
    {
        self.high_tokens = bucket_of(capacities.high as u64, now);
        self.normal_tokens = bucket_of(capacities.normal as u64, now);
        self.low_tokens = bucket_of(capacities.low as u64, now);
        self.high_leaky = leaky_of(capacities.high as u64, capacities.high as u64, now);
        self.normal_leaky = leaky_of(capacities.normal as u64, capacities.normal as u64, now);
        self.low_leaky = leaky_of(capacities.low as u64, capacities.low as u64, now);
        self.statistics.adaptation_count = self.statistics.adaptation_count + 1;
        self.last_adaptation = now;
        remember(&mut self.adaptation_history, (now, rule), ADAPTATION_HISTORY);
        Capacities {
            high: capacities.high.saturating_sub(available.high),
            normal: capacities.normal.saturating_sub(available.normal),
            low: capacities.low.saturating_sub(available.low),
        }
    }

    /// The counters.
    pub fn get_statistics(&self) -> (s: QosStatistics)
        ensures
            s == self.statistics,
    {
        self.statistics
    }
}

/// What a token bucket gives out to a series of requests, each a time and a
/// cost.
pub open spec fn given_out(bucket: TokenBucket, requests: Seq<(u64, u128)>) -> nat
    decreases requests.len(),
{
    if requests.len() == 0 {
        0
    } else {
        let before = after_requests(bucket, requests.drop_last());
        let (now, cost) = requests.last();
        given_out(bucket, requests.drop_last()) + if before.grants(cost, now) {
            cost as nat
        } else {
            0
        }
    }
}

/// A token bucket after a series of requests.
pub open spec fn after_requests(bucket: TokenBucket, requests: Seq<(u64, u128)>) -> TokenBucket
    decreases requests.len(),
{
    if requests.len() == 0 {
        bucket
    } else {
        let (now, cost) = requests.last();
        after_requests(bucket, requests.drop_last()).after_request(cost, now)
    }
}

/// Whether the times of requests never go back.
pub open spec fn in_order(start: u64, requests: Seq<(u64, u128)>) -> bool {
    &&& forall|i: int| 0 <= i < requests.len() ==> start <= (#[trigger] requests[i]).0
    &&& forall|i: int, j: int|
        0 <= i <= j < requests.len() ==> (#[trigger] requests[i]).0 <= (#[trigger] requests[j]).0
}

/// A token bucket limits the rate: what it gives out to any series of requests
/// is no more than what it held at the start and what came in since.
pub proof fn bucket_limits_rate(bucket: TokenBucket, requests: Seq<(u64, u128)>)
    requires
        bucket.wf(),
        in_order(bucket.last_update, requests),
    ensures
        ({
            let end = after_requests(bucket, requests);
            &&& end.wf()
            &&& end.rate == bucket.rate
            &&& end.capacity == bucket.capacity
            &&& end.last_update >= bucket.last_update
            &&& requests.len() > 0 ==> end.last_update == requests.last().0
            &&& given_out(bucket, requests) + end.tokens <= bucket.tokens + (end.last_update
                - bucket.last_update) * bucket.rate
        }),
    decreases requests.len(),
{
    if requests.len() > 0 {
        let shorter = requests.drop_last();
        let (now, cost) = requests.last();
        assert(in_order(bucket.last_update, shorter)) by {
            assert forall|i: int| 0 <= i < shorter.len() implies bucket.last_update <= (
            #[trigger] shorter[i]).0 by {
                assert(shorter[i] == requests[i]);
            }
            assert forall|i: int, j: int| 0 <= i <= j < shorter.len() implies (
            #[trigger] shorter[i]).0 <= (#[trigger] shorter[j]).0 by {
                assert(shorter[i] == requests[i] && shorter[j] == requests[j]);
            }
        }
        bucket_limits_rate(bucket, shorter);
        let mid = after_requests(bucket, shorter);
        assert(bucket.last_update <= requests[requests.len() - 1].0);
        if shorter.len() > 0 {
            assert(requests[shorter.len() - 1].0 <= requests[requests.len() - 1].0);
            assert(shorter.last() == requests[shorter.len() - 1]);
        }
        assert(mid.last_update <= now);
        let a = mid.last_update - bucket.last_update;
        let b = now - mid.last_update;
        let rate = bucket.rate;
        assert(a * rate + b * rate == (a + b) * rate) by (nonlinear_arith);
        assert(flow(mid.rate, now, mid.last_update) == b * rate);
    } else {
        assert(0 * bucket.rate == 0) by (nonlinear_arith);
    }
}

/// What a token bucket holds at a time: what it held, and what came in since,
/// but never more than its capacity.
pub proof fn tokens_come_in_steadily(b: TokenBucket, now: u64)
    requires
        b.wf(),
    ensures
        b.updated(now).last_update == now,
        b.updated(now).rate == b.rate,
        b.updated(now).capacity == b.capacity,
        b.updated(now).tokens <= b.capacity,
        b.last_update <= now && b.tokens + (now - b.last_update) * b.rate <= b.capacity
            ==> b.updated(now).tokens == b.tokens + (now - b.last_update) * b.rate,
        b.last_update <= now && b.tokens + (now - b.last_update) * b.rate > b.capacity
            ==> b.updated(
            now,
        ).tokens == b.capacity,
        now < b.last_update ==> b.updated(now).tokens == b.tokens,
{
    assert(0 * b.rate == 0) by (nonlinear_arith);
    assert(b.last_update <= now ==> (now - b.last_update) * b.rate >= 0) by (nonlinear_arith)
        requires
            b.rate >= 0,
    ;
}

/// What a leaky bucket holds at a time: what it held, without what drained
/// since, and never less than nothing.
pub proof fn leaky_buckets_drain_steadily(b: LeakyBucket, now: u64)
    requires
        b.wf(),
    ensures
        b.updated(now).last_update == now,
        b.updated(now).rate == b.rate,
        b.updated(now).capacity == b.capacity,
        b.last_update <= now && b.level >= (now - b.last_update) * b.rate ==> b.updated(now).level
            == b.level - (now - b.last_update) * b.rate,
        b.last_update <= now && b.level < (now - b.last_update) * b.rate ==> b.updated(now).level
            == 0,
        now < b.last_update ==> b.updated(now).level == b.level,
{
    assert(0 * b.rate == 0) by (nonlinear_arith);
    assert(b.last_update <= now ==> (now - b.last_update) * b.rate >= 0) by (nonlinear_arith)
        requires
            b.rate >= 0,
    ;
}

/// Critical and high requests share the high group, low and background ones the
/// low group. A request of the high group costs a token, a normal one half a
/// token, one of the low group a quarter.
pub proof fn groups_and_costs(p: Priority)
    ensures
        group_of(p) == QosGroup::High <==> p == Priority::Critical || p == Priority::High,
        group_of(p) == QosGroup::Normal <==> p == Priority::Normal,
        group_of(p) == QosGroup::Low <==> p == Priority::Low || p == Priority::Background,
        p == Priority::Critical || p == Priority::High ==> cost_of(p) == TOKEN,
        p == Priority::Normal ==> 2 * cost_of(p) == TOKEN,
        p == Priority::Low || p == Priority::Background ==> 4 * cost_of(p) == TOKEN,
{
}

/// A granted request has paid: a high one a token of the high bucket; a normal
/// one half a token of the normal bucket, and one token more stands in the
/// normal leaky bucket; a low or background one a quarter of a token of the low
/// bucket, and one token more stands in the low leaky bucket. The buckets are
/// those of the time of the request.
pub proof fn granted_requests_have_paid(
    before: QosManager,
    after: QosManager,
    p: Priority,
    now: u64,
)
    requires
        before.wf(),
        before.admitted(after, p, now),
        before.admission(p, now) is Ok,
    ensures
        p == Priority::High ==> after.high_tokens.tokens + TOKEN == before.high_tokens.updated(
            now,
        ).tokens,
        p == Priority::Normal ==> 2 * after.normal_tokens.tokens + TOKEN == 2
            * before.normal_tokens.updated(now).tokens,
        p == Priority::Normal ==> after.normal_leaky.level == before.normal_leaky.updated(now).level
            + TOKEN && after.normal_leaky.level <= after.normal_leaky.capacity,
        p == Priority::Low || p == Priority::Background ==> 4 * after.low_tokens.tokens + TOKEN == 4
            * before.low_tokens.updated(now).tokens,
        p == Priority::Low || p == Priority::Background ==> after.low_leaky.level
            == before.low_leaky.updated(now).level + TOKEN && after.low_leaky.level
            <= after.low_leaky.capacity,
{
    assert(after.tokens(QosGroup::High) == after.high_tokens);
    assert(after.tokens(QosGroup::Normal) == after.normal_tokens);
    assert(after.tokens(QosGroup::Low) == after.low_tokens);
    assert(after.leaky(QosGroup::Normal) == after.normal_leaky);
    assert(after.leaky(QosGroup::Low) == after.low_leaky);
}

/// Only what cannot be paid is refused: for want of tokens, or, with enough of
/// them, because a token more would not fit the leaky bucket of the group. A
/// critical request is never refused, and a high one never for the latter.
pub proof fn refused_requests_cannot_pay(before: QosManager, p: Priority, now: u64)
    requires
        before.wf(),
    ensures
        p == Priority::Critical ==> before.admission(p, now) is Ok,
        p == Priority::High ==> before.admission(p, now) == if before.high_tokens.updated(
            now,
        ).tokens < TOKEN {
            Err(QosError::RateLimitExceeded)
        } else {
            Ok::<(), QosError>(())
        },
        p == Priority::Normal ==> before.admission(p, now) == if 2 * before.normal_tokens.updated(
            now,
        ).tokens < TOKEN {
            Err(QosError::RateLimitExceeded)
        } else if before.normal_leaky.updated(now).level + TOKEN > before.normal_leaky.capacity {
            Err(QosError::LeakyBucketFull)
        } else {
            Ok::<(), QosError>(())
        },
        p == Priority::Low || p == Priority::Background ==> before.admission(p, now) == if 4
            * before.low_tokens.updated(now).tokens < TOKEN {
            Err(QosError::RateLimitExceeded)
        } else if before.low_leaky.updated(now).level + TOKEN > before.low_leaky.capacity {
            Err(QosError::LeakyBucketFull)
        } else {
            Ok::<(), QosError>(())
        },
{
}

/// How many of the requests of a series were granted to some priorities. Before
/// request `i` the manager is `states[i]`.
pub open spec fn granted(
    states: Seq<QosManager>,
    requests: Seq<(Priority, u64)>,
    whose: Set<Priority>,
) -> nat
    decreases requests.len(),
{
    if requests.len() == 0 {
        0
    } else {
        let n = requests.len() - 1;
        let (p, now) = requests.last();
        granted(states, requests.drop_last(), whose) + if whose.contains(p)
            && states[n].admission(p, now) is Ok {
            1nat
        } else {
            0
        }
    }
}

/// Whether a manager went through a series of requests, none of them earlier
/// than the one before or than the buckets of the manager.
pub open spec fn served(states: Seq<QosManager>, requests: Seq<(Priority, u64)>) -> bool {
    &&& states.len() == requests.len() + 1
    &&& states[0].wf()
    &&& forall|i: int|
        0 <= i < requests.len() ==> (#[trigger] states[i]).admitted(
            states[i + 1],
            requests[i].0,
            requests[i].1,
        )
    &&& forall|i: int, j: int|
        0 <= i <= j < requests.len() ==> (#[trigger] requests[i]).1 <= (#[trigger] requests[j]).1
    &&& requests.len() > 0 ==> {
        &&& states[0].normal_tokens.last_update <= requests[0].1
        &&& states[0].normal_leaky.last_update <= requests[0].1
        &&& states[0].low_tokens.last_update <= requests[0].1
        &&& states[0].low_leaky.last_update <= requests[0].1
        &&& states[0].high_tokens.last_update <= requests[0].1
    }
}

/// Of any series of requests no more normal ones are granted than tokens fit
/// the normal leaky bucket and drain from it meanwhile, and no more low and
/// background ones than fit the low leaky bucket and drain from it. Nor are more
/// granted than the token buckets of the groups pay for: a token each for high
/// requests, half a token for normal ones, a quarter for low and background
/// ones.
#[verifier::spinoff_prover]
#[verifier::rlimit(60)]
pub proof fn buckets_limit_requests(states: Seq<QosManager>, requests: Seq<(Priority, u64)>)
    requires
        served(states, requests),
        requests.len() > 0,
    ensures
        ({
            let m = states[0];
            let end = requests.last().1;
            let high = granted(states, requests, set![Priority::High]);
            let normal = granted(states, requests, set![Priority::Normal]);
            let low = granted(states, requests, set![Priority::Low, Priority::Background]);
            &&& normal * TOKEN <= m.normal_leaky.capacity + (end - m.normal_leaky.last_update)
                * m.normal_leaky.rate
            &&& low * TOKEN <= m.low_leaky.capacity + (end - m.low_leaky.last_update)
                * m.low_leaky.rate
            &&& high * TOKEN <= m.high_tokens.tokens + (end - m.high_tokens.last_update)
                * m.high_tokens.rate
            &&& normal * TOKEN <= 2 * (m.normal_tokens.tokens + (end - m.normal_tokens.last_update)
                * m.normal_tokens.rate)
            &&& low * TOKEN <= 4 * (m.low_tokens.tokens + (end - m.low_tokens.last_update)
                * m.low_tokens.rate)
        }),
{
    let end = requests.last().1;
    leaky_level_grows(states, requests, QosGroup::Normal, set![Priority::Normal], end);
    leaky_level_grows(
        states,
        requests,
        QosGroup::Low,
        set![Priority::Low, Priority::Background],
        end,
    );
    tokens_are_spent(states, requests, QosGroup::High, set![Priority::High], TOKEN, end);
    tokens_are_spent(
        states,
        requests,
        QosGroup::Normal,
        set![Priority::Normal],
        500_000_000_000,
        end,
    );
    tokens_are_spent(
        states,
        requests,
        QosGroup::Low,
        set![Priority::Low, Priority::Background],
        250_000_000_000,
        end,
    );
}

proof fn served_before(states: Seq<QosManager>, requests: Seq<(Priority, u64)>)
    requires
        served(states, requests),
        requests.len() > 0,
    ensures
        served(states.drop_last(), requests.drop_last()),
        states.drop_last()[0] == states[0],
        states[requests.len() - 1] == states.drop_last().last(),
        states[requests.len() - 1].admitted(
            states.last(),
            requests.last().0,
            requests.last().1,
        ),
        requests.len() > 1 ==> requests.drop_last().last().1 <= requests.last().1,
{
    let (s, r) = (states.drop_last(), requests.drop_last());
    assert forall|i: int| 0 <= i < r.len() implies (#[trigger] s[i]).admitted(
        s[i + 1],
        r[i].0,
        r[i].1,
    ) by {
        assert(states[i].admitted(states[i + 1], requests[i].0, requests[i].1));
    }
    assert forall|i: int, j: int| 0 <= i <= j < r.len() implies (#[trigger] r[i]).1 <= (
    #[trigger] r[j]).1 by {
        assert(requests[i].1 <= requests[j].1);
    }
    if r.len() > 0 {
        assert(requests[r.len() - 1].1 <= requests[requests.len() - 1].1);
        assert(r[0] == requests[0]);
    }
}

#[verifier::spinoff_prover]
#[verifier::rlimit(60)]
proof fn leaky_level_grows(
    states: Seq<QosManager>,
    requests: Seq<(Priority, u64)>,
    g: QosGroup,
    whose: Set<Priority>,
    end: u64,
)
    requires
        served(states, requests),
        requests.len() > 0 ==> requests.last().1 <= end,
        states[0].leaky(g).last_update <= end,
        g != QosGroup::High,
        forall|p: Priority| #[trigger] whose.contains(p) <==> group_of(p) == g,
    ensures
        ({
            let (a, b) = (states[0].leaky(g), states.last().leaky(g));
            &&& b.wf()
            &&& b.rate == a.rate
            &&& b.capacity == a.capacity
            &&& a.last_update <= b.last_update <= end
            &&& requests.len() > 0 ==> b.last_update <= requests.last().1
            &&& requests.len() == 0 ==> b == a
            &&& granted(states, requests, whose) * TOKEN + a.level <= b.level + (b.last_update
                - a.last_update) * a.rate
            &&& granted(states, requests, whose) * TOKEN <= a.capacity + (end - a.last_update)
                * a.rate
        }),
    decreases requests.len(),
{
    let a = states[0].leaky(g);
    if requests.len() == 0 {
        assert(0 * TOKEN == 0 && 0 * a.rate == 0) by (nonlinear_arith);
        assert((end - a.last_update) * a.rate >= 0) by (nonlinear_arith)
            requires
                a.last_update <= end,
                a.rate >= 0,
        ;
    } else {
        let (s, r) = (states.drop_last(), requests.drop_last());
        served_before(states, requests);
        if r.len() == 0 {
            assert(requests[0] == requests.last());
        }
        let (p, now) = requests.last();
        leaky_level_grows(s, r, g, whose, if r.len() == 0 { end } else { r.last().1 });
        granted_prefix(states, requests, whose);
        let mid = s.last().leaky(g);
        let b = states.last().leaky(g);
        assert(mid.last_update <= now);
        let (x, y) = (mid.last_update - a.last_update, now - mid.last_update);
        assert(x * a.rate + y * a.rate == (x + y) * a.rate && y * a.rate >= 0) by (nonlinear_arith)
            requires
                y >= 0,
                a.rate >= 0,
        ;
        assert(flow(mid.rate, now, mid.last_update) == y * a.rate);
        let n = granted(s, r, whose) as int;
        assert((n + 1) * TOKEN == n * TOKEN + TOKEN) by (nonlinear_arith);
        let (u, v) = (b.last_update - a.last_update, end - a.last_update);
        assert(u * a.rate <= v * a.rate) by (nonlinear_arith)
            requires
                u <= v,
                a.rate >= 0,
        ;
    }
}

proof fn granted_prefix(
    states: Seq<QosManager>,
    requests: Seq<(Priority, u64)>,
    whose: Set<Priority>,
)
    requires
        states.len() == requests.len() + 1,
        requests.len() > 0,
    ensures
        granted(states, requests.drop_last(), whose) == granted(
            states.drop_last(),
            requests.drop_last(),
            whose,
        ),
{
    granted_alike(states, states.drop_last(), requests.drop_last(), whose);
}

proof fn granted_alike(
    a: Seq<QosManager>,
    b: Seq<QosManager>,
    requests: Seq<(Priority, u64)>,
    whose: Set<Priority>,
)
    requires
        a.len() > requests.len(),
        b.len() > requests.len(),
        forall|i: int| 0 <= i < requests.len() ==> #[trigger] a[i] == b[i],
    ensures
        granted(a, requests, whose) == granted(b, requests, whose),
    decreases requests.len(),
{
    if requests.len() > 0 {
        granted_alike(a, b, requests.drop_last(), whose);
    }
}

#[verifier::spinoff_prover]
#[verifier::rlimit(60)]
proof fn tokens_are_spent(
    states: Seq<QosManager>,
    requests: Seq<(Priority, u64)>,
    g: QosGroup,
    whose: Set<Priority>,
    cost: u128,
    end: u64,
)
    requires
        served(states, requests),
        requests.len() > 0 ==> requests.last().1 <= end,
        states[0].tokens(g).last_update <= end,
        forall|p: Priority| #[trigger]
            whose.contains(p) <==> group_of(p) == g && p != Priority::Critical,
        forall|p: Priority| #[trigger] whose.contains(p) ==> cost_of(p) == cost,
    ensures
        ({
            let (a, b) = (states[0].tokens(g), states.last().tokens(g));
            &&& b.wf()
            &&& b.rate == a.rate
            &&& b.capacity == a.capacity
            &&& a.last_update <= b.last_update <= end
            &&& requests.len() > 0 ==> b.last_update <= requests.last().1
            &&& requests.len() == 0 ==> b == a
            &&& granted(states, requests, whose) * cost + b.tokens <= a.tokens + (b.last_update
                - a.last_update) * a.rate
            &&& granted(states, requests, whose) * cost <= a.tokens + (end - a.last_update) * a.rate
        }),
    decreases requests.len(),
{
    let a = states[0].tokens(g);
    if requests.len() == 0 {
        assert(0 * cost == 0 && 0 * a.rate == 0) by (nonlinear_arith);
        assert((end - a.last_update) * a.rate >= 0) by (nonlinear_arith)
            requires
                a.last_update <= end,
                a.rate >= 0,
        ;
    } else {
        let (s, r) = (states.drop_last(), requests.drop_last());
        served_before(states, requests);
        if r.len() == 0 {
            assert(requests[0] == requests.last());
        }
        let (p, now) = requests.last();
        tokens_are_spent(s, r, g, whose, cost, if r.len() == 0 { end } else { r.last().1 });
        granted_prefix(states, requests, whose);
        let mid = s.last().tokens(g);
        let b = states.last().tokens(g);
        assert(mid.last_update <= now);
        let (x, y) = (mid.last_update - a.last_update, now - mid.last_update);
        assert(x * a.rate + y * a.rate == (x + y) * a.rate && y * a.rate >= 0) by (nonlinear_arith)
            requires
                y >= 0,
                a.rate >= 0,
        ;
        assert(flow(mid.rate, now, mid.last_update) == y * a.rate);
        let n = granted(s, r, whose) as int;
        assert((n + 1) * cost == n * cost + cost) by (nonlinear_arith);
        let (u, v) = (b.last_update - a.last_update, end - a.last_update);
        assert(u * a.rate <= v * a.rate) by (nonlinear_arith)
            requires
                u <= v,
                a.rate >= 0,
        ;
    }
}

/// Critical requests are never refused by the buckets, and use up nothing.
pub proof fn critical_requests_pass(before: QosManager, after: QosManager, now: u64)
    requires
        before.admitted(after, Priority::Critical, now),
    ensures
        before.admission(Priority::Critical, now) == Ok::<(), QosError>(()),
        forall|g: QosGroup| #[trigger] after.tokens(g) == before.tokens(g),
        forall|g: QosGroup| #[trigger] after.leaky(g) == before.leaky(g),
{
}

/// Requests of one group leave the buckets and counters of the others alone.
pub proof fn groups_are_independent(
    before: QosManager,
    after: QosManager,
    p: Priority,
    other: QosGroup,
    now: u64,
)
    requires
        before.admitted(after, p, now),
        other != group_of(p),
    ensures
        after.tokens(other) == before.tokens(other),
        after.leaky(other) == before.leaky(other),
        after.statistics.group(other) == before.statistics.group(other),
{
}

proof fn permits_are_rounded_up(total: int, quota: int, base: int)
    requires
        total >= 0,
        quota >= 0,
    ensures
        base > 0 ==> (permits_of(total, quota, base) - 1) * base < total * quota <= permits_of(
            total,
            quota,
            base,
        ) * base,
{
    if base > 0 {
        let n = total * quota + base - 1;
        let p = permits_of(total, quota, base);
        vstd::arithmetic::div_mod::lemma_fundamental_div_mod(n, base);
        vstd::arithmetic::div_mod::lemma_mod_bound(n, base);
        assert((p - 1) * base == p * base - base) by (nonlinear_arith);
        assert(p * base == base * (n / base)) by (nonlinear_arith)
            requires
                p == n / base,
        ;
    }
}

} // verus!
