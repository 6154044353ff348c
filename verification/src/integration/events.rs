//! What happens in the system, and what it can be told.
//!
//! Points in time and durations are nanoseconds. A remote address is the
//! number its owner gives it.

use bytes::Bytes;
use std::collections::VecDeque;
use vstd::prelude::*;
use vstd::std_specs::vecdeque::*;
use vstd::string::*;

use crate::buffer::{bytes_content, bytes_from_vec, same_bytes};
use crate::history::{filter_step, filtered_from, remember, remembered};
use crate::integration::scaling::ScalingSettings;
use crate::io::reader::ReaderEvent;
use crate::ratio::Ratio;
use crate::types::priority::Priority;

verus! {

/// How long an unused session stays in the cache: an hour.
pub const SESSION_LIFETIME: u64 = 3_600_000_000_000;

/// How grave an error is.
#[derive(Debug, Clone, Copy, PartialEq, Eq, Structural)]
pub enum ErrorSeverity {
    Low,
    Medium,
    High,
    Critical,
}

impl ErrorSeverity {
    /// The severity as a number, rising.
    pub open spec fn rank(self) -> u8 {
        match self {
            ErrorSeverity::Low => 0,
            ErrorSeverity::Medium => 1,
            ErrorSeverity::High => 2,
            ErrorSeverity::Critical => 3,
        }
    }

    /// The severity as a number, rising.
    pub fn level(&self) -> (n: u8)
        ensures
            n == self.rank(),
            n == 0 <==> self is Low,
            n == 1 <==> self is Medium,
            n == 2 <==> self is High,
            n == 3 <==> self is Critical,
    {
        match self {
            ErrorSeverity::Low => 0,
            ErrorSeverity::Medium => 1,
            ErrorSeverity::High => 2,
            ErrorSeverity::Critical => 3,
        }
    }
}

/// How data is processed.
#[derive(Debug, Clone, Copy, PartialEq, Eq, Structural)]
pub enum ProcessorType {
    Standard,
    Accelerated,
    Optimized,
    WorkStealing,
}

/// What came of a task.
#[derive(Debug)]
pub struct ProcessResult {
    pub success: bool,
    pub data: Option<Bytes>,
    pub error: Option<String>,
    /// Where the data came from, if that is known.
    pub destination_addr: Option<u64>,
    /// Whether a worker took the task from another one, if a worker did it.
    pub was_stolen: Option<bool>,
}

/// What happened.
#[derive(Debug)]
pub enum SystemEvent {
    DataReceived {
        session_id: Vec<u8>,
        data: Bytes,
        source_addr: u64,
        priority: Priority,
        timestamp: u64,
    },
    DataProcessed {
        session_id: Vec<u8>,
        result: ProcessResult,
        processing_time: u64,
        worker_id: Option<usize>,
    },
    ConnectionOpened { addr: u64, session_id: Vec<u8> },
    ConnectionClosed { addr: u64, session_id: Vec<u8>, reason: String },
    BatchCompleted { batch_id: u64, size: usize, processing_time: u64, success_rate: Ratio },
    ErrorOccurred { error: String, context: String, severity: ErrorSeverity },
}

/// What the system can be told.
#[derive(Debug)]
pub enum SystemCommand {
    StartProcessing,
    PauseProcessing,
    ResumeProcessing,
    StopProcessing,
    FlushBuffers,
    ClearCaches,
    AdjustConfig { parameter: String, value: String },
    EmergencyShutdown { reason: String },
    GetStatistics,
    ResetStatistics,
    RebalanceWorkers,
    ScaleUp { count: usize },
    ScaleDown { count: usize },
    UpdateScalingSettings { settings: ScalingSettings },
}

/// Whether `e` tells the system what the reader told.
pub open spec fn is_conversion(r: ReaderEvent, e: SystemEvent) -> bool {
    match r {
        ReaderEvent::DataReady { session_id, data, source_addr, priority, received_at, .. } => e
            matches SystemEvent::DataReceived {
            session_id: s,
            data: d,
            source_addr: a,
            priority: p,
            timestamp: t,
        } && s == session_id && bytes_content(d) == data@ && a == source_addr && p == priority && t
            == received_at,
        ReaderEvent::ConnectionClosed { source_addr, reason } => e
            matches SystemEvent::ConnectionClosed { addr, session_id, reason: why } && addr
            == source_addr && session_id@.len() == 0 && why == reason,
        ReaderEvent::Error { error, .. } => e matches SystemEvent::ErrorOccurred {
            error: text,
            context,
            severity,
        } && text@ == error.text() && context@ == "reader_error"@ && severity
            == ErrorSeverity::High,
    }
}

/// Tells the system what the reader told.
pub fn convert_reader_event(event: ReaderEvent) -> (e: SystemEvent)
    ensures
        is_conversion(event, e),
        event is DataReady ==> (e matches SystemEvent::DataReceived {
            session_id,
            data,
            source_addr,
            priority,
            timestamp,
        } && session_id == event->DataReady_session_id
            && bytes_content(data) == event->DataReady_data@
            && source_addr == event->DataReady_source_addr && priority == event->DataReady_priority
            && timestamp == event->DataReady_received_at),
        event is ConnectionClosed ==> (e matches SystemEvent::ConnectionClosed { addr, reason, .. }
            && addr == event->ConnectionClosed_source_addr && reason
            == event->ConnectionClosed_reason),
        event is Error ==> (e matches SystemEvent::ErrorOccurred { severity, .. }
            && severity is High),
{
    match event {
        ReaderEvent::DataReady {
            session_id,
            data,
            source_addr,
            priority,
            received_at,
            size: _,
        } => SystemEvent::DataReceived {
            session_id,
            data: bytes_from_vec(data),
            source_addr,
            priority,
            timestamp: received_at,
        },
        ReaderEvent::ConnectionClosed { source_addr, reason } => SystemEvent::ConnectionClosed {
            addr: source_addr,
            session_id: Vec::new(),
            reason,
        },
        ReaderEvent::Error { source_addr: _, error } => SystemEvent::ErrorOccurred {
            error: error.message(),
            context: String::from_str("reader_error"),
            severity: ErrorSeverity::High,
        },
    }
}

/// Something to be done with others of its kind.
#[derive(Debug)]
pub enum BatchOperation {
    Encryption { session_id: Vec<u8>, data: Bytes, key: [u8; 32], nonce: [u8; 12] },
    Decryption { session_id: Vec<u8>, data: Bytes, key: [u8; 32], nonce: [u8; 12] },
    Hashing { data: Bytes, key: Option<[u8; 32]> },
    Processing { session_id: Vec<u8>, data: Bytes, processor_type: ProcessorType },
}

/// Operations that wait to be done together.
#[derive(Debug)]
pub struct PendingBatch {
    pub id: u64,
    pub operations: Vec<BatchOperation>,
    pub priority: Priority,
    pub source_addr: u64,
    pub created_at: u64,
    pub deadline: Option<u64>,
    pub retry_count: u32,
}

/// A connection.
#[derive(Debug)]
pub struct ConnectionInfo {
    pub addr: u64,
    pub session_id: Vec<u8>,
    pub opened_at: u64,
    pub last_activity: u64,
    pub bytes_received: u64,
    pub bytes_sent: u64,
    pub priority: Priority,
    pub is_active: bool,
    pub worker_assigned: Option<usize>,
}

/// Where memory goes.
#[derive(Debug, Clone, Copy)]
pub struct MemoryUsage {
    pub total: usize,
    pub used: usize,
    pub free: usize,
    pub buffer_pool: usize,
    pub crypto_pool: usize,
    pub connections: usize,
    pub session_cache: usize,
}

/// Counters of the system.
#[derive(Debug, Clone, Copy, PartialEq, Eq, Structural)]
pub struct SystemStatistics {
    pub total_data_received: u64,
    pub total_data_sent: u64,
    pub total_packets_processed: u64,
    pub total_batches_processed: u64,
    pub total_errors: u64,
    pub total_connections: u64,
    pub avg_processing_time: u64,
    /// Operations per nanosecond of the fastest batch.
    pub peak_throughput: Ratio,
    pub buffer_hit_rate: Ratio,
    pub crypto_operations: u64,
    pub work_stealing_count: u64,
    pub startup_time: u64,
    pub uptime: u64,
}

impl SystemStatistics {
    /// Nothing counted since a point in time.
    pub open spec fn since(startup_time: u64) -> SystemStatistics {
        SystemStatistics {
            total_data_received: 0,
            total_data_sent: 0,
            total_packets_processed: 0,
            total_batches_processed: 0,
            total_errors: 0,
            total_connections: 0,
            avg_processing_time: 0,
            peak_throughput: Ratio { part: 0, whole: 0 },
            buffer_hit_rate: Ratio { part: 0, whole: 0 },
            crypto_operations: 0,
            work_stealing_count: 0,
            startup_time,
            uptime: 0,
        }
    }

    /// Nothing counted since a point in time.
    pub fn starting(startup_time: u64) -> (s: Self)
        ensures
            s == Self::since(startup_time),
    {
        SystemStatistics {
            total_data_received: 0,
            total_data_sent: 0,
            total_packets_processed: 0,
            total_batches_processed: 0,
            total_errors: 0,
            total_connections: 0,
            avg_processing_time: 0,
            peak_throughput: Ratio::new(0, 0),
            buffer_hit_rate: Ratio::new(0, 0),
            crypto_operations: 0,
            work_stealing_count: 0,
            startup_time,
            uptime: 0,
        }
    }
}

/// A session that was in use.
#[derive(Debug)]
pub struct SessionCacheEntry {
    pub session_id: Vec<u8>,
    pub last_used: u64,
    pub access_count: u64,
    pub data: Bytes,
}

/// Sessions that were in use, each once.
#[derive(Debug)]
pub struct SessionCache {
    pub entries: Vec<SessionCacheEntry>,
}

/// Whether an entry was used within the last hour.
pub open spec fn in_use(e: SessionCacheEntry, now: u64) -> bool {
    now - e.last_used < SESSION_LIFETIME
}

/// An entry used once more.
pub open spec fn used_again(e: SessionCacheEntry, now: u64) -> SessionCacheEntry {
    SessionCacheEntry { last_used: now, access_count: (e.access_count + 1) as u64, ..e }
}

impl SessionCache {
    /// No session occurs twice.
    pub open spec fn wf(self) -> bool {
        forall|i: int, j: int|
            0 <= i < j < self.entries@.len() ==> (#[trigger] self.entries@[i]).session_id@ != (
            #[trigger] self.entries@[j]).session_id@
    }

    /// No sessions.
    pub fn new() -> (c: Self)
        ensures
            c.wf(),
            c.entries@.len() == 0,
    {
        SessionCache { entries: Vec::new() }
    }

    /// Takes note that a session is used, if it is in the cache.
    pub fn touch(&mut self, session_id: &[u8], now: u64)
        requires
            old(self).wf(),
            forall|i: int|
                0 <= i < old(self).entries@.len() ==> (#[trigger] old(
                    self).entries@[i]).access_count < u64::MAX,
        ensures
            final(self).wf(),
            final(self).entries@.len() == old(self).entries@.len(),
            forall|i: int|
                0 <= i < old(self).entries@.len() ==> #[trigger] final(self).entries@[i] == if old(
                    self).entries@[i].session_id@ == session_id@ {
                    used_again(old(self).entries@[i], now)
                } else {
                    old(self).entries@[i]
                },
            forall|i: int|
                0 <= i < old(self).entries@.len() && (#[trigger] old(self).entries@[i]).session_id@
                    == session_id@ ==> {
                    &&& final(self).entries@[i].last_used == now
                    &&& final(self).entries@[i].access_count == old(self).entries@[i].access_count
                        + 1
                    &&& final(self).entries@[i].session_id == old(self).entries@[i].session_id
                },
    {
        let mut i: usize = 0;
        while i < self.entries.len()
            invariant
                i <= self.entries@.len(),
                self.entries@ == old(self).entries@,
                self.wf(),
                forall|k: int|
                    0 <= k < old(self).entries@.len() ==> (#[trigger] old(
                        self).entries@[k]).access_count < u64::MAX,
                forall|k: int|
                    0 <= k < i ==> (#[trigger] self.entries@[k]).session_id@ != session_id@,
            decreases self.entries@.len() - i,
        {
            if same_bytes(self.entries[i].session_id.as_slice(), session_id) {
                let entry: &mut SessionCacheEntry = &mut self.entries[i];
                entry.last_used = now;
                entry.access_count = entry.access_count + 1;
                return;
            }
            i += 1;
        }
    }

    /// Forgets sessions that were not used within the last hour.
    pub fn clean(&mut self, now: u64)
        requires
            old(self).wf(),
        ensures
            final(self).wf(),
            final(self).entries@ == old(self).entries@.filter(
                |e: SessionCacheEntry| in_use(e, now),
            ),
            final(self).entries@ == old(self).entries@.filter(
                |e: SessionCacheEntry| now - e.last_used < 3_600_000_000_000,
            ),
    {
        let ghost all = self.entries@;
        let ghost pred = |e: SessionCacheEntry| in_use(e, now);
        let mut kept: Vec<SessionCacheEntry> = Vec::new();
        let ghost mut k: int = 0;
        proof {
            reveal(Seq::filter);
            assert(all.take(0) =~= Seq::empty());
            assert(all.skip(0) =~= all);
        }
        while self.entries.len() > 0
            invariant
                0 <= k <= all.len(),
                self.entries@ == all.skip(k),
                kept@ == all.take(k).filter(pred),
                pred == (|e: SessionCacheEntry| in_use(e, now)),
            decreases self.entries@.len(),
        {
            proof {
                filter_step(all, pred, k);
            }
            let entry: SessionCacheEntry = self.entries.remove(0);
            if now.saturating_sub(entry.last_used) < SESSION_LIFETIME {
                kept.push(entry);
            }
            proof {
                assert(self.entries@ =~= all.skip(k + 1));
                k = k + 1;
            }
        }
        proof {
            assert(all.take(k) =~= all);
            filtered_stay_distinct(all, pred);
            assert(pred =~= |e: SessionCacheEntry| now - e.last_used < 3_600_000_000_000);
        }
        self.entries = kept;
    }

    /// Forgets all sessions.
    pub fn clear(&mut self)
        ensures
            final(self).wf(),
            final(self).entries@.len() == 0,
    {
        self.entries.clear();
    }

    /// The number of sessions.
    pub fn len(&self) -> (n: usize)
        ensures
            n == self.entries@.len(),
    {
        self.entries.len()
    }
}

proof fn filtered_stay_distinct(
    s: Seq<SessionCacheEntry>,
    pred: spec_fn(SessionCacheEntry) -> bool,
)
    requires
        forall|i: int, j: int|
            0 <= i < j < s.len() ==> (#[trigger] s[i]).session_id@ != (
            #[trigger] s[j]).session_id@,
    ensures
        forall|i: int, j: int|
            0 <= i < j < s.filter(pred).len() ==> (#[trigger] s.filter(pred)[i]).session_id@ != (
            #[trigger] s.filter(pred)[j]).session_id@,
    decreases s.len(),
{
    reveal(Seq::filter);
    if s.len() > 0 {
        let rest = s.drop_last();
        assert forall|i: int, j: int| 0 <= i < j < rest.len() implies (
        #[trigger] rest[i]).session_id@ != (#[trigger] rest[j]).session_id@ by {
            assert(s[i] == rest[i] && s[j] == rest[j]);
        }
        filtered_stay_distinct(rest, pred);
        let f = s.filter(pred);
        assert forall|i: int, j: int| 0 <= i < j < f.len() implies (
        #[trigger] f[i]).session_id@ != (#[trigger] f[j]).session_id@ by {
            let g = rest.filter(pred);
            if j < g.len() {
                assert(f[i] == g[i] && f[j] == g[j]);
            } else {
                assert(f[i] == g[i]);
                filtered_from(rest, pred, i);
                let x = choose|x: int| 0 <= x < rest.len() && rest[x] == g[i];
                assert(s[x] == g[i]);
                assert(f[j] == s[s.len() - 1]);
            }
        }
    }
}

/// The last values of something measured.
#[derive(Debug)]
pub struct PerformanceCounter<V> {
    pub name: String,
    pub value: Option<V>,
    pub timestamp: u64,
    pub window_size: usize,
    pub values: VecDeque<V>,
}

impl<V: Copy> PerformanceCounter<V> {
    /// The values fit the window.
    pub open spec fn wf(self) -> bool {
        self.values@.len() <= self.window_size
    }

    /// No values yet.
    pub fn new(name: String, window_size: usize, now: u64) -> (c: Self)
        ensures
            c.wf(),
            c.name == name,
            c.value is None,
            c.timestamp == now,
            c.window_size == window_size,
            c.values@.len() == 0,
    {
        PerformanceCounter {
            name,
            value: None,
            timestamp: now,
            window_size,
            values: VecDeque::new(),
        }
    }

    /// Takes note of a value.
    pub fn update(&mut self, value: V, now: u64)
        requires
            old(self).wf(),
        ensures
            final(self).wf(),
            final(self).name == old(self).name,
            final(self).window_size == old(self).window_size,
            final(self).value == Some(value),
            final(self).timestamp == now,
            final(self).values@ == remembered(
                old(self).values@,
                value,
                old(self).window_size as nat,
            ),
    {
        self.value = Some(value);
        self.timestamp = now;
        remember(&mut self.values, value, self.window_size);
    }
}

} // verus!
