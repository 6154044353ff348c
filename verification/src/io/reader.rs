//! Reading from connections: what a read leads to, and how long to wait for
//! the next one.
//!
//! Points in time and durations are nanoseconds. A remote address is the
//! number its owner gives it.

use std::collections::VecDeque;
use vstd::prelude::*;
use vstd::std_specs::vecdeque::*;
use vstd::string::*;

use crate::bounds::{clamp_u64, clamped, greater, max_u64, smaller};
use crate::config::{BatchConfig, MILLISECOND, SECOND};
use crate::history::{
    all_pass, in_micros, is_percentile, mean, mean_u64, means_share_the_sum, micros_of, none_pass,
    percentile, percentile_is_an_entry, percentiles_are_unique, remember, remembered, to_list,
};
use crate::text::{occurs, str_contains};
use crate::types::error::BatchError;
use crate::types::priority::{Priority, priority_of};

verus! {

/// How many packet sizes are remembered.
pub const SIZE_HISTORY: usize = 1000;

/// How many read rates are remembered.
pub const RATE_HISTORY: usize = 1000;

/// How many read times are remembered.
pub const READ_TIME_HISTORY: usize = 100;

/// From this many read times on, the timeout adapts.
pub const MIN_READ_TIMES: usize = 10;

/// The window over which reads are counted: one minute.
pub const RATE_WINDOW: u64 = 60_000_000_000;

/// The timeout never adapts to less than this many milliseconds.
pub const TIMEOUT_FLOOR_MS: u64 = 5000;

/// After this many read errors in a row a connection is given up.
pub const MAX_CONSECUTIVE_ERRORS: u32 = 10;

/// The sizes of the last packets.
#[derive(Debug)]
pub struct PacketSizeModel {
    pub history: VecDeque<usize>,
    pub max_history: usize,
}

impl PacketSizeModel {
    /// The history stays within its bound.
    pub open spec fn wf(self) -> bool {
        self.history@.len() <= self.max_history
    }

    /// No sizes yet.
    pub fn new(max_history: usize) -> (m: Self)
        ensures
            m.wf(),
            m.history@.len() == 0,
            m.max_history == max_history,
    {
        PacketSizeModel { history: VecDeque::new(), max_history }
    }

    /// Takes note of a size. Says whether there are enough sizes to estimate
    /// their distribution.
    pub fn update(&mut self, size: usize) -> (estimate: bool)
        requires
            old(self).wf(),
        ensures
            final(self).wf(),
            final(self).max_history == old(self).max_history,
            final(self).history@ == remembered(
                old(self).history@,
                size,
                old(self).max_history as nat,
            ),
            estimate == (final(self).history@.len() >= 100),
    {
        remember(&mut self.history, size, self.max_history);
        self.history.len() >= 100
    }
}

/// How many of the oldest entries of a list of times lie more than a minute
/// back.
pub open spec fn expired_prefix(times: Seq<u64>, now: u64) -> nat
    decreases times.len(),
{
    if times.len() > 0 && now - times[0] > RATE_WINDOW {
        1 + expired_prefix(times.skip(1), now)
    } else {
        0
    }
}

/// Whether `after` is what is left at time `now` of the given times of reads
/// and rates remembered: reads of more than a minute ago are forgotten,
/// together with the rates remembered longest, and the others are counted.
pub open spec fn brought_up_to_date(
    timestamps: Seq<u64>,
    history: Seq<u64>,
    peak_rate: u64,
    now: u64,
    after: ReadIntensityModel,
) -> bool {
    let n = expired_prefix(timestamps, now);
    &&& n <= timestamps.len()
    &&& after.timestamps@ == timestamps.skip(n as int)
    &&& after.history@ == history.skip(smaller(n as int, history.len() as int))
    &&& after.rate == after.timestamps@.len()
    &&& after.peak_rate == greater(peak_rate as int, after.rate as int)
    &&& after.avg_rate == mean(after.history@)
}

/// How often reads succeed. Rates are counts of reads in the window.
#[derive(Debug)]
pub struct ReadIntensityModel {
    /// Reads in the window, as of the last update.
    pub rate: u64,
    pub peak_rate: u64,
    /// Mean of the remembered rates, rounded down.
    pub avg_rate: u64,
    /// The rate at each of the last reads.
    pub history: VecDeque<u64>,
    pub timestamps: VecDeque<u64>,
}

impl ReadIntensityModel {
    /// What holds of every model.
    pub open spec fn wf(self) -> bool {
        self.history@.len() <= RATE_HISTORY
    }

    /// No reads yet.
    pub fn new() -> (m: Self)
        ensures
            m.wf(),
            m.rate == 0,
            m.peak_rate == 0,
            m.avg_rate == 0,
            m.history@.len() == 0,
            m.timestamps@.len() == 0,
    {
        ReadIntensityModel {
            rate: 0,
            peak_rate: 0,
            avg_rate: 0,
            history: VecDeque::new(),
            timestamps: VecDeque::new(),
        }
    }

    /// Forgets reads of more than a minute ago, together with the rates
    /// remembered longest, and counts the others.
    pub fn update(&mut self, now: u64)
        requires
            old(self).wf(),
        ensures
            final(self).wf(),
            brought_up_to_date(
                old(self).timestamps@,
                old(self).history@,
                old(self).peak_rate,
                now,
                *final(self),
            ),
    {
        let ghost times = self.timestamps@;
        let ghost rates = self.history@;
        let ghost mut k: int = 0;
        proof {
            assert(times.skip(0) =~= times);
            assert(rates.skip(0) =~= rates);
        }
        while self.timestamps.len() > 0 && now.saturating_sub(self.timestamps[0]) > RATE_WINDOW
            invariant
                0 <= k <= times.len(),
                self.timestamps@ == times.skip(k),
                self.history@ == rates.skip(smaller(k, rates.len() as int)),
                expired_prefix(times, now) == k + expired_prefix(times.skip(k), now),
                self.wf(),
                self.peak_rate == old(self).peak_rate,
                rates.len() <= RATE_HISTORY,
            decreases self.timestamps@.len(),
        {
            let _time: Option<u64> = self.timestamps.pop_front();
            let _rate: Option<u64> = self.history.pop_front();
            proof {
                assert(times.skip(k).skip(1) =~= times.skip(k + 1));
                assert(self.timestamps@ =~= times.skip(k + 1));
                assert(self.history@ =~= rates.skip(smaller(k + 1, rates.len() as int)));
                k = k + 1;
            }
        }
        self.rate = self.timestamps.len() as u64;
        let list: Vec<u64> = to_list(&self.history);
        self.avg_rate = mean_u64(&list);
        self.peak_rate = max_u64(self.peak_rate, self.rate);
    }

    /// Takes note of a read.
    pub fn add_read(&mut self, timestamp: u64)
        requires
            old(self).wf(),
        ensures
            final(self).wf(),
            final(self).timestamps@ == old(self).timestamps@.push(timestamp),
            final(self).history@ == remembered(
                old(self).history@,
                old(self).rate,
                RATE_HISTORY as nat,
            ),
            final(self).rate == old(self).rate,
            final(self).peak_rate == old(self).peak_rate,
            final(self).avg_rate == old(self).avg_rate,
    {
        self.timestamps.push_back(timestamp);
        remember(&mut self.history, self.rate, RATE_HISTORY);
    }
}

/// Nanoseconds as whole milliseconds.
pub open spec fn in_millis(s: Seq<u64>) -> Seq<u64> {
    s.map_values(|t: u64| (t / 1_000_000) as u64)
}

fn millis_of(v: &Vec<u64>) -> (m: Vec<u64>)
    ensures
        m@ == in_millis(v@),
{
    let mut m: Vec<u64> = Vec::new();
    let mut i: usize = 0;
    while i < v.len()
        invariant
            i <= v@.len(),
            m@.len() == i,
            forall|k: int| 0 <= k < i ==> #[trigger] m@[k] == v@[k] / 1_000_000,
        decreases v@.len() - i,
    {
        m.push(v[i] / 1_000_000);
        i += 1;
    }
    proof {
        assert(m@ =~= in_millis(v@));
    }
    m
}

/// The timeout, in milliseconds, that suits reads with the given 95th
/// percentile: half as much again, but no less than the floor.
pub open spec fn target_ms(p95: u64) -> int {
    greater(p95 * 3 / 2, TIMEOUT_FLOOR_MS as int)
}

/// A timeout in milliseconds moved three tenths of the way to a target, within
/// its bounds.
pub open spec fn moved_ms(current: int, target: int, max: int) -> int {
    clamped((current * 7 + target * 3) / 10, TIMEOUT_FLOOR_MS as int, max)
}

/// Whether `after` is what a model makes of a read that took `read_time`. A
/// read that took as long as the timeout teaches nothing; with ten or more
/// times known, a target above the current timeout pulls it up.
pub open spec fn has_learned(
    before: ReadTimeoutModel,
    read_time: u64,
    after: ReadTimeoutModel,
) -> bool {
    if read_time >= before.current_timeout {
        after == before
    } else {
        &&& after.base_timeout == before.base_timeout
        &&& after.min_timeout == before.min_timeout
        &&& after.max_timeout == before.max_timeout
        &&& after.read_times@ == remembered(
            before.read_times@,
            read_time,
            READ_TIME_HISTORY as nat,
        )
        &&& if after.read_times@.len() < MIN_READ_TIMES {
            after.current_timeout == before.current_timeout
        } else {
            exists|p95: u64|
                {
                    &&& #[trigger] is_percentile(in_millis(after.read_times@), 95, Some(p95))
                    &&& after.current_timeout == adapted(
                        before.current_timeout,
                        p95,
                        before.max_timeout,
                    )
                }
        }
    }
}

/// The timeout after one that reads with the given 95th percentile have
/// followed.
pub open spec fn adapted(current_timeout: u64, p95: u64, max_timeout: u64) -> int {
    let current = (current_timeout / 1_000_000) as int;
    if target_ms(p95) > current {
        moved_ms(current, target_ms(p95), (max_timeout / 1_000_000) as int) * 1_000_000
    } else {
        current_timeout as int
    }
}

/// How long to wait for a read.
#[derive(Debug)]
pub struct ReadTimeoutModel {
    pub base_timeout: u64,
    pub min_timeout: u64,
    pub max_timeout: u64,
    pub current_timeout: u64,
    pub read_times: VecDeque<u64>,
}

impl ReadTimeoutModel {
    /// What holds of every model.
    pub open spec fn wf(self) -> bool {
        &&& self.read_times@.len() <= READ_TIME_HISTORY
        &&& self.max_timeout == 30 * SECOND
    }

    /// Starts with the base timeout.
    pub fn new(base_timeout: u64) -> (m: Self)
        ensures
            m.wf(),
            m.base_timeout == base_timeout,
            m.current_timeout == base_timeout,
            m.min_timeout == 100 * MILLISECOND,
            m.read_times@.len() == 0,
    {
        ReadTimeoutModel {
            base_timeout,
            min_timeout: 100 * MILLISECOND,
            max_timeout: 30 * SECOND,
            current_timeout: base_timeout,
            read_times: VecDeque::new(),
        }
    }

    /// Learns from a read. Reads that took as long as the timeout teach
    /// nothing; with ten or more times known, a target above the current
    /// timeout pulls it up.
    pub fn update(&mut self, read_time: u64)
        requires
            old(self).wf(),
        ensures
            final(self).wf(),
            has_learned(*old(self), read_time, *final(self)),
    {
        if read_time >= self.current_timeout {
            return;
        }
        remember(&mut self.read_times, read_time, READ_TIME_HISTORY);
        if self.read_times.len() >= MIN_READ_TIMES {
            let list: Vec<u64> = to_list(&self.read_times);
            let times: Vec<u64> = millis_of(&list);
            match percentile(&times, 95) {
                Some(p95) => {
                    proof {
                        milliseconds_are_small(list@, p95);
                        assert(is_percentile(in_millis(self.read_times@), 95, Some(p95)));
                    }
                    let target: u64 = max_u64(p95 * 3 / 2, TIMEOUT_FLOOR_MS);
                    let current: u64 = self.current_timeout / MILLISECOND;
                    if target > current {
                        let moved: u64 = clamp_u64(
                            (current * 7 + target * 3) / 10,
                            TIMEOUT_FLOOR_MS,
                            self.max_timeout / MILLISECOND,
                        );
                        self.current_timeout = moved * MILLISECOND;
                    }
                },
                None => {},
            }
        }
    }

    /// How long to wait: the base timeout before the first read.
    pub fn get_timeout(&self) -> (t: u64)
        ensures
            t == if self.read_times@.len() == 0 {
                self.base_timeout
            } else {
                self.current_timeout
            },
    {
        if self.read_times.len() == 0 {
            self.base_timeout
        } else {
            self.current_timeout
        }
    }

    /// Back to the base timeout.
    pub fn reset(&mut self)
        requires
            old(self).wf(),
        ensures
            final(self).wf(),
            *final(self) == (ReadTimeoutModel {
                current_timeout: old(self).base_timeout,
                read_times: final(self).read_times,
                ..*old(self)
            }),
            final(self).read_times@.len() == 0,
    {
        self.current_timeout = self.base_timeout;
        self.read_times.clear();
    }
}

proof fn milliseconds_are_small(times: Seq<u64>, p95: u64)
    requires
        is_percentile(in_millis(times), 95, Some(p95)),
    ensures
        p95 <= u64::MAX / 1_000_000,
{
    let s = in_millis(times);
    percentile_is_an_entry(s, 95, p95);
    let i = choose|i: int| 0 <= i < s.len() && s[i] == p95;
    assert(s[i] == times[i] / 1_000_000);
}

/// A timeout within its bounds never becomes shorter by a move towards a
/// target above it, and stays within its bounds.
pub proof fn timeouts_only_grow(current: int, p95: u64)
    requires
        0 <= current <= 30_000,
        target_ms(p95) > current,
    ensures
        current <= moved_ms(current, target_ms(p95), 30_000) <= 30_000,
        moved_ms(current, target_ms(p95), 30_000) >= TIMEOUT_FLOOR_MS,
{
}

/// Counters of the reader. Times are microseconds.
#[derive(Debug, Clone, Copy)]
pub struct ReaderStats {
    pub total_bytes_read: u64,
    pub total_packets_read: u64,
    pub read_rate: u64,
    pub avg_read_time: u64,
    pub p95_read_time: u64,
    pub p99_read_time: u64,
    pub timeout_count: u64,
    pub error_count: u64,
    pub connection_count: usize,
}

impl ReaderStats {
    /// Nothing counted yet.
    pub open spec fn none() -> ReaderStats {
        ReaderStats {
            total_bytes_read: 0,
            total_packets_read: 0,
            read_rate: 0,
            avg_read_time: 0,
            p95_read_time: 0,
            p99_read_time: 0,
            timeout_count: 0,
            error_count: 0,
            connection_count: 0,
        }
    }
}

impl Default for ReaderStats {
    fn default() -> (s: Self)
        ensures
            s == Self::none(),
    {
        ReaderStats {
            total_bytes_read: 0,
            total_packets_read: 0,
            read_rate: 0,
            avg_read_time: 0,
            p95_read_time: 0,
            p99_read_time: 0,
            timeout_count: 0,
            error_count: 0,
            connection_count: 0,
        }
    }
}

/// What a reader tells the rest of the system.
#[derive(Debug)]
pub enum ReaderEvent {
    DataReady {
        session_id: Vec<u8>,
        data: Vec<u8>,
        source_addr: u64,
        priority: Priority,
        received_at: u64,
        size: usize,
    },
    ConnectionClosed { source_addr: u64, reason: String },
    Error { source_addr: u64, error: BatchError },
}

/// What came of waiting for a frame.
#[derive(Debug)]
pub enum FrameOutcome {
    Frame(Vec<u8>),
    Failed(String),
    TimedOut,
}

/// Whether the text of an error tells of a lost connection.
pub open spec fn tells_of_loss(text: Seq<char>) -> bool {
    ||| occurs(text, "Connection closed"@)
    ||| occurs(text, "UnexpectedEof"@)
    ||| occurs(text, "Broken pipe"@)
    ||| occurs(text, "Connection reset"@)
}

/// What a frame outcome means: data, the end of the connection where the frame
/// is empty, or an error.
pub fn classify_frame(outcome: FrameOutcome) -> (r: Result<Option<Vec<u8>>, BatchError>)
    ensures
        match outcome {
            FrameOutcome::Frame(data) => r == Ok::<Option<Vec<u8>>, BatchError>(
                if data@.len() == 0 {
                    None
                } else {
                    Some(data)
                },
            ),
            FrameOutcome::Failed(text) => r == Err::<Option<Vec<u8>>, BatchError>(
                if tells_of_loss(text@) {
                    BatchError::ConnectionClosed(text)
                } else {
                    BatchError::ProcessingError(text)
                },
            ),
            FrameOutcome::TimedOut => r == Err::<Option<Vec<u8>>, BatchError>(BatchError::Timeout),
        },
        (r matches Err(BatchError::ConnectionClosed(_)))
            <==> (outcome matches FrameOutcome::Failed(text)
            && (occurs(text@, "Connection closed"@) || occurs(text@, "UnexpectedEof"@) || occurs(
            text@,
            "Broken pipe"@,
        ) || occurs(text@, "Connection reset"@))),
{
    match outcome {
        FrameOutcome::Frame(data) => {
            if data.len() == 0 {
                Ok(None)
            } else {
                Ok(Some(data))
            }
        },
        FrameOutcome::Failed(text) => {
            let lost: bool = str_contains(text.as_str(), "Connection closed") || str_contains(
                text.as_str(),
                "UnexpectedEof",
            ) || str_contains(text.as_str(), "Broken pipe") || str_contains(
                text.as_str(),
                "Connection reset",
            );
            if lost {
                Err(BatchError::ConnectionClosed(text))
            } else {
                Err(BatchError::ProcessingError(text))
            }
        },
        FrameOutcome::TimedOut => Err(BatchError::Timeout),
    }
}

/// What the loop of a connection does after a read.
#[derive(Debug)]
pub enum ReadAction {
    /// Hands on the event, then reads again.
    Deliver(ReaderEvent),
    /// Reads again after a pause.
    Retry,
    /// Stops.
    Stop,
}

/// The loop of one connection.
#[derive(Debug)]
pub struct ConnectionReader {
    pub source_addr: u64,
    pub session_id: Vec<u8>,
    pub consecutive_errors: u32,
}

/// The reader.
#[derive(Debug)]
pub struct BatchReader {
    pub packet_size_model: PacketSizeModel,
    pub intensity_model: ReadIntensityModel,
    pub timeout_model: ReadTimeoutModel,
    pub stats: ReaderStats,
    pub connection_count: usize,
    pub is_running: bool,
}

impl BatchReader {
    /// What holds of every reader.
    pub open spec fn wf(self) -> bool {
        &&& self.packet_size_model.wf()
        &&& self.intensity_model.wf()
        &&& self.timeout_model.wf()
    }

    /// Whether this is a reader as it is made: it runs, and has read nothing.
    pub open spec fn is_new(self, config: BatchConfig) -> bool {
        &&& self.packet_size_model.history@.len() == 0
        &&& self.packet_size_model.max_history == SIZE_HISTORY
        &&& self.intensity_model.timestamps@.len() == 0
        &&& self.intensity_model.history@.len() == 0
        &&& self.intensity_model.rate == 0
        &&& self.intensity_model.peak_rate == 0
        &&& self.intensity_model.avg_rate == 0
        &&& self.timeout_model.min_timeout == 100 * MILLISECOND
        &&& self.timeout_model.base_timeout == config.read_timeout
        &&& self.timeout_model.current_timeout == config.read_timeout
        &&& self.timeout_model.read_times@.len() == 0
        &&& self.stats == ReaderStats::none()
        &&& self.connection_count == 0
        &&& self.is_running
    }

    /// A running reader without connections.
    pub fn new(config: &BatchConfig) -> (r: Self)
        ensures
            r.wf(),
            r.is_new(*config),
            r.timeout_model.base_timeout == config.read_timeout,
            r.timeout_model.current_timeout == config.read_timeout,
            r.connection_count == 0 && r.is_running,
            r.stats.total_bytes_read == 0 && r.stats.total_packets_read == 0
                && r.stats.error_count == 0
                && r.stats.timeout_count == 0,
    {
        BatchReader {
            packet_size_model: PacketSizeModel::new(SIZE_HISTORY),
            intensity_model: ReadIntensityModel::new(),
            timeout_model: ReadTimeoutModel::new(config.read_timeout),
            stats: ReaderStats::default(),
            connection_count: 0,
            is_running: true,
        }
    }

    /// Takes on a connection, unless nobody listens for events any more.
    pub fn register_connection(
        &mut self,
        source_addr: u64,
        session_id: Vec<u8>,
        channel_closed: bool,
    ) -> (r: Result<ConnectionReader, BatchError>)
        requires
            old(self).wf(),
            old(self).connection_count < usize::MAX,
        ensures
            final(self).wf(),
            r is Err <==> channel_closed,
            r matches Err(e) ==> e matches BatchError::ConnectionError(s) && s@
                == "Event channel closed"@,
            r matches Ok(c) ==> c.source_addr == source_addr && c.session_id == session_id
                && c.consecutive_errors == 0,
            final(self).connection_count == old(self).connection_count + if channel_closed {
                0int
            } else {
                1
            },
            final(self).packet_size_model == old(self).packet_size_model,
            final(self).intensity_model == old(self).intensity_model,
            final(self).timeout_model == old(self).timeout_model,
            final(self).stats == old(self).stats,
            final(self).is_running == old(self).is_running,
    {
        if channel_closed {
            return Err(BatchError::ConnectionError(String::from_str("Event channel closed")));
        }
        self.connection_count = self.connection_count + 1;
        Ok(ConnectionReader { source_addr, session_id, consecutive_errors: 0 })
    }

    /// What a read leads to. Data is counted, teaches the models and is handed
    /// on with its priority. An empty frame ends the connection; so does a
    /// lost connection and the tenth error in a row. Any other error is
    /// counted, and the connection is tried again.
    pub fn handle_read(
        &mut self,
        connection: &mut ConnectionReader,
        read: Result<Option<Vec<u8>>, BatchError>,
        read_time: u64,
        now: u64,
    ) -> (action: ReadAction)
        requires
            old(self).wf(),
            old(connection).consecutive_errors < MAX_CONSECUTIVE_ERRORS,
            old(self).stats.total_packets_read < u64::MAX,
            old(self).stats.timeout_count < u64::MAX,
            old(self).stats.error_count < u64::MAX,
            read matches Ok(Some(data)) ==> old(self).stats.total_bytes_read + data@.len()
                <= u64::MAX,
        ensures
            final(self).wf(),
            final(connection).source_addr == old(connection).source_addr,
            final(connection).session_id@ == old(connection).session_id@,
            final(self).connection_count == old(self).connection_count,
            final(self).is_running == old(self).is_running,
            match read {
                Ok(Some(data)) => {
                    &&& final(connection).consecutive_errors == 0
                    &&& action matches ReadAction::Deliver(
                        ReaderEvent::DataReady {
                            session_id,
                            data: d,
                            source_addr,
                            priority,
                            received_at,
                            size,
                        },
                    ) && session_id@ == old(connection).session_id@ && d == data && source_addr
                        == old(connection).source_addr && priority == priority_of(data@)
                        && received_at == now && size == data@.len()
                    &&& final(self).stats == (ReaderStats {
                        total_bytes_read: (old(self).stats.total_bytes_read + data@.len()) as u64,
                        total_packets_read: (old(self).stats.total_packets_read + 1) as u64,
                        ..old(self).stats
                    })
                    &&& final(self).packet_size_model.max_history == old(
                        self).packet_size_model.max_history
                    &&& final(self).packet_size_model.history@ == remembered(
                        old(self).packet_size_model.history@,
                        data@.len() as usize,
                        old(self).packet_size_model.max_history as nat,
                    )
                    &&& brought_up_to_date(
                        old(self).intensity_model.timestamps@.push(now),
                        remembered(
                            old(self).intensity_model.history@,
                            old(self).intensity_model.rate,
                            RATE_HISTORY as nat,
                        ),
                        old(self).intensity_model.peak_rate,
                        now,
                        final(self).intensity_model,
                    )
                    &&& has_learned(
                        old(self).timeout_model,
                        read_time,
                        final(self).timeout_model,
                    )
                },
                Ok(None) => {
                    &&& action is Stop
                    &&& final(connection).consecutive_errors == old(connection).consecutive_errors
                    &&& *final(self) == *old(self)
                },
                Err(e) => {
                    let last = old(connection).consecutive_errors + 1 >= MAX_CONSECUTIVE_ERRORS;
                    &&& final(connection).consecutive_errors == old(connection).consecutive_errors
                        + 1
                    &&& action is Stop <==> last || e is ConnectionClosed
                    &&& action is Retry <==> !(last || e is ConnectionClosed)
                    &&& final(self).packet_size_model == old(self).packet_size_model
                    &&& final(self).intensity_model == old(self).intensity_model
                    &&& final(self).timeout_model == old(self).timeout_model
                    &&& final(self).stats == if last || e is ConnectionClosed {
                        old(self).stats
                    } else if e is Timeout {
                        ReaderStats {
                            timeout_count: (old(self).stats.timeout_count + 1) as u64,
                            ..old(self).stats
                        }
                    } else {
                        ReaderStats {
                            error_count: (old(self).stats.error_count + 1) as u64,
                            ..old(self).stats
                        }
                    }
                },
            },
    {
        match read {
            Ok(Some(data)) => {
                connection.consecutive_errors = 0;
                let size: usize = data.len();
                let _estimate: bool = self.packet_size_model.update(size);
                self.intensity_model.add_read(now);
                self.intensity_model.update(now);
                self.timeout_model.update(read_time);
                self.stats.total_bytes_read = self.stats.total_bytes_read + size as u64;
                self.stats.total_packets_read = self.stats.total_packets_read + 1;
                let priority: Priority = Priority::from_byte(data.as_slice());
                ReadAction::Deliver(
                    ReaderEvent::DataReady {
                        session_id: vstd::slice::slice_to_vec(connection.session_id.as_slice()),
                        data,
                        source_addr: connection.source_addr,
                        priority,
                        received_at: now,
                        size,
                    },
                )
            },
            Ok(None) => ReadAction::Stop,
            Err(e) => {
                connection.consecutive_errors = connection.consecutive_errors + 1;
                if connection.consecutive_errors >= MAX_CONSECUTIVE_ERRORS {
                    return ReadAction::Stop;
                }
                match e {
                    BatchError::ConnectionClosed(_) => {
                        return ReadAction::Stop;
                    },
                    BatchError::Timeout => {
                        self.stats.timeout_count = self.stats.timeout_count + 1;
                    },
                    _ => {
                        self.stats.error_count = self.stats.error_count + 1;
                    },
                }
                ReadAction::Retry
            },
        }
    }

    /// A connection has ended: it is counted off, and the end is reported.
    pub fn finish_connection(&mut self, connection: &ConnectionReader) -> (event: ReaderEvent)
        requires
            old(self).wf(),
            old(self).connection_count > 0,
        ensures
            final(self).wf(),
            final(self).connection_count == old(self).connection_count - 1,
            final(self).packet_size_model == old(self).packet_size_model,
            final(self).intensity_model == old(self).intensity_model,
            final(self).timeout_model == old(self).timeout_model,
            final(self).stats == old(self).stats,
            final(self).is_running == old(self).is_running,
            event matches ReaderEvent::ConnectionClosed { source_addr, reason } && source_addr
                == connection.source_addr && reason@ == "Reader task finished"@,
    {
        self.connection_count = self.connection_count - 1;
        ReaderEvent::ConnectionClosed {
            source_addr: connection.source_addr,
            reason: String::from_str("Reader task finished"),
        }
    }

    /// The counters, with rate and read times brought up to date.
    pub fn get_stats(&mut self) -> (s: ReaderStats)
        requires
            old(self).wf(),
        ensures
            final(self).wf(),
            *final(self) == (BatchReader { stats: s, ..*old(self) }),
            s.total_bytes_read == old(self).stats.total_bytes_read,
            s.total_packets_read == old(self).stats.total_packets_read,
            s.timeout_count == old(self).stats.timeout_count,
            s.error_count == old(self).stats.error_count,
            s.read_rate == old(self).intensity_model.rate,
            s.connection_count == old(self).connection_count,
            ({
                let times = in_micros(old(self).timeout_model.read_times@);
                if times.len() == 0 {
                    &&& s.avg_read_time == old(self).stats.avg_read_time
                    &&& s.p95_read_time == old(self).stats.p95_read_time
                    &&& s.p99_read_time == old(self).stats.p99_read_time
                } else {
                    &&& s.avg_read_time == mean(times)
                    &&& is_percentile(times, 95, Some(s.p95_read_time))
                    &&& is_percentile(times, 99, Some(s.p99_read_time))
                }
            }),
    {
        self.stats.read_rate = self.intensity_model.rate;
        let times: Vec<u64> = micros_of(&to_list(&self.timeout_model.read_times));
        if let Some(p95) = percentile(&times, 95) {
            self.stats.avg_read_time = mean_u64(&times);
            self.stats.p95_read_time = p95;
        }
        if let Some(p99) = percentile(&times, 99) {
            self.stats.p99_read_time = p99;
        }
        self.stats.connection_count = self.connection_count;
        self.stats
    }

    /// Stops all connections at their next read.
    pub fn shutdown(&mut self)
        requires
            old(self).wf(),
        ensures
            final(self).wf(),
            *final(self) == (BatchReader { is_running: false, ..*old(self) }),
    {
        self.is_running = false;
    }
}

/// Only the reads of the last minute are counted: with the reads in order, the
/// rate is the number of those at most sixty seconds ago. The peak is the
/// highest rate so far, and the average that of the rates that are still
/// remembered; for every read that is forgotten, the oldest of these goes too.
pub proof fn rates_count_the_last_minute(
    timestamps: Seq<u64>,
    history: Seq<u64>,
    peak_rate: u64,
    now: u64,
    after: ReadIntensityModel,
)
    requires
        brought_up_to_date(timestamps, history, peak_rate, now, after),
        forall|i: int, j: int| 0 <= i <= j < timestamps.len() ==> timestamps[i] <= timestamps[j],
    ensures
        after.timestamps@ == timestamps.filter(|t: u64| now - t <= 60_000_000_000),
        after.rate == timestamps.filter(|t: u64| now - t <= 60_000_000_000).len(),
        after.peak_rate >= peak_rate && after.peak_rate >= after.rate,
        after.peak_rate == peak_rate || after.peak_rate == after.rate,
        ({
            let gone = timestamps.len() - after.rate;
            &&& gone <= history.len() ==> after.history@ == history.skip(gone)
            &&& gone >= history.len() ==> after.history@.len() == 0
        }),
        after.history@.len() > 0 ==> after.avg_rate * after.history@.len()
            <= after.history@.fold_left(0nat, |n: nat, x: u64| n + x as nat) < (after.avg_rate + 1)
            * after.history@.len(),
{
    let fresh = |t: u64| now - t <= 60_000_000_000;
    let n = expired_prefix(timestamps, now) as int;
    expired_reads_are_old(timestamps, now);
    let (left, right) = (timestamps.take(n), timestamps.skip(n));
    assert(timestamps =~= left + right);
    Seq::filter_distributes_over_add(left, right, fresh);
    none_pass(left, fresh);
    assert forall|i: int| 0 <= i < right.len() implies fresh(#[trigger] right[i]) by {
        assert(timestamps[n] <= timestamps[n + i]);
    }
    all_pass(right, fresh);
    assert(timestamps.filter(fresh) =~= right);
    means_share_the_sum(after.history@);
}

proof fn expired_reads_are_old(times: Seq<u64>, now: u64)
    ensures
        expired_prefix(times, now) <= times.len(),
        forall|i: int|
            0 <= i < expired_prefix(times, now) ==> now - #[trigger] times[i] > 60_000_000_000,
        expired_prefix(times, now) < times.len() ==> now - times[expired_prefix(times, now) as int]
            <= 60_000_000_000,
    decreases times.len(),
{
    if times.len() > 0 && now - times[0] > RATE_WINDOW {
        expired_reads_are_old(times.skip(1), now);
        let n = expired_prefix(times.skip(1), now) as int;
        assert forall|i: int| 0 <= i < n + 1 implies now - #[trigger] times[i]
            > 60_000_000_000 by {
            if i > 0 {
                assert(times.skip(1)[i - 1] == times[i]);
            }
        }
        if n < times.skip(1).len() {
            assert(times.skip(1)[n] == times[n + 1]);
        }
    }
}

/// How reads move the timeout: one that took as long as the timeout teaches
/// nothing, and neither do the first nine. From then on the 95th percentile of
/// the last hundred read times, in whole milliseconds and one half longer, is
/// the target, at least five seconds; a target above the timeout draws it three
/// tenths of the way up, within five and thirty seconds. Nothing draws it down.
pub proof fn slow_reads_raise_the_timeout(
    before: ReadTimeoutModel,
    read_time: u64,
    after: ReadTimeoutModel,
    p95: u64,
)
    requires
        before.wf(),
        has_learned(before, read_time, after),
    ensures
        read_time >= before.current_timeout ==> after == before,
        read_time < before.current_timeout ==> {
            let times = before.read_times@.push(read_time);
            &&& before.read_times@.len() < 100 ==> after.read_times@ == times
            &&& before.read_times@.len() == 100 ==> after.read_times@ == times.skip(1)
            &&& before.read_times@.len() < 9 ==> after.current_timeout == before.current_timeout
            &&& before.read_times@.len() >= 9 && is_percentile(
                after.read_times@.map_values(|t: u64| (t / 1_000_000) as u64),
                95,
                Some(p95),
            ) ==> {
                let target = if p95 * 3 / 2 > 5000 {
                    p95 * 3 / 2
                } else {
                    5000
                };
                let now = before.current_timeout as int / 1_000_000;
                let moved = (7 * now + 3 * target) / 10;
                &&& target <= now ==> after.current_timeout == before.current_timeout
                &&& target > now && moved < 5000 ==> after.current_timeout == 5_000_000_000
                &&& target > now && moved > 30_000 ==> after.current_timeout == 30_000_000_000
                &&& target > now && 5000 <= moved <= 30_000 ==> after.current_timeout == moved
                    * 1_000_000
            }
        },
{
    if read_time < before.current_timeout && before.read_times@.len() >= 9 && is_percentile(
        after.read_times@.map_values(|t: u64| (t / 1_000_000) as u64),
        95,
        Some(p95),
    ) {
        let times = in_millis(after.read_times@);
        assert(times =~= after.read_times@.map_values(|t: u64| (t / 1_000_000) as u64));
        let p = choose|p: u64| #[trigger]
            is_percentile(times, 95, Some(p)) && after.current_timeout == adapted(
                before.current_timeout,
                p,
                before.max_timeout,
            );
        percentiles_are_unique(times, 95, p, p95);
    }
}

} // verus!
