//! Priorities of packets and tasks.

use vstd::prelude::*;

verus! {

/// How urgent a packet or task is, most urgent first.
#[derive(Debug, Clone, Copy, PartialEq, Eq, PartialOrd, Ord, Hash, Structural)]
pub enum Priority {
    /// Heartbeats, pings and control commands.
    Critical,
    /// Important data.
    High,
    /// Ordinary traffic.
    Normal,
    /// Background tasks.
    Low,
    /// Operations that can wait.
    Background,
}

/// Resets the colour of a terminal.
pub const ANSI_RESET: &'static str = "\x1b[0m";

/// The number of priority levels.
pub const PRIORITY_LEVELS: usize = 5;

/// Whether a type byte is that of a ping or a heartbeat.
pub open spec fn is_control_byte(b: u8) -> bool {
    b == 0x01 || b == 0x10
}

/// The priority of a raw message: control messages first, then short ones;
/// long ones come last. An empty message is ordinary traffic.
pub open spec fn priority_of(data: Seq<u8>) -> Priority {
    if data.len() == 0 {
        Priority::Normal
    } else if is_control_byte(data[0]) {
        Priority::Critical
    } else if data.len() <= 64 {
        Priority::High
    } else if data.len() > 1024 {
        Priority::Low
    } else {
        Priority::Normal
    }
}

impl Priority {
    /// Position in the order of urgency, starting at zero.
    pub open spec fn rank(self) -> int {
        match self {
            Priority::Critical => 0,
            Priority::High => 1,
            Priority::Normal => 2,
            Priority::Low => 3,
            Priority::Background => 4,
        }
    }

    /// Position in the order of urgency, starting at zero.
    pub fn level(&self) -> (n: u8)
        ensures
            n == self.rank(),
            n < PRIORITY_LEVELS,
    {
        match self {
            Priority::Critical => 0,
            Priority::High => 1,
            Priority::Normal => 2,
            Priority::Low => 3,
            Priority::Background => 4,
        }
    }

    /// The priority of a raw message.
    pub fn from_byte(data: &[u8]) -> (p: Self)
        ensures
            p == priority_of(data@),
            data@.len() > 0 && (data@[0] == 0x01 || data@[0] == 0x10) <==> p == Priority::Critical,
            data@.len() > 1024 && data@[0] != 0x01 && data@[0] != 0x10 <==> p == Priority::Low,
            0 < data@.len() <= 64 && data@[0] != 0x01 && data@[0] != 0x10 <==> p == Priority::High,
            p != Priority::Background,
    {
        if data.len() == 0 {
            return Priority::Normal;
        }
        match data[0] {
            0x01 | 0x10 => Priority::Critical,
            _ => {
                if data.len() <= 64 {
                    Priority::High
                } else if data.len() > 1024 {
                    Priority::Low
                } else {
                    Priority::Normal
                }
            },
        }
    }

    /// Whether this is the most urgent level.
    pub fn is_critical(&self) -> (r: bool)
        ensures
            r == (*self == Priority::Critical),
    {
        matches!(self, Priority::Critical)
    }

    /// The priority with the given position, if there is one.
    pub fn from_u8(value: u8) -> (r: Option<Self>)
        ensures
            r is Some <==> value < PRIORITY_LEVELS,
            r matches Some(p) ==> p.rank() == value,
    {
        match value {
            0 => Some(Priority::Critical),
            1 => Some(Priority::High),
            2 => Some(Priority::Normal),
            3 => Some(Priority::Low),
            4 => Some(Priority::Background),
            _ => None,
        }
    }

    /// The longest latency, in milliseconds, at which work of this priority
    /// keeps its full utility.
    pub open spec fn latency_bound_ms(self) -> u64 {
        match self {
            Priority::Critical => 10,
            Priority::High => 50,
            Priority::Normal => 100,
            Priority::Low => 200,
            Priority::Background => 500,
        }
    }

    /// The latency bound of this priority, in milliseconds.
    pub fn max_latency_ms(&self) -> (ms: u64)
        ensures
            ms == self.latency_bound_ms(),
    {
        match self {
            Priority::Critical => 10,
            Priority::High => 50,
            Priority::Normal => 100,
            Priority::Low => 200,
            Priority::Background => 500,
        }
    }
}

/// The position of a priority is how many are more urgent.
pub proof fn ranks_count_the_more_urgent()
    ensures
        Priority::Critical.rank() == 0,
        Priority::High.rank() == 1,
        Priority::Normal.rank() == 2,
        Priority::Low.rank() == 3,
        Priority::Background.rank() == 4,
{
}

/// Of two messages that begin alike the shorter is never the less urgent;
/// control messages are critical, however long.
pub proof fn short_messages_come_first(a: Seq<u8>, b: Seq<u8>)
    requires
        0 < a.len() <= b.len(),
        a[0] == b[0],
    ensures
        priority_of(a).rank() <= priority_of(b).rank(),
        a[0] == 0x01 || a[0] == 0x10 ==> priority_of(a) == Priority::Critical && priority_of(b)
            == Priority::Critical,
{
}

/// Priorities with the same position are the same priority.
pub proof fn rank_is_injective(a: Priority, b: Priority)
    requires
        a.rank() == b.rank(),
    ensures
        a == b,
{
}

/// A less urgent priority tolerates a longer latency.
pub proof fn latency_bounds_follow_urgency(a: Priority, b: Priority)
    requires
        a.rank() < b.rank(),
    ensures
        a.latency_bound_ms() < b.latency_bound_ms(),
{
}

} // verus!
