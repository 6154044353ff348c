//! The packet types the batch system handles, and what is known of each.

use vstd::prelude::*;
use vstd::string::*;

use crate::text::{hex_byte, hex_byte_string};
use crate::types::priority::{Priority, priority_of};

verus! {

/// A packet type the batch system handles.
#[derive(Debug, Clone, Copy, PartialEq, Eq, Hash, Structural)]
pub enum PacketType {
    Ping,
    Heartbeat,
}

/// The packet type of a type byte, if it is a supported one.
pub open spec fn supported_type(byte: u8) -> Option<PacketType> {
    if byte == 0x01 {
        Some(PacketType::Ping)
    } else if byte == 0x10 {
        Some(PacketType::Heartbeat)
    } else {
        None
    }
}

impl PacketType {
    /// The type byte on the wire.
    pub open spec fn wire_byte(self) -> u8 {
        match self {
            PacketType::Ping => 0x01,
            PacketType::Heartbeat => 0x10,
        }
    }

    /// The type byte on the wire.
    pub fn code(&self) -> (b: u8)
        ensures
            b == self.wire_byte(),
            supported_type(b) == Some(*self),
            self is Ping <==> b == 0x01,
            self is Heartbeat <==> b == 0x10,
    {
        match self {
            PacketType::Ping => 0x01,
            PacketType::Heartbeat => 0x10,
        }
    }

    /// All supported packet types.
    pub fn all_supported() -> (types: Vec<PacketType>)
        ensures
            types@ == seq![PacketType::Ping, PacketType::Heartbeat],
            forall|t: PacketType| types@.contains(t),
    {
        let types: Vec<PacketType> = vec![PacketType::Ping, PacketType::Heartbeat];
        proof {
            assert forall|t: PacketType| types@.contains(t) by {
                match t {
                    PacketType::Ping => assert(types@[0] == t),
                    PacketType::Heartbeat => assert(types@[1] == t),
                }
            }
        }
        types
    }

    /// Pings and heartbeats are critical.
    pub fn priority(&self) -> (p: Priority)
        ensures
            p == Priority::Critical,
    {
        match self {
            PacketType::Ping | PacketType::Heartbeat => Priority::Critical,
        }
    }

    /// Pings and heartbeats are sent at once.
    pub fn requires_immediate_flush(&self) -> (r: bool)
        ensures
            r,
    {
        matches!(self, PacketType::Ping | PacketType::Heartbeat)
    }

    /// The usual packet size in bytes.
    pub fn typical_size(&self) -> (n: usize)
        ensures
            n == match *self {
                PacketType::Ping => 64int,
                PacketType::Heartbeat => 32int,
            },
    {
        match self {
            PacketType::Ping => 64,
            PacketType::Heartbeat => 32,
        }
    }

    /// The longest acceptable processing time, in milliseconds.
    pub fn max_processing_time(&self) -> (ms: u64)
        ensures
            ms == match *self {
                PacketType::Ping => 10int,
                PacketType::Heartbeat => 50int,
            },
    {
        match self {
            PacketType::Ping => 10,
            PacketType::Heartbeat => 50,
        }
    }

    /// The packet type of a type byte, if it is a supported one.
    pub fn from_byte(byte: u8) -> (r: Option<Self>)
        ensures
            r == supported_type(byte),
            r == Some(PacketType::Ping) <==> byte == 0x01,
            r == Some(PacketType::Heartbeat) <==> byte == 0x10,
    {
        match byte {
            0x01 => Some(PacketType::Ping),
            0x10 => Some(PacketType::Heartbeat),
            _ => None,
        }
    }

    /// What the packet is for.
    pub open spec fn purpose(self) -> Seq<char> {
        match self {
            PacketType::Ping => "Ping request"@,
            PacketType::Heartbeat => "Heartbeat signal"@,
        }
    }

    /// What the packet is for.
    pub fn description(&self) -> (s: &'static str)
        ensures
            s@ == self.purpose(),
    {
        match self {
            PacketType::Ping => "Ping request",
            PacketType::Heartbeat => "Heartbeat signal",
        }
    }

    /// Type byte and purpose, such as `0x01 (Ping request)`.
    pub fn display(&self) -> (s: String)
        ensures
            s@ == "0x"@ + hex_byte(self.wire_byte()) + " ("@ + self.purpose() + ")"@,
    {
        String::from_str("0x").concat(hex_byte_string(self.code()).as_str()).concat(" (").concat(
            self.description(),
        ).concat(")")
    }
}

/// What is known of a supported packet type.
#[derive(Debug, Clone)]
pub struct PacketInfo {
    pub packet_type: PacketType,
    pub priority: Priority,
    pub requires_flush: bool,
    pub description: &'static str,
    pub typical_size: usize,
    pub max_processing_time_ms: u64,
}

/// The entry of a type byte in the table of supported packets.
pub fn packet_info(byte: u8) -> (r: Option<PacketInfo>)
    ensures
        r is Some <==> supported_type(byte) is Some,
        r matches Some(info) ==> {
            &&& Some(info.packet_type) == supported_type(byte)
            &&& info.priority == Priority::Critical
            &&& info.requires_flush
            &&& info.description@ == info.packet_type.purpose()
            &&& info.typical_size == (if byte == 0x01 { 64int } else { 32int })
            &&& info.max_processing_time_ms == (if byte == 0x01 { 10int } else { 50int })
        },
{
    match PacketType::from_byte(byte) {
        Some(packet_type) => Some(
            PacketInfo {
                packet_type,
                priority: packet_type.priority(),
                requires_flush: packet_type.requires_immediate_flush(),
                description: packet_type.description(),
                typical_size: packet_type.typical_size(),
                max_processing_time_ms: packet_type.max_processing_time(),
            },
        ),
        None => None,
    }
}

/// Whether a type byte is that of a supported packet.
pub fn is_packet_supported(byte: u8) -> (r: bool)
    ensures
        r == supported_type(byte) is Some,
        r <==> byte == 0x01 || byte == 0x10,
{
    packet_info(byte).is_some()
}

/// The priority of a supported packet.
pub fn get_packet_priority(byte: u8) -> (r: Option<Priority>)
    ensures
        r is Some <==> supported_type(byte) is Some,
        r matches Some(p) ==> p == Priority::Critical,
{
    match packet_info(byte) {
        Some(info) => Some(info.priority),
        None => None,
    }
}

/// How a reply to a packet of the given type is sent: its priority and whether
/// it is flushed at once. Unsupported types are ordinary, unhurried traffic.
pub open spec fn reply_class(byte: u8) -> (Priority, bool) {
    if supported_type(byte) is Some {
        (Priority::Critical, true)
    } else {
        (Priority::Normal, false)
    }
}

/// How a reply to a packet of the given type is sent.
pub fn reply_handling(byte: u8) -> (r: (Priority, bool))
    ensures
        r == reply_class(byte),
        byte == 0x01 || byte == 0x10 ==> r.0 is Critical && r.1,
        byte != 0x01 && byte != 0x10 ==> r.0 is Normal && !r.1,
{
    let priority: Priority = match get_packet_priority(byte) {
        Some(p) => p,
        None => Priority::Normal,
    };
    let flush: bool = match PacketType::from_byte(byte) {
        Some(packet_type) => packet_type.requires_immediate_flush(),
        None => false,
    };
    (priority, flush)
}

/// A message that starts with a supported type byte has the priority of that
/// packet type, whatever its length.
pub proof fn message_priority_matches_packet_type(data: Seq<u8>)
    requires
        data.len() > 0,
        supported_type(data[0]) is Some,
    ensures
        priority_of(data) == reply_class(data[0]).0,
{
}

} // verus!
