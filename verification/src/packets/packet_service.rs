//! What the server answers to a packet.

use std::sync::Arc;
use vstd::prelude::*;
use vstd::string::*;
use vstd::utf8::*;

use crate::packets::packet_parser::PacketType;
use crate::text::{decimal, decimal_string};

verus! {

/// The answer to a packet.
#[derive(Debug)]
pub struct PacketProcessingResult {
    pub response: Vec<u8>,
    pub should_encrypt: bool,
}

/// Answers packets. Whether a session exists is for the session manager to
/// say.
#[derive(Debug)]
pub struct PacketService<S> {
    pub session_manager: Arc<S>,
}

/// The name of a packet kind.
pub open spec fn kind_name(t: PacketType) -> Seq<char> {
    match t {
        PacketType::Ping => "Ping"@,
        PacketType::Heartbeat => "Heartbeat"@,
        PacketType::Unknown(n) => "Unknown("@ + decimal(n as nat) + ")"@,
    }
}

/// The bytes of a text.
pub open spec fn text_bytes(text: Seq<char>) -> Seq<u8> {
    encode_utf8(text)
}

/// The answer to a packet: nothing to a ping; whether the session is known to
/// a heartbeat; a remark to anything else.
pub open spec fn answer(t: PacketType, session_known: bool) -> Seq<u8> {
    match t {
        PacketType::Ping => Seq::empty(),
        PacketType::Heartbeat => if session_known {
            text_bytes("Heartbeat acknowledged"@)
        } else {
            text_bytes("Session not found"@)
        },
        PacketType::Unknown(_) => text_bytes("Unknown packet type: "@ + kind_name(t)),
    }
}

impl<S> PacketService<S> {
    /// A service over a session manager.
    pub fn new(session_manager: Arc<S>) -> (s: Self)
        ensures
            s.session_manager == session_manager,
    {
        PacketService { session_manager }
    }

    /// Whether the session manager is to be asked for the session: for
    /// heartbeats.
    pub fn needs_session(packet_type: PacketType) -> (r: bool)
        ensures
            r == (packet_type == PacketType::Heartbeat),
    {
        matches!(packet_type, PacketType::Heartbeat)
    }

    /// The answer to a packet, which is to be encrypted. `session_known` says
    /// whether the session manager knows the session; it matters to heartbeats
    /// alone.
    pub fn process_packet(&self, packet_type: PacketType, session_known: bool) -> (r:
        PacketProcessingResult)
        ensures
            r.response@ == answer(packet_type, session_known),
            packet_type == PacketType::Ping ==> r.response@.len() == 0,
            packet_type == PacketType::Heartbeat && session_known ==> r.response@ == encode_utf8(
                "Heartbeat acknowledged"@,
            ),
            packet_type == PacketType::Heartbeat && !session_known ==> r.response@ == encode_utf8(
                "Session not found"@,
            ),
            packet_type matches PacketType::Unknown(n) ==> r.response@ == encode_utf8(
                "Unknown packet type: "@ + ("Unknown("@ + decimal(n as nat) + ")"@),
            ),
            r.should_encrypt,
    {
        let response: Vec<u8> = match packet_type {
            PacketType::Ping => self.handle_ping(),
            PacketType::Heartbeat => self.handle_heartbeat(session_known),
            PacketType::Unknown(_) => self.handle_unknown_packet(packet_type),
        };
        PacketProcessingResult { response, should_encrypt: true }
    }

    fn handle_ping(&self) -> (r: Vec<u8>)
        ensures
            r@ == Seq::<u8>::empty(),
    {
        Vec::new()
    }

    fn handle_heartbeat(&self, session_known: bool) -> (r: Vec<u8>)
        ensures
            r@ == answer(PacketType::Heartbeat, session_known),
    {
        if session_known {
            "Heartbeat acknowledged".as_bytes_vec()
        } else {
            "Session not found".as_bytes_vec()
        }
    }

    fn handle_unknown_packet(&self, packet_type: PacketType) -> (r: Vec<u8>)
        ensures
            r@ == text_bytes("Unknown packet type: "@ + kind_name(packet_type)),
    {
        let name: String = match packet_type {
            PacketType::Ping => String::from_str("Ping"),
            PacketType::Heartbeat => String::from_str("Heartbeat"),
            PacketType::Unknown(n) => String::from_str("Unknown(").concat(
                decimal_string(n as u64).as_str(),
            ).concat(")"),
        };
        let text: String = String::from_str("Unknown packet type: ").concat(name.as_str());
        text.as_str().as_bytes_vec()
    }
}

} // verus!
