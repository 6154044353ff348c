//! From a packet to its answer.

use vstd::prelude::*;
use vstd::string::*;

use crate::crypto::session_keys::SessionKeys;
use crate::packets::packet_parser::{PacketType, failure_text, packet_type_of};
use crate::packets::packet_service::{
    PacketProcessingResult, PacketService, answer, kind_name, text_bytes,
};
use crate::packets::pipeline::{DecryptionStage, EncryptionStage, PipelineContext, is_sealed};
use crate::packets::wire_format::{
    DecodeFailure, MAX_FRAMED_PLAINTEXT, RESERVED_PACKET_TYPE, decoded,
};
use crate::text::decimal;
use crate::types::priority::Priority;

verus! {

/// Packets that wait for a worker, at most.
pub const WORK_QUEUE: usize = 65536;

/// The type of the answer to a packet that is too short to have one.
pub const FALLBACK_PACKET_TYPE: u8 = 0x10;

/// A packet that waits for its answer.
#[derive(Debug)]
pub struct Work {
    pub ctx: SessionKeys,
    pub raw_payload: Vec<u8>,
    pub client_ip: u64,
    pub received_at: u64,
    pub priority: Priority,
    pub is_large: bool,
}

/// The type of the answer to a packet: that of the packet itself.
pub open spec fn answer_type(raw: Seq<u8>) -> u8 {
    if raw.len() >= 5 {
        raw[4]
    } else {
        FALLBACK_PACKET_TYPE
    }
}

/// Whether `out` answers the packet `raw`: a packet of the same type that
/// holds the answer, or a remark on why the packet cannot be opened.
pub open spec fn is_answer(
    keys: SessionKeys,
    raw: Seq<u8>,
    session_known: bool,
    out: Seq<u8>,
) -> bool {
    match decoded(keys.sign_key@, keys.aead_key@, raw) {
        Ok((t, _)) => is_sealed(
            keys,
            answer_type(raw),
            answer(packet_type_of(t), session_known),
            out,
        ),
        Err(failure) => out == text_bytes(
            "Processing error: "@ + ("Decryption failed: "@ + failure_text(failure, raw)),
        ),
    }
}

/// A packet that was opened and waits to be answered.
#[derive(Debug)]
pub struct OpenedWork {
    pub context: PipelineContext,
    pub packet_type: u8,
    pub response_type: u8,
}

/// What the opening of a packet comes to.
#[derive(Debug)]
pub enum WorkStep {
    /// Nobody waits for an answer.
    Nobody,
    /// It cannot be opened; this is the answer.
    Refused(Vec<u8>),
    Opened(OpenedWork),
}

/// Answers packets.
#[derive(Debug)]
pub struct Dispatcher<S> {
    pub num_workers: usize,
    pub packet_service: PacketService<S>,
}

impl<S> Dispatcher<S> {
    /// A dispatcher over a packet service.
    pub fn spawn(num_workers: usize, packet_service: PacketService<S>) -> (d: Self)
        ensures
            d.num_workers == num_workers,
            d.packet_service == packet_service,
    {
        Dispatcher { num_workers, packet_service }
    }

    /// The packet service.
    pub fn get_packet_service(&self) -> (s: &PacketService<S>)
        ensures
            *s == self.packet_service,
    {
        &self.packet_service
    }

    /// The answer to a packet that was opened elsewhere, not sealed.
    pub fn process_directly(&self, packet_type: u8, session_known: bool) -> (r: Vec<u8>)
        ensures
            r@ == answer(packet_type_of(packet_type), session_known),
    {
        let result: PacketProcessingResult = self.packet_service.process_packet(
            PacketType::from(packet_type),
            session_known,
        );
        result.response
    }

    /// The type of the answer to a packet.
    pub fn response_packet_type(raw: &[u8]) -> (t: u8)
        ensures
            t == answer_type(raw@),
            raw@.len() >= 5 ==> t == raw@[4],
            raw@.len() < 5 ==> t == 0x10,
    {
        if raw.len() >= 5 {
            raw[4]
        } else {
            FALLBACK_PACKET_TYPE
        }
    }

    /// Opens a packet, unless nobody waits for its answer any more. Whoever
    /// gets an opened packet asks the session manager where the type calls for
    /// it, and then has it answered.
    pub fn open_work(&self, work: Work, reply_closed: bool) -> (step: WorkStep)
        ensures
            if reply_closed {
                step is Nobody
            } else {
                match decoded(work.ctx.sign_key@, work.ctx.aead_key@, work.raw_payload@) {
                    Ok((t, plaintext)) => step matches WorkStep::Opened(o) && o.packet_type == t
                        && o.response_type == answer_type(work.raw_payload@)
                        && o.context.session_keys == work.ctx && (o.context.decrypted_data matches
                        Some(d) && d@ == plaintext),
                    Err(failure) => step matches WorkStep::Refused(text) && text@ == text_bytes(
                        "Processing error: "@ + ("Decryption failed: "@ + failure_text(
                            failure,
                            work.raw_payload@,
                        )),
                    ),
                }
            },
    {
        if reply_closed {
            return WorkStep::Nobody;
        }
        let response_type: u8 = Self::response_packet_type(work.raw_payload.as_slice());
        let mut context: PipelineContext = PipelineContext::new(work.ctx, work.raw_payload);
        match (DecryptionStage).execute(&mut context) {
            Ok(()) => {},
            Err(e) => {
                let text: String = String::from_str("Processing error: ").concat(
                    e.message().as_str(),
                );
                return WorkStep::Refused(text.as_str().as_bytes_vec());
            },
        }
        match context.packet_type {
            Some(packet_type) => {
                WorkStep::Opened(OpenedWork { context, packet_type, response_type })
            },
            None => WorkStep::Nobody,
        }
    }

    /// Answers a packet that was opened, and seals the answer. Whoever has the
    /// keys can open it, unless its type is reserved.
    pub fn answer_work(&self, opened: OpenedWork, session_known: bool) -> (out: Vec<u8>)
        ensures
            is_sealed(
                opened.context.session_keys,
                opened.response_type,
                answer(packet_type_of(opened.packet_type), session_known),
                out@,
            ),
            opened.response_type != RESERVED_PACKET_TYPE ==> decoded(
                opened.context.session_keys.sign_key@,
                opened.context.session_keys.aead_key@,
                out@,
            ) == Ok::<(u8, Seq<u8>), DecodeFailure>(
                (
                    opened.response_type,
                    answer(packet_type_of(opened.packet_type), session_known),
                ),
            ),
    {
        let mut context: PipelineContext = opened.context;
        let response: Vec<u8> = self.process_directly(opened.packet_type, session_known);
        proof {
            answers_are_short(packet_type_of(opened.packet_type), session_known);
        }
        context.processed_data = Some(response);
        match EncryptionStage::new(opened.response_type).execute(&mut context) {
            Ok(()) => {},
            Err(_e) => {},
        }
        match context.encrypted_response {
            Some(out) => out,
            None => Vec::new(),
        }
    }

    /// Opens, answers and seals, for a session of which it is known beforehand
    /// whether the session manager knows it. There is no answer where nobody
    /// waits for it any more. Whoever sent a packet that can be opened can open
    /// the answer.
    pub fn process_work(
        &self,
        work: Work,
        reply_closed: bool,
        session_known: bool,
    ) -> (r: Option<Vec<u8>>)
        ensures
            r is None <==> reply_closed,
            r matches Some(out) ==> is_answer(work.ctx, work.raw_payload@, session_known, out@),
            r matches Some(out) ==> match decoded(
                work.ctx.sign_key@,
                work.ctx.aead_key@,
                work.raw_payload@,
            ) {
                Ok((t, _)) => decoded(work.ctx.sign_key@, work.ctx.aead_key@, out@) == Ok::<
                    (u8, Seq<u8>),
                    DecodeFailure,
                >((t, answer(packet_type_of(t), session_known))),
                Err(_) => true,
            },
    {
        match self.open_work(work, reply_closed) {
            WorkStep::Nobody => None,
            WorkStep::Refused(text) => Some(text),
            WorkStep::Opened(opened) => Some(self.answer_work(opened, session_known)),
        }
    }
}

proof fn text_bytes_bounded(text: Seq<char>)
    ensures
        text_bytes(text).len() <= 4 * text.len(),
    decreases text.len(),
{
    if text.len() > 0 {
        text_bytes_bounded(text.drop_first());
    }
}

proof fn answers_are_short(t: PacketType, session_known: bool)
    ensures
        answer(t, session_known).len() <= MAX_FRAMED_PLAINTEXT,
{
    reveal_strlit("Heartbeat acknowledged");
    reveal_strlit("Session not found");
    reveal_strlit("Unknown packet type: ");
    reveal_strlit("Unknown(");
    reveal_strlit(")");
    text_bytes_bounded("Heartbeat acknowledged"@);
    text_bytes_bounded("Session not found"@);
    text_bytes_bounded("Unknown packet type: "@ + kind_name(t));
    if let PacketType::Unknown(n) = t {
        reveal_with_fuel(decimal, 4);
        assert(decimal(n as nat).len() <= 3);
    }
}

} // verus!
