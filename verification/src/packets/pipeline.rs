//! The stages that a packet passes through on its way to the answer.

use std::sync::Arc;
use vstd::prelude::*;
use vstd::string::*;

use crate::crypto::session_keys::SessionKeys;
use crate::error::ProtocolError;
use crate::packets::packet_builder::{PacketBuilder, sealable};
use crate::packets::packet_parser::{PacketParser, failure_text, failures_read_alike};
use crate::packets::wire_format::{
    DecodeFailure, MAX_FRAMED_PLAINTEXT, RESERVED_PACKET_TYPE, decoded, packet_bytes,
};

verus! {

/// Why a stage failed.
#[derive(Debug)]
pub enum StageError {
    DecryptionFailed(String),
    EncryptionFailed(String),
}

impl StageError {
    /// The text of the error.
    pub open spec fn text(self) -> Seq<char> {
        match self {
            StageError::DecryptionFailed(s) => "Decryption failed: "@ + s@,
            StageError::EncryptionFailed(s) => "Encryption failed: "@ + s@,
        }
    }

    /// Renders the error.
    pub fn message(&self) -> (s: String)
        ensures
            s@ == self.text(),
    {
        match self {
            StageError::DecryptionFailed(s) => String::from_str("Decryption failed: ").concat(
                s.as_str(),
            ),
            StageError::EncryptionFailed(s) => String::from_str("Encryption failed: ").concat(
                s.as_str(),
            ),
        }
    }
}

/// What the stages hand on.
#[derive(Debug)]
pub struct PipelineContext {
    pub session_keys: SessionKeys,
    pub raw_payload: Vec<u8>,
    pub packet_type: Option<u8>,
    pub decrypted_data: Option<Vec<u8>>,
    pub processed_data: Option<Vec<u8>>,
    pub encrypted_response: Option<Vec<u8>>,
}

impl PipelineContext {
    /// A packet as it came in.
    pub fn new(session_keys: SessionKeys, raw_payload: Vec<u8>) -> (c: Self)
        ensures
            c == (PipelineContext {
                session_keys,
                raw_payload,
                packet_type: None,
                decrypted_data: None,
                processed_data: None,
                encrypted_response: None,
            }),
    {
        PipelineContext {
            session_keys,
            raw_payload,
            packet_type: None,
            decrypted_data: None,
            processed_data: None,
            encrypted_response: None,
        }
    }
}

/// Opens the packet.
#[derive(Debug, Clone, Copy)]
pub struct DecryptionStage;

impl DecryptionStage {
    /// Opens the packet: its type and plaintext, or the reason why it cannot
    /// be opened.
    pub fn execute(&self, context: &mut PipelineContext) -> (r: Result<(), StageError>)
        ensures
            ({
                let keys = old(context).session_keys;
                match decoded(keys.sign_key@, keys.aead_key@, old(context).raw_payload@) {
                    Ok((t, plaintext)) => {
                        &&& r is Ok
                        &&& final(context).decrypted_data matches Some(d) && d@ == plaintext
                        &&& *final(context) == (PipelineContext {
                            packet_type: Some(t),
                            decrypted_data: final(context).decrypted_data,
                            ..*old(context)
                        })
                    },
                    Err(failure) => {
                        &&& r matches Err(StageError::DecryptionFailed(s)) && s@ == failure_text(
                            failure,
                            old(context).raw_payload@,
                        )
                        &&& *final(context) == *old(context)
                    },
                }
            }),
    {
        match PacketParser::decode_packet(&context.session_keys, context.raw_payload.as_slice()) {
            Ok((packet_type, data)) => {
                context.packet_type = Some(packet_type);
                context.decrypted_data = Some(data);
                Ok(())
            },
            Err(e) => {
                proof {
                    let keys = context.session_keys;
                    match decoded(keys.sign_key@, keys.aead_key@, context.raw_payload@) {
                        Err(failure) => {
                            failures_read_alike(e, failure, context.raw_payload@);
                        },
                        Ok(_) => {},
                    }
                }
                Err(StageError::DecryptionFailed(e.message()))
            },
        }
    }
}

/// Seals the answer.
#[derive(Debug, Clone, Copy)]
pub struct EncryptionStage {
    pub response_packet_type: u8,
}

impl EncryptionStage {
    /// A stage that answers with packets of a type.
    pub fn new(response_packet_type: u8) -> (s: Self)
        ensures
            s.response_packet_type == response_packet_type,
    {
        EncryptionStage { response_packet_type }
    }

    /// Seals the answer under a random nonce. There must be one; it is taken
    /// out of the context. Whoever has the keys can open the packet, unless
    /// the answer is too long for one or the type is reserved.
    pub fn execute(&self, context: &mut PipelineContext) -> (r: Result<(), StageError>)
        requires
            old(context).processed_data matches Some(d) ==> sealable(d@.len()),
        ensures
            match old(context).processed_data {
                Some(d) => {
                    &&& r is Ok
                    &&& final(context).encrypted_response matches Some(out) && is_sealed(
                        old(context).session_keys,
                        self.response_packet_type,
                        d@,
                        out@,
                    ) && (d@.len() <= MAX_FRAMED_PLAINTEXT && self.response_packet_type
                        != RESERVED_PACKET_TYPE ==> decoded(
                        old(context).session_keys.sign_key@,
                        old(context).session_keys.aead_key@,
                        out@,
                    ) == Ok::<(u8, Seq<u8>), DecodeFailure>((self.response_packet_type, d@)))
                    &&& *final(context) == (PipelineContext {
                        processed_data: None,
                        encrypted_response: final(context).encrypted_response,
                        ..*old(context)
                    })
                },
                None => {
                    &&& r matches Err(StageError::EncryptionFailed(s)) && s@
                        == "No processed data available"@
                    &&& *final(context) == *old(context)
                },
            },
    {
        match context.processed_data.take() {
            Some(data) => {
                let out: Vec<u8> = PacketBuilder::build_encrypted_packet(
                    &context.session_keys,
                    self.response_packet_type,
                    data.as_slice(),
                );
                context.encrypted_response = Some(out);
                Ok(())
            },
            None => Err(
                StageError::EncryptionFailed(String::from_str("No processed data available")),
            ),
        }
    }
}

/// Whether a byte string is the packet of a plaintext under some nonce.
pub open spec fn is_sealed(
    keys: SessionKeys,
    packet_type: u8,
    plaintext: Seq<u8>,
    out: Seq<u8>,
) -> bool {
    exists|nonce: Seq<u8>|
        nonce.len() == 12 && out == #[trigger] packet_bytes(
            keys.sign_key@,
            keys.aead_key@,
            packet_type,
            nonce,
            plaintext,
        )
}

/// Opens packets of sessions whose keys the processor `P` keeps to itself.
#[derive(Debug)]
pub struct PhantomDecryptionStage<P> {
    pub crypto_pool: Arc<P>,
}

/// What the opening of a packet by a processor comes to.
pub open spec fn is_phantom_decryption(
    opened: Result<(u8, Vec<u8>), ProtocolError>,
    before: PipelineContext,
    r: Result<(), StageError>,
    after: PipelineContext,
) -> bool {
    match opened {
        Ok((t, data)) => {
            &&& r is Ok
            &&& after == (PipelineContext {
                packet_type: Some(t),
                decrypted_data: Some(data),
                ..before
            })
        },
        Err(e) => {
            &&& r matches Err(StageError::DecryptionFailed(s)) && s@ == e.text()
            &&& after == before
        },
    }
}

impl<P> PhantomDecryptionStage<P> {
    /// A stage over a processor.
    pub fn new(crypto_pool: Arc<P>) -> (s: Self)
        ensures
            s.crypto_pool == crypto_pool,
    {
        PhantomDecryptionStage { crypto_pool }
    }

    /// Takes over what the processor made of the packet.
    pub fn execute(
        &self,
        context: &mut PipelineContext,
        opened: Result<(u8, Vec<u8>), ProtocolError>,
    ) -> (r: Result<(), StageError>)
        ensures
            is_phantom_decryption(opened, *old(context), r, *final(context)),
    {
        match opened {
            Ok((packet_type, data)) => {
                context.packet_type = Some(packet_type);
                context.decrypted_data = Some(data);
                Ok(())
            },
            Err(e) => Err(StageError::DecryptionFailed(e.message())),
        }
    }
}

/// Seals answers of sessions whose keys the processor `P` keeps to itself.
#[derive(Debug)]
pub struct PhantomEncryptionStage<P> {
    pub response_packet_type: u8,
    pub crypto_pool: Arc<P>,
}

impl<P> PhantomEncryptionStage<P> {
    /// A stage that answers with packets of a type.
    pub fn new(response_packet_type: u8, crypto_pool: Arc<P>) -> (s: Self)
        ensures
            s.response_packet_type == response_packet_type,
            s.crypto_pool == crypto_pool,
    {
        PhantomEncryptionStage { response_packet_type, crypto_pool }
    }

    /// The type of the packets that the stage answers with.
    pub fn response_packet_type(&self) -> (t: u8)
        ensures
            t == self.response_packet_type,
    {
        self.response_packet_type
    }

    /// The processor.
    pub fn crypto_pool(&self) -> (p: Arc<P>)
        ensures
            p == self.crypto_pool,
    {
        self.crypto_pool.clone()
    }

    /// Takes the answer out of the context, for the processor to seal.
    pub fn take_answer(&self, context: &mut PipelineContext) -> (r: Result<Vec<u8>, StageError>)
        ensures
            *final(context) == (PipelineContext { processed_data: None, ..*old(context) }),
            match old(context).processed_data {
                Some(d) => r == Ok::<Vec<u8>, StageError>(d),
                None => r matches Err(StageError::EncryptionFailed(s)) && s@
                    == "No processed data available"@,
            },
    {
        match context.processed_data.take() {
            Some(data) => Ok(data),
            None => Err(
                StageError::EncryptionFailed(String::from_str("No processed data available")),
            ),
        }
    }

    /// Takes over what the processor made of the answer.
    pub fn execute(
        &self,
        context: &mut PipelineContext,
        sealed: Result<Vec<u8>, ProtocolError>,
    ) -> (r: Result<(), StageError>)
        ensures
            match sealed {
                Ok(out) => r is Ok && *final(context) == (PipelineContext {
                    encrypted_response: Some(out),
                    ..*old(context)
                }),
                Err(e) => {
                    &&& r matches Err(StageError::EncryptionFailed(s)) && s@ == e.text()
                    &&& *final(context) == *old(context)
                },
            },
    {
        match sealed {
            Ok(out) => {
                context.encrypted_response = Some(out);
                Ok(())
            },
            Err(e) => Err(StageError::EncryptionFailed(e.message())),
        }
    }
}

} // verus!
