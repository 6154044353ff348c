//! Decoding of sealed packets.

use vstd::prelude::*;
use vstd::slice::*;
use vstd::string::*;

use crate::crypto::primitives::{
    NONCE_SIZE, SIGNATURE_SIZE, aes256gcm_decrypt, aes256gcm_opened, bytes_equal, hmac_sha256,
    hmac_sha256_tag,
};
use crate::crypto::session_keys::SessionKeys;
use crate::error::{CryptoError, ProtocolError};
use crate::packets::wire_format::{
    DecodeFailure, HEADER_MAGIC, HEADER_SIZE, MIN_LENGTH_FIELD, MIN_PACKET_SIZE,
    RESERVED_PACKET_TYPE, decoded, from_big_endian_16, packet_bytes, packet_header,
    packets_are_accepted_exactly, signature_part, signed_part,
};
use crate::text::{decimal, decimal_string};

verus! {

/// The kinds of packets the server answers.
#[derive(Debug, Clone, Copy, PartialEq, Eq, Structural)]
pub enum PacketType {
    Ping,
    Heartbeat,
    Unknown(u8),
}

/// The packet kind of a type byte.
pub open spec fn packet_type_of(t: u8) -> PacketType {
    if t == 0x01 {
        PacketType::Ping
    } else if t == 0x10 {
        PacketType::Heartbeat
    } else {
        PacketType::Unknown(t)
    }
}

impl From<u8> for PacketType {
    fn from(t: u8) -> (kind: Self) {
        match t {
            0x01 => PacketType::Ping,
            0x10 => PacketType::Heartbeat,
            x => PacketType::Unknown(x),
        }
    }
}

impl vstd::std_specs::convert::FromSpecImpl<u8> for PacketType {
    open spec fn obeys_from_spec() -> bool {
        true
    }

    open spec fn from_spec(t: u8) -> PacketType {
        packet_type_of(t)
    }
}

/// A coarse classification of decoding failures.
#[derive(Debug, Clone)]
pub enum DecodeError {
    InvalidLength,
    InvalidMagic,
    InvalidSignature,
    DecryptionFailed,
    InvalidPacketType,
}

/// Decodes sealed packets.
pub struct PacketParser;

/// Whether `e` is the error reported for a failure to decode `data`.
pub open spec fn reports(e: ProtocolError, failure: DecodeFailure, data: Seq<u8>) -> bool {
    let field = from_big_endian_16(data[2], data[3]);
    match failure {
        DecodeFailure::TooShort => e matches ProtocolError::MalformedPacket { details } && details@
            == "Packet too short: "@ + decimal(data.len()) + " bytes, expected at least "@
            + decimal(MIN_PACKET_SIZE as nat),
        DecodeFailure::WrongMagic => e matches ProtocolError::MalformedPacket { details }
            && details@ == "Invalid magic bytes"@,
        DecodeFailure::LengthFieldTooSmall => e matches ProtocolError::MalformedPacket { details }
            && details@ == "Invalid length field: "@ + decimal(field) + " bytes"@,
        DecodeFailure::LengthMismatch => e matches ProtocolError::MalformedPacket { details }
            && details@ == "Length mismatch: expected "@ + decimal(4 + field) + ", got "@ + decimal(
            data.len(),
        ),
        DecodeFailure::ReservedType => e matches ProtocolError::MalformedPacket { details }
            && details@ == "Reserved packet type"@,
        DecodeFailure::WrongSignature => e matches ProtocolError::Crypto {
            source: CryptoError::HmacVerificationFailed,
        },
        DecodeFailure::Undecryptable => e matches ProtocolError::Crypto {
            source: CryptoError::DecryptionFailed { reason },
        } && reason@ == "aead::Error"@,
    }
}

/// The exact agreement between a decoding result and what the packet holds.
pub open spec fn agrees(
    r: Result<(u8, Vec<u8>), ProtocolError>,
    ctx: SessionKeys,
    data: Seq<u8>,
) -> bool {
    match decoded(ctx.sign_key@, ctx.aead_key@, data) {
        Ok((packet_type, plaintext)) => r matches Ok((t, p)) && t == packet_type && p@ == plaintext,
        Err(failure) => r matches Err(e) && reports(e, failure, data),
    }
}

/// The text of the error reported for a failure to decode `data`.
pub open spec fn failure_text(failure: DecodeFailure, data: Seq<u8>) -> Seq<char> {
    let field = from_big_endian_16(data[2], data[3]);
    match failure {
        DecodeFailure::TooShort => "Malformed packet: "@ + ("Packet too short: "@ + decimal(
            data.len(),
        ) + " bytes, expected at least "@ + decimal(MIN_PACKET_SIZE as nat)),
        DecodeFailure::WrongMagic => "Malformed packet: "@ + "Invalid magic bytes"@,
        DecodeFailure::LengthFieldTooSmall => "Malformed packet: "@ + ("Invalid length field: "@
            + decimal(field) + " bytes"@),
        DecodeFailure::LengthMismatch => "Malformed packet: "@ + ("Length mismatch: expected "@
            + decimal(4 + field) + ", got "@ + decimal(data.len())),
        DecodeFailure::ReservedType => "Malformed packet: "@ + "Reserved packet type"@,
        DecodeFailure::WrongSignature => "Crypto error: "@ + "HMAC verification failed"@,
        DecodeFailure::Undecryptable => "Crypto error: "@ + ("Decryption failed: "@
            + "aead::Error"@),
    }
}

/// Equal failures on equal data read the same.
pub proof fn failures_read_alike(e: ProtocolError, failure: DecodeFailure, data: Seq<u8>)
    requires
        reports(e, failure, data),
    ensures
        e.text() == failure_text(failure, data),
{
}

fn malformed(details: String) -> (r: Result<(u8, Vec<u8>), ProtocolError>)
    ensures
        r == Err::<(u8, Vec<u8>), ProtocolError>(ProtocolError::MalformedPacket { details }),
{
    Err(ProtocolError::MalformedPacket { details })
}

impl PacketParser {
    /// Packet type and plaintext of a sealed packet. Whatever is accepted is,
    /// byte for byte, the packet that sealing this plaintext under some nonce
    /// gives.
    pub fn decode_packet(ctx: &SessionKeys, data: &[u8]) -> (r: Result<
        (u8, Vec<u8>),
        ProtocolError,
    >)
        ensures
            agrees(r, *ctx, data@),
            r is Ok <==> {
                let n = data@.len() as int;
                &&& n >= 65
                &&& data@[0] == 0xAB && data@[1] == 0xCD
                &&& data@[2] * 256 + data@[3] == n - 4
                &&& data@[4] != 0xFF
                &&& hmac_sha256_tag(ctx.sign_key@, data@.take(n - 32)) == data@.skip(n - 32)
                &&& aes256gcm_opened(
                    ctx.aead_key@,
                    data@.subrange(5, 17),
                    data@.take(5),
                    data@.subrange(17, n - 32),
                ) is Some
            },
            r matches Ok((t, p)) ==> t == data@[4] && aes256gcm_opened(
                ctx.aead_key@,
                data@.subrange(5, 17),
                data@.take(5),
                data@.subrange(17, data@.len() - 32),
            ) == Some(p@),
            r matches Ok((t, p)) ==> {
                &&& t != RESERVED_PACKET_TYPE
                &&& data@.len() == MIN_PACKET_SIZE + p@.len()
                &&& data@ == packet_bytes(
                    ctx.sign_key@,
                    ctx.aead_key@,
                    t,
                    data@.subrange(HEADER_SIZE as int, HEADER_SIZE + NONCE_SIZE),
                    p@,
                )
            },
    {
        proof {
            packets_are_accepted_exactly(ctx.sign_key@, ctx.aead_key@, data@);
        }
        if data.len() < MIN_PACKET_SIZE {
            return malformed(
                String::from_str("Packet too short: ").concat(
                    decimal_string(data.len() as u64).as_str(),
                ).concat(" bytes, expected at least ").concat(
                    decimal_string(MIN_PACKET_SIZE as u64).as_str(),
                ),
            );
        }
        proof {
            assert(data@.subrange(0, 2) =~= data@.take(2));
        }
        let magic: [u8; 2] = HEADER_MAGIC;
        if !bytes_equal(slice_subrange(data, 0, 2), magic.as_slice()) {
            return malformed(String::from_str("Invalid magic bytes"));
        }
        let length: usize = (data[2] as usize) * 256 + data[3] as usize;
        if length < MIN_LENGTH_FIELD {
            return malformed(
                String::from_str("Invalid length field: ").concat(
                    decimal_string(length as u64).as_str(),
                ).concat(" bytes"),
            );
        }
        let expected_total: usize = 4 + length;
        if data.len() != expected_total {
            return malformed(
                String::from_str("Length mismatch: expected ").concat(
                    decimal_string(expected_total as u64).as_str(),
                ).concat(", got ").concat(decimal_string(data.len() as u64).as_str()),
            );
        }
        let packet_type: u8 = data[4];
        if packet_type == RESERVED_PACKET_TYPE {
            return malformed(String::from_str("Reserved packet type"));
        }
        let signature_start: usize = data.len() - SIGNATURE_SIZE;
        let signed: &[u8] = slice_subrange(data, 0, signature_start);
        let signature: &[u8] = slice_subrange(data, signature_start, data.len());
        proof {
            assert(signed@ =~= signed_part(data@));
            assert(signature@ =~= signature_part(data@));
        }
        let tag: Vec<u8> = hmac_sha256(ctx.sign_key.as_slice(), signed);
        if !bytes_equal(tag.as_slice(), signature) {
            return Err(ProtocolError::Crypto { source: CryptoError::HmacVerificationFailed });
        }
        let aad: &[u8] = slice_subrange(data, 0, HEADER_SIZE);
        let nonce: &[u8] = slice_subrange(data, HEADER_SIZE, HEADER_SIZE + NONCE_SIZE);
        let ciphertext: &[u8] = slice_subrange(data, HEADER_SIZE + NONCE_SIZE, signature_start);
        proof {
            assert(aad@ =~= data@.take(HEADER_SIZE as int));
        }
        match aes256gcm_decrypt(&ctx.aead_key, nonce, aad, ciphertext) {
            None => Err(
                ProtocolError::Crypto {
                    source: CryptoError::DecryptionFailed {
                        reason: String::from_str("aead::Error"),
                    },
                },
            ),
            Some(plaintext) => {
                proof {
                    let header = packet_header(packet_type, plaintext@.len());
                    assert(data@[0] == data@.take(2)[0] && data@[1] == data@.take(2)[1]);
                    assert(MIN_LENGTH_FIELD + plaintext@.len() == length);
                    assert(header =~= aad@);
                    assert(signed@ =~= header + nonce@ + ciphertext@);
                    assert(data@ =~= signed@ + signature@);
                }
                Ok((packet_type, plaintext))
            },
        }
    }
}

} // verus!
