//! The byte format of a sealed packet.
//!
//! ```text
//! magic (2) | length (2, big endian) | type (1) | nonce (12) | sealed payload | signature (32)
//! ```
//!
//! The length counts everything behind it. The sealed payload is sixteen bytes
//! longer than the plaintext; magic, length and type are its associated data.
//! The signature covers everything before it.

use vstd::prelude::*;

use crate::crypto::primitives::{
    NONCE_SIZE, SIGNATURE_SIZE, aes256gcm_opened, aes256gcm_sealed, hmac_sha256_tag,
};

verus! {

/// The first two bytes of every packet.
pub const HEADER_MAGIC: [u8; 2] = [0xAB, 0xCD];

/// Magic, length and type.
pub const HEADER_SIZE: usize = 5;

/// The smallest value of the length field: type, nonce, tag and signature.
pub const MIN_LENGTH_FIELD: usize = 61;

/// The smallest packet.
pub const MIN_PACKET_SIZE: usize = 65;

/// A packet type that no packet may have.
pub const RESERVED_PACKET_TYPE: u8 = 0xFF;

/// The longest plaintext whose packet length fits the length field.
pub const MAX_FRAMED_PLAINTEXT: usize = 65474;

/// The two bytes of `n` modulo 2^16, high byte first.
pub open spec fn big_endian_16(n: nat) -> Seq<u8> {
    seq![((n / 256) % 256) as u8, (n % 256) as u8]
}

/// The number written by two bytes, high byte first.
pub open spec fn from_big_endian_16(high: u8, low: u8) -> nat {
    (high as nat) * 256 + low as nat
}

/// Magic, length and type of a packet with the given plaintext length.
pub open spec fn packet_header(packet_type: u8, plaintext_len: nat) -> Seq<u8> {
    HEADER_MAGIC@ + big_endian_16(MIN_LENGTH_FIELD as nat + plaintext_len) + seq![packet_type]
}

/// What the signature of a packet covers.
pub open spec fn signed_bytes(
    aead_key: Seq<u8>,
    packet_type: u8,
    nonce: Seq<u8>,
    plaintext: Seq<u8>,
) -> Seq<u8> {
    let header = packet_header(packet_type, plaintext.len());
    header + nonce + aes256gcm_sealed(aead_key, nonce, header, plaintext)
}

/// A whole packet.
pub open spec fn packet_bytes(
    sign_key: Seq<u8>,
    aead_key: Seq<u8>,
    packet_type: u8,
    nonce: Seq<u8>,
    plaintext: Seq<u8>,
) -> Seq<u8> {
    let signed = signed_bytes(aead_key, packet_type, nonce, plaintext);
    signed + hmac_sha256_tag(sign_key, signed)
}

/// Why a byte string is not an acceptable packet.
pub enum DecodeFailure {
    TooShort,
    WrongMagic,
    LengthFieldTooSmall,
    LengthMismatch,
    ReservedType,
    WrongSignature,
    Undecryptable,
}

/// The part of a packet that its signature covers.
pub open spec fn signed_part(data: Seq<u8>) -> Seq<u8> {
    data.take(data.len() - SIGNATURE_SIZE)
}

/// The signature of a packet.
pub open spec fn signature_part(data: Seq<u8>) -> Seq<u8> {
    data.skip(data.len() - SIGNATURE_SIZE)
}

/// What a packet's sealed payload opens to.
pub open spec fn opened_payload(aead_key: Seq<u8>, data: Seq<u8>) -> Option<Seq<u8>> {
    aes256gcm_opened(
        aead_key,
        data.subrange(HEADER_SIZE as int, HEADER_SIZE + NONCE_SIZE),
        data.take(HEADER_SIZE as int),
        data.subrange(HEADER_SIZE + NONCE_SIZE, data.len() - SIGNATURE_SIZE),
    )
}

/// Packet type and plaintext of a packet, or the first reason to refuse it.
pub open spec fn decoded(sign_key: Seq<u8>, aead_key: Seq<u8>, data: Seq<u8>) -> Result<
    (u8, Seq<u8>),
    DecodeFailure,
> {
    if data.len() < MIN_PACKET_SIZE {
        Err(DecodeFailure::TooShort)
    } else if data.take(2) != HEADER_MAGIC@ {
        Err(DecodeFailure::WrongMagic)
    } else if from_big_endian_16(data[2], data[3]) < MIN_LENGTH_FIELD {
        Err(DecodeFailure::LengthFieldTooSmall)
    } else if data.len() != 4 + from_big_endian_16(data[2], data[3]) {
        Err(DecodeFailure::LengthMismatch)
    } else if data[4] == RESERVED_PACKET_TYPE {
        Err(DecodeFailure::ReservedType)
    } else if hmac_sha256_tag(sign_key, signed_part(data)) != signature_part(data) {
        Err(DecodeFailure::WrongSignature)
    } else {
        match opened_payload(aead_key, data) {
            None => Err(DecodeFailure::Undecryptable),
            Some(plaintext) => Ok((data[4], plaintext)),
        }
    }
}

/// A packet is accepted if and only if it begins with the magic bytes, its
/// length field counts what stands behind it, its type is not the reserved one,
/// its last thirty-two bytes are the tag of all bytes before them under the
/// signing key, and what stands between the nonce and the tag opens under the
/// nonce, with the first five bytes as associated data. Then its type is its
/// fifth byte, and its text is what was opened.
pub proof fn packets_are_accepted_exactly(sign_key: Seq<u8>, aead_key: Seq<u8>, data: Seq<u8>)
    ensures
        ({
            let n = data.len() as int;
            let opened = aes256gcm_opened(
                aead_key,
                data.subrange(5, 17),
                data.take(5),
                data.subrange(17, n - 32),
            );
            &&& decoded(sign_key, aead_key, data) is Ok <==> {
                &&& n >= 65
                &&& data[0] == 0xAB
                &&& data[1] == 0xCD
                &&& data[2] * 256 + data[3] == n - 4
                &&& data[4] != 0xFF
                &&& hmac_sha256_tag(sign_key, data.take(n - 32)) == data.skip(n - 32)
                &&& opened is Some
            }
            &&& decoded(sign_key, aead_key, data) matches Ok((t, plaintext)) ==> t == data[4]
                && opened == Some(plaintext)
        }),
{
    if data.len() >= 65 {
        assert(data.take(2) == HEADER_MAGIC@ <==> data[0] == 0xAB && data[1] == 0xCD) by {
            assert(data.take(2)[0] == data[0] && data.take(2)[1] == data[1]);
            if data[0] == 0xAB && data[1] == 0xCD {
                assert(data.take(2) =~= HEADER_MAGIC@);
            }
        }
    }
}

/// Of a packet that several faults make unacceptable the first is told: that it
/// is too short, then its magic bytes, its length field, its type, its
/// signature, and at last that it does not open.
pub proof fn the_first_fault_is_told(sign_key: Seq<u8>, aead_key: Seq<u8>, data: Seq<u8>)
    ensures
        ({
            let n = data.len() as int;
            let framed = n >= 65 && data[0] == 0xAB && data[1] == 0xCD;
            let sized = framed && data[2] * 256 + data[3] == n - 4;
            let typed = sized && data[4] != 0xFF;
            let signed = typed && hmac_sha256_tag(sign_key, data.take(n - 32)) == data.skip(n - 32);
            let r = decoded(sign_key, aead_key, data);
            &&& (r matches Err(DecodeFailure::TooShort)) <==> n < 65
            &&& (r matches Err(DecodeFailure::WrongMagic)) <==> n >= 65 && !framed
            &&& (r matches Err(DecodeFailure::LengthFieldTooSmall)) <==> framed && data[2] * 256
                + data[3] < 61
            &&& (r matches Err(DecodeFailure::LengthMismatch)) <==> framed
                && data[2] * 256 + data[3]
                >= 61 && !sized
            &&& (r matches Err(DecodeFailure::ReservedType)) <==> sized && data[4] == 0xFF
            &&& (r matches Err(DecodeFailure::WrongSignature)) <==> typed && !signed
            &&& (r matches Err(DecodeFailure::Undecryptable)) <==> signed && aes256gcm_opened(
                aead_key,
                data.subrange(5, 17),
                data.take(5),
                data.subrange(17, n - 32),
            ) is None
        }),
{
    if data.len() >= 65 {
        assert(data.take(2) == HEADER_MAGIC@ <==> data[0] == 0xAB && data[1] == 0xCD) by {
            assert(data.take(2)[0] == data[0] && data.take(2)[1] == data[1]);
            if data[0] == 0xAB && data[1] == 0xCD {
                assert(data.take(2) =~= HEADER_MAGIC@);
            }
        }
    }
}

} // verus!
