//! Sealing of packets.

use vstd::prelude::*;

use crate::crypto::primitives::{
    AEAD_KEYSTREAM_LIMIT, AEAD_TAG_SIZE, NONCE_SIZE, SIGNATURE_SIZE, aes256gcm_encrypt,
    aes256gcm_sealed, hmac_sha256, hmac_sha256_tag, random_nonce,
};
use crate::crypto::session_keys::SessionKeys;
use crate::packets::wire_format::{
    DecodeFailure, HEADER_MAGIC, HEADER_SIZE, MAX_FRAMED_PLAINTEXT, MIN_LENGTH_FIELD,
    MIN_PACKET_SIZE, RESERVED_PACKET_TYPE, decoded, packet_bytes, packet_header, signature_part,
    signed_bytes, signed_part,
};

verus! {

/// Builds sealed packets.
pub struct PacketBuilder;

/// Plaintext lengths that can be sealed.
pub open spec fn sealable(plaintext_len: nat) -> bool {
    &&& plaintext_len <= AEAD_KEYSTREAM_LIMIT
    &&& plaintext_len + MIN_PACKET_SIZE <= isize::MAX
}

/// Whether the parts of a packet lie where they belong: the header in the first
/// five bytes, the nonce in the next twelve, then the sealed payload, sixteen
/// bytes longer than the plaintext, and in the last thirty-two bytes the
/// signature.
pub open spec fn is_laid_out(
    sign_key: Seq<u8>,
    aead_key: Seq<u8>,
    packet_type: u8,
    nonce: Seq<u8>,
    plaintext: Seq<u8>,
    packet: Seq<u8>,
) -> bool {
    let header = packet_header(packet_type, plaintext.len());
    let sealed = aes256gcm_sealed(aead_key, nonce, header, plaintext);
    let signed = signed_bytes(aead_key, packet_type, nonce, plaintext);
    let tag = hmac_sha256_tag(sign_key, signed);
    &&& sealed.len() == plaintext.len() + AEAD_TAG_SIZE
    &&& tag.len() == SIGNATURE_SIZE
    &&& packet.len() == HEADER_SIZE + NONCE_SIZE + sealed.len() + SIGNATURE_SIZE
    &&& packet.take(HEADER_SIZE as int) == header
    &&& packet.subrange(HEADER_SIZE as int, HEADER_SIZE + NONCE_SIZE) == nonce
    &&& packet.subrange(HEADER_SIZE + NONCE_SIZE, packet.len() - SIGNATURE_SIZE) == sealed
    &&& signed_part(packet) == signed
    &&& signature_part(packet) == tag
}

impl PacketBuilder {
    /// The packet for a plaintext under a given nonce. Where the length fits
    /// the length field and the type is not the reserved one, decoding the
    /// packet gives type and plaintext back; longer plaintexts wrap the length
    /// field, and decoding refuses the packet.
    pub fn seal_packet(
        ctx: &SessionKeys,
        packet_type: u8,
        nonce: &[u8; 12],
        plaintext: &[u8],
    ) -> (out: Vec<u8>)
        requires
            sealable(plaintext@.len()),
        ensures
            out@ == packet_bytes(
                ctx.sign_key@,
                ctx.aead_key@,
                packet_type,
                nonce@,
                plaintext@,
            ),
            out@.len() == MIN_PACKET_SIZE + plaintext@.len(),
            is_laid_out(
                ctx.sign_key@,
                ctx.aead_key@,
                packet_type,
                nonce@,
                plaintext@,
                out@,
            ),
            out@[0] == 0xAB && out@[1] == 0xCD,
            out@[2] * 256 + out@[3] == (out@.len() - 4) % 65536,
            out@[4] == packet_type,
            out@.subrange(5, 17) == nonce@,
            out@.subrange(17, out@.len() - 32) == aes256gcm_sealed(
                ctx.aead_key@,
                nonce@,
                out@.take(5),
                plaintext@,
            ),
            out@.skip(out@.len() - 32) == hmac_sha256_tag(
                ctx.sign_key@,
                out@.take(out@.len() - 32),
            ),
            plaintext@.len() <= MAX_FRAMED_PLAINTEXT && packet_type != RESERVED_PACKET_TYPE
                ==> decoded(ctx.sign_key@, ctx.aead_key@, out@) == Ok::<
                (u8, Seq<u8>),
                DecodeFailure,
            >((packet_type, plaintext@)),
            plaintext@.len() > MAX_FRAMED_PLAINTEXT ==> decoded(
                ctx.sign_key@,
                ctx.aead_key@,
                out@,
            ) is Err,
            packet_type == RESERVED_PACKET_TYPE ==> decoded(
                ctx.sign_key@,
                ctx.aead_key@,
                out@,
            ) is Err,
    {
        let length: usize = MIN_LENGTH_FIELD + plaintext.len();
        let mut out: Vec<u8> = Vec::new();
        out.push(0xAB);
        out.push(0xCD);
        out.push(((length / 256) % 256) as u8);
        out.push((length % 256) as u8);
        out.push(packet_type);
        let ghost header = packet_header(packet_type, plaintext@.len());
        proof {
            assert(out@ =~= header);
        }
        let sealed: Vec<u8> = match aes256gcm_encrypt(
            &ctx.aead_key,
            nonce.as_slice(),
            out.as_slice(),
            plaintext,
        ) {
            Some(c) => c,
            None => Vec::new(),
        };
        out.extend_from_slice(nonce.as_slice());
        out.extend_from_slice(sealed.as_slice());
        let ghost signed = out@;
        proof {
            assert(signed =~= signed_bytes(ctx.aead_key@, packet_type, nonce@, plaintext@));
        }
        let tag: Vec<u8> = hmac_sha256(ctx.sign_key.as_slice(), out.as_slice());
        out.extend_from_slice(tag.as_slice());
        proof {
            assert(out@ =~= signed + tag@);
            assert(out@.take(2) =~= HEADER_MAGIC@);
            assert(signed_part(out@) =~= signed);
            assert(signature_part(out@) =~= tag@);
            assert(out@.take(HEADER_SIZE as int) =~= header);
            assert(out@.subrange(HEADER_SIZE as int, HEADER_SIZE + NONCE_SIZE) =~= nonce@);
            assert(out@.subrange(HEADER_SIZE + NONCE_SIZE, out@.len() - SIGNATURE_SIZE)
                =~= sealed@);
            assert(out@[2] == header[2] && out@[3] == header[3] && out@[4] == packet_type);
        }
        out
    }

    /// The packet for a plaintext under a nonce drawn from the operating
    /// system.
    pub fn build_encrypted_packet(
        ctx: &SessionKeys,
        packet_type: u8,
        plaintext: &[u8],
    ) -> (out: Vec<u8>)
        requires
            sealable(plaintext@.len()),
        ensures
            exists|nonce: Seq<u8>|
                nonce.len() == NONCE_SIZE && out@ == #[trigger] packet_bytes(
                    ctx.sign_key@,
                    ctx.aead_key@,
                    packet_type,
                    nonce,
                    plaintext@,
                ) && is_laid_out(
                    ctx.sign_key@,
                    ctx.aead_key@,
                    packet_type,
                    nonce,
                    plaintext@,
                    out@,
                ),
            out@.len() == MIN_PACKET_SIZE + plaintext@.len(),
            plaintext@.len() <= MAX_FRAMED_PLAINTEXT && packet_type != RESERVED_PACKET_TYPE
                ==> decoded(ctx.sign_key@, ctx.aead_key@, out@) == Ok::<
                (u8, Seq<u8>),
                DecodeFailure,
            >((packet_type, plaintext@)),
            plaintext@.len() > MAX_FRAMED_PLAINTEXT || packet_type == RESERVED_PACKET_TYPE
                ==> decoded(ctx.sign_key@, ctx.aead_key@, out@) is Err,
    {
        let nonce: [u8; 12] = random_nonce();
        PacketBuilder::seal_packet(ctx, packet_type, &nonce, plaintext)
    }
}

} // verus!
