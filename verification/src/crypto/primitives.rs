//! The calls into the cryptography crates, each with what it is relied on for.

use aes_gcm::aead::{Aead, Payload};
use aes_gcm::{Aes256Gcm, Key, KeyInit};
use chacha20::cipher::{KeyIvInit, StreamCipher};
use chacha20::ChaCha20;
use hmac::{Hmac, Mac};
use rand_core::{OsRng, RngCore};
use ring::hkdf;
use sha2::Sha256;
use vstd::prelude::*;

verus! {

/// Length of an AES-GCM and of a ChaCha20 nonce.
pub const NONCE_SIZE: usize = 12;

/// Length of an AES-GCM authentication tag.
pub const AEAD_TAG_SIZE: usize = 16;

/// Length of an HMAC-SHA256 tag.
pub const SIGNATURE_SIZE: usize = 32;

/// The longest message AES-GCM can encrypt: its 32-bit block counter starts
/// behind the block that masks the tag.
pub const AEAD_KEYSTREAM_LIMIT: u64 = 68_719_476_704;

/// Messages longer than this are refused by AES-GCM.
pub const AEAD_PLAINTEXT_LIMIT: u64 = 68_719_476_736;

/// The hash functions count their input in bits, in 64-bit counters; inputs up
/// to this length are counted without overflow.
pub const HASH_INPUT_LIMIT: u64 = 1_152_921_504_606_846_976;

/// The longest message that the 32-bit block counter of ChaCha20 covers.
pub const CHACHA20_KEYSTREAM_LIMIT: u64 = 274_877_906_880;

/// What AES-256-GCM makes of a plaintext: the ciphertext with its tag.
pub uninterp spec fn aes256gcm_sealed(
    key: Seq<u8>,
    nonce: Seq<u8>,
    aad: Seq<u8>,
    plaintext: Seq<u8>,
) -> Seq<u8>;

/// What AES-256-GCM makes of a ciphertext with its tag: the plaintext, or
/// `None` where the tag does not fit.
pub uninterp spec fn aes256gcm_opened(
    key: Seq<u8>,
    nonce: Seq<u8>,
    aad: Seq<u8>,
    ciphertext: Seq<u8>,
) -> Option<Seq<u8>>;

/// The HMAC-SHA256 tag of a message.
pub uninterp spec fn hmac_sha256_tag(key: Seq<u8>, message: Seq<u8>) -> Seq<u8>;

/// The `i`-th byte of the ChaCha20 key stream.
pub uninterp spec fn chacha20_keystream_byte(key: Seq<u8>, nonce: Seq<u8>, i: int) -> u8;

/// The BLAKE3 hash of a message under a key.
pub uninterp spec fn blake3_keyed_digest(key: Seq<u8>, message: Seq<u8>) -> Seq<u8>;

/// The first `len` bytes of the extendable BLAKE3 output for a message.
pub uninterp spec fn blake3_extended(message: Seq<u8>, len: nat) -> Seq<u8>;

/// HKDF-SHA256 with an empty salt, one digest of output.
pub uninterp spec fn hkdf_sha256_output(secret: Seq<u8>, info: Seq<u8>) -> Seq<u8>;

/// HKDF-SHA512 with an empty salt, one digest of output.
pub uninterp spec fn hkdf_sha512_output(secret: Seq<u8>, info: Seq<u8>) -> Seq<u8>;

/// Message lengths on which AES-GCM encryption returns: it runs out of key
/// stream, and panics, in the small gap between the two limits, and cannot
/// reserve room for the tag at the very end of the address space.
pub open spec fn aead_length_defined(len: nat) -> bool {
    &&& len <= AEAD_KEYSTREAM_LIMIT || len > AEAD_PLAINTEXT_LIMIT
    &&& len + AEAD_TAG_SIZE <= isize::MAX
}

/// `aes_gcm::Aes256Gcm`, `Aead::encrypt`: fails exactly on messages above its
/// limit (the associated data stays far below its own); otherwise returns
/// ciphertext and tag, a function of the arguments, sixteen bytes longer than
/// the message, and one that decryption under the same arguments turns back
/// into the message.
#[verifier::external_body]
pub(crate) fn aes256gcm_encrypt(
    key: &[u8; 32],
    nonce: &[u8],
    aad: &[u8],
    plaintext: &[u8],
) -> (r: Option<Vec<u8>>)
    requires
        nonce@.len() == NONCE_SIZE,
        aad@.len() <= AEAD_PLAINTEXT_LIMIT,
        aead_length_defined(plaintext@.len()),
    ensures
        r is Some <==> plaintext@.len() <= AEAD_KEYSTREAM_LIMIT,
        r matches Some(c) ==> c@ == aes256gcm_sealed(key@, nonce@, aad@, plaintext@),
        r matches Some(c) ==> c@.len() == plaintext@.len() + AEAD_TAG_SIZE,
        r matches Some(c) ==> aes256gcm_opened(key@, nonce@, aad@, c@) == Some(plaintext@),
{
    let cipher = Aes256Gcm::new(Key::<Aes256Gcm>::from_slice(key));
    cipher.encrypt(aes_gcm::Nonce::from_slice(nonce), Payload { msg: plaintext, aad }).ok()
}

/// `aes_gcm::Aes256Gcm`, `Aead::decrypt`: a function of the arguments; where
/// it returns a plaintext, the tag was the last sixteen bytes of the input
/// and encrypting that plaintext again gives the input back.
#[verifier::external_body]
pub(crate) fn aes256gcm_decrypt(
    key: &[u8; 32],
    nonce: &[u8],
    aad: &[u8],
    ciphertext: &[u8],
) -> (r: Option<Vec<u8>>)
    requires
        nonce@.len() == NONCE_SIZE,
        aad@.len() <= AEAD_PLAINTEXT_LIMIT,
        ciphertext@.len() <= AEAD_KEYSTREAM_LIMIT + AEAD_TAG_SIZE,
    ensures
        r is Some <==> aes256gcm_opened(key@, nonce@, aad@, ciphertext@) is Some,
        r matches Some(p) ==> aes256gcm_opened(key@, nonce@, aad@, ciphertext@) == Some(p@),
        r matches Some(p) ==> p@.len() + AEAD_TAG_SIZE == ciphertext@.len(),
        r matches Some(p) ==> aes256gcm_sealed(key@, nonce@, aad@, p@) == ciphertext@,
{
    let cipher = Aes256Gcm::new(Key::<Aes256Gcm>::from_slice(key));
    cipher.decrypt(aes_gcm::Nonce::from_slice(nonce), Payload { msg: ciphertext, aad }).ok()
}

/// `hmac::Hmac<sha2::Sha256>`: keys of every length are accepted; the tag is a
/// function of key and message, thirty-two bytes long.
#[verifier::external_body]
pub(crate) fn hmac_sha256(key: &[u8], message: &[u8]) -> (tag: Vec<u8>)
    requires
        key@.len() <= HASH_INPUT_LIMIT,
        message@.len() <= HASH_INPUT_LIMIT,
    ensures
        tag@ == hmac_sha256_tag(key@, message@),
        tag@.len() == SIGNATURE_SIZE,
{
    let mut mac = <Hmac<Sha256> as Mac>::new_from_slice(key).expect("any key length is valid");
    mac.update(message);
    mac.finalize().into_bytes().to_vec()
}

/// `constant_time_eq::constant_time_eq`: whether the two byte strings are
/// equal.
#[verifier::external_body]
pub(crate) fn bytes_equal(a: &[u8], b: &[u8]) -> (r: bool)
    ensures
        r == (a@ == b@),
{
    constant_time_eq::constant_time_eq(a, b)
}

/// `rand_core::OsRng`: twelve bytes from the operating system. Nothing is
/// known of their values.
#[verifier::external_body]
pub(crate) fn random_nonce() -> (nonce: [u8; 12]) {
    let mut nonce = [0u8; 12];
    OsRng.fill_bytes(&mut nonce);
    nonce
}

/// `rand::thread_rng`, `fill_bytes`: twelve bytes from the generator of this
/// thread. Nothing is known of their values.
#[verifier::external_body]
pub(crate) fn thread_nonce() -> (nonce: [u8; 12]) {
    let mut nonce = [0u8; 12];
    rand::thread_rng().fill_bytes(&mut nonce);
    nonce
}

/// `chacha20::ChaCha20`, `StreamCipher::apply_keystream` from the start of the
/// stream: every byte is combined by exclusive or with the byte of the key
/// stream at its position.
#[verifier::external_body]
pub(crate) fn chacha20_apply(key: &[u8; 32], nonce: &[u8; 12], data: &[u8]) -> (out: Vec<u8>)
    requires
        data@.len() <= CHACHA20_KEYSTREAM_LIMIT,
    ensures
        out@.len() == data@.len(),
        forall|i: int|
            0 <= i < data@.len() ==> #[trigger] out@[i] == data@[i] ^ chacha20_keystream_byte(
                key@,
                nonce@,
                i,
            ),
{
    let mut cipher = ChaCha20::new(key.into(), nonce.into());
    let mut buffer = data.to_vec();
    cipher.apply_keystream(&mut buffer);
    buffer
}

/// `blake3::Hasher::new_keyed`, `update`, `finalize`: a function of key and
/// message, thirty-two bytes long.
#[verifier::external_body]
pub(crate) fn blake3_keyed(key: &[u8; 32], message: &[u8]) -> (digest: [u8; 32])
    ensures
        digest@ == blake3_keyed_digest(key@, message@),
{
    let mut hasher = blake3::Hasher::new_keyed(key);
    hasher.update(message);
    *hasher.finalize().as_bytes()
}

/// `blake3::Hasher::new`, `update` twice, `finalize_xof`, `fill`: the first
/// `len` bytes of the extendable output for the two parts, one behind the
/// other.
#[verifier::external_body]
pub(crate) fn blake3_xof(first: &[u8], second: &[u8], len: usize) -> (out: Vec<u8>)
    requires
        len <= isize::MAX,
    ensures
        out@ == blake3_extended(first@ + second@, len as nat),
        out@.len() == len,
{
    let mut hasher = blake3::Hasher::new();
    hasher.update(first);
    hasher.update(second);
    let mut out = vec![0u8; len];
    hasher.finalize_xof().fill(&mut out);
    out
}

/// `ring::hkdf` over SHA-256 with an empty salt, expanding to the key type of
/// the algorithm itself: filling succeeds exactly for an output of one digest,
/// thirty-two bytes.
#[verifier::external_body]
pub(crate) fn hkdf_sha256(secret: &[u8], info: &[u8], len: usize) -> (r: Option<Vec<u8>>)
    requires
        secret@.len() <= HASH_INPUT_LIMIT,
        info@.len() <= HASH_INPUT_LIMIT,
        len <= isize::MAX,
    ensures
        r is Some <==> len == 32,
        r matches Some(out) ==> out@ == hkdf_sha256_output(secret@, info@) && out@.len() == 32,
{
    let prk = hkdf::Salt::new(hkdf::HKDF_SHA256, &[]).extract(secret);
    let parts = [info];
    let mut out = vec![0u8; len];
    prk.expand(&parts, hkdf::HKDF_SHA256).ok()?.fill(&mut out).ok()?;
    Some(out)
}

/// `ring::hkdf` over SHA-512 with an empty salt, expanding to the key type of
/// the algorithm itself: filling succeeds exactly for an output of one digest,
/// sixty-four bytes.
#[verifier::external_body]
pub(crate) fn hkdf_sha512(secret: &[u8], info: &[u8], len: usize) -> (r: Option<Vec<u8>>)
    requires
        secret@.len() <= HASH_INPUT_LIMIT,
        info@.len() <= HASH_INPUT_LIMIT,
        len <= isize::MAX,
    ensures
        r is Some <==> len == 64,
        r matches Some(out) ==> out@ == hkdf_sha512_output(secret@, info@) && out@.len() == 64,
{
    let prk = hkdf::Salt::new(hkdf::HKDF_SHA512, &[]).extract(secret);
    let parts = [info];
    let mut out = vec![0u8; len];
    prk.expand(&parts, hkdf::HKDF_SHA512).ok()?.fill(&mut out).ok()?;
    Some(out)
}

/// What ChaCha20 makes of a message: each byte combined with the key stream.
pub open spec fn chacha20_stream(key: Seq<u8>, nonce: Seq<u8>, data: Seq<u8>) -> Seq<u8> {
    Seq::new(data.len(), |i: int| data[i] ^ chacha20_keystream_byte(key, nonce, i))
}

/// Applying ChaCha20 a second time under the same key and nonce gives the
/// message back.
pub proof fn chacha20_is_involution(key: Seq<u8>, nonce: Seq<u8>, data: Seq<u8>)
    ensures
        chacha20_stream(key, nonce, chacha20_stream(key, nonce, data)) == data,
{
    let once = chacha20_stream(key, nonce, data);
    let twice = chacha20_stream(key, nonce, once);
    assert forall|i: int| 0 <= i < data.len() implies twice[i] == data[i] by {
        let d: u8 = data[i];
        let k: u8 = chacha20_keystream_byte(key, nonce, i);
        assert((d ^ k) ^ k == d) by (bit_vector);
    }
    assert(twice =~= data);
}

} // verus!
