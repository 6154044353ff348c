//! The parallel operations of the `rayon` crate that the accelerators use.

use rayon::prelude::{IntoParallelIterator, ParallelIterator, ParallelSliceMut};
use vstd::prelude::*;

use crate::crypto::primitives::{
    CHACHA20_KEYSTREAM_LIMIT, blake3_keyed, blake3_keyed_digest, chacha20_apply, chacha20_stream,
};

verus! {

/// The byte strings of a list of vectors.
pub open spec fn byte_strings(v: Seq<Vec<u8>>) -> Seq<Seq<u8>> {
    v.map_values(|b: Vec<u8>| b@)
}

/// ChaCha20 over a batch: the `i`-th text under the `i`-th key and nonce.
pub open spec fn chacha20_batch(
    keys: Seq<[u8; 32]>,
    nonces: Seq<[u8; 12]>,
    texts: Seq<Seq<u8>>,
) -> Seq<Seq<u8>> {
    Seq::new(texts.len(), |i: int| chacha20_stream(keys[i]@, nonces[i]@, texts[i]))
}

/// Keyed BLAKE3 over a batch: the `i`-th input under the `i`-th key.
pub open spec fn blake3_batch(keys: Seq<[u8; 32]>, inputs: Seq<Seq<u8>>) -> Seq<Seq<u8>> {
    Seq::new(inputs.len(), |i: int| blake3_keyed_digest(keys[i]@, inputs[i]))
}

/// Whether a batch can be run through ChaCha20: a key and a nonce for every
/// text, and no text longer than the key stream.
pub open spec fn chacha20_batch_ready(
    keys: Seq<[u8; 32]>,
    nonces: Seq<[u8; 12]>,
    texts: Seq<Vec<u8>>,
) -> bool {
    &&& keys.len() == nonces.len()
    &&& keys.len() == texts.len()
    &&& forall|i: int|
        0 <= i < texts.len() ==> (#[trigger] texts[i])@.len() <= CHACHA20_KEYSTREAM_LIMIT
}

/// ChaCha20 on one text.
pub fn chacha20_single(key: &[u8; 32], nonce: &[u8; 12], text: &Vec<u8>) -> (out: Vec<u8>)
    requires
        text@.len() <= CHACHA20_KEYSTREAM_LIMIT,
    ensures
        out@ == chacha20_stream(key@, nonce@, text@),
{
    let out: Vec<u8> = chacha20_apply(key, nonce, text.as_slice());
    proof {
        assert(out@ =~= chacha20_stream(key@, nonce@, text@));
    }
    out
}

/// Keyed BLAKE3 on one input.
pub fn blake3_single(key: &[u8; 32], input: &Vec<u8>) -> (out: [u8; 32])
    ensures
        out@ == blake3_keyed_digest(key@, input@),
{
    blake3_keyed(key, input.as_slice())
}

/// A parallel iterator over positions, `map` and `collect` of `rayon`: the
/// `i`-th result is what `chacha20_single` makes of the `i`-th key, nonce and
/// text.
#[verifier::external_body]
pub(crate) fn parallel_chacha20(
    keys: &Vec<[u8; 32]>,
    nonces: &Vec<[u8; 12]>,
    texts: &Vec<Vec<u8>>,
) -> (out: Vec<Vec<u8>>)
    requires
        chacha20_batch_ready(keys@, nonces@, texts@),
    ensures
        byte_strings(out@) == chacha20_batch(keys@, nonces@, byte_strings(texts@)),
{
    (0..keys.len())
        .into_par_iter()
        .map(|i| chacha20_single(&keys[i], &nonces[i], &texts[i]))
        .collect()
}

/// A parallel iterator over the given positions, `map` and `collect` of
/// `rayon`: the `k`-th result is what `blake3_single` makes of the key and the
/// input at the `k`-th position.
#[verifier::external_body]
pub(crate) fn parallel_blake3(
    keys: &Vec<[u8; 32]>,
    inputs: &Vec<Vec<u8>>,
    positions: Vec<usize>,
) -> (out: Vec<[u8; 32]>)
    requires
        keys@.len() == inputs@.len(),
        forall|k: int| 0 <= k < positions@.len() ==> (#[trigger] positions@[k]) < keys@.len(),
    ensures
        out@.len() == positions@.len(),
        forall|k: int|
            0 <= k < positions@.len() ==> (#[trigger] out@[k])@ == blake3_keyed_digest(
                keys@[positions@[k] as int]@,
                inputs@[positions@[k] as int]@,
            ),
{
    positions.into_par_iter().map(|i| blake3_single(&keys[i], &inputs[i])).collect()
}

/// Whether one pair comes before or equals another, by its first number, then
/// by its second.
pub open spec fn pair_le(a: (usize, usize), b: (usize, usize)) -> bool {
    a.0 < b.0 || (a.0 == b.0 && a.1 <= b.1)
}

/// `par_sort` of `rayon` on pairs of numbers: the same pairs, in increasing
/// order.
#[verifier::external_body]
pub(crate) fn parallel_sort(pairs: Vec<(usize, usize)>) -> (out: Vec<(usize, usize)>)
    ensures
        out@.to_multiset() =~= pairs@.to_multiset(),
        forall|i: int, j: int| 0 <= i <= j < out@.len() ==> pair_le(out@[i], out@[j]),
{
    let mut out = pairs;
    out.par_sort();
    out
}

} // verus!
