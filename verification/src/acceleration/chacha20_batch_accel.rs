//! ChaCha20 over batches.

use vstd::prelude::*;

use crate::acceleration::parallel::{
    byte_strings, chacha20_batch, chacha20_batch_ready, chacha20_single, parallel_chacha20,
};
use crate::crypto::primitives::{chacha20_is_involution, chacha20_stream};

verus! {

/// Texts of at least this length gain from vector instructions.
pub const MIN_SIMD_SIZE: usize = 64;

/// The instruction sets a processor offers.
#[derive(Debug, Clone, Copy, PartialEq, Eq, Structural)]
pub struct SimdFeatures {
    pub avx2: bool,
    pub avx512: bool,
    pub neon: bool,
    pub aes_ni: bool,
    pub sse4_2: bool,
}

impl SimdFeatures {
    /// Whether there are vector instructions to use.
    pub open spec fn vectors(self) -> bool {
        self.avx2 || self.neon || self.avx512
    }

    /// Whether there are vector instructions to use.
    pub fn simd_capable(&self) -> (r: bool)
        ensures
            r == self.vectors(),
            r <==> self.avx2 || self.avx512 || self.neon,
    {
        self.avx2 || self.neon || self.avx512
    }
}

/// Settings of the accelerator.
#[derive(Debug, Clone, Copy)]
pub struct ChaCha20BatchConfig {
    pub simd_width: usize,
    pub enable_avx2: bool,
    pub enable_avx512: bool,
    pub enable_neon: bool,
    pub batch_alignment: usize,
    pub max_concurrent_batches: usize,
    pub enable_parallel: bool,
}

impl ChaCha20BatchConfig {
    /// The usual settings, with a given vector width.
    pub open spec fn with_width(simd_width: usize) -> ChaCha20BatchConfig {
        ChaCha20BatchConfig {
            simd_width,
            enable_avx2: true,
            enable_avx512: false,
            enable_neon: true,
            batch_alignment: 64,
            max_concurrent_batches: 8,
            enable_parallel: true,
        }
    }
}

impl Default for ChaCha20BatchConfig {
    fn default() -> (c: Self)
        ensures
            c == Self::with_width(8),
    {
        ChaCha20BatchConfig {
            simd_width: 8,
            enable_avx2: true,
            enable_avx512: false,
            enable_neon: true,
            batch_alignment: 64,
            max_concurrent_batches: 8,
            enable_parallel: true,
        }
    }
}

/// How a batch is worked through.
#[derive(Debug, Clone, Copy, PartialEq, Eq, Structural)]
pub enum ChaCha20Strategy {
    Scalar,
    Parallel,
    ParallelOptimized,
}

/// Runs ChaCha20 over batches.
#[derive(Debug, Clone, Copy)]
pub struct ChaCha20BatchAccelerator {
    pub config: ChaCha20BatchConfig,
    pub simd_capable: bool,
    pub detected_features: SimdFeatures,
}

/// What is known of the accelerator's instruction sets.
#[derive(Debug, Clone, Copy)]
pub struct SimdInfo {
    pub features: SimdFeatures,
    pub simd_capable: bool,
    pub optimal_batch_size: usize,
}

impl ChaCha20BatchAccelerator {
    /// An accelerator for a processor with the given instruction sets.
    pub fn new(simd_width: usize, features: SimdFeatures) -> (a: Self)
        ensures
            a == (ChaCha20BatchAccelerator {
                config: ChaCha20BatchConfig::with_width(simd_width),
                simd_capable: features.vectors(),
                detected_features: features,
            }),
    {
        let mut config: ChaCha20BatchConfig = ChaCha20BatchConfig::default();
        config.simd_width = simd_width;
        ChaCha20BatchAccelerator {
            config,
            simd_capable: features.simd_capable(),
            detected_features: features,
        }
    }

    /// How a batch is worked through: in parallel from four texts on, where
    /// vector instructions exist and some text is long enough for them.
    pub open spec fn strategy_for(self, texts: Seq<Seq<u8>>) -> ChaCha20Strategy {
        let worthwhile = exists|i: int|
            0 <= i < texts.len() && (#[trigger] texts[i]).len() >= MIN_SIMD_SIZE;
        if !(self.simd_capable && texts.len() >= 4 && self.config.enable_parallel && worthwhile) {
            ChaCha20Strategy::Scalar
        } else if texts.len() >= 8 {
            ChaCha20Strategy::ParallelOptimized
        } else {
            ChaCha20Strategy::Parallel
        }
    }

    /// How a batch is worked through.
    pub fn strategy(&self, texts: &Vec<Vec<u8>>) -> (s: ChaCha20Strategy)
        ensures
            s == self.strategy_for(byte_strings(texts@)),
            ({
                let side_by_side = self.simd_capable && self.config.enable_parallel
                    && texts@.len() >= 4
                    && exists|k: int| 0 <= k < texts@.len() && (#[trigger] texts@[k])@.len() >= 64;
                &&& s is Scalar <==> !side_by_side
                &&& s is ParallelOptimized <==> side_by_side && texts@.len() >= 8
            }),
    {
        let ghost views = byte_strings(texts@);
        let mut worthwhile: bool = false;
        let mut i: usize = 0;
        while i < texts.len()
            invariant
                i <= texts@.len(),
                views == byte_strings(texts@),
                worthwhile == exists|k: int|
                    0 <= k < i && (#[trigger] views[k]).len() >= MIN_SIMD_SIZE,
            decreases texts@.len() - i,
        {
            assert(views[i as int] == texts@[i as int]@);
            if texts[i].len() >= MIN_SIMD_SIZE {
                worthwhile = true;
            }
            i += 1;
        }
        proof {
            assert forall|k: int| 0 <= k < texts@.len() implies #[trigger] views[k]
                == texts@[k]@ by {}
            if exists|k: int| 0 <= k < texts@.len() && (#[trigger] texts@[k])@.len() >= 64 {
                let k = choose|k: int|
                    0 <= k < texts@.len() && (#[trigger] texts@[k])@.len() >= 64;
                assert(views[k].len() >= 64);
            }
            if worthwhile {
                let k = choose|k: int|
                    0 <= k < texts@.len() && (#[trigger] views[k]).len() >= MIN_SIMD_SIZE;
                assert(texts@[k]@.len() >= 64);
            }
        }
        let use_simd: bool = self.simd_capable && texts.len() >= 4 && self.config.enable_parallel
            && worthwhile;
        if !use_simd {
            ChaCha20Strategy::Scalar
        } else if texts.len() >= 8 {
            ChaCha20Strategy::ParallelOptimized
        } else {
            ChaCha20Strategy::Parallel
        }
    }

    /// Encrypts a batch. Whatever the strategy, the `i`-th result is what
    /// ChaCha20 makes of the `i`-th text under the `i`-th key and nonce.
    pub fn encrypt_batch(
        &self,
        keys: &Vec<[u8; 32]>,
        nonces: &Vec<[u8; 12]>,
        plaintexts: &Vec<Vec<u8>>,
    ) -> (out: Vec<Vec<u8>>)
        requires
            chacha20_batch_ready(keys@, nonces@, plaintexts@),
        ensures
            byte_strings(out@) == chacha20_batch(keys@, nonces@, byte_strings(plaintexts@)),
            out@.len() == plaintexts@.len(),
            forall|i: int|
                0 <= i < out@.len() ==> (#[trigger] out@[i])@ == chacha20_stream(
                    keys@[i]@,
                    nonces@[i]@,
                    plaintexts@[i]@,
                ),
    {
        let out: Vec<Vec<u8>> = match self.strategy(plaintexts) {
            ChaCha20Strategy::Scalar => self.encrypt_batch_scalar(keys, nonces, plaintexts),
            ChaCha20Strategy::Parallel => parallel_chacha20(keys, nonces, plaintexts),
            ChaCha20Strategy::ParallelOptimized => parallel_chacha20(keys, nonces, plaintexts),
        };
        assert(out@.len() == byte_strings(out@).len());
        proof {
            assert forall|i: int| 0 <= i < out@.len() implies (#[trigger] out@[i])@
                == chacha20_stream(keys@[i]@, nonces@[i]@, plaintexts@[i]@) by {
                assert(byte_strings(out@)[i] == out@[i]@);
                assert(byte_strings(plaintexts@)[i] == plaintexts@[i]@);
            }
        }
        out
    }

    /// Decrypts a batch; for a stream cipher that is the same operation.
    pub fn decrypt_batch(
        &self,
        keys: &Vec<[u8; 32]>,
        nonces: &Vec<[u8; 12]>,
        ciphertexts: &Vec<Vec<u8>>,
    ) -> (out: Vec<Vec<u8>>)
        requires
            chacha20_batch_ready(keys@, nonces@, ciphertexts@),
        ensures
            byte_strings(out@) == chacha20_batch(keys@, nonces@, byte_strings(ciphertexts@)),
            out@.len() == ciphertexts@.len(),
            forall|i: int|
                0 <= i < out@.len() ==> (#[trigger] out@[i])@ == chacha20_stream(
                    keys@[i]@,
                    nonces@[i]@,
                    ciphertexts@[i]@,
                ),
    {
        self.encrypt_batch(keys, nonces, ciphertexts)
    }

    fn encrypt_batch_scalar(
        &self,
        keys: &Vec<[u8; 32]>,
        nonces: &Vec<[u8; 12]>,
        plaintexts: &Vec<Vec<u8>>,
    ) -> (out: Vec<Vec<u8>>)
        requires
            chacha20_batch_ready(keys@, nonces@, plaintexts@),
        ensures
            byte_strings(out@) == chacha20_batch(keys@, nonces@, byte_strings(plaintexts@)),
    {
        let mut out: Vec<Vec<u8>> = Vec::new();
        let mut i: usize = 0;
        while i < keys.len()
            invariant
                chacha20_batch_ready(keys@, nonces@, plaintexts@),
                i <= keys@.len(),
                out@.len() == i,
                forall|k: int|
                    0 <= k < i ==> (#[trigger] out@[k])@ == chacha20_stream(
                        keys@[k]@,
                        nonces@[k]@,
                        plaintexts@[k]@,
                    ),
            decreases keys@.len() - i,
        {
            out.push(chacha20_single(&keys[i], &nonces[i], &plaintexts[i]));
            i += 1;
        }
        proof {
            assert(byte_strings(out@) =~= chacha20_batch(
                keys@,
                nonces@,
                byte_strings(plaintexts@),
            ));
        }
        out
    }

    /// What is known of the accelerator's instruction sets.
    pub fn get_simd_info(&self) -> (info: SimdInfo)
        ensures
            info == (SimdInfo {
                features: self.detected_features,
                simd_capable: self.simd_capable,
                optimal_batch_size: 1024,
            }),
    {
        SimdInfo {
            features: self.detected_features,
            simd_capable: self.simd_capable,
            optimal_batch_size: 1024,
        }
    }
}

/// Decrypting an encrypted batch under the same keys and nonces gives the
/// texts back.
pub proof fn batch_round_trip(keys: Seq<[u8; 32]>, nonces: Seq<[u8; 12]>, texts: Seq<Seq<u8>>)
    ensures
        chacha20_batch(keys, nonces, chacha20_batch(keys, nonces, texts)) == texts,
{
    let once = chacha20_batch(keys, nonces, texts);
    let twice = chacha20_batch(keys, nonces, once);
    assert forall|i: int| 0 <= i < texts.len() implies twice[i] == texts[i] by {
        chacha20_is_involution(keys[i]@, nonces[i]@, texts[i]);
    }
    assert(twice =~= texts);
}

} // verus!
