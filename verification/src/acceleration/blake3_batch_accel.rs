//! Keyed BLAKE3 over batches.

use vstd::prelude::*;

use crate::acceleration::chacha20_batch_accel::SimdFeatures;
use crate::acceleration::parallel::{
    blake3_batch, blake3_single, byte_strings, parallel_blake3, parallel_sort,
};
use crate::crypto::primitives::blake3_keyed_digest;

verus! {

/// The sizes of a processor's caches, in bytes.
#[derive(Debug, Clone, Copy)]
pub struct CacheEffectModel {
    pub l1_cache_size: usize,
    pub l2_cache_size: usize,
    pub l3_cache_size: usize,
    pub cache_line_size: usize,
}

/// The number of cache lines that data of a size occupies.
pub open spec fn lines_for(size: nat, line: nat) -> nat {
    (size + line - 1) as nat / line
}

impl CacheEffectModel {
    /// Usual cache sizes.
    pub fn new() -> (m: Self)
        ensures
            m == (CacheEffectModel {
                l1_cache_size: 32768,
                l2_cache_size: 262144,
                l3_cache_size: 8388608,
                cache_line_size: 64,
            }),
    {
        CacheEffectModel {
            l1_cache_size: 32768,
            l2_cache_size: 262144,
            l3_cache_size: 8388608,
            cache_line_size: 64,
        }
    }

    /// The largest cache that data of a size does not fit into.
    pub open spec fn exceeded(self, size: usize) -> nat {
        if size <= self.l2_cache_size {
            self.l1_cache_size as nat
        } else if size <= self.l3_cache_size {
            self.l2_cache_size as nat
        } else {
            self.l3_cache_size as nat
        }
    }

    /// The expected number of cache misses for data of a size: the lines that
    /// go beyond the largest cache that the data does not fit into.
    pub fn cache_misses(&self, size: usize) -> (n: usize)
        requires
            self.cache_line_size > 0,
            size + self.cache_line_size <= usize::MAX,
            self.l1_cache_size <= self.l2_cache_size <= self.l3_cache_size,
        ensures
            n == if size <= self.l1_cache_size {
                0
            } else {
                lines_for(size as nat, self.cache_line_size as nat) - self.exceeded(size)
                    / self.cache_line_size as nat
            },
            size <= self.l1_cache_size ==> n == 0,
            ({
                let line = self.cache_line_size as int;
                let lines = (size + line - 1) / line;
                &&& self.l1_cache_size < size <= self.l2_cache_size ==> n
                    == lines - self.l1_cache_size as int
                    / line
                &&& self.l2_cache_size < size <= self.l3_cache_size ==> n
                    == lines - self.l2_cache_size as int
                    / line
                &&& size > self.l3_cache_size ==> n == lines - self.l3_cache_size as int / line
            }),
    {
        let line: usize = self.cache_line_size;
        let lines: usize = (size + line - 1) / line;
        proof {
            let cache = self.exceeded(size);
            if size > self.l1_cache_size {
                assert(cache <= size);
                assert(cache / line as nat <= lines) by (nonlinear_arith)
                    requires
                        cache <= size,
                        line > 0,
                        lines == (size + line - 1) / line as int,
                ;
            }
        }
        if size <= self.l1_cache_size {
            0
        } else if size <= self.l2_cache_size {
            lines - self.l1_cache_size / line
        } else if size <= self.l3_cache_size {
            lines - self.l2_cache_size / line
        } else {
            lines - self.l3_cache_size / line
        }
    }

    /// The size that suits the smallest cache.
    pub fn optimal_size(&self) -> (n: usize)
        ensures
            n == self.l1_cache_size / 2,
    {
        self.l1_cache_size / 2
    }
}

/// Settings of the accelerator.
#[derive(Debug, Clone, Copy)]
pub struct Blake3BatchConfig {
    pub simd_width: usize,
    pub enable_avx2: bool,
    pub enable_avx512: bool,
    pub enable_neon: bool,
    pub enable_parallel_hashing: bool,
    pub batch_alignment: usize,
    pub max_concurrent_batches: usize,
    pub cache_model: CacheEffectModel,
}

impl Blake3BatchConfig {
    /// The usual settings, with a given vector width.
    pub open spec fn with_width(simd_width: usize) -> Blake3BatchConfig {
        Blake3BatchConfig {
            simd_width,
            enable_avx2: true,
            enable_avx512: false,
            enable_neon: true,
            enable_parallel_hashing: true,
            batch_alignment: 64,
            max_concurrent_batches: 8,
            cache_model: CacheEffectModel {
                l1_cache_size: 32768,
                l2_cache_size: 262144,
                l3_cache_size: 8388608,
                cache_line_size: 64,
            },
        }
    }
}

impl Default for Blake3BatchConfig {
    fn default() -> (c: Self)
        ensures
            c == Self::with_width(8),
    {
        Blake3BatchConfig {
            simd_width: 8,
            enable_avx2: true,
            enable_avx512: false,
            enable_neon: true,
            enable_parallel_hashing: true,
            batch_alignment: 64,
            max_concurrent_batches: 8,
            cache_model: CacheEffectModel::new(),
        }
    }
}

/// What is known of the accelerator.
#[derive(Debug, Clone, Copy)]
pub struct Blake3PerformanceInfo {
    pub simd_capable: bool,
    pub optimal_batch_size: usize,
    pub avx512_enabled: bool,
    pub avx2_enabled: bool,
    pub neon_enabled: bool,
    pub aes_ni_enabled: bool,
    pub cache_optimal_size: usize,
}

/// Runs keyed BLAKE3 over batches.
#[derive(Debug, Clone, Copy)]
pub struct Blake3BatchAccelerator {
    pub config: Blake3BatchConfig,
    pub simd_capable: bool,
    pub detected_features: SimdFeatures,
}

impl Blake3BatchAccelerator {
    /// An accelerator for a processor with the given instruction sets.
    pub fn new(simd_width: usize, features: SimdFeatures) -> (a: Self)
        ensures
            a == (Blake3BatchAccelerator {
                config: Blake3BatchConfig::with_width(simd_width),
                simd_capable: features.vectors(),
                detected_features: features,
            }),
    {
        let mut config: Blake3BatchConfig = Blake3BatchConfig::default();
        config.simd_width = simd_width;
        Blake3BatchAccelerator {
            config,
            simd_capable: features.simd_capable(),
            detected_features: features,
        }
    }

    /// Hashes a batch. Whatever the strategy, the `i`-th result is the hash of
    /// the `i`-th input under the `i`-th key.
    pub fn hash_keyed_batch(&self, keys: &Vec<[u8; 32]>, inputs: &Vec<Vec<u8>>) -> (out: Vec<
        [u8; 32],
    >)
        requires
            keys@.len() == inputs@.len(),
        ensures
            out@.len() == inputs@.len(),
            forall|i: int|
                0 <= i < out@.len() ==> (#[trigger] out@[i])@ == blake3_keyed_digest(
                    keys@[i]@,
                    inputs@[i]@,
                ),
            out@.map_values(|d: [u8; 32]| d@) == blake3_batch(keys@, byte_strings(inputs@)),
    {
        let batch_size: usize = keys.len();
        let use_parallel: bool = self.config.enable_parallel_hashing && batch_size >= 4;
        let out: Vec<[u8; 32]> = if use_parallel && batch_size >= 16 {
            self.hash_keyed_batch_parallel_optimized(keys, inputs)
        } else if use_parallel {
            let positions: Vec<usize> = all_positions(batch_size);
            parallel_blake3(keys, inputs, positions)
        } else {
            self.hash_keyed_batch_scalar(keys, inputs)
        };
        proof {
            assert(out@.map_values(|d: [u8; 32]| d@) =~= blake3_batch(
                keys@,
                byte_strings(inputs@),
            ));
        }
        out
    }

    /// Hashes the inputs in the order of their lengths, so that neighbouring
    /// work is of similar size, and puts the results back in place.
    fn hash_keyed_batch_parallel_optimized(
        &self,
        keys: &Vec<[u8; 32]>,
        inputs: &Vec<Vec<u8>>,
    ) -> (out: Vec<[u8; 32]>)
        requires
            keys@.len() == inputs@.len(),
        ensures
            out@.len() == inputs@.len(),
            forall|i: int|
                0 <= i < out@.len() ==> (#[trigger] out@[i])@ == blake3_keyed_digest(
                    keys@[i]@,
                    inputs@[i]@,
                ),
    {
        let n: usize = keys.len();
        let mut pairs: Vec<(usize, usize)> = Vec::new();
        let mut i: usize = 0;
        while i < n
            invariant
                i <= n,
                n == inputs@.len(),
                pairs@.len() == i,
                forall|k: int| 0 <= k < i ==> (#[trigger] pairs@[k]).1 == k,
            decreases n - i,
        {
            pairs.push((inputs[i].len(), i));
            i += 1;
        }
        let ghost unsorted = pairs@;
        let order: Vec<(usize, usize)> = parallel_sort(pairs);
        proof {
            same_entries(unsorted, order@);
        }
        let mut positions: Vec<usize> = Vec::new();
        let mut k: usize = 0;
        while k < order.len()
            invariant
                k <= order@.len(),
                positions@.len() == k,
                forall|j: int| 0 <= j < k ==> (#[trigger] positions@[j]) == order@[j].1,
            decreases order@.len() - k,
        {
            positions.push(order[k].1);
            k += 1;
        }
        proof {
            assert forall|j: int| 0 <= j < positions@.len() implies (#[trigger] positions@[j])
                < n by {
                assert(unsorted.contains(order@[j]));
            }
        }
        let ghost spots = positions@;
        let sorted_results: Vec<[u8; 32]> = parallel_blake3(keys, inputs, positions);
        let mut out: Vec<[u8; 32]> = vec![[0u8; 32]; n];
        let mut p: usize = 0;
        while p < order.len()
            invariant
                p <= order@.len(),
                out@.len() == n,
                n == keys@.len(),
                n == inputs@.len(),
                spots.len() == order@.len(),
                sorted_results@.len() == spots.len(),
                forall|j: int| 0 <= j < spots.len() ==> (#[trigger] spots[j]) == order@[j].1,
                forall|j: int| 0 <= j < spots.len() ==> (#[trigger] spots[j]) < n,
                forall|j: int|
                    0 <= j < spots.len() ==> (#[trigger] sorted_results@[j])@
                        == blake3_keyed_digest(
                        keys@[spots[j] as int]@,
                        inputs@[spots[j] as int]@,
                    ),
                forall|j: int|
                    0 <= j < p ==> out@[#[trigger] spots[j] as int]@ == blake3_keyed_digest(
                        keys@[spots[j] as int]@,
                        inputs@[spots[j] as int]@,
                    ),
            decreases order@.len() - p,
        {
            assert(spots[p as int] == order@[p as int].1);
            let idx: usize = order[p].1;
            out.set(idx, sorted_results[p]);
            p += 1;
        }
        proof {
            assert forall|i: int| 0 <= i < out@.len() implies (#[trigger] out@[i])@
                == blake3_keyed_digest(keys@[i]@, inputs@[i]@) by {
                assert(unsorted[i].1 == i);
                assert(order@.contains(unsorted[i]));
                let j = choose|j: int| 0 <= j < order@.len() && order@[j] == unsorted[i];
                assert(spots[j] == i);
            }
        }
        out
    }

    fn hash_keyed_batch_scalar(&self, keys: &Vec<[u8; 32]>, inputs: &Vec<Vec<u8>>) -> (out: Vec<
        [u8; 32],
    >)
        requires
            keys@.len() == inputs@.len(),
        ensures
            out@.len() == inputs@.len(),
            forall|i: int|
                0 <= i < out@.len() ==> (#[trigger] out@[i])@ == blake3_keyed_digest(
                    keys@[i]@,
                    inputs@[i]@,
                ),
    {
        let mut out: Vec<[u8; 32]> = Vec::new();
        let mut i: usize = 0;
        while i < keys.len()
            invariant
                keys@.len() == inputs@.len(),
                i <= keys@.len(),
                out@.len() == i,
                forall|k: int|
                    0 <= k < i ==> (#[trigger] out@[k])@ == blake3_keyed_digest(
                        keys@[k]@,
                        inputs@[k]@,
                    ),
            decreases keys@.len() - i,
        {
            out.push(blake3_single(&keys[i], &inputs[i]));
            i += 1;
        }
        out
    }

    /// What is known of the accelerator.
    pub fn get_performance_info(&self) -> (info: Blake3PerformanceInfo)
        requires
            self.config.simd_width * 4 <= usize::MAX,
        ensures
            info.simd_capable == self.simd_capable,
            info.optimal_batch_size == self.config.simd_width * 4,
            info.avx512_enabled == self.detected_features.avx512,
            info.avx2_enabled == self.detected_features.avx2,
            info.neon_enabled == self.detected_features.neon,
            info.aes_ni_enabled == self.detected_features.aes_ni,
            info.cache_optimal_size == self.config.cache_model.l1_cache_size / 2,
    {
        Blake3PerformanceInfo {
            simd_capable: self.simd_capable,
            optimal_batch_size: self.config.simd_width * 4,
            avx512_enabled: self.detected_features.avx512,
            avx2_enabled: self.detected_features.avx2,
            neon_enabled: self.detected_features.neon,
            aes_ni_enabled: self.detected_features.aes_ni,
            cache_optimal_size: self.config.cache_model.optimal_size(),
        }
    }
}

/// The positions from zero to `n`, exclusive.
fn all_positions(n: usize) -> (v: Vec<usize>)
    ensures
        v@.len() == n,
        forall|i: int| 0 <= i < n ==> (#[trigger] v@[i]) == i,
{
    let mut v: Vec<usize> = Vec::new();
    let mut i: usize = 0;
    while i < n
        invariant
            i <= n,
            v@.len() == i,
            forall|k: int| 0 <= k < i ==> (#[trigger] v@[k]) == k,
        decreases n - i,
    {
        v.push(i);
        i += 1;
    }
    v
}

proof fn same_entries(a: Seq<(usize, usize)>, b: Seq<(usize, usize)>)
    requires
        a.to_multiset() =~= b.to_multiset(),
    ensures
        a.len() == b.len(),
        forall|i: int| 0 <= i < b.len() ==> a.contains(#[trigger] b[i]),
        forall|i: int| 0 <= i < a.len() ==> b.contains(#[trigger] a[i]),
{
    broadcast use vstd::seq_lib::group_to_multiset_ensures;

    assert(a.to_multiset().len() == b.to_multiset().len());
    assert forall|i: int| 0 <= i < b.len() implies a.contains(#[trigger] b[i]) by {
        assert(b.to_multiset().count(b[i]) > 0);
        assert(a.to_multiset().count(b[i]) > 0);
    }
    assert forall|i: int| 0 <= i < a.len() implies b.contains(#[trigger] a[i]) by {
        assert(a.to_multiset().count(a[i]) > 0);
        assert(b.to_multiset().count(a[i]) > 0);
    }
}

} // verus!
