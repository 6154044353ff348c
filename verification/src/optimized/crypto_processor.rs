//! The crypto processor: single operations, batches, and the bookkeeping of
//! its workers.
//!
//! Points in time and durations are nanoseconds.

use std::collections::VecDeque;
use vstd::prelude::*;
use vstd::std_specs::vecdeque::*;
use vstd::string::*;

use crate::acceleration::blake3_batch_accel::{Blake3BatchAccelerator, Blake3BatchConfig};
use crate::acceleration::chacha20_batch_accel::{
    ChaCha20BatchAccelerator, ChaCha20BatchConfig, MIN_SIMD_SIZE, SimdFeatures,
};
use crate::acceleration::parallel::{blake3_single, byte_strings, chacha20_single};
use crate::bounds::{cap, capped};
use crate::crypto::primitives::{
    CHACHA20_KEYSTREAM_LIMIT, HASH_INPUT_LIMIT, blake3_extended, blake3_keyed_digest, blake3_xof,
    chacha20_is_involution, chacha20_stream, hkdf_sha256, hkdf_sha256_output, hkdf_sha512,
    hkdf_sha512_output,
};
use crate::dash::{Counters, count_of, counted};
use crate::history::{
    filter_step, is_percentile, mean, mean_u64, percentile, remember, remembered, to_list,
};
use crate::measure::Measure;
use crate::store::NumberedStore;
use crate::text::{decimal, decimal_string, str_equal};

verus! {

/// The worker number that results of a batch carry.
pub const BATCH_WORKER_ID: usize = 999;

/// How many times and queue lengths are remembered.
pub const CRYPTO_HISTORY: usize = 1000;

/// From this many waiting operations on, ciphers and hashes run as a batch.
pub const BATCH_THRESHOLD: usize = 4;

/// From this many waiting derivations on, they are taken from the queue.
pub const DERIVE_THRESHOLD: usize = 2;

/// A worker looks for work to steal at most this often.
pub const STEAL_CHECK_INTERVAL: u64 = 10_000_000;

/// How a key is derived.
#[derive(Debug, Clone, Copy, PartialEq, Eq, Structural)]
pub enum KeyDerivationAlgorithm {
    Blake3,
    HkdfSha256,
    HkdfSha512,
}

/// A cryptographic operation.
#[derive(Debug, Clone)]
pub enum CryptoOperation {
    EncryptChaCha20 { key: [u8; 32], nonce: [u8; 12], plaintext: Vec<u8> },
    DecryptChaCha20 { key: [u8; 32], nonce: [u8; 12], ciphertext: Vec<u8> },
    HashBlake3 { key: [u8; 32], data: Vec<u8> },
    DeriveKey {
        algorithm: KeyDerivationAlgorithm,
        input: Vec<u8>,
        context: Vec<u8>,
        output_len: usize,
    },
}

/// A string of zero bytes.
pub open spec fn zeros(n: nat) -> Seq<u8> {
    Seq::new(n, |i: int| 0u8)
}

/// The output of a key derivation. HKDF gives one digest; for any other length
/// its output stays zero.
pub open spec fn derived(
    algorithm: KeyDerivationAlgorithm,
    input: Seq<u8>,
    context: Seq<u8>,
    output_len: nat,
) -> Seq<u8> {
    match algorithm {
        KeyDerivationAlgorithm::Blake3 => blake3_extended(input + context, output_len),
        KeyDerivationAlgorithm::HkdfSha256 => if output_len == 32 {
            hkdf_sha256_output(input, context)
        } else {
            zeros(output_len)
        },
        KeyDerivationAlgorithm::HkdfSha512 => if output_len == 64 {
            hkdf_sha512_output(input, context)
        } else {
            zeros(output_len)
        },
    }
}

impl CryptoOperation {
    /// The number of input bytes.
    pub open spec fn input_len(self) -> nat {
        match self {
            CryptoOperation::EncryptChaCha20 { plaintext, .. } => plaintext@.len(),
            CryptoOperation::DecryptChaCha20 { ciphertext, .. } => ciphertext@.len(),
            CryptoOperation::HashBlake3 { data, .. } => data@.len(),
            CryptoOperation::DeriveKey { input, .. } => input@.len(),
        }
    }

    /// What the operation gives.
    pub open spec fn outcome(self) -> Seq<u8> {
        match self {
            CryptoOperation::EncryptChaCha20 { key, nonce, plaintext } => chacha20_stream(
                key@,
                nonce@,
                plaintext@,
            ),
            CryptoOperation::DecryptChaCha20 { key, nonce, ciphertext } => chacha20_stream(
                key@,
                nonce@,
                ciphertext@,
            ),
            CryptoOperation::HashBlake3 { key, data } => blake3_keyed_digest(key@, data@),
            CryptoOperation::DeriveKey { algorithm, input, context, output_len } => derived(
                algorithm,
                input@,
                context@,
                output_len as nat,
            ),
        }
    }

    /// How many bytes the operation gives.
    pub open spec fn outcome_len(self) -> nat {
        match self {
            CryptoOperation::HashBlake3 { .. } => 32,
            CryptoOperation::DeriveKey { output_len, .. } => output_len as nat,
            _ => self.input_len(),
        }
    }

    /// The name under which the operation is counted.
    pub open spec fn counter(self) -> Seq<char> {
        match self {
            CryptoOperation::EncryptChaCha20 { .. } => "total_encryptions"@,
            CryptoOperation::DecryptChaCha20 { .. } => "total_decryptions"@,
            CryptoOperation::HashBlake3 { .. } => "total_hashes"@,
            CryptoOperation::DeriveKey { .. } => "total_derivations"@,
        }
    }

    /// Whether the operation is within the limits of its algorithm.
    pub open spec fn runnable(self) -> bool {
        match self {
            CryptoOperation::EncryptChaCha20 { plaintext, .. } => plaintext@.len()
                <= CHACHA20_KEYSTREAM_LIMIT,
            CryptoOperation::DecryptChaCha20 { ciphertext, .. } => ciphertext@.len()
                <= CHACHA20_KEYSTREAM_LIMIT,
            CryptoOperation::HashBlake3 { .. } => true,
            CryptoOperation::DeriveKey { input, context, output_len, .. } => {
                &&& output_len <= isize::MAX
                &&& input@.len() <= HASH_INPUT_LIMIT
                &&& context@.len() <= HASH_INPUT_LIMIT
            },
        }
    }

    /// The number of input bytes.
    pub fn size_bytes(&self) -> (n: usize)
        ensures
            n == self.input_len(),
    {
        match self {
            CryptoOperation::EncryptChaCha20 { plaintext, .. } => plaintext.len(),
            CryptoOperation::DecryptChaCha20 { ciphertext, .. } => ciphertext.len(),
            CryptoOperation::HashBlake3 { data, .. } => data.len(),
            CryptoOperation::DeriveKey { input, .. } => input.len(),
        }
    }

    /// Whether vector instructions help with the operation.
    pub fn uses_simd(&self) -> (r: bool)
        ensures
            r == !(*self is DeriveKey),
    {
        !matches!(self, CryptoOperation::DeriveKey { .. })
    }
}

/// Derives a key.
pub fn derive_key(
    algorithm: KeyDerivationAlgorithm,
    input: &Vec<u8>,
    context: &Vec<u8>,
    output_len: usize,
) -> (out: Vec<u8>)
    requires
        output_len <= isize::MAX,
        input@.len() <= HASH_INPUT_LIMIT,
        context@.len() <= HASH_INPUT_LIMIT,
    ensures
        out@ == derived(algorithm, input@, context@, output_len as nat),
        out@.len() == output_len,
{
    let filled: Option<Vec<u8>> = match algorithm {
        KeyDerivationAlgorithm::Blake3 => Some(
            blake3_xof(input.as_slice(), context.as_slice(), output_len),
        ),
        KeyDerivationAlgorithm::HkdfSha256 => hkdf_sha256(
            input.as_slice(),
            context.as_slice(),
            output_len,
        ),
        KeyDerivationAlgorithm::HkdfSha512 => hkdf_sha512(
            input.as_slice(),
            context.as_slice(),
            output_len,
        ),
    };
    match filled {
        Some(out) => out,
        None => {
            let out: Vec<u8> = vec![0u8; output_len];
            proof {
                assert(out@ =~= zeros(output_len as nat));
            }
            out
        },
    }
}

/// An operation waiting to be done.
#[derive(Debug, Clone)]
pub struct CryptoTask {
    pub id: u64,
    pub operation: CryptoOperation,
    pub session_id: Vec<u8>,
    pub priority: u8,
    pub created_at: u64,
    pub size_bytes: usize,
}

impl CryptoTask {
    /// A task for an operation.
    pub fn new(
        id: u64,
        operation: CryptoOperation,
        session_id: Vec<u8>,
        priority: u8,
        now: u64,
    ) -> (t: Self)
        ensures
            t.id == id,
            t.operation == operation,
            t.session_id == session_id,
            t.priority == priority,
            t.created_at == now,
            t.size_bytes == operation.input_len(),
    {
        let size_bytes: usize = operation.size_bytes();
        CryptoTask { id, operation, session_id, priority, created_at: now, size_bytes }
    }
}

/// What became of a task.
#[derive(Debug)]
pub struct CryptoResult {
    pub id: u64,
    pub result: Result<Vec<u8>, String>,
    pub processing_time: u64,
    pub worker_id: usize,
    pub was_stolen: bool,
    pub queue_time: u64,
}

impl CryptoResult {
    /// Whether this is a success with the given bytes and record.
    pub open spec fn reports(
        self,
        id: u64,
        data: Seq<u8>,
        processing_time: u64,
        worker_id: usize,
        was_stolen: bool,
        queue_time: u64,
    ) -> bool {
        &&& self.id == id
        &&& self.result matches Ok(d) && d@ == data
        &&& self.processing_time == processing_time
        &&& self.worker_id == worker_id
        &&& self.was_stolen == was_stolen
        &&& self.queue_time == queue_time
    }
}

/// The time from `earlier` to `later`, zero if `later` comes first.
pub open spec fn span(later: u64, earlier: u64) -> u64 {
    if later >= earlier {
        (later - earlier) as u64
    } else {
        0
    }
}

/// What one worker keeps in mind.
#[derive(Debug, Clone, Copy)]
pub struct CryptoWorker {
    pub worker_id: usize,
    pub tasks_processed: u64,
    pub total_processing_time: u64,
    pub last_steal_check: u64,
}

/// When workers steal. Shares are thousandths.
#[derive(Debug, Clone, Copy)]
pub struct CryptoWorkStealingModel {
    pub num_workers: usize,
    pub steal_probability: u64,
    /// Workers whose queues are shorter may steal.
    pub steal_threshold: usize,
    /// How unevenly the workers are loaded.
    pub imbalance: Measure,
    pub steal_efficiency: u64,
}

impl CryptoWorkStealingModel {
    /// Workers count as evenly loaded to begin with.
    pub fn new(num_workers: usize) -> (m: Self)
        ensures
            m == (CryptoWorkStealingModel {
                num_workers,
                steal_probability: 100,
                steal_threshold: 10,
                imbalance: Measure { at_least: 0, at_most: 0 },
                steal_efficiency: 800,
            }),
    {
        CryptoWorkStealingModel {
            num_workers,
            steal_probability: 100,
            steal_threshold: 10,
            imbalance: Measure::exact(0),
            steal_efficiency: 800,
        }
    }
}

/// The processor.
pub struct OptimizedCryptoProcessor {
    pub num_workers: usize,
    pub results: NumberedStore<CryptoResult>,
    pub stats: Counters,
    pub processing_times: VecDeque<u64>,
    pub queue_lengths: VecDeque<usize>,
    pub chacha20_accelerator: ChaCha20BatchAccelerator,
    pub blake3_accelerator: Blake3BatchAccelerator,
    pub is_running: bool,
    pub next_task_id: u64,
    pub chacha_batch_buffer: Vec<CryptoTask>,
    pub blake_batch_buffer: Vec<CryptoTask>,
    pub derive_batch_buffer: Vec<CryptoTask>,
    pub work_stealing_model: CryptoWorkStealingModel,
    pub enable_simd: bool,
    pub enable_work_stealing: bool,
}

/// Whether all tasks of a list can be run.
pub open spec fn all_runnable(tasks: Seq<CryptoTask>) -> bool {
    forall|i: int| 0 <= i < tasks.len() ==> (#[trigger] tasks[i]).operation.runnable()
}

/// Whether a task is a cipher operation.
pub open spec fn is_cipher(t: CryptoTask) -> bool {
    t.operation is EncryptChaCha20 || t.operation is DecryptChaCha20
}

/// Whether a task is a hash operation.
pub open spec fn is_hash(t: CryptoTask) -> bool {
    t.operation is HashBlake3
}

/// The position of the last task of the given number.
pub open spec fn last_of(tasks: Seq<CryptoTask>, id: u64) -> Option<int>
    decreases tasks.len(),
{
    if tasks.len() == 0 {
        None
    } else if tasks.last().id == id {
        Some(tasks.len() - 1)
    } else {
        last_of(tasks.drop_last(), id)
    }
}

/// The results after the tasks of a list were done as one batch, in order: for
/// every number the result of its last task, and all else as before.
pub open spec fn batch_done(
    before: Map<u64, CryptoResult>,
    after: Map<u64, CryptoResult>,
    done: Seq<CryptoTask>,
    elapsed: u64,
) -> bool {
    forall|id: u64| #![trigger after.contains_key(id)]
        match last_of(done, id) {
            None => after.contains_key(id) == before.contains_key(id) && (before.contains_key(id)
                ==> after[id] == before[id]),
            Some(i) => after.contains_key(id) && after[id].reports(
                id,
                done[i].operation.outcome(),
                elapsed,
                BATCH_WORKER_ID,
                false,
                0,
            ),
        }
}

proof fn last_of_is_valid(tasks: Seq<CryptoTask>, id: u64)
    ensures
        last_of(tasks, id) matches Some(i) ==> 0 <= i < tasks.len() && tasks[i].id == id,
    decreases tasks.len(),
{
    if tasks.len() > 0 {
        last_of_is_valid(tasks.drop_last(), id);
    }
}

proof fn batch_step(
    before: Map<u64, CryptoResult>,
    current: Map<u64, CryptoResult>,
    done: Seq<CryptoTask>,
    p: int,
    r: CryptoResult,
    elapsed: u64,
)
    requires
        0 <= p < done.len(),
        batch_done(before, current, done.take(p), elapsed),
        r.reports(
            done[p].id,
            done[p].operation.outcome(),
            elapsed,
            BATCH_WORKER_ID,
            false,
            0,
        ),
    ensures
        batch_done(before, current.insert(done[p].id, r), done.take(p + 1), elapsed),
{
    let longer = done.take(p + 1);
    let after = current.insert(done[p].id, r);
    assert(longer.drop_last() =~= done.take(p));
    assert(longer.last() == done[p]);
    assert forall|id: u64| #![trigger after.contains_key(id)]
        match last_of(longer, id) {
            None => after.contains_key(id) == before.contains_key(id) && (before.contains_key(id)
                ==> after[id] == before[id]),
            Some(i) => after.contains_key(id) && after[id].reports(
                id,
                longer[i].operation.outcome(),
                elapsed,
                BATCH_WORKER_ID,
                false,
                0,
            ),
        } by {
        last_of_is_valid(done.take(p), id);
        assert(match last_of(done.take(p), id) {
            None => current.contains_key(id) == before.contains_key(id),
            Some(_) => current.contains_key(id),
        });
    }
}

/// The key of a cipher or hash operation.
pub open spec fn key_of(op: CryptoOperation) -> Seq<u8> {
    match op {
        CryptoOperation::EncryptChaCha20 { key, .. } => key@,
        CryptoOperation::DecryptChaCha20 { key, .. } => key@,
        CryptoOperation::HashBlake3 { key, .. } => key@,
        CryptoOperation::DeriveKey { .. } => Seq::empty(),
    }
}

/// The nonce of a cipher operation.
pub open spec fn nonce_of(op: CryptoOperation) -> Seq<u8> {
    match op {
        CryptoOperation::EncryptChaCha20 { nonce, .. } => nonce@,
        CryptoOperation::DecryptChaCha20 { nonce, .. } => nonce@,
        _ => Seq::empty(),
    }
}

/// The text of a cipher or hash operation.
pub open spec fn text_of(op: CryptoOperation) -> Seq<u8> {
    match op {
        CryptoOperation::EncryptChaCha20 { plaintext, .. } => plaintext@,
        CryptoOperation::DecryptChaCha20 { ciphertext, .. } => ciphertext@,
        CryptoOperation::HashBlake3 { data, .. } => data@,
        CryptoOperation::DeriveKey { .. } => Seq::empty(),
    }
}

/// The tasks of a list that are cipher operations.
pub open spec fn ciphers(tasks: Seq<CryptoTask>) -> Seq<CryptoTask> {
    tasks.filter(|t: CryptoTask| is_cipher(t))
}

/// The tasks of a list that are hash operations.
pub open spec fn hashes(tasks: Seq<CryptoTask>) -> Seq<CryptoTask> {
    tasks.filter(|t: CryptoTask| is_hash(t))
}

fn batch_result(id: u64, data: Vec<u8>, elapsed: u64) -> (r: CryptoResult)
    ensures
        r.reports(id, data@, elapsed, BATCH_WORKER_ID, false, 0),
{
    CryptoResult {
        id,
        result: Ok(data),
        processing_time: elapsed,
        worker_id: BATCH_WORKER_ID,
        was_stolen: false,
        queue_time: 0,
    }
}

impl CryptoWorker {
    /// A worker that has done nothing yet.
    pub fn new(worker_id: usize, now: u64) -> (w: Self)
        ensures
            w == (CryptoWorker {
                worker_id,
                tasks_processed: 0,
                total_processing_time: 0,
                last_steal_check: now,
            }),
    {
        CryptoWorker { worker_id, tasks_processed: 0, total_processing_time: 0, last_steal_check: now }
    }
}

/// The sum of some queue lengths.
pub open spec fn lengths_total(lengths: Seq<usize>) -> nat
    decreases lengths.len(),
{
    if lengths.len() == 0 {
        0
    } else {
        lengths_total(lengths.drop_last()) + lengths.last() as nat
    }
}

fn sum_lengths(lengths: &VecDeque<usize>) -> (n: u128)
    requires
        lengths@.len() <= CRYPTO_HISTORY,
    ensures
        n == lengths_total(lengths@),
        n <= CRYPTO_HISTORY * 0xffff_ffff_ffff_ffff,
{
    let mut n: u128 = 0;
    let mut i: usize = 0;
    proof {
        assert(lengths@.take(0) =~= Seq::empty());
    }
    while i < lengths.len()
        invariant
            i <= lengths@.len() <= CRYPTO_HISTORY,
            n == lengths_total(lengths@.take(i as int)),
            n <= i * 0xffff_ffff_ffff_ffff,
        decreases lengths@.len() - i,
    {
        proof {
            assert(lengths@.take(i as int + 1).drop_last() =~= lengths@.take(i as int));
        }
        n = n + lengths[i] as u128;
        i += 1;
    }
    proof {
        assert(lengths@.take(i as int) =~= lengths@);
    }
    n
}

impl OptimizedCryptoProcessor {
    /// What holds of every processor.
    pub open spec fn wf(self) -> bool {
        &&& self.results.wf()
        &&& self.processing_times@.len() <= CRYPTO_HISTORY
        &&& self.queue_lengths@.len() <= CRYPTO_HISTORY
    }

    /// Everything but results and counters is as it was.
    pub open spec fn same_setup(self, before: Self) -> bool {
        &&& self.num_workers == before.num_workers
        &&& self.processing_times == before.processing_times
        &&& self.queue_lengths == before.queue_lengths
        &&& self.chacha20_accelerator == before.chacha20_accelerator
        &&& self.blake3_accelerator == before.blake3_accelerator
        &&& self.is_running == before.is_running
        &&& self.next_task_id == before.next_task_id
        &&& self.work_stealing_model == before.work_stealing_model
        &&& self.enable_simd == before.enable_simd
        &&& self.enable_work_stealing == before.enable_work_stealing
    }

    /// Whether this is a processor as it is made: it runs, and nothing was done
    /// yet.
    pub open spec fn is_new(self, num_workers: usize, features: SimdFeatures) -> bool {
        &&& self.num_workers == num_workers
        &&& self.results.map() == Map::<u64, CryptoResult>::empty()
        &&& self.stats@ == Map::<Seq<char>, u64>::empty()
        &&& self.processing_times@.len() == 0
        &&& self.queue_lengths@.len() == 0
        &&& self.chacha_batch_buffer@.len() == 0
        &&& self.blake_batch_buffer@.len() == 0
        &&& self.derive_batch_buffer@.len() == 0
        &&& self.is_running
        &&& self.next_task_id == 1
        &&& self.work_stealing_model == (CryptoWorkStealingModel {
            num_workers,
            steal_probability: 100,
            steal_threshold: 10,
            imbalance: Measure { at_least: 0, at_most: 0 },
            steal_efficiency: 800,
        })
        &&& self.enable_simd
        &&& self.enable_work_stealing
        &&& self.chacha20_accelerator == (ChaCha20BatchAccelerator {
            config: ChaCha20BatchConfig::with_width(8),
            simd_capable: features.vectors(),
            detected_features: features,
        })
        &&& self.blake3_accelerator == (Blake3BatchAccelerator {
            config: Blake3BatchConfig::with_width(8),
            simd_capable: features.vectors(),
            detected_features: features,
        })
    }

    /// A running processor with nothing done.
    pub fn new(num_workers: usize, features: SimdFeatures) -> (p: Self)
        ensures
            p.wf(),
            p.is_new(num_workers, features),
    {
        OptimizedCryptoProcessor {
            num_workers,
            results: NumberedStore::new(),
            stats: Counters::new(),
            processing_times: VecDeque::new(),
            queue_lengths: VecDeque::new(),
            chacha20_accelerator: ChaCha20BatchAccelerator::new(8, features),
            blake3_accelerator: Blake3BatchAccelerator::new(8, features),
            is_running: true,
            next_task_id: 1,
            chacha_batch_buffer: Vec::new(),
            blake_batch_buffer: Vec::new(),
            derive_batch_buffer: Vec::new(),
            work_stealing_model: CryptoWorkStealingModel::new(num_workers),
            enable_simd: true,
            enable_work_stealing: true,
        }
    }

    /// Does one operation, through the accelerators where they help. The
    /// result is the same either way.
    pub fn run_operation(&self, operation: &CryptoOperation) -> (out: Vec<u8>)
        requires
            operation.runnable(),
        ensures
            out@ == operation.outcome(),
            out@.len() == operation.outcome_len(),
    {
        match operation {
            CryptoOperation::EncryptChaCha20 { key, nonce, plaintext } => {
                self.run_cipher(key, nonce, plaintext)
            },
            CryptoOperation::DecryptChaCha20 { key, nonce, ciphertext } => {
                self.run_cipher(key, nonce, ciphertext)
            },
            CryptoOperation::HashBlake3 { key, data } => {
                if self.enable_simd && data.len() >= MIN_SIMD_SIZE {
                    let keys: Vec<[u8; 32]> = vec![*key];
                    let mut inputs: Vec<Vec<u8>> = Vec::new();
                    inputs.push(vstd::slice::slice_to_vec(data.as_slice()));
                    let digests: Vec<[u8; 32]> = self.blake3_accelerator.hash_keyed_batch(
                        &keys,
                        &inputs,
                    );
                    vstd::slice::slice_to_vec(digests[0].as_slice())
                } else {
                    let digest: [u8; 32] = blake3_single(key, data);
                    vstd::slice::slice_to_vec(digest.as_slice())
                }
            },
            CryptoOperation::DeriveKey { algorithm, input, context, output_len } => {
                derive_key(*algorithm, input, context, *output_len)
            },
        }
    }

    fn run_cipher(&self, key: &[u8; 32], nonce: &[u8; 12], text: &Vec<u8>) -> (out: Vec<u8>)
        requires
            text@.len() <= CHACHA20_KEYSTREAM_LIMIT,
        ensures
            out@ == chacha20_stream(key@, nonce@, text@),
    {
        if self.enable_simd {
            let keys: Vec<[u8; 32]> = vec![*key];
            let nonces: Vec<[u8; 12]> = vec![*nonce];
            let mut texts: Vec<Vec<u8>> = Vec::new();
            texts.push(vstd::slice::slice_to_vec(text.as_slice()));
            let out: Vec<Vec<u8>> = self.chacha20_accelerator.encrypt_batch(&keys, &nonces, &texts);
            proof {
                assert(byte_strings(out@)[0] == out@[0]@);
                assert(byte_strings(texts@)[0] == texts@[0]@);
            }
            vstd::slice::slice_to_vec(out[0].as_slice())
        } else {
            chacha20_single(key, nonce, text)
        }
    }

    /// Counts an operation and does it.
    pub fn begin_task(&mut self, task: &CryptoTask) -> (data: Vec<u8>)
        requires
            old(self).wf(),
            task.operation.runnable(),
        ensures
            final(self).wf(),
            data@ == task.operation.outcome(),
            data@.len() == task.operation.outcome_len(),
            final(self).stats@ == counted(old(self).stats@, task.operation.counter(), 1),
            final(self).results == old(self).results,
            final(self).same_setup(*old(self)),
            final(self).chacha_batch_buffer == old(self).chacha_batch_buffer,
            final(self).blake_batch_buffer == old(self).blake_batch_buffer,
            final(self).derive_batch_buffer == old(self).derive_batch_buffer,
    {
        match &task.operation {
            CryptoOperation::EncryptChaCha20 { .. } => self.stats.add("total_encryptions", 1),
            CryptoOperation::DecryptChaCha20 { .. } => self.stats.add("total_decryptions", 1),
            CryptoOperation::HashBlake3 { .. } => self.stats.add("total_hashes", 1),
            CryptoOperation::DeriveKey { .. } => self.stats.add("total_derivations", 1),
        }
        self.run_operation(&task.operation)
    }

    /// Stores and returns the result of a task that began at `start_time`.
    pub fn finish_task(
        &mut self,
        worker_id: usize,
        task: &CryptoTask,
        data: Vec<u8>,
        was_stolen: bool,
        start_time: u64,
        processing_time: u64,
    ) -> (r: CryptoResult)
        requires
            old(self).wf(),
        ensures
            final(self).wf(),
            r.reports(
                task.id,
                data@,
                processing_time,
                worker_id,
                was_stolen,
                span(start_time, task.created_at),
            ),
            final(self).results.map().contains_key(task.id),
            final(self).results.map()[task.id].reports(
                task.id,
                data@,
                processing_time,
                worker_id,
                was_stolen,
                span(start_time, task.created_at),
            ),
            final(self).results.map().remove(task.id) == old(self).results.map().remove(task.id),
            final(self).stats@ == counted(old(self).stats@, "total_tasks_processed"@, 1),
            final(self).same_setup(*old(self)),
            final(self).chacha_batch_buffer == old(self).chacha_batch_buffer,
            final(self).blake_batch_buffer == old(self).blake_batch_buffer,
            final(self).derive_batch_buffer == old(self).derive_batch_buffer,
    {
        let queue_time: u64 = start_time.saturating_sub(task.created_at);
        let copy: Vec<u8> = vstd::slice::slice_to_vec(data.as_slice());
        let stored: CryptoResult = CryptoResult {
            id: task.id,
            result: Ok(copy),
            processing_time,
            worker_id,
            was_stolen,
            queue_time,
        };
        self.results.insert(task.id, stored);
        self.stats.add("total_tasks_processed", 1);
        proof {
            assert(self.results.map().remove(task.id) =~= old(self).results.map().remove(task.id));
        }
        CryptoResult {
            id: task.id,
            result: Ok(data),
            processing_time,
            worker_id,
            was_stolen,
            queue_time,
        }
    }

    /// Does a task and stores its result.
    pub fn process_task(
        &mut self,
        worker_id: usize,
        task: &CryptoTask,
        was_stolen: bool,
        start_time: u64,
        processing_time: u64,
    ) -> (r: CryptoResult)
        requires
            old(self).wf(),
            task.operation.runnable(),
        ensures
            final(self).wf(),
            r.reports(
                task.id,
                task.operation.outcome(),
                processing_time,
                worker_id,
                was_stolen,
                span(start_time, task.created_at),
            ),
            r.result matches Ok(data) && data@ == task.operation.outcome(),
            r.id == task.id,
            r.worker_id == worker_id,
            r.was_stolen == was_stolen,
            r.processing_time == processing_time,
            r.queue_time == if start_time >= task.created_at {
                start_time - task.created_at
            } else {
                0
            },
            r.result matches Ok(data) ==> data@.len() == task.operation.outcome_len(),
            final(self).results.map().contains_key(task.id),
            final(self).results.map()[task.id].reports(
                task.id,
                task.operation.outcome(),
                processing_time,
                worker_id,
                was_stolen,
                span(start_time, task.created_at),
            ),
            final(self).results.map().remove(task.id) == old(self).results.map().remove(task.id),
            final(self).stats@ == counted(
                counted(old(self).stats@, task.operation.counter(), 1),
                "total_tasks_processed"@,
                1,
            ),
            final(self).same_setup(*old(self)),
            final(self).chacha_batch_buffer == old(self).chacha_batch_buffer,
            final(self).blake_batch_buffer == old(self).blake_batch_buffer,
            final(self).derive_batch_buffer == old(self).derive_batch_buffer,
    {
        let data: Vec<u8> = self.begin_task(task);
        self.finish_task(worker_id, task, data, was_stolen, start_time, processing_time)
    }

    /// Does the cipher operations of a list as one batch; other operations in
    /// the list are left out, but counted.
    pub fn process_chacha_batch(&mut self, tasks: &Vec<CryptoTask>, elapsed: u64)
        requires
            old(self).wf(),
            all_runnable(tasks@),
        ensures
            final(self).wf(),
            batch_done(
                old(self).results.map(),
                final(self).results.map(),
                ciphers(tasks@),
                elapsed,
            ),
            final(self).stats@ == counted(
                counted(old(self).stats@, "chacha_batch_operations"@, tasks@.len() as u64),
                "chacha_batches"@,
                1,
            ),
            final(self).same_setup(*old(self)),
            final(self).chacha_batch_buffer == old(self).chacha_batch_buffer,
            final(self).blake_batch_buffer == old(self).blake_batch_buffer,
            final(self).derive_batch_buffer == old(self).derive_batch_buffer,
    {
        let ghost selected = |t: CryptoTask| is_cipher(t);
        let ghost done = tasks@.filter(selected);
        let mut keys: Vec<[u8; 32]> = Vec::new();
        let mut nonces: Vec<[u8; 12]> = Vec::new();
        let mut texts: Vec<Vec<u8>> = Vec::new();
        let mut ids: Vec<u64> = Vec::new();
        let mut all_encryptions: bool = true;
        let mut i: usize = 0;
        proof {
            reveal(Seq::filter);
            assert(tasks@.take(0).filter(selected) =~= Seq::<CryptoTask>::empty());
        }
        while i < tasks.len()
            invariant
                i <= tasks@.len(),
                all_runnable(tasks@),
                selected == (|t: CryptoTask| is_cipher(t)),
                ({
                    let part = tasks@.take(i as int).filter(selected);
                    &&& keys@.len() == part.len()
                    &&& nonces@.len() == part.len()
                    &&& texts@.len() == part.len()
                    &&& ids@.len() == part.len()
                    &&& forall|k: int|
                        0 <= k < part.len() ==> {
                            &&& is_cipher(#[trigger] part[k])
                            &&& part[k].operation.runnable()
                            &&& keys@[k]@ == key_of(part[k].operation)
                            &&& nonces@[k]@ == nonce_of(part[k].operation)
                            &&& texts@[k]@ == text_of(part[k].operation)
                            &&& ids@[k] == part[k].id
                        }
                }),
            decreases tasks@.len() - i,
        {
            proof {
                filter_step(tasks@, selected, i as int);
                assert(tasks@[i as int].operation.runnable());
            }
            let task: &CryptoTask = &tasks[i];
            match &task.operation {
                CryptoOperation::EncryptChaCha20 { key, nonce, plaintext } => {
                    keys.push(*key);
                    nonces.push(*nonce);
                    texts.push(vstd::slice::slice_to_vec(plaintext.as_slice()));
                    ids.push(task.id);
                },
                CryptoOperation::DecryptChaCha20 { key, nonce, ciphertext } => {
                    keys.push(*key);
                    nonces.push(*nonce);
                    texts.push(vstd::slice::slice_to_vec(ciphertext.as_slice()));
                    ids.push(task.id);
                    all_encryptions = false;
                },
                _ => {},
            }
            i += 1;
        }
        proof {
            assert(tasks@.take(tasks@.len() as int) =~= tasks@);
            assert(forall|k: int|
                0 <= k < texts@.len() ==> (#[trigger] texts@[k])@ == text_of(done[k].operation));
            assert forall|k: int| 0 <= k < texts@.len() implies (#[trigger] texts@[k])@.len()
                <= CHACHA20_KEYSTREAM_LIMIT by {
                assert(done[k].operation.runnable());
            }
        }
        let processed: Vec<Vec<u8>> = if all_encryptions {
            self.chacha20_accelerator.encrypt_batch(&keys, &nonces, &texts)
        } else {
            self.chacha20_accelerator.decrypt_batch(&keys, &nonces, &texts)
        };
        proof {
            assert forall|k: int| 0 <= k < done.len() implies (#[trigger] processed@[k])@
                == done[k].operation.outcome() by {
                assert(byte_strings(processed@)[k] == processed@[k]@);
                assert(byte_strings(texts@)[k] == texts@[k]@);
                assert(is_cipher(done[k]));
            }
            assert forall|k: int| 0 <= k < done.len() implies #[trigger] ids@[k] == done[k].id by {
                assert(is_cipher(done[k]));
            }
        }
        self.store_batch(&ids, &processed, Ghost(done), elapsed);
        self.stats.add("chacha_batch_operations", tasks.len() as u64);
        self.stats.add("chacha_batches", 1);
    }

    /// Stores the results of a batch, in order.
    fn store_batch(
        &mut self,
        ids: &Vec<u64>,
        processed: &Vec<Vec<u8>>,
        Ghost(done): Ghost<Seq<CryptoTask>>,
        elapsed: u64,
    )
        requires
            old(self).wf(),
            ids@.len() == done.len(),
            processed@.len() == done.len(),
            forall|k: int| 0 <= k < done.len() ==> #[trigger] ids@[k] == done[k].id,
            forall|k: int|
                0 <= k < done.len() ==> (#[trigger] processed@[k])@ == done[k].operation.outcome(),
        ensures
            final(self).wf(),
            batch_done(old(self).results.map(), final(self).results.map(), done, elapsed),
            final(self).stats == old(self).stats,
            final(self).same_setup(*old(self)),
            final(self).chacha_batch_buffer == old(self).chacha_batch_buffer,
            final(self).blake_batch_buffer == old(self).blake_batch_buffer,
            final(self).derive_batch_buffer == old(self).derive_batch_buffer,
    {
        let ghost before = *self;
        let mut p: usize = 0;
        while p < ids.len()
            invariant
                p <= ids@.len(),
                ids@.len() == done.len(),
                processed@.len() == done.len(),
                self.wf(),
                forall|k: int| 0 <= k < done.len() ==> #[trigger] ids@[k] == done[k].id,
                forall|k: int|
                    0 <= k < done.len() ==> (#[trigger] processed@[k])@
                        == done[k].operation.outcome(),
                batch_done(before.results.map(), self.results.map(), done.take(p as int), elapsed),
                self.stats == before.stats,
                self.same_setup(before),
                self.chacha_batch_buffer == before.chacha_batch_buffer,
                self.blake_batch_buffer == before.blake_batch_buffer,
                self.derive_batch_buffer == before.derive_batch_buffer,
            decreases ids@.len() - p,
        {
            let data: Vec<u8> = vstd::slice::slice_to_vec(processed[p].as_slice());
            let r: CryptoResult = batch_result(ids[p], data, elapsed);
            let ghost current = self.results.map();
            let ghost stored = r;
            self.results.insert(ids[p], r);
            proof {
                batch_step(before.results.map(), current, done, p as int, stored, elapsed);
            }
            p += 1;
        }
        proof {
            assert(done.take(done.len() as int) =~= done);
        }
    }

    /// Does the hash operations of a list as one batch; other operations in
    /// the list are left out, but counted.
    pub fn process_blake_batch(&mut self, tasks: &Vec<CryptoTask>, elapsed: u64)
        requires
            old(self).wf(),
        ensures
            final(self).wf(),
            batch_done(
                old(self).results.map(),
                final(self).results.map(),
                hashes(tasks@),
                elapsed,
            ),
            final(self).stats@ == counted(
                counted(old(self).stats@, "blake_batch_operations"@, tasks@.len() as u64),
                "blake_batches"@,
                1,
            ),
            final(self).same_setup(*old(self)),
            final(self).chacha_batch_buffer == old(self).chacha_batch_buffer,
            final(self).blake_batch_buffer == old(self).blake_batch_buffer,
            final(self).derive_batch_buffer == old(self).derive_batch_buffer,
    {
        let ghost selected = |t: CryptoTask| is_hash(t);
        let ghost done = tasks@.filter(selected);
        let mut keys: Vec<[u8; 32]> = Vec::new();
        let mut inputs: Vec<Vec<u8>> = Vec::new();
        let mut ids: Vec<u64> = Vec::new();
        let mut i: usize = 0;
        proof {
            reveal(Seq::filter);
            assert(tasks@.take(0).filter(selected) =~= Seq::<CryptoTask>::empty());
        }
        while i < tasks.len()
            invariant
                i <= tasks@.len(),
                selected == (|t: CryptoTask| is_hash(t)),
                ({
                    let part = tasks@.take(i as int).filter(selected);
                    &&& keys@.len() == part.len()
                    &&& inputs@.len() == part.len()
                    &&& ids@.len() == part.len()
                    &&& forall|k: int|
                        0 <= k < part.len() ==> {
                            &&& is_hash(#[trigger] part[k])
                            &&& keys@[k]@ == key_of(part[k].operation)
                            &&& inputs@[k]@ == text_of(part[k].operation)
                            &&& ids@[k] == part[k].id
                        }
                }),
            decreases tasks@.len() - i,
        {
            proof {
                filter_step(tasks@, selected, i as int);
            }
            let task: &CryptoTask = &tasks[i];
            match &task.operation {
                CryptoOperation::HashBlake3 { key, data } => {
                    keys.push(*key);
                    inputs.push(vstd::slice::slice_to_vec(data.as_slice()));
                    ids.push(task.id);
                },
                _ => {},
            }
            i += 1;
        }
        proof {
            assert(tasks@.take(tasks@.len() as int) =~= tasks@);
        }
        let digests: Vec<[u8; 32]> = self.blake3_accelerator.hash_keyed_batch(&keys, &inputs);
        let mut processed: Vec<Vec<u8>> = Vec::new();
        let mut k: usize = 0;
        while k < digests.len()
            invariant
                k <= digests@.len(),
                processed@.len() == k,
                forall|j: int| 0 <= j < k ==> (#[trigger] processed@[j])@ == digests@[j]@,
            decreases digests@.len() - k,
        {
            processed.push(vstd::slice::slice_to_vec(digests[k].as_slice()));
            k += 1;
        }
        proof {
            assert forall|j: int| 0 <= j < done.len() implies (#[trigger] processed@[j])@
                == done[j].operation.outcome() by {
                assert(is_hash(done[j]));
                assert(digests@[j]@ == blake3_keyed_digest(keys@[j]@, inputs@[j]@));
            }
            assert forall|j: int| 0 <= j < done.len() implies #[trigger] ids@[j] == done[j].id by {
                assert(is_hash(done[j]));
            }
        }
        self.store_batch(&ids, &processed, Ghost(done), elapsed);
        self.stats.add("blake_batch_operations", tasks.len() as u64);
        self.stats.add("blake_batches", 1);
    }
}

/// What is taken from a queue: everything, once it has enough entries.
pub open spec fn taken(queue: Seq<CryptoTask>, threshold: nat) -> Seq<CryptoTask> {
    if queue.len() >= threshold {
        queue
    } else {
        Seq::empty()
    }
}

/// What is left in a queue after a batch was taken.
pub open spec fn left(queue: Seq<CryptoTask>, threshold: nat) -> Seq<CryptoTask> {
    if queue.len() >= threshold {
        Seq::empty()
    } else {
        queue
    }
}

/// Takes everything from a queue that has enough entries.
fn take_batch(queue: &mut Vec<CryptoTask>, threshold: usize) -> (batch: Vec<CryptoTask>)
    ensures
        batch@ == taken(old(queue)@, threshold as nat),
        final(queue)@ == left(old(queue)@, threshold as nat),
{
    let mut batch: Vec<CryptoTask> = Vec::new();
    if queue.len() >= threshold {
        batch.append(queue);
    }
    batch
}

impl OptimizedCryptoProcessor {
    /// One round of the batch processor: four or more waiting ciphers run as a
    /// batch, then four or more waiting hashes; two or more waiting
    /// derivations leave their queue.
    pub fn batch_tick(&mut self, elapsed: u64)
        requires
            old(self).wf(),
            all_runnable(old(self).chacha_batch_buffer@),
        ensures
            final(self).wf(),
            final(self).same_setup(*old(self)),
            final(self).chacha_batch_buffer@ == left(
                old(self).chacha_batch_buffer@,
                BATCH_THRESHOLD as nat,
            ),
            final(self).blake_batch_buffer@ == left(
                old(self).blake_batch_buffer@,
                BATCH_THRESHOLD as nat,
            ),
            final(self).derive_batch_buffer@ == left(
                old(self).derive_batch_buffer@,
                DERIVE_THRESHOLD as nat,
            ),
            ({
                let c = taken(old(self).chacha_batch_buffer@, BATCH_THRESHOLD as nat);
                let b = taken(old(self).blake_batch_buffer@, BATCH_THRESHOLD as nat);
                let after_c = if c.len() == 0 {
                    old(self).stats@
                } else {
                    counted(
                        counted(old(self).stats@, "chacha_batch_operations"@, c.len() as u64),
                        "chacha_batches"@,
                        1,
                    )
                };
                &&& final(self).stats@ == if b.len() == 0 {
                    after_c
                } else {
                    counted(
                        counted(after_c, "blake_batch_operations"@, b.len() as u64),
                        "blake_batches"@,
                        1,
                    )
                }
                &&& exists|mid: Map<u64, CryptoResult>|
                    #![trigger batch_done(old(self).results.map(), mid, ciphers(c), elapsed)]
                    {
                        &&& batch_done(old(self).results.map(), mid, ciphers(c), elapsed)
                        &&& batch_done(mid, final(self).results.map(), hashes(b), elapsed)
                    }
            }),
    {
        let c: Vec<CryptoTask> = take_batch(&mut self.chacha_batch_buffer, BATCH_THRESHOLD);
        proof {
            reveal(Seq::filter);
        }
        if c.len() > 0 {
            self.process_chacha_batch(&c, elapsed);
        }
        let ghost mid = self.results.map();
        assert(batch_done(old(self).results.map(), mid, ciphers(c@), elapsed));
        let b: Vec<CryptoTask> = take_batch(&mut self.blake_batch_buffer, BATCH_THRESHOLD);
        if b.len() > 0 {
            self.process_blake_batch(&b, elapsed);
        }
        assert(batch_done(mid, self.results.map(), hashes(b@), elapsed));
        let _derivations: Vec<CryptoTask> = take_batch(
            &mut self.derive_batch_buffer,
            DERIVE_THRESHOLD,
        );
    }

    /// A worker starts a round: it remembers the length of its queue, and
    /// decides whether to steal. It steals where its queue is short and the
    /// imbalance of the load exceeds three tenths, and looks at that no more
    /// than every ten milliseconds.
    pub fn worker_round(
        &mut self,
        worker: &mut CryptoWorker,
        queue_len: usize,
        now: u64,
    ) -> (steal: bool)
        requires
            old(self).wf(),
        ensures
            final(self).wf(),
            final(self).queue_lengths@ == remembered(
                old(self).queue_lengths@,
                queue_len,
                CRYPTO_HISTORY as nat,
            ),
            *final(self) == (OptimizedCryptoProcessor {
                queue_lengths: final(self).queue_lengths,
                ..*old(self)
            }),
            ({
                let due = old(self).enable_work_stealing && now - old(worker).last_steal_check
                    > STEAL_CHECK_INTERVAL;
                let model = old(self).work_stealing_model;
                &&& steal == (due && queue_len < model.steal_threshold && model.imbalance.is_above(
                    300,
                ))
                &&& *final(worker) == (CryptoWorker {
                    last_steal_check: if due {
                        now
                    } else {
                        old(worker).last_steal_check
                    },
                    ..*old(worker)
                })
            }),
    {
        remember(&mut self.queue_lengths, queue_len, CRYPTO_HISTORY);
        if self.enable_work_stealing && now.saturating_sub(worker.last_steal_check)
            > STEAL_CHECK_INTERVAL {
            worker.last_steal_check = now;
            let model: CryptoWorkStealingModel = self.work_stealing_model;
            queue_len < model.steal_threshold && model.imbalance.above(300)
        } else {
            false
        }
    }

    /// A worker has done a task of its own queue.
    pub fn own_task_done(&mut self, worker: &mut CryptoWorker, processing_time: u64)
        requires
            old(self).wf(),
            old(worker).tasks_processed < u64::MAX,
            old(worker).total_processing_time + processing_time <= u64::MAX,
        ensures
            final(self).wf(),
            final(self).processing_times@ == remembered(
                old(self).processing_times@,
                processing_time,
                CRYPTO_HISTORY as nat,
            ),
            final(self).stats@ == counted(
                counted(
                    old(self).stats@,
                    "worker_"@ + decimal(old(worker).worker_id as nat) + "_tasks"@,
                    1,
                ),
                "worker_"@ + decimal(old(worker).worker_id as nat) + "_time"@,
                processing_time,
            ),
            *final(self) == (OptimizedCryptoProcessor {
                stats: final(self).stats,
                processing_times: final(self).processing_times,
                ..*old(self)
            }),
            *final(worker) == (CryptoWorker {
                tasks_processed: (old(worker).tasks_processed + 1) as u64,
                total_processing_time: (old(worker).total_processing_time
                    + processing_time) as u64,
                ..*old(worker)
            }),
    {
        worker.total_processing_time = worker.total_processing_time + processing_time;
        worker.tasks_processed = worker.tasks_processed + 1;
        remember(&mut self.processing_times, processing_time, CRYPTO_HISTORY);
        let name: String = String::from_str("worker_").concat(
            decimal_string(worker.worker_id as u64).as_str(),
        );
        let tasks: String = name.clone().concat("_tasks");
        let time: String = name.concat("_time");
        self.stats.add(tasks.as_str(), 1);
        self.stats.add(time.as_str(), processing_time);
    }

    /// A worker has taken a task that was not its own.
    pub fn stolen_task_done(&mut self, worker: &mut CryptoWorker)
        requires
            old(self).wf(),
            old(worker).tasks_processed < u64::MAX,
        ensures
            final(self).wf(),
            final(self).stats@ == counted(old(self).stats@, "crypto_steals"@, 1),
            *final(self) == (OptimizedCryptoProcessor {
                stats: final(self).stats,
                ..*old(self)
            }),
            *final(worker) == (CryptoWorker {
                tasks_processed: (old(worker).tasks_processed + 1) as u64,
                ..*old(worker)
            }),
    {
        self.stats.add("crypto_steals", 1);
        worker.tasks_processed = worker.tasks_processed + 1;
    }

    /// Refreshes the percentiles of the processing times, the mean queue length
    /// and the throughput of five seconds, both in thousandths.
    pub fn collect_stats(&mut self)
        requires
            old(self).wf(),
        ensures
            final(self).wf(),
            *final(self) == (OptimizedCryptoProcessor {
                stats: final(self).stats,
                ..*old(self)
            }),
            exists|p95: u64, p99: u64|
                #![trigger percentiles_noted(
                    old(self).stats@,
                    old(self).processing_times@,
                    p95,
                    p99,
                )]
                {
                    let timed = percentiles_noted(
                        old(self).stats@,
                        old(self).processing_times@,
                        p95,
                        p99,
                    );
                    let queued = if old(self).queue_lengths@.len() == 0 {
                        timed
                    } else {
                        timed.insert(
                            "avg_queue_length"@,
                            capped(1000 * lengths_total(old(self).queue_lengths@)
                                / old(self).queue_lengths@.len()),
                        )
                    };
                    let processed = count_of(timed, "total_tasks_processed"@);
                    &&& old(self).processing_times@.len() > 0 ==> is_percentile(
                        old(self).processing_times@,
                        95,
                        Some(p95),
                    ) && is_percentile(old(self).processing_times@, 99, Some(p99))
                    &&& final(self).stats@ == queued.insert(
                        "throughput"@,
                        capped((200 * processed) as nat),
                    )
                },
    {
        let times: Vec<u64> = to_list(&self.processing_times);
        let p95: Option<u64> = percentile(&times, 95);
        let p99: Option<u64> = percentile(&times, 99);
        let ghost mut g95: u64 = 0;
        let ghost mut g99: u64 = 0;
        if let Some(t) = p95 {
            self.stats.set("p95_processing_time_ns", t);
            proof {
                g95 = t;
            }
        }
        if let Some(t) = p99 {
            self.stats.set("p99_processing_time_ns", t);
            proof {
                g99 = t;
            }
        }
        assert(self.stats@ == percentiles_noted(old(self).stats@, times@, g95, g99));
        let processed: u64 = self.stats.value("total_tasks_processed");
        if self.queue_lengths.len() > 0 {
            let sum: u128 = sum_lengths(&self.queue_lengths);
            let mean: u128 = sum * 1000 / self.queue_lengths.len() as u128;
            self.stats.set("avg_queue_length", cap(mean));
        }
        self.stats.set("throughput", cap(processed as u128 * 200));
    }

    /// How many tasks were processed.
    pub open spec fn processed(self) -> u64 {
        count_of(self.stats@, "total_tasks_processed"@)
    }

    /// How many tasks count as successes: encryptions, decryptions and hashes.
    pub open spec fn successes(self) -> int {
        count_of(self.stats@, "total_encryptions"@) + count_of(self.stats@, "total_decryptions"@)
            + count_of(self.stats@, "total_hashes"@)
    }

    /// How many tasks count as successes, and how many were processed.
    pub fn success_counts(&self) -> (r: (u128, u64))
        ensures
            r.0 == self.successes(),
            r.0 <= 3 * u64::MAX,
            r.1 == self.processed(),
    {
        let successes: u128 = self.stats.value("total_encryptions") as u128 + self.stats.value(
            "total_decryptions",
        ) as u128 + self.stats.value("total_hashes") as u128;
        (successes, self.stats.value("total_tasks_processed"))
    }

    /// The statistics: the counters, and with them the mean processing time once
    /// there is one.
    pub open spec fn statistics(self) -> Map<Seq<char>, u64> {
        if self.processing_times@.len() > 0 {
            self.stats@.insert("avg_processing_time_ns"@, mean(self.processing_times@) as u64)
        } else {
            self.stats@
        }
    }

    /// The statistics.
    pub fn get_stats(&self) -> (s: Counters)
        ensures
            s@ == self.statistics(),
    {
        let mut s: Counters = self.stats.copy();
        if self.processing_times.len() > 0 {
            let times: Vec<u64> = to_list(&self.processing_times);
            s.set("avg_processing_time_ns", mean_u64(&times));
        }
        s
    }

    /// A statistic by name: a counter, or the mean processing time.
    pub fn stat(&self, name: &str) -> (r: Option<u64>)
        ensures
            r is Some <==> self.statistics().contains_key(name@),
            r matches Some(v) ==> v == self.statistics()[name@],
    {
        if self.processing_times.len() > 0 && str_equal(name, "avg_processing_time_ns") {
            let times: Vec<u64> = to_list(&self.processing_times);
            Some(mean_u64(&times))
        } else {
            self.stats.get(name)
        }
    }

    /// Stops the processor and empties the queues.
    pub fn shutdown(&mut self)
        requires
            old(self).wf(),
        ensures
            final(self).wf(),
            *final(self) == (OptimizedCryptoProcessor {
                is_running: false,
                chacha_batch_buffer: final(self).chacha_batch_buffer,
                blake_batch_buffer: final(self).blake_batch_buffer,
                derive_batch_buffer: final(self).derive_batch_buffer,
                ..*old(self)
            }),
            final(self).chacha_batch_buffer@.len() == 0,
            final(self).blake_batch_buffer@.len() == 0,
            final(self).derive_batch_buffer@.len() == 0,
    {
        self.is_running = false;
        self.chacha_batch_buffer.clear();
        self.blake_batch_buffer.clear();
        self.derive_batch_buffer.clear();
    }
}

/// The counters with the percentiles noted, where there are times.
pub open spec fn percentiles_noted(
    stats: Map<Seq<char>, u64>,
    times: Seq<u64>,
    p95: u64,
    p99: u64,
) -> Map<Seq<char>, u64> {
    if times.len() == 0 {
        stats
    } else {
        stats.insert("p95_processing_time_ns"@, p95).insert("p99_processing_time_ns"@, p99)
    }
}

/// An encrypted text decrypts to itself under the same key and nonce.
pub proof fn operations_round_trip(
    encrypt: CryptoOperation,
    decrypt: CryptoOperation,
    text: Seq<u8>,
)
    requires
        encrypt is EncryptChaCha20,
        decrypt is DecryptChaCha20,
        key_of(encrypt) == key_of(decrypt),
        nonce_of(encrypt) == nonce_of(decrypt),
        text_of(encrypt) == text,
        text_of(decrypt) == encrypt.outcome(),
    ensures
        decrypt.outcome() == text,
{
    chacha20_is_involution(key_of(encrypt), nonce_of(encrypt), text);
}

/// What an operation gives: a text run under its own key and nonce, the keyed
/// digest of data, or a derived key. Derivation by HKDF is for keys of the
/// length of its hash alone; other lengths come out as zeros.
pub proof fn operations_use_their_own_keys(op: CryptoOperation)
    ensures
        match op {
            CryptoOperation::EncryptChaCha20 { key, nonce, plaintext } => {
                &&& op.outcome() == chacha20_stream(key@, nonce@, plaintext@)
                &&& op.outcome_len() == plaintext@.len()
            },
            CryptoOperation::DecryptChaCha20 { key, nonce, ciphertext } => {
                &&& op.outcome() == chacha20_stream(key@, nonce@, ciphertext@)
                &&& op.outcome_len() == ciphertext@.len()
            },
            CryptoOperation::HashBlake3 { key, data } => {
                &&& op.outcome() == blake3_keyed_digest(key@, data@)
                &&& op.outcome_len() == 32
            },
            CryptoOperation::DeriveKey { algorithm, input, context, output_len } => {
                &&& op.outcome_len() == output_len
                &&& algorithm == KeyDerivationAlgorithm::Blake3 ==> op.outcome() == blake3_extended(
                    input@ + context@,
                    output_len as nat,
                )
                &&& algorithm == KeyDerivationAlgorithm::HkdfSha256 && output_len == 32
                    ==> op.outcome() == hkdf_sha256_output(input@, context@)
                &&& algorithm == KeyDerivationAlgorithm::HkdfSha512 && output_len == 64
                    ==> op.outcome() == hkdf_sha512_output(input@, context@)
                &&& (algorithm == KeyDerivationAlgorithm::HkdfSha256 && output_len != 32) || (
                algorithm == KeyDerivationAlgorithm::HkdfSha512 && output_len != 64)
                    ==> op.outcome() == Seq::new(output_len as nat, |i: int| 0u8)
            },
        },
{
}

/// Every kind of operation has a counter of its own.
pub proof fn kinds_are_counted_apart(a: CryptoOperation, b: CryptoOperation)
    ensures
        a.counter() == b.counter() <==> {
            ||| a is EncryptChaCha20 && b is EncryptChaCha20
            ||| a is DecryptChaCha20 && b is DecryptChaCha20
            ||| a is HashBlake3 && b is HashBlake3
            ||| a is DeriveKey && b is DeriveKey
        },
        a is EncryptChaCha20 ==> a.counter() == "total_encryptions"@,
        a is DecryptChaCha20 ==> a.counter() == "total_decryptions"@,
        a is HashBlake3 ==> a.counter() == "total_hashes"@,
        a is DeriveKey ==> a.counter() == "total_derivations"@,
{
    reveal_strlit("total_encryptions");
    reveal_strlit("total_decryptions");
    reveal_strlit("total_hashes");
    reveal_strlit("total_derivations");
    assert("total_encryptions"@[6] == 'e' && "total_decryptions"@[6] == 'd');
    assert("total_decryptions"@[8] == 'c' && "total_derivations"@[8] == 'r');
    assert("total_derivations"@[6] == 'd' && "total_hashes"@[6] == 'h');
}

/// A batch gives every one of its tasks a result: that of its own operation,
/// under its own number. Results of other numbers stay.
pub proof fn batches_answer_every_task(
    before: Map<u64, CryptoResult>,
    after: Map<u64, CryptoResult>,
    done: Seq<CryptoTask>,
    elapsed: u64,
    i: int,
    other: u64,
)
    requires
        batch_done(before, after, done, elapsed),
        0 <= i < done.len(),
        forall|j: int| i < j < done.len() ==> (#[trigger] done[j]).id != done[i].id,
        forall|j: int| 0 <= j < done.len() ==> (#[trigger] done[j]).id != other,
    ensures
        ({
            let id = done[i].id;
            &&& after.contains_key(id)
            &&& after[id].id == id
            &&& after[id].result matches Ok(data) && data@ == done[i].operation.outcome()
            &&& after[id].processing_time == elapsed
            &&& after.contains_key(other) == before.contains_key(other)
            &&& before.contains_key(other) ==> after[other] == before[other]
        }),
{
    last_is_found(done, i);
    none_is_found(done, other);
    assert(after.contains_key(done[i].id));
    assert(after.contains_key(other) == before.contains_key(other));
}

proof fn last_is_found(tasks: Seq<CryptoTask>, i: int)
    requires
        0 <= i < tasks.len(),
        forall|j: int| i < j < tasks.len() ==> (#[trigger] tasks[j]).id != tasks[i].id,
    ensures
        last_of(tasks, tasks[i].id) == Some(i),
    decreases tasks.len(),
{
    if i < tasks.len() - 1 {
        let rest = tasks.drop_last();
        assert(tasks[tasks.len() - 1].id != tasks[i].id);
        assert forall|j: int| i < j < rest.len() implies (#[trigger] rest[j]).id != rest[i].id by {
            assert(tasks[j].id != tasks[i].id);
        }
        last_is_found(rest, i);
    }
}

proof fn none_is_found(tasks: Seq<CryptoTask>, id: u64)
    requires
        forall|j: int| 0 <= j < tasks.len() ==> (#[trigger] tasks[j]).id != id,
    ensures
        last_of(tasks, id) is None,
    decreases tasks.len(),
{
    if tasks.len() > 0 {
        assert(tasks[tasks.len() - 1].id != id);
        none_is_found(tasks.drop_last(), id);
    }
}

/// Whatever of a batch of ciphers is to be encrypted or decrypted gets its
/// result, where no two of them have one number: it is run under its own key
/// and nonce.
pub proof fn every_cipher_gets_its_result(
    before: Map<u64, CryptoResult>,
    after: Map<u64, CryptoResult>,
    tasks: Seq<CryptoTask>,
    elapsed: u64,
    i: int,
)
    requires
        batch_done(before, after, ciphers(tasks), elapsed),
        0 <= i < tasks.len(),
        forall|a: int, b: int|
            0 <= a < b < tasks.len() ==> (#[trigger] tasks[a]).id != (#[trigger] tasks[b]).id,
    ensures
        tasks[i].operation matches CryptoOperation::EncryptChaCha20 { key, nonce, plaintext } ==> {
            &&& after.contains_key(tasks[i].id)
            &&& after[tasks[i].id].result matches Ok(data) && data@ == chacha20_stream(
                key@,
                nonce@,
                plaintext@,
            )
        },
        tasks[i].operation matches CryptoOperation::DecryptChaCha20 { key, nonce, ciphertext } ==> {
            &&& after.contains_key(tasks[i].id)
            &&& after[tasks[i].id].result matches Ok(data) && data@ == chacha20_stream(
                key@,
                nonce@,
                ciphertext@,
            )
        },
{
    let pred = |t: CryptoTask| is_cipher(t);
    if tasks[i].operation is EncryptChaCha20 || tasks[i].operation is DecryptChaCha20 {
        result_is_found(tasks, pred, i);
        assert(after.contains_key(tasks[i].id));
    }
}

/// Whatever of a batch of hashes is to be hashed gets its digest under its own
/// key, where no two of them have one number.
pub proof fn every_hash_gets_its_result(
    before: Map<u64, CryptoResult>,
    after: Map<u64, CryptoResult>,
    tasks: Seq<CryptoTask>,
    elapsed: u64,
    i: int,
)
    requires
        batch_done(before, after, hashes(tasks), elapsed),
        0 <= i < tasks.len(),
        forall|a: int, b: int|
            0 <= a < b < tasks.len() ==> (#[trigger] tasks[a]).id != (#[trigger] tasks[b]).id,
    ensures
        tasks[i].operation matches CryptoOperation::HashBlake3 { key, data } ==> {
            &&& after.contains_key(tasks[i].id)
            &&& after[tasks[i].id].result matches Ok(d) && d@ == blake3_keyed_digest(key@, data@)
        },
{
    let pred = |t: CryptoTask| is_hash(t);
    if tasks[i].operation is HashBlake3 {
        result_is_found(tasks, pred, i);
        assert(after.contains_key(tasks[i].id));
    }
}

proof fn result_is_found(tasks: Seq<CryptoTask>, pred: spec_fn(CryptoTask) -> bool, i: int)
    requires
        0 <= i < tasks.len(),
        pred(tasks[i]),
        forall|a: int, b: int|
            0 <= a < b < tasks.len() ==> (#[trigger] tasks[a]).id != (#[trigger] tasks[b]).id,
    ensures
        last_of(tasks.filter(pred), tasks[i].id) is Some,
        tasks.filter(pred)[last_of(tasks.filter(pred), tasks[i].id)->0] == tasks[i],
    decreases tasks.len(),
{
    reveal(Seq::filter);
    let rest = tasks.drop_last();
    let kept = tasks.filter(pred);
    if i == tasks.len() - 1 {
        assert(kept.last() == tasks[i]);
    } else {
        assert forall|a: int, b: int| 0 <= a < b < rest.len() implies (#[trigger] rest[a]).id != (
        #[trigger] rest[b]).id by {
            assert(tasks[a].id != tasks[b].id);
        }
        result_is_found(rest, pred, i);
        assert(tasks[i].id != tasks[tasks.len() - 1].id);
        last_is_in_range(rest.filter(pred), tasks[i].id);
        if pred(tasks.last()) {
            assert(kept.drop_last() =~= rest.filter(pred));
        }
    }
}

proof fn last_is_in_range(tasks: Seq<CryptoTask>, id: u64)
    ensures
        last_of(tasks, id) matches Some(i) ==> 0 <= i < tasks.len(),
    decreases tasks.len(),
{
    if tasks.len() > 0 {
        last_is_in_range(tasks.drop_last(), id);
    }
}

/// A queue is taken whole once it is long enough, and stays whole until then.
pub proof fn queues_wait_for_a_batch(queue: Seq<CryptoTask>, threshold: nat)
    requires
        threshold > 0,
    ensures
        queue.len() >= threshold ==> taken(queue, threshold) == queue
            && left(queue, threshold).len()
            == 0,
        queue.len() < threshold ==> taken(queue, threshold).len() == 0 && left(queue, threshold)
            == queue,
{
}

/// The total of queue lengths is their sum.
pub proof fn lengths_add_up(lengths: Seq<usize>)
    ensures
        lengths_total(lengths) == lengths.fold_left(0int, |sum: int, l: usize| sum + l),
    decreases lengths.len(),
{
    if lengths.len() > 0 {
        lengths_add_up(lengths.drop_last());
    }
}

} // verus!
