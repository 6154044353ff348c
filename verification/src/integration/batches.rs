//! Operations done in batches.

use bytes::Bytes;
use vstd::prelude::*;
use vstd::string::*;

use crate::acceleration::blake3_batch_accel::Blake3BatchAccelerator;
use crate::acceleration::chacha20_batch_accel::ChaCha20BatchAccelerator;
use crate::acceleration::parallel::byte_strings;
use crate::bounds::minus;
use crate::buffer::{bytes_as_slice, bytes_content, bytes_from_vec};
use crate::crypto::primitives::{
    CHACHA20_KEYSTREAM_LIMIT, blake3_keyed_digest, chacha20_is_involution, chacha20_stream,
};
use crate::history::filter_step;
use crate::integration::events::{
    BatchOperation, PendingBatch, ProcessResult, ProcessorType, SystemEvent,
};
use crate::types::packet_types::{is_packet_supported, reply_class, reply_handling, supported_type};
use crate::types::priority::Priority;

verus! {

/// Operations that were queued are done after this time, however few they are:
/// fifty milliseconds.
pub const QUEUE_PATIENCE: u64 = 50_000_000;

/// The processing time that is reported for a text decrypted from a queue: a
/// tenth of a millisecond.
pub const QUEUED_TIME: u64 = 100_000;

/// The number of the address that texts from a queue are written to: port 0 of
/// 127.0.0.1, the four bytes of the host before the two of the port.
pub const LOCAL_ADDR: u64 = 0x7f00_0001_0000;

/// A text to be encrypted or decrypted.
#[derive(Debug)]
pub struct CipherJob {
    pub session_id: Vec<u8>,
    pub key: [u8; 32],
    pub nonce: [u8; 12],
    pub data: Bytes,
}

impl CipherJob {
    /// What ChaCha20 makes of the text.
    pub open spec fn outcome(self) -> Seq<u8> {
        chacha20_stream(self.key@, self.nonce@, bytes_content(self.data))
    }

    /// Whether the key stream is long enough.
    pub open spec fn runnable(self) -> bool {
        bytes_content(self.data).len() <= CHACHA20_KEYSTREAM_LIMIT
    }
}

/// A text that was encrypted is decrypted to itself under the same key and
/// nonce.
pub proof fn encrypted_texts_open(a: CipherJob, b: CipherJob)
    requires
        a.key == b.key,
        a.nonce == b.nonce,
        bytes_content(b.data) == a.outcome(),
    ensures
        b.outcome() == bytes_content(a.data),
{
    chacha20_is_involution(a.key@, a.nonce@, bytes_content(a.data));
}

/// A text to be hashed.
#[derive(Debug)]
pub struct HashJob {
    pub key: [u8; 32],
    pub data: Bytes,
}

/// Data to be processed.
#[derive(Debug)]
pub struct ProcessingJob {
    pub session_id: Vec<u8>,
    pub data: Bytes,
    pub processor_type: ProcessorType,
}

/// The operations of a batch by kind.
#[derive(Debug)]
pub struct SplitBatch {
    pub encryptions: Vec<CipherJob>,
    pub decryptions: Vec<CipherJob>,
    pub hashes: Vec<HashJob>,
    pub processing: Vec<ProcessingJob>,
}

/// The encryptions among some operations, in their order.
pub open spec fn encryptions_of(ops: Seq<BatchOperation>) -> Seq<CipherJob>
    decreases ops.len(),
{
    if ops.len() == 0 {
        Seq::empty()
    } else {
        let rest = encryptions_of(ops.drop_last());
        match ops.last() {
            BatchOperation::Encryption { session_id, data, key, nonce } => rest.push(
                CipherJob { session_id, key, nonce, data },
            ),
            _ => rest,
        }
    }
}

/// The decryptions among some operations, in their order.
pub open spec fn decryptions_of(ops: Seq<BatchOperation>) -> Seq<CipherJob>
    decreases ops.len(),
{
    if ops.len() == 0 {
        Seq::empty()
    } else {
        let rest = decryptions_of(ops.drop_last());
        match ops.last() {
            BatchOperation::Decryption { session_id, data, key, nonce } => rest.push(
                CipherJob { session_id, key, nonce, data },
            ),
            _ => rest,
        }
    }
}

/// The hashes among some operations, in their order. Those without a key are
/// left out.
pub open spec fn hashes_of(ops: Seq<BatchOperation>) -> Seq<HashJob>
    decreases ops.len(),
{
    if ops.len() == 0 {
        Seq::empty()
    } else {
        let rest = hashes_of(ops.drop_last());
        match ops.last() {
            BatchOperation::Hashing { data, key: Some(key) } => rest.push(HashJob { key, data }),
            _ => rest,
        }
    }
}

/// The data to be processed among some operations, in their order.
pub open spec fn processing_of(ops: Seq<BatchOperation>) -> Seq<ProcessingJob>
    decreases ops.len(),
{
    if ops.len() == 0 {
        Seq::empty()
    } else {
        let rest = processing_of(ops.drop_last());
        match ops.last() {
            BatchOperation::Processing { session_id, data, processor_type } => rest.push(
                ProcessingJob { session_id, data, processor_type },
            ),
            _ => rest,
        }
    }
}

/// How many hashes without a key there are among some operations.
pub open spec fn keyless_of(ops: Seq<BatchOperation>) -> nat
    decreases ops.len(),
{
    if ops.len() == 0 {
        0
    } else {
        keyless_of(ops.drop_last()) + match ops.last() {
            BatchOperation::Hashing { key: None, .. } => 1nat,
            _ => 0,
        }
    }
}

/// Every operation is of one kind, and but for hashes without a key none is
/// left out.
pub proof fn splitting_keeps_operations(ops: Seq<BatchOperation>)
    ensures
        encryptions_of(ops).len() + decryptions_of(ops).len() + hashes_of(ops).len()
            + processing_of(ops).len() + keyless_of(ops) == ops.len(),
    decreases ops.len(),
{
    if ops.len() > 0 {
        splitting_keeps_operations(ops.drop_last());
    }
}

/// The encryptions of a batch are as many as its operations of that kind, and
/// each keeps its place among them, its session, its own key and nonce, and
/// its text.
pub proof fn encryptions_keep_their_keys(ops: Seq<BatchOperation>, i: int)
    requires
        0 <= i < ops.len(),
    ensures
        encryptions_of(ops).len() == ops.filter(|o: BatchOperation| o is Encryption).len(),
        ops[i] matches BatchOperation::Encryption { session_id, data, key, nonce } ==> {
            let j = ops.take(i).filter(|o: BatchOperation| o is Encryption).len() as int;
            &&& j < encryptions_of(ops).len()
            &&& encryptions_of(ops)[j] == (CipherJob { session_id, key, nonce, data })
        },
    decreases ops.len(),
{
    kinds_are_counted(ops);
    kinds_are_counted(ops.take(i));
    if i == ops.len() - 1 {
        assert(ops.take(i) =~= ops.drop_last());
    } else {
        encryptions_keep_their_keys(ops.drop_last(), i);
        assert(ops.drop_last()[i] == ops[i]);
        assert(ops.drop_last().take(i) =~= ops.take(i));
    }
}

/// The decryptions of a batch are as many as its operations of that kind, and
/// each keeps its place among them, its session, its own key and nonce, and
/// its text.
pub proof fn decryptions_keep_their_keys(ops: Seq<BatchOperation>, i: int)
    requires
        0 <= i < ops.len(),
    ensures
        decryptions_of(ops).len() == ops.filter(|o: BatchOperation| o is Decryption).len(),
        ops[i] matches BatchOperation::Decryption { session_id, data, key, nonce } ==> {
            let j = ops.take(i).filter(|o: BatchOperation| o is Decryption).len() as int;
            &&& j < decryptions_of(ops).len()
            &&& decryptions_of(ops)[j] == (CipherJob { session_id, key, nonce, data })
        },
    decreases ops.len(),
{
    kinds_are_counted(ops);
    kinds_are_counted(ops.take(i));
    if i == ops.len() - 1 {
        assert(ops.take(i) =~= ops.drop_last());
    } else {
        decryptions_keep_their_keys(ops.drop_last(), i);
        assert(ops.drop_last()[i] == ops[i]);
        assert(ops.drop_last().take(i) =~= ops.take(i));
    }
}

/// The hashes of a batch are as many as its operations of that kind with a
/// key, and each keeps its place among them, its own key and its text.
pub proof fn hashes_keep_their_keys(ops: Seq<BatchOperation>, i: int)
    requires
        0 <= i < ops.len(),
    ensures
        hashes_of(ops).len() == ops.filter(
            |o: BatchOperation| o is Hashing && o->Hashing_key is Some,
        ).len(),
        ops[i] matches BatchOperation::Hashing { data, key: Some(key) } ==> {
            let j = ops.take(i).filter(
                |o: BatchOperation| o is Hashing && o->Hashing_key is Some,
            ).len() as int;
            &&& j < hashes_of(ops).len()
            &&& hashes_of(ops)[j] == (HashJob { key, data })
        },
    decreases ops.len(),
{
    kinds_are_counted(ops);
    kinds_are_counted(ops.take(i));
    if i == ops.len() - 1 {
        assert(ops.take(i) =~= ops.drop_last());
    } else {
        hashes_keep_their_keys(ops.drop_last(), i);
        assert(ops.drop_last()[i] == ops[i]);
        assert(ops.drop_last().take(i) =~= ops.take(i));
    }
}

/// The data of a batch to be processed is as much as its operations of that
/// kind, and each keeps its place among them, its session and its processor.
pub proof fn processing_keeps_its_data(ops: Seq<BatchOperation>, i: int)
    requires
        0 <= i < ops.len(),
    ensures
        processing_of(ops).len() == ops.filter(|o: BatchOperation| o is Processing).len(),
        ops[i] matches BatchOperation::Processing { session_id, data, processor_type } ==> {
            let j = ops.take(i).filter(|o: BatchOperation| o is Processing).len() as int;
            &&& j < processing_of(ops).len()
            &&& processing_of(ops)[j] == (ProcessingJob { session_id, data, processor_type })
        },
    decreases ops.len(),
{
    kinds_are_counted(ops);
    kinds_are_counted(ops.take(i));
    if i == ops.len() - 1 {
        assert(ops.take(i) =~= ops.drop_last());
    } else {
        processing_keeps_its_data(ops.drop_last(), i);
        assert(ops.drop_last()[i] == ops[i]);
        assert(ops.drop_last().take(i) =~= ops.take(i));
    }
}

proof fn kinds_are_counted(ops: Seq<BatchOperation>)
    ensures
        encryptions_of(ops).len() == ops.filter(|o: BatchOperation| o is Encryption).len(),
        decryptions_of(ops).len() == ops.filter(|o: BatchOperation| o is Decryption).len(),
        hashes_of(ops).len() == ops.filter(
            |o: BatchOperation| o is Hashing && o->Hashing_key is Some,
        ).len(),
        processing_of(ops).len() == ops.filter(|o: BatchOperation| o is Processing).len(),
    decreases ops.len(),
{
    reveal(Seq::filter);
    if ops.len() > 0 {
        kinds_are_counted(ops.drop_last());
    }
}

/// Sorts the operations of a batch by kind.
pub fn split_operations(operations: Vec<BatchOperation>) -> (s: SplitBatch)
    ensures
        s.encryptions@ == encryptions_of(operations@),
        s.decryptions@ == decryptions_of(operations@),
        s.hashes@ == hashes_of(operations@),
        s.processing@ == processing_of(operations@),
{
    let ghost all = operations@;
    let mut left: Vec<BatchOperation> = operations;
    let mut s: SplitBatch = SplitBatch {
        encryptions: Vec::new(),
        decryptions: Vec::new(),
        hashes: Vec::new(),
        processing: Vec::new(),
    };
    let ghost mut k: int = 0;
    proof {
        assert(all.take(0) =~= Seq::empty());
        assert(all.skip(0) =~= all);
    }
    while left.len() > 0
        invariant
            0 <= k <= all.len(),
            left@ == all.skip(k),
            s.encryptions@ == encryptions_of(all.take(k)),
            s.decryptions@ == decryptions_of(all.take(k)),
            s.hashes@ == hashes_of(all.take(k)),
            s.processing@ == processing_of(all.take(k)),
        decreases left@.len(),
    {
        proof {
            assert(all.take(k + 1).drop_last() =~= all.take(k));
            assert(all.take(k + 1).last() == all[k]);
        }
        let op: BatchOperation = left.remove(0);
        match op {
            BatchOperation::Encryption { session_id, data, key, nonce } => {
                s.encryptions.push(CipherJob { session_id, key, nonce, data });
            },
            BatchOperation::Decryption { session_id, data, key, nonce } => {
                s.decryptions.push(CipherJob { session_id, key, nonce, data });
            },
            BatchOperation::Hashing { data, key } => {
                if let Some(key) = key {
                    s.hashes.push(HashJob { key, data });
                }
            },
            BatchOperation::Processing { session_id, data, processor_type } => {
                s.processing.push(ProcessingJob { session_id, data, processor_type });
            },
        }
        proof {
            assert(left@ =~= all.skip(k + 1));
            k = k + 1;
        }
    }
    proof {
        assert(all.take(k) =~= all);
    }
    s
}

/// Encrypts or decrypts texts, which for a stream cipher is the same.
pub fn run_ciphers(accelerator: &ChaCha20BatchAccelerator, jobs: &Vec<CipherJob>) -> (out: Vec<
    Vec<u8>,
>)
    requires
        forall|i: int| 0 <= i < jobs@.len() ==> (#[trigger] jobs@[i]).runnable(),
    ensures
        out@.len() == jobs@.len(),
        forall|i: int| 0 <= i < jobs@.len() ==> (#[trigger] out@[i])@ == jobs@[i].outcome(),
        forall|i: int|
            0 <= i < jobs@.len() ==> (#[trigger] out@[i])@ == chacha20_stream(
                jobs@[i].key@,
                jobs@[i].nonce@,
                bytes_content(jobs@[i].data),
            ),
{
    let mut keys: Vec<[u8; 32]> = Vec::new();
    let mut nonces: Vec<[u8; 12]> = Vec::new();
    let mut texts: Vec<Vec<u8>> = Vec::new();
    let mut i: usize = 0;
    while i < jobs.len()
        invariant
            i <= jobs@.len(),
            keys@.len() == i,
            nonces@.len() == i,
            texts@.len() == i,
            forall|k: int| 0 <= k < jobs@.len() ==> (#[trigger] jobs@[k]).runnable(),
            forall|k: int| 0 <= k < i ==> #[trigger] keys@[k] == jobs@[k].key,
            forall|k: int| 0 <= k < i ==> #[trigger] nonces@[k] == jobs@[k].nonce,
            forall|k: int| 0 <= k < i ==> (#[trigger] texts@[k])@ == bytes_content(jobs@[k].data),
        decreases jobs@.len() - i,
    {
        keys.push(jobs[i].key);
        nonces.push(jobs[i].nonce);
        texts.push(vstd::slice::slice_to_vec(bytes_as_slice(&jobs[i].data)));
        i += 1;
    }
    proof {
        assert forall|k: int| 0 <= k < texts@.len() implies (#[trigger] texts@[k])@.len()
            <= CHACHA20_KEYSTREAM_LIMIT by {
            assert(jobs@[k].runnable());
        }
    }
    let out: Vec<Vec<u8>> = accelerator.encrypt_batch(&keys, &nonces, &texts);
    proof {
        assert forall|k: int| 0 <= k < jobs@.len() implies (#[trigger] out@[k])@
            == jobs@[k].outcome() by {
            assert(byte_strings(out@)[k] == out@[k]@);
            assert(byte_strings(texts@)[k] == texts@[k]@);
        }
    }
    out
}

/// Hashes texts.
pub fn run_hashes(accelerator: &Blake3BatchAccelerator, jobs: &Vec<HashJob>) -> (out: Vec<[u8; 32]>)
    ensures
        out@.len() == jobs@.len(),
        forall|i: int|
            0 <= i < jobs@.len() ==> (#[trigger] out@[i])@ == blake3_keyed_digest(
                jobs@[i].key@,
                bytes_content(jobs@[i].data),
            ),
{
    let mut keys: Vec<[u8; 32]> = Vec::new();
    let mut inputs: Vec<Vec<u8>> = Vec::new();
    let mut i: usize = 0;
    while i < jobs.len()
        invariant
            i <= jobs@.len(),
            keys@.len() == i,
            inputs@.len() == i,
            forall|k: int| 0 <= k < i ==> #[trigger] keys@[k] == jobs@[k].key,
            forall|k: int| 0 <= k < i ==> (#[trigger] inputs@[k])@ == bytes_content(jobs@[k].data),
        decreases jobs@.len() - i,
    {
        keys.push(jobs[i].key);
        inputs.push(vstd::slice::slice_to_vec(bytes_as_slice(&jobs[i].data)));
        i += 1;
    }
    accelerator.hash_keyed_batch(&keys, &inputs)
}

/// Whether a batch is ready: it is due, or it holds three fifths of the
/// optimal number of operations.
pub open spec fn is_ready(b: PendingBatch, optimal: nat, now: u64) -> bool {
    ||| b.deadline matches Some(d) && now >= d
    ||| b.operations@.len() >= optimal * 3 / 5
}

/// A batch under a number.
pub open spec fn numbered(b: PendingBatch, id: u64) -> PendingBatch {
    PendingBatch { id, ..b }
}

/// Takes the batches that are ready, and numbers them in their order.
pub fn take_ready(
    pending: &mut Vec<PendingBatch>,
    counter: &mut u64,
    optimal: usize,
    now: u64,
) -> (ready: Vec<PendingBatch>)
    requires
        *old(counter) + old(pending)@.len() <= u64::MAX,
    ensures
        ({
            let pred = |b: PendingBatch| is_ready(b, optimal as nat, now);
            let due = old(pending)@.filter(pred);
            &&& final(pending)@ == old(pending)@.filter(|b: PendingBatch| !pred(b))
            &&& ready@.len() == due.len()
            &&& forall|i: int|
                0 <= i < due.len() ==> #[trigger] ready@[i] == numbered(
                    due[i],
                    (*old(counter) + 1 + i) as u64,
                )
            &&& *final(counter) == *old(counter) + due.len()
        }),
        ({
            let due = |b: PendingBatch|
                (b.deadline matches Some(d) && now >= d) || 5 * b.operations@.len() + 4 >= 3
                    * optimal;
            &&& ready@.len() + final(pending)@.len() == old(pending)@.len()
            &&& final(pending)@ == old(pending)@.filter(|b: PendingBatch| !due(b))
            &&& forall|i: int|
                0 <= i < ready@.len() ==> {
                    let b = old(pending)@.filter(due)[i];
                    &&& (#[trigger] ready@[i]).id == *old(counter) + 1 + i
                    &&& ready@[i] == (PendingBatch { id: ready@[i].id, ..b })
                }
        }),
{
    let ghost all = pending@;
    let ghost pred = |b: PendingBatch| is_ready(b, optimal as nat, now);
    let ghost not_pred = |b: PendingBatch| !pred(b);
    let ghost first = *counter;
    let mut ready: Vec<PendingBatch> = Vec::new();
    let mut waiting: Vec<PendingBatch> = Vec::new();
    let ghost mut k: int = 0;
    proof {
        reveal(Seq::filter);
        assert(all.take(0) =~= Seq::empty());
        assert(all.skip(0) =~= all);
    }
    while pending.len() > 0
        invariant
            0 <= k <= all.len(),
            pending@ == all.skip(k),
            first + all.len() <= u64::MAX,
            pred == (|b: PendingBatch| is_ready(b, optimal as nat, now)),
            not_pred == (|b: PendingBatch| !pred(b)),
            waiting@ == all.take(k).filter(not_pred),
            ready@.len() == all.take(k).filter(pred).len(),
            ready@.len() <= k,
            *counter == first + ready@.len(),
            forall|i: int|
                0 <= i < ready@.len() ==> #[trigger] ready@[i] == numbered(
                    all.take(k).filter(pred)[i],
                    (first + 1 + i) as u64,
                ),
        decreases pending@.len(),
    {
        proof {
            filter_step(all, pred, k);
            filter_step(all, not_pred, k);
        }
        let mut b: PendingBatch = pending.remove(0);
        let due: bool = match b.deadline {
            Some(d) => now >= d,
            None => false,
        };
        if due || b.operations.len() as u128 >= optimal as u128 * 3 / 5 {
            *counter = *counter + 1;
            b.id = *counter;
            ready.push(b);
        } else {
            waiting.push(b);
        }
        proof {
            assert(pending@ =~= all.skip(k + 1));
            k = k + 1;
        }
    }
    proof {
        assert(all.take(k) =~= all);
        let due = |b: PendingBatch|
            (b.deadline matches Some(d) && now >= d) || 5 * b.operations@.len() + 4 >= 3 * optimal;
        assert(pred =~= due);
        assert(not_pred =~= |b: PendingBatch| !due(b));
        filters_part(all, due);
    }
    *pending = waiting;
    ready
}

proof fn filters_part<T>(s: Seq<T>, pred: spec_fn(T) -> bool)
    ensures
        s.filter(pred).len() + s.filter(|x: T| !pred(x)).len() == s.len(),
    decreases s.len(),
{
    reveal(Seq::filter);
    if s.len() > 0 {
        filters_part(s.drop_last(), pred);
    }
}

/// Data to be written to a session.
#[derive(Debug)]
pub struct WriteRequest {
    pub session_id: Vec<u8>,
    pub data: Bytes,
    pub priority: Priority,
    pub requires_flush: bool,
}

/// Whether data is answered by the accelerated processor: it is not empty and
/// of a supported type.
pub open spec fn is_accelerated(data: Seq<u8>, processor_type: ProcessorType) -> bool {
    &&& data.len() > 0
    &&& supported_type(data[0]) is Some
    &&& processor_type == ProcessorType::Accelerated
}

/// How data that is processed is answered: the type of the packet that holds
/// it, its priority and whether it is flushed. Only the accelerated processor
/// answers.
pub fn route_processing(job: &ProcessingJob) -> (r: Option<(u8, Priority, bool)>)
    ensures
        ({
            let data = bytes_content(job.data);
            r == if is_accelerated(data, job.processor_type) {
                Some((data[0], reply_class(data[0]).0, reply_class(data[0]).1))
            } else {
                None
            }
        }),
        ({
            let data = bytes_content(job.data);
            let answered = data.len() > 0 && (data[0] == 0x01 || data[0] == 0x10)
                && job.processor_type is Accelerated;
            &&& r is Some <==> answered
            &&& r matches Some((t, p, flush)) ==> t == data[0] && p is Critical && flush
        }),
{
    let data: &[u8] = bytes_as_slice(&job.data);
    if data.len() == 0 {
        return None;
    }
    let packet_type: u8 = data[0];
    if !is_packet_supported(packet_type) {
        return None;
    }
    match job.processor_type {
        ProcessorType::Accelerated => {
            let (priority, flush) = reply_handling(packet_type);
            Some((packet_type, priority, flush))
        },
        _ => None,
    }
}

/// Empties a queue that is long enough, or whose entries have waited too long.
pub fn take_queue<T>(queue: &mut Vec<T>, threshold: usize, timed_out: bool) -> (taken: Option<
    Vec<T>,
>)
    ensures
        ({
            let due = old(queue)@.len() >= threshold || (timed_out && old(queue)@.len() > 0);
            &&& taken is Some <==> due
            &&& taken matches Some(v) ==> v@ == old(queue)@ && final(queue)@.len() == 0
            &&& taken is None ==> final(queue)@ == old(queue)@
        }),
{
    if queue.len() >= threshold || (timed_out && queue.len() > 0) {
        let mut taken: Vec<T> = Vec::new();
        std::mem::swap(queue, &mut taken);
        Some(taken)
    } else {
        None
    }
}

/// Operations that wait for the accelerators.
#[derive(Debug)]
pub struct SimdQueues {
    pub encryptions: Vec<CipherJob>,
    pub decryptions: Vec<CipherJob>,
    pub hashes: Vec<HashJob>,
    pub last_batch_time: u64,
}

/// What comes of the queues.
#[derive(Debug)]
pub struct SimdWork {
    /// Where the texts are written to.
    pub destination_addr: u64,
    /// For each text that was to be encrypted, its data for its session.
    pub writes: Vec<WriteRequest>,
    /// For each text that was decrypted, its plaintext.
    pub events: Vec<SystemEvent>,
    pub digests: Vec<[u8; 32]>,
}

/// Whether a queue is emptied.
pub open spec fn queue_due(len: nat, threshold: nat, timed_out: bool) -> bool {
    len >= threshold || (timed_out && len > 0)
}

/// Whether `w` writes the data of a job to its session, at once.
pub open spec fn is_write_of(job: CipherJob, w: WriteRequest) -> bool {
    &&& w.session_id@ == job.session_id@
    &&& bytes_content(w.data) == bytes_content(job.data)
    &&& w.priority == Priority::Critical
    &&& w.requires_flush
}

/// Whether `e` tells of the decryption of a job.
pub open spec fn is_decryption_of(job: CipherJob, e: SystemEvent) -> bool {
    e matches SystemEvent::DataProcessed { session_id, result, processing_time, worker_id }
        && session_id@ == job.session_id@ && result.success && result.error is None
        && result.destination_addr is None && result.was_stolen is None && processing_time
        == QUEUED_TIME && worker_id is None
        && (result.data matches Some(d) && bytes_content(d) == job.outcome())
}

impl SimdQueues {
    /// Empty queues.
    pub fn new(now: u64) -> (q: Self)
        ensures
            q.encryptions@.len() == 0,
            q.decryptions@.len() == 0,
            q.hashes@.len() == 0,
            q.last_batch_time == now,
    {
        SimdQueues {
            encryptions: Vec::new(),
            decryptions: Vec::new(),
            hashes: Vec::new(),
            last_batch_time: now,
        }
    }

    /// Whether `after` are these queues once `work` was taken from them: each
    /// queue that is long enough is emptied, and after a while each that is
    /// not empty.
    pub open spec fn has_ticked(
        self,
        after: Self,
        optimal: usize,
        now: u64,
        work: SimdWork,
    ) -> bool {
        let timed_out = minus(now as int, self.last_batch_time as int) >= QUEUE_PATIENCE;
        let enc = queue_due(self.encryptions@.len(), optimal as nat, timed_out);
        let dec = queue_due(self.decryptions@.len(), optimal as nat, timed_out);
        let hash = queue_due(self.hashes@.len(), (optimal / 2) as nat, timed_out);
        &&& after.last_batch_time == if enc || dec || hash {
            now
        } else {
            self.last_batch_time
        }
        &&& after.encryptions@ == if enc {
            Seq::empty()
        } else {
            self.encryptions@
        }
        &&& after.decryptions@ == if dec {
            Seq::empty()
        } else {
            self.decryptions@
        }
        &&& after.hashes@ == if hash {
            Seq::empty()
        } else {
            self.hashes@
        }
        &&& work.destination_addr == LOCAL_ADDR
        &&& work.writes@.len() == if enc {
            self.encryptions@.len()
        } else {
            0
        }
        &&& work.events@.len() == if dec {
            self.decryptions@.len()
        } else {
            0
        }
        &&& work.digests@.len() == if hash {
            self.hashes@.len()
        } else {
            0
        }
        &&& forall|i: int|
            0 <= i < work.writes@.len() ==> is_write_of(
                self.encryptions@[i],
                #[trigger] work.writes@[i],
            )
        &&& forall|i: int|
            0 <= i < work.events@.len() ==> is_decryption_of(
                self.decryptions@[i],
                #[trigger] work.events@[i],
            )
        &&& forall|i: int|
            0 <= i < work.digests@.len() ==> (#[trigger] work.digests@[i])@ == blake3_keyed_digest(
                self.hashes@[i].key@,
                bytes_content(self.hashes@[i].data),
            )
    }

    /// Every text fits the key stream.
    pub open spec fn runnable(self) -> bool {
        &&& forall|i: int|
            0 <= i < self.encryptions@.len() ==> (#[trigger] self.encryptions@[i]).runnable()
        &&& forall|i: int|
            0 <= i < self.decryptions@.len() ==> (#[trigger] self.decryptions@[i]).runnable()
    }

    /// Empties the queues that are long enough for a batch, or half a batch of
    /// hashes, and all that are not empty when the last batch is long ago.
    pub fn tick(
        &mut self,
        chacha20: &ChaCha20BatchAccelerator,
        blake3: &Blake3BatchAccelerator,
        optimal: usize,
        now: u64,
    ) -> (work: SimdWork)
        requires
            old(self).runnable(),
        ensures
            final(self).runnable(),
            old(self).has_ticked(*final(self), optimal, now, work),
    {
        let timed_out: bool = now.saturating_sub(self.last_batch_time) >= QUEUE_PATIENCE;
        let mut work: SimdWork = SimdWork {
            destination_addr: LOCAL_ADDR,
            writes: Vec::new(),
            events: Vec::new(),
            digests: Vec::new(),
        };
        if let Some(jobs) = take_queue(&mut self.encryptions, optimal, timed_out) {
            self.last_batch_time = now;
            work.writes = unsealed_writes(&jobs);
        }
        if let Some(jobs) = take_queue(&mut self.decryptions, optimal, timed_out) {
            self.last_batch_time = now;
            work.events = decryption_events(chacha20, &jobs);
        }
        if let Some(jobs) = take_queue(&mut self.hashes, optimal / 2, timed_out) {
            self.last_batch_time = now;
            work.digests = run_hashes(blake3, &jobs);
        }
        proof {
            let before = *old(self);
            assert(self.encryptions@ =~= if queue_due(
                before.encryptions@.len(),
                optimal as nat,
                timed_out,
            ) {
                Seq::empty()
            } else {
                before.encryptions@
            });
            assert(self.decryptions@ =~= if queue_due(
                before.decryptions@.len(),
                optimal as nat,
                timed_out,
            ) {
                Seq::empty()
            } else {
                before.decryptions@
            });
            assert(self.hashes@ =~= if queue_due(
                before.hashes@.len(),
                (optimal / 2) as nat,
                timed_out,
            ) {
                Seq::empty()
            } else {
                before.hashes@
            });
        }
        work
    }
}

fn unsealed_writes(jobs: &Vec<CipherJob>) -> (writes: Vec<WriteRequest>)
    ensures
        writes@.len() == jobs@.len(),
        forall|i: int|
            0 <= i < writes@.len() ==> is_write_of(jobs@[i], #[trigger] writes@[i]),
{
    let mut writes: Vec<WriteRequest> = Vec::new();
    let mut i: usize = 0;
    while i < jobs.len()
        invariant
            i <= jobs@.len(),
            writes@.len() == i,
            forall|k: int| 0 <= k < i ==> is_write_of(jobs@[k], #[trigger] writes@[k]),
        decreases jobs@.len() - i,
    {
        writes.push(
            WriteRequest {
                session_id: vstd::slice::slice_to_vec(jobs[i].session_id.as_slice()),
                data: jobs[i].data.clone(),
                priority: Priority::Critical,
                requires_flush: true,
            },
        );
        i += 1;
    }
    writes
}

fn decryption_events(chacha20: &ChaCha20BatchAccelerator, jobs: &Vec<CipherJob>) -> (events: Vec<
    SystemEvent,
>)
    requires
        forall|i: int| 0 <= i < jobs@.len() ==> (#[trigger] jobs@[i]).runnable(),
    ensures
        events@.len() == jobs@.len(),
        forall|i: int|
            0 <= i < events@.len() ==> is_decryption_of(jobs@[i], #[trigger] events@[i]),
{
    let texts: Vec<Vec<u8>> = run_ciphers(chacha20, jobs);
    let mut events: Vec<SystemEvent> = Vec::new();
    let mut i: usize = 0;
    while i < jobs.len()
        invariant
            i <= jobs@.len(),
            texts@.len() == jobs@.len(),
            forall|k: int| 0 <= k < jobs@.len() ==> (#[trigger] texts@[k])@ == jobs@[k].outcome(),
            events@.len() == i,
            forall|k: int| 0 <= k < i ==> is_decryption_of(jobs@[k], #[trigger] events@[k]),
        decreases jobs@.len() - i,
    {
        let text: Vec<u8> = vstd::slice::slice_to_vec(texts[i].as_slice());
        events.push(
            SystemEvent::DataProcessed {
                session_id: vstd::slice::slice_to_vec(jobs[i].session_id.as_slice()),
                result: ProcessResult {
                    success: true,
                    data: Some(bytes_from_vec(text)),
                    error: None,
                    destination_addr: None,
                    was_stolen: None,
                },
                processing_time: QUEUED_TIME,
                worker_id: None,
            },
        );
        i += 1;
    }
    events
}

/// A queue is taken once it has reached its size, the optimal one for texts and
/// half of it for hashes, and all queues are taken once fifty milliseconds have
/// passed since one was. It is taken whole, in order: every text to be encrypted
/// is written as it is, to its session, flushed and ahead of all others; every
/// other text is decrypted under its own key and nonce, and every hash is taken
/// under its own key.
pub proof fn queues_are_taken_whole(
    before: SimdQueues,
    after: SimdQueues,
    optimal: usize,
    now: u64,
    work: SimdWork,
)
    requires
        before.has_ticked(after, optimal, now, work),
    ensures
        ({
            let late = now - before.last_batch_time >= 50_000_000;
            &&& late ==> after.encryptions@.len() == 0 && after.decryptions@.len() == 0
                && after.hashes@.len() == 0
            &&& before.encryptions@.len() >= optimal ==> after.encryptions@.len() == 0
            &&& before.decryptions@.len() >= optimal ==> after.decryptions@.len() == 0
            &&& before.hashes@.len() >= optimal / 2 ==> after.hashes@.len() == 0
            &&& !late && before.encryptions@.len() < optimal ==> after.encryptions@
                == before.encryptions@
            &&& !late && before.decryptions@.len() < optimal ==> after.decryptions@
                == before.decryptions@
            &&& !late && before.hashes@.len() < optimal / 2 ==> after.hashes@ == before.hashes@
        }),
        work.writes@.len() + after.encryptions@.len() == before.encryptions@.len(),
        work.events@.len() + after.decryptions@.len() == before.decryptions@.len(),
        work.digests@.len() + after.hashes@.len() == before.hashes@.len(),
        forall|i: int|
            0 <= i < work.writes@.len() ==> {
                let job = before.encryptions@[i];
                &&& (#[trigger] work.writes@[i]).session_id@ == job.session_id@
                &&& bytes_content(work.writes@[i].data) == bytes_content(job.data)
                &&& work.writes@[i].priority is Critical
                &&& work.writes@[i].requires_flush
            },
        forall|i: int|
            0 <= i < work.events@.len() ==> {
                let job = before.decryptions@[i];
                (#[trigger] work.events@[i]) matches SystemEvent::DataProcessed {
                    session_id,
                    result,
                    ..
                } && session_id@ == job.session_id@ && result.success && (result.data matches
                    Some(d) && bytes_content(d) == chacha20_stream(
                    job.key@,
                    job.nonce@,
                    bytes_content(job.data),
                ))
            },
        forall|i: int|
            0 <= i < work.digests@.len() ==> (#[trigger] work.digests@[i])@ == blake3_keyed_digest(
                before.hashes@[i].key@,
                bytes_content(before.hashes@[i].data),
            ),
{
    assert forall|i: int| 0 <= i < work.writes@.len() implies is_write_of(
        before.encryptions@[i],
        #[trigger] work.writes@[i],
    ) by {}
    assert forall|i: int| 0 <= i < work.events@.len() implies is_decryption_of(
        before.decryptions@[i],
        #[trigger] work.events@[i],
    ) by {}
}

} // verus!
