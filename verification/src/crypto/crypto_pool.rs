//! A pool of workers that encrypt and decrypt.

use vstd::prelude::*;
use vstd::string::*;

use crate::crypto::primitives::{
    AEAD_KEYSTREAM_LIMIT, NONCE_SIZE, aead_length_defined, aes256gcm_encrypt, aes256gcm_opened,
    aes256gcm_sealed, thread_nonce,
};
use crate::crypto::session_keys::SessionKeys;
use crate::history::filter_step;
use crate::packets::packet_parser::{PacketParser, agrees, failure_text, failures_read_alike};
use crate::packets::wire_format::decoded;
use crate::text::{decimal, decimal_string, join_strings, joined};

verus! {

/// Tasks that wait for a worker, at most.
pub const TASK_QUEUE: usize = 4096;

/// Batches that wait for a worker, at most.
pub const BATCH_QUEUE: usize = 1024;

/// Batches up to this size go to the workers for single tasks.
pub const SMALL_BATCH: usize = 5;

/// Seconds to wait for a decryption.
pub const DECRYPT_TIMEOUT_SECS: u64 = 3;

/// Seconds to wait for a batch.
pub const BATCH_TIMEOUT_SECS: u64 = 5;

/// Data of a session that is to be encrypted or decrypted.
#[derive(Debug)]
pub struct SessionTask {
    pub keys: SessionKeys,
    pub data: Vec<u8>,
}

/// What came of handing work to a worker.
#[derive(Debug)]
pub enum PoolReply<T> {
    /// No worker takes work any more.
    NotSent,
    /// The worker went away without an answer.
    Abandoned,
    TimedOut,
    Answer(T),
}

/// Who takes a batch.
#[derive(Debug, Clone, Copy, PartialEq, Eq, Structural)]
pub enum BatchRoute {
    /// There is nothing to do.
    Nobody,
    TaskWorker,
    BatchWorker,
}

/// The text of the error of a packet that could not be decrypted.
pub open spec fn decryption_error(keys: SessionKeys, data: Seq<u8>) -> Seq<char> {
    match decoded(keys.sign_key@, keys.aead_key@, data) {
        Err(failure) => failure_text(failure, data),
        Ok(_) => Seq::empty(),
    }
}

/// Whether a task can be decrypted.
pub open spec fn decryptable(t: SessionTask) -> bool {
    decoded(t.keys.sign_key@, t.keys.aead_key@, t.data@) is Ok
}

/// The plaintext of a task that can be decrypted.
pub open spec fn plaintext_of(t: SessionTask) -> Seq<u8> {
    match decoded(t.keys.sign_key@, t.keys.aead_key@, t.data@) {
        Ok((_, plaintext)) => plaintext,
        Err(_) => Seq::empty(),
    }
}

/// The errors of the first `n` tasks, each with its position.
pub open spec fn batch_errors(tasks: Seq<SessionTask>, n: nat) -> Seq<Seq<char>>
    decreases n,
{
    if n == 0 {
        Seq::empty()
    } else {
        let rest = batch_errors(tasks, (n - 1) as nat);
        let t = tasks[n - 1];
        if decryptable(t) {
            rest
        } else {
            rest.push(
                "Packet "@ + decimal((n - 1) as nat) + ": "@ + decryption_error(t.keys, t.data@),
            )
        }
    }
}

/// A pool.
#[derive(Debug, Clone, Copy)]
pub struct CryptoPool {
    pub task_workers: usize,
    pub batch_workers: usize,
}

impl CryptoPool {
    /// A worker for each thread, and one for batches for every two.
    pub fn spawn(threads: usize) -> (p: Self)
        ensures
            p == (CryptoPool { task_workers: threads, batch_workers: (threads / 2) as usize }),
    {
        CryptoPool { task_workers: threads, batch_workers: threads / 2 }
    }

    /// What a decryption comes to, given what came of handing it to a worker.
    pub fn decrypt(&self, reply: PoolReply<Result<Vec<u8>, String>>) -> (r: Result<Vec<u8>, String>)
        ensures
            match reply {
                PoolReply::NotSent => r matches Err(e) && e@ == "Failed to send decryption task"@,
                PoolReply::Abandoned => r matches Err(e) && e@ == "channel closed"@,
                PoolReply::TimedOut => r matches Err(e) && e@ == "Decryption timeout"@,
                PoolReply::Answer(a) => r == a,
            },
    {
        match reply {
            PoolReply::NotSent => Err(String::from_str("Failed to send decryption task")),
            PoolReply::Abandoned => Err(String::from_str("channel closed")),
            PoolReply::TimedOut => Err(String::from_str("Decryption timeout")),
            PoolReply::Answer(a) => a,
        }
    }

    /// Encrypts under a nonce drawn at random, which precedes the result.
    pub fn encrypt(&self, keys: &SessionKeys, plaintext: &[u8]) -> (r: Result<Vec<u8>, String>)
        requires
            aead_length_defined(plaintext@.len()),
        ensures
            exists|nonce: Seq<u8>|
                nonce.len() == NONCE_SIZE && #[trigger] is_encryption(
                    *keys,
                    nonce,
                    plaintext@,
                    r,
                ),
    {
        let nonce: [u8; 12] = thread_nonce();
        self.encrypt_with(keys, &nonce, plaintext)
    }

    /// Encrypts under a nonce, which precedes the result.
    pub fn encrypt_with(&self, keys: &SessionKeys, nonce: &[u8; 12], plaintext: &[u8]) -> (r: Result<
        Vec<u8>,
        String,
    >)
        requires
            aead_length_defined(plaintext@.len()),
        ensures
            is_encryption(*keys, nonce@, plaintext@, r),
            plaintext@.len() <= AEAD_KEYSTREAM_LIMIT ==> (r matches Ok(out) && out@ == nonce@
                + aes256gcm_sealed(keys.aead_key@, nonce@, Seq::empty(), plaintext@)),
            r is Ok <==> plaintext@.len() <= AEAD_KEYSTREAM_LIMIT,
    {
        let aad: [u8; 0] = [];
        match aes256gcm_encrypt(&keys.aead_key, nonce.as_slice(), aad.as_slice(), plaintext) {
            None => Err(String::from_str("Encryption failed: aead::Error")),
            Some(sealed) => {
                let mut out: Vec<u8> = Vec::new();
                out.extend_from_slice(nonce.as_slice());
                out.extend_from_slice(sealed.as_slice());
                proof {
                    assert(aad@ =~= Seq::<u8>::empty());
                    assert(out@ =~= nonce@ + sealed@);
                    assert(out@.skip(nonce@.len() as int) =~= sealed@);
                }
                Ok(out)
            },
        }
    }

    /// Encrypts the data of each task.
    pub fn encrypt_batch(&self, tasks: &Vec<SessionTask>) -> (r: Vec<Result<Vec<u8>, String>>)
        requires
            forall|i: int|
                0 <= i < tasks@.len() ==> aead_length_defined((#[trigger] tasks@[i]).data@.len()),
        ensures
            r@.len() == tasks@.len(),
            forall|i: int|
                0 <= i < tasks@.len() ==> is_encryption_of(tasks@[i], #[trigger] r@[i]),
            forall|i: int|
                0 <= i < tasks@.len() && (#[trigger] tasks@[i]).data@.len()
                    <= AEAD_KEYSTREAM_LIMIT ==> (r@[i] matches Ok(out) && out@.len() >= 12
                        && aes256gcm_opened(
                    tasks@[i].keys.aead_key@,
                    out@.take(12),
                    Seq::empty(),
                    out@.skip(12),
                ) == Some(tasks@[i].data@)),
    {
        let mut r: Vec<Result<Vec<u8>, String>> = Vec::new();
        let mut i: usize = 0;
        while i < tasks.len()
            invariant
                i <= tasks@.len(),
                r@.len() == i,
                forall|k: int|
                    0 <= k < tasks@.len() ==> aead_length_defined(
                        (#[trigger] tasks@[k]).data@.len(),
                    ),
                forall|k: int| 0 <= k < i ==> is_encryption_of(tasks@[k], #[trigger] r@[k]),
            decreases tasks@.len() - i,
        {
            let one: Result<Vec<u8>, String> = self.encrypt(
                &tasks[i].keys,
                tasks[i].data.as_slice(),
            );
            proof {
                assert(is_encryption_of(tasks@[i as int], one));
            }
            r.push(one);
            i += 1;
        }
        proof {
            assert forall|k: int|
                0 <= k < tasks@.len() && (#[trigger] tasks@[k]).data@.len()
                    <= AEAD_KEYSTREAM_LIMIT implies (r@[k] matches Ok(out) && out@.len() >= 12
                && aes256gcm_opened(
                tasks@[k].keys.aead_key@,
                out@.take(12),
                Seq::empty(),
                out@.skip(12),
            ) == Some(tasks@[k].data@)) by {
                let t = tasks@[k];
                assert(is_encryption_of(t, r@[k]));
                let nonce = choose|nonce: Seq<u8>|
                    nonce.len() == NONCE_SIZE && #[trigger] is_encryption(
                        t.keys,
                        nonce,
                        t.data@,
                        r@[k],
                    );
                assert(r@[k]->Ok_0@.take(12) =~= nonce);
            }
        }
        r
    }

    /// Who takes a batch: small ones the workers for single tasks.
    pub fn route_batch(&self, len: usize) -> (route: BatchRoute)
        ensures
            route == if len == 0 {
                BatchRoute::Nobody
            } else if len <= SMALL_BATCH {
                BatchRoute::TaskWorker
            } else {
                BatchRoute::BatchWorker
            },
            route is Nobody <==> len == 0,
            route is TaskWorker <==> 1 <= len <= 5,
            route is BatchWorker <==> len > 5,
    {
        if len == 0 {
            BatchRoute::Nobody
        } else if len <= SMALL_BATCH {
            BatchRoute::TaskWorker
        } else {
            BatchRoute::BatchWorker
        }
    }

    /// What the decryption of a batch of `len` tasks comes to, given what came
    /// of handing it to a worker: nothing but empty results where anything
    /// went wrong.
    pub fn decrypt_batch(
        &self,
        len: usize,
        reply: PoolReply<Result<Vec<Vec<u8>>, String>>,
    ) -> (r: Vec<Vec<u8>>)
        ensures
            len == 0 ==> r@.len() == 0,
            len > 0 ==> match reply {
                PoolReply::Answer(Ok(results)) => r == results,
                _ => r@.len() == len && forall|i: int|
                    0 <= i < len ==> (#[trigger] r@[i])@.len() == 0,
            },
    {
        if len == 0 {
            return Vec::new();
        }
        match reply {
            PoolReply::Answer(Ok(results)) => results,
            _ => {
                let mut r: Vec<Vec<u8>> = Vec::new();
                let mut i: usize = 0;
                while i < len
                    invariant
                        i <= len,
                        r@.len() == i,
                        forall|k: int| 0 <= k < i ==> (#[trigger] r@[k])@.len() == 0,
                    decreases len - i,
                {
                    r.push(Vec::new());
                    i += 1;
                }
                r
            },
        }
    }

    /// Decrypts one packet.
    pub fn process_single(&self, task: &SessionTask) -> (r: Result<Vec<u8>, String>)
        ensures
            if decryptable(*task) {
                r matches Ok(p) && p@ == plaintext_of(*task)
            } else {
                r matches Err(e) && e@ == "Decryption failed: "@ + decryption_error(
                    task.keys,
                    task.data@,
                )
            },
            ({
                let opened = decoded(task.keys.sign_key@, task.keys.aead_key@, task.data@);
                &&& r is Ok <==> opened is Ok
                &&& r matches Ok(p) ==> p@ == opened->Ok_0.1
            }),
    {
        match PacketParser::decode_packet(&task.keys, task.data.as_slice()) {
            Ok((_packet_type, data)) => Ok(data),
            Err(e) => {
                proof {
                    explain(*task, e);
                }
                Err(String::from_str("Decryption failed: ").concat(e.message().as_str()))
            },
        }
    }

    /// Decrypts a batch: all plaintexts, or all errors.
    pub fn process_batch(&self, tasks: &Vec<SessionTask>) -> (r: Result<Vec<Vec<u8>>, String>)
        ensures
            if forall|i: int| 0 <= i < tasks@.len() ==> decryptable(#[trigger] tasks@[i]) {
                r matches Ok(results) && results@.len() == tasks@.len() && forall|i: int|
                    0 <= i < tasks@.len() ==> (#[trigger] results@[i])@ == plaintext_of(tasks@[i])
            } else {
                r matches Err(e) && e@ == "Batch errors: "@ + joined(
                    batch_errors(tasks@, tasks@.len()),
                    ", "@,
                )
            },
            r is Ok <==> forall|i: int|
                0 <= i < tasks@.len() ==> decoded(
                    (#[trigger] tasks@[i]).keys.sign_key@,
                    tasks@[i].keys.aead_key@,
                    tasks@[i].data@,
                ) is Ok,
            r matches Ok(results) ==> results@.len() == tasks@.len() && forall|i: int|
                0 <= i < tasks@.len() ==> (#[trigger] results@[i])@ == decoded(
                    tasks@[i].keys.sign_key@,
                    tasks@[i].keys.aead_key@,
                    tasks@[i].data@,
                )->Ok_0.1,
    {
        let mut results: Vec<Vec<u8>> = Vec::new();
        let mut errors: Vec<String> = Vec::new();
        let mut i: usize = 0;
        while i < tasks.len()
            invariant
                i <= tasks@.len(),
                results@.len() == i,
                errors@.map_values(|s: String| s@) == batch_errors(tasks@, i as nat),
                errors@.len() == 0 <==> forall|k: int|
                    0 <= k < i ==> decryptable(#[trigger] tasks@[k]),
                forall|k: int|
                    0 <= k < i ==> (#[trigger] results@[k])@ == plaintext_of(tasks@[k]),
            decreases tasks@.len() - i,
        {
            match PacketParser::decode_packet(&tasks[i].keys, tasks[i].data.as_slice()) {
                Ok((_packet_type, data)) => {
                    results.push(data);
                },
                Err(e) => {
                    proof {
                        explain(tasks@[i as int], e);
                    }
                    let text: String = String::from_str("Packet ").concat(
                        decimal_string(i as u64).as_str(),
                    ).concat(": ").concat(e.message().as_str());
                    let ghost before = errors@;
                    errors.push(text);
                    results.push(Vec::new());
                    proof {
                        assert(errors@.map_values(|s: String| s@) =~= before.map_values(
                            |s: String| s@,
                        ).push(text@));
                        assert(results@[i as int]@ =~= plaintext_of(tasks@[i as int]));
                    }
                },
            }
            i += 1;
        }
        if errors.len() == 0 {
            Ok(results)
        } else {
            Err(String::from_str("Batch errors: ").concat(join_strings(&errors, ", ").as_str()))
        }
    }
}

proof fn explain(t: SessionTask, e: crate::error::ProtocolError)
    requires
        agrees(Err((e)), t.keys, t.data@),
    ensures
        !decryptable(t),
        e.text() == decryption_error(t.keys, t.data@),
{
    match decoded(t.keys.sign_key@, t.keys.aead_key@, t.data@) {
        Err(failure) => {
            failures_read_alike(e, failure, t.data@);
        },
        Ok(_) => {},
    }
}

/// Whether `r` is the encryption of a plaintext under a nonce: the nonce and
/// what the cipher makes of the plaintext, or an error where the plaintext is
/// too long.
pub open spec fn is_encryption(
    keys: SessionKeys,
    nonce: Seq<u8>,
    plaintext: Seq<u8>,
    r: Result<Vec<u8>, String>,
) -> bool {
    if plaintext.len() <= AEAD_KEYSTREAM_LIMIT {
        &&& r matches Ok(out) && out@ == nonce + aes256gcm_sealed(
            keys.aead_key@,
            nonce,
            Seq::empty(),
            plaintext,
        ) && aes256gcm_opened(
            keys.aead_key@,
            nonce,
            Seq::empty(),
            out@.skip(nonce.len() as int),
        ) == Some(plaintext)
    } else {
        r matches Err(e) && e@ == "Encryption failed: aead::Error"@
    }
}

/// Whether `r` is the encryption of a task's data under some nonce.
pub open spec fn is_encryption_of(t: SessionTask, r: Result<Vec<u8>, String>) -> bool {
    exists|nonce: Seq<u8>|
        nonce.len() == NONCE_SIZE && #[trigger] is_encryption(t.keys, nonce, t.data@, r)
}

/// A batch that cannot be decrypted whole tells of each packet that cannot, by
/// its number and with its own failure, in order, and of no other.
pub proof fn every_failed_packet_is_told(tasks: Seq<SessionTask>, i: int)
    requires
        0 <= i < tasks.len(),
    ensures
        batch_errors(tasks, tasks.len()).len() == tasks.filter(
            |t: SessionTask| decoded(t.keys.sign_key@, t.keys.aead_key@, t.data@) is Err,
        ).len(),
        decoded(tasks[i].keys.sign_key@, tasks[i].keys.aead_key@, tasks[i].data@) matches Err(
            failure,
        ) ==> {
            let j = tasks.take(i).filter(
                |t: SessionTask| decoded(t.keys.sign_key@, t.keys.aead_key@, t.data@) is Err,
            ).len() as int;
            &&& j < batch_errors(tasks, tasks.len()).len()
            &&& batch_errors(tasks, tasks.len())[j] == "Packet "@ + decimal(i as nat) + ": "@
                + failure_text(failure, tasks[i].data@)
        },
{
    failed_packets_are_told(tasks, tasks.len());
    assert(tasks.take(tasks.len() as int) =~= tasks);
    failed_packets_are_told(tasks, i as nat);
    told_failures_stay(tasks, (i + 1) as nat, tasks.len());
}

proof fn told_failures_stay(tasks: Seq<SessionTask>, m: nat, n: nat)
    requires
        m <= n <= tasks.len(),
    ensures
        batch_errors(tasks, m).len() <= batch_errors(tasks, n).len(),
        forall|k: int|
            0 <= k < batch_errors(tasks, m).len() ==> #[trigger] batch_errors(tasks, n)[k]
                == batch_errors(tasks, m)[k],
    decreases n,
{
    if m < n {
        told_failures_stay(tasks, m, (n - 1) as nat);
        let rest = batch_errors(tasks, (n - 1) as nat);
        assert forall|k: int| 0 <= k < batch_errors(tasks, m).len() implies #[trigger] batch_errors(
            tasks,
            n,
        )[k] == batch_errors(tasks, m)[k] by {
            assert(rest[k] == batch_errors(tasks, m)[k]);
        }
    }
}

proof fn failed_packets_are_told(tasks: Seq<SessionTask>, n: nat)
    requires
        n <= tasks.len(),
    ensures
        batch_errors(tasks, n).len() == tasks.take(n as int).filter(
            |t: SessionTask| decoded(t.keys.sign_key@, t.keys.aead_key@, t.data@) is Err,
        ).len(),
    decreases n,
{
    let failed = |t: SessionTask|
        decoded(t.keys.sign_key@, t.keys.aead_key@, t.data@) is Err;
    if n > 0 {
        failed_packets_are_told(tasks, (n - 1) as nat);
        filter_step(tasks, failed, n - 1);
    } else {
        reveal(Seq::filter);
    }
}

} // verus!
