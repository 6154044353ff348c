//! A pool whose workers keep the sessions' keys to themselves.

use vstd::prelude::*;
use vstd::string::*;

use crate::crypto::crypto_pool::PoolReply;
use crate::error::{CryptoError, ProtocolError};

verus! {

/// Tasks that wait for the worker, at most.
pub const PHANTOM_TASK_QUEUE: usize = 8192;

/// Batches that wait for the worker, at most.
pub const PHANTOM_BATCH_QUEUE: usize = 1024;

/// Milliseconds to wait for a decryption.
pub const PHANTOM_DECRYPT_MS: u64 = 10;

/// Milliseconds to wait for an encryption.
pub const PHANTOM_ENCRYPT_MS: u64 = 5;

/// Milliseconds to wait for a batch.
pub const PHANTOM_BATCH_MS: u64 = 50;

/// What came of a batch of packets.
#[derive(Debug)]
pub struct BatchResult {
    pub packet_types: Vec<u8>,
    pub data_sizes: Vec<usize>,
    pub errors: Vec<Option<ProtocolError>>,
}

/// What work comes to, given what came of handing it to the worker.
pub open spec fn is_reply<T>(
    reply: PoolReply<Result<T, ProtocolError>>,
    unsent: Seq<char>,
    limit_ms: u64,
    r: Result<T, ProtocolError>,
) -> bool {
    match reply {
        PoolReply::NotSent => r matches Err(
            ProtocolError::Crypto { source: CryptoError::DecryptionFailed { reason } },
        ) && reason@ == unsent,
        PoolReply::Abandoned => r matches Err(
            ProtocolError::Crypto { source: CryptoError::DecryptionFailed { reason } },
        ) && reason@ == "Channel error"@,
        PoolReply::TimedOut => r == Err::<T, ProtocolError>(
            ProtocolError::Timeout { duration_ms: limit_ms },
        ),
        PoolReply::Answer(a) => r == a,
    }
}

fn settle<T>(reply: PoolReply<Result<T, ProtocolError>>, unsent: &str, limit_ms: u64) -> (r: Result<
    T,
    ProtocolError,
>)
    ensures
        is_reply(reply, unsent@, limit_ms, r),
{
    match reply {
        PoolReply::NotSent => Err(
            ProtocolError::Crypto {
                source: CryptoError::DecryptionFailed { reason: String::from_str(unsent) },
            },
        ),
        PoolReply::Abandoned => Err(
            ProtocolError::Crypto {
                source: CryptoError::DecryptionFailed { reason: String::from_str("Channel error") },
            },
        ),
        PoolReply::TimedOut => Err(ProtocolError::Timeout { duration_ms: limit_ms }),
        PoolReply::Answer(a) => a,
    }
}

/// The lengths of some byte strings.
pub open spec fn lengths(data: Seq<Vec<u8>>) -> Seq<usize> {
    data.map_values(|d: Vec<u8>| d@.len() as usize)
}

/// A pool with one worker, and twice as many permits as were asked for.
#[derive(Debug, Clone, Copy)]
pub struct PhantomCryptoPool {
    pub workers: usize,
    pub permits: usize,
}

impl PhantomCryptoPool {
    /// A pool.
    pub fn spawn(num_workers: usize) -> (p: Self)
        requires
            num_workers * 2 <= usize::MAX / 8,
        ensures
            p == (PhantomCryptoPool { workers: 1, permits: (num_workers * 2) as usize }),
    {
        PhantomCryptoPool { workers: 1, permits: num_workers * 2 }
    }

    /// What a decryption comes to: the type of the packet and its plaintext.
    pub fn decrypt(&self, reply: PoolReply<Result<(u8, Vec<u8>), ProtocolError>>) -> (r: Result<
        (u8, Vec<u8>),
        ProtocolError,
    >)
        ensures
            is_reply(reply, "Failed to send task"@, PHANTOM_DECRYPT_MS, r),
            reply is TimedOut ==> r == Err::<(u8, Vec<u8>), ProtocolError>(
                ProtocolError::Timeout { duration_ms: 10 },
            ),
            reply matches PoolReply::Answer(a) ==> r == a,
            reply is NotSent || reply is Abandoned ==> r is Err,
    {
        settle(reply, "Failed to send task", PHANTOM_DECRYPT_MS)
    }

    /// What an encryption comes to.
    pub fn encrypt(&self, reply: PoolReply<Result<Vec<u8>, ProtocolError>>) -> (r: Result<
        Vec<u8>,
        ProtocolError,
    >)
        ensures
            is_reply(reply, "Failed to send task"@, PHANTOM_ENCRYPT_MS, r),
            reply is TimedOut ==> r == Err::<Vec<u8>, ProtocolError>(
                ProtocolError::Timeout { duration_ms: 5 },
            ),
            reply matches PoolReply::Answer(a) ==> r == a,
            reply is NotSent || reply is Abandoned ==> r is Err,
    {
        settle(reply, "Failed to send task", PHANTOM_ENCRYPT_MS)
    }

    /// What a batch of `len` packets comes to. An empty batch needs no worker.
    pub fn process_batch(
        &self,
        len: usize,
        reply: PoolReply<Result<BatchResult, ProtocolError>>,
    ) -> (r: Result<BatchResult, ProtocolError>)
        ensures
            len == 0 ==> (r matches Ok(b) && b.packet_types@.len() == 0 && b.data_sizes@.len() == 0
                && b.errors@.len() == 0),
            len > 0 ==> is_reply(reply, "Failed to send batch"@, PHANTOM_BATCH_MS, r),
    {
        if len == 0 {
            return Ok(
                BatchResult {
                    packet_types: Vec::new(),
                    data_sizes: Vec::new(),
                    errors: Vec::new(),
                },
            );
        }
        settle(reply, "Failed to send batch", PHANTOM_BATCH_MS)
    }

    /// What the worker answers after a batch: of the plaintexts only their
    /// lengths.
    pub fn handle_batch(
        &self,
        packet_types: Vec<u8>,
        plaintexts: &Vec<Vec<u8>>,
        errors: Vec<Option<ProtocolError>>,
    ) -> (b: BatchResult)
        ensures
            b.packet_types == packet_types,
            b.data_sizes@ == lengths(plaintexts@),
            b.errors == errors,
    {
        let mut data_sizes: Vec<usize> = Vec::new();
        let mut i: usize = 0;
        while i < plaintexts.len()
            invariant
                i <= plaintexts@.len(),
                data_sizes@.len() == i,
                forall|k: int| 0 <= k < i ==> #[trigger] data_sizes@[k] == plaintexts@[k]@.len(),
            decreases plaintexts@.len() - i,
        {
            data_sizes.push(plaintexts[i].len());
            i += 1;
        }
        proof {
            assert(data_sizes@ =~= lengths(plaintexts@));
        }
        BatchResult { packet_types, data_sizes, errors }
    }
}

} // verus!
