//! Batch cryptography.

use batch_system::acceleration::blake3_batch_accel::{Blake3BatchAccelerator, CacheEffectModel};
use batch_system::acceleration::chacha20_batch_accel::{
    ChaCha20BatchAccelerator, ChaCha20Strategy, SimdFeatures,
};
use batch_system::acceleration::parallel::{blake3_single, chacha20_single};
use batch_system::measure::Measure;
use batch_system::optimized::crypto_processor::{
    derive_key, CryptoOperation, CryptoTask, CryptoWorker, KeyDerivationAlgorithm,
    OptimizedCryptoProcessor, BATCH_WORKER_ID, STEAL_CHECK_INTERVAL,
};
use hmac::{Hmac, Mac};
use sha2::{Sha256, Sha512};

fn vectors() -> SimdFeatures {
    SimdFeatures { avx2: true, avx512: false, neon: false, aes_ni: false, sse4_2: false }
}

fn no_vectors() -> SimdFeatures {
    SimdFeatures { avx2: false, avx512: false, neon: false, aes_ni: true, sse4_2: true }
}

fn texts(n: usize, len: usize) -> Vec<Vec<u8>> {
    (0..n).map(|i| (0..len + i).map(|k| (i * 31 + k) as u8).collect()).collect()
}

fn keys(n: usize) -> Vec<[u8; 32]> {
    (0..n).map(|i| [i as u8; 32]).collect()
}

fn nonces(n: usize) -> Vec<[u8; 12]> {
    (0..n).map(|i| [200 - i as u8; 12]).collect()
}

#[test]
fn chacha20_gives_the_known_key_stream() {
    let stream = chacha20_single(&[0; 32], &[0; 12], &vec![0; 64]);
    let known = "76b8e0ada0f13d90405d6ae55386bd28bdd219b8a08ded1aa836efcc8b770dc7\
                 da41597c5157488d7724e03fb8d84a376a43b8f41518a11cc387b669b2ee6586";
    assert_eq!(hex::encode(stream), known);
}

#[test]
fn chacha20_undoes_itself() {
    let text = texts(1, 300).remove(0);
    let once = chacha20_single(&[3; 32], &[4; 12], &text);
    assert_ne!(once, text);
    assert_eq!(chacha20_single(&[3; 32], &[4; 12], &once), text);
}

#[test]
fn keyed_blake3_gives_the_known_digest() {
    let key: [u8; 32] = *b"whats the Elvish word for friend";
    let digest = blake3_single(&key, &Vec::new());
    assert_eq!(
        hex::encode(digest),
        "92b2b75604ed3c761f9d6f62392c8a9227ad0ea3f09573e783f1498a4ed60d26"
    );
}

#[test]
fn batches_choose_their_strategy() {
    let a = ChaCha20BatchAccelerator::new(8, vectors());
    assert_eq!(a.strategy(&texts(3, 100)), ChaCha20Strategy::Scalar);
    assert_eq!(a.strategy(&texts(4, 100)), ChaCha20Strategy::Parallel);
    assert_eq!(a.strategy(&texts(8, 100)), ChaCha20Strategy::ParallelOptimized);
    assert_eq!(a.strategy(&texts(8, 10)), ChaCha20Strategy::Scalar);
    let b = ChaCha20BatchAccelerator::new(8, no_vectors());
    assert_eq!(b.strategy(&texts(8, 100)), ChaCha20Strategy::Scalar);
    assert_eq!(a.get_simd_info().optimal_batch_size, 1024);
    assert!(a.get_simd_info().simd_capable && !b.get_simd_info().simd_capable);
}

#[test]
fn every_strategy_encrypts_alike_and_decrypts_again() {
    for features in [vectors(), no_vectors()] {
        let a = ChaCha20BatchAccelerator::new(8, features);
        for n in [0usize, 1, 4, 7, 8, 20] {
            let plain = texts(n, 80);
            let sealed = a.encrypt_batch(&keys(n), &nonces(n), &plain);
            for i in 0..n {
                assert_eq!(sealed[i], chacha20_single(&keys(n)[i], &nonces(n)[i], &plain[i]));
            }
            assert_eq!(a.decrypt_batch(&keys(n), &nonces(n), &sealed), plain);
        }
    }
}

#[test]
fn every_strategy_hashes_alike() {
    let a = Blake3BatchAccelerator::new(8, vectors());
    for n in [0usize, 1, 3, 4, 15, 16, 40] {
        // Lengths go down, so that sorting by length moves the inputs.
        let inputs: Vec<Vec<u8>> = (0..n).map(|i| vec![i as u8; 100 - i]).collect();
        let digests = a.hash_keyed_batch(&keys(n), &inputs);
        assert_eq!(digests.len(), n);
        for i in 0..n {
            let expected = blake3::keyed_hash(&keys(n)[i], &inputs[i]);
            assert_eq!(&digests[i], expected.as_bytes());
        }
    }
}

#[test]
fn accelerators_say_what_they_can() {
    let info = Blake3BatchAccelerator::new(8, no_vectors()).get_performance_info();
    assert!(!info.simd_capable && info.aes_ni_enabled && !info.avx2_enabled);
    assert_eq!((info.optimal_batch_size, info.cache_optimal_size), (32, 16384));
}

#[test]
fn cache_misses_begin_beyond_the_cache() {
    let m = CacheEffectModel::new();
    assert_eq!(m.cache_misses(32768), 0);
    assert_eq!(m.cache_misses(32769), 1);
    assert_eq!(m.cache_misses(262144), 4096 - 512);
    assert_eq!(m.cache_misses(262145), 1);
    assert_eq!(m.cache_misses(8388609), 1);
}

fn hmac256(key: &[u8], data: &[u8]) -> Vec<u8> {
    let mut mac = <Hmac<Sha256> as Mac>::new_from_slice(key).unwrap();
    mac.update(data);
    mac.finalize().into_bytes().to_vec()
}

fn hmac512(key: &[u8], data: &[u8]) -> Vec<u8> {
    let mut mac = <Hmac<Sha512> as Mac>::new_from_slice(key).unwrap();
    mac.update(data);
    mac.finalize().into_bytes().to_vec()
}

#[test]
fn keys_are_derived_with_hkdf() {
    let (input, context) = (b"secret".to_vec(), b"context".to_vec());
    let mut info = context.clone();
    info.push(1);
    let expected = hmac256(&hmac256(&[], &input), &info);
    assert_eq!(
        derive_key(KeyDerivationAlgorithm::HkdfSha256, &input, &context, 32),
        expected
    );
    let expected = hmac512(&hmac512(&[], &input), &info);
    assert_eq!(
        derive_key(KeyDerivationAlgorithm::HkdfSha512, &input, &context, 64),
        expected
    );
}

#[test]
fn hkdf_gives_zeros_for_other_lengths() {
    let input = b"secret".to_vec();
    for len in [0usize, 16, 31, 33, 64] {
        assert_eq!(
            derive_key(KeyDerivationAlgorithm::HkdfSha256, &input, &input, len),
            vec![0; len]
        );
    }
    assert_eq!(
        derive_key(KeyDerivationAlgorithm::HkdfSha512, &input, &input, 32),
        vec![0; 32]
    );
}

#[test]
fn keys_are_derived_with_blake3() {
    let mut expected = vec![0u8; 100];
    blake3::Hasher::new().update(b"inputcontext").finalize_xof().fill(&mut expected);
    assert_eq!(
        derive_key(
            KeyDerivationAlgorithm::Blake3,
            &b"input".to_vec(),
            &b"context".to_vec(),
            100
        ),
        expected
    );
}

fn encryption(id: u64, len: usize) -> CryptoTask {
    let plaintext: Vec<u8> = (0..len).map(|i| i as u8).collect();
    let operation = CryptoOperation::EncryptChaCha20 { key: [1; 32], nonce: [2; 12], plaintext };
    CryptoTask::new(id, operation, vec![9], 1, 100)
}

fn hashing(id: u64) -> CryptoTask {
    let operation = CryptoOperation::HashBlake3 { key: [5; 32], data: vec![id as u8; 70] };
    CryptoTask::new(id, operation, vec![9], 1, 100)
}

#[test]
fn tasks_are_processed_and_counted() {
    let mut p = OptimizedCryptoProcessor::new(2, vectors());
    let task = encryption(7, 200);
    assert_eq!((task.size_bytes, task.operation.uses_simd()), (200, true));
    let r = p.process_task(1, &task, true, 150, 33);
    let expected = match &task.operation {
        CryptoOperation::EncryptChaCha20 { key, nonce, plaintext } => {
            chacha20_single(key, nonce, plaintext)
        }
        _ => unreachable!(),
    };
    assert_eq!(r.result, Ok(expected.clone()));
    assert_eq!((r.id, r.worker_id, r.was_stolen), (7, 1, true));
    assert_eq!((r.processing_time, r.queue_time), (33, 50));
    assert_eq!(p.results.get(7).unwrap().result, Ok(expected));
    assert_eq!(p.stat("total_encryptions"), Some(1));
    assert_eq!(p.stat("total_tasks_processed"), Some(1));
    assert_eq!(p.stat("total_hashes"), None);
}

#[test]
fn derived_keys_have_the_length_that_was_asked_for() {
    let mut p = OptimizedCryptoProcessor::new(8, vectors());
    let operation = CryptoOperation::DeriveKey {
        algorithm: KeyDerivationAlgorithm::Blake3,
        input: vec![],
        context: vec![],
        output_len: 40,
    };
    let task = CryptoTask::new(7, operation, vec![], 0, 0);
    let r = p.process_task(3, &task, true, 10, 30);
    let key = r.result.clone().unwrap();
    assert_eq!((key.len(), &key[..4]), (40, &[0xaf, 0x13, 0x49, 0xb9][..]));
    assert_eq!((r.id, r.worker_id, r.was_stolen), (7, 3, true));
    assert_eq!(p.results.get(7).unwrap().result, Ok(key));
    assert_eq!((p.stats.get("total_derivations"), p.stats.list().len()), (Some(1), 2));
    assert_eq!(p.stats.get("total_tasks_processed"), Some(1));
    assert_eq!(p.get_stats().list().len(), 2);
    p.processing_times.push_back(30);
    p.processing_times.push_back(41);
    let all = p.get_stats();
    assert_eq!((all.get("avg_processing_time_ns"), all.list().len()), (Some(35), 3));
    assert_eq!(p.stat("avg_processing_time_ns"), Some(35));
    assert_eq!(all.get("total_derivations"), p.stat("total_derivations"));
}

#[test]
fn encrypted_operations_decrypt_again() {
    let p = OptimizedCryptoProcessor::new(2, vectors());
    let plaintext = vec![42u8; 500];
    let sealed = p.run_operation(&CryptoOperation::EncryptChaCha20 {
        key: [1; 32],
        nonce: [2; 12],
        plaintext: plaintext.clone(),
    });
    let opened = p.run_operation(&CryptoOperation::DecryptChaCha20 {
        key: [1; 32],
        nonce: [2; 12],
        ciphertext: sealed,
    });
    assert_eq!(opened, plaintext);
}

#[test]
fn waiting_tasks_run_as_a_batch() {
    let mut p = OptimizedCryptoProcessor::new(2, vectors());
    for id in 0..4 {
        p.chacha_batch_buffer.push(encryption(id, 90 + id as usize));
    }
    for id in 10..13 {
        p.blake_batch_buffer.push(hashing(id));
    }
    p.batch_tick(55);
    assert!(p.chacha_batch_buffer.is_empty());
    assert_eq!(p.blake_batch_buffer.len(), 3);
    assert_eq!(p.stat("chacha_batches"), Some(1));
    assert_eq!(p.stat("chacha_batch_operations"), Some(4));
    assert_eq!(p.stat("blake_batches"), None);
    let r = p.results.get(2).unwrap();
    assert_eq!((r.worker_id, r.processing_time), (BATCH_WORKER_ID, 55));
    assert_eq!(r.result, Ok(p.run_operation(&encryption(2, 92).operation)));
    p.blake_batch_buffer.push(hashing(13));
    p.batch_tick(56);
    assert!(p.blake_batch_buffer.is_empty());
    let expected = blake3::keyed_hash(&[5; 32], &[13u8; 70]);
    assert_eq!(p.results.get(13).unwrap().result, Ok(expected.as_bytes().to_vec()));
}

#[test]
fn workers_steal_when_idle_and_the_load_is_uneven() {
    let mut p = OptimizedCryptoProcessor::new(2, vectors());
    let mut w = CryptoWorker::new(0, 0);
    let uneven = Measure { at_least: 300, at_most: 301 };
    p.work_stealing_model.imbalance = uneven;
    assert!(!p.worker_round(&mut w, 0, STEAL_CHECK_INTERVAL));
    assert!(p.worker_round(&mut w, 9, STEAL_CHECK_INTERVAL + 1));
    assert_eq!(w.last_steal_check, STEAL_CHECK_INTERVAL + 1);
    assert!(!p.worker_round(&mut w, 10, 5 * STEAL_CHECK_INTERVAL));
    p.work_stealing_model.imbalance = Measure::exact(300);
    assert!(!p.worker_round(&mut w, 0, 9 * STEAL_CHECK_INTERVAL));
    assert_eq!(p.queue_lengths.len(), 4);
    p.collect_stats();
    assert_eq!(p.stat("avg_queue_length"), Some(4750));
}

#[test]
fn workers_keep_count() {
    let mut p = OptimizedCryptoProcessor::new(2, vectors());
    let mut w = CryptoWorker::new(1, 0);
    p.own_task_done(&mut w, 40);
    p.own_task_done(&mut w, 60);
    p.stolen_task_done(&mut w);
    assert_eq!((w.tasks_processed, w.total_processing_time), (3, 100));
    assert_eq!(p.stat("worker_1_tasks"), Some(2));
    assert_eq!(p.stat("worker_1_time"), Some(100));
    assert_eq!(p.stat("crypto_steals"), Some(1));
    p.stats.set("total_tasks_processed", 7);
    p.collect_stats();
    assert_eq!(p.stat("throughput"), Some(1400));
    assert_eq!(p.stat("avg_queue_length"), None);
    p.shutdown();
    assert!(!p.is_running);
}
