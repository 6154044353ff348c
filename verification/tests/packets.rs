//! Sealing, opening and answering packets.

use std::sync::Arc;

use aes_gcm::aead::{Aead, KeyInit, Payload};
use aes_gcm::{Aes256Gcm, Nonce};
use batch_system::crypto::crypto_pool::{BatchRoute, CryptoPool, PoolReply, SessionTask};
use batch_system::crypto::crypto_pool_phantom::PhantomCryptoPool;
use batch_system::crypto::session_keys::SessionKeys;
use batch_system::error::{CryptoError, ProtocolError};
use batch_system::packets::dispatcher::{Dispatcher, Work, WorkStep};
use batch_system::packets::packet_builder::PacketBuilder;
use batch_system::packets::packet_parser::{PacketParser, PacketType};
use batch_system::packets::packet_service::PacketService;
use batch_system::packets::pipeline::{
    DecryptionStage, EncryptionStage, PhantomDecryptionStage, PhantomEncryptionStage,
    PipelineContext, StageError,
};
use batch_system::types::priority::Priority;
use hmac::{Hmac, Mac};
use sha2::Sha256;

fn keys() -> SessionKeys {
    SessionKeys::new(vec![1, 2, 3], [7; 32], [9; 32])
}

fn other_keys() -> SessionKeys {
    SessionKeys::new(vec![4], [8; 32], [9; 32])
}

fn signature(key: &[u8], data: &[u8]) -> Vec<u8> {
    let mut mac = <Hmac<Sha256> as Mac>::new_from_slice(key).unwrap();
    mac.update(data);
    mac.finalize().into_bytes().to_vec()
}

fn sign_again(packet: &mut Vec<u8>) {
    let end = packet.len() - 32;
    let tag = signature(&keys().sign_key, &packet[..end]);
    packet[end..].copy_from_slice(&tag);
}

fn text_of(r: Result<(u8, Vec<u8>), ProtocolError>) -> String {
    match r {
        Ok(_) => String::from("opened"),
        Err(e) => e.message(),
    }
}

#[test]
fn sealed_packets_open_again() {
    for len in [0usize, 1, 15, 16, 17, 1000, 65474] {
        let plaintext: Vec<u8> = (0..len).map(|i| (i % 251) as u8).collect();
        let packet = PacketBuilder::build_encrypted_packet(&keys(), 0x01, &plaintext);
        assert_eq!(packet.len(), len + 65);
        let (packet_type, opened) = PacketParser::decode_packet(&keys(), &packet).unwrap();
        assert_eq!((packet_type, opened), (0x01, plaintext));
    }
}

#[test]
fn packets_have_the_wire_format() {
    let nonce = [5u8; 12];
    let packet = PacketBuilder::seal_packet(&keys(), 0x42, &nonce, b"hello");
    assert_eq!(&packet[..5], &[0xAB, 0xCD, 0x00, 66, 0x42]);
    assert_eq!(&packet[5..17], &nonce);
    let cipher = Aes256Gcm::new_from_slice(&keys().aead_key).unwrap();
    let sealed = cipher
        .encrypt(Nonce::from_slice(&nonce), Payload { msg: b"hello", aad: &packet[..5] })
        .unwrap();
    assert_eq!(&packet[17..38], &sealed[..]);
    assert_eq!(&packet[38..], &signature(&keys().sign_key, &packet[..38])[..]);
}

#[test]
fn nonces_are_drawn_anew() {
    let a = PacketBuilder::build_encrypted_packet(&keys(), 0x01, b"x");
    let b = PacketBuilder::build_encrypted_packet(&keys(), 0x01, b"x");
    assert_ne!(a[5..17], b[5..17]);
}

#[test]
fn plaintexts_beyond_the_length_field_do_not_open() {
    let plaintext = vec![0u8; 65475];
    let packet = PacketBuilder::build_encrypted_packet(&keys(), 0x01, &plaintext);
    assert!(PacketParser::decode_packet(&keys(), &packet).is_err());
}

#[test]
fn short_packets_are_malformed() {
    assert_eq!(
        text_of(PacketParser::decode_packet(&keys(), &[0xAB; 64])),
        "Malformed packet: Packet too short: 64 bytes, expected at least 65"
    );
    assert!(PacketParser::decode_packet(&keys(), &[]).is_err());
}

#[test]
fn wrong_magic_is_malformed() {
    let mut packet = PacketBuilder::build_encrypted_packet(&keys(), 0x01, b"x");
    packet[1] = 0xCE;
    assert_eq!(
        text_of(PacketParser::decode_packet(&keys(), &packet)),
        "Malformed packet: Invalid magic bytes"
    );
}

#[test]
fn small_length_fields_are_malformed() {
    let mut packet = PacketBuilder::build_encrypted_packet(&keys(), 0x01, b"x");
    packet[2] = 0;
    packet[3] = 60;
    assert_eq!(
        text_of(PacketParser::decode_packet(&keys(), &packet)),
        "Malformed packet: Invalid length field: 60 bytes"
    );
}

#[test]
fn wrong_length_fields_are_malformed() {
    let mut packet = PacketBuilder::build_encrypted_packet(&keys(), 0x01, b"x");
    packet.push(0);
    assert_eq!(
        text_of(PacketParser::decode_packet(&keys(), &packet)),
        "Malformed packet: Length mismatch: expected 66, got 67"
    );
}

#[test]
fn the_reserved_type_is_malformed() {
    let packet = PacketBuilder::build_encrypted_packet(&keys(), 0xFF, b"x");
    assert_eq!(
        text_of(PacketParser::decode_packet(&keys(), &packet)),
        "Malformed packet: Reserved packet type"
    );
}

#[test]
fn changed_packets_fail_the_signature() {
    let packet = PacketBuilder::build_encrypted_packet(&keys(), 0x01, b"hello");
    for i in [4usize, 5, 17, 20, packet.len() - 1] {
        let mut changed = packet.clone();
        changed[i] ^= 1;
        let r = PacketParser::decode_packet(&keys(), &changed);
        assert!(matches!(
            r,
            Err(ProtocolError::Crypto { source: CryptoError::HmacVerificationFailed })
        ));
    }
    assert_eq!(
        text_of(PacketParser::decode_packet(&other_keys(), &packet)),
        "Crypto error: HMAC verification failed"
    );
}

#[test]
fn signed_but_changed_ciphertexts_do_not_decrypt() {
    let mut packet = PacketBuilder::build_encrypted_packet(&keys(), 0x01, b"hello");
    packet[20] ^= 1;
    sign_again(&mut packet);
    assert_eq!(
        text_of(PacketParser::decode_packet(&keys(), &packet)),
        "Crypto error: Decryption failed: aead::Error"
    );
    // The type is covered by the tag of the cipher too.
    let mut packet = PacketBuilder::build_encrypted_packet(&keys(), 0x01, b"hello");
    packet[4] = 0x10;
    sign_again(&mut packet);
    assert!(PacketParser::decode_packet(&keys(), &packet).is_err());
}

#[test]
fn packet_kinds_come_from_bytes() {
    assert_eq!(PacketType::from(0x01), PacketType::Ping);
    assert_eq!(PacketType::from(0x10), PacketType::Heartbeat);
    assert_eq!(PacketType::from(0x99), PacketType::Unknown(0x99));
}

#[test]
fn packets_are_answered() {
    let service = PacketService::new(Arc::new(()));
    assert!(service.process_packet(PacketType::Ping, true).response.is_empty());
    assert!(service.process_packet(PacketType::Ping, true).should_encrypt);
    assert_eq!(
        service.process_packet(PacketType::Heartbeat, true).response,
        b"Heartbeat acknowledged"
    );
    assert_eq!(
        service.process_packet(PacketType::Heartbeat, false).response,
        b"Session not found"
    );
    assert_eq!(
        service.process_packet(PacketType::Unknown(200), true).response,
        b"Unknown packet type: Unknown(200)"
    );
    assert!(PacketService::<()>::needs_session(PacketType::Heartbeat));
    assert!(!PacketService::<()>::needs_session(PacketType::Ping));
}

fn work(raw_payload: Vec<u8>) -> Work {
    Work {
        ctx: keys(),
        raw_payload,
        client_ip: 1,
        received_at: 0,
        priority: Priority::Normal,
        is_large: false,
    }
}

#[test]
fn the_sender_can_open_the_answer() {
    let dispatcher = Dispatcher::spawn(4, PacketService::new(Arc::new(())));
    let packet = PacketBuilder::build_encrypted_packet(&keys(), 0x10, b"are you there?");
    let answer = dispatcher.process_work(work(packet), false, true).unwrap();
    let (packet_type, text) = PacketParser::decode_packet(&keys(), &answer).unwrap();
    assert_eq!((packet_type, text), (0x10, b"Heartbeat acknowledged".to_vec()));
}

#[test]
fn unopened_packets_are_answered_with_a_remark() {
    let dispatcher = Dispatcher::spawn(4, PacketService::new(Arc::new(())));
    let answer = dispatcher.process_work(work(vec![0; 3]), false, true).unwrap();
    assert_eq!(
        String::from_utf8(answer).unwrap(),
        "Processing error: Decryption failed: Malformed packet: Packet too short: 3 bytes, \
         expected at least 65"
    );
}

#[test]
fn sessions_are_asked_for_between_opening_and_answering() {
    let dispatcher = Dispatcher::spawn(4, PacketService::new(Arc::new(())));
    let packet = PacketBuilder::build_encrypted_packet(&keys(), 0x10, b"hello");
    let opened = match dispatcher.open_work(work(packet), false) {
        WorkStep::Opened(opened) => opened,
        _ => panic!("the packet was not opened"),
    };
    assert_eq!((opened.packet_type, opened.response_type), (0x10, 0x10));
    assert_eq!(opened.context.decrypted_data, Some(b"hello".to_vec()));
    assert!(PacketService::<()>::needs_session(PacketType::from(opened.packet_type)));
    let answer = dispatcher.answer_work(opened, false);
    let (_, text) = PacketParser::decode_packet(&keys(), &answer).unwrap();
    assert_eq!(text, b"Session not found".to_vec());
    assert!(matches!(dispatcher.open_work(work(vec![0; 3]), false), WorkStep::Refused(_)));
    assert!(matches!(dispatcher.open_work(work(vec![0; 3]), true), WorkStep::Nobody));
}

#[test]
fn nobody_waits_for_an_answer() {
    let dispatcher = Dispatcher::spawn(4, PacketService::new(Arc::new(())));
    let packet = PacketBuilder::build_encrypted_packet(&keys(), 0x01, b"");
    assert!(dispatcher.process_work(work(packet), true, true).is_none());
}

#[test]
fn answers_have_the_type_of_the_packet() {
    assert_eq!(Dispatcher::<()>::response_packet_type(&[0, 0, 0, 0, 0x77]), 0x77);
    assert_eq!(Dispatcher::<()>::response_packet_type(&[0, 0, 0, 0]), 0x10);
    let dispatcher = Dispatcher::spawn(2, PacketService::new(Arc::new(())));
    assert_eq!(dispatcher.process_directly(0x10, false), b"Session not found");
}

#[test]
fn stages_open_and_seal() {
    let packet = PacketBuilder::build_encrypted_packet(&keys(), 0x01, b"data");
    let mut context = PipelineContext::new(keys(), packet);
    assert!(DecryptionStage.execute(&mut context).is_ok());
    assert_eq!(context.packet_type, Some(0x01));
    assert_eq!(context.decrypted_data, Some(b"data".to_vec()));
    context.processed_data = Some(b"reply".to_vec());
    assert!(EncryptionStage::new(0x33).execute(&mut context).is_ok());
    assert_eq!(context.processed_data, None);
    let sealed = context.encrypted_response.take().unwrap();
    assert_eq!(
        PacketParser::decode_packet(&keys(), &sealed).unwrap(),
        (0x33, b"reply".to_vec())
    );
    let error = EncryptionStage::new(0x33).execute(&mut context).unwrap_err();
    assert_eq!(error.message(), "Encryption failed: No processed data available");
}

#[test]
fn a_failed_decryption_leaves_the_context() {
    let mut context = PipelineContext::new(keys(), vec![1, 2]);
    let error = DecryptionStage.execute(&mut context).unwrap_err();
    assert!(matches!(error, StageError::DecryptionFailed(_)));
    assert_eq!(context.packet_type, None);
    assert_eq!(context.raw_payload, vec![1, 2]);
}

#[test]
fn phantom_stages_take_over_what_the_processor_says() {
    let mut context = PipelineContext::new(keys(), vec![]);
    let decryption = PhantomDecryptionStage::new(Arc::new("pool"));
    assert!(decryption.execute(&mut context, Ok((0x10, vec![1]))).is_ok());
    assert_eq!(context.packet_type, Some(0x10));
    let failed = decryption.execute(&mut context, Err(ProtocolError::Timeout { duration_ms: 10 }));
    assert_eq!(failed.unwrap_err().message(), "Decryption failed: Timeout after 10ms");

    let encryption = PhantomEncryptionStage::new(0x11, Arc::new("pool"));
    assert_eq!(encryption.response_packet_type(), 0x11);
    assert_eq!(*encryption.crypto_pool(), "pool");
    assert_eq!(
        encryption.take_answer(&mut context).unwrap_err().message(),
        "Encryption failed: No processed data available"
    );
    context.processed_data = Some(vec![5, 6]);
    assert_eq!(encryption.take_answer(&mut context).unwrap(), vec![5, 6]);
    assert!(encryption.execute(&mut context, Ok(vec![9])).is_ok());
    assert_eq!(context.encrypted_response, Some(vec![9]));
}

#[test]
fn pools_report_what_came_of_the_work() {
    let pool = CryptoPool::spawn(5);
    assert_eq!((pool.task_workers, pool.batch_workers), (5, 2));
    assert_eq!(pool.decrypt(PoolReply::Answer(Ok(vec![1]))), Ok(vec![1]));
    assert_eq!(pool.decrypt(PoolReply::TimedOut), Err(String::from("Decryption timeout")));
    assert_eq!(pool.decrypt(PoolReply::Abandoned), Err(String::from("channel closed")));
    assert_eq!(
        pool.decrypt(PoolReply::NotSent),
        Err(String::from("Failed to send decryption task"))
    );
}

#[test]
fn batches_go_to_the_worker_of_their_size() {
    let pool = CryptoPool::spawn(2);
    assert_eq!(pool.route_batch(0), BatchRoute::Nobody);
    assert_eq!(pool.route_batch(5), BatchRoute::TaskWorker);
    assert_eq!(pool.route_batch(6), BatchRoute::BatchWorker);
}

#[test]
fn pool_encryptions_open_with_the_cipher() {
    let pool = CryptoPool::spawn(2);
    let cipher = Aes256Gcm::new_from_slice(&keys().aead_key).unwrap();
    let out = pool.encrypt_with(&keys(), &[3; 12], b"text").unwrap();
    assert_eq!(&out[..12], &[3; 12]);
    assert_eq!(cipher.decrypt(Nonce::from_slice(&out[..12]), &out[12..]).unwrap(), b"text");
    let out = pool.encrypt(&keys(), b"text").unwrap();
    assert_eq!(cipher.decrypt(Nonce::from_slice(&out[..12]), &out[12..]).unwrap(), b"text");
    let tasks = vec![
        SessionTask { keys: keys(), data: b"a".to_vec() },
        SessionTask { keys: keys(), data: b"bb".to_vec() },
    ];
    let sealed = pool.encrypt_batch(&tasks);
    assert_eq!(sealed.len(), 2);
    for (task, out) in tasks.iter().zip(sealed) {
        let out = out.unwrap();
        assert_eq!(
            cipher.decrypt(Nonce::from_slice(&out[..12]), &out[12..]).unwrap(),
            task.data
        );
    }
}

#[test]
fn pools_decrypt_packets() {
    let pool = CryptoPool::spawn(2);
    let good = SessionTask {
        keys: keys(),
        data: PacketBuilder::build_encrypted_packet(&keys(), 0x01, b"one"),
    };
    assert_eq!(pool.process_single(&good), Ok(b"one".to_vec()));
    let bad = SessionTask { keys: keys(), data: vec![0; 2] };
    let reason = "Malformed packet: Packet too short: 2 bytes, expected at least 65";
    assert_eq!(pool.process_single(&bad), Err(format!("Decryption failed: {}", reason)));
    assert_eq!(
        pool.process_batch(&vec![good, bad]),
        Err(format!("Batch errors: Packet 1: {}", reason))
    );
    assert_eq!(pool.process_batch(&Vec::new()), Ok(Vec::new()));
}

#[test]
fn failed_batches_come_back_empty() {
    let pool = CryptoPool::spawn(2);
    let none: Vec<Vec<u8>> = vec![Vec::new(); 3];
    assert_eq!(pool.decrypt_batch(3, PoolReply::TimedOut), none);
    assert_eq!(pool.decrypt_batch(3, PoolReply::Answer(Err(String::from("x")))), none);
    assert_eq!(pool.decrypt_batch(1, PoolReply::Answer(Ok(vec![vec![1]]))), vec![vec![1]]);
    assert!(pool.decrypt_batch(0, PoolReply::NotSent).is_empty());
}

#[test]
fn phantom_pools_report_what_came_of_the_work() {
    let pool = PhantomCryptoPool::spawn(3);
    assert_eq!((pool.workers, pool.permits), (1, 6));
    assert_eq!(pool.decrypt(PoolReply::Answer(Ok((1, vec![2])))).unwrap(), (1, vec![2]));
    let late = pool.decrypt(PoolReply::TimedOut).unwrap_err();
    assert!(matches!(late, ProtocolError::Timeout { duration_ms: 10 }));
    let late = pool.encrypt(PoolReply::TimedOut).unwrap_err();
    assert!(matches!(late, ProtocolError::Timeout { duration_ms: 5 }));
    let late = pool.process_batch(2, PoolReply::TimedOut).unwrap_err();
    assert!(matches!(late, ProtocolError::Timeout { duration_ms: 50 }));
    assert_eq!(
        pool.decrypt(PoolReply::Abandoned).unwrap_err().message(),
        "Crypto error: Decryption failed: Channel error"
    );
    let empty = pool.process_batch(0, PoolReply::NotSent).unwrap();
    assert!(empty.packet_types.is_empty() && empty.errors.is_empty());
    let done = pool.handle_batch(vec![1, 16], &vec![vec![0; 4], vec![0; 9]], vec![None, None]);
    assert_eq!(done.data_sizes, vec![4, 9]);
    assert_eq!(done.packet_types, vec![1, 16]);
}
