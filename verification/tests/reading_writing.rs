//! Readers and writers of connections.

use batch_system::acceleration::chacha20_batch_accel::SimdFeatures;
use batch_system::config::{BatchConfig, MILLISECOND, SECOND};
use batch_system::io::reader::{
    classify_frame, BatchReader, FrameOutcome, PacketSizeModel, ReadAction, ReadIntensityModel,
    ReadTimeoutModel, ReaderEvent,
};
use batch_system::io::writer::{
    blend_tenth, BackpressureModel, BatchWriter, GatherStep, PrioritizedWriteTask,
    WriteBatchModel, WriteGatherer, WriteOutcome, WriteRoute, WriteTask,
};
use batch_system::types::error::BatchError;
use batch_system::types::priority::Priority;
use bytes::Bytes;

fn config() -> BatchConfig {
    BatchConfig::with_cores(
        2,
        SimdFeatures { avx2: false, avx512: false, neon: false, aes_ni: false, sse4_2: false },
        0,
    )
}

#[test]
fn sizes_are_estimated_from_many_packets() {
    let mut m = PacketSizeModel::new(1000);
    for i in 0..99 {
        assert!(!m.update(i));
    }
    assert!(m.update(99));
}

#[test]
fn reads_leave_the_window() {
    let mut m = ReadIntensityModel::new();
    m.add_read(0);
    m.add_read(SECOND);
    m.update(SECOND);
    assert_eq!((m.rate, m.peak_rate), (2, 2));
    m.update(60 * SECOND + 1);
    assert_eq!((m.rate, m.peak_rate), (1, 2));
    assert_eq!(m.timestamps, vec![SECOND]);
    m.update(61 * SECOND + 1);
    assert_eq!(m.rate, 0);
}

#[test]
fn timeouts_follow_slow_reads() {
    let mut m = ReadTimeoutModel::new(10 * SECOND);
    assert_eq!(m.get_timeout(), 10 * SECOND);
    for _ in 0..9 {
        m.update(9 * SECOND);
    }
    assert_eq!(m.current_timeout, 10 * SECOND);
    m.update(9 * SECOND);
    // Towards one and a half times nine seconds: (7 * 10 + 3 * 13.5) / 10.
    assert_eq!(m.get_timeout(), 11_050 * MILLISECOND);
    m.reset();
    assert_eq!(m.get_timeout(), 10 * SECOND);
}

#[test]
fn timeouts_never_shrink() {
    let mut m = ReadTimeoutModel::new(10 * SECOND);
    let mut last = m.get_timeout();
    for i in 0..200u64 {
        m.update((i * 37 % 12) * SECOND);
        assert!(m.get_timeout() >= last);
        assert!(m.get_timeout() <= 30 * SECOND);
        last = m.get_timeout();
    }
}

#[test]
fn frames_are_classified() {
    assert_eq!(classify_frame(FrameOutcome::Frame(vec![1])).unwrap(), Some(vec![1]));
    assert_eq!(classify_frame(FrameOutcome::Frame(Vec::new())).unwrap(), None);
    assert!(matches!(classify_frame(FrameOutcome::TimedOut), Err(BatchError::Timeout)));
    for text in [
        "Connection closed",
        "got UnexpectedEof here",
        "Broken pipe (os error 32)",
        "Connection reset by peer",
    ] {
        assert!(matches!(
            classify_frame(FrameOutcome::Failed(String::from(text))),
            Err(BatchError::ConnectionClosed(s)) if s == text
        ));
    }
    assert!(matches!(
        classify_frame(FrameOutcome::Failed(String::from("connection closed"))),
        Err(BatchError::ProcessingError(_))
    ));
}

#[test]
fn read_data_is_delivered() {
    let mut reader = BatchReader::new(&config());
    let mut c = reader.register_connection(77, vec![1, 2], false).unwrap();
    let data = vec![0x10; 30];
    match reader.handle_read(&mut c, Ok(Some(data.clone())), MILLISECOND, 5) {
        ReadAction::Deliver(ReaderEvent::DataReady {
            session_id,
            data: d,
            source_addr,
            priority,
            received_at,
            size,
        }) => {
            assert_eq!((session_id, d), (vec![1, 2], data));
            assert_eq!((source_addr, received_at, size), (77, 5, 30));
            assert_eq!(priority, Priority::Critical);
        }
        _ => panic!("nothing was delivered"),
    }
    let stats = reader.get_stats();
    assert_eq!((stats.total_bytes_read, stats.total_packets_read), (30, 1));
    assert_eq!((stats.read_rate, stats.avg_read_time, stats.connection_count), (1, 1000, 1));
}

#[test]
fn an_empty_read_ends_the_connection() {
    let mut reader = BatchReader::new(&config());
    let mut c = reader.register_connection(77, vec![], false).unwrap();
    assert!(matches!(reader.handle_read(&mut c, Ok(None), 1, 2), ReadAction::Stop));
    match reader.finish_connection(&c) {
        ReaderEvent::ConnectionClosed { source_addr, reason } => {
            assert_eq!((source_addr, reason.as_str()), (77, "Reader task finished"));
        }
        _ => panic!("the connection was not closed"),
    }
    assert_eq!(reader.connection_count, 0);
}

#[test]
fn ten_errors_in_a_row_end_the_connection() {
    let mut reader = BatchReader::new(&config());
    let mut c = reader.register_connection(1, vec![], false).unwrap();
    for _ in 0..5 {
        let r = reader.handle_read(&mut c, Err(BatchError::Timeout), 1, 2);
        assert!(matches!(r, ReadAction::Retry));
    }
    let _ = reader.handle_read(&mut c, Ok(Some(vec![1])), 1, 2);
    assert_eq!(c.consecutive_errors, 0);
    for _ in 0..9 {
        let r = reader.handle_read(&mut c, Err(BatchError::Io(String::from("x"))), 1, 2);
        assert!(matches!(r, ReadAction::Retry));
    }
    let r = reader.handle_read(&mut c, Err(BatchError::Timeout), 1, 2);
    assert!(matches!(r, ReadAction::Stop));
    let stats = reader.get_stats();
    assert_eq!((stats.timeout_count, stats.error_count), (5, 9));
}

#[test]
fn a_lost_connection_ends_at_once() {
    let mut reader = BatchReader::new(&config());
    let mut c = reader.register_connection(1, vec![], false).unwrap();
    let lost = BatchError::ConnectionClosed(String::from("gone"));
    assert!(matches!(reader.handle_read(&mut c, Err(lost), 1, 2), ReadAction::Stop));
}

#[test]
fn closed_channels_take_no_connection() {
    let mut reader = BatchReader::new(&config());
    match reader.register_connection(1, vec![], true) {
        Err(BatchError::ConnectionError(s)) => assert_eq!(s, "Event channel closed"),
        _ => panic!("the connection was taken"),
    }
    assert_eq!(reader.connection_count, 0);
    reader.shutdown();
    assert!(!reader.is_running);
}

#[test]
fn the_best_batch_size_has_the_best_throughput_in_time() {
    let mut m = WriteBatchModel::new(32, 1024, 10 * MILLISECOND);
    for i in 0..9u64 {
        m.update(50, 5 * MILLISECOND, i);
    }
    assert_eq!(m.optimal_batch_size, 32);
    m.update(100, 5 * MILLISECOND, 9);
    assert_eq!(m.optimal_batch_size, 100);
    // Faster for its size, but too late.
    m.update(900, 11 * MILLISECOND, 10);
    assert_eq!(m.optimal_batch_size, 100);
    // Times below a tenth of a millisecond count as that.
    m.update(3, 1, 11);
    assert_eq!(m.optimal_batch_size, 3);
    m.update(2, 1, 12);
    assert_eq!(m.optimal_batch_size, 3);
}

#[test]
fn pressure_grows_with_the_queue() {
    let mut m = BackpressureModel::new(10);
    for (queue, pressure, critical) in
        [(0, false, false), (4, false, false), (5, true, false), (8, true, false), (9, true, true)]
    {
        m.update(queue);
        assert_eq!((m.is_backpressure(), m.is_critical()), (pressure, critical));
    }
}

fn task(addr: u64, priority: Priority, bytes: &[u8], flush: bool) -> WriteTask {
    WriteTask {
        destination_addr: addr,
        session_id: vec![addr as u8],
        data: Bytes::from(bytes.to_vec()),
        priority,
        requires_flush: flush,
        created_at: 0,
        size_bytes: bytes.len(),
    }
}

#[test]
fn scores_follow_priorities() {
    let scores: Vec<i32> = (0..5)
        .map(|i| task(1, Priority::from_u8(i).unwrap(), b"", false).priority_score())
        .collect();
    assert_eq!(scores, vec![1000, 750, 500, 250, 100]);
}

#[test]
fn queued_tasks_compare_by_score() {
    let urgent = PrioritizedWriteTask {
        task: task(1, Priority::Critical, b"", false),
        enqueue_time: 0,
        priority_score: 1000,
    };
    let idle = PrioritizedWriteTask {
        task: task(2, Priority::Background, b"", false),
        enqueue_time: 5,
        priority_score: 100,
    };
    assert!(urgent > idle);
    assert!(idle < urgent);
    assert!(urgent != idle);
    assert!(urgent == urgent);
}

#[test]
fn means_move_by_a_tenth() {
    assert_eq!(blend_tenth(0, 100), 10);
    assert_eq!(blend_tenth(100, 0), 90);
    assert_eq!(blend_tenth(5, 5), 5);
    assert_eq!(blend_tenth(u64::MAX, u64::MAX), u64::MAX);
}

#[test]
fn urgent_writes_go_out_at_once() {
    let mut w = BatchWriter::new(&config());
    let before = w.permits;
    let data = Bytes::from(vec![1, 2, 3]);
    let r = w.write(9, vec![1], data.clone(), Priority::Critical, false, 4).unwrap();
    match r {
        WriteRoute::Immediate(t) => assert_eq!((t.size_bytes, t.created_at), (3, 4)),
        WriteRoute::Queued(_) => panic!("an urgent write was queued"),
    }
    let r = w.write(9, vec![1], data.clone(), Priority::Low, true, 4).unwrap();
    assert!(matches!(r, WriteRoute::Immediate(_)));
    let r = w.write(9, vec![1], data, Priority::High, false, 4).unwrap();
    assert!(matches!(r, WriteRoute::Queued(_)));
    assert_eq!(w.permits, before - 3);
    assert!(w.finish_queued(true).is_ok());
    assert!(matches!(w.finish_queued(false), Err(BatchError::Backpressure)));
    assert_eq!(w.permits, before - 1);
    w.release_permit();
    assert_eq!(w.permits, before);
}

#[test]
fn writers_without_permits_refuse() {
    let mut c = config();
    c.max_pending_writes = 1;
    let mut w = BatchWriter::new(&c);
    assert!(w.write(9, vec![], Bytes::new(), Priority::Low, false, 0).is_ok());
    assert!(matches!(
        w.write(9, vec![], Bytes::new(), Priority::Low, false, 0),
        Err(BatchError::Backpressure)
    ));
}

#[test]
fn connections_are_found() {
    let mut w = BatchWriter::new(&config());
    w.register_connection(10, vec![1], 0);
    w.register_connection(20, vec![2], 0);
    assert_eq!(w.find_session(&[2]).unwrap(), 1);
    assert_eq!(w.find_address(10).unwrap(), 0);
    assert!(matches!(
        w.find_address(30),
        Err(BatchError::ConnectionError(s)) if s == "Connection not found"
    ));
    assert!(w.find_session(&[3]).is_err());
    w.shutdown();
    assert!(w.find_session(&[2]).is_err());
    assert!(!w.is_running);
}

#[test]
fn immediate_writes_are_counted() {
    let mut w = BatchWriter::new(&config());
    w.register_connection(10, vec![1], 0);
    let t = task(10, Priority::Critical, b"abcd", true);
    assert!(w.write_immediate(0, &t, WriteOutcome::Written, 2_000_000, 9).is_ok());
    assert_eq!(w.connections[0].bytes_written, 4);
    assert_eq!((w.connections[0].packets_written, w.connections[0].last_write_time), (1, 9));
    assert_eq!(w.stats.avg_write_time, 200_000);
    let flush = WriteOutcome::FlushFailed(String::from("f"));
    assert!(matches!(w.write_immediate(0, &t, flush, 1, 9), Err(BatchError::Io(_))));
    assert!(w.connections[0].is_active);
    let failed = WriteOutcome::Failed(String::from("w"));
    assert!(matches!(
        w.write_immediate(0, &t, failed, 1, 9),
        Err(BatchError::ProcessingError(s)) if s == "w"
    ));
    assert!(!w.connections[0].is_active);
    assert!(matches!(
        w.write_immediate(0, &t, WriteOutcome::TimedOut, 1, 9),
        Err(BatchError::Timeout)
    ));
    let stats = w.get_stats();
    assert_eq!((stats.total_bytes_written, stats.total_packets_written), (4, 1));
    assert_eq!((stats.error_events, stats.timeout_events), (1, 1));
    assert_eq!((stats.avg_write_time, stats.p95_write_time), (2_000_000, 2_000_000));
}

#[test]
fn tasks_gather_until_a_batch_is_due() {
    let mut g = WriteGatherer { destination_addr: 1, pending: Vec::new(), last_flush: 100 };
    assert_eq!(g.gather(task(2, Priority::Low, b"", false), 3, 50, 101), GatherStep::Ignored);
    assert!(g.pending.is_empty());
    assert_eq!(g.gather(task(1, Priority::Low, b"", false), 3, 50, 101), GatherStep::Waiting);
    assert!(!g.is_due(50, 149));
    assert!(g.is_due(50, 150));
    assert_eq!(g.gather(task(1, Priority::Low, b"", false), 3, 50, 149), GatherStep::Waiting);
    assert_eq!(g.gather(task(1, Priority::Low, b"", false), 3, 50, 149), GatherStep::Due);
    let mut late = WriteGatherer { destination_addr: 1, pending: Vec::new(), last_flush: 100 };
    assert!(!late.is_due(50, 999));
    assert_eq!(late.gather(task(1, Priority::Low, b"", false), 9, 50, 150), GatherStep::Due);
    let mut flush = WriteGatherer { destination_addr: 1, pending: Vec::new(), last_flush: 100 };
    assert_eq!(flush.gather(task(1, Priority::Low, b"", true), 9, 50, 101), GatherStep::Due);
}

#[test]
fn batches_hold_every_task() {
    let mut w = BatchWriter::new(&config());
    let mut g = w.register_connection(1, vec![1], 0);
    assert!(w.prepare_batch(&mut g).unwrap().is_none());
    g.pending.push(task(1, Priority::Critical, b"c1", false));
    g.pending.push(task(1, Priority::Low, b"l", false));
    g.pending.push(task(1, Priority::Critical, b"c2", true));
    g.pending.push(task(1, Priority::Background, b"b", false));
    let batch = w.prepare_batch(&mut g).unwrap().unwrap();
    assert_eq!(&batch.data[..], b"blc1c2");
    assert_eq!((batch.connection, batch.total_bytes, batch.requires_flush), (0, 6, true));
    assert_eq!(batch.timeout, 4 * w.write_timeout);
    assert_eq!(g.pending.len(), 4);

    assert!(w.process_batch(&batch, 4, WriteOutcome::Written, 8).is_ok());
    assert_eq!((w.connections[0].bytes_written, w.connections[0].packets_written), (6, 4));
    let permits = w.permits;
    w.conclude_batch(&mut g, true, MILLISECOND, 9);
    assert!(g.pending.is_empty());
    assert_eq!((g.last_flush, w.permits), (9, permits + 4));
    assert_eq!(w.stats.total_batches_written, 1);
    assert!(w.process_batch(&batch, 4, WriteOutcome::TimedOut, 8).is_err());
    assert!(!w.connections[0].is_active);
    g.pending.push(task(1, Priority::Low, b"l", false));
    assert!(w.prepare_batch(&mut g).is_err());
}
