//! Texts, numbers, histories, ratios, measures and the stores.

use std::collections::VecDeque;

use batch_system::balance::{are_small, imbalance_of};
use batch_system::bounds::{clamp_u64, clamp_usize, max_u64, max_usize, min_usize};
use batch_system::buffer::{same_bytes, PacketBuffer};
use batch_system::dash::{is_recent, Counters, NamedTimes, Numbers};
use batch_system::error::{CryptoError, ProtocolError};
use batch_system::histogram::{weighted_percentile, Histogram};
use batch_system::history::{
    mean_u64, micros_of, percentile, remember, sort_u64, sum_u64, to_list,
};
use batch_system::measure::Measure;
use batch_system::ratio::Ratio;
use batch_system::store::{NamedStore, NumberedStore};
use batch_system::text::{
    decimal_string, hex_byte_string, hex_digit_str, join_strings, parse_number, str_contains,
    str_equal,
};
use batch_system::types::error::BatchError;
use batch_system::types::packet_types::{
    get_packet_priority, is_packet_supported, packet_info, reply_handling, PacketType,
};
use batch_system::types::priority::Priority;
use bytes::Bytes;

#[test]
fn numbers_are_written_in_decimal() {
    assert_eq!(decimal_string(0), "0");
    assert_eq!(decimal_string(7), "7");
    assert_eq!(decimal_string(10), "10");
    assert_eq!(decimal_string(65536), "65536");
    assert_eq!(decimal_string(u64::MAX), "18446744073709551615");
}

#[test]
fn bytes_are_written_in_hexadecimal() {
    assert_eq!(hex_byte_string(0), "00");
    assert_eq!(hex_byte_string(0x0a), "0a");
    assert_eq!(hex_byte_string(0xf1), "f1");
    assert_eq!(hex_digit_str(11), "b");
}

#[test]
fn parts_are_joined_by_the_separator() {
    let parts = vec![String::from("a"), String::from("bc"), String::from("")];
    assert_eq!(join_strings(&parts, ", "), "a, bc, ");
    assert_eq!(join_strings(&Vec::new(), ", "), "");
    assert_eq!(join_strings(&vec![String::from("x")], "-"), "x");
}

#[test]
fn texts_are_equal_only_to_themselves() {
    assert!(str_equal("abc", "abc"));
    assert!(!str_equal("abc", "abd"));
    assert!(!str_equal("abc", "ab"));
    assert!(str_equal("", ""));
}

#[test]
fn written_numbers_are_read_back() {
    let mut n: u64 = 1;
    while n < u64::MAX / 7 {
        assert_eq!(parse_number(decimal_string(n).as_str(), u64::MAX), Some(n));
        n = n * 7 + 3;
    }
    assert_eq!(parse_number("18446744073709551615", u64::MAX), Some(u64::MAX));
}

#[test]
fn only_numbers_within_the_limit_are_read() {
    assert_eq!(parse_number("+42", 100), Some(42));
    assert_eq!(parse_number("007", 100), Some(7));
    assert_eq!(parse_number("100", 100), Some(100));
    assert_eq!(parse_number("101", 100), None);
    assert_eq!(parse_number("18446744073709551616", u64::MAX), None);
    assert_eq!(parse_number("", 100), None);
    assert_eq!(parse_number("+", 100), None);
    assert_eq!(parse_number("-1", 100), None);
    assert_eq!(parse_number("1.5", 100), None);
    assert_eq!(parse_number(" 1", 100), None);
}

#[test]
fn histories_forget_their_oldest_entry() {
    let mut history: VecDeque<u64> = VecDeque::new();
    for i in 0..5 {
        remember(&mut history, i, 3);
        assert!(history.len() <= 3);
    }
    assert_eq!(to_list(&history), vec![2, 3, 4]);
}

#[test]
fn percentiles_are_entries_of_the_sorted_list() {
    let values = vec![50, 10, 40, 20, 30];
    assert_eq!(sort_u64(&values), vec![10, 20, 30, 40, 50]);
    assert_eq!(percentile(&values, 0), Some(10));
    assert_eq!(percentile(&values, 50), Some(30));
    assert_eq!(percentile(&values, 95), Some(50));
    assert_eq!(percentile(&Vec::new(), 50), None);
}

#[test]
fn means_round_down() {
    assert_eq!(sum_u64(&vec![u64::MAX, u64::MAX]), 2 * (u64::MAX as u128));
    assert_eq!(mean_u64(&vec![1, 2, 4]), 2);
    assert_eq!(mean_u64(&vec![u64::MAX, u64::MAX]), u64::MAX);
    assert_eq!(micros_of(&vec![1_999, 2_000, 5_000_000]), vec![1, 2, 5_000]);
}

#[test]
fn ratios_compare_exactly() {
    let third = Ratio::new(1, 3);
    assert!(third.below(334, 1000));
    assert!(!third.below(333, 1000));
    assert!(third.above(333, 1000));
    assert!(!third.above(1, 3));
    assert!(Ratio::new(0, 0).below(1, 10));
    assert!(!Ratio::new(5, 0).above(0, 1));
    assert_eq!(third.max(Ratio::new(1, 2)), Ratio::new(1, 2));
    assert_eq!(third.max(Ratio::new(2, 6)), third);
    assert!(Ratio::new(1, 2).more_than(&third));
    assert!(Ratio::new(u64::MAX, 1).more_than(&Ratio::new(u64::MAX, 2)));
}

#[test]
fn what_exceeds_the_larger_exceeds_the_smaller() {
    let small = Ratio::new(1, 5);
    let middle = Ratio::new(1, 4);
    let large = Ratio::new(1, 3);
    assert!(large.more_than(&middle) && !small.more_than(&middle));
    assert!(large.more_than(&small));
}

#[test]
fn measures_lie_on_one_side_of_a_number() {
    let half = Measure::exact(500);
    assert!(!half.below(500) && !half.above(500));
    assert!(half.below(501) && half.above(499));
    let between = Measure { at_least: 500, at_most: 501 };
    assert!(between.above(500) && !between.below(500));
    assert!(between.below(501) && !between.above(501));
}

#[test]
fn histograms_find_percentiles() {
    let mut h = Histogram::new();
    assert_eq!(h.percentile(50), 0);
    for v in 1..=100 {
        h.note(v);
    }
    assert_eq!(h.percentile(0), 1);
    assert_eq!(h.percentile(50), 51);
    assert_eq!(h.percentile(95), 96);
    for _ in 0..900 {
        h.note(7);
    }
    assert_eq!(h.percentile(50), 7);
    assert_eq!(h.percentile(99), 91);
}

#[test]
fn weighted_percentiles_do_not_depend_on_the_order() {
    let sorted = vec![(1, 3), (5, 1), (9, 6)];
    let mixed = vec![(9, 6), (1, 3), (5, 1)];
    for p in 0..100 {
        assert_eq!(weighted_percentile(&sorted, p), weighted_percentile(&mixed, p));
    }
    assert_eq!(weighted_percentile(&sorted, 29), 1);
    assert_eq!(weighted_percentile(&sorted, 30), 5);
    assert_eq!(weighted_percentile(&sorted, 40), 9);
}

#[test]
fn equal_loads_show_no_imbalance() {
    assert_eq!(imbalance_of(&vec![5, 5, 5, 5], 1), Measure::exact(0));
    assert_eq!(imbalance_of(&vec![0, 0], 1), Measure::exact(0));
    assert_eq!(imbalance_of(&Vec::new(), 1), Measure::exact(0));
}

#[test]
fn uneven_loads_show_their_variation() {
    // Mean 2, standard deviation 1.
    assert_eq!(imbalance_of(&vec![1, 3], 1), Measure::exact(500));
    // Mean 2, variance 2 / 3: the square root of 1 / 6 is 0.40824...
    assert_eq!(imbalance_of(&vec![1, 2, 3], 1), Measure { at_least: 408, at_most: 409 });
    // All of the load on one of four workers exceeds the largest value.
    assert_eq!(imbalance_of(&vec![100, 0, 0, 0], 1), Measure::exact(1000));
    // A mean below a millionth of the unit is nothing.
    assert_eq!(imbalance_of(&vec![1, 0], 1_000_000), Measure::exact(0));
    assert_eq!(imbalance_of(&vec![2, 0], 1_000_000), Measure::exact(1000));
    assert!(are_small(&vec![1, 2, 3]));
    assert!(!are_small(&vec![u64::MAX]));
}

#[test]
fn numbers_are_found_again() {
    let mut n = Numbers::new();
    n.set(3, 30);
    n.set(4, 40);
    n.set(3, 31);
    assert_eq!((n.get(3), n.get(4), n.get(5)), (Some(31), Some(40), None));
}

#[test]
fn old_times_are_forgotten() {
    let mut t = NamedTimes::new();
    t.set(String::from("old"), 10);
    t.set(String::from("new"), 11);
    t.keep_recent(20, 10);
    assert_eq!((t.get("old"), t.get("new")), (None, Some(11)));
}

#[test]
fn values_are_kept_in_bounds() {
    assert_eq!(clamp_usize(5, 1, 3), 3);
    assert_eq!(clamp_usize(0, 1, 3), 1);
    assert_eq!(clamp_usize(2, 1, 3), 2);
    assert_eq!(clamp_u64(9, 1, 8), 8);
    assert_eq!((min_usize(1, 2), max_usize(1, 2), max_u64(4, 3)), (1, 2, 4));
}

#[test]
fn numbered_stores_hold_what_was_put_in() {
    let mut store: NumberedStore<&str> = NumberedStore::new();
    store.insert(7, "seven");
    store.insert(9, "nine");
    store.insert(11, "eleven");
    assert_eq!(store.get(7), Some(&"seven"));
    assert_eq!(store.get(8), None);
    assert_eq!(store.len(), 3);
    store.insert(7, "SEVEN");
    assert_eq!(store.len(), 3);
    assert_eq!(store.get(7), Some(&"SEVEN"));
    store.remove(7);
    assert_eq!(store.get(7), None);
    assert_eq!(store.get(9), Some(&"nine"));
    assert_eq!(store.get(11), Some(&"eleven"));
    store.remove(12345);
    *store.get_mut(9) = "neun";
    assert_eq!(store.get(9), Some(&"neun"));
    let mut ids = store.ids();
    ids.sort();
    assert_eq!(ids, vec![9, 11]);
}

#[test]
fn named_stores_hold_what_was_put_in() {
    let mut store: NamedStore<u32> = NamedStore::new();
    assert_eq!(store.find("a"), None);
    let a = store.add("a", 1);
    let b = store.add("b", 2);
    assert_eq!(store.find("a"), Some(a));
    assert_eq!((store.get(a), store.get(b)), (&1, &2));
    assert_eq!(store.name(b), "b");
    assert_eq!(store.replace(a, 10), 1);
    assert_eq!(store.put("b", 20), Some(2));
    assert_eq!(store.put("c", 30), None);
    assert_eq!(store.len(), 3);
    store.clear();
    assert_eq!((store.len(), store.find("a")), (0, None));
}

#[test]
fn counters_count_by_name() {
    let mut counters = Counters::new();
    assert_eq!(counters.get("x"), None);
    assert_eq!(counters.value("x"), 0);
    counters.add("x", 3);
    counters.add("x", 4);
    counters.add("y", 1);
    assert_eq!((counters.value("x"), counters.value("y")), (7, 1));
    counters.set("x", 100);
    assert_eq!(counters.get("x"), Some(100));
    assert_eq!(counters.get("y"), Some(1));
}

#[test]
fn counters_can_be_listed_and_summed() {
    let mut counters = Counters::new();
    assert_eq!((counters.list().len(), counters.total()), (0, 0));
    counters.set("x", u64::MAX);
    counters.add("y", 2);
    let mut entries = counters.list();
    entries.sort();
    assert_eq!(entries, vec![(String::from("x"), u64::MAX), (String::from("y"), 2)]);
    assert_eq!(counters.total(), u64::MAX as u128 + 2);
    let mut copy = counters.copy();
    copy.add("y", 1);
    assert_eq!((copy.get("x"), copy.get("y")), (Some(u64::MAX), Some(3)));
    assert_eq!(counters.get("y"), Some(2));
}

#[test]
fn patterns_are_found_in_texts() {
    assert!(str_contains("Broken pipe (os error 32)", "Broken pipe"));
    assert!(str_contains("aab", "ab") && str_contains("ab", "ab") && str_contains("", ""));
    assert!(str_contains("x\u{e9}y", "\u{e9}y"));
    assert!(!str_contains("ab", "abc") && !str_contains("abab", "ba b"));
    assert!(!str_contains("Connection close", "Connection closed"));
}

#[test]
fn recent_times_are_within_the_age() {
    assert!(is_recent(90, 100, 11));
    assert!(!is_recent(90, 100, 10));
    assert!(is_recent(200, 100, 1));
}

#[test]
fn packet_buffers_share_their_bytes() {
    let buffer = PacketBuffer::from_vec(vec![1, 2, 3]);
    assert_eq!(buffer.as_slice(), &[1, 2, 3]);
    assert_eq!((buffer.len(), buffer.is_empty()), (3, false));
    assert_eq!(buffer.clone().to_vec(), vec![1, 2, 3]);
    assert_eq!(buffer.into_bytes(), Bytes::from(vec![1, 2, 3]));
    assert!(PacketBuffer::new(Bytes::new()).is_empty());
    assert_eq!(PacketBuffer::from(vec![4u8]).to_vec(), vec![4]);
    assert_eq!(PacketBuffer::from(Bytes::from(vec![5u8, 6])).len(), 2);
    assert!(same_bytes(&[1, 2], &[1, 2]));
    assert!(!same_bytes(&[1, 2], &[1, 3]));
    assert!(!same_bytes(&[1, 2], &[1, 2, 3]));
}

#[test]
fn priorities_have_levels() {
    let all = [
        Priority::Critical,
        Priority::High,
        Priority::Normal,
        Priority::Low,
        Priority::Background,
    ];
    for (i, p) in all.iter().enumerate() {
        assert_eq!(p.level() as usize, i);
        assert_eq!(Priority::from_u8(i as u8), Some(*p));
        assert_eq!(p.is_critical(), i == 0);
    }
    assert_eq!(Priority::from_u8(5), None);
}

#[test]
fn more_urgent_priorities_bear_less_latency() {
    let bounds: Vec<u64> =
        (0..5).map(|i| Priority::from_u8(i).unwrap().max_latency_ms()).collect();
    assert_eq!(bounds, vec![10, 50, 100, 200, 500]);
}

#[test]
fn messages_have_priorities() {
    assert_eq!(Priority::from_byte(&[]), Priority::Normal);
    assert_eq!(Priority::from_byte(&[0x01]), Priority::Critical);
    assert_eq!(Priority::from_byte(&[0x10; 2000]), Priority::Critical);
    assert_eq!(Priority::from_byte(&[0x02; 64]), Priority::High);
    assert_eq!(Priority::from_byte(&[0x02; 65]), Priority::Normal);
    assert_eq!(Priority::from_byte(&[0x02; 1024]), Priority::Normal);
    assert_eq!(Priority::from_byte(&[0x02; 1025]), Priority::Low);
}

#[test]
fn packet_types_are_known_by_their_byte() {
    assert_eq!(PacketType::from_byte(0x01), Some(PacketType::Ping));
    assert_eq!(PacketType::from_byte(0x10), Some(PacketType::Heartbeat));
    assert_eq!(PacketType::from_byte(0x11), None);
    for t in PacketType::all_supported() {
        assert_eq!(PacketType::from_byte(t.code()), Some(t));
        assert_eq!(t.priority(), Priority::Critical);
        assert!(t.requires_immediate_flush());
    }
    assert_eq!(PacketType::Ping.display(), "0x01 (Ping request)");
    assert_eq!(PacketType::Heartbeat.display(), "0x10 (Heartbeat signal)");
}

#[test]
fn supported_packets_have_an_entry() {
    let ping = packet_info(0x01).unwrap();
    assert_eq!((ping.typical_size, ping.max_processing_time_ms), (64, 10));
    assert_eq!(ping.description, "Ping request");
    let heartbeat = packet_info(0x10).unwrap();
    assert_eq!((heartbeat.typical_size, heartbeat.max_processing_time_ms), (32, 50));
    assert!(packet_info(0).is_none());
    assert!(is_packet_supported(0x10) && !is_packet_supported(0xff));
    assert_eq!(get_packet_priority(0x01), Some(Priority::Critical));
    assert_eq!(get_packet_priority(0x02), None);
    assert_eq!(reply_handling(0x01), (Priority::Critical, true));
    assert_eq!(reply_handling(0x42), (Priority::Normal, false));
}

#[test]
fn a_message_is_as_urgent_as_its_packet_type() {
    for byte in [0x01u8, 0x10] {
        assert_eq!(Some(Priority::from_byte(&[byte; 100])), get_packet_priority(byte));
    }
}

#[test]
fn errors_have_texts() {
    let text = String::from("x");
    let cases = vec![
        (BatchError::Io(text.clone()), "IO error: x"),
        (BatchError::ConnectionError(text.clone()), "Connection error: x"),
        (BatchError::ProcessingError(text.clone()), "Processing error: x"),
        (BatchError::Timeout, "Timeout error"),
        (BatchError::Backpressure, "Backpressure: too many pending operations"),
        (BatchError::InvalidSession(text.clone()), "Invalid session: x"),
        (BatchError::Crypto(text.clone()), "Crypto error: x"),
        (BatchError::ConnectionClosed(text.clone()), "Connection closed: x"),
        (BatchError::CircuitBreakerOpen(text.clone()), "Circuit breaker open: x"),
    ];
    for (error, expected) in cases {
        assert_eq!(error.message(), expected);
    }
    let length = CryptoError::InvalidKeyLength { expected: 32, actual: 16 };
    assert_eq!(length.message(), "Invalid key length: expected 32, got 16");
    let source = CryptoError::DecryptionFailed { reason: text.clone() };
    assert_eq!(source.message(), "Decryption failed: x");
    assert_eq!(
        ProtocolError::Crypto { source }.message(),
        "Crypto error: Decryption failed: x"
    );
    assert_eq!(ProtocolError::Timeout { duration_ms: 50 }.message(), "Timeout after 50ms");
    assert_eq!(
        ProtocolError::MalformedPacket { details: text }.message(),
        "Malformed packet: x"
    );
}
