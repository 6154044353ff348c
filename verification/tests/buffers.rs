//! Buffers and their pools.

use batch_system::io::buffer::{BufferType, UnifiedBufferPool, MAX_POOL_SIZE};
use batch_system::measure::Measure;
use batch_system::optimized::buffer_pool::{OptimizedBufferPool, PooledBuffer, OLD_AGE};
use batch_system::optimized::size_class::SizeClass;
use batch_system::ratio::Ratio;
use bytes::Bytes;

const SECOND: u64 = 1_000_000_000;

#[test]
fn buffer_types_have_sizes() {
    assert_eq!((BufferType::Read.default_size(), BufferType::Read.max_size()), (8192, 131072));
    assert_eq!(BufferType::Crypto.max_size(), 262144);
    assert_eq!(BufferType::Temporary.default_size(), 32768);
    assert_eq!(BufferType::Write.name(), "Write");
}

#[test]
fn new_buffers_have_the_usual_size() {
    let mut pool = UnifiedBufferPool::new();
    let small = pool.acquire_buffer(BufferType::Read, 10);
    assert_eq!((small.capacity(), small.len(), small.is_empty()), (8192, 0, true));
    let large = pool.acquire_buffer(BufferType::Read, 20_000);
    assert_eq!(large.capacity(), 20_000);
    let largest = pool.acquire_buffer(BufferType::Read, 1_000_000);
    assert_eq!(largest.capacity(), 131072);
    let stats = pool.get_stats();
    assert_eq!((stats.allocation_count, stats.currently_used), (3, 3));
    assert_eq!(stats.total_allocated, 8192 + 20_000 + 131072);
}

#[test]
fn returned_buffers_are_reused_empty() {
    let mut pool = UnifiedBufferPool::new();
    let mut handle = pool.acquire_buffer(BufferType::Crypto, 10);
    handle.buffer_mut().extend_from_slice(b"secret");
    assert_eq!(handle.as_slice(), b"secret");
    pool.release_buffer(handle, 5);
    let again = pool.acquire_buffer(BufferType::Crypto, 60_000);
    assert_eq!((again.len(), again.capacity()), (0, 65536));
    assert_eq!(again.buffer_type(), BufferType::Crypto);
    let stats = pool.get_stats();
    assert_eq!((stats.reuse_count, stats.allocation_count, stats.currently_used), (1, 1, 1));
}

#[test]
fn buffers_of_other_types_are_not_reused() {
    let mut pool = UnifiedBufferPool::new();
    let handle = pool.acquire_buffer(BufferType::Read, 10);
    pool.release_buffer(handle, 5);
    let _other = pool.acquire_buffer(BufferType::Write, 10);
    assert_eq!(pool.get_stats().reuse_count, 0);
}

#[test]
fn pools_keep_a_limited_number_of_buffers() {
    let mut pool = UnifiedBufferPool::new();
    let mut handles = Vec::new();
    for _ in 0..MAX_POOL_SIZE + 5 {
        handles.push(pool.acquire_buffer(BufferType::Read, 1));
    }
    for (i, handle) in handles.into_iter().enumerate() {
        pool.release_buffer(handle, i as u64);
    }
    assert_eq!(pool.pools[0].len(), MAX_POOL_SIZE);
}

#[test]
fn old_buffers_are_cleaned_up() {
    let mut pool = UnifiedBufferPool::new();
    let a = pool.acquire_buffer(BufferType::Read, 1);
    let b = pool.acquire_buffer(BufferType::Read, 1);
    pool.release_buffer(a, 0);
    pool.release_buffer(b, 50);
    pool.cleanup_old_buffers(30, 60);
    assert_eq!(pool.pools[0].len(), 1);
    pool.force_cleanup();
    assert!(pool.pools[0].is_empty());
    assert!(!pool.check_memory_pressure());
}

#[test]
fn grown_buffers_keep_their_room() {
    let mut pool = UnifiedBufferPool::new();
    let mut handle = pool.acquire_buffer(BufferType::Read, 10);
    handle.buffer_mut().resize(10_000, 7);
    assert_eq!(handle.capacity(), 10_000);
    pool.release_buffer(handle, 5);
    assert_eq!((pool.pools[0][0].size, pool.pools[0][0].buffer.len()), (10_000, 0));
    let again = pool.acquire_buffer(BufferType::Read, 9_000);
    assert_eq!((again.capacity(), pool.get_stats().reuse_count), (10_000, 1));
}

#[test]
fn frozen_buffers_count_as_returned() {
    let mut pool = UnifiedBufferPool::new();
    let mut handle = pool.acquire_buffer(BufferType::Write, 1);
    handle.buffer_mut().extend_from_slice(&[1, 2, 3]);
    assert_eq!(pool.get_stats().currently_used, 1);
    assert_eq!(pool.freeze_buffer(handle, 9), Bytes::from(vec![1, 2, 3]));
    assert_eq!(pool.get_stats().currently_used, 0);
    assert_eq!((pool.pools[1].len(), pool.pools[1][0].size), (1, 0));
    let next = pool.acquire_buffer(BufferType::Write, 1);
    assert_eq!((next.capacity() > 0, pool.get_stats().allocation_count), (true, 2));
}

#[test]
fn frozen_buffers_keep_their_bytes() {
    let mut pool = UnifiedBufferPool::new();
    let mut handle = pool.acquire_buffer(BufferType::Write, 1);
    handle.buffer_mut().extend_from_slice(&[1, 2, 3]);
    assert_eq!(handle.freeze(), Bytes::from(vec![1, 2, 3]));
}

#[test]
fn sizes_fall_into_classes() {
    for (size, class) in [
        (1, SizeClass::Small),
        (1024, SizeClass::Small),
        (1025, SizeClass::Medium),
        (8192, SizeClass::Medium),
        (8193, SizeClass::Large),
        (65537, SizeClass::XLarge),
        (262145, SizeClass::Giant),
    ] {
        assert_eq!(SizeClass::from_size(size), class);
        assert!(class.min_size() <= size && size <= class.max_size());
    }
    assert_eq!(SizeClass::from_size(5_000_000), SizeClass::Giant);
}

#[test]
fn larger_sizes_never_fall_into_smaller_classes() {
    let mut last = 0;
    let mut size = 1;
    while size < 2_000_000 {
        let index = SizeClass::from_size(size).index();
        assert!(index >= last);
        last = index;
        size += 777;
    }
}

#[test]
fn classes_fall_back_to_larger_ones() {
    for class in SizeClass::all_classes() {
        for larger in class.larger_classes() {
            assert!(larger.index() > class.index());
        }
    }
    assert_eq!(
        SizeClass::Small.larger_classes(),
        vec![SizeClass::Medium, SizeClass::Large]
    );
    assert_eq!(SizeClass::Giant.larger_classes(), Vec::new());
    assert_eq!((SizeClass::Small.min_pool_size(), SizeClass::Giant.min_pool_size()), (50, 5));
    assert_eq!((SizeClass::XLarge.name(), SizeClass::XLarge.optimal_size()), ("XLarge", 262144));
}

#[test]
fn pooled_buffers_fit_requests_of_half_their_size() {
    let b = PooledBuffer::new(SizeClass::Small, 0);
    assert!(b.can_reuse_for(512) && b.can_reuse_for(1024));
    assert!(!b.can_reuse_for(511) && !b.can_reuse_for(1025));
    let mut used = PooledBuffer::with_exact_size(100, 5);
    used.prepare_for_reuse(9);
    assert!(!used.can_reuse_for(100));
    assert_eq!((used.age(25), used.idle_time(25), used.idle_time(0)), (20, 16, 0));
}

#[test]
fn buffers_expire() {
    let b = PooledBuffer::new(SizeClass::Small, 0);
    assert!(!b.is_expired(100, 100));
    assert!(b.is_expired(101, 100));
    let mut half = PooledBuffer::new(SizeClass::Small, 0);
    half.requested_size = 500;
    half.last_used = OLD_AGE + 1;
    assert!(half.is_expired(OLD_AGE + 1, 100));
    half.requested_size = 512;
    assert!(!half.is_expired(OLD_AGE + 1, 100));
}

#[test]
fn pools_are_filled_in_advance() {
    let pool = OptimizedBufferPool::new(10, 0);
    for class in 0..5 {
        assert_eq!(pool.pools[class].len(), 8);
    }
    assert_eq!(pool.get_reuse_rate(), Ratio::new(0, 0));
}

#[test]
fn requests_are_served_from_the_pool() {
    let mut pool = OptimizedBufferPool::new(10, 0);
    let got = pool.acquire_buffer(1000, 1);
    assert_eq!((got.class, got.capacity, got.usage_count), (SizeClass::Small, 1024, 1));
    assert!(got.data.is_empty());
    assert_eq!(pool.pools[0].len(), 7);
    assert_eq!((pool.global.total_reuses, pool.global.total_allocations), (1, 0));
    assert_eq!(pool.stats[0].current_active, 1);
}

#[test]
fn reused_buffers_are_large_enough() {
    let mut pool = OptimizedBufferPool::new(10, 0);
    for size in [1usize, 600, 1024, 1025, 5000, 8193, 100_000, 300_000, 2_000_000] {
        assert!(pool.acquire_buffer(size, 1).capacity >= size);
    }
}

#[test]
fn buffers_are_made_where_none_fits() {
    let mut pool = OptimizedBufferPool::new(10, 0);
    // No buffer of any class is at most twice as large.
    let got = pool.acquire_buffer(100, 1);
    assert_eq!((got.class, got.capacity, got.usage_count), (SizeClass::Small, 1024, 1));
    assert_eq!((pool.global.total_reuses, pool.global.total_allocations), (0, 1));
    assert_eq!(pool.global.total_memory_allocated, 1024);
}

#[test]
fn worthwhile_buffers_are_kept() {
    let mut pool = OptimizedBufferPool::new(10, 0);
    let got = pool.acquire_buffer(1024, 1);
    let capacity = got.capacity;
    assert!(!pool.return_buffer(vec![1; 100], 100, Measure::exact(5000), 2));
    assert!(pool.return_buffer(got.data, capacity, Measure::exact(0), 2));
    assert_eq!(pool.pools[0].len(), 8);
    assert_eq!(pool.stats[0].current_active, 0);
    let giant = pool.acquire_buffer(1_000_000, 3);
    assert!(!pool.should_keep_buffer(giant.capacity, SizeClass::Giant, Measure::exact(1999)));
    assert!(pool.should_keep_buffer(giant.capacity, SizeClass::Giant, Measure::exact(2000)));
}

#[test]
fn cleanups_leave_a_minimum() {
    let mut pool = OptimizedBufferPool::new(100, 0);
    pool.cleanup_old_buffers(600 * SECOND, 601 * SECOND);
    for class in 0..5 {
        assert!(pool.pools[class].is_empty());
    }
    let mut small = OptimizedBufferPool::new(5, 0);
    small.cleanup_old_buffers(600 * SECOND, 601 * SECOND);
    assert_eq!(small.pools[4].len(), 4);
}

#[test]
fn pools_grow_by_a_few_buffers() {
    let mut pool = OptimizedBufferPool::new(10, 0);
    pool.grow_pools(12, 7);
    assert_eq!(pool.pools[1].len(), 12);
    pool.grow_pools(1000, 8);
    assert_eq!(pool.pools[1].len(), 32);
    pool.increase_pool_sizes(9);
    assert_eq!(pool.pools[1].len(), 32);
}

#[test]
fn pools_shrink_to_their_need() {
    let mut pool = OptimizedBufferPool::new(10, 0);
    pool.grow_pools(25, 7);
    pool.optimize_pool_sizes();
    assert_eq!(pool.pools[1].len(), 15);
    pool.optimize_pool_sizes();
    assert_eq!(pool.pools[1].len(), 5);
    pool.optimize_pool_sizes();
    assert_eq!(pool.pools[1].len(), 5);
}

#[test]
fn statistics_are_refreshed() {
    let mut pool = OptimizedBufferPool::new(10, 0);
    let _a = pool.acquire_buffer(1024, 1);
    let _b = pool.acquire_buffer(100, 1);
    pool.record_times(4_000, 9_000);
    pool.update_statistics(77);
    assert_eq!(pool.global.current_hit_rate, Ratio::new(1, 2));
    assert_eq!(pool.global.last_hit_rate_calc, 77);
    assert_eq!(pool.stats[0].hit_rate, Ratio::new(1, 2));
    assert_eq!((pool.stats[0].allocation_time_avg, pool.stats[0].wait_time_avg), (9, 4));
    let details = pool.get_detailed_stats();
    assert_eq!(details.len(), 6);
    assert_eq!((details[5].class_name, details[5].reuses), ("Global", 1));
}

#[test]
fn copies_are_empty_and_count_no_classes() {
    let mut pool = OptimizedBufferPool::new(10, 0);
    let _a = pool.acquire_buffer(1024, 1);
    let mut copy = pool.empty_copy(80);
    assert_eq!((copy.pools[0].len(), copy.config.max_buffers_per_class), (0, 10));
    assert_eq!((copy.stats.len(), copy.global.total_reuses), (0, 0));
    assert!(copy.return_buffer(vec![0; 512], 512, Measure::exact(0), 81));
    assert!(!copy.return_buffer(vec![0; 255], 255, Measure::exact(9000), 81));
    assert_eq!(copy.pools[0].len(), 1);
    let details = copy.get_detailed_stats();
    assert_eq!((details.len(), details[0].class_name), (1, "Global"));
}

#[test]
fn copies_of_typed_pools_are_new() {
    let mut pool = UnifiedBufferPool::new();
    let handle = pool.acquire_buffer(BufferType::Read, 10);
    pool.release_buffer(handle, 5);
    let mut copy = pool.empty_copy();
    assert_eq!(copy.get_stats().allocation_count, 0);
    let _other = copy.acquire_buffer(BufferType::Read, 10);
    assert_eq!((copy.get_stats().reuse_count, copy.get_stats().allocation_count), (0, 1));
}

#[test]
fn targets_may_exceed_all_requests() {
    let mut pool = OptimizedBufferPool::new(10, 0);
    pool.config.target_hit_percent = 150;
    pool.global.current_hit_rate = Ratio::new(9, 10);
    let before = pool.pools[0].len();
    pool.adaptive_pool_adjustment(1);
    assert_eq!((before, pool.pools[0].len()), (8, 10));
}

#[test]
fn maintenance_asks_for_an_adaptation_now_and_then() {
    let mut pool = OptimizedBufferPool::new(10, 0);
    assert!(!pool.maintain(30 * SECOND));
    assert!(pool.maintain(31 * SECOND));
    assert!(!pool.maintain(60 * SECOND));
    pool.force_cleanup(61 * SECOND);
    assert_eq!(pool.last_cleanup, 61 * SECOND);
    pool.adaptive_pool_adjustment(62 * SECOND);
}
