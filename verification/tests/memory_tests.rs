use net_profiling::memory::{collect_queue, handle_memory_usage};
use net_profiling::records::{AllocDirection, AllocInfo, AllocType};

fn record(direction: AllocDirection, size: u64, timestamp: u64, stack_id: i64) -> AllocInfo {
    AllocInfo {
        alloc_type: AllocType::kmalloc,
        alloc_direction: direction,
        size,
        timestamp,
        stack_id,
        pid: 42,
    }
}

#[test]
fn alloc_then_free_balances_out() {
    // One 64-byte allocation at call-site 7, later freed: totals agree,
    // the usage returns to zero, the peak stays at the allocation.
    let mut records = vec![
        record(AllocDirection::Alloc, 64, 10, 7),
        record(AllocDirection::Free, 64, 50, 7),
    ];
    let stats = handle_memory_usage(&mut records, 0);
    assert_eq!(stats.len(), 1);
    let (site, m) = &stats[0];
    assert_eq!(*site, 7);
    assert_eq!(m.total_allocated, 64);
    assert_eq!(m.total_freed, 64);
    assert_eq!(m.current_usage, 0);
    assert_eq!(m.peak_usage, 64);
    assert_eq!(m.alloc_count, 1);
    assert_eq!(m.free_count, 1);
}

#[test]
fn all_allocations_freed_peak_is_max_prefix_sum() {
    // Three allocations of 10, 20 and 30 bytes, all later freed: both
    // totals are 60, the usage returns to zero, and the peak is the sum of
    // all three, reached just before the first free.
    let mut records = vec![
        record(AllocDirection::Alloc, 10, 1, 3),
        record(AllocDirection::Alloc, 20, 2, 3),
        record(AllocDirection::Alloc, 30, 3, 3),
        record(AllocDirection::Free, 20, 4, 3),
        record(AllocDirection::Free, 10, 5, 3),
        record(AllocDirection::Free, 30, 6, 3),
    ];
    let stats = handle_memory_usage(&mut records, 0);
    assert_eq!(stats.len(), 1);
    let m = stats[0].1;
    assert_eq!(m.total_allocated, 60);
    assert_eq!(m.total_freed, 60);
    assert_eq!(m.current_usage, 0);
    assert_eq!(m.peak_usage, 60);
    assert_eq!(m.alloc_count, 3);
    assert_eq!(m.free_count, 3);
}

#[test]
fn interleaved_frees_keep_the_peak_at_the_high_water_mark() {
    let mut records = vec![
        record(AllocDirection::Alloc, 10, 1, 9),
        record(AllocDirection::Alloc, 20, 2, 9),
        record(AllocDirection::Free, 10, 3, 9),
        record(AllocDirection::Alloc, 30, 4, 9),
    ];
    let stats = handle_memory_usage(&mut records, 0);
    let m = stats[0].1;
    assert_eq!(m.total_allocated, 60);
    assert_eq!(m.total_freed, 10);
    assert_eq!(m.current_usage, 50);
    assert_eq!(m.peak_usage, 50);
}

#[test]
fn free_without_allocation_goes_negative_and_stays() {
    // A free whose allocation fell outside the capture window drives the
    // usage negative; that is kept as diagnostic signal, and the peak
    // never rises above zero for it.
    let mut records = vec![record(AllocDirection::Free, 128, 5, 11)];
    let stats = handle_memory_usage(&mut records, 0);
    assert_eq!(stats.len(), 1);
    let m = stats[0].1;
    assert_eq!(m.total_allocated, 0);
    assert_eq!(m.total_freed, 128);
    assert_eq!(m.current_usage, -128);
    assert_eq!(m.peak_usage, 0);
    assert_eq!(m.alloc_count, 0);
    assert_eq!(m.free_count, 1);
}

#[test]
fn sites_keep_first_sighting_order_and_separate_tallies() {
    let mut records = vec![
        record(AllocDirection::Alloc, 8, 1, 5),
        record(AllocDirection::Alloc, 16, 2, 7),
        record(AllocDirection::Alloc, 32, 3, 5),
    ];
    let stats = handle_memory_usage(&mut records, 0);
    assert_eq!(stats.len(), 2);
    assert_eq!(stats[0].0, 5);
    assert_eq!(stats[0].1.total_allocated, 40);
    assert_eq!(stats[0].1.alloc_count, 2);
    assert_eq!(stats[1].0, 7);
    assert_eq!(stats[1].1.total_allocated, 16);
    assert_eq!(stats[1].1.alloc_count, 1);
}

#[test]
fn timestamps_move_to_the_session_clock() {
    let mut records = vec![
        record(AllocDirection::Alloc, 8, 1_000, 1),
        record(AllocDirection::Alloc, 8, 950, 1),
    ];
    handle_memory_usage(&mut records, 1_000);
    assert_eq!(records[0].timestamp, 0);
    // a timestamp from before the session saturates at zero
    assert_eq!(records[1].timestamp, 0);
}

#[test]
fn one_allocation_of_the_largest_admissible_size() {
    let size = i64::MAX as u64;
    let mut records = vec![record(AllocDirection::Alloc, size, 1, 2)];
    let stats = handle_memory_usage(&mut records, 0);
    let m = stats[0].1;
    assert_eq!(m.total_allocated, size);
    assert_eq!(m.current_usage, i64::MAX);
    assert_eq!(m.peak_usage, size);
}

#[test]
fn collect_queue_drops_records_from_before_the_session() {
    let records = vec![
        record(AllocDirection::Alloc, 8, 90, 1),
        record(AllocDirection::Alloc, 16, 100, 1),
        record(AllocDirection::Free, 16, 110, 1),
    ];
    let kept = collect_queue(records, 100);
    assert_eq!(kept.len(), 2);
    assert_eq!(kept[0].size, 16);
    assert_eq!(kept[1].timestamp, 110);
}
