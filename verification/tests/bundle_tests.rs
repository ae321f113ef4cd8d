use velox_engine::bundle::{BundleBuilder, BundleFull, BUNDLE_TIMEOUT_NS};
use velox_engine::ring::RingBuffer;
use velox_engine::tsc::{calibrate_tsc, TscClock};
use velox_engine::types::{Bundle, Transaction, BUNDLE_MAX};

/// One tick per nanosecond.
fn unit_clock() -> TscClock {
    calibrate_tsc(0, 1_000_000, 1_000_000).unwrap()
}

#[test]
fn test_bundle_builder_basic() {
    let clock = unit_clock();
    let mut ring = RingBuffer::<Bundle, 1024>::new();
    let mut builder = BundleBuilder::new();

    let txn = Transaction::new_unchecked(1, 1000, 100, 0, 0);
    assert!(builder.add(txn, &mut ring, &clock).is_ok());
    assert_eq!(builder.len(), 1);
}

#[test]
fn test_bundle_builder_auto_flush_on_full() {
    let clock = unit_clock();
    let mut ring = RingBuffer::<Bundle, 1024>::new();
    let mut builder = BundleBuilder::new_at(0);

    for i in 0..BUNDLE_MAX {
        let txn = Transaction::new_unchecked(i as u64, 1000, 100, 0, 0);
        assert!(builder.add_at(txn, &mut ring, &clock, i as u64).is_ok());
    }

    assert_eq!(builder.len(), 0);
    assert_eq!(ring.len(), 1);

    let bundle = ring.pop().unwrap();
    assert_eq!(bundle.count, BUNDLE_MAX as u32);
}

#[test]
fn test_bundle_builder_manual_flush() {
    let clock = unit_clock();
    let mut ring = RingBuffer::<Bundle, 1024>::new();
    let mut builder = BundleBuilder::new_at(0);

    for i in 0..5 {
        let txn = Transaction::new_unchecked(i as u64, 1000, 100, 0, 0);
        assert!(builder.add_at(txn, &mut ring, &clock, i as u64).is_ok());
    }

    assert_eq!(builder.len(), 5);
    assert!(builder.force_flush(&mut ring, &clock).is_ok());
    assert_eq!(builder.len(), 0);

    let bundle = ring.pop().unwrap();
    assert_eq!(bundle.count, 5);
}

#[test]
fn test_bundle_builder_timeout() {
    let clock = unit_clock();
    let mut ring = RingBuffer::<Bundle, 1024>::new();
    let mut builder = BundleBuilder::new_at(1_000);

    let txn = Transaction::new_unchecked(1, 1000, 100, 0, 0);
    builder.add_at(txn, &mut ring, &clock, 1_000).unwrap();
    assert_eq!(builder.len(), 1);

    // 500 microseconds later.
    let later = 1_000 + 500_000;
    assert!(
        builder.should_flush_timeout_at(&clock, later),
        "Expected timeout condition to be true"
    );

    let txn2 = Transaction::new_unchecked(2, 1000, 100, 0, 0);
    builder.add_at(txn2, &mut ring, &clock, later).unwrap();

    assert!(ring.len() >= 1, "Expected at least 1 bundle flushed");
    let bundle = ring.pop().unwrap();
    assert!(
        bundle.count >= 1 && bundle.count <= 2,
        "Expected bundle to have 1-2 transactions, got {}",
        bundle.count
    );
    assert_eq!(bundle.count, 1);
    assert_eq!(bundle.transactions[0], txn);
    assert_eq!(builder.len(), 1);
}

#[test]
fn size_triggered_flush() {
    let clock = unit_clock();
    let mut ring = RingBuffer::<Bundle, 1024>::new();
    let mut builder = BundleBuilder::new_at(0);
    for k in 1..=16u32 {
        let txn = Transaction::new_unchecked(k as u64, 1_000_000, 10 * k, 0, 0);
        builder.add_at(txn, &mut ring, &clock, k as u64).unwrap();
    }
    assert_eq!(ring.len(), 1);
    assert!(builder.is_empty());
    let bundle = ring.pop().unwrap();
    assert_eq!(bundle.count, 16);
    let sizes: Vec<u32> = bundle.active_transactions().iter().map(|t| t.size).collect();
    assert_eq!(sizes, (1..=16).map(|k| 10 * k).collect::<Vec<u32>>());
    assert!(ring.pop().is_none());
}

#[test]
fn timeout_triggered_flush_on_idle_check() {
    let clock = unit_clock();
    let mut ring = RingBuffer::<Bundle, 1024>::new();
    let mut builder = BundleBuilder::new_at(0);
    let txn = Transaction::new_unchecked(1, 1_000_000, 100, 0, 0);
    builder.add_at(txn, &mut ring, &clock, 2_000).unwrap();
    let later = 2_000 + 500_000;
    assert!(builder.should_flush_timeout_at(&clock, later));
    builder.flush_at(&mut ring, &clock, later).unwrap();
    let bundle = ring.pop().unwrap();
    assert_eq!(bundle.count, 1);
    assert_eq!(bundle.transactions[0], txn);
    assert_eq!(bundle.timestamp_ns, 2_000);
    assert!(builder.is_empty());
}

#[test]
fn timeout_is_strictly_more_than_the_limit() {
    let clock = unit_clock();
    let mut ring = RingBuffer::<Bundle, 1024>::new();
    let mut builder = BundleBuilder::new_at(0);
    assert!(!builder.should_flush_timeout_at(&clock, 10 * BUNDLE_TIMEOUT_NS));
    let txn = Transaction::new_unchecked(1, 1000, 100, 0, 0);
    builder.add_at(txn, &mut ring, &clock, 50).unwrap();
    assert!(!builder.should_flush_timeout_at(&clock, 50 + BUNDLE_TIMEOUT_NS));
    assert!(builder.should_flush_timeout_at(&clock, 50 + BUNDLE_TIMEOUT_NS + 1));
}

#[test]
fn full_output_queue_fails_the_flush_and_keeps_the_buffer() {
    let clock = unit_clock();
    let mut ring = RingBuffer::<Bundle, 1024>::new();
    for _ in 0..1024 {
        assert!(ring.push(Bundle::new()).is_ok());
    }
    let mut builder = BundleBuilder::new_at(0);
    for i in 0..15 {
        let txn = Transaction::new_unchecked(i, 1000, 100, 0, 0);
        assert!(builder.add_at(txn, &mut ring, &clock, 1).is_ok());
    }
    assert_eq!(builder.flush_at(&mut ring, &clock, 2), Err(BundleFull));
    assert_eq!(builder.len(), 15);

    // The sixteenth event is kept although its flush fails.
    let txn = Transaction::new_unchecked(15, 1000, 100, 0, 0);
    assert_eq!(builder.add_at(txn, &mut ring, &clock, 3), Err(BundleFull));
    assert_eq!(builder.len(), 16);
    assert!(builder.is_full());

    // At the cap an add fails before it appends.
    let extra = Transaction::new_unchecked(16, 1000, 100, 0, 0);
    assert_eq!(builder.add_at(extra, &mut ring, &clock, 4), Err(BundleFull));
    assert_eq!(builder.len(), 16);

    // Once there is room the retry emits the 16 and buffers the new event.
    assert!(ring.pop().is_some());
    assert!(builder.add_at(extra, &mut ring, &clock, 5).is_ok());
    assert_eq!(builder.len(), 1);
    assert_eq!(ring.len(), 1024);
}

#[test]
fn emitted_bundles_hold_between_one_and_sixteen_events() {
    let clock = unit_clock();
    for count in 1..=BUNDLE_MAX {
        let mut ring = RingBuffer::<Bundle, 1024>::new();
        let mut builder = BundleBuilder::new_at(0);
        for i in 0..count {
            let txn = Transaction::new_unchecked(i as u64, 1000000, 100, 0, 0);
            let _ = builder.add_at(txn, &mut ring, &clock, 1);
        }
        builder.force_flush(&mut ring, &clock).ok();
        let bundle = ring.pop().unwrap();
        assert!(bundle.count >= 1 && bundle.count <= BUNDLE_MAX as u32);
        assert_eq!(bundle.count as usize, count);
        assert!(ring.pop().is_none());
    }
}

#[test]
fn flushing_an_empty_builder_emits_nothing() {
    let clock = unit_clock();
    let mut ring = RingBuffer::<Bundle, 1024>::new();
    let mut builder = BundleBuilder::new_at(0);
    assert!(builder.flush_at(&mut ring, &clock, 9).is_ok());
    assert!(builder.force_flush(&mut ring, &clock).is_ok());
    assert!(ring.is_empty());
    assert!(!builder.should_flush_timeout(&clock));
}

#[test]
fn bundle_timestamp_is_the_opening_time_in_nanoseconds() {
    // Two ticks per nanosecond.
    let clock = calibrate_tsc(0, 2_000, 1_000).unwrap();
    let mut ring = RingBuffer::<Bundle, 1024>::new();
    let mut builder = BundleBuilder::new_at(0);
    let txn = Transaction::new_unchecked(1, 1000, 100, 0, 0);
    builder.add_at(txn, &mut ring, &clock, 4_000).unwrap();
    builder.add_at(txn, &mut ring, &clock, 5_000).unwrap();
    builder.flush_at(&mut ring, &clock, 6_000).unwrap();
    let bundle = ring.pop().unwrap();
    assert_eq!(bundle.timestamp_ns, 2_000);
    assert_eq!(bundle.count, 2);
}
