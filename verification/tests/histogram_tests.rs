use velox_engine::histogram::LatencyHistogram;

#[test]
fn test_bucket_selection() {
    assert_eq!(LatencyHistogram::bucket_index(0), 0);
    assert_eq!(LatencyHistogram::bucket_index(50), 0);
    assert_eq!(LatencyHistogram::bucket_index(99), 0);
    assert_eq!(LatencyHistogram::bucket_index(100), 1);
    assert_eq!(LatencyHistogram::bucket_index(199), 1);
    assert_eq!(LatencyHistogram::bucket_index(200), 2);
    assert_eq!(LatencyHistogram::bucket_index(499), 2);
    assert_eq!(LatencyHistogram::bucket_index(500), 3);
    assert_eq!(LatencyHistogram::bucket_index(999), 3);
    assert_eq!(LatencyHistogram::bucket_index(1_000), 4);
    assert_eq!(LatencyHistogram::bucket_index(1_999), 4);
    assert_eq!(LatencyHistogram::bucket_index(2_000), 5);
    assert_eq!(LatencyHistogram::bucket_index(10_000), 7);
    assert_eq!(LatencyHistogram::bucket_index(50_000), 9);
    assert_eq!(LatencyHistogram::bucket_index(500_000), 12);
    assert_eq!(LatencyHistogram::bucket_index(1_000_000), 12);
}

fn target(total: u64, p: f64) -> u64 {
    (total as f64 * p) as u64
}

#[test]
fn test_record_and_percentiles() {
    let mut hist = LatencyHistogram::new();

    for _ in 0..100 {
        hist.record(50);
    }
    for _ in 0..50 {
        hist.record(150);
    }
    for _ in 0..30 {
        hist.record(300);
    }
    for _ in 0..20 {
        hist.record(700);
    }

    let total = hist.total_samples();
    assert_eq!(hist.percentile(target(total, 0.50)), 50);
    assert_eq!(hist.percentile(target(total, 0.75)), 150);
    assert_eq!(hist.percentile(target(total, 0.90)), 350);
    assert_eq!(hist.percentile(target(total, 0.99)), 750);
}

#[test]
fn test_min_max_tracking() {
    let mut hist = LatencyHistogram::new();

    hist.record(1_000);
    hist.record(500);
    hist.record(2_000);
    hist.record(100);
    hist.record(5_000);

    assert_eq!(hist.min_latency_ns(), 100);
    assert_eq!(hist.max_latency_ns(), 5_000);
}

#[test]
fn test_mean_calculation() {
    let mut hist = LatencyHistogram::new();

    hist.record(100);
    hist.record(200);
    hist.record(300);
    hist.record(400);

    let total = hist.total_samples();
    let total_latency = hist.total_latency_ns();
    let mean = total_latency / total;

    assert_eq!(total, 4);
    assert_eq!(total_latency, 1_000);
    assert_eq!(mean, 250);
}

#[test]
fn test_reset() {
    let mut hist = LatencyHistogram::new();

    hist.record(100);
    hist.record(200);
    hist.record(300);

    hist.reset();

    assert_eq!(hist.total_samples(), 0);
    assert_eq!(hist.total_latency_ns(), 0);
    assert_eq!(hist.min_latency_ns(), u64::MAX);
    assert_eq!(hist.max_latency_ns(), 0);

    for i in 0..13 {
        assert_eq!(hist.bucket_count(i), 0);
    }
}

#[test]
fn test_empty_histogram() {
    let hist = LatencyHistogram::new();

    assert_eq!(hist.percentile(target(0, 0.50)), 0);
    assert_eq!(hist.percentile(target(0, 0.99)), 0);
}

#[test]
fn test_single_bucket_distribution() {
    let mut hist = LatencyHistogram::new();

    for _ in 0..100 {
        hist.record(1_000_000);
    }

    let total = hist.total_samples();
    assert_eq!(hist.percentile(target(total, 0.50)), 750_000);
    assert_eq!(hist.percentile(target(total, 0.99)), 750_000);
}

#[test]
fn bucket_counts_add_up_to_the_total() {
    let mut hist = LatencyHistogram::new();
    let samples: [u64; 10] = [0, 99, 100, 450, 999, 1_500, 19_999, 20_000, 499_999, u64::MAX];
    for s in samples.iter() {
        hist.record(*s);
    }
    let mut sum = 0;
    for i in 0..13 {
        sum += hist.bucket_count(i);
    }
    assert_eq!(sum, hist.total_samples());
    assert_eq!(hist.total_samples(), 10);
    assert_eq!(hist.bucket_count(0), 2);
    assert_eq!(hist.bucket_count(12), 1);
    assert_eq!(hist.bucket_count(7), 1);
    assert_eq!(hist.bucket_count(8), 1);
}

#[test]
fn mean_lies_between_min_and_max() {
    let mut hist = LatencyHistogram::new();
    assert_eq!(hist.mean_ns(), None);
    for s in [700u64, 50, 1_234, 99_999, 3] {
        hist.record(s);
    }
    let mean = hist.mean_ns().unwrap();
    assert_eq!(mean, (700 + 50 + 1_234 + 99_999 + 3) / 5);
    assert!(hist.min_latency_ns() <= mean && mean <= hist.max_latency_ns());
}

#[test]
fn latency_sum_wraps_at_sixty_four_bits() {
    let mut hist = LatencyHistogram::new();
    hist.record(u64::MAX);
    hist.record(2);
    assert_eq!(hist.total_latency_ns(), 1);
    assert_eq!(hist.total_samples(), 2);
    assert_eq!(hist.min_latency_ns(), 2);
    assert_eq!(hist.max_latency_ns(), u64::MAX);
}

#[test]
fn bucket_midpoints() {
    let expected: [u64; 13] = [
        50, 150, 350, 750, 1_500, 3_500, 7_500, 15_000, 35_000, 75_000, 150_000, 350_000,
        750_000,
    ];
    for i in 0..13 {
        assert_eq!(LatencyHistogram::bucket_midpoint(i), expected[i]);
    }
}

#[test]
fn percentile_beyond_the_total_is_the_last_midpoint() {
    let mut hist = LatencyHistogram::new();
    hist.record(50);
    assert_eq!(hist.percentile(2), 750_000);
    assert_eq!(hist.percentile(1), 50);
    assert_eq!(hist.percentile(0), 50);
}
