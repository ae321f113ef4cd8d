use velox_engine::tsc::{
    calibrate_tsc, counter_reading, elapsed_ticks, init_tsc, is_tsc_initialized, ns_to_tsc,
    rdtsc, tsc_to_ns, TscClock,
};

#[test]
fn test_tsc_calibration() {
    let mut clock = TscClock::new();
    init_tsc(&mut clock, 0, 2_400_000, 1_000_000);
    assert!(is_tsc_initialized(&clock));
    // More than 0 and fewer than 1000 ticks per nanosecond.
    assert!(clock.ticks() > 0);
    assert!(clock.ticks() < 1000 * clock.nanos());
}

#[test]
fn test_tsc_conversion() {
    let mut clock = TscClock::new();
    init_tsc(&mut clock, 1_000, 3_001_000, 1_000_000);

    let tsc1: u64 = 50_000_000;
    let tsc2: u64 = tsc1 + 30_000_000;

    let elapsed_ns = tsc_to_ns(&clock, tsc2 - tsc1);
    assert!(
        elapsed_ns > 5_000_000 && elapsed_ns < 20_000_000,
        "Expected elapsed_ns to be between 5ms and 20ms, got {}ns",
        elapsed_ns
    );
    assert_eq!(elapsed_ns, 10_000_000);
}

#[test]
fn a_new_clock_is_uncalibrated() {
    let clock = TscClock::new();
    assert!(!is_tsc_initialized(&clock));
}

#[test]
fn calibration_happens_once() {
    let mut clock = TscClock::new();
    init_tsc(&mut clock, 0, 300, 100);
    init_tsc(&mut clock, 0, 900, 100);
    assert_eq!(clock.ticks(), 300);
    assert_eq!(clock.nanos(), 100);
}

#[test]
fn useless_measurements_give_no_calibration() {
    assert_eq!(calibrate_tsc(10, 10, 100), None);
    assert_eq!(calibrate_tsc(10, 5, 100), None);
    assert_eq!(calibrate_tsc(10, 20, 0), None);
    let mut clock = TscClock::new();
    init_tsc(&mut clock, 10, 10, 100);
    assert!(!is_tsc_initialized(&clock));
    let c = calibrate_tsc(10, 40, 15).unwrap();
    assert_eq!((c.ticks(), c.nanos()), (30, 15));
}

#[test]
fn conversions_round_down_and_saturate() {
    let clock = calibrate_tsc(0, 3, 1).unwrap();
    assert_eq!(tsc_to_ns(&clock, 10), 3);
    assert_eq!(tsc_to_ns(&clock, 2), 0);
    assert_eq!(ns_to_tsc(&clock, 10), 30);
    assert_eq!(ns_to_tsc(&clock, u64::MAX), u64::MAX);
    assert_eq!(tsc_to_ns(&clock, u64::MAX), u64::MAX / 3);
}

#[test]
fn elapsed_ticks_wrap() {
    assert_eq!(elapsed_ticks(10, 25), 15);
    assert_eq!(elapsed_ticks(u64::MAX, 4), 5);
    assert_eq!(elapsed_ticks(7, 7), 0);
}

#[test]
fn the_counter_reads_without_failing() {
    let a = rdtsc();
    let b = rdtsc();
    assert!(a > 0);
    assert!(b > 0);
}

#[test]
fn counter_reading_keeps_the_low_sixty_four_bits() {
    assert_eq!(counter_reading(None), 0);
    assert_eq!(counter_reading(Some(0)), 0);
    assert_eq!(counter_reading(Some(1_700_000_000_000_000_000)), 1_700_000_000_000_000_000);
    assert_eq!(counter_reading(Some(u64::MAX as u128)), u64::MAX);
    assert_eq!(counter_reading(Some(u64::MAX as u128 + 1)), 0);
    assert_eq!(counter_reading(Some((7u128 << 64) + 42)), 42);
    assert_eq!(counter_reading(Some(u128::MAX)), u64::MAX);
}
