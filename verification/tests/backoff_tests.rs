use velox_engine::backoff::{Backoff, Pause, SPIN_LIMIT};

#[test]
fn test_backoff_phases() {
    let mut backoff = Backoff::new();

    assert!(backoff.is_spinning());

    for _ in 0..SPIN_LIMIT {
        backoff.snooze();
    }

    backoff.snooze();
    assert!(!backoff.is_spinning());
}

#[test]
fn test_backoff_reset() {
    let mut backoff = Backoff::new();

    for _ in 0..10 {
        backoff.snooze();
    }
    assert!(!backoff.is_spinning());

    backoff.reset();
    assert!(backoff.is_spinning());
}

#[test]
fn pauses_escalate_from_spin_to_yield_to_park() {
    let mut backoff = Backoff::new();
    let mut seen = Vec::new();
    for _ in 0..14 {
        seen.push(backoff.snooze());
    }
    assert_eq!(
        seen,
        vec![
            Pause::Spin(1),
            Pause::Spin(2),
            Pause::Spin(4),
            Pause::Spin(8),
            Pause::Spin(16),
            Pause::Spin(32),
            Pause::Spin(64),
            Pause::Yield,
            Pause::Yield,
            Pause::Yield,
            Pause::Yield,
            Pause::Park(100),
            Pause::Park(100),
            Pause::Park(100),
        ]
    );
    assert_eq!(backoff.step(), 11);
}

#[test]
fn reset_returns_to_the_first_spin() {
    let mut backoff = Backoff::new();
    for _ in 0..20 {
        backoff.snooze();
    }
    backoff.reset();
    assert_eq!(backoff.step(), 0);
    assert_eq!(backoff.snooze(), Pause::Spin(1));
}
