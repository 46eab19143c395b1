use rrn_station::clock::{moved_on, wall_seconds, Clock};

#[test]
fn manual_clock_advances_and_shares() {
    let a = Clock::manual(1_000);
    let b = a.clone();
    assert_eq!(a.now(), 1_000);
    assert_eq!(b.advance(500), 1_500);
    // The clone sees the same advance.
    assert_eq!(a.now(), 1_500);
    a.set(42);
    assert_eq!(b.now(), 42);
}

#[test]
fn system_clock_is_nonzero_and_unmovable() {
    let c = Clock::system();
    assert!(c.now() > 1_600_000_000); // sometime after 2020
    let before = c.now();
    let after = c.advance(10_000); // no-op
    assert!(after - before < 5); // advancing did nothing
}

#[test]
fn setting_a_system_clock_does_nothing() {
    let c = Clock::default();
    c.set(42);
    assert!(c.now() > 1_600_000_000);
}

#[test]
fn a_manual_clock_turns_over_at_its_ends() {
    let c = Clock::manual(i64::MAX);
    assert_eq!(c.advance(1), i64::MIN);
    assert_eq!(c.now(), i64::MIN);
    assert_eq!(moved_on(i64::MIN, -1), i64::MAX);
    assert_eq!(moved_on(10, -4), 6);
}

#[test]
fn a_host_clock_before_the_epoch_reads_as_zero() {
    assert_eq!(wall_seconds(None), 0);
    assert_eq!(wall_seconds(Some(1_700_000_000)), 1_700_000_000);
}
