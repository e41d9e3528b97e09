use crabcamera::timing::PTSClock;
use std::time::Instant;

#[test]
fn clock_from_instant_shares_its_timebase() {
    let start = Instant::now();
    let clock = PTSClock::from_instant(start);
    assert_eq!(clock.start_instant(), start);
    let shared = PTSClock::from_instant(clock.start_instant());
    assert_eq!(shared.start_instant(), start);
    let copy = clock.clone();
    assert_eq!(copy.start_instant(), start);
}

#[test]
fn new_clock_starts_now() {
    let before = Instant::now();
    let clock = PTSClock::new();
    let after = Instant::now();
    assert!(before <= clock.start_instant() && clock.start_instant() <= after);
    let d = PTSClock::default();
    assert!(d.start_instant() >= after);
}
