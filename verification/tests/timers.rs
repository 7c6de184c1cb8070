use rockscene::timers::DelayedDespawn;
use rockscene::timers::Trigger;

#[test]
fn trigger_fires_on_interval() {
    let mut t = Trigger::new(1000);
    assert!(!t.advance(999));
    assert_eq!(t.elapsed, 999);
    assert!(t.advance(1));
    assert_eq!(t.elapsed, 0);
}

#[test]
fn trigger_overshoot_carries_forward() {
    // One advance of 2.5 intervals fires once and keeps the half-interval
    // remainder, so the next fire lands at the 3-interval mark.
    let mut t = Trigger::new(1000);
    assert!(t.advance(2500));
    assert_eq!(t.elapsed, 500);
    assert!(t.advance(500));
    assert_eq!(t.elapsed, 0);
}

#[test]
fn trigger_fire_count_stays_below_call_count() {
    // Five advances summing to just under five intervals: four fires, and
    // never more fires than calls.
    let mut t = Trigger::new(1000);
    let mut fires: usize = 0;
    let mut calls: usize = 0;
    for _ in 0..5 {
        if t.advance(999) {
            fires += 1;
        }
        calls += 1;
        assert!(fires <= calls);
    }
    assert_eq!(fires, 4);
}

#[test]
fn trigger_single_call_spanning_many_intervals_fires_once() {
    let mut t = Trigger::new(1000);
    let mut fires: usize = 0;
    if t.advance(10_500) {
        fires += 1;
    }
    assert_eq!(fires, 1);
    assert_eq!(t.elapsed, 500);
}

#[test]
fn despawn_fires_exactly_once() {
    let mut d = DelayedDespawn::after(100);
    assert!(!d.advance(99));
    assert!(d.advance(2));
    assert!(!d.advance(2));
    assert!(!d.advance(1_000_000));
    assert!(d.expired);
}

#[test]
fn despawn_exact_boundary() {
    let mut d = DelayedDespawn::after(100);
    assert!(d.advance(100));
    assert!(!d.advance(0));
}

#[test]
fn despawn_zero_duration_fires_immediately() {
    let mut d = DelayedDespawn::after(0);
    assert!(d.advance(0));
    assert!(!d.advance(0));
}
