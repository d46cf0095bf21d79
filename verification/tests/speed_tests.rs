use fischl::speed::SpeedTracker;
use std::time::Instant;

/// The launcher's smoothing step: the sample in bytes per second, taken as
/// it is at first and blended in with weight 1/4 afterwards.
fn smooth(prev: u64, diff: u64, elapsed_ns: u128) -> u64 {
    let secs = u64::try_from(elapsed_ns / 1_000_000_000).unwrap_or(u64::MAX);
    let nanos = u32::try_from(elapsed_ns % 1_000_000_000).unwrap_or(0);
    let elapsed_secs = std::time::Duration::new(secs, nanos).as_secs_f64();
    let instant_speed = if elapsed_secs > 0.0 { (diff as f64 / elapsed_secs) as u64 } else { 0 };
    if prev == 0 {
        instant_speed
    } else {
        ((0.25 * instant_speed as f64) + (0.75 * prev as f64)) as u64
    }
}

#[test]
fn new_tracker_is_empty() {
    let t = SpeedTracker::new();
    assert_eq!(t.get_total(), 0);
    assert_eq!(t.get_speed(), 0);
    let d = SpeedTracker::default();
    assert_eq!(d.get_total(), 0);
    assert_eq!(d.get_speed(), 0);
}

#[test]
fn add_bytes_counts_and_returns_speed() {
    let mut t = SpeedTracker::new();
    assert_eq!(t.add_bytes(1000), 0);
    assert_eq!(t.add_bytes(24), 0);
    assert_eq!(t.get_total(), 1024);
}

#[test]
fn add_bytes_wraps_like_an_atomic() {
    let mut t = SpeedTracker::new();
    t.add_bytes(u64::MAX);
    t.add_bytes(2);
    assert_eq!(t.get_total(), 1);
}

#[test]
fn first_update_takes_the_sample() {
    let mut t = SpeedTracker::starting_at(Instant::now(), 0);
    t.add_bytes(1000);
    // one second after the start: 1000 bytes/s
    assert_eq!(t.update_at(1_000_000_000, &smooth), 1000);
    assert_eq!(t.get_speed(), 1000);
}

#[test]
fn later_updates_are_smoothed() {
    let mut t = SpeedTracker::starting_at(Instant::now(), 0);
    t.add_bytes(1000);
    assert_eq!(t.update_at(1_000_000_000, &smooth), 1000);
    t.add_bytes(3000);
    // sample 3000 bytes/s; 0.25 * 3000 + 0.75 * 1000 = 1500
    assert_eq!(t.update_at(2_000_000_000, &smooth), 1500);
}

#[test]
fn updates_within_300ms_change_nothing() {
    let mut t = SpeedTracker::starting_at(Instant::now(), 0);
    t.add_bytes(1000);
    assert_eq!(t.update_at(299_999_999, &smooth), 0);
    assert_eq!(t.update_at(300_000_000, &smooth), 3333);
    t.add_bytes(5000);
    assert_eq!(t.update_at(500_000_000, &smooth), 3333);
}

#[test]
fn update_right_after_creation_returns_zero() {
    let mut t = SpeedTracker::new();
    t.add_bytes(4096);
    assert_eq!(t.update(&smooth), 0);
    assert_eq!(t.get_total(), 4096);
}

#[test]
fn huge_sample_saturates() {
    let mut t = SpeedTracker::starting_at(Instant::now(), 0);
    t.add_bytes(u64::MAX);
    assert_eq!(t.update_at(300_000_000, &smooth), u64::MAX);
}

#[test]
fn reset_clears_counts() {
    let mut t = SpeedTracker::starting_at(Instant::now(), 0);
    t.add_bytes(1000);
    t.update_at(1_000_000_000, &smooth);
    t.reset();
    assert_eq!(t.get_total(), 0);
    assert_eq!(t.get_speed(), 0);
    t.reset_at(5);
    assert_eq!(t.update_at(100, &smooth), 0);
}
