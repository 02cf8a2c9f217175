use winnie_cam::clock::{Duration, Instant};
use winnie_cam::detect::Throttle;

fn now() -> Instant {
    Instant::from_nanos(42_000_000_000)
}

#[test]
fn first_call_always_runs() {
    let mut t = Throttle::new();
    assert!(t.should_run(now(), Duration::from_secs(1)));
}

#[test]
fn a_second_call_within_the_interval_is_skipped() {
    let mut t = Throttle::new();
    let start = now();
    assert!(t.should_run(start, Duration::from_secs(1)));
    assert!(!t.should_run(start.after(Duration::from_millis(500)), Duration::from_secs(1)));
}

#[test]
fn a_call_after_the_interval_runs() {
    let mut t = Throttle::new();
    let start = now();
    assert!(t.should_run(start, Duration::from_secs(1)));
    assert!(t.should_run(start.after(Duration::from_millis(1100)), Duration::from_secs(1)));
}

#[test]
fn does_not_burst_after_a_long_stall() {
    let mut t = Throttle::new();
    let start = now();
    assert!(t.should_run(start, Duration::from_secs(1)));
    // Jump forward by 10 missed intervals - only one more run should fire.
    let later = start.after(Duration::from_secs(11));
    assert!(t.should_run(later, Duration::from_secs(1)));
    assert!(!t.should_run(later, Duration::from_secs(1)));
}

#[test]
fn switching_to_a_shorter_interval_takes_effect_immediately() {
    let mut t = Throttle::new();
    let start = now();
    assert!(t.should_run(start, Duration::from_secs(10))); // sets next_at = start + 10s
    // Switch to a 1s (active) interval - a call 2s later should run, even
    // though the old 10s schedule wouldn't have allowed it yet.
    assert!(t.should_run(start.after(Duration::from_secs(2)), Duration::from_secs(1)));
}

#[test]
fn a_call_exactly_one_interval_later_runs() {
    let mut t = Throttle::new();
    let start = now();
    assert!(t.should_run(start, Duration::from_secs(1)));
    assert!(!t.should_run(start.after(Duration { nanos: 999_999_999 }), Duration::from_secs(1)));
    assert!(t.should_run(start.after(Duration::from_secs(1)), Duration::from_secs(1)));
}

#[test]
fn clock_conversions() {
    assert_eq!(Duration::from_millis(3).nanos, 3_000_000);
    assert_eq!(Duration::from_secs(2).nanos, 2_000_000_000);
    assert_eq!(Duration::from_millis(u64::MAX).nanos, u64::MAX);
    assert_eq!(Duration { nanos: 2_999_999 }.as_millis(), 2);
    let a = Instant::from_nanos(10);
    let b = Instant::from_nanos(25);
    assert_eq!(b.duration_since(a).nanos, 15);
    assert_eq!(a.duration_since(b).nanos, 0);
}
