use winnie_cam::clock::{Duration, Instant};
use winnie_cam::detect::motion::detector::{DebounceConfig, MotionDetector, MotionKind};

fn cfg() -> DebounceConfig {
    DebounceConfig {
        sustain: Duration::from_millis(700),
        quiet: Duration::from_millis(4000),
        cooldown: Duration::from_millis(3000),
    }
}

/// An arbitrary "now" on the monotonic clock.
fn start() -> Instant {
    Instant::from_nanos(1_000_000_000_000)
}

fn ms(t: Instant, n: u64) -> Instant {
    t.after(Duration::from_millis(n))
}

#[test]
fn motion_shorter_than_sustain_fires_nothing() {
    let mut d = MotionDetector::new(cfg());
    let t0 = start();
    assert_eq!(d.observe(t0, true), None);
    assert_eq!(d.observe(ms(t0, 300), true), None);
    // Goes still before sustain is met.
    assert_eq!(d.observe(ms(t0, 500), false), None);
}

#[test]
fn sustained_motion_fires_started_exactly_once() {
    let mut d = MotionDetector::new(cfg());
    let t0 = start();
    assert_eq!(d.observe(t0, true), None);
    assert_eq!(d.observe(ms(t0, 750), true), Some(MotionKind::Started));
    // Still moving afterwards - no repeat event.
    assert_eq!(d.observe(ms(t0, 900), true), None);
}

#[test]
fn a_brief_still_gap_under_quiet_does_not_stop_it() {
    let mut d = MotionDetector::new(cfg());
    let t0 = start();
    d.observe(t0, true);
    d.observe(ms(t0, 750), true); // Started
    // A couple of still samples well inside the 4s quiet window.
    assert_eq!(d.observe(ms(t0, 1200), false), None);
    assert_eq!(d.observe(ms(t0, 1500), false), None);
    // Motion resumes - still the same episode, no new Started.
    assert_eq!(d.observe(ms(t0, 1800), true), None);
}

#[test]
fn quiet_elapsing_fires_stopped_with_the_right_duration() {
    let mut d = MotionDetector::new(cfg());
    let t0 = start();
    d.observe(t0, true); // Rising since t0
    d.observe(ms(t0, 750), true); // Started
    let last_moving_at = ms(t0, 2000);
    d.observe(last_moving_at, true); // last moving sample
    let stop_at = ms(last_moving_at, 4000);
    let event = d.observe(stop_at, false);
    match event {
        // Duration is measured from the first observed movement (Rising's
        // `since`, t0) to the last moving sample, not from whenever
        // `Started` happened to fire.
        Some(MotionKind::Stopped { duration_ms }) => assert_eq!(duration_ms, 2000),
        other => panic!("expected Stopped, got {other:?}"),
    }
}

#[test]
fn cooldown_blocks_an_immediate_restart_but_allows_one_after_it_expires() {
    let mut d = MotionDetector::new(cfg());
    let t0 = start();
    d.observe(t0, true); // Rising since t0
    d.observe(ms(t0, 750), true); // Started
    // A still sample well inside the 4s quiet window - not a stop yet.
    assert_eq!(d.observe(ms(t0, 800), false), None);
    // Now push past the quiet window (measured from the last moving sample
    // at 750ms): this is what actually stops it.
    let stopped_at = ms(t0, 4800);
    assert!(matches!(
        d.observe(stopped_at, false),
        Some(MotionKind::Stopped { .. })
    ));

    // Immediately moving again: sustain elapses, but cooldown (3s) is still
    // active, so no second Started yet.
    let restart_t0 = stopped_at;
    d.observe(restart_t0, true);
    assert_eq!(d.observe(ms(restart_t0, 750), true), None);

    // Once cooldown has elapsed, continued motion promotes immediately (no
    // need to wait out another full sustain window).
    let after_cooldown = ms(restart_t0, 3100);
    assert_eq!(d.observe(after_cooldown, true), Some(MotionKind::Started));
}

#[test]
fn close_ends_an_active_episode_immediately() {
    let mut d = MotionDetector::new(cfg());
    let t0 = start();
    d.observe(t0, true); // Rising since t0
    d.observe(ms(t0, 750), true); // Started
    let gone_at = ms(t0, 2000);
    let event = d.close(gone_at);
    match event {
        // Measured from t0 (first observed movement), same as the
        // quiet-window path above.
        Some(MotionKind::Stopped { duration_ms }) => assert_eq!(duration_ms, 2000),
        other => panic!("expected Stopped, got {other:?}"),
    }
    // A second close on an already-Still detector is a no-op.
    assert_eq!(d.close(ms(gone_at, 10)), None);
}

#[test]
fn close_during_rising_resets_without_emitting() {
    let mut d = MotionDetector::new(cfg());
    let t0 = start();
    d.observe(t0, true); // Rising, never reached Started
    assert_eq!(d.close(ms(t0, 100)), None);
}

#[test]
fn events_alternate_over_a_long_run() {
    let mut d = MotionDetector::new(cfg());
    let t0 = start();
    let mut events = Vec::new();
    // Bursts of motion separated by long stillness, sampled every 100ms.
    for step in 0..400u64 {
        let now = ms(t0, step * 100);
        let moving = (step / 60) % 2 == 0;
        if let Some(e) = d.observe(now, moving) {
            events.push(e);
        }
    }
    assert!(!events.is_empty());
    for (i, e) in events.iter().enumerate() {
        if i % 2 == 0 {
            assert_eq!(*e, MotionKind::Started);
        } else {
            assert!(matches!(e, MotionKind::Stopped { .. }));
        }
    }
}

#[test]
fn a_stopped_duration_truncates_to_whole_milliseconds() {
    let mut d = MotionDetector::new(cfg());
    let t0 = start();
    d.observe(t0, true);
    d.observe(ms(t0, 700), true); // Started exactly at sustain
    let gone = Instant::from_nanos(t0.nanos + 1_234_999_999);
    assert_eq!(
        d.close(gone),
        Some(MotionKind::Stopped { duration_ms: 1234 })
    );
}

#[test]
fn samples_and_closes_mixed_still_alternate() {
    let mut d = MotionDetector::new(cfg());
    let t0 = start();
    let mut events = Vec::new();
    let mut record = |e: Option<MotionKind>| {
        if let Some(e) = e {
            events.push(e);
        }
    };
    record(d.observe(t0, true));
    record(d.close(ms(t0, 100)));
    record(d.observe(ms(t0, 200), true));
    record(d.observe(ms(t0, 1000), true));
    record(d.close(ms(t0, 1500)));
    record(d.close(ms(t0, 1600)));
    record(d.observe(ms(t0, 5000), true));
    record(d.observe(ms(t0, 5800), true));
    record(d.observe(ms(t0, 12_000), false));
    assert_eq!(
        events,
        vec![
            MotionKind::Started,
            MotionKind::Stopped { duration_ms: 1300 },
            MotionKind::Started,
            MotionKind::Stopped { duration_ms: 800 },
        ]
    );
}

#[test]
fn a_close_leaves_no_episode_behind() {
    let mut d = MotionDetector::new(cfg());
    let t0 = start();
    assert_eq!(d.observe(t0, true), None);
    assert_eq!(d.observe(ms(t0, 800), true), Some(MotionKind::Started));
    assert_eq!(
        d.close(ms(t0, 1500)),
        Some(MotionKind::Stopped { duration_ms: 1500 })
    );
    assert_eq!(d.close(ms(t0, 1500)), None);
    assert_eq!(d.observe(ms(t0, 1600), true), None);
}

#[test]
fn an_idle_close_starts_no_cooldown() {
    let mut d = MotionDetector::new(cfg());
    let t0 = start();
    assert_eq!(d.close(t0), None);
    assert_eq!(d.observe(ms(t0, 10), true), None);
    assert_eq!(d.observe(ms(t0, 710), true), Some(MotionKind::Started));
}

#[test]
fn a_close_after_a_broken_run_starts_no_cooldown() {
    let mut d = MotionDetector::new(cfg());
    let t0 = start();
    assert_eq!(d.observe(t0, true), None);
    assert_eq!(d.observe(ms(t0, 300), false), None);
    assert_eq!(d.close(ms(t0, 400)), None);
    assert_eq!(d.observe(ms(t0, 500), true), None);
    assert_eq!(d.observe(ms(t0, 1200), true), Some(MotionKind::Started));
}
