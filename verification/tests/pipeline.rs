use bytes::Bytes;
use winnie_cam::audio::hub::{AudioRegistry, AudioState};
use winnie_cam::audio::{after_run, NextRun, RunEnd};
use winnie_cam::capture::Backoff;
use winnie_cam::clock::{Duration, Instant};
use winnie_cam::detect::motion::detector::{DebounceConfig, MotionKind};
use winnie_cam::detect::motion::hub::{wire_kind, MotionState};
use winnie_cam::detect::motion::sampler::{has_subject, Sample, Sampler, Step};
use winnie_cam::detect::pump_interval;
use winnie_cam::hub::FrameLog;

fn at(ms: u64) -> Instant {
    Instant::from_nanos(1_000_000_000_000 + ms * 1_000_000)
}

#[test]
fn latest_is_none_until_first_publish() {
    let mut log = FrameLog::new(at(0));
    assert!(log.latest().is_none());
    log.publish(Bytes::from_static(b"frame-a"), at(10));
    assert_eq!(log.latest().unwrap(), Bytes::from_static(b"frame-a"));
}

#[test]
fn stats_reflect_frame_count_and_subscribers() {
    let mut log = FrameLog::new(at(0));
    log.publish(Bytes::from_static(b"frame-a"), at(100));
    log.publish(Bytes::from_static(b"frame-b"), at(250));
    let stats = log.stats(at(1000), 1);
    assert_eq!(stats.frames_captured, 2);
    assert_eq!(stats.subscribers, 1);
    assert_eq!(stats.since_last_frame, Some(Duration::from_millis(750)));
    assert_eq!(stats.uptime, Duration::from_millis(1000));
    assert_eq!(log.latest().unwrap(), Bytes::from_static(b"frame-b"));
}

#[test]
fn no_frame_means_no_time_since_the_last_one() {
    let log = FrameLog::new(at(0));
    let stats = log.stats(at(5), 0);
    assert_eq!(stats.frames_captured, 0);
    assert_eq!(stats.since_last_frame, None);
}

#[test]
fn starts_idle_with_no_listeners() {
    let hub = AudioRegistry::new();
    assert_eq!(hub.state(), AudioState::Idle);
    assert_eq!(hub.listener_count(), 0);
    assert!(hub.init().is_none());
}

#[test]
fn listener_guard_releases_on_drop() {
    let mut hub = AudioRegistry::new();
    hub.listen();
    assert_eq!(hub.listener_count(), 1);
    hub.unlisten();
    assert_eq!(hub.listener_count(), 0);
    // Never below zero.
    hub.unlisten();
    assert_eq!(hub.listener_count(), 0);
}

#[test]
fn restarting_a_stream_bumps_the_generation() {
    let mut hub = AudioRegistry::new();
    hub.start_stream(Bytes::from_static(b"init-a"));
    assert_eq!(hub.state(), AudioState::Streaming);
    let first = hub.init().unwrap().0;
    hub.end_stream();
    assert_eq!(hub.state(), AudioState::Idle);
    assert!(hub.init().is_none());
    hub.start_stream(Bytes::from_static(b"init-b"));
    let (second, bytes) = hub.init().unwrap();
    assert!(second > first);
    assert_eq!(bytes, Bytes::from_static(b"init-b"));
}

#[test]
fn the_microphone_supervisor_decides_after_each_run() {
    let mut b = Backoff::new();
    let quick = Duration::from_millis(10);
    assert_eq!(after_run(&mut b, RunEnd::Failed, quick), NextRun::RetryAfter(Duration::from_secs(1)));
    assert_eq!(after_run(&mut b, RunEnd::Failed, quick), NextRun::RetryAfter(Duration::from_secs(2)));
    // The last listener left: no retry, and the backoff starts over.
    assert_eq!(after_run(&mut b, RunEnd::Silence, quick), NextRun::AwaitListener);
    assert_eq!(after_run(&mut b, RunEnd::Failed, quick), NextRun::RetryAfter(Duration::from_secs(1)));
    assert_eq!(after_run(&mut b, RunEnd::Finished, quick), NextRun::Stop);
}

#[test]
fn the_motion_sampler_scores_only_against_a_fresh_baseline() {
    let stale_after = Duration::from_millis(1500);
    let mut s = Sampler::new();
    // The first frame only sets a baseline.
    assert_eq!(s.step(at(0), stale_after, Sample::Frame), Step::Baseline);
    assert_eq!(s.step(at(500), stale_after, Sample::Frame), Step::Compare);
    // A frame that fails to decode is dropped but still counts as a sample.
    assert_eq!(s.step(at(1000), stale_after, Sample::Undecodable), Step::Skip);
    assert_eq!(s.step(at(1500), stale_after, Sample::Frame), Step::Compare);
    // A long gap makes the baseline stale.
    assert_eq!(s.step(at(3001), stale_after, Sample::Frame), Step::Baseline);
    assert_eq!(s.step(at(3500), stale_after, Sample::Frame), Step::Compare);
    // The subject left: close, and start over.
    assert_eq!(s.step(at(4000), stale_after, Sample::NoSubject), Step::Close);
    assert_eq!(s.step(at(4500), stale_after, Sample::Frame), Step::Baseline);
}

#[test]
fn a_person_box_is_a_subject_while_it_is_fresh() {
    let ttl = Duration::from_millis(10_000);
    assert!(has_subject(3, 1, Duration::from_millis(10_000), ttl));
    assert!(!has_subject(3, 1, Duration::from_millis(10_001), ttl));
    assert!(!has_subject(3, 0, Duration::from_millis(1), ttl));
    assert!(!has_subject(0, 1, Duration::from_millis(1), ttl));
}

#[test]
fn state_reflects_the_most_recent_publish() {
    assert_eq!(MotionState::after(MotionKind::Started), MotionState::Active);
    assert_eq!(MotionState::after(MotionKind::Stopped { duration_ms: 500 }), MotionState::Idle);
    assert_eq!(wire_kind(MotionKind::Started), ("started", None));
    assert_eq!(wire_kind(MotionKind::Stopped { duration_ms: 2500 }), ("stopped", Some(2500)));
}

#[test]
fn detection_runs_faster_while_someone_watches_the_overlay() {
    let active = Duration::from_millis(1000);
    let idle = Duration::from_millis(5000);
    assert_eq!(pump_interval(2, active, idle), active);
    assert_eq!(pump_interval(0, active, idle), idle);
}

#[test]
fn debounce_periods_come_from_milliseconds() {
    let d = DebounceConfig::from_millis(700, 4000, 3000);
    assert_eq!(d.sustain, Duration::from_millis(700));
    assert_eq!(d.quiet, Duration::from_millis(4000));
    assert_eq!(d.cooldown, Duration::from_millis(3000));
    assert_eq!(Duration::from_millis(500).saturating_mul(3), Duration::from_millis(1500));
    assert_eq!(Duration { nanos: u64::MAX / 2 }.saturating_mul(3), Duration { nanos: u64::MAX });
}
