use winnie_cam::viewer::alerts::{display_indices, AlertTracker, MAX_DISPLAY_ITEMS};
use winnie_cam::viewer::texts::viewers_text;
use winnie_cam::audio::hub::AudioState;
use winnie_cam::detect::hub::{empty_json, DetectState};
use winnie_cam::detect::motion::hub::{EventRing, MotionState, RING_CAPACITY};

#[test]
fn hub_seq_increments_across_publishes() {
    let mut ring: EventRing<&str> = EventRing::new();
    assert_eq!(ring.next_seq(), 1);
    let first = ring.push("started");
    let second = ring.push("stopped");
    assert_eq!(first, 1);
    assert_eq!(second, 2);
    assert_eq!(ring.event_count(), 2);
    assert_eq!(ring.next_seq(), 3);
}

#[test]
fn the_ring_caps_at_its_capacity_and_evicts_the_oldest() {
    let mut ring: EventRing<u64> = EventRing::new();
    for _ in 0..(RING_CAPACITY + 10) {
        let s = ring.next_seq();
        ring.push(s);
        let s = ring.next_seq();
        ring.push(s);
    }
    assert_eq!(ring.len(), RING_CAPACITY);
    assert!(*ring.get(0) > 1);
    for i in 1..ring.len() {
        assert!(ring.get(i - 1) < ring.get(i));
    }
    // The newest event is the last one recorded.
    assert_eq!(*ring.get(RING_CAPACITY - 1), ring.event_count());
    assert_eq!(ring.event_count(), 2 * (RING_CAPACITY as u64 + 10));
}

#[test]
fn a_fresh_ring_is_empty() {
    let ring: EventRing<u8> = EventRing::new();
    assert_eq!(ring.len(), 0);
    assert_eq!(ring.event_count(), 0);
}

#[test]
fn the_ring_keeps_everything_below_capacity() {
    let mut ring: EventRing<u32> = EventRing::new();
    for v in 0..5u32 {
        ring.push(v * 10);
    }
    assert_eq!(ring.len(), 5);
    for i in 0..5 {
        assert_eq!(*ring.get(i), i as u32 * 10);
    }
}

#[test]
fn state_names_match_the_wire() {
    assert_eq!(MotionState::Idle.as_str(), "idle");
    assert_eq!(MotionState::Active.as_str(), "active");
    assert_eq!(DetectState::Loading.as_str(), "loading");
    assert_eq!(DetectState::Ready.as_str(), "ready");
    assert_eq!(DetectState::Error.as_str(), "error");
    assert_eq!(AudioState::Idle.as_str(), "idle");
    assert_eq!(AudioState::Streaming.as_str(), "streaming");
}

#[test]
fn detect_state_round_trips_through_its_byte() {
    for s in [DetectState::Loading, DetectState::Ready, DetectState::Error] {
        assert_eq!(DetectState::from_u8(s.to_u8()), s);
    }
    assert_eq!(DetectState::Loading.to_u8(), 0);
    assert_eq!(DetectState::Ready.to_u8(), 1);
    assert_eq!(DetectState::Error.to_u8(), 2);
    assert_eq!(DetectState::from_u8(200), DetectState::Loading);
}

#[test]
fn the_empty_detection_payload_has_no_boxes() {
    assert_eq!(empty_json(), "{\"w\":0,\"h\":0,\"seq\":0,\"ms\":0.0,\"dets\":[]}");
}

#[test]
fn the_first_snapshot_is_absorbed_silently() {
    let mut t = AlertTracker::new();
    assert_eq!(t.on_snapshot(&[(1, true), (2, false), (3, true)]), None);
    // A live event after that alerts.
    assert!(t.on_event(4, true));
    assert!(!t.on_event(5, false));
}

#[test]
fn a_reconnect_replay_does_not_alert_again() {
    let mut t = AlertTracker::new();
    assert_eq!(t.on_snapshot(&[]), None);
    assert!(t.on_event(1, true));
    assert!(!t.on_event(2, false));
    // The network blipped; the server replays the same history.
    assert_eq!(t.on_snapshot(&[(1, true), (2, false)]), None);
}

#[test]
fn a_reconnect_alerts_on_a_start_missed_while_away() {
    let mut t = AlertTracker::new();
    assert_eq!(t.on_snapshot(&[(1, true), (2, false)]), None);
    // Events 3 and 5 started while the page was disconnected; alert once,
    // on the newest.
    assert_eq!(t.on_snapshot(&[(1, true), (2, false), (3, true), (4, false), (5, true)]), Some(4));
    assert_eq!(t.on_snapshot(&[(1, true), (2, false), (3, true), (4, false), (5, true)]), None);
}

#[test]
fn a_server_restart_alerts_on_its_newest_start() {
    let mut t = AlertTracker::new();
    assert_eq!(t.on_snapshot(&[(7, true), (8, false)]), None);
    assert!(t.on_event(9, true));
    // Sequence numbers restarted from 1.
    assert_eq!(t.on_snapshot(&[(1, true), (2, false)]), Some(0));
}

#[test]
fn a_server_restart_without_starts_alerts_nothing() {
    let mut t = AlertTracker::new();
    assert_eq!(t.on_snapshot(&[(7, true)]), None);
    assert_eq!(t.on_snapshot(&[(1, false)]), None);
    // The tracker forgot the old numbers, so the new server's first start
    // alerts on the next reconnect.
    assert_eq!(t.on_snapshot(&[(1, false), (2, true)]), Some(1));
}

#[test]
fn the_panel_lists_the_newest_events_first() {
    assert_eq!(display_indices(0), Vec::<usize>::new());
    assert_eq!(display_indices(3), vec![2, 1, 0]);
    assert_eq!(MAX_DISPLAY_ITEMS, 6);
    assert_eq!(display_indices(10), vec![9, 8, 7, 6, 5, 4]);
}

#[test]
fn viewer_counts_read_naturally() {
    assert_eq!(viewers_text(0), "0 viewers");
    assert_eq!(viewers_text(1), "1 viewer");
    assert_eq!(viewers_text(2), "2 viewers");
    assert_eq!(viewers_text(1234), "1234 viewers");
}
