use winnie_cam::shared_types::VideoSettingsUpdate;
use winnie_cam::viewer::chime::{sound_on_from_storage, stored_sound, ChimeGate, CHIME_MIN_GAP_MS};
use winnie_cam::viewer::health::{audio_available, audio_format, detect_available, motion_active};
use winnie_cam::viewer::link::{StreamLink, RECONNECT_DELAY_MS};
use winnie_cam::viewer::listen::Listener;
use winnie_cam::viewer::overlay::{OverlaySwitch, VisibilityAction};
use winnie_cam::viewer::settings::{
    check_before_apply, form_update, is_custom, is_rpicam, parse_u32, picked, presets,
    select_value, slid_quality, status_timer_clears, typed_value, Pick, PresetRow,
    APPLIED_STATUS, VALIDATION_MSG,
};
use winnie_cam::viewer::state::{ConnectionState, Placeholder};
use winnie_cam::viewer::texts::{
    clock_time_text, mute_label, motion_button, presence_text, same_text, since_text, total_text,
};

#[test]
fn the_stream_link_goes_live_and_reconnects_with_fresh_urls() {
    let mut link = StreamLink::new();
    assert_eq!(link.connection(), ConnectionState::Connecting);
    assert_eq!(link.placeholder(), Placeholder::waking());
    assert_eq!(link.src(), "/stream.mjpeg?ts=0");
    assert!(link.feed_hidden());
    assert!(!link.placeholder_hidden());
    // A failure before any frame keeps the waking text.
    assert_eq!(link.reconnect(), "/stream.mjpeg?ts=1");
    assert_eq!(link.connection(), ConnectionState::Reconnecting);
    assert_eq!(link.placeholder(), Placeholder::waking());
    link.on_load();
    assert_eq!(link.connection(), ConnectionState::Live);
    assert!(link.had_frames());
    assert!(!link.feed_hidden());
    assert!(link.placeholder_hidden());
    // Once a frame has loaded, a drop shows the lost-picture text.
    assert_eq!(link.reconnect(), "/stream.mjpeg?ts=2");
    assert_eq!(link.placeholder(), Placeholder::lost());
    assert_eq!(RECONNECT_DELAY_MS, 2000);
}

#[test]
fn listen_tags_each_connection_and_drops_stale_reconnects() {
    let webm = Some("webm-opus".to_string());
    let adts = Some("adts-aac".to_string());
    let mut l = Listener::new();
    assert!(l.toggle());
    assert_eq!(l.start(true, &webm), ("/audio?ts=1".to_string(), true));
    // Interrupted: a reconnect is scheduled under the current seed.
    let seed = l.interrupted().unwrap();
    assert!(l.reconnect_due(seed));
    // A newer connection started meanwhile: the old timer is stale.
    assert_eq!(l.start(true, &adts), ("/audio?ts=2".to_string(), false));
    assert!(!l.reconnect_due(seed));
    // Switched off: nothing is scheduled, and nothing pending fires.
    assert!(!l.toggle());
    assert_eq!(l.interrupted(), None);
    assert!(!l.reconnect_due(2));
}

#[test]
fn listen_uses_mediasource_only_where_it_can() {
    let mut l = Listener::new();
    assert!(!l.start(false, &Some("webm-opus".to_string())).1);
    assert!(!l.start(true, &None).1);
    assert!(!l.start(true, &Some("webm".to_string())).1);
    assert!(l.start(true, &Some("webm-opus".to_string())).1);
}

#[test]
fn the_chime_rings_at_most_every_ten_seconds_and_only_with_sound_on() {
    let mut g = ChimeGate::new();
    assert!(!g.ring(false, 50_000));
    assert!(g.ring(true, 50_000));
    assert!(!g.ring(true, 55_000));
    assert!(!g.ring(true, 59_999));
    assert!(g.ring(true, 60_000));
    assert_eq!(CHIME_MIN_GAP_MS, 10_000);
    assert!(sound_on_from_storage(&None));
    assert!(sound_on_from_storage(&Some("1".to_string())));
    assert!(!sound_on_from_storage(&Some("0".to_string())));
    assert_eq!(stored_sound(true), "1");
    assert_eq!(stored_sound(false), "0");
}

#[test]
fn the_overlay_switch_is_remembered_and_follows_availability_and_visibility() {
    assert!(!OverlaySwitch::restore(&None).is_open());
    assert!(!OverlaySwitch::restore(&Some("0".to_string())).is_open());
    let mut s = OverlaySwitch::restore(&Some("1".to_string()));
    assert!(s.is_open());
    assert_eq!(s.on_visibility(true), VisibilityAction::Close);
    assert_eq!(s.on_visibility(false), VisibilityAction::Reopen);
    assert!(!s.on_availability(true));
    assert!(s.on_availability(false));
    assert!(!s.is_open());
    assert_eq!(s.on_visibility(false), VisibilityAction::Nothing);
    assert_eq!(s.toggle(), "1");
    assert_eq!(s.toggle(), "0");
}

#[test]
fn numbers_parse_like_u32_from_str() {
    for text in ["0", "7", "+7", "0042", "4294967295", "4294967296", "", "+", "-1", "1a", " 1", "++1", "٣"] {
        assert_eq!(parse_u32(text), text.parse::<u32>().ok(), "{text:?}");
    }
    assert_eq!(typed_value("640"), 640);
    assert_eq!(typed_value(""), 0);
    assert_eq!(typed_value("abc"), 0);
    assert_eq!(slid_quality("80"), Some(80));
    assert_eq!(slid_quality("256"), None);
    assert_eq!(slid_quality("x"), None);
}

#[test]
fn the_form_rows_offer_presets_or_a_typed_number() {
    assert_eq!(presets(PresetRow::Width), vec![320, 640, 800, 1280, 1920]);
    assert_eq!(presets(PresetRow::Height), vec![240, 480, 600, 720, 1080]);
    assert_eq!(presets(PresetRow::Fps), vec![5, 10, 15, 20, 30]);
    assert!(!is_custom(PresetRow::Width, 1280));
    assert!(is_custom(PresetRow::Width, 1000));
    assert!(is_custom(PresetRow::Fps, 12));
    assert_eq!(picked("custom"), Pick::Custom);
    assert_eq!(picked("720"), Pick::Value(720));
    assert_eq!(picked("??"), Pick::Ignore);
    assert_eq!(select_value(true, 640), "custom");
    assert_eq!(select_value(false, 640), "640");
}

#[test]
fn the_form_checks_before_applying() {
    let good = form_update(1280, 720, 15, 80, false, true);
    assert_eq!(
        good,
        VideoSettingsUpdate {
            width: Some(1280),
            height: Some(720),
            fps: Some(15),
            quality: Some(80),
            hflip: Some(false),
            vflip: Some(true),
        }
    );
    assert_eq!(check_before_apply(&good), Ok(()));
    let bad = form_update(0, 720, 15, 80, false, false);
    assert_eq!(check_before_apply(&bad), Err(VALIDATION_MSG));
    assert_eq!(VALIDATION_MSG, "All values must be positive; quality must be 1\u{2013}100.");
    assert!(is_rpicam(&None));
    assert!(is_rpicam(&Some("rpicam".to_string())));
    assert!(!is_rpicam(&Some("v4l2".to_string())));
    assert!(status_timer_clears(&Some(APPLIED_STATUS.to_string())));
    assert!(!status_timer_clears(&Some("Failed to apply settings.".to_string())));
    assert!(!status_timer_clears(&None));
}

#[test]
fn clock_times_use_a_twelve_hour_clock() {
    assert_eq!(clock_time_text(0, 5, 9), "12:05:09 AM");
    assert_eq!(clock_time_text(9, 30, 0), "9:30:00 AM");
    assert_eq!(clock_time_text(12, 0, 0), "12:00:00 PM");
    assert_eq!(clock_time_text(23, 59, 59), "11:59:59 PM");
}

#[test]
fn uptime_reads_as_a_start_time_or_a_day_count() {
    assert_eq!(since_text(0, 3, 0), "Just started");
    assert_eq!(since_text(59, 3, 0), "Just started");
    assert_eq!(since_text(60, 21, 7), "Watching since 9:07 PM");
    assert_eq!(since_text(3600, 0, 45), "Watching since 12:45 AM");
    assert_eq!(since_text(86_399, 12, 30), "Watching since 12:30 PM");
    assert_eq!(since_text(86_400, 0, 0), "Watching for 1d");
    assert_eq!(since_text(2 * 86_400 + 3 * 3600 + 59, 0, 0), "Watching for 2d 3h");
}

#[test]
fn panel_and_footer_labels() {
    assert_eq!(total_text(0), "");
    assert_eq!(total_text(3), "3 total");
    assert_eq!(presence_text(false, Some(2)), "");
    assert_eq!(presence_text(true, None), "checking\u{2026}");
    assert_eq!(presence_text(true, Some(0)), "no person detected");
    assert_eq!(presence_text(true, Some(1)), "person detected");
    assert_eq!(motion_button(true), ("Moving", "motion-btn active"));
    assert_eq!(motion_button(false), ("Still", "motion-btn"));
    assert_eq!(mute_label(true), "Mute motion alert sound");
    assert_eq!(mute_label(false), "Unmute motion alert sound");
    assert!(same_text("abc", "abc"));
    assert!(!same_text("abc", "abd"));
}

#[test]
fn health_fields_read_as_flags() {
    assert!(detect_available(&"ready".to_string()));
    assert!(!detect_available(&"loading".to_string()));
    assert!(motion_active(&"active".to_string()));
    assert!(!motion_active(&"idle".to_string()));
    assert!(audio_available(&"idle".to_string()));
    assert!(!audio_available(&"off".to_string()));
    assert_eq!(audio_format(&"webm-opus".to_string()), Some("webm-opus".to_string()));
    assert_eq!(audio_format(&"off".to_string()), None);
}

use winnie_cam::viewer::alerts::{remember_event, MAX_EVENTS};
use winnie_cam::viewer::overlay::{payload_stale, DETECTION_STALE_MS};

#[test]
fn the_page_keeps_the_last_fifty_live_events() {
    let mut events: Vec<u64> = Vec::new();
    for seq in 1..=60u64 {
        remember_event(&mut events, seq);
    }
    assert_eq!(MAX_EVENTS, 50);
    assert_eq!(events.len(), 50);
    assert_eq!(events[0], 11);
    assert_eq!(events[49], 60);
}

#[test]
fn a_detection_older_than_five_seconds_clears_the_overlay() {
    assert_eq!(DETECTION_STALE_MS, 5000);
    assert!(!payload_stale(100_000, 0));
    assert!(!payload_stale(100_000, 95_000));
    assert!(payload_stale(100_001, 95_000));
    assert!(!payload_stale(90_000, 95_000));
}
