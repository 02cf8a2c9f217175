use winnie_cam::capture::rpicam::{camera_binary, check_settings, rpicam_args};
use winnie_cam::capture::{resolve_source, Backoff, INITIAL_BACKOFF_NANOS, MAX_BACKOFF_NANOS};
use winnie_cam::clock::Duration;
use winnie_cam::config::{AudioFormat, SourceKind};
use winnie_cam::shared_types::{VideoSettings, VideoSettingsUpdate};
use winnie_cam::viewer::state::{ConnectionState, Placeholder};

fn settings() -> VideoSettings {
    VideoSettings { width: 1280, height: 720, fps: 15, quality: 80, hflip: false, vflip: false }
}

fn no_change() -> VideoSettingsUpdate {
    VideoSettingsUpdate {
        width: None,
        height: None,
        fps: None,
        quality: None,
        hflip: None,
        vflip: None,
    }
}

#[test]
fn an_empty_update_is_valid_and_changes_nothing() {
    let u = no_change();
    assert_eq!(u.validate(), Ok(()));
    let mut s = settings();
    assert!(!u.apply_to(&mut s));
    assert_eq!(s, settings());
}

#[test]
fn each_range_check_has_its_own_message() {
    let u = VideoSettingsUpdate { width: Some(0), ..no_change() };
    assert_eq!(u.validate(), Err("width must be > 0".to_string()));
    let u = VideoSettingsUpdate { height: Some(0), ..no_change() };
    assert_eq!(u.validate(), Err("height must be > 0".to_string()));
    let u = VideoSettingsUpdate { fps: Some(0), ..no_change() };
    assert_eq!(u.validate(), Err("fps must be > 0".to_string()));
    let u = VideoSettingsUpdate { quality: Some(0), ..no_change() };
    assert_eq!(u.validate(), Err("quality must be 1-100".to_string()));
    let u = VideoSettingsUpdate { quality: Some(101), ..no_change() };
    assert_eq!(u.validate(), Err("quality must be 1-100".to_string()));
    let u = VideoSettingsUpdate { quality: Some(100), width: Some(1), ..no_change() };
    assert_eq!(u.validate(), Ok(()));
}

#[test]
fn the_first_failing_check_is_reported() {
    let u = VideoSettingsUpdate { width: Some(0), fps: Some(0), quality: Some(0), ..no_change() };
    assert_eq!(u.validate(), Err("width must be > 0".to_string()));
}

#[test]
fn apply_sets_present_fields_and_reports_a_change() {
    let u = VideoSettingsUpdate { fps: Some(30), hflip: Some(true), ..no_change() };
    let mut s = settings();
    assert!(u.apply_to(&mut s));
    assert_eq!(
        s,
        VideoSettings { width: 1280, height: 720, fps: 30, quality: 80, hflip: true, vflip: false }
    );
    // A repeated update is a no-op.
    assert!(!u.apply_to(&mut s));
}

#[test]
fn apply_of_the_current_values_reports_no_change() {
    let u = VideoSettingsUpdate { width: Some(1280), quality: Some(80), ..no_change() };
    let mut s = settings();
    assert!(!u.apply_to(&mut s));
}

#[test]
fn rpicam_args_carry_the_settings() {
    let args = rpicam_args(&settings());
    assert_eq!(
        args,
        vec![
            "-t", "0", "--codec", "mjpeg", "-o", "-", "-n", "--flush", "--width", "1280",
            "--height", "720", "--framerate", "15", "--quality", "80",
        ]
    );
    let flipped = VideoSettings { hflip: true, vflip: true, ..settings() };
    let args = rpicam_args(&flipped);
    assert_eq!(&args[args.len() - 2..], &["--hflip".to_string(), "--vflip".to_string()]);
}

#[test]
fn rpicam_rejects_empty_pictures() {
    assert_eq!(check_settings(&settings()), Ok(()));
    let s = VideoSettings { width: 0, ..settings() };
    assert_eq!(check_settings(&s), Err("width/height must be > 0".to_string()));
    let s = VideoSettings { height: 0, ..settings() };
    assert_eq!(check_settings(&s), Err("width/height must be > 0".to_string()));
    let s = VideoSettings { fps: 0, ..settings() };
    assert_eq!(check_settings(&s), Err("fps must be > 0".to_string()));
}

#[test]
fn the_camera_tool_prefers_rpicam_vid() {
    assert_eq!(camera_binary(true, true), "rpicam-vid");
    assert_eq!(camera_binary(true, false), "rpicam-vid");
    assert_eq!(camera_binary(false, true), "libcamera-vid");
    assert_eq!(camera_binary(false, false), "rpicam-vid");
}

#[test]
fn auto_resolves_by_whether_a_camera_tool_exists() {
    assert_eq!(resolve_source(SourceKind::Auto, true), SourceKind::Rpicam);
    assert_eq!(resolve_source(SourceKind::Auto, false), SourceKind::V4l2);
    assert_eq!(resolve_source(SourceKind::V4l2, true), SourceKind::V4l2);
    assert_eq!(resolve_source(SourceKind::Rpicam, false), SourceKind::Rpicam);
}

#[test]
fn backoff_doubles_to_ten_seconds_and_resets_after_a_healthy_run() {
    let quick = Duration::from_millis(100);
    let mut b = Backoff::new();
    let waits: Vec<u64> = (0..6).map(|_| b.next_delay(quick).as_millis()).collect();
    assert_eq!(waits, vec![1000, 2000, 4000, 8000, 10000, 10000]);
    // A run of thirty seconds or more was healthy: start over.
    assert_eq!(b.next_delay(Duration::from_secs(30)).as_millis(), 1000);
    assert_eq!(b.next_delay(quick).as_millis(), 2000);
    b.reset();
    assert_eq!(b.next_delay(quick).as_millis(), 1000);
    assert_eq!(INITIAL_BACKOFF_NANOS, 1_000_000_000);
    assert_eq!(MAX_BACKOFF_NANOS, 10_000_000_000);
}

#[test]
fn audio_content_types() {
    assert_eq!(AudioFormat::WebmOpus.content_type(), "audio/webm");
    assert_eq!(AudioFormat::AdtsAac.content_type(), "audio/aac");
}

#[test]
fn choices_have_their_command_line_names() {
    assert_eq!(AudioFormat::WebmOpus.value_name(), "webm-opus");
    assert_eq!(AudioFormat::AdtsAac.value_name(), "adts-aac");
    assert_eq!(SourceKind::Auto.value_name(), "auto");
    assert_eq!(SourceKind::Rpicam.value_name(), "rpicam");
    assert_eq!(SourceKind::V4l2.value_name(), "v4l2");
}

#[test]
fn connection_states_map_to_pill_classes_and_labels() {
    assert_eq!(ConnectionState::Live.css_class(), "is-live");
    assert_eq!(ConnectionState::Offline.css_class(), "is-bad");
    assert_eq!(ConnectionState::Connecting.css_class(), "is-wait");
    assert_eq!(ConnectionState::Reconnecting.css_class(), "is-wait");
    assert_eq!(ConnectionState::Stale.css_class(), "is-wait");
    assert_eq!(ConnectionState::Connecting.label(), "Connecting\u{2026}");
    assert_eq!(ConnectionState::Live.label(), "Live");
    assert_eq!(ConnectionState::Reconnecting.label(), "Reconnecting\u{2026}");
    assert_eq!(ConnectionState::Stale.label(), "Feed stalled \u{2014} retrying\u{2026}");
    assert_eq!(ConnectionState::Offline.label(), "Can\u{2019}t reach the camera");
}

#[test]
fn placeholders_have_their_texts() {
    assert_eq!(Placeholder::waking().title, "Waking the camera up\u{2026}");
    assert_eq!(Placeholder::lost().title, "Lost the picture");
    assert_eq!(Placeholder::no_camera().sub, "The camera may still be starting, or unplugged.");
    assert_eq!(Placeholder::unreachable().title, "Can\u{2019}t reach the monitor");
}
