use bytes::Bytes;
use winnie_cam::audio::alsa::{AlsaCapture, HubAction, Publisher, CLUSTER_TIME_LIMIT_MS};
use winnie_cam::config::AudioFormat;
use winnie_cam::decimal::{decimal_string, push_decimal};
use winnie_cam::web::{encode_part, BOUNDARY};

#[test]
fn a_frame_is_wrapped_in_one_multipart_part() {
    let frame = Bytes::from_static(&[0xFF, 0xD8, 0x01, 0xFF, 0xD9]);
    let part = encode_part(&frame);
    let mut expected = Vec::new();
    expected.extend_from_slice(b"--winniecamframe\r\n");
    expected.extend_from_slice(b"Content-Type: image/jpeg\r\n");
    expected.extend_from_slice(b"Content-Length: 5\r\n\r\n");
    expected.extend_from_slice(&[0xFF, 0xD8, 0x01, 0xFF, 0xD9]);
    expected.extend_from_slice(b"\r\n");
    assert_eq!(&part[..], &expected[..]);
    assert_eq!(BOUNDARY, "winniecamframe");
}

#[test]
fn a_part_states_the_frame_length_in_decimal() {
    let frame = Bytes::from(vec![7u8; 1234]);
    let part = encode_part(&frame);
    let head = b"--winniecamframe\r\nContent-Type: image/jpeg\r\nContent-Length: 1234\r\n\r\n";
    assert!(part.starts_with(head));
    assert_eq!(part.len(), head.len() + 1234 + 2);
    assert!(part.ends_with(b"\x07\r\n"));
}

#[test]
fn decimals_are_written_like_to_string() {
    for n in [0u64, 7, 10, 99, 100, 65535, u64::MAX] {
        assert_eq!(decimal_string(n), n.to_string());
        let mut out = b"x=".to_vec();
        push_decimal(&mut out, n);
        assert_eq!(out, format!("x={n}").into_bytes());
    }
}

#[test]
fn alsa_settings_are_checked_in_order() {
    let ok = AlsaCapture::from_settings("default".into(), 48000, 32000, AudioFormat::WebmOpus, true);
    assert!(ok.is_ok());
    let e = AlsaCapture::from_settings("default".into(), 0, 0, AudioFormat::WebmOpus, false);
    assert_eq!(e.err(), Some("--audio-rate must be > 0".to_string()));
    let e = AlsaCapture::from_settings("default".into(), 48000, 0, AudioFormat::WebmOpus, false);
    assert_eq!(e.err(), Some("--audio-bitrate must be > 0".to_string()));
    let e = AlsaCapture::from_settings("default".into(), 48000, 32000, AudioFormat::AdtsAac, false);
    assert_eq!(
        e.err(),
        Some("--audio needs ffmpeg on PATH (Debian/Pi OS: sudo apt install ffmpeg)".to_string())
    );
}

#[test]
fn ffmpeg_args_for_webm_opus() {
    let c = AlsaCapture::from_settings("hw:1,0".into(), 48000, 32000, AudioFormat::WebmOpus, true)
        .unwrap();
    assert_eq!(c.format(), AudioFormat::WebmOpus);
    assert_eq!(
        c.args(),
        vec![
            "-hide_banner", "-loglevel", "warning", "-f", "alsa", "-i", "hw:1,0", "-ac", "1",
            "-ar", "48000", "-b:a", "32000", "-c:a", "libopus", "-application", "voip", "-f",
            "webm", "-cluster_time_limit", "100", "-flush_packets", "1", "pipe:1",
        ]
    );
    assert_eq!(CLUSTER_TIME_LIMIT_MS, 100);
}

#[test]
fn ffmpeg_args_for_adts_aac() {
    let c = AlsaCapture::from_settings("default".into(), 16000, 24000, AudioFormat::AdtsAac, true)
        .unwrap();
    assert_eq!(
        c.args(),
        vec![
            "-hide_banner", "-loglevel", "warning", "-f", "alsa", "-i", "default", "-ac", "1",
            "-ar", "16000", "-b:a", "24000", "-c:a", "aac", "-f", "adts", "-flush_packets", "1",
            "pipe:1",
        ]
    );
}

#[test]
fn adts_announces_the_stream_once_then_passes_bytes_through() {
    let mut p = Publisher::new(AudioFormat::AdtsAac);
    let first = p.push(b"abc");
    assert_eq!(
        first,
        vec![HubAction::StartStream(Bytes::new()), HubAction::Publish(Bytes::from_static(b"abc"))]
    );
    let second = p.push(b"de");
    assert_eq!(second, vec![HubAction::Publish(Bytes::from_static(b"de"))]);
}

/// An element: ID bytes, then a 1-byte size, then the body.
fn element(id: &[u8], body: &[u8]) -> Vec<u8> {
    let mut out = id.to_vec();
    out.push(0x80 | body.len() as u8);
    out.extend_from_slice(body);
    out
}

#[test]
fn webm_starts_the_stream_with_its_init_segment() {
    let mut header = element(&[0x1A, 0x45, 0xDF, 0xA3], b"ebml");
    header.extend_from_slice(&[0x18, 0x53, 0x80, 0x67, 0x01, 0xFF, 0xFF, 0xFF, 0xFF, 0xFF, 0xFF, 0xFF]);
    header.extend_from_slice(&element(&[0x16, 0x54, 0xAE, 0x6B], b"tracks"));
    let one = element(&[0x1F, 0x43, 0xB6, 0x75], b"one");
    let two = element(&[0x1F, 0x43, 0xB6, 0x75], b"two");

    let mut p = Publisher::new(AudioFormat::WebmOpus);
    let mut input = header.clone();
    input.extend_from_slice(&one);
    input.extend_from_slice(&two);
    let actions = p.push(&input);
    assert_eq!(
        actions,
        vec![
            HubAction::StartStream(Bytes::from(header)),
            HubAction::Publish(Bytes::from(one)),
            HubAction::Publish(Bytes::from(two)),
        ]
    );
    let three = element(&[0x1F, 0x43, 0xB6, 0x75], b"three");
    assert_eq!(p.push(&three[..4]), vec![]);
    assert_eq!(p.push(&three[4..]), vec![HubAction::Publish(Bytes::from(three))]);
}
