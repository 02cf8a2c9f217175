use winnie_cam::jpeg::{JpegSplitter, MAX_BUFFER};

/// Minimal degenerate "frame": SOI immediately followed by EOI, with no
/// scan data. Enough to exercise the splitter without needing real image
/// data.
fn minimal_frame() -> Vec<u8> {
    vec![0xFF, 0xD8, 0xFF, 0xD9]
}

/// A frame with an SOS segment containing a byte-stuffed 0xFF in its
/// entropy-coded data, to make sure stuffing isn't mistaken for EOI.
fn frame_with_sos() -> Vec<u8> {
    vec![
        0xFF, 0xD8, // SOI
        0xFF, 0xDA, 0x00, 0x04, 0x3F, 0x00, // SOS header, length 4
        0x11, 0xFF, 0x00, 0x22, // entropy data with a stuffed 0xFF
        0xFF, 0xD9, // EOI
    ]
}

/// A frame with an APP1 segment whose payload contains a byte pair that
/// looks exactly like an EOI marker, plus a real EOI afterward.
fn frame_with_embedded_fake_eoi() -> Vec<u8> {
    vec![
        0xFF, 0xD8, // SOI
        0xFF, 0xE1, 0x00, 0x08, // APP1, length 8 (2 + 6 data bytes)
        0xAA, 0xFF, 0xD9, 0xBB, 0xCC, 0xDD, // fake EOI inside the payload
        0xFF, 0xD9, // real EOI
    ]
}

#[test]
fn splits_two_concatenated_frames_in_one_chunk() {
    let mut splitter = JpegSplitter::new();
    let mut input = minimal_frame();
    input.extend(minimal_frame());

    let frames = splitter.push(&input);
    assert_eq!(frames.len(), 2);
    assert_eq!(frames[0].as_ref(), minimal_frame().as_slice());
    assert_eq!(frames[1].as_ref(), minimal_frame().as_slice());
}

#[test]
fn assembles_a_frame_delivered_one_byte_at_a_time() {
    let mut splitter = JpegSplitter::new();
    let frame = minimal_frame();

    let mut collected = Vec::new();
    for byte in &frame {
        collected.extend(splitter.push(&[*byte]));
    }

    assert_eq!(collected.len(), 1);
    assert_eq!(collected[0].as_ref(), frame.as_slice());
}

#[test]
fn reassembles_a_frame_split_mid_sos_across_a_chunk_boundary() {
    let mut splitter = JpegSplitter::new();
    let frame = frame_with_sos();

    // Split right after the stuffed 0xFF, before its trailing 0x00, so the
    // boundary lands inside what could be mistaken for a marker.
    let split_at = frame
        .windows(2)
        .position(|w| w == [0xFF, 0x00])
        .expect("stuffed FF present")
        + 1;
    let (first, second) = frame.split_at(split_at);

    let frames_from_first = splitter.push(first);
    assert!(
        frames_from_first.is_empty(),
        "no complete frame before the boundary"
    );

    let frames_from_second = splitter.push(second);
    assert_eq!(frames_from_second.len(), 1);
    assert_eq!(frames_from_second[0].as_ref(), frame.as_slice());
}

#[test]
fn skips_leading_garbage_before_the_first_soi() {
    let mut splitter = JpegSplitter::new();
    let mut input = vec![0x00, 0x01, 0xFF, 0x02, 0xAB];
    input.extend(minimal_frame());

    let frames = splitter.push(&input);
    assert_eq!(frames.len(), 1);
    assert_eq!(frames[0].as_ref(), minimal_frame().as_slice());
}

#[test]
fn does_not_truncate_on_eoi_bytes_embedded_in_an_app_segment() {
    let mut splitter = JpegSplitter::new();
    let frame = frame_with_embedded_fake_eoi();

    let frames = splitter.push(&frame);
    assert_eq!(frames.len(), 1);
    assert_eq!(frames[0].as_ref(), frame.as_slice());
}

#[test]
fn resyncs_after_an_overlong_malformed_run() {
    let mut splitter = JpegSplitter::new();

    // An SOI followed by a segment claiming a length far larger than will
    // ever arrive should be dropped once the cap is hit, and a subsequent
    // well-formed frame should still be extracted.
    let mut garbage = vec![0xFF, 0xD8, 0xFF, 0xE0, 0xFF, 0xFF];
    garbage.extend(std::iter::repeat_n(0u8, MAX_BUFFER));
    let frames = splitter.push(&garbage);
    assert!(frames.is_empty());

    let frames = splitter.push(&minimal_frame());
    assert_eq!(frames.len(), 1);
    assert_eq!(frames[0].as_ref(), minimal_frame().as_slice());
}

#[test]
fn every_chunking_of_a_stream_yields_the_same_frames() {
    let mut stream = vec![0x12, 0x34];
    stream.extend(frame_with_sos());
    stream.extend(frame_with_embedded_fake_eoi());
    stream.extend(minimal_frame());
    stream.extend([0xFF, 0xD8, 0xFF]);

    let whole: Vec<Vec<u8>> = JpegSplitter::new()
        .push(&stream)
        .iter()
        .map(|f| f.to_vec())
        .collect();
    assert_eq!(whole.len(), 3);

    for chunk in 1..stream.len() {
        let mut splitter = JpegSplitter::new();
        let mut got: Vec<Vec<u8>> = Vec::new();
        for piece in stream.chunks(chunk) {
            got.extend(splitter.push(piece).iter().map(|f| f.to_vec()));
        }
        assert_eq!(got, whole, "chunk size {chunk}");
    }
}

#[test]
fn frames_start_with_soi_and_end_with_eoi() {
    let mut stream = frame_with_sos();
    stream.extend(minimal_frame());
    for frame in JpegSplitter::new().push(&stream) {
        assert!(frame.len() >= 4);
        assert_eq!(&frame[..2], &[0xFF, 0xD8]);
        assert_eq!(&frame[frame.len() - 2..], &[0xFF, 0xD9]);
    }
}

#[test]
fn a_second_soi_inside_a_frame_resyncs_on_it() {
    // A truncated frame (SOI, then an APP0 header) followed by a complete
    // one: the walk sees the second SOI where a marker should be and drops
    // the first.
    let mut stream = vec![0xFF, 0xD8, 0xFF, 0xD8];
    stream.extend(minimal_frame());
    let frames = JpegSplitter::new().push(&stream);
    assert_eq!(frames.len(), 1);
    assert_eq!(frames[0].as_ref(), minimal_frame().as_slice());
}

#[test]
fn restart_and_fill_bytes_inside_scan_data_are_skipped() {
    let frame = vec![
        0xFF, 0xD8, 0xFF, 0xFF, 0xDA, 0x00, 0x02, // fill byte, then SOS with an empty header
        0x01, 0xFF, 0xD3, 0x02, 0xFF, 0xFF, 0xD9, // RST3, then fill before EOI
    ];
    let frames = JpegSplitter::new().push(&frame);
    assert_eq!(frames.len(), 1);
    assert_eq!(frames[0].as_ref(), frame.as_slice());
}

#[test]
fn an_incomplete_frame_is_kept_for_the_next_push() {
    let mut splitter = JpegSplitter::new();
    assert!(splitter.push(&[0xFF, 0xD8, 0xFF]).is_empty());
    let frames = splitter.push(&[0xD9]);
    assert_eq!(frames.len(), 1);
    assert_eq!(frames[0].as_ref(), minimal_frame().as_slice());
}

#[test]
fn a_zero_segment_length_resyncs() {
    // APP0 with a length field below 2 is malformed.
    let mut stream = vec![0xFF, 0xD8, 0xFF, 0xE0, 0x00, 0x01];
    stream.extend(minimal_frame());
    let frames = JpegSplitter::new().push(&stream);
    assert_eq!(frames.len(), 1);
    assert_eq!(frames[0].as_ref(), minimal_frame().as_slice());
}
