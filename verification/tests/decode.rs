use winnie_cam::detect::decode::{decode_rgb, DecodeFailure};

/// A baseline grayscale JPEG of `w`x`h` pixels (multiples of 8) whose every
/// block is flat mid-gray: all-ones quantization, and one-symbol Huffman
/// tables so that each block is "DC difference 0, end of block".
fn flat_gray_jpeg(w: u16, h: u16) -> Vec<u8> {
    let mut j = vec![0xFF, 0xD8];
    // DQT: table 0, 8-bit, all ones.
    j.extend_from_slice(&[0xFF, 0xDB, 0x00, 0x43, 0x00]);
    j.extend_from_slice(&[1u8; 64]);
    // SOF0: 8-bit, h x w, one component, 1x1 sampling, table 0.
    j.extend_from_slice(&[0xFF, 0xC0, 0x00, 0x0B, 0x08]);
    j.extend_from_slice(&h.to_be_bytes());
    j.extend_from_slice(&w.to_be_bytes());
    j.extend_from_slice(&[0x01, 0x01, 0x11, 0x00]);
    // DHT: DC table 0 and AC table 0, each with the one symbol 0x00 coded "0".
    for class in [0x00u8, 0x10] {
        j.extend_from_slice(&[0xFF, 0xC4, 0x00, 0x14, class, 1]);
        j.extend_from_slice(&[0u8; 15]);
        j.push(0x00);
    }
    // SOS: one component, tables 0/0, full spectral range.
    j.extend_from_slice(&[0xFF, 0xDA, 0x00, 0x08, 0x01, 0x01, 0x00, 0x00, 0x3F, 0x00]);
    // Two bits per block ("0" for DC, "0" for EOB), padded with ones.
    let blocks = (w as usize / 8) * (h as usize / 8);
    let mut bits: Vec<bool> = vec![false; blocks * 2];
    while bits.len() % 8 != 0 {
        bits.push(true);
    }
    for byte in bits.chunks(8) {
        let b = byte.iter().fold(0u8, |acc, &bit| (acc << 1) | bit as u8);
        j.push(b);
        if b == 0xFF {
            j.push(0x00);
        }
    }
    j.extend_from_slice(&[0xFF, 0xD9]);
    j
}

#[test]
fn a_flat_frame_decodes_to_its_size_and_gray_pixels() {
    let jpeg = flat_gray_jpeg(16, 8);
    let mut rgb = Vec::new();
    let dims = decode_rgb(&jpeg, &mut rgb);
    assert_eq!(dims, Ok((16, 8)));
    assert_eq!(rgb.len(), 16 * 8 * 3);
    assert!(rgb.iter().all(|&v| v == 128), "{rgb:?}");
}

#[test]
fn the_buffer_is_resized_to_the_picture() {
    let jpeg = flat_gray_jpeg(8, 8);
    let mut rgb = vec![7u8; 1000];
    assert_eq!(decode_rgb(&jpeg, &mut rgb), Ok((8, 8)));
    assert_eq!(rgb.len(), 8 * 8 * 3);
    // Decoding again into the now right-sized buffer gives the same.
    assert_eq!(decode_rgb(&jpeg, &mut rgb), Ok((8, 8)));
    assert!(rgb.iter().all(|&v| v == 128));
}

#[test]
fn garbage_fails_at_the_headers_and_leaves_the_buffer_alone() {
    let mut rgb = vec![1u8, 2, 3];
    match decode_rgb(b"definitely not a jpeg", &mut rgb) {
        Err(DecodeFailure::Headers(msg)) => assert!(!msg.is_empty()),
        other => panic!("expected a header failure, got {other:?}"),
    }
    assert_eq!(rgb, vec![1u8, 2, 3]);
}

use winnie_cam::detect::decode::size_for_header;

#[test]
fn headers_size_the_buffer_or_say_why_not() {
    let mut rgb = vec![9u8; 4];
    assert_eq!(size_for_header(Ok((Some((2, 1)), Some(6))), &mut rgb), Ok((2, 1)));
    assert_eq!(rgb, vec![9, 9, 9, 9, 0, 0]);
    assert_eq!(size_for_header(Ok((Some((1, 1)), Some(3))), &mut rgb), Ok((1, 1)));
    assert_eq!(rgb, vec![9, 9, 9]);
    assert_eq!(
        size_for_header(Err("bad marker".to_string()), &mut rgb),
        Err(DecodeFailure::Headers("bad marker".to_string()))
    );
    assert_eq!(size_for_header(Ok((None, Some(3))), &mut rgb), Err(DecodeFailure::NoDimensions));
    assert_eq!(size_for_header(Ok((Some((4, 4)), None)), &mut rgb), Err(DecodeFailure::NoOutputSize));
    assert_eq!(rgb, vec![9, 9, 9]);
}
