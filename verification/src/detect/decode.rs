//! JPEG decoding for the detection and motion workers, through zune-jpeg:
//! the picture's size from its headers, then its RGB pixels into a buffer
//! that is reused from frame to frame.

use vstd::prelude::*;

verus! {

/// What zune-jpeg's `JpegDecoder::decode_headers` reports for `jpeg`: the
/// error's message, or, read back from the decoder afterwards, its
/// `dimensions` (width, height) and its `output_buffer_size` (the bytes the
/// RGB pixels take).
pub uninterp spec fn jpeg_header(jpeg: Seq<u8>) -> Result<(Option<(usize, usize)>, Option<usize>), Seq<char>>;

/// Reads the headers of `jpeg` with a fresh zune-jpeg decoder
/// (`JpegDecoder::new` over a `ZCursor`, then `decode_headers`), and on
/// success the decoder's `dimensions` and `output_buffer_size`. The result
/// is whatever [`jpeg_header`] names for these bytes. The `unwrap`s the
/// crate's source shows on this path convert fixed four-byte slices and
/// pick the RGB colour converter, which always exists, so they cannot
/// fail; that no bounds-checked index in its marker parsers panics on
/// malformed input is not shown.
#[verifier::external_body]
fn read_jpeg_header(jpeg: &[u8]) -> (r: Result<(Option<(usize, usize)>, Option<usize>), String>)
    ensures
        match r {
            Ok(v) => jpeg_header(jpeg@) == Ok::<(Option<(usize, usize)>, Option<usize>), Seq<char>>(v),
            Err(m) => jpeg_header(jpeg@) == Err::<(Option<(usize, usize)>, Option<usize>), Seq<char>>(m@),
        },
{
    let mut d = zune_jpeg::JpegDecoder::new(zune_jpeg::zune_core::bytestream::ZCursor::new(jpeg));
    match d.decode_headers() {
        Ok(()) => Ok((d.dimensions(), d.output_buffer_size())),
        Err(e) => Err(e.to_string()),
    }
}

/// Whether zune-jpeg's `JpegDecoder::decode_into` decodes `jpeg` into a
/// buffer of `out_len` bytes, or the error's message. Every error it can
/// return comes from parsing the bytes or from the too-small-buffer check,
/// so the outcome depends on the bytes and the buffer's length alone.
pub uninterp spec fn jpeg_decode_outcome(jpeg: Seq<u8>, out_len: nat) -> Result<(), Seq<char>>;

/// Decodes `jpeg` into `out` with a fresh zune-jpeg decoder
/// (`JpegDecoder::new` over a `ZCursor`, then `decode_into` on the buffer as
/// a slice, which keeps its length), reporting the error's message on
/// failure; the outcome is whatever [`jpeg_decode_outcome`] names for the
/// bytes and the buffer's length. The call is made only when the headers
/// give an output size, since `decode_into` unwraps it. What pixels land in
/// the buffer is left unsaid: the crate picks SIMD or scalar code per
/// machine at run time for the IDCT, upsampling and colour conversion, and
/// that every path writes the same bytes (and that no malformed input
/// reaches one of the `unwrap`s or indexes on its pixel path) is not shown
/// by its source.
#[verifier::external_body]
fn decode_jpeg_into(jpeg: &[u8], out: &mut Vec<u8>) -> (r: Result<(), String>)
    requires
        jpeg_header(jpeg@) matches Ok((_, Some(_))),
    ensures
        final(out)@.len() == old(out)@.len(),
        match r {
            Ok(()) => jpeg_decode_outcome(jpeg@, old(out)@.len()) == Ok::<(), Seq<char>>(()),
            Err(m) => jpeg_decode_outcome(jpeg@, old(out)@.len()) == Err::<(), Seq<char>>(m@),
        },
{
    let mut d = zune_jpeg::JpegDecoder::new(zune_jpeg::zune_core::bytestream::ZCursor::new(jpeg));
    match d.decode_into(out.as_mut_slice()) {
        Ok(()) => Ok(()),
        Err(e) => Err(e.to_string()),
    }
}

/// Why a frame could not be decoded.
#[derive(Debug, Clone, PartialEq, Eq)]
pub enum DecodeFailure {
    /// The headers did not parse; the decoder's message.
    Headers(String),
    /// The decoder had no dimensions after reading the headers.
    NoDimensions,
    /// The decoder could not size the output (it would overflow).
    NoOutputSize,
    /// The pixels did not decode; the decoder's message.
    Pixels(String),
}

/// A [`DecodeFailure`] by its parts: which step, and the message if any.
pub open spec fn failure_view(f: DecodeFailure) -> (int, Seq<char>) {
    match f {
        DecodeFailure::Headers(m) => (0, m@),
        DecodeFailure::NoDimensions => (1, Seq::empty()),
        DecodeFailure::NoOutputSize => (2, Seq::empty()),
        DecodeFailure::Pixels(m) => (3, m@),
    }
}

/// `v` cut or zero-padded to exactly `n` bytes.
pub open spec fn resized(v: Seq<u8>, n: int) -> Seq<u8> {
    if n <= v.len() {
        v.take(n)
    } else {
        v + Seq::new((n - v.len()) as nat, |i: int| 0u8)
    }
}

/// What a frame's headers call for: the failure by its parts, or the
/// picture's width and height and the buffer sized to its pixels (cut or
/// zero-padded, keeping what it held).
pub open spec fn sized_for(
    header: Result<(Option<(usize, usize)>, Option<usize>), Seq<char>>,
    rgb: Seq<u8>,
) -> (Result<(u32, u32), (int, Seq<char>)>, Seq<u8>) {
    match header {
        Err(m) => (Err((0, m)), rgb),
        Ok((None, _)) => (Err((1, Seq::empty())), rgb),
        Ok((Some(_), None)) => (Err((2, Seq::empty())), rgb),
        Ok((Some((w, h)), Some(size))) => (Ok((w as u32, h as u32)), resized(rgb, size as int)),
    }
}

/// The header result as plain values.
pub open spec fn header_view(header: Result<(Option<(usize, usize)>, Option<usize>), String>) -> Result<
    (Option<(usize, usize)>, Option<usize>),
    Seq<char>,
> {
    match header {
        Ok(v) => Ok(v),
        Err(m) => Err(m@),
    }
}

/// Checks what the headers reported and sizes `rgb` for the pixels: the
/// width and height to decode, or why the frame can't be decoded (the
/// buffer is then left as it was). A buffer already the right size is
/// kept as it is, so it is reused from frame to frame.
pub fn size_for_header(
    header: Result<(Option<(usize, usize)>, Option<usize>), String>,
    rgb: &mut Vec<u8>,
) -> (r: Result<(u32, u32), DecodeFailure>)
    ensures
        final(rgb)@ == sized_for(header_view(header), old(rgb)@).1,
        match r {
            Ok(dims) => sized_for(header_view(header), old(rgb)@).0 == Ok::<(u32, u32), (int, Seq<char>)>(dims),
            Err(f) => sized_for(header_view(header), old(rgb)@).0 == Err::<(u32, u32), (int, Seq<char>)>(
                failure_view(f),
            ),
        },
{
    let (dims, size) = match header {
        Ok(info) => info,
        Err(m) => return Err(DecodeFailure::Headers(m)),
    };
    let (w, h) = match dims {
        Some(d) => d,
        None => return Err(DecodeFailure::NoDimensions),
    };
    let size = match size {
        Some(s) => s,
        None => return Err(DecodeFailure::NoOutputSize),
    };
    if rgb.len() != size {
        rgb.resize(size, 0u8);
    }
    assert(rgb@ =~= resized(old(rgb)@, size as int));
    Ok((w as u32, h as u32))
}

/// Decodes a JPEG into `rgb` (resized in place as needed) and returns
/// `(width, height)`. Shared by the detection and motion workers. The
/// headers decide the buffer's size and the header failures; given usable
/// headers, the pixel decode succeeds or fails with its own message as
/// [`jpeg_decode_outcome`] says for the bytes and the sized buffer. The
/// pixels are whatever the decoder wrote (see `decode_jpeg_into`).
pub fn decode_rgb(jpeg: &[u8], rgb: &mut Vec<u8>) -> (r: Result<(u32, u32), DecodeFailure>)
    ensures
        ({
            let (sized, buf) = sized_for(jpeg_header(jpeg@), old(rgb)@);
            match sized {
                Err(f) => r is Err && failure_view(r->Err_0) == f && final(rgb)@ == old(rgb)@,
                Ok(dims) => {
                    &&& final(rgb)@.len() == buf.len()
                    &&& match jpeg_decode_outcome(jpeg@, buf.len()) {
                        Ok(()) => r == Ok::<(u32, u32), DecodeFailure>(dims),
                        Err(m) => r is Err && r->Err_0 is Pixels && failure_view(r->Err_0) == (
                            3int,
                            m,
                        ),
                    }
                },
            }
        }),
{
    let header = read_jpeg_header(jpeg);
    assert(header_view(header) == jpeg_header(jpeg@));
    let dims = match size_for_header(header, rgb) {
        Ok(d) => d,
        Err(f) => return Err(f),
    };
    match decode_jpeg_into(jpeg, rgb) {
        Ok(()) => Ok(dims),
        Err(m) => Err(DecodeFailure::Pixels(m)),
    }
}

} // verus!
