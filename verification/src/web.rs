//! The framing of the live MJPEG stream: each JPEG frame is sent as one
//! part of a `multipart/x-mixed-replace` response.

use vstd::prelude::*;
use vstd::string::StringSliceAdditionalSpecFns;

use crate::byte_buffer::{frozen_as_slice, frozen_contents, frozen_from_vec};
use crate::decimal::{decimal_bytes, push_decimal};

verus! {

/// Multipart boundary for the MJPEG stream. Arbitrary, but must match
/// between the `Content-Type` header and each part's leading marker line.
pub const BOUNDARY: &'static str = "winniecamframe";

/// One multipart part: boundary marker, headers, blank line, the frame
/// itself, then a trailing CRLF before the next part.
pub open spec fn part_bytes(frame: Seq<u8>) -> Seq<u8> {
    "--".spec_bytes() + BOUNDARY.spec_bytes() + "\r\n".spec_bytes()
        + "Content-Type: image/jpeg\r\n".spec_bytes() + "Content-Length: ".spec_bytes()
        + decimal_bytes(frame.len()) + "\r\n".spec_bytes() + "\r\n".spec_bytes() + frame
        + "\r\n".spec_bytes()
}

/// Wraps one JPEG frame in its multipart part.
pub fn encode_part(frame: &bytes::Bytes) -> (r: bytes::Bytes)
    ensures
        frozen_contents(r) == part_bytes(frozen_contents(*frame)),
{
    let frame = frozen_as_slice(frame);
    let mut out: Vec<u8> = Vec::new();
    out.extend_from_slice("--".as_bytes());
    out.extend_from_slice(BOUNDARY.as_bytes());
    out.extend_from_slice("\r\n".as_bytes());
    out.extend_from_slice("Content-Type: image/jpeg\r\n".as_bytes());
    out.extend_from_slice("Content-Length: ".as_bytes());
    push_decimal(&mut out, frame.len() as u64);
    out.extend_from_slice("\r\n".as_bytes());
    out.extend_from_slice("\r\n".as_bytes());
    out.extend_from_slice(frame);
    out.extend_from_slice("\r\n".as_bytes());
    frozen_from_vec(out)
}

} // verus!
