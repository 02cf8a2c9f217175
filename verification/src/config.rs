//! The choices the command line offers that the rest of the server
//! branches on: which capture backend, and which audio container.

use vstd::prelude::*;

verus! {

/// Which capture backend to use. `Auto` uses the Pi CSI camera (via
/// rpicam-vid/libcamera-vid) if found on PATH, otherwise falls back to a USB
/// webcam over V4L2.
#[derive(Debug, Clone, Copy, PartialEq, Eq)]
pub enum SourceKind {
    Auto,
    Rpicam,
    V4l2,
}

impl SourceKind {
    /// The name the command line (and `/api/config`'s `backend`) uses.
    pub fn value_name(self) -> (r: &'static str)
        ensures
            r@ == match self {
                SourceKind::Auto => "auto"@,
                SourceKind::Rpicam => "rpicam"@,
                SourceKind::V4l2 => "v4l2"@,
            },
    {
        match self {
            SourceKind::Auto => "auto",
            SourceKind::Rpicam => "rpicam",
            SourceKind::V4l2 => "v4l2",
        }
    }
}

/// What `/audio` serves. The choice reaches further than the encoder flags:
/// WebM is only decodable from its EBML header, so a listener joining an
/// in-progress stream has to be replayed one, whereas ADTS is self-framing
/// and can be joined at any frame.
#[derive(Debug, Clone, Copy, PartialEq, Eq)]
pub enum AudioFormat {
    WebmOpus,
    AdtsAac,
}

impl AudioFormat {
    /// The name the command line (and `/healthz`'s `audio_format`) uses.
    pub fn value_name(self) -> (r: &'static str)
        ensures
            r@ == match self {
                AudioFormat::WebmOpus => "webm-opus"@,
                AudioFormat::AdtsAac => "adts-aac"@,
            },
    {
        match self {
            AudioFormat::WebmOpus => "webm-opus",
            AudioFormat::AdtsAac => "adts-aac",
        }
    }

    /// The `Content-Type` to serve. `<audio>` dispatches on this, not on the
    /// request path, which is why both formats can share one route.
    pub fn content_type(self) -> (r: &'static str)
        ensures
            r@ == match self {
                AudioFormat::WebmOpus => "audio/webm"@,
                AudioFormat::AdtsAac => "audio/aac"@,
            },
    {
        match self {
            AudioFormat::WebmOpus => "audio/webm",
            AudioFormat::AdtsAac => "audio/aac",
        }
    }
}

} // verus!
