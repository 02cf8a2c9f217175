//! Types for the HTTP boundary between the camera server and its web
//! frontend: the camera settings a client can read and change, and the
//! generic error body.

use vstd::prelude::*;

verus! {

/// Body of `GET /api/config`, and of a successful `PUT /api/config`: the
/// current settings plus which capture backend is running. Clients need
/// the backend kind because `quality`, `hflip` and `vflip` only take
/// effect on `rpicam` (a USB webcam encodes MJPEG on-device).
#[derive(Debug, Clone)]
pub struct CameraConfig {
    /// `"rpicam"` or `"v4l2"`.
    pub backend: String,
    pub width: u32,
    pub height: u32,
    pub fps: u32,
    pub quality: u8,
    pub hflip: bool,
    pub vflip: bool,
}

/// The mutable camera settings the server owns. Sent to clients wrapped in
/// a [`CameraConfig`], which adds the read-only `backend` field.
#[derive(Debug, Clone, Copy, PartialEq, Eq)]
pub struct VideoSettings {
    pub width: u32,
    pub height: u32,
    pub fps: u32,
    pub quality: u8,
    pub hflip: bool,
    pub vflip: bool,
}

/// Partial update payload for `PUT /api/config` — every field is optional.
#[derive(Debug, Clone, Copy, PartialEq, Eq)]
pub struct VideoSettingsUpdate {
    pub width: Option<u32>,
    pub height: Option<u32>,
    pub fps: Option<u32>,
    pub quality: Option<u8>,
    pub hflip: Option<bool>,
    pub vflip: Option<bool>,
}

/// Generic error body, used by several endpoints (config validation,
/// detection-unavailable, etc.).
#[derive(Debug, Clone)]
pub struct ErrorResponse {
    pub error: String,
}

/// The first range check `u` fails, as the message a 422 body carries, or
/// `None` if every present field is in range.
pub open spec fn validation_error(u: VideoSettingsUpdate) -> Option<Seq<char>> {
    if u.width == Some(0u32) {
        Some("width must be > 0"@)
    } else if u.height == Some(0u32) {
        Some("height must be > 0"@)
    } else if u.fps == Some(0u32) {
        Some("fps must be > 0"@)
    } else if u.quality matches Some(q) && (q < 1 || q > 100) {
        Some("quality must be 1-100"@)
    } else {
        None
    }
}

/// `s` with every field `u` carries replaced.
pub open spec fn applied(s: VideoSettings, u: VideoSettingsUpdate) -> VideoSettings {
    VideoSettings {
        width: match u.width {
            Some(v) => v,
            None => s.width,
        },
        height: match u.height {
            Some(v) => v,
            None => s.height,
        },
        fps: match u.fps {
            Some(v) => v,
            None => s.fps,
        },
        quality: match u.quality {
            Some(v) => v,
            None => s.quality,
        },
        hflip: match u.hflip {
            Some(v) => v,
            None => s.hflip,
        },
        vflip: match u.vflip {
            Some(v) => v,
            None => s.vflip,
        },
    }
}

/// Settings a camera can actually run with: a picture, a frame rate, and a
/// JPEG quality in 1-100.
pub open spec fn settings_in_range(s: VideoSettings) -> bool {
    &&& s.width > 0
    &&& s.height > 0
    &&& s.fps > 0
    &&& 1 <= s.quality <= 100
}

impl VideoSettingsUpdate {
    /// Returns `Ok(())` if every present field passes range checks, or an
    /// error message suitable for a 422 body.
    pub fn validate(&self) -> (r: Result<(), String>)
        ensures
            match r {
                Ok(()) => validation_error(*self) is None,
                Err(msg) => validation_error(*self) == Some(msg@),
            },
    {
        proof {
            reveal_strlit("width must be > 0");
            reveal_strlit("height must be > 0");
            reveal_strlit("fps must be > 0");
            reveal_strlit("quality must be 1-100");
        }
        if let Some(w) = self.width {
            if w == 0 {
                return Err("width must be > 0".to_owned());
            }
        }
        if let Some(h) = self.height {
            if h == 0 {
                return Err("height must be > 0".to_owned());
            }
        }
        if let Some(f) = self.fps {
            if f == 0 {
                return Err("fps must be > 0".to_owned());
            }
        }
        if let Some(q) = self.quality {
            if q < 1 || q > 100 {
                return Err("quality must be 1-100".to_owned());
            }
        }
        Ok(())
    }

    /// Apply every `Some` field to `target`; fields left `None` are left
    /// alone. Returns `true` if at least one field actually changed.
    pub fn apply_to(&self, target: &mut VideoSettings) -> (changed: bool)
        ensures
            *final(target) == applied(*old(target), *self),
            changed == (applied(*old(target), *self) != *old(target)),
    {
        let mut changed = false;
        if let Some(w) = self.width {
            if target.width != w {
                target.width = w;
                changed = true;
            }
        }
        if let Some(h) = self.height {
            if target.height != h {
                target.height = h;
                changed = true;
            }
        }
        if let Some(f) = self.fps {
            if target.fps != f {
                target.fps = f;
                changed = true;
            }
        }
        if let Some(q) = self.quality {
            if target.quality != q {
                target.quality = q;
                changed = true;
            }
        }
        if let Some(hf) = self.hflip {
            if target.hflip != hf {
                target.hflip = hf;
                changed = true;
            }
        }
        if let Some(vf) = self.vflip {
            if target.vflip != vf {
                target.vflip = vf;
                changed = true;
            }
        }
        changed
    }
}

/// Applying the same update twice is the same as applying it once, so a
/// repeated `PUT` reports no change the second time.
pub proof fn law_apply_is_idempotent(s: VideoSettings, u: VideoSettingsUpdate)
    ensures
        applied(applied(s, u), u) == applied(s, u),
{
}

/// An update that passes validation keeps settings in range: it can never
/// leave the camera with a zero size or frame rate, or a quality outside
/// 1-100.
pub proof fn law_valid_update_keeps_settings_in_range(s: VideoSettings, u: VideoSettingsUpdate)
    requires
        settings_in_range(s),
        validation_error(u) is None,
    ensures
        settings_in_range(applied(s, u)),
{
}

/// An update sets every field it carries and leaves every other field as
/// it was, and it counts as a change exactly when some carried value
/// differs from the current one.
pub proof fn law_update_sets_exactly_its_fields(s: VideoSettings, u: VideoSettingsUpdate)
    ensures
        u.width matches Some(v) ==> applied(s, u).width == v,
        u.width is None ==> applied(s, u).width == s.width,
        u.height matches Some(v) ==> applied(s, u).height == v,
        u.height is None ==> applied(s, u).height == s.height,
        u.fps matches Some(v) ==> applied(s, u).fps == v,
        u.fps is None ==> applied(s, u).fps == s.fps,
        u.quality matches Some(v) ==> applied(s, u).quality == v,
        u.quality is None ==> applied(s, u).quality == s.quality,
        u.hflip matches Some(v) ==> applied(s, u).hflip == v,
        u.hflip is None ==> applied(s, u).hflip == s.hflip,
        u.vflip matches Some(v) ==> applied(s, u).vflip == v,
        u.vflip is None ==> applied(s, u).vflip == s.vflip,
        (applied(s, u) != s) <==> {
            ||| u.width matches Some(v) && v != s.width
            ||| u.height matches Some(v) && v != s.height
            ||| u.fps matches Some(v) && v != s.fps
            ||| u.quality matches Some(v) && v != s.quality
            ||| u.hflip matches Some(v) && v != s.hflip
            ||| u.vflip matches Some(v) && v != s.vflip
        },
{
}

} // verus!
