//! What the page reads off `/healthz`'s state fields.

use vstd::prelude::*;

use crate::viewer::texts::same_text;

verus! {

/// Whether person detection can be switched on: its model is ready.
pub fn detect_available(detect: &String) -> (r: bool)
    ensures
        r == (detect@ == "ready"@),
{
    same_text(detect.as_str(), "ready")
}

/// Whether a motion episode is in progress.
pub fn motion_active(motion: &String) -> (r: bool)
    ensures
        r == (motion@ == "active"@),
{
    same_text(motion.as_str(), "active")
}

/// Whether Listen will work: the server was started with audio. Unlike
/// detection there is no loading state to wait out - the microphone opens
/// on demand.
pub fn audio_available(audio: &String) -> (r: bool)
    ensures
        r == (audio@ != "off"@),
{
    !same_text(audio.as_str(), "off")
}

/// What `/audio` serves, or nothing when audio is off.
pub fn audio_format(format: &String) -> (r: Option<String>)
    ensures
        match r {
            Some(f) => f@ == format@ && format@ != "off"@,
            None => format@ == "off"@,
        },
{
    if same_text(format.as_str(), "off") {
        None
    } else {
        Some(format.clone())
    }
}

} // verus!
