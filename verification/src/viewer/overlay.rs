//! The detection overlay's switch: open or closed, remembered in the
//! browser's storage as `"1"` or `"0"`, closed for good when detection
//! becomes unavailable, and suspended while the tab is hidden.

use vstd::prelude::*;

use crate::viewer::texts::same_text;

verus! {

/// With no detection message for this long, the overlay is cleared, so a
/// phantom box never sits over live video.
pub const DETECTION_STALE_MS: u64 = 5000;

/// How often the staleness check runs, in milliseconds.
pub const STALE_CHECK_MS: u32 = 1000;

/// Whether the last detection message, received at `last_ms` (0 for
/// never), is too old at `now_ms` (the browser's wall clock, whole
/// milliseconds): the overlay is then cleared.
pub fn payload_stale(now_ms: u64, last_ms: u64) -> (r: bool)
    ensures
        r == (last_ms > 0 && now_ms > last_ms && now_ms - last_ms > DETECTION_STALE_MS),
{
    last_ms > 0 && now_ms > last_ms && now_ms - last_ms > DETECTION_STALE_MS
}

/// What to do with the detection stream when the tab's visibility changes.
#[derive(Debug, Clone, Copy, PartialEq, Eq)]
pub enum VisibilityAction {
    /// Leave it as it is.
    Nothing,
    /// Close the stream (the tab was hidden while the overlay was on).
    Close,
    /// Reopen the stream (the tab came back with the overlay on).
    Reopen,
}

/// Whether the overlay is switched on.
pub struct OverlaySwitch {
    open: bool,
}

impl View for OverlaySwitch {
    type V = bool;

    closed spec fn view(&self) -> bool {
        self.open
    }
}

impl OverlaySwitch {
    /// Off, unless the browser's storage remembers it on.
    pub fn restore(stored: &Option<String>) -> (r: Self)
        ensures
            r@ == (stored matches Some(s) && s@ == "1"@),
    {
        let open = match stored {
            Some(s) => same_text(s.as_str(), "1"),
            None => false,
        };
        OverlaySwitch { open }
    }

    pub fn is_open(&self) -> (r: bool)
        ensures
            r == self@,
    {
        self.open
    }

    /// The user flipped the switch; returns what to store (`"1"` once
    /// open, `"0"` once closed).
    pub fn toggle(&mut self) -> (stored: &'static str)
        ensures
            final(self)@ == !old(self)@,
            stored@ == if final(self)@ { "1"@ } else { "0"@ },
    {
        self.open = !self.open;
        if self.open {
            "1"
        } else {
            "0"
        }
    }

    /// Detection's availability changed; returns whether the overlay had
    /// to close (and `"0"` be stored).
    pub fn on_availability(&mut self, available: bool) -> (closed: bool)
        ensures
            closed == (!available && old(self)@),
            final(self)@ == (old(self)@ && available),
    {
        if !available && self.open {
            self.open = false;
            true
        } else {
            false
        }
    }

    /// The tab was hidden or shown.
    pub fn on_visibility(&self, hidden: bool) -> (r: VisibilityAction)
        ensures
            r == if !self@ {
                VisibilityAction::Nothing
            } else if hidden {
                VisibilityAction::Close
            } else {
                VisibilityAction::Reopen
            },
    {
        if !self.open {
            VisibilityAction::Nothing
        } else if hidden {
            VisibilityAction::Close
        } else {
            VisibilityAction::Reopen
        }
    }
}

} // verus!
