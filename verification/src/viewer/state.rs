//! The viewer page's connection indicator and the placeholder texts shown
//! over the stage when no video is streaming.

use vstd::prelude::*;

verus! {

/// Connection health tracked by the MJPEG stream hook and surfaced in the
/// status indicator bar.
#[derive(Clone, Copy, PartialEq, Eq, Debug)]
pub enum ConnectionState {
    Connecting,
    Live,
    Reconnecting,
    Stale,
    Offline,
}

impl ConnectionState {
    /// Maps to CSS classes `is-live` / `is-wait` / `is-bad` for the status
    /// pill.
    pub fn css_class(&self) -> (r: &'static str)
        ensures
            r@ == match *self {
                ConnectionState::Live => "is-live"@,
                ConnectionState::Offline => "is-bad"@,
                _ => "is-wait"@,
            },
    {
        match self {
            ConnectionState::Connecting => "is-wait",
            ConnectionState::Live => "is-live",
            ConnectionState::Reconnecting => "is-wait",
            ConnectionState::Stale => "is-wait",
            ConnectionState::Offline => "is-bad",
        }
    }

    pub fn label(&self) -> (r: &'static str)
        ensures
            r@ == match *self {
                ConnectionState::Connecting => "Connecting\u{2026}"@,
                ConnectionState::Live => "Live"@,
                ConnectionState::Reconnecting => "Reconnecting\u{2026}"@,
                ConnectionState::Stale => "Feed stalled \u{2014} retrying\u{2026}"@,
                ConnectionState::Offline => "Can\u{2019}t reach the camera"@,
            },
    {
        match self {
            ConnectionState::Connecting => "Connecting\u{2026}",
            ConnectionState::Live => "Live",
            ConnectionState::Reconnecting => "Reconnecting\u{2026}",
            ConnectionState::Stale => "Feed stalled \u{2014} retrying\u{2026}",
            ConnectionState::Offline => "Can\u{2019}t reach the camera",
        }
    }
}

/// Placeholder content shown over the stage when video isn't streaming.
#[derive(Clone, Copy, Debug, PartialEq, Eq)]
pub struct Placeholder {
    pub title: &'static str,
    pub sub: &'static str,
}

impl Placeholder {
    /// While the first frame is awaited.
    pub fn waking() -> (r: Placeholder)
        ensures
            r.title@ == "Waking the camera up\u{2026}"@,
            r.sub@ == "This only takes a moment."@,
    {
        Placeholder { title: "Waking the camera up\u{2026}", sub: "This only takes a moment." }
    }

    /// After the stream dropped.
    pub fn lost() -> (r: Placeholder)
        ensures
            r.title@ == "Lost the picture"@,
            r.sub@ == "Reconnecting on its own \u{2014} hang tight."@,
    {
        Placeholder { title: "Lost the picture", sub: "Reconnecting on its own \u{2014} hang tight." }
    }

    /// When the server has no frame to show.
    pub fn no_camera() -> (r: Placeholder)
        ensures
            r.title@ == "No camera picture yet"@,
            r.sub@ == "The camera may still be starting, or unplugged."@,
    {
        Placeholder { title: "No camera picture yet", sub: "The camera may still be starting, or unplugged." }
    }

    /// When the server can't be reached.
    pub fn unreachable() -> (r: Placeholder)
        ensures
            r.title@ == "Can\u{2019}t reach the monitor"@,
            r.sub@ == "Check that the Pi is on and you\u{2019}re on the same Wi-Fi."@,
    {
        Placeholder { title: "Can\u{2019}t reach the monitor", sub: "Check that the Pi is on and you\u{2019}re on the same Wi-Fi." }
    }
}

} // verus!
