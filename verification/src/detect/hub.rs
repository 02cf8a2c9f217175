//! The detector's lifecycle state, surfaced on `/healthz` so the frontend
//! knows whether to show the overlay toggle at all, and the single byte it
//! is shared between threads as.

use vstd::prelude::*;

verus! {

/// Lifecycle state of the detector.
#[derive(Clone, Copy, Debug, PartialEq, Eq)]
pub enum DetectState {
    /// Model is still loading/optimizing on the worker thread.
    Loading,
    Ready,
    /// The model failed to load; detection is permanently disabled for this
    /// run, but video is unaffected.
    Error,
}

/// The byte a state is stored as.
pub open spec fn state_code(s: DetectState) -> u8 {
    match s {
        DetectState::Loading => 0,
        DetectState::Ready => 1,
        DetectState::Error => 2,
    }
}

/// The state a stored byte stands for; anything unknown reads as `Loading`.
pub open spec fn state_of_code(v: u8) -> DetectState {
    if v == 1 {
        DetectState::Ready
    } else if v == 2 {
        DetectState::Error
    } else {
        DetectState::Loading
    }
}

impl DetectState {
    pub fn as_str(self) -> (r: &'static str)
        ensures
            r@ == match self {
                DetectState::Loading => "loading"@,
                DetectState::Ready => "ready"@,
                DetectState::Error => "error"@,
            },
    {
        match self {
            DetectState::Loading => "loading",
            DetectState::Ready => "ready",
            DetectState::Error => "error",
        }
    }

    /// The byte a state is stored as.
    pub fn to_u8(self) -> (r: u8)
        ensures
            r == state_code(self),
    {
        match self {
            DetectState::Loading => 0,
            DetectState::Ready => 1,
            DetectState::Error => 2,
        }
    }

    /// The state a stored byte stands for; anything unknown reads as
    /// `Loading`.
    pub fn from_u8(v: u8) -> (r: Self)
        ensures
            r == state_of_code(v),
    {
        match v {
            1 => DetectState::Ready,
            2 => DetectState::Error,
            _ => DetectState::Loading,
        }
    }
}

/// The detection payload published before any pass has run: no frame, no
/// boxes.
pub fn empty_json() -> (r: String)
    ensures
        r@ == "{\"w\":0,\"h\":0,\"seq\":0,\"ms\":0.0,\"dets\":[]}"@,
{
    "{\"w\":0,\"h\":0,\"seq\":0,\"ms\":0.0,\"dets\":[]}".to_owned()
}

/// Storing a state and reading it back gives the same state.
pub proof fn law_state_round_trips(s: DetectState)
    ensures
        state_of_code(state_code(s)) == s,
{
}

} // verus!
