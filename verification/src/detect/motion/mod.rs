//! Motion events, built on top of person detection: a person box tells us
//! *where* to look, and a cheap downscaled frame-diff masked to that region
//! tells us whether it's moving.

pub mod detector;
pub mod grid;
pub mod hub;
pub mod sampler;
