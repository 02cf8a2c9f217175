//! Verified core of a LAN camera server: stream framing (JPEG, WebM),
//! motion debouncing, frame-rate throttling and the small protocol types
//! shared with the web frontend.

pub mod byte_buffer;
pub mod jpeg;
pub mod audio;
pub mod clock;
pub mod detect;
pub mod shared_types;
pub mod config;
pub mod hub;
pub mod capture;
pub mod decimal;
pub mod web;
pub mod viewer;
