//! The viewer page's decisions: the state and reconnects of the video and
//! audio streams, motion alerts and their chime, the settings form, and the
//! texts the page shows. The page itself (the DOM, timers and fetches)
//! hands these functions what happened and does what they return.

pub mod alerts;
pub mod state;
pub mod texts;
pub mod link;
pub mod listen;
pub mod chime;
pub mod overlay;
pub mod settings;
pub mod health;
pub mod live_edge;
