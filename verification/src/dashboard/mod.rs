//! The browser dashboard.

pub mod api;
pub mod arc;
pub mod audio_queue;
pub mod hud;
pub mod mic;
pub mod pip;
pub mod screen;
pub mod speech;
pub mod sse;
pub mod streaming;
pub mod voice;
pub mod wizard;
