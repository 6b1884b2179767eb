//! The logic of the JARVIS voice assistant's two front ends: the desktop shell
//! and the browser dashboard.

pub mod dashboard;
pub mod desktop;
pub mod hex;
pub mod json;
pub mod millis;
pub mod precision;
pub mod record;
pub mod ring;
pub mod text;
pub mod wav;
pub mod wire;
