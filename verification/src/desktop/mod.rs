//! The desktop client.

pub mod agent_names;
pub mod audio;
pub mod conversations;
pub mod crash_isolation;
pub mod gateway;
pub mod hotkeys;
pub mod markdown;
pub mod mic_pipeline;
pub mod screen;
pub mod session;
pub mod settings;
pub mod speech;
pub mod speech_gate;
pub mod splitter;
pub mod startup;
pub mod streaming_stt;
pub mod sub_agents;
pub mod transcript;
pub mod vad;
pub mod voice_intent;
