//! Verified core of a voice and screen-sharing chat client: the RPC wire
//! framing, session keys, H.264 Annex-B splitting, audio jitter buffering,
//! video frame reassembly and the small state machines around them.

pub mod annex;
pub mod audio;
pub mod auth;
pub mod channel;
pub mod clients;
pub mod connection;
pub mod devices;
pub mod frame;
pub mod jitter;
pub mod models;
pub mod notifier;
pub mod pixels;
pub mod reassembly;
pub mod sender;
pub mod voice;
