//! Messages exchanged over RPC: typed ids, errors, and the requests and
//! notifications of the voice and screen-sharing features.

pub mod common;
pub mod general;
pub mod markers;
pub mod messages;
pub mod voice;
