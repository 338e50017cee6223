//! A local remote-control channel: a pairing secret, a per-connection session
//! state machine, and a registry of client handles with prune-on-send
//! broadcast.

pub mod pin;
pub mod secret;
pub mod pairing;
pub mod wire;
pub mod session;
pub mod registry;
pub mod scripts;
