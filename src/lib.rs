//! A real-time chat relay: message validation, a bounded history of recent
//! messages, a broadcast hub with per-subscriber bounded queues, a registry of
//! live sessions and the per-connection session state machine.

pub mod message;
pub mod history;
pub mod hub;
pub mod state;
pub mod registry;
pub mod session;
pub mod auth;
pub mod settings;
