//! Core of a configuration broadcast service: a shared slot holding the most
//! recently fetched configuration, a registry of live client sessions with
//! broadcast fan-out, the per-session protocol that answers client commands
//! and frames every outbound message as JSON text, and the decision logic of
//! the periodic poll cycle.

pub mod appstate;
pub mod config;
pub mod json;
pub mod poller;
pub mod websocket;
