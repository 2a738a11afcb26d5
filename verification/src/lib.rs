//! Noddo's permission broker: the hook payloads it exchanges with the coding agent,
//! the table of requests that wait for a human decision, the session's
//! auto-allow list, and the decisions that the tray and the popup make.
//!
//! Everything here is plain, synchronous logic. The desktop shell (the tray
//! icon, the popup panel, the HTTP listener and the async plumbing around the
//! shared state) lives outside this crate and drives these functions.

pub mod models;
pub mod channel;
pub mod clock;
pub mod stamps;
pub mod pending;
pub mod state;
pub mod commands;
pub mod server;
pub mod tray;
pub mod laws;
