//! Orchestration core for concurrent IRC client sessions.
//!
//! Each session is driven through its lifecycle by a periodic, non-blocking
//! tick: connection establishment, registration handshake, declarative
//! reconciliation of channels and capabilities, idle keepalive pinging, and
//! inbound/outbound dispatch. The host performs the actual network work and
//! feeds the observed outcomes back into these verified transition functions.

/// Per-session data and the session record.
pub mod components;
/// Inbound reactions and the outbound dispatcher.
pub mod observers;
/// Protocol commands and parsed messages.
pub mod proto;
/// The per-tick pipeline: connection establishment, handshake, reconciliation
/// and keepalive.
pub mod systems;
/// Helpers for reading and building Twitch-flavoured messages.
pub mod twitch;
