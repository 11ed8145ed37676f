//! A real-time message relay core: sessions connect, one session creates a
//! room and receives a short join code, other sessions join with that code,
//! and members of a room exchange opaque payloads that the relay forwards
//! after rewriting the sender identity.
//!
//! The crate holds the binary wire codec for the two message families, the
//! session/room registry with its lifecycle rules, and the message router.
//! Transport (the websocket listener and the per-connection pumps) lives
//! outside; it hands the registry decoded frames and drains each session's
//! outbound queue.

pub mod app;
pub mod code;
pub mod proto;
pub mod session_id;
