//! A single-threaded TCP broadcast relay: the decisions of its reactor,
//! its connection registry and the framing of broadcast payloads.
//!
//! Sockets and the readiness multiplexer stay with the caller; this crate
//! decides what to do with each readiness event and what to write to whom.
pub mod connection;
pub mod laws;
pub mod message;
pub mod reactor;
pub mod registry;
