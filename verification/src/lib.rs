//! A real-time message relay: clients claim a unique display name, then
//! exchange short text lines that are fanned out to every connected client.
//!
//! The crate is organised around the three shared components and the
//! per-connection state machine:
//! - [`registry`]: the set of currently claimed display names;
//! - [`hub`]: the bounded fan-out channel with its drop-oldest policy;
//! - [`message`]: inbound payload validation and the outbound line formats;
//! - [`session`]: one client's protocol, from naming to teardown.

pub mod hub;
pub mod message;
pub mod registry;
pub mod session;
