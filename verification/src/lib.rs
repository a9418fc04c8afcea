//! Rules of a small networked arena game: players move about a shared scene
//! and place timed bombs that detonate into explosions.
//!
//! The server owns the state and advances it tick by tick; clients send
//! intent and render what is replicated to them. This crate holds the rules
//! both sides agree on, each with a contract that Verus proves.

use vstd::prelude::*;

pub mod color;
pub mod components;
pub mod connection;
pub mod events;
pub mod graphics;
pub mod input;
pub mod laws;
pub mod tick;
pub mod timer;

verus! {

/// The UDP port the server listens on.
pub const PORT: u16 = 42069;

/// The protocol version; a handshake that names another is turned away.
pub const PROTOCOL_ID: u64 = 0;

} // verus!
