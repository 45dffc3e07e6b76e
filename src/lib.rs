//! Ephemeral chat rooms on a gossip transport: the room tickets, their
//! encoding, join codes, membership edits and the per-process session.

pub mod code;
pub mod codec;
pub mod dispatch;
pub mod error;
pub mod room;
pub mod session;
pub mod ticket;
