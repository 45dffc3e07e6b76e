use vstd::prelude::*;

verus! {

/// The ways a room command can fail.
#[derive(Debug, Clone, PartialEq, Eq)]
pub enum RoomError {
    /// The transport refused a bind, a subscription, a send or a shutdown.
    Transport(String),
    /// The directory of join codes could not be reached or refused a query.
    Directory(String),
    /// No directory entry exists for the join code.
    NotFound,
    /// A stored ticket does not decode, or carries another kind tag.
    MalformedTicket,
    /// The command does not fit the session's state.
    State,
    /// A value could not be encoded, or a payload is not UTF-8 text.
    Encoding,
}

} // verus!
