use vstd::prelude::*;
use vstd::slice::slice_to_vec;
use vstd::utf8::encode_utf8;
use crate::error::RoomError;
use crate::ticket::PeerAddress;

verus! {

/// The one room session of a process.
#[derive(Debug, PartialEq, Eq)]
pub enum Session {
    /// In no room.
    Idle,
    /// In a room, under `username`, reachable at `local`.
    Active { username: String, local: PeerAddress },
}

/// The bytes a chat message travels as: its UTF-8 encoding.
pub open spec fn message_payload(text: Seq<char>) -> Seq<u8> {
    encode_utf8(text)
}

impl Session {
    /// The session at process start.
    pub fn new() -> (s: Session)
        ensures
            s is Idle,
    {
        Session::Idle
    }

    /// Whether the session is in a room.
    pub fn is_active(&self) -> (r: bool)
        ensures
            r == self is Active,
    {
        match self {
            Session::Idle => false,
            Session::Active { .. } => true,
        }
    }

    /// Creating or joining a room needs an idle session.
    pub fn require_idle(&self) -> (r: Result<(), RoomError>)
        ensures
            r is Ok <==> self is Idle,
            r is Err ==> r->Err_0 == RoomError::State,
    {
        match self {
            Session::Idle => Ok(()),
            Session::Active { .. } => Err(RoomError::State),
        }
    }

    /// Enters a room as `username` at `local`. An active session stays as
    /// it is and the call fails.
    pub fn enter(&mut self, username: String, local: PeerAddress) -> (r: Result<(), RoomError>)
        ensures
            r is Ok <==> *old(self) is Idle,
            r is Err ==> r->Err_0 == RoomError::State && *final(self) == *old(self),
            r is Ok ==> *final(self) is Active && (*final(self))->username@ == username@
                && (*final(self))->local@ == local@,
    {
        match self {
            Session::Idle => {
                *self = Session::Active { username, local };
                Ok(())
            },
            Session::Active { .. } => Err(RoomError::State),
        }
    }

    /// Leaves the room, whatever becomes of its directory entry, and gives
    /// back the local peer. An idle session stays idle and the call fails.
    pub fn leave(&mut self) -> (r: Result<PeerAddress, RoomError>)
        ensures
            r is Ok <==> *old(self) is Active,
            *final(self) is Idle,
            r is Err ==> r->Err_0 == RoomError::State,
            r is Ok ==> r->Ok_0@ == (*old(self))->local@,
    {
        let mut previous = Session::Idle;
        core::mem::swap(self, &mut previous);
        match previous {
            Session::Idle => Err(RoomError::State),
            Session::Active { local, .. } => Ok(local),
        }
    }

    /// The bytes to broadcast for chat message `text`. Outside a room
    /// nothing is sent and the call fails.
    pub fn send_message(&self, text: &str) -> (r: Result<Vec<u8>, RoomError>)
        ensures
            r is Ok <==> self is Active,
            r is Err ==> r->Err_0 == RoomError::State,
            r is Ok ==> r->Ok_0@ == message_payload(text@),
    {
        match self {
            Session::Idle => Err(RoomError::State),
            Session::Active { .. } => Ok(slice_to_vec(text.as_bytes())),
        }
    }

    /// Who to announce as present: the username and the local peer.
    pub fn presence(&self) -> (r: Result<(String, PeerAddress), RoomError>)
        ensures
            r is Ok <==> self is Active,
            r is Err ==> r->Err_0 == RoomError::State,
            r is Ok ==> r->Ok_0.0@ == self->username@ && r->Ok_0.1@ == self->local@,
    {
        match self {
            Session::Idle => Err(RoomError::State),
            Session::Active { username, local } => Ok((username.clone(), local.copy())),
        }
    }
}

} // verus!
