use vstd::prelude::*;
use vstd::utf8::{decode_utf8, valid_utf8};
use crate::error::RoomError;
use crate::session::message_payload;

verus! {

/// An event that the transport hands to the receiving side of a room.
#[derive(Debug, Clone, PartialEq, Eq)]
pub enum GossipEvent {
    /// A message with these bytes arrived.
    Received(Vec<u8>),
    /// The receiver fell behind and messages were lost.
    Lagged,
    /// Anything else (peers coming and going).
    Other,
}

/// What the receiving side does with an event.
#[derive(Debug, PartialEq, Eq)]
pub enum Dispatch {
    /// Hand this text to the user interface.
    Deliver(String),
    /// Drop the message, for this reason.
    Drop(RoomError),
    /// Note the loss and go on.
    Lagged,
    /// Nothing to do.
    Ignore,
}

/// The text that message bytes carry, if they are UTF-8.
pub open spec fn delivered_text(b: Seq<u8>) -> Option<Seq<char>> {
    if valid_utf8(b) {
        Some(decode_utf8(b))
    } else {
        None
    }
}

/// Relies on String::from_utf8: it accepts exactly the valid UTF-8 byte
/// sequences and keeps their characters.
#[verifier::external_body]
fn text_from_utf8(b: Vec<u8>) -> (r: Option<String>)
    ensures
        r is Some <==> valid_utf8(b@),
        r is Some ==> r->Some_0@ == decode_utf8(b@),
{
    String::from_utf8(b).ok()
}

/// Decides what to do with one event of the transport.
pub fn dispatch_event(event: GossipEvent) -> (d: Dispatch)
    ensures
        event is Received ==> match delivered_text(event->Received_0@) {
            Some(text) => d is Deliver && d->Deliver_0@ == text,
            None => d is Drop && d->Drop_0 == RoomError::Encoding,
        },
        event is Lagged ==> d is Lagged,
        event is Other ==> d is Ignore,
{
    match event {
        GossipEvent::Received(bytes) => match text_from_utf8(bytes) {
            Some(text) => Dispatch::Deliver(text),
            None => Dispatch::Drop(RoomError::Encoding),
        },
        GossipEvent::Lagged => Dispatch::Lagged,
        GossipEvent::Other => Dispatch::Ignore,
    }
}

/// A chat message that one session sends reaches every receiver as the
/// same text.
pub proof fn lemma_sent_text_is_delivered(text: Seq<char>)
    ensures
        delivered_text(message_payload(text)) == Some(text),
{
    broadcast use vstd::utf8::encode_utf8_valid_utf8, vstd::utf8::encode_utf8_decode_utf8;

}

} // verus!
