use vstd::prelude::*;
use vstd::slice::slice_subrange;
use crate::error::RoomError;
use crate::ticket::{PeerAddress, PeerId, RoomTicket, TicketModel};

verus! {

#[verifier::external_type_specification]
#[verifier::external_body]
pub struct ExPostcardError(postcard::Error);

/// The postcard bytes of a ticket's fields, in order.
pub uninterp spec fn postcard_ticket_bytes(t: TicketModel) -> Seq<u8>;

/// The ticket that postcard reads from the start of `b`, if it reads one.
pub uninterp spec fn postcard_ticket_value(b: Seq<u8>) -> Option<TicketModel>;

/// Relies on postcard::to_stdvec writing the topic, then each peer's
/// identifier and endpoints. Writing into a vector never fails there: its
/// flavor's writes always succeed and every sequence has a known length.
#[verifier::external_body]
fn postcard_encode(t: &RoomTicket) -> (r: Vec<u8>)
    ensures
        r@ == postcard_ticket_bytes(t@),
{
    let peers: Vec<(&PeerId, &Vec<String>)> =
        t.current_peers.iter().map(|p| (&p.id, &p.addrs)).collect();
    postcard::to_stdvec(&(&t.topic_id, &peers)).unwrap_or_default()
}

/// Relies on postcard::from_bytes reading back what postcard::to_stdvec
/// wrote for the same fields, and on its result depending on the bytes alone.
#[verifier::external_body]
fn postcard_decode(b: &[u8]) -> (r: Result<RoomTicket, postcard::Error>)
    ensures
        r is Ok <==> postcard_ticket_value(b@) is Some,
        r is Ok ==> r->Ok_0@ == postcard_ticket_value(b@)->Some_0,
        forall|t: RoomTicket|
            b@ == #[trigger] postcard_ticket_bytes(t@) ==> (r is Ok && r->Ok_0@ == t@),
{
    postcard::from_bytes::<(String, Vec<(PeerId, Vec<String>)>)>(b).map(
        |(topic_id, peers)|
            RoomTicket {
                topic_id,
                current_peers: peers.into_iter().map(|(id, addrs)| PeerAddress { id, addrs }).collect(),
            },
    )
}

/// The tag that opens every encoded ticket: "room" in ASCII.
pub open spec fn kind_tag() -> Seq<u8> {
    seq![0x72u8, 0x6fu8, 0x6fu8, 0x6du8]
}

/// The bytes a ticket is stored as: the kind tag, then its postcard bytes.
pub open spec fn ticket_encoding(t: TicketModel) -> Seq<u8> {
    kind_tag() + postcard_ticket_bytes(t)
}

/// The ticket that stored bytes hold, if they hold one.
pub open spec fn ticket_decoding(b: Seq<u8>) -> Option<TicketModel> {
    if b.len() >= 4 && b.subrange(0, 4) == kind_tag() {
        postcard_ticket_value(b.subrange(4, b.len() as int))
    } else {
        None
    }
}

impl RoomTicket {
    /// The ticket's stored form.
    pub fn to_bytes(&self) -> (b: Vec<u8>)
        ensures
            b@ == ticket_encoding(self@),
    {
        let mut b: Vec<u8> = vec![0x72u8, 0x6fu8, 0x6fu8, 0x6du8];
        let mut body = postcard_encode(self);
        b.append(&mut body);
        assert(b@ =~= ticket_encoding(self@));
        b
    }

    /// Reads a ticket from its stored form. Bytes that another ticket was
    /// written to give back that ticket.
    pub fn from_bytes(b: &[u8]) -> (r: Result<RoomTicket, RoomError>)
        ensures
            r is Ok <==> ticket_decoding(b@) is Some,
            r is Ok ==> r->Ok_0@ == ticket_decoding(b@)->Some_0,
            r is Err ==> r->Err_0 == RoomError::MalformedTicket,
            forall|t: RoomTicket|
                b@ == #[trigger] ticket_encoding(t@) ==> (r is Ok && r->Ok_0@ == t@),
    {
        if b.len() < 4 || b[0] != 0x72u8 || b[1] != 0x6fu8 || b[2] != 0x6fu8 || b[3] != 0x6du8 {
            assert(b.len() >= 4 ==> b@.subrange(0, 4) != kind_tag()) by {
                if b.len() >= 4 {
                    assert(b@.subrange(0, 4)[0] == b@[0]);
                    assert(b@.subrange(0, 4)[1] == b@[1]);
                    assert(b@.subrange(0, 4)[2] == b@[2]);
                    assert(b@.subrange(0, 4)[3] == b@[3]);
                }
            }
            assert forall|t: RoomTicket| b@ != #[trigger] ticket_encoding(t@) by {
                let e = ticket_encoding(t@);
                if b@ == e {
                    assert(e.subrange(0, 4) =~= kind_tag());
                }
            }
            return Err(RoomError::MalformedTicket);
        }
        assert(b@.subrange(0, 4) =~= kind_tag());
        let body = slice_subrange(b, 4, b.len());
        assert forall|t: RoomTicket|
            b@ == #[trigger] ticket_encoding(t@) implies body@ == postcard_ticket_bytes(t@) by {
            assert(b@.subrange(4, b@.len() as int) =~= postcard_ticket_bytes(t@));
        }
        match postcard_decode(body) {
            Ok(t) => Ok(t),
            Err(_) => Err(RoomError::MalformedTicket),
        }
    }
}

} // verus!
