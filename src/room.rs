use vstd::prelude::*;
use vstd::utf8::encode_utf8;
use crate::code::{code_text, join_code_from_sample, CODE_SPACE};
use crate::codec::{ticket_decoding, ticket_encoding};
use crate::error::RoomError;
use crate::ticket::{
    has_peer_id, unique_ids, without_peer, PeerAddress, PeerId, PeerModel, RoomTicket,
    TicketModel,
};

verus! {

/// The BLAKE3 digest of `data`.
pub uninterp spec fn blake3_of(data: Seq<u8>) -> Seq<u8>;

/// Relies on blake3::hash: the 32-byte BLAKE3 digest of the input.
#[verifier::external_body]
fn blake3_digest(data: &[u8]) -> (r: [u8; 32])
    ensures
        r@ == blake3_of(data@),
{
    *blake3::hash(data).as_bytes()
}

pub assume_specification<T>[ rand::random::<T> ]() -> (r: T)
    where
        rand::distr::StandardUniform: rand::distr::Distribution<T>,
;

/// The gossip topic of a room: the digest of its identifier's UTF-8 bytes.
pub open spec fn topic_of(topic_id: Seq<char>) -> Seq<u8> {
    blake3_of(encode_utf8(topic_id))
}

/// The gossip topic that a room identifier names.
pub fn topic_for(topic_id: &String) -> (topic: [u8; 32])
    ensures
        topic@ == topic_of(topic_id@),
{
    blake3_digest(topic_id.as_str().as_bytes())
}

/// A join code drawn uniformly at random.
pub fn draw_join_code() -> (code: String)
    ensures
        exists|n: nat| n < CODE_SPACE && code@ == #[trigger] code_text(n),
{
    let sample: u32 = rand::random::<u32>();
    let code = join_code_from_sample(sample);
    assert(code@ == code_text((sample % CODE_SPACE) as nat));
    code
}

/// What a new room needs: its topic, its ticket and the ticket's stored form.
#[derive(Debug)]
pub struct NewRoom {
    pub topic: [u8; 32],
    pub ticket: RoomTicket,
    pub stored: Vec<u8>,
}

/// Opens a room named `topic_id` whose only peer is `creator`.
pub fn new_room(topic_id: String, creator: PeerAddress) -> (r: NewRoom)
    ensures
        r.topic@ == topic_of(topic_id@),
        r.ticket@ == (TicketModel { topic: topic_id@, peers: seq![creator@] }),
        r.ticket@.peers.len() == 1,
        r.ticket@.wf(),
        r.stored@ == ticket_encoding(r.ticket@),
{
    let topic = topic_for(&topic_id);
    let ticket = RoomTicket::new(topic_id, creator);
    let stored = ticket.to_bytes();
    NewRoom { topic, ticket, stored }
}

/// What joining a room needs: its topic, the peers to reach it through, the
/// ticket with the local peer added and that ticket's stored form.
#[derive(Debug)]
pub struct JoinedRoom {
    pub topic: [u8; 32],
    pub bootstrap: Vec<PeerId>,
    pub ticket: RoomTicket,
    pub stored: Vec<u8>,
}

/// The ids of `peers`, in order.
pub open spec fn ids_of(peers: Seq<PeerModel>) -> Seq<Seq<u8>> {
    peers.map_values(|p: PeerModel| p.id)
}

/// Joins the room whose ticket is stored as `stored`, as `local`.
pub fn join_ticket(stored: &[u8], local: PeerAddress) -> (r: Result<JoinedRoom, RoomError>)
    ensures
        // Bytes that a ticket was written to decode to that ticket.
        forall|t: RoomTicket|
            stored@ == #[trigger] ticket_encoding(t@) ==> ticket_decoding(stored@) == Some(t@),
        r is Ok <==> ticket_decoding(stored@) is Some,
        r is Err ==> r->Err_0 == RoomError::MalformedTicket,
        r is Ok ==> ({
            let before = ticket_decoding(stored@)->Some_0;
            let j = r->Ok_0;
            &&& j.topic@ == topic_of(before.topic)
            &&& j.bootstrap@.map_values(|id: PeerId| id@) == ids_of(before.peers)
            &&& j.ticket@.topic == before.topic
            &&& has_peer_id(before.peers, local@.id) ==> j.ticket@.peers == before.peers
            &&& !has_peer_id(before.peers, local@.id) ==> j.ticket@.peers == before.peers.push(
                local@,
            )
            &&& !has_peer_id(before.peers, local@.id) ==> j.ticket@.peers.len()
                == before.peers.len() + 1
            &&& before.wf() ==> j.ticket@.wf()
            &&& j.stored@ == ticket_encoding(j.ticket@)
        }),
{
    let mut ticket = RoomTicket::from_bytes(stored)?;
    let topic = topic_for(&ticket.topic_id);
    let bootstrap = ticket.peer_ids();
    assert(bootstrap@.map_values(|id: PeerId| id@) =~= ids_of(ticket@.peers));
    ticket.add_peer(local);
    let stored = ticket.to_bytes();
    Ok(JoinedRoom { topic, bootstrap, ticket, stored })
}

/// What leaving does to the directory entry of a room.
#[derive(Debug, PartialEq, Eq)]
pub enum DirectoryChange {
    /// The room is empty: its entry goes.
    Delete,
    /// The entry is rewritten with these bytes.
    Update(Vec<u8>),
}

/// Leaves the room whose ticket is stored as `stored`, as the peer `local_id`.
pub fn leave_ticket(stored: &[u8], local_id: &PeerId) -> (r: Result<DirectoryChange, RoomError>)
    ensures
        // Bytes that a ticket was written to decode to that ticket.
        forall|t: RoomTicket|
            stored@ == #[trigger] ticket_encoding(t@) ==> ticket_decoding(stored@) == Some(t@),
        r is Ok <==> ticket_decoding(stored@) is Some,
        r is Err ==> r->Err_0 == RoomError::MalformedTicket,
        r is Ok ==> ({
            let before = ticket_decoding(stored@)->Some_0;
            let rest = without_peer(before.peers, local_id@);
            &&& (r->Ok_0 is Delete <==> rest.len() == 0)
            &&& r->Ok_0 is Update ==> r->Ok_0->Update_0@ == ticket_encoding(
                TicketModel { topic: before.topic, peers: rest },
            )
        }),
        // The last peer to leave deletes the entry.
        ticket_decoding(stored@) is Some && ({
            let before = ticket_decoding(stored@)->Some_0;
            before.peers.len() == 1 && before.peers[0].id == local_id@
        }) ==> r is Ok && r->Ok_0 is Delete,
        // Any other member leaving removes itself alone and keeps the entry.
        ticket_decoding(stored@) is Some && ({
            let before = ticket_decoding(stored@)->Some_0;
            before.wf() && before.peers.len() > 1 && has_peer_id(before.peers, local_id@)
        }) ==> r is Ok && r->Ok_0 is Update && without_peer(
            ticket_decoding(stored@)->Some_0.peers,
            local_id@,
        ).len() == ticket_decoding(stored@)->Some_0.peers.len() - 1,
{
    let mut ticket = RoomTicket::from_bytes(stored)?;
    let ghost before = ticket@;
    ticket.remove_peer(local_id);
    proof {
        if before.wf() && has_peer_id(before.peers, local_id@) {
            lemma_without_member_len(before.peers, local_id@);
        }
        if before.peers.len() == 1 && before.peers[0].id == local_id@ {
            reveal(Seq::filter);
            assert(before.peers.drop_last() =~= Seq::<PeerModel>::empty());
            assert(without_peer(before.peers, local_id@) =~= Seq::<PeerModel>::empty());
        }
    }
    if ticket.current_peers.len() == 0 {
        Ok(DirectoryChange::Delete)
    } else {
        Ok(DirectoryChange::Update(ticket.to_bytes()))
    }
}

/// Taking a listed peer out of a list without repeated identifiers
/// shortens it by one.
proof fn lemma_without_member_len(peers: Seq<PeerModel>, id: Seq<u8>)
    requires
        unique_ids(peers),
        has_peer_id(peers, id),
    ensures
        without_peer(peers, id).len() == peers.len() - 1,
    decreases peers.len(),
{
    reveal(Seq::filter);
    let init = peers.drop_last();
    assert(unique_ids(init));
    if peers.last().id == id {
        assert(!has_peer_id(init, id)) by {
            if has_peer_id(init, id) {
                let i = choose|i: int| 0 <= i < init.len() && #[trigger] init[i].id == id;
                assert(peers[i].id == peers[peers.len() - 1].id);
            }
        }
        lemma_without_absent(init, id);
    } else {
        let i = choose|i: int| 0 <= i < peers.len() && #[trigger] peers[i].id == id;
        assert(init[i].id == id);
        lemma_without_member_len(init, id);
    }
}

/// Taking an unlisted peer out of a list leaves it as it was.
proof fn lemma_without_absent(peers: Seq<PeerModel>, id: Seq<u8>)
    requires
        !has_peer_id(peers, id),
    ensures
        without_peer(peers, id) == peers,
    decreases peers.len(),
{
    reveal(Seq::filter);
    if peers.len() > 0 {
        let init = peers.drop_last();
        assert(!has_peer_id(init, id)) by {
            if has_peer_id(init, id) {
                let i = choose|i: int| 0 <= i < init.len() && #[trigger] init[i].id == id;
                assert(peers[i].id == id);
            }
        }
        assert(peers.last().id != id) by {
            assert(peers[peers.len() - 1].id == peers.last().id);
        }
        lemma_without_absent(init, id);
        assert(peers == init.push(peers.last()));
    }
}

/// A peer that joins a room and then leaves it leaves the room's peers
/// as they were before it joined.
pub proof fn lemma_leave_undoes_join(before: TicketModel, local: PeerModel)
    requires
        !has_peer_id(before.peers, local.id),
    ensures
        without_peer(before.peers.push(local), local.id) == before.peers,
{
    reveal(Seq::filter);
    assert(before.peers.push(local).drop_last() == before.peers);
    lemma_without_absent(before.peers, local.id);
}

} // verus!
