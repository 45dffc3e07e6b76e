use vstd::prelude::*;

verus! {

/// The identifier of a peer: the 32 bytes of its public key.
pub type PeerId = [u8; 32];

/// A peer of a room: its identifier and the endpoints that reach it, each
/// in textual form (a socket address or a relay URL).
#[derive(Debug, Clone, PartialEq, Eq)]
pub struct PeerAddress {
    pub id: PeerId,
    pub addrs: Vec<String>,
}

/// A room: the identifier its gossip topic is derived from, and the peers
/// that are in it, in the order they joined.
#[derive(Debug, Clone, PartialEq, Eq)]
pub struct RoomTicket {
    pub topic_id: String,
    pub current_peers: Vec<PeerAddress>,
}

/// What a peer address holds, as mathematical values.
pub ghost struct PeerModel {
    pub id: Seq<u8>,
    pub addrs: Seq<Seq<char>>,
}

/// What a ticket holds, as mathematical values.
pub ghost struct TicketModel {
    pub topic: Seq<char>,
    pub peers: Seq<PeerModel>,
}

impl View for PeerAddress {
    type V = PeerModel;

    open spec fn view(&self) -> PeerModel {
        PeerModel { id: self.id@, addrs: self.addrs@.map_values(|s: String| s@) }
    }
}

pub open spec fn peers_view(peers: Seq<PeerAddress>) -> Seq<PeerModel> {
    peers.map_values(|p: PeerAddress| p@)
}

impl View for RoomTicket {
    type V = TicketModel;

    open spec fn view(&self) -> TicketModel {
        TicketModel { topic: self.topic_id@, peers: peers_view(self.current_peers@) }
    }
}

/// Whether some peer of `peers` has identifier `id`.
pub open spec fn has_peer_id(peers: Seq<PeerModel>, id: Seq<u8>) -> bool {
    exists|i: int| 0 <= i < peers.len() && #[trigger] peers[i].id == id
}

/// No two peers of `peers` share an identifier.
pub open spec fn unique_ids(peers: Seq<PeerModel>) -> bool {
    forall|i: int, j: int|
        0 <= i < peers.len() && 0 <= j < peers.len() && i != j ==> #[trigger] peers[i].id
            != #[trigger] peers[j].id
}

/// The peers of `peers` other than the one with identifier `id`.
pub open spec fn without_peer(peers: Seq<PeerModel>, id: Seq<u8>) -> Seq<PeerModel> {
    peers.filter(other_than(id))
}

/// Holds of the peers whose identifier is not `id`.
pub open spec fn other_than(id: Seq<u8>) -> spec_fn(PeerModel) -> bool {
    |p: PeerModel| p.id != id
}

impl TicketModel {
    /// A ticket is well formed when no identifier is listed twice.
    pub open spec fn wf(self) -> bool {
        unique_ids(self.peers)
    }
}

/// Whether two identifiers are equal.
pub fn same_id(a: &PeerId, b: &PeerId) -> (r: bool)
    ensures
        r == (a@ == b@),
{
    let mut i: usize = 0;
    while i < 32
        invariant
            0 <= i <= 32,
            a@.len() == 32,
            b@.len() == 32,
            a@.subrange(0, i as int) == b@.subrange(0, i as int),
        decreases 32 - i,
    {
        if a[i] != b[i] {
            assert(a@[i as int] != b@[i as int]);
            return false;
        }
        assert(a@.subrange(0, i + 1) == a@.subrange(0, i as int).push(a@[i as int]));
        assert(b@.subrange(0, i + 1) == b@.subrange(0, i as int).push(b@[i as int]));
        i = i + 1;
    }
    assert(a@ == a@.subrange(0, 32));
    assert(b@ == b@.subrange(0, 32));
    true
}

impl PeerAddress {
    /// A copy of this address with the same contents.
    pub fn copy(&self) -> (r: PeerAddress)
        ensures
            r@ == self@,
    {
        let mut addrs: Vec<String> = Vec::new();
        let mut i: usize = 0;
        while i < self.addrs.len()
            invariant
                0 <= i <= self.addrs@.len(),
                addrs@.len() == i,
                forall|j: int| 0 <= j < i ==> #[trigger] addrs@[j]@ == self.addrs@[j]@,
            decreases self.addrs@.len() - i,
        {
            addrs.push(self.addrs[i].clone());
            i = i + 1;
        }
        let r = PeerAddress { id: self.id, addrs };
        assert(r@.addrs =~= self@.addrs);
        r
    }
}

impl RoomTicket {
    /// A new room whose only peer is its creator.
    pub fn new(topic_id: String, creator: PeerAddress) -> (t: RoomTicket)
        ensures
            t@.topic == topic_id@,
            t@.peers == seq![creator@],
            t@.peers.len() == 1,
            t@.wf(),
    {
        let t = RoomTicket { topic_id, current_peers: vec![creator] };
        assert(t@.peers =~= seq![creator@]);
        t
    }

    /// Whether a peer with identifier `id` is in the room.
    pub fn has_peer(&self, id: &PeerId) -> (r: bool)
        ensures
            r == has_peer_id(self@.peers, id@),
    {
        let mut i: usize = 0;
        while i < self.current_peers.len()
            invariant
                0 <= i <= self.current_peers@.len(),
                forall|j: int| 0 <= j < i ==> #[trigger] self@.peers[j].id != id@,
            decreases self.current_peers@.len() - i,
        {
            if same_id(&self.current_peers[i].id, id) {
                assert(self@.peers[i as int].id == id@);
                return true;
            }
            i = i + 1;
        }
        false
    }

    /// The identifiers of the peers, in order.
    pub fn peer_ids(&self) -> (ids: Vec<PeerId>)
        ensures
            ids@.len() == self@.peers.len(),
            forall|i: int| 0 <= i < ids@.len() ==> #[trigger] ids@[i]@ == self@.peers[i].id,
    {
        let mut ids: Vec<PeerId> = Vec::new();
        let mut i: usize = 0;
        while i < self.current_peers.len()
            invariant
                0 <= i <= self.current_peers@.len(),
                ids@.len() == i,
                forall|j: int| 0 <= j < i ==> #[trigger] ids@[j]@ == self@.peers[j].id,
            decreases self.current_peers@.len() - i,
        {
            ids.push(self.current_peers[i].id);
            i = i + 1;
        }
        ids
    }

    /// Appends `peer` unless a peer with its identifier is already listed;
    /// says whether it was appended.
    pub fn add_peer(&mut self, peer: PeerAddress) -> (added: bool)
        ensures
            added == !has_peer_id(old(self)@.peers, peer@.id),
            final(self)@.topic == old(self)@.topic,
            added ==> final(self)@.peers == old(self)@.peers.push(peer@),
            !added ==> final(self)@.peers == old(self)@.peers,
            old(self)@.wf() ==> final(self)@.wf(),
    {
        if self.has_peer(&peer.id) {
            false
        } else {
            let ghost before = self@.peers;
            self.current_peers.push(peer);
            assert(self@.peers =~= before.push(peer@));
            true
        }
    }

    /// Removes the peer with identifier `id`, keeping the others in order.
    pub fn remove_peer(&mut self, id: &PeerId)
        ensures
            final(self)@.topic == old(self)@.topic,
            final(self)@.peers == without_peer(old(self)@.peers, id@),
            old(self)@.wf() ==> final(self)@.wf(),
    {
        let ghost before = self@.peers;
        let mut kept: Vec<PeerAddress> = Vec::new();
        let mut i: usize = 0;
        while i < self.current_peers.len()
            invariant
                0 <= i <= self.current_peers@.len(),
                before == peers_view(self.current_peers@),
                peers_view(kept@) == without_peer(before.subrange(0, i as int), id@),
            decreases self.current_peers@.len() - i,
        {
            let ghost pre = peers_view(kept@);
            proof {
                reveal(Seq::filter);
                assert(before.subrange(0, i + 1).drop_last() =~= before.subrange(0, i as int));
            }
            if !same_id(&self.current_peers[i].id, id) {
                kept.push(self.current_peers[i].copy());
                assert(peers_view(kept@) =~= pre.push(before[i as int]));
            } else {
                assert(peers_view(kept@) =~= pre);
            }
            i = i + 1;
        }
        assert(before.subrange(0, before.len() as int) =~= before);
        self.current_peers = kept;
        proof {
            let out = without_peer(before, id@);
            before.lemma_filter_len(other_than(id@));
            assert forall|a: int, b: int|
                0 <= a < out.len() && 0 <= b < out.len() && a != b && old(self)@.wf() implies
                #[trigger] out[a].id != #[trigger] out[b].id by {
                lemma_filter_unique(before, id@);
            }
        }
    }
}

/// Filtering keeps identifiers unique.
proof fn lemma_filter_unique(peers: Seq<PeerModel>, id: Seq<u8>)
    requires
        unique_ids(peers),
    ensures
        unique_ids(without_peer(peers, id)),
    decreases peers.len(),
{
    broadcast use vstd::seq_lib::group_filter_ensures;

    reveal(Seq::filter);
    if peers.len() > 0 {
        let init = peers.drop_last();
        assert(unique_ids(init));
        lemma_filter_unique(init, id);
        let last = peers.last();
        let out = without_peer(peers, id);
        let sub = without_peer(init, id);
        if last.id != id {
            assert(out == sub.push(last));
            assert forall|k: int| 0 <= k < sub.len() implies #[trigger] sub[k].id != last.id by {
                assert(sub.contains(sub[k]));
                init.lemma_filter_contains_rev(other_than(id), sub[k]);
                let m = choose|m: int| 0 <= m < init.len() && init[m] == sub[k];
                assert(peers[m] == init[m]);
                assert(peers[peers.len() - 1] == last);
            }
            assert(unique_ids(out));
        } else {
            assert(out == sub);
        }
    }
}

} // verus!
