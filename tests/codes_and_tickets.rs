use gossip_rooms::code::join_code_from_sample;
use gossip_rooms::error::RoomError;
use gossip_rooms::room::{draw_join_code, topic_for};
use gossip_rooms::ticket::{same_id, PeerAddress, RoomTicket};

fn peer(seed: u8, addrs: &[&str]) -> PeerAddress {
    PeerAddress { id: [seed; 32], addrs: addrs.iter().map(|a| a.to_string()).collect() }
}

#[test]
fn join_code_keeps_leading_zeros() {
    assert_eq!(join_code_from_sample(42317), "042317");
    assert_eq!(join_code_from_sample(0), "000000");
    assert_eq!(join_code_from_sample(7), "000007");
}

#[test]
fn join_code_reduces_the_sample() {
    assert_eq!(join_code_from_sample(1_042_317), "042317");
    assert_eq!(join_code_from_sample(999_999), "999999");
    assert_eq!(join_code_from_sample(u32::MAX), "967295");
}

#[test]
fn drawn_join_codes_are_six_digits() {
    for _ in 0..200 {
        let code = draw_join_code();
        assert_eq!(code.len(), 6);
        assert!(code.chars().all(|c| c.is_ascii_digit()));
    }
}

#[test]
fn ticket_round_trips() {
    let mut t = RoomTicket::new("aa:bb:cc:dd:ee:ff".to_string(), peer(1, &["10.0.0.1:4433"]));
    t.add_peer(peer(2, &["https://relay.example/", "[::1]:7000"]));
    t.add_peer(peer(3, &[]));
    let bytes = t.to_bytes();
    assert_eq!(RoomTicket::from_bytes(&bytes), Ok(t));
}

#[test]
fn ticket_round_trips_with_unicode_and_no_peers() {
    let t = RoomTicket { topic_id: "salle-été-☕".to_string(), current_peers: vec![] };
    assert_eq!(RoomTicket::from_bytes(&t.to_bytes()), Ok(t));
}

#[test]
fn encoded_ticket_opens_with_kind_tag() {
    let t = RoomTicket::new("topic".to_string(), peer(9, &["1.2.3.4:5"]));
    let bytes = t.to_bytes();
    assert!(bytes.starts_with(b"room"));
    assert!(bytes.len() > 4 + 32);
}

#[test]
fn wrong_kind_tag_is_malformed() {
    let t = RoomTicket::new("topic".to_string(), peer(9, &[]));
    let mut bytes = t.to_bytes();
    bytes[0] = b'R';
    assert_eq!(RoomTicket::from_bytes(&bytes), Err(RoomError::MalformedTicket));
}

#[test]
fn short_or_truncated_bytes_are_malformed() {
    assert_eq!(RoomTicket::from_bytes(b""), Err(RoomError::MalformedTicket));
    assert_eq!(RoomTicket::from_bytes(b"roo"), Err(RoomError::MalformedTicket));
    assert_eq!(RoomTicket::from_bytes(b"room"), Err(RoomError::MalformedTicket));
    let t = RoomTicket::new("topic".to_string(), peer(9, &["1.2.3.4:5"]));
    let bytes = t.to_bytes();
    assert_eq!(
        RoomTicket::from_bytes(&bytes[..bytes.len() - 3]),
        Err(RoomError::MalformedTicket)
    );
}

#[test]
fn new_ticket_holds_only_its_creator() {
    let t = RoomTicket::new("topic".to_string(), peer(1, &["1.2.3.4:5"]));
    assert_eq!(t.current_peers, vec![peer(1, &["1.2.3.4:5"])]);
    assert_eq!(t.topic_id, "topic");
}

#[test]
fn add_peer_refuses_a_listed_identifier() {
    let mut t = RoomTicket::new("topic".to_string(), peer(1, &[]));
    assert!(t.add_peer(peer(2, &[])));
    assert!(!t.add_peer(peer(1, &["9.9.9.9:9"])));
    assert_eq!(t.current_peers, vec![peer(1, &[]), peer(2, &[])]);
}

#[test]
fn remove_peer_keeps_the_others_in_order() {
    let mut t = RoomTicket::new("topic".to_string(), peer(1, &[]));
    t.add_peer(peer(2, &[]));
    t.add_peer(peer(3, &[]));
    t.remove_peer(&[2; 32]);
    assert_eq!(t.current_peers, vec![peer(1, &[]), peer(3, &[])]);
    t.remove_peer(&[7; 32]);
    assert_eq!(t.current_peers, vec![peer(1, &[]), peer(3, &[])]);
}

#[test]
fn peer_lookup_and_ids() {
    let mut t = RoomTicket::new("topic".to_string(), peer(1, &[]));
    t.add_peer(peer(4, &[]));
    assert!(t.has_peer(&[4; 32]));
    assert!(!t.has_peer(&[5; 32]));
    assert_eq!(t.peer_ids(), vec![[1; 32], [4; 32]]);
    let mut other = [1u8; 32];
    assert!(same_id(&[1; 32], &other));
    other[31] = 2;
    assert!(!same_id(&[1; 32], &other));
}

#[test]
fn copied_peer_is_equal() {
    let p = peer(6, &["a", "b"]);
    assert_eq!(p.copy(), p);
}

#[test]
fn topic_is_the_blake3_digest_of_the_identifier() {
    let topic = topic_for(&"aa:bb:cc:dd:ee:ff".to_string());
    assert_eq!(topic, *blake3::hash(b"aa:bb:cc:dd:ee:ff").as_bytes());
    assert_ne!(topic, topic_for(&"aa:bb:cc:dd:ee:fe".to_string()));
}
