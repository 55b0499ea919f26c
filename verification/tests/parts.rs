use discovery::action::{into_discovery_action, BehaviourAction, DiscoveryEvent, KademliaAction};
use discovery::delay::{QueryDelay, FIRST_DELAY_SECS, MAX_DELAY_SECS};
use discovery::display::render;
use discovery::peer::{addresses_of, PeerAddress, PeerSet};
use libp2p::kad::KademliaEvent;
use libp2p::{Multiaddr, PeerId};

fn address(text: &str) -> Multiaddr {
    text.parse().unwrap()
}

#[test]
fn delay_is_capped_power_of_two() {
    let mut delay = QueryDelay::new();
    let mut seen = Vec::new();
    for _ in 0..9 {
        seen.push(delay.secs());
        delay.advance();
    }
    assert_eq!(seen, vec![1, 2, 4, 8, 16, 32, 60, 60, 60]);
    assert_eq!((FIRST_DELAY_SECS, MAX_DELAY_SECS), (1, 60));
}

#[test]
fn delay_grows_within_bounds() {
    let mut delay = QueryDelay::new();
    for _ in 0..100 {
        let before = delay.secs();
        delay.advance();
        assert!(before <= delay.secs());
        assert!(delay.secs() <= 60);
    }
}

#[test]
fn peer_set_holds_each_peer_once() {
    let (p, q, r) = (PeerId::random(), PeerId::random(), PeerId::random());
    let mut set = PeerSet::new();
    assert!(set.members().is_empty());
    set.insert(p);
    set.insert(q);
    set.insert(p);
    set.insert(r);
    assert_eq!(set.members(), &vec![p, q, r]);
    set.remove(&q);
    set.remove(&q);
    assert_eq!(set.members(), &vec![p, r]);
}

#[test]
fn addresses_belong_to_the_peer() {
    let (p, q) = (PeerId::random(), PeerId::random());
    let list = vec![
        PeerAddress { address: address("/ip4/10.0.0.1/tcp/1"), peer_id: p },
        PeerAddress { address: address("/ip4/10.0.0.2/tcp/2"), peer_id: q },
        PeerAddress { address: address("/ip4/10.0.0.3/tcp/3"), peer_id: p },
        PeerAddress { address: address("/ip4/10.0.0.1/tcp/1"), peer_id: p },
    ];
    assert_eq!(
        addresses_of(&list, &p),
        vec![
            address("/ip4/10.0.0.1/tcp/1"),
            address("/ip4/10.0.0.3/tcp/3"),
            address("/ip4/10.0.0.1/tcp/1"),
        ]
    );
    assert_eq!(addresses_of(&list, &q), vec![address("/ip4/10.0.0.2/tcp/2")]);
    assert!(addresses_of(&list, &PeerId::random()).is_empty());
}

#[test]
fn copies_of_entries_are_the_same() {
    let p = PeerId::random();
    let entry = PeerAddress { address: address("/ip4/10.0.0.1/tcp/1"), peer_id: p };
    let copy = entry.clone();
    assert_eq!((copy.address, copy.peer_id), (entry.address, entry.peer_id));
}

#[test]
fn kademlia_event_is_marked_as_such() {
    let p = PeerId::random();
    let action: KademliaAction<u8> =
        BehaviourAction::GenerateEvent(KademliaEvent::UnroutablePeer { peer: p });
    match into_discovery_action(action) {
        BehaviourAction::GenerateEvent(DiscoveryEvent::KademliaEvent(
            KademliaEvent::UnroutablePeer { peer },
        )) => assert_eq!(peer, p),
        _ => panic!("an event stays an event"),
    }
}

#[test]
fn rendering_writes_numbers_in_decimal() {
    let text = render(&Vec::new(), false, true, "soon", 60, 10, &Vec::new(), u64::MAX);
    assert_eq!(
        text,
        "{\n    user_defined [],\n    kademlia: false,\n    mdns: true,\n    \
         next_kad_random_query: soon,\n    duration_to_next_kad 60s,\n    \
         num_connection: 10,\n    peers: {},\n    discovery_max: 18446744073709551615\n}"
    );
    let text = render(&Vec::new(), true, false, "", 7, 1023456789, &Vec::new(), 0);
    assert!(text.contains("kad 7s,"));
    assert!(text.contains("num_connection: 1023456789,"));
    assert!(text.contains("discovery_max: 0\n"));
}
