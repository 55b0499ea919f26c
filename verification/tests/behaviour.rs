use discovery::action::{BehaviourAction, DiscoveryEvent, PollInput, PollStep};
use discovery::behaviour::DiscoveryBehaviour;
use discovery::config::DiscoveryConfigBuilder;
use discovery::error::Error;
use discovery::mdns::MdnsEvent;
use discovery::peer::PeerAddress;
use libp2p::kad::handler::KademliaHandlerEvent;
use libp2p::kad::kbucket::NodeStatus;
use libp2p::kad::protocol::KadPeer;
use libp2p::kad::{KadConnectionType, QueryInfo};
use libp2p::mdns::{Mdns, MdnsConfig};
use libp2p::swarm::{
    AddressScore, CloseConnection, DialError, DialPeerCondition, IntoProtocolsHandler,
    NotifyHandler,
};
use libp2p::{Multiaddr, PeerId};

type Step = PollStep<u8>;
type Input = PollInput<char, bool, u8>;

const FIRST: &str = "/ip4/10.0.0.1/tcp/1";
const SECOND: &str = "/ip4/10.0.0.2/tcp/2";
const THIRD: &str = "/ip4/10.0.0.3/tcp/3";

fn address(text: &str) -> Multiaddr {
    text.parse().unwrap()
}

fn entry(text: &str, peer_id: PeerId) -> PeerAddress {
    PeerAddress {
        address: address(text),
        peer_id,
    }
}

fn with(kademlia: bool, limit: u64, user_defined: Vec<PeerAddress>) -> DiscoveryBehaviour {
    let mut builder = DiscoveryConfigBuilder::default();
    builder
        .with_mdns(false)
        .with_kademlia(kademlia)
        .discovery_limit(limit)
        .with_user_defined(user_defined);
    DiscoveryBehaviour::new(PeerId::random(), builder.build().unwrap(), None).unwrap()
}

fn poll(behaviour: &mut DiscoveryBehaviour, input: Input) -> Step {
    behaviour.poll(input)
}

fn establish(behaviour: &mut DiscoveryBehaviour, peer_id: &PeerId, failed: Option<&Vec<Multiaddr>>) {
    behaviour.inject_connection_established(
        peer_id,
        &libp2p::core::connection::ConnectionId::new(1),
        &libp2p::core::ConnectedPoint::Dialer {
            address: address(FIRST),
        },
        failed,
    );
}

fn close(behaviour: &mut DiscoveryBehaviour, peer_id: &PeerId) {
    let endpoint = libp2p::core::ConnectedPoint::Dialer {
        address: address(FIRST),
    };
    let handler = behaviour.new_handler().into_handler(peer_id, &endpoint);
    behaviour.inject_connection_closed(
        peer_id,
        &libp2p::core::connection::ConnectionId::new(1),
        &endpoint,
        handler,
    );
}

fn listener() -> libp2p::core::connection::ListenerId {
    libp2p::core::connection::ListenersStream::new(
        libp2p::core::transport::MemoryTransport::default(),
    )
    .listen_on(address("/memory/0"))
    .unwrap()
}

fn known(behaviour: &mut DiscoveryBehaviour, peer_id: &PeerId) -> Vec<Multiaddr> {
    let all = behaviour.addresses_of_peer(peer_id);
    let own = behaviour.join_addresses(peer_id, Vec::new(), Vec::new());
    all[own.len()..].to_vec()
}

fn searches(behaviour: &DiscoveryBehaviour) -> Vec<Vec<u8>> {
    behaviour
        .kademlia
        .as_ref()
        .unwrap()
        .iter_queries()
        .filter_map(|query| match query.info() {
            QueryInfo::GetClosestPeers { key } => Some(key.clone()),
            _ => None,
        })
        .collect()
}

fn bootstraps(behaviour: &DiscoveryBehaviour) -> usize {
    behaviour
        .kademlia
        .as_ref()
        .unwrap()
        .iter_queries()
        .filter(|query| matches!(query.info(), QueryInfo::Bootstrap { .. }))
        .count()
}

fn status(behaviour: &mut DiscoveryBehaviour, peer_id: &PeerId) -> Option<NodeStatus> {
    let mut found = None;
    for bucket in behaviour.kademlia.as_mut().unwrap().kbuckets() {
        for view in bucket.iter() {
            if view.node.key.preimage() == peer_id {
                found = Some(view.status);
            }
        }
    }
    found
}

fn period(behaviour: &DiscoveryBehaviour) -> String {
    let text = format!("{:?}", behaviour.next_kad_random_query.as_ref().unwrap());
    let start = text.rfind("interval: ").unwrap();
    text[start..].to_string()
}

#[test]
fn user_peers_are_offered_first() {
    let (p, q) = (PeerId::random(), PeerId::random());
    let mut behaviour = with(true, 10, vec![entry(FIRST, p), entry(SECOND, q)]);
    assert_eq!(known(&mut behaviour, &p), vec![address(FIRST)]);
    assert_eq!(known(&mut behaviour, &q), vec![address(SECOND)]);
    assert_eq!(bootstraps(&behaviour), 1);
    assert!(!behaviour.bootstrap_failed());
    assert!(behaviour.peers().members().is_empty());
    assert_eq!(
        behaviour.kademlia.as_ref().unwrap().protocol_name(),
        b"/anoma/kad/anoma/kad/1.0.0"
    );
}

#[test]
fn bootstrap_without_peers_is_no_error() {
    let behaviour = with(true, 10, Vec::new());
    assert_eq!(bootstraps(&behaviour), 0);
    assert!(behaviour.bootstrap_failed());
    assert!(behaviour.peers().members().is_empty());
}

#[test]
fn local_peer_is_the_one_of_kademlia() {
    let local = PeerId::random();
    let mut builder = DiscoveryConfigBuilder::default();
    builder
        .with_mdns(false)
        .with_user_defined(vec![entry(FIRST, local), entry(SECOND, PeerId::random())]);
    let mut behaviour = DiscoveryBehaviour::new(local, builder.build().unwrap(), None).unwrap();
    // Kademlia does not route to itself.
    assert_eq!(known(&mut behaviour, &local), Vec::<Multiaddr>::new());
    assert_eq!(behaviour.addresses_of_peer(&local), vec![address(FIRST)]);
}

#[test]
fn disabled_kademlia_is_left_alone() {
    let p = PeerId::random();
    let mut behaviour = with(false, 10, vec![entry(FIRST, p)]);
    assert!(!behaviour.kademlia.is_enabled());
    assert!(!behaviour.bootstrap_failed());
    behaviour.mdns_discovered(vec![(p, address(SECOND))]);
    behaviour.random_query(p);
    behaviour.inject_connected(&p);
    establish(&mut behaviour, &p, None);
    assert!(!behaviour.kademlia.is_enabled());
    assert_eq!(behaviour.addresses_of_peer(&p), vec![address(FIRST)]);
}

#[test]
fn failed_mdns_is_an_error() {
    let config = DiscoveryConfigBuilder::default().build().unwrap();
    let reason = std::io::Error::new(std::io::ErrorKind::AddrInUse, "taken");
    match DiscoveryBehaviour::new(PeerId::random(), config, Some(Err(reason))) {
        Err(Error::FailedMdns(reason)) => assert_eq!(reason.to_string(), "taken"),
        _ => panic!("multicast DNS failed"),
    }
}

#[test]
fn started_mdns_is_enabled() {
    let runtime = tokio::runtime::Runtime::new().unwrap();
    let mdns = match runtime.block_on(Mdns::new(MdnsConfig::default())) {
        Ok(mdns) => mdns,
        // There is no network to be had.
        Err(_) => return,
    };
    let p = PeerId::random();
    let mut builder = DiscoveryConfigBuilder::default();
    let config = builder
        .with_user_defined(vec![entry(FIRST, p)])
        .with_kademlia(false)
        .build()
        .unwrap();
    let mut behaviour =
        DiscoveryBehaviour::new(PeerId::random(), config, Some(Ok(mdns))).unwrap();
    assert!(behaviour.mdns.is_enabled());
    assert_eq!(behaviour.addresses_of_peer(&p), vec![address(FIRST)]);
    assert!(behaviour.display().contains("\n    mdns: true,\n"));
}

#[test]
fn addresses_come_in_order_of_source() {
    let (p, q) = (PeerId::random(), PeerId::random());
    let mut behaviour = with(
        true,
        10,
        vec![entry(FIRST, p), entry(SECOND, q), entry(THIRD, p)],
    );
    assert_eq!(
        behaviour.addresses_of_peer(&p),
        vec![address(FIRST), address(THIRD), address(FIRST), address(THIRD)]
    );
    assert_eq!(
        behaviour.join_addresses(&p, vec![address(SECOND)], vec![address(FIRST)]),
        vec![address(FIRST), address(THIRD), address(SECOND), address(FIRST)]
    );
}

#[test]
fn addresses_of_the_table_come_before_those_of_queries() {
    let (p, q) = (PeerId::random(), PeerId::random());
    let mut behaviour = with(true, 10, vec![entry(FIRST, q)]);
    let user_data = behaviour.kademlia.as_mut().unwrap().get_closest_peers(p);
    let closer = KadPeer {
        node_id: p,
        multiaddrs: vec![address(SECOND)],
        connection_ty: KadConnectionType::NotConnected,
    };
    let event = KademliaHandlerEvent::FindNodeRes { closer_peers: vec![closer], user_data };
    behaviour.inject_connected(&q);
    behaviour.inject_event(q, libp2p::core::connection::ConnectionId::new(1), event);
    assert_eq!(known(&mut behaviour, &p), vec![address(SECOND)]);
    behaviour.mdns_discovered(vec![(p, address(THIRD))]);
    assert_eq!(known(&mut behaviour, &p), vec![address(THIRD), address(SECOND)]);
}

#[test]
fn addresses_of_unknown_peer_are_none() {
    let mut behaviour = with(true, 10, vec![entry(FIRST, PeerId::random())]);
    assert_eq!(
        behaviour.addresses_of_peer(&PeerId::random()),
        Vec::<Multiaddr>::new()
    );
}

#[test]
fn events_are_reported_in_order() {
    let (p, q) = (PeerId::random(), PeerId::random());
    let mut behaviour = with(true, 10, Vec::new());
    behaviour.inject_connected(&p);
    behaviour.inject_connected(&q);
    behaviour.inject_disconnected(&p);
    let mut seen = Vec::new();
    for _ in 0..3 {
        match poll(&mut behaviour, PollInput::Start) {
            PollStep::Ready(BehaviourAction::GenerateEvent(DiscoveryEvent::Connected(id))) => {
                seen.push((true, id))
            }
            PollStep::Ready(BehaviourAction::GenerateEvent(DiscoveryEvent::Disconnected(id))) => {
                seen.push((false, id))
            }
            _ => panic!("there are pending events"),
        }
    }
    assert_eq!(seen, vec![(true, p), (true, q), (false, p)]);
    assert!(matches!(
        poll(&mut behaviour, PollInput::Start),
        PollStep::PollKademlia
    ));
}

#[test]
fn peers_follow_the_last_word() {
    let (p, q, r) = (PeerId::random(), PeerId::random(), PeerId::random());
    let mut behaviour = with(true, 10, vec![entry(FIRST, r)]);
    assert!(!behaviour.peers().contains(&r));
    behaviour.inject_connected(&p);
    behaviour.inject_connected(&q);
    behaviour.inject_connected(&p);
    assert_eq!(behaviour.peers().members(), &vec![p, q]);
    assert!(behaviour.peers().contains(&q));
    behaviour.inject_disconnected(&p);
    assert_eq!(behaviour.peers().members(), &vec![q]);
    behaviour.inject_disconnected(&p);
    assert_eq!(behaviour.peers().members(), &vec![q]);
    behaviour.inject_connected(&p);
    assert_eq!(behaviour.peers().members(), &vec![q, p]);
}

#[test]
fn kademlia_is_told_of_connections() {
    let p = PeerId::random();
    let mut behaviour = with(true, 10, Vec::new());
    behaviour.inject_connected(&p);
    behaviour.mdns_discovered(vec![(p, address(FIRST))]);
    assert_eq!(status(&mut behaviour, &p), Some(NodeStatus::Connected));
    behaviour.inject_disconnected(&p);
    assert_eq!(status(&mut behaviour, &p), Some(NodeStatus::Disconnected));
}

#[test]
fn kademlia_is_told_of_failed_addresses() {
    let p = PeerId::random();
    let mut behaviour = with(true, 10, Vec::new());
    behaviour.mdns_discovered(vec![(p, address(FIRST)), (p, address(SECOND))]);
    assert_eq!(known(&mut behaviour, &p), vec![address(FIRST), address(SECOND)]);
    establish(&mut behaviour, &p, Some(&vec![address(FIRST)]));
    assert_eq!(known(&mut behaviour, &p), vec![address(SECOND)]);
}

#[test]
fn kademlia_is_told_of_changed_addresses() {
    let p = PeerId::random();
    let mut behaviour = with(true, 10, Vec::new());
    behaviour.mdns_discovered(vec![(p, address(FIRST))]);
    let old = libp2p::core::ConnectedPoint::Dialer { address: address(FIRST) };
    let new = libp2p::core::ConnectedPoint::Dialer { address: address(SECOND) };
    let connection = libp2p::core::connection::ConnectionId::new(1);
    behaviour.inject_address_change(&p, &connection, &old, &new);
    assert_eq!(known(&mut behaviour, &p), vec![address(SECOND)]);
}

#[test]
fn kademlia_is_told_of_handler_events() {
    let p = PeerId::random();
    let mut behaviour = with(true, 10, Vec::new());
    let event = || KademliaHandlerEvent::ProtocolConfirmed {
        endpoint: libp2p::core::ConnectedPoint::Dialer { address: address(SECOND) },
    };
    assert!(!behaviour.accepts_event(&p, &event()));
    behaviour.inject_connected(&p);
    assert!(behaviour.accepts_event(&p, &event()));
    let connection = libp2p::core::connection::ConnectionId::new(1);
    behaviour.inject_event(p, connection, event());
    assert_eq!(known(&mut behaviour, &p), vec![address(SECOND)]);
    behaviour.inject_disconnected(&p);
    assert!(!behaviour.accepts_event(&p, &event()));
}

#[test]
fn other_handler_events_need_no_connection() {
    let p = PeerId::random();
    let mut behaviour = with(true, 10, Vec::new());
    let user_data = behaviour.kademlia.as_mut().unwrap().get_closest_peers(p);
    let event = KademliaHandlerEvent::FindNodeRes { closer_peers: Vec::new(), user_data };
    assert!(behaviour.accepts_event(&p, &event));
    behaviour.inject_event(p, libp2p::core::connection::ConnectionId::new(1), event);
    assert_eq!(searches(&behaviour), vec![p.to_bytes()]);
    let mut disabled = with(false, 10, Vec::new());
    let event = KademliaHandlerEvent::ProtocolConfirmed {
        endpoint: libp2p::core::ConnectedPoint::Dialer { address: address(SECOND) },
    };
    assert!(disabled.accepts_event(&p, &event));
    disabled.inject_event(p, libp2p::core::connection::ConnectionId::new(1), event);
    assert_eq!(disabled.addresses_of_peer(&p), Vec::<Multiaddr>::new());
}

#[test]
fn kademlia_is_told_of_failed_dials() {
    let p = PeerId::random();
    let mut behaviour = with(true, 10, Vec::new());
    behaviour.mdns_discovered(vec![(p, address(FIRST)), (p, address(SECOND))]);
    let refused = libp2p::TransportError::MultiaddrNotSupported(address(FIRST));
    let error = DialError::Transport(vec![(address(FIRST), refused)]);
    assert!(behaviour.accepts_dial_failure(Some(p), &error));
    let handler = behaviour.new_handler();
    behaviour.inject_dial_failure(Some(p), handler, &error);
    assert_eq!(known(&mut behaviour, &p), vec![address(SECOND)]);
    let handler = behaviour.new_handler();
    behaviour.inject_dial_failure(None, handler, &error);
    assert_eq!(known(&mut behaviour, &p), vec![address(SECOND)]);
}

#[test]
fn unconditional_dials_are_not_refused() {
    let p = PeerId::random();
    let behaviour = with(true, 10, Vec::new());
    let always = DialError::DialPeerConditionFalse(DialPeerCondition::Always);
    let disconnected = DialError::DialPeerConditionFalse(DialPeerCondition::Disconnected);
    assert!(!behaviour.accepts_dial_failure(Some(p), &always));
    assert!(behaviour.accepts_dial_failure(None, &always));
    assert!(behaviour.accepts_dial_failure(Some(p), &disconnected));
    assert!(behaviour.accepts_dial_failure(Some(p), &DialError::Banned));
    assert!(with(false, 10, Vec::new()).accepts_dial_failure(Some(p), &always));
}

#[test]
fn listening_changes_nothing_but_kademlia() {
    let p = PeerId::random();
    let mut behaviour = with(true, 10, vec![entry(FIRST, p)]);
    let before = behaviour.display();
    let id = listener();
    behaviour.inject_new_listen_addr(id, &address(SECOND));
    behaviour.inject_expired_listen_addr(id, &address(SECOND));
    behaviour.inject_new_external_addr(&address(THIRD));
    behaviour.inject_listener_closed(id, Ok(()));
    assert_eq!(behaviour.display(), before);
    assert_eq!(known(&mut behaviour, &p), vec![address(FIRST)]);
}

#[test]
fn connections_are_counted() {
    let p = PeerId::random();
    let mut behaviour = with(true, 10, Vec::new());
    assert_eq!(behaviour.num_connections(), 0);
    establish(&mut behaviour, &p, None);
    establish(&mut behaviour, &p, None);
    assert_eq!(behaviour.num_connections(), 2);
    close(&mut behaviour, &p);
    assert_eq!(behaviour.num_connections(), 1);
    establish(&mut behaviour, &p, None);
    close(&mut behaviour, &p);
    close(&mut behaviour, &p);
    assert_eq!(behaviour.num_connections(), 0);
}

#[test]
fn discovery_pauses_at_the_limit() {
    let (p, q) = (PeerId::random(), PeerId::random());
    let mut behaviour = with(true, 1, Vec::new());
    behaviour.mdns_discovered(vec![(p, address(FIRST))]);
    behaviour.random_query(q);
    assert_eq!(known(&mut behaviour, &p), vec![address(FIRST)]);
    assert_eq!(searches(&behaviour), vec![q.to_bytes()]);
    assert!(behaviour.below_limit());
    establish(&mut behaviour, &p, None);
    assert!(!behaviour.below_limit());
    assert_eq!(behaviour.discovery_max(), 1);
    behaviour.mdns_discovered(vec![(q, address(SECOND))]);
    behaviour.random_query(p);
    assert_eq!(known(&mut behaviour, &q), Vec::<Multiaddr>::new());
    assert_eq!(searches(&behaviour), vec![q.to_bytes()]);
    close(&mut behaviour, &p);
    behaviour.mdns_discovered(vec![(q, address(SECOND))]);
    assert_eq!(known(&mut behaviour, &q), vec![address(SECOND)]);
}

#[test]
fn limit_of_zero_never_discovers() {
    let p = PeerId::random();
    let mut behaviour = with(true, 0, Vec::new());
    behaviour.mdns_discovered(vec![(p, address(FIRST))]);
    assert_eq!(known(&mut behaviour, &p), Vec::<Multiaddr>::new());
}

#[test]
fn timer_backs_off() {
    let mut behaviour = with(true, 10, Vec::new());
    assert!(behaviour.next_kad_random_query.is_none());
    for secs in vec!["1s", "2s", "4s", "8s", "16s", "32s", "60s", "60s"] {
        behaviour.random_query(PeerId::random());
        assert_eq!(period(&behaviour), format!("interval: {} }}", secs));
    }
}

#[test]
fn timer_backs_off_at_the_limit_too() {
    let mut behaviour = with(true, 0, Vec::new());
    behaviour.random_query(PeerId::random());
    behaviour.random_query(PeerId::random());
    assert!(searches(&behaviour).is_empty());
    assert_eq!(period(&behaviour), "interval: 2s }");
    assert!(matches!(
        poll(&mut behaviour, PollInput::Timer(true)),
        PollStep::PollTimer(None)
    ));
    assert!(searches(&behaviour).is_empty());
    assert_eq!(period(&behaviour), "interval: 4s }");
}

#[test]
fn random_queries_have_random_targets() {
    let mut behaviour = with(true, 10, Vec::new());
    let mut targets = vec![PeerId::random()];
    behaviour.random_query(targets[0]);
    for _ in 0..2 {
        match poll(&mut behaviour, PollInput::Timer(true)) {
            PollStep::PollTimer(Some(target)) => targets.push(target),
            _ => panic!("a search starts"),
        }
    }
    assert_ne!(targets[0], targets[1]);
    assert_ne!(targets[1], targets[2]);
    assert_ne!(targets[2], targets[0]);
    let mut expected: Vec<Vec<u8>> = targets.iter().map(|target| target.to_bytes()).collect();
    let mut found = searches(&behaviour);
    expected.sort();
    found.sort();
    assert_eq!(found, expected);
    assert!(matches!(
        poll(&mut behaviour, PollInput::Timer(false)),
        PollStep::PollMdns
    ));
}

#[test]
fn queued_events_come_first() {
    let p = PeerId::random();
    let mut behaviour = with(true, 10, Vec::new());
    behaviour.random_query(p);
    behaviour.inject_connected(&p);
    match poll(&mut behaviour, PollInput::Start) {
        PollStep::Ready(BehaviourAction::GenerateEvent(DiscoveryEvent::Connected(id))) => {
            assert_eq!(id, p)
        }
        _ => panic!("an event is pending"),
    }
}

#[test]
fn sources_are_polled_in_order() {
    let mut behaviour = with(true, 10, Vec::new());
    assert!(matches!(poll(&mut behaviour, PollInput::Start), PollStep::PollKademlia));
    assert!(matches!(poll(&mut behaviour, PollInput::Kademlia(None)), PollStep::PollMdns));
    assert!(matches!(poll(&mut behaviour, PollInput::Mdns(None)), PollStep::Pending));
    behaviour.random_query(PeerId::random());
    assert!(matches!(poll(&mut behaviour, PollInput::Start), PollStep::PollKademlia));
    assert!(matches!(poll(&mut behaviour, PollInput::Kademlia(None)), PollStep::PollTimer(None)));
    assert!(matches!(poll(&mut behaviour, PollInput::Timer(false)), PollStep::PollMdns));
}

#[test]
fn polling_reports_only_peers() {
    let p = PeerId::random();
    let mut behaviour = with(true, 10, Vec::new());
    let event = libp2p::kad::KademliaEvent::UnroutablePeer { peer: p };
    let action = BehaviourAction::GenerateEvent(event);
    assert!(matches!(
        poll(&mut behaviour, PollInput::Kademlia(Some(action))),
        PollStep::PollKademlia
    ));
    let event = MdnsEvent::Discovered(vec![(p, address(FIRST))]);
    let action = BehaviourAction::GenerateEvent(event);
    assert!(matches!(
        poll(&mut behaviour, PollInput::Mdns(Some(action))),
        PollStep::PollMdns
    ));
    assert_eq!(known(&mut behaviour, &p), vec![address(FIRST)]);
    let event = MdnsEvent::Expired(vec![(p, address(FIRST))]);
    let action = BehaviourAction::GenerateEvent(event);
    assert!(matches!(
        poll(&mut behaviour, PollInput::Mdns(Some(action))),
        PollStep::PollMdns
    ));
    assert_eq!(known(&mut behaviour, &p), vec![address(FIRST)]);
}

#[test]
fn kademlia_actions_are_handed_on() {
    let p = PeerId::random();
    let mut behaviour = with(true, 10, Vec::new());
    let handler = behaviour.new_handler();
    let action = BehaviourAction::DialAddress { address: address(FIRST), handler };
    match poll(&mut behaviour, PollInput::Kademlia(Some(action))) {
        PollStep::Ready(BehaviourAction::DialAddress { address: to, .. }) => {
            assert_eq!(to, address(FIRST))
        }
        _ => panic!("a dial is handed on"),
    }
    let handler = behaviour.new_handler();
    let condition = DialPeerCondition::NotDialing;
    let action = BehaviourAction::DialPeer { peer_id: p, condition, handler };
    match poll(&mut behaviour, PollInput::Kademlia(Some(action))) {
        PollStep::Ready(BehaviourAction::DialPeer { peer_id, condition, .. }) => {
            assert_eq!(peer_id, p);
            assert!(matches!(condition, DialPeerCondition::NotDialing));
        }
        _ => panic!("a dial is handed on"),
    }
    let action = BehaviourAction::NotifyHandler {
        peer_id: p,
        handler: NotifyHandler::Any,
        event: 9u8,
    };
    match poll(&mut behaviour, PollInput::Kademlia(Some(action))) {
        PollStep::Ready(BehaviourAction::NotifyHandler { peer_id, event, .. }) => {
            assert_eq!((peer_id, event), (p, 9))
        }
        _ => panic!("a notification is handed on"),
    }
    let score = AddressScore::Finite(4);
    let action = BehaviourAction::ReportObservedAddr { address: address(SECOND), score };
    match poll(&mut behaviour, PollInput::Kademlia(Some(action))) {
        PollStep::Ready(BehaviourAction::ReportObservedAddr { address: seen, score }) => {
            assert_eq!((seen, score), (address(SECOND), AddressScore::Finite(4)))
        }
        _ => panic!("an observed address is handed on"),
    }
    let connection = CloseConnection::All;
    let action = BehaviourAction::CloseConnection { peer_id: p, connection };
    match poll(&mut behaviour, PollInput::Kademlia(Some(action))) {
        PollStep::Ready(BehaviourAction::CloseConnection { peer_id, connection }) => {
            assert_eq!(peer_id, p);
            assert!(matches!(connection, CloseConnection::All));
        }
        _ => panic!("a closing is handed on"),
    }
}

#[test]
fn mdns_actions_are_handed_on_but_for_notifications() {
    let p = PeerId::random();
    let mut behaviour = with(true, 10, Vec::new());
    let action = BehaviourAction::DialAddress { address: address(FIRST), handler: 'h' };
    match poll(&mut behaviour, PollInput::Mdns(Some(action))) {
        PollStep::Ready(BehaviourAction::DialAddress { address: to, .. }) => {
            assert_eq!(to, address(FIRST))
        }
        _ => panic!("a dial is handed on"),
    }
    let condition = DialPeerCondition::Always;
    let action = BehaviourAction::DialPeer { peer_id: p, condition, handler: 'h' };
    match poll(&mut behaviour, PollInput::Mdns(Some(action))) {
        PollStep::Ready(BehaviourAction::DialPeer { peer_id, condition, .. }) => {
            assert_eq!(peer_id, p);
            assert!(matches!(condition, DialPeerCondition::Always));
        }
        _ => panic!("a dial is handed on"),
    }
    let action = BehaviourAction::NotifyHandler {
        peer_id: p,
        handler: NotifyHandler::Any,
        event: true,
    };
    assert!(matches!(
        poll(&mut behaviour, PollInput::Mdns(Some(action))),
        PollStep::PollMdns
    ));
    let score = AddressScore::Infinite;
    let action = BehaviourAction::ReportObservedAddr { address: address(SECOND), score };
    match poll(&mut behaviour, PollInput::Mdns(Some(action))) {
        PollStep::Ready(BehaviourAction::ReportObservedAddr { address: seen, score }) => {
            assert_eq!((seen, score), (address(SECOND), AddressScore::Infinite))
        }
        _ => panic!("an observed address is handed on"),
    }
    let connection = CloseConnection::One(libp2p::core::connection::ConnectionId::new(3));
    let action = BehaviourAction::CloseConnection { peer_id: p, connection };
    match poll(&mut behaviour, PollInput::Mdns(Some(action))) {
        PollStep::Ready(BehaviourAction::CloseConnection { peer_id, connection }) => {
            assert_eq!(peer_id, p);
            assert!(matches!(connection, CloseConnection::One(_)));
        }
        _ => panic!("a closing is handed on"),
    }
}

#[test]
fn display_shows_every_part() {
    let (p, q) = (PeerId::random(), PeerId::random());
    let mut behaviour = with(true, 1234567890, vec![entry(FIRST, p), entry(SECOND, q)]);
    establish(&mut behaviour, &p, None);
    assert!(behaviour.display().contains("\n    peers: {},\n"));
    behaviour.inject_connected(&p);
    behaviour.inject_connected(&q);
    let expected = format!(
        "{{
    user_defined [PeerAddress {{ address: {:?}, peer_id: {:?} }}, PeerAddress {{ address: {:?}, peer_id: {:?} }}],
    kademlia: true,
    mdns: false,
    next_kad_random_query: None,
    duration_to_next_kad 1s,
    num_connection: 1,
    peers: {{{:?}, {:?}}},
    discovery_max: 1234567890
}}",
        address(FIRST),
        p,
        address(SECOND),
        q,
        p,
        q
    );
    assert_eq!(behaviour.display(), expected);
    let list = vec![entry(FIRST, p), entry(SECOND, q)];
    assert!(expected.contains(&format!("\n    user_defined {:?},\n", list)));
    // The text does not tell of the events that are pending.
    let step = poll(&mut behaviour, PollInput::Start);
    assert!(matches!(step, PollStep::Ready(_)));
    assert_eq!(behaviour.display(), expected);
    behaviour.random_query(p);
    let timer = format!("{:?}", behaviour.next_kad_random_query);
    assert!(timer.starts_with("Some(Interval {"));
    let expected = expected
        .replace("query: None", &format!("query: {}", timer))
        .replace("kad 1s", "kad 2s");
    assert_eq!(behaviour.display(), expected);
    assert_eq!(behaviour.text_with_timer(&timer), expected);
}
