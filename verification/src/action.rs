//! What behaviours ask of the swarm, and what discovery reports to it.
use crate::kademlia::HandlerProto;
use crate::mdns::MdnsEvent;
use libp2p::kad::KademliaEvent;
use libp2p::swarm::{AddressScore, CloseConnection, DialPeerCondition, NotifyHandler};
use libp2p::{Multiaddr, PeerId};
use vstd::prelude::*;

verus! {

/// Event generated by the `DiscoveryBehaviour`.
#[derive(Debug)]
pub enum DiscoveryEvent {
    /// Event that notifies that we connected to the node with the given peer
    /// id.
    Connected(PeerId),
    /// Event that notifies that we disconnected with the node with the given
    /// peer id.
    Disconnected(PeerId),
    /// An event of Kademlia. Polling never reports one.
    KademliaEvent(KademliaEvent),
}

/// What a behaviour asks of the swarm. `E` is its event, `H` its connection
/// handler, and `N` what it says to a handler.
#[allow(inconsistent_fields)]
#[derive(Debug)]
pub enum BehaviourAction<E, H, N> {
    /// Report an event.
    GenerateEvent(E),
    /// Dial an address.
    DialAddress { address: Multiaddr, handler: H },
    /// Dial a peer, wherever it is known to be.
    DialPeer { peer_id: PeerId, condition: DialPeerCondition, handler: H },
    /// Say something to the connection handler of a peer.
    NotifyHandler { peer_id: PeerId, handler: NotifyHandler, event: N },
    /// Take note of an address at which others see the local node.
    ReportObservedAddr { address: Multiaddr, score: AddressScore },
    /// Close connections to a peer.
    CloseConnection { peer_id: PeerId, connection: CloseConnection },
}

/// What Kademlia asks of the swarm.
pub type KademliaAction<N> = BehaviourAction<KademliaEvent, HandlerProto, N>;

/// What discovery asks of the swarm.
pub type DiscoveryAction<N> = BehaviourAction<DiscoveryEvent, HandlerProto, N>;

/// What multicast DNS asks of the swarm.
pub type MdnsAction<H, M> = BehaviourAction<MdnsEvent, H, M>;

/// An action of Kademlia as an action of discovery: the same, with an event
/// marked as one of Kademlia.
pub open spec fn as_discovery_action<N>(action: KademliaAction<N>) -> DiscoveryAction<N> {
    match action {
        BehaviourAction::GenerateEvent(event) => BehaviourAction::GenerateEvent(
            DiscoveryEvent::KademliaEvent(event),
        ),
        BehaviourAction::DialAddress { address, handler } => BehaviourAction::DialAddress {
            address,
            handler,
        },
        BehaviourAction::DialPeer { peer_id, condition, handler } => BehaviourAction::DialPeer {
            peer_id,
            condition,
            handler,
        },
        BehaviourAction::NotifyHandler { peer_id, handler, event } => {
            BehaviourAction::NotifyHandler { peer_id, handler, event }
        },
        BehaviourAction::ReportObservedAddr { address, score } => {
            BehaviourAction::ReportObservedAddr { address, score }
        },
        BehaviourAction::CloseConnection { peer_id, connection } => {
            BehaviourAction::CloseConnection { peer_id, connection }
        },
    }
}

/// Turns an action of Kademlia into an action of discovery.
pub fn into_discovery_action<N>(action: KademliaAction<N>) -> (mapped: DiscoveryAction<N>)
    ensures
        mapped == as_discovery_action(action),
{
    match action {
        BehaviourAction::GenerateEvent(event) => BehaviourAction::GenerateEvent(
            DiscoveryEvent::KademliaEvent(event),
        ),
        BehaviourAction::DialAddress { address, handler } => BehaviourAction::DialAddress {
            address,
            handler,
        },
        BehaviourAction::DialPeer { peer_id, condition, handler } => BehaviourAction::DialPeer {
            peer_id,
            condition,
            handler,
        },
        BehaviourAction::NotifyHandler { peer_id, handler, event } => {
            BehaviourAction::NotifyHandler { peer_id, handler, event }
        },
        BehaviourAction::ReportObservedAddr { address, score } => {
            BehaviourAction::ReportObservedAddr { address, score }
        },
        BehaviourAction::CloseConnection { peer_id, connection } => {
            BehaviourAction::CloseConnection { peer_id, connection }
        },
    }
}

/// What the driver of a poll brings. `None` stands for a source that has
/// nothing at the moment.
pub enum PollInput<H, M, N> {
    /// The swarm polls discovery.
    Start,
    /// Kademlia was polled.
    Kademlia(Option<KademliaAction<N>>),
    /// The timer of the random queries was polled; it has fired or not.
    Timer(bool),
    /// Multicast DNS was polled.
    Mdns(Option<MdnsAction<H, M>>),
}

/// What the driver of a poll does next.
pub enum PollStep<N> {
    /// Hand this action to the swarm.
    Ready(DiscoveryAction<N>),
    /// Poll Kademlia.
    PollKademlia,
    /// Poll the timer of the random queries. If a search has just been started,
    /// this tells around which peer.
    PollTimer(Option<PeerId>),
    /// Poll multicast DNS.
    PollMdns,
    /// Tell the swarm that there is nothing at the moment.
    Pending,
}

} // verus!
