//! The types of libp2p, async-std and the standard library that the discovery
//! state holds or hands on. All of them are opaque here.
use vstd::prelude::*;

verus! {

/// The identity of a peer.
#[verifier::external_type_specification]
#[verifier::external_body]
pub struct ExPeerId(libp2p::PeerId);

/// A network address.
#[verifier::external_type_specification]
#[verifier::external_body]
pub struct ExMultiaddr(libp2p::Multiaddr);

/// The record store of a Kademlia node, kept in memory.
#[verifier::external_type_specification]
#[verifier::external_body]
pub struct ExMemoryStore(libp2p::kad::store::MemoryStore);

/// The settings that a Kademlia behaviour is made with.
#[verifier::external_type_specification]
#[verifier::external_body]
pub struct ExKademliaConfig(libp2p::kad::KademliaConfig);

/// The Kademlia behaviour.
#[verifier::external_type_specification]
#[verifier::external_body]
#[verifier::reject_recursive_types(TStore)]
pub struct ExKademlia<TStore>(libp2p::kad::Kademlia<TStore>);

/// An event that Kademlia reports.
#[verifier::external_type_specification]
#[verifier::external_body]
pub struct ExKademliaEvent(libp2p::kad::KademliaEvent);

/// The number of a Kademlia query.
#[verifier::external_type_specification]
#[verifier::external_body]
pub struct ExQueryId(libp2p::kad::QueryId);

/// The prototype of the handler that serves Kademlia on one connection.
#[verifier::external_type_specification]
#[verifier::external_body]
#[verifier::reject_recursive_types(T)]
pub struct ExKademliaHandlerProto<T>(libp2p::kad::handler::KademliaHandlerProto<T>);

/// The handler that serves Kademlia on one connection.
#[verifier::external_type_specification]
#[verifier::external_body]
#[verifier::reject_recursive_types(TUserData)]
pub struct ExKademliaHandler<TUserData>(libp2p::kad::handler::KademliaHandler<TUserData>);

/// What a connection handler reports to Kademlia.
#[verifier::external_type_specification]
#[verifier::external_body]
#[verifier::reject_recursive_types(TUserData)]
pub struct ExKademliaHandlerEvent<TUserData>(libp2p::kad::handler::KademliaHandlerEvent<TUserData>);

/// The multicast DNS behaviour.
#[verifier::external_type_specification]
#[verifier::external_body]
pub struct ExMdns(libp2p::mdns::Mdns);

/// A behaviour that is either enabled or disabled.
#[verifier::external_type_specification]
#[verifier::external_body]
#[verifier::reject_recursive_types(TBehaviour)]
pub struct ExToggle<TBehaviour>(libp2p::swarm::toggle::Toggle<TBehaviour>);

/// The handler prototype of a behaviour that may be disabled.
#[verifier::external_type_specification]
#[verifier::external_body]
#[verifier::reject_recursive_types(TInner)]
pub struct ExToggleIntoProtoHandler<TInner>(libp2p::swarm::toggle::ToggleIntoProtoHandler<TInner>);

/// The connection handler of a behaviour that may be disabled.
#[verifier::external_type_specification]
#[verifier::external_body]
#[verifier::reject_recursive_types(TInner)]
pub struct ExToggleProtoHandler<TInner>(libp2p::swarm::toggle::ToggleProtoHandler<TInner>);

/// The number of a connection.
#[verifier::external_type_specification]
#[verifier::external_body]
pub struct ExConnectionId(libp2p::core::connection::ConnectionId);

/// The number of a listener.
#[verifier::external_type_specification]
#[verifier::external_body]
pub struct ExListenerId(libp2p::core::connection::ListenerId);

/// The two ends of an established connection.
#[verifier::external_type_specification]
#[verifier::external_body]
pub struct ExConnectedPoint(libp2p::core::ConnectedPoint);

/// The condition under which a peer is dialled.
#[verifier::external_type_specification]
#[verifier::external_body]
pub struct ExDialPeerCondition(libp2p::swarm::DialPeerCondition);

/// The reason for which a dial failed.
#[verifier::external_type_specification]
#[verifier::external_body]
pub struct ExDialError(libp2p::swarm::DialError);

/// The weight of an observed address.
#[verifier::external_type_specification]
#[verifier::external_body]
pub struct ExAddressScore(libp2p::swarm::AddressScore);

/// The connections of a peer that are to be closed.
#[verifier::external_type_specification]
#[verifier::external_body]
pub struct ExCloseConnection(libp2p::swarm::CloseConnection);

/// The connection handlers of a peer that are to be notified.
#[verifier::external_type_specification]
#[verifier::external_body]
pub struct ExNotifyHandler(libp2p::swarm::NotifyHandler);

/// A timer that fires again and again.
#[verifier::external_type_specification]
#[verifier::external_body]
pub struct ExInterval(async_std::stream::Interval);

/// The reason for which an input or output operation failed.
#[verifier::external_type_specification]
#[verifier::external_body]
pub struct ExIoError(std::io::Error);

} // verus!
