//! Peer discovery for a node of a peer-to-peer network.
//!
//! Peers become known in three ways: a list that the user gives, a Kademlia
//! distributed hash table, and multicast DNS on the local network.
//! [`behaviour::DiscoveryBehaviour`] combines the three. It holds the state,
//! takes every decision, and gives orders to Kademlia; polling sockets and
//! timers is left to whoever drives it.
//!
//! What is trusted of libp2p and async-std stands in [`outside`] (types),
//! [`kademlia`], [`mdns`], [`timer`] and [`peer`] (functions). [`effects`]
//! says what each operation does to each part of the state, and [`laws`] holds the
//! properties that span several operations.
pub mod action;
pub mod behaviour;
pub mod config;
pub mod delay;
pub mod display;
pub mod effects;
pub mod error;
pub mod kademlia;
pub mod laws;
pub mod mdns;
pub mod outside;
pub mod peer;
pub mod timer;
