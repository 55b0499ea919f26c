//! What discovery has from libp2p's multicast DNS.
use libp2p::mdns::Mdns;
use libp2p::swarm::toggle::Toggle;
use libp2p::swarm::NetworkBehaviour;
use libp2p::{Multiaddr, PeerId};
use vstd::prelude::*;

verus! {

/// Multicast DNS, enabled or disabled.
pub type MdnsToggle = Toggle<Mdns>;

/// The multicast DNS in a toggle, if the toggle is enabled.
pub uninterp spec fn enabled_mdns(toggle: MdnsToggle) -> Option<Mdns>;

/// The peers that multicast DNS has seen, each with an address and the instant
/// at which the sighting expires, in the order in which they are listed.
pub uninterp spec fn mdns_nodes(mdns: Mdns) -> Seq<(PeerId, Multiaddr, int)>;

/// The addresses of `peer_id` in a list of sightings that outlive the instant
/// `now`.
pub open spec fn unexpired(
    nodes: Seq<(PeerId, Multiaddr, int)>,
    peer_id: PeerId,
    now: int,
) -> Seq<Multiaddr> {
    nodes.filter(
        |node: (PeerId, Multiaddr, int)| node.0 == peer_id && node.2 > now,
    ).map_values(|node: (PeerId, Multiaddr, int)| node.1)
}

/// The addresses of `peer_id` that the multicast DNS of a toggle holds at the
/// instant `now`. A disabled one holds none.
pub open spec fn held_by_mdns(toggle: MdnsToggle, peer_id: PeerId, now: int) -> Seq<Multiaddr> {
    match enabled_mdns(toggle) {
        Some(mdns) => unexpired(mdns_nodes(mdns), peer_id, now),
        None => Seq::empty(),
    }
}

/// Tells whether `addresses` are what the multicast DNS of a toggle gave, on being
/// asked, as the addresses of `peer_id`.
pub closed spec fn given_by_mdns(
    toggle: MdnsToggle,
    peer_id: PeerId,
    addresses: Seq<Multiaddr>,
) -> bool {
    exists|asked: &mut MdnsToggle, given: Vec<Multiaddr>|
        *asked == toggle && given@ == addresses && #[trigger] call_ensures(
            mdns_addresses_of_peer,
            (asked, &peer_id),
            given,
        )
}

/// Only what came of asking multicast DNS for the very peer counts as given: a
/// list that was changed afterwards, or that was never asked for, does not.
pub(crate) proof fn mdns_was_asked(
    toggle: MdnsToggle,
    peer_id: PeerId,
    addresses: Seq<Multiaddr>,
)
    ensures
        given_by_mdns(toggle, peer_id, addresses) <==> exists|
            asked: &mut MdnsToggle,
            given: Vec<Multiaddr>,
        |
            *asked == toggle && given@ == addresses && #[trigger] call_ensures(
                mdns_addresses_of_peer,
                (asked, &peer_id),
                given,
            ),
{
}

/// What multicast DNS gives are the sightings of the peer that outlive the instant
/// at which it was asked, all of them, in the order of its list.
pub proof fn given_addresses_are_unexpired(
    toggle: MdnsToggle,
    peer_id: PeerId,
    addresses: Seq<Multiaddr>,
)
    requires
        given_by_mdns(toggle, peer_id, addresses),
    ensures
        addresses.no_duplicates(),
        match enabled_mdns(toggle) {
            Some(mdns) => exists|now: int|
                addresses == #[trigger] unexpired(mdns_nodes(mdns), peer_id, now),
            None => addresses.len() == 0,
        },
{
}

/// What multicast DNS reports.
#[derive(Debug)]
pub enum MdnsEvent {
    /// Peers that have shown up on the local network.
    Discovered(Vec<(PeerId, Multiaddr)>),
    /// Peers that have not been seen for too long.
    Expired(Vec<(PeerId, Multiaddr)>),
}

/// The conversion of an optional [`Mdns`] to a [`Toggle`]: enabled if there is
/// one.
#[verifier::external_body]
pub(crate) fn toggle_mdns(mdns: Option<Mdns>) -> (toggle: MdnsToggle)
    ensures
        enabled_mdns(toggle) == mdns,
{
    mdns.into()
}

/// [`Toggle::is_enabled`].
#[verifier::external_body]
pub(crate) fn mdns_is_enabled(toggle: &MdnsToggle) -> (enabled: bool)
    ensures
        enabled == (enabled_mdns(*toggle) is Some),
{
    toggle.is_enabled()
}

/// The `addresses_of_peer` of [`Toggle`]: the addresses of the peer that
/// multicast DNS lists, in the order of the list, less those that have expired
/// at the instant of the call; none if it is disabled. It lists no address of a
/// peer twice. Which instant that is, is left open. The toggle stays as it is.
#[verifier::external_body]
pub(crate) fn mdns_addresses_of_peer(toggle: &mut MdnsToggle, peer_id: &PeerId) -> (addresses: Vec<
    Multiaddr,
>)
    ensures
        match enabled_mdns(*old(toggle)) {
            Some(mdns) => exists|now: int|
                addresses@ == #[trigger] unexpired(mdns_nodes(mdns), *peer_id, now),
            None => addresses@.len() == 0,
        },
        addresses@.no_duplicates(),
        *final(toggle) == *old(toggle),
{
    toggle.addresses_of_peer(peer_id)
}

} // verus!
