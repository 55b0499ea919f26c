//! What discovery asks of libp2p's Kademlia.
//!
//! Which peers end up in the routing table rests on bucket space, on time and
//! on the network: the table has a name, and no request says what it holds
//! afterwards. What is tracked of a Kademlia is the record of what it has been
//! asked, [`kademlia_requests`]: every function here that hands something to it,
//! or to the toggle around it, adds exactly that to the record.
use libp2p::kad::handler::{KademliaHandler, KademliaHandlerEvent, KademliaHandlerProto};
use libp2p::kad::store::MemoryStore;
use libp2p::kad::{Kademlia, KademliaConfig, QueryId};
use libp2p::swarm::toggle::{Toggle, ToggleIntoProtoHandler, ToggleProtoHandler};
use libp2p::swarm::{DialError, DialPeerCondition, NetworkBehaviour};
use libp2p::{Multiaddr, PeerId};
use vstd::multiset::Multiset;
use vstd::prelude::*;
use vstd::utf8::encode_utf8;

verus! {

/// A Kademlia over records in memory, enabled or disabled.
pub type KademliaToggle = Toggle<Kademlia<MemoryStore>>;

/// The handler prototype that goes with a [`KademliaToggle`].
pub type HandlerProto = ToggleIntoProtoHandler<KademliaHandlerProto<QueryId>>;

/// The handler that a [`HandlerProto`] becomes on a connection.
pub type ConnectionHandler = ToggleProtoHandler<KademliaHandler<QueryId>>;

/// What an event of a connection handler tells Kademlia.
pub type HandlerEvent = KademliaHandlerEvent<QueryId>;

/// The settings of a Kademlia.
pub struct KademliaSettings {
    /// Whether the paths of one query are kept apart.
    pub disjoint_query_paths: bool,
    /// The name by which nodes of this network recognise each other.
    pub protocol_name: Seq<u8>,
    /// Whether every other setting has its default.
    pub others_default: bool,
}

/// Something that a Kademlia has been asked.
pub enum KademliaRequest {
    /// To come into being for `local_peer_id`, over a store that belongs to
    /// `store_owner`.
    Create { local_peer_id: PeerId, store_owner: PeerId, settings: KademliaSettings },
    /// To take note of an address of a peer.
    AddAddress { peer_id: PeerId, address: Multiaddr },
    /// To join the network.
    Bootstrap,
    /// To search for the peers that are closest to `target`.
    GetClosestPeers { target: PeerId },
    /// To take note that there is now a connection to `peer_id`.
    Connected { peer_id: PeerId },
    /// To take note that there is no connection to `peer_id` any more.
    Disconnected { peer_id: PeerId },
    /// To take note of a connection, and of the addresses that were tried
    /// before it in vain.
    ConnectionEstablished {
        peer_id: PeerId,
        connection: libp2p::core::connection::ConnectionId,
        endpoint: libp2p::core::ConnectedPoint,
        failed_addresses: Option<Seq<Multiaddr>>,
    },
    /// To take note that a connection is closed, and take its handler back.
    ConnectionClosed {
        peer_id: PeerId,
        connection: libp2p::core::connection::ConnectionId,
        endpoint: libp2p::core::ConnectedPoint,
        handler: ConnectionHandler,
    },
    /// To take note that the ends of a connection have changed.
    AddressChange {
        peer_id: PeerId,
        connection: libp2p::core::connection::ConnectionId,
        old: libp2p::core::ConnectedPoint,
        new: libp2p::core::ConnectedPoint,
    },
    /// To deal with what the handler of a connection reports.
    HandlerEvent {
        peer_id: PeerId,
        connection: libp2p::core::connection::ConnectionId,
        event: HandlerEvent,
    },
    /// To take note that a peer could not be dialled.
    DialFailure { dialled: Option<PeerId>, prototype: HandlerProto, error: DialError },
    /// To take note that the local node listens on an address.
    NewListenAddr { listener: libp2p::core::connection::ListenerId, address: Multiaddr },
    /// To take note that the local node listens on an address no more.
    ExpiredListenAddr { listener: libp2p::core::connection::ListenerId, address: Multiaddr },
    /// To take note that a listener is closed, and why if it failed.
    ListenerClosed {
        listener: libp2p::core::connection::ListenerId,
        failure: Option<std::io::Error>,
    },
    /// To take note of an address at which the local node is seen.
    NewExternalAddr { address: Multiaddr },
}

/// The peer that a record store belongs to.
pub uninterp spec fn store_owner(store: MemoryStore) -> PeerId;

/// What a Kademlia configuration says.
pub uninterp spec fn kademlia_settings(config: KademliaConfig) -> KademliaSettings;

/// What a Kademlia, or the toggle around it, has been handed, in order.
pub uninterp spec fn kademlia_requests(kademlia: Kademlia<MemoryStore>) -> Seq<KademliaRequest>;

/// The routing table of a Kademlia: the peers in it, each with its addresses.
pub uninterp spec fn routing_table(kademlia: Kademlia<MemoryStore>) -> Map<PeerId, Seq<Multiaddr>>;

/// The addresses of each peer that the queries of a Kademlia have come across,
/// each as often as there are queries that have.
pub uninterp spec fn found_by_queries(kademlia: Kademlia<MemoryStore>) -> Multiset<
    (PeerId, Multiaddr),
>;

/// Whether an event of a connection handler says that the remote node speaks the
/// protocol.
pub uninterp spec fn confirms_protocol(event: HandlerEvent) -> bool;

/// Whether an error says that a dial was refused by a condition that always
/// holds.
pub uninterp spec fn refused_unconditionally(error: DialError) -> bool;

/// The Kademlia in a toggle, if the toggle is enabled.
pub uninterp spec fn enabled_kademlia(toggle: KademliaToggle) -> Option<Kademlia<MemoryStore>>;

/// The handler prototype that a toggle makes.
pub uninterp spec fn kademlia_handler(toggle: KademliaToggle) -> HandlerProto;

/// The protocol name of the network.
pub open spec fn network_protocol_name() -> Seq<u8> {
    encode_utf8("/anoma/kad/anoma/kad/1.0.0"@)
}

/// What the Kademlia of a toggle has been asked; `None` for a disabled toggle.
pub open spec fn requests_of(toggle: KademliaToggle) -> Option<Seq<KademliaRequest>> {
    match enabled_kademlia(toggle) {
        Some(kademlia) => Some(kademlia_requests(kademlia)),
        None => None,
    }
}

/// The record `asked` with `more` behind it. A disabled Kademlia is not asked.
pub open spec fn then_asked(
    asked: Option<Seq<KademliaRequest>>,
    more: Seq<KademliaRequest>,
) -> Option<Seq<KademliaRequest>> {
    match asked {
        Some(requests) => Some(requests + more),
        None => None,
    }
}

/// The addresses of `peer_id` in a routing table.
pub open spec fn table_addresses(
    table: Map<PeerId, Seq<Multiaddr>>,
    peer_id: PeerId,
) -> Seq<Multiaddr> {
    if table.contains_key(peer_id) {
        table[peer_id]
    } else {
        Seq::empty()
    }
}

/// Tells whether `addresses` are all those of `peer_id` in `found`, each as often
/// as it occurs there.
pub open spec fn all_found(
    found: Multiset<(PeerId, Multiaddr)>,
    peer_id: PeerId,
    addresses: Seq<Multiaddr>,
) -> bool {
    forall|address: Multiaddr| #[trigger]
        addresses.to_multiset().count(address) == found.count((peer_id, address))
}

/// The addresses of `peer_id` in the routing table of the Kademlia of a toggle. A
/// disabled Kademlia has none.
pub open spec fn routed_by_kademlia(toggle: KademliaToggle, peer_id: PeerId) -> Seq<Multiaddr> {
    match enabled_kademlia(toggle) {
        Some(kademlia) => table_addresses(routing_table(kademlia), peer_id),
        None => Seq::empty(),
    }
}

/// Tells whether `addresses` are all those of `peer_id` that the queries of the
/// Kademlia of a toggle have come across. A disabled Kademlia has no queries.
pub open spec fn all_found_by_kademlia(
    toggle: KademliaToggle,
    peer_id: PeerId,
    addresses: Seq<Multiaddr>,
) -> bool {
    match enabled_kademlia(toggle) {
        Some(kademlia) => all_found(found_by_queries(kademlia), peer_id, addresses),
        None => addresses.len() == 0,
    }
}

/// Tells whether `addresses` are what the Kademlia of a toggle gave, on being
/// asked, as the addresses of `peer_id`.
pub closed spec fn given_by_kademlia(
    toggle: KademliaToggle,
    peer_id: PeerId,
    addresses: Seq<Multiaddr>,
) -> bool {
    exists|asked: &mut KademliaToggle, given: Vec<Multiaddr>|
        *asked == toggle && given@ == addresses && #[trigger] call_ensures(
            kademlia_addresses_of_peer,
            (asked, &peer_id),
            given,
        )
}

/// Only what came of asking Kademlia for the very peer counts as given: a list
/// that was changed afterwards, or that was never asked for, does not.
pub(crate) proof fn kademlia_was_asked(
    toggle: KademliaToggle,
    peer_id: PeerId,
    addresses: Seq<Multiaddr>,
)
    ensures
        given_by_kademlia(toggle, peer_id, addresses) <==> exists|
            asked: &mut KademliaToggle,
            given: Vec<Multiaddr>,
        |
            *asked == toggle && given@ == addresses && #[trigger] call_ensures(
                kademlia_addresses_of_peer,
                (asked, &peer_id),
                given,
            ),
{
}

/// Tells whether a record is that of a Kademlia that was made with the default
/// settings, but for the protocol name and for how query paths are kept.
pub open spec fn made_by_default(requests: Seq<KademliaRequest>) -> bool {
    &&& requests.len() > 0
    &&& requests[0] matches KademliaRequest::Create { settings, .. }
    &&& settings.others_default
}

/// Tells whether the last word on `peer_id` in a record is that it is connected.
pub open spec fn told_connected(requests: Seq<KademliaRequest>, peer_id: PeerId) -> bool
    decreases requests.len(),
{
    if requests.len() == 0 {
        false
    } else if requests.last() == (KademliaRequest::Connected { peer_id }) {
        true
    } else if requests.last() == (KademliaRequest::Disconnected { peer_id }) {
        false
    } else {
        told_connected(requests.drop_last(), peer_id)
    }
}

/// The request to take note of one address.
pub open spec fn add_address_request(entry: (PeerId, Multiaddr)) -> KademliaRequest {
    KademliaRequest::AddAddress { peer_id: entry.0, address: entry.1 }
}

/// The requests to take note of each address of a list.
pub open spec fn add_address_requests(list: Seq<(PeerId, Multiaddr)>) -> Seq<KademliaRequest> {
    list.map_values(|entry: (PeerId, Multiaddr)| add_address_request(entry))
}

/// [`MemoryStore::new`]: an empty store that belongs to the given peer.
#[verifier::external_body]
fn new_memory_store(local_id: PeerId) -> (store: MemoryStore)
    ensures
        store_owner(store) == local_id,
{
    MemoryStore::new(local_id)
}

/// The `default` of [`KademliaConfig`]: query paths are not kept apart, the
/// protocol name is the one of the public network, and every other setting has
/// its default too.
#[verifier::external_body]
fn default_kademlia_config() -> (config: KademliaConfig)
    ensures
        kademlia_settings(config) == (KademliaSettings {
            disjoint_query_paths: false,
            protocol_name: encode_utf8("/ipfs/kad/1.0.0"@),
            others_default: true,
        }),
{
    KademliaConfig::default()
}

/// [`KademliaConfig::disjoint_query_paths`]: changes that setting and no other.
#[verifier::external_body]
fn set_disjoint_query_paths(config: &mut KademliaConfig, enabled: bool)
    ensures
        kademlia_settings(*final(config)) == (KademliaSettings {
            disjoint_query_paths: enabled,
            ..kademlia_settings(*old(config))
        }),
{
    config.disjoint_query_paths(enabled);
}

/// [`KademliaConfig::set_protocol_name`]: changes that setting and no other.
#[verifier::external_body]
fn set_protocol_name(config: &mut KademliaConfig, name: Vec<u8>)
    ensures
        kademlia_settings(*final(config)) == (KademliaSettings {
            protocol_name: name@,
            ..kademlia_settings(*old(config))
        }),
{
    config.set_protocol_name(name);
}

/// [`Kademlia::with_config`]: a Kademlia for the given peer, with the given
/// store and settings, that has been asked nothing else yet. Settings other than
/// the default ones may ask for more time than the clock can hold, or for more
/// memory than there is.
#[verifier::external_body]
fn kademlia_with_config(id: PeerId, store: MemoryStore, config: KademliaConfig) -> (kademlia:
    Kademlia<MemoryStore>)
    requires
        kademlia_settings(config).others_default,
    ensures
        kademlia_requests(kademlia) == seq![
            KademliaRequest::Create {
                local_peer_id: id,
                store_owner: store_owner(store),
                settings: kademlia_settings(config),
            },
        ],
{
    Kademlia::with_config(id, store, config)
}

/// [`Kademlia::add_address`]: the Kademlia is offered the address. Whether the
/// routing table has room for it is left open.
#[verifier::external_body]
pub(crate) fn add_address(
    kademlia: &mut Kademlia<MemoryStore>,
    peer_id: &PeerId,
    address: Multiaddr,
)
    ensures
        kademlia_requests(*final(kademlia)) == kademlia_requests(*old(kademlia)).push(
            add_address_request((*peer_id, address)),
        ),
{
    kademlia.add_address(peer_id, address);
}

/// [`Kademlia::bootstrap`]: the Kademlia is asked to join the network. It
/// declines exactly if there is no peer in its routing table. A query starts as
/// many searches side by side as the settings say, which has to fit into memory.
#[verifier::external_body]
pub(crate) fn bootstrap(kademlia: &mut Kademlia<MemoryStore>) -> (declined: bool)
    requires
        made_by_default(kademlia_requests(*old(kademlia))),
    ensures
        kademlia_requests(*final(kademlia)) == kademlia_requests(*old(kademlia)).push(
            KademliaRequest::Bootstrap,
        ),
        declined == (routing_table(*final(kademlia)).dom() == Set::<PeerId>::empty()),
{
    kademlia.bootstrap().is_err()
}

/// [`Kademlia::get_closest_peers`]: the Kademlia is asked to search for the
/// peers around `target`. What it finds comes later, if at all. A query starts as
/// many searches side by side as the settings say, which has to fit into memory.
#[verifier::external_body]
pub(crate) fn get_closest_peers(kademlia: &mut Kademlia<MemoryStore>, target: PeerId)
    requires
        made_by_default(kademlia_requests(*old(kademlia))),
    ensures
        kademlia_requests(*final(kademlia)) == kademlia_requests(*old(kademlia)).push(
            KademliaRequest::GetClosestPeers { target },
        ),
{
    kademlia.get_closest_peers(target);
}

/// The conversion of an optional Kademlia to a [`Toggle`]: enabled if there is
/// one.
#[verifier::external_body]
pub(crate) fn toggle_kademlia(kademlia: Option<Kademlia<MemoryStore>>) -> (toggle: KademliaToggle)
    ensures
        enabled_kademlia(toggle) == kademlia,
{
    kademlia.into()
}

/// [`Toggle::is_enabled`].
#[verifier::external_body]
pub(crate) fn kademlia_is_enabled(toggle: &KademliaToggle) -> (enabled: bool)
    ensures
        enabled == (enabled_kademlia(*toggle) is Some),
{
    toggle.is_enabled()
}

/// [`Toggle::as_mut`]: access to the Kademlia of an enabled toggle.
#[verifier::external_body]
pub(crate) fn kademlia_as_mut(toggle: &mut KademliaToggle) -> (inner: Option<
    &mut Kademlia<MemoryStore>,
>)
    ensures
        match inner {
            Some(kademlia) => {
                &&& enabled_kademlia(*old(toggle)) == Some(*kademlia)
                &&& enabled_kademlia(*final(toggle)) == Some(*final(kademlia))
            },
            None => {
                &&& enabled_kademlia(*old(toggle)) is None
                &&& *final(toggle) == *old(toggle)
            },
        },
{
    toggle.as_mut()
}

/// The `new_handler` of [`Toggle`]: makes a handler prototype from the settings
/// of the Kademlia, which it leaves as it is.
#[verifier::external_body]
pub(crate) fn kademlia_new_handler(toggle: &mut KademliaToggle) -> (handler: HandlerProto)
    ensures
        handler == kademlia_handler(*old(toggle)),
        *final(toggle) == *old(toggle),
{
    toggle.new_handler()
}

/// The `addresses_of_peer` of [`Toggle`]: the addresses of the peer in the routing
/// table, and behind them those that each query has come across; none if Kademlia
/// is disabled. In which order the queries are gone through is left open. Looking
/// at the peer may let a peer that waited long enough into the routing table: the
/// table is the one after the call. It is asked nothing that the record keeps.
#[verifier::external_body]
pub(crate) fn kademlia_addresses_of_peer(toggle: &mut KademliaToggle, peer_id: &PeerId) -> (list:
    Vec<Multiaddr>)
    ensures
        match enabled_kademlia(*final(toggle)) {
            Some(kademlia) => exists|from_queries: Seq<Multiaddr>|
                {
                    &&& list@ == table_addresses(routing_table(kademlia), *peer_id) + from_queries
                    &&& #[trigger] all_found(found_by_queries(kademlia), *peer_id, from_queries)
                },
            None => list@.len() == 0,
        },
        requests_of(*final(toggle)) == requests_of(*old(toggle)),
{
    toggle.addresses_of_peer(peer_id)
}

/// The `inject_connected` of [`Toggle`]: an enabled Kademlia is told.
#[verifier::external_body]
pub(crate) fn kademlia_inject_connected(toggle: &mut KademliaToggle, peer_id: &PeerId)
    ensures
        requests_of(*final(toggle)) == then_asked(
            requests_of(*old(toggle)),
            seq![KademliaRequest::Connected { peer_id: *peer_id }],
        ),
{
    toggle.inject_connected(peer_id)
}

/// The `inject_disconnected` of [`Toggle`]: an enabled Kademlia is told.
#[verifier::external_body]
pub(crate) fn kademlia_inject_disconnected(toggle: &mut KademliaToggle, peer_id: &PeerId)
    ensures
        requests_of(*final(toggle)) == then_asked(
            requests_of(*old(toggle)),
            seq![KademliaRequest::Disconnected { peer_id: *peer_id }],
        ),
{
    toggle.inject_disconnected(peer_id)
}

/// The list behind an optional reference.
pub open spec fn optional_list(list: Option<&Vec<Multiaddr>>) -> Option<Seq<Multiaddr>> {
    match list {
        Some(addresses) => Some(addresses@),
        None => None,
    }
}

/// The `inject_connection_established` of [`Toggle`]: an enabled Kademlia is
/// told.
#[verifier::external_body]
pub(crate) fn kademlia_inject_connection_established(
    toggle: &mut KademliaToggle,
    peer_id: &PeerId,
    connection: &libp2p::core::connection::ConnectionId,
    endpoint: &libp2p::core::ConnectedPoint,
    failed_addresses: Option<&Vec<Multiaddr>>,
)
    ensures
        requests_of(*final(toggle)) == then_asked(
            requests_of(*old(toggle)),
            seq![
                KademliaRequest::ConnectionEstablished {
                    peer_id: *peer_id,
                    connection: *connection,
                    endpoint: *endpoint,
                    failed_addresses: optional_list(failed_addresses),
                },
            ],
        ),
{
    toggle.inject_connection_established(peer_id, connection, endpoint, failed_addresses)
}

/// The `inject_connection_closed` of [`Toggle`]: the toggle of an enabled
/// Kademlia is told. (It tells the Kademlia if the handler was one of an enabled
/// one; Kademlia draws no consequence.)
#[verifier::external_body]
pub(crate) fn kademlia_inject_connection_closed(
    toggle: &mut KademliaToggle,
    peer_id: &PeerId,
    connection: &libp2p::core::connection::ConnectionId,
    endpoint: &libp2p::core::ConnectedPoint,
    handler: ConnectionHandler,
)
    ensures
        requests_of(*final(toggle)) == then_asked(
            requests_of(*old(toggle)),
            seq![
                KademliaRequest::ConnectionClosed {
                    peer_id: *peer_id,
                    connection: *connection,
                    endpoint: *endpoint,
                    handler,
                },
            ],
        ),
{
    toggle.inject_connection_closed(peer_id, connection, endpoint, handler)
}

/// The `inject_address_change` of [`Toggle`]: an enabled Kademlia is told.
#[verifier::external_body]
pub(crate) fn kademlia_inject_address_change(
    toggle: &mut KademliaToggle,
    peer_id: &PeerId,
    connection: &libp2p::core::connection::ConnectionId,
    old_end: &libp2p::core::ConnectedPoint,
    new_end: &libp2p::core::ConnectedPoint,
)
    ensures
        requests_of(*final(toggle)) == then_asked(
            requests_of(*old(toggle)),
            seq![
                KademliaRequest::AddressChange {
                    peer_id: *peer_id,
                    connection: *connection,
                    old: *old_end,
                    new: *new_end,
                },
            ],
        ),
{
    toggle.inject_address_change(peer_id, connection, old_end, new_end)
}

/// Tells one variant of [`KademliaHandlerEvent`] apart: that the remote node
/// speaks the protocol.
#[verifier::external_body]
pub(crate) fn is_confirmation(event: &HandlerEvent) -> (confirms: bool)
    ensures
        confirms == confirms_protocol(*event),
{
    matches!(event, KademliaHandlerEvent::ProtocolConfirmed { .. })
}

/// The `inject_event` of [`Toggle`]: an enabled Kademlia is handed the event. If
/// the event confirms the protocol, Kademlia insists that it has been told of a
/// connection to the peer. A record that the event brings gets a time to live from
/// the settings, which the clock has to be able to hold.
#[verifier::external_body]
pub(crate) fn kademlia_inject_event(
    toggle: &mut KademliaToggle,
    peer_id: PeerId,
    connection: libp2p::core::connection::ConnectionId,
    event: HandlerEvent,
)
    requires
        requests_of(*old(toggle)) matches Some(requests) ==> made_by_default(requests),
        confirms_protocol(event) ==> (requests_of(*old(toggle)) matches Some(requests)
            ==> told_connected(requests, peer_id)),
    ensures
        requests_of(*final(toggle)) == then_asked(
            requests_of(*old(toggle)),
            seq![KademliaRequest::HandlerEvent { peer_id, connection, event }],
        ),
{
    toggle.inject_event(peer_id, connection, event)
}

/// Tells one variant of [`DialError`] apart: a dial that was refused by a
/// condition that always holds.
#[verifier::external_body]
pub(crate) fn is_refused_unconditionally(error: &DialError) -> (refused: bool)
    ensures
        refused == refused_unconditionally(*error),
{
    matches!(error, DialError::DialPeerConditionFalse(DialPeerCondition::Always))
}

/// The `inject_dial_failure` of [`Toggle`]: the toggle of an enabled Kademlia is
/// told. (It tells the Kademlia if the handler was one of an enabled one.) Of a
/// peer, Kademlia does not accept that a dial was refused by a condition that
/// always holds.
#[verifier::external_body]
pub(crate) fn kademlia_inject_dial_failure(
    toggle: &mut KademliaToggle,
    peer_id: Option<PeerId>,
    handler: HandlerProto,
    error: &DialError,
)
    requires
        requests_of(*old(toggle)) is Some && peer_id is Some ==> !refused_unconditionally(*error),
    ensures
        requests_of(*final(toggle)) == then_asked(
            requests_of(*old(toggle)),
            seq![
                KademliaRequest::DialFailure {
                    dialled: peer_id,
                    prototype: handler,
                    error: *error,
                },
            ],
        ),
{
    toggle.inject_dial_failure(peer_id, handler, error)
}

/// The `inject_new_listen_addr` of [`Toggle`]: an enabled Kademlia is told.
#[verifier::external_body]
pub(crate) fn kademlia_inject_new_listen_addr(
    toggle: &mut KademliaToggle,
    id: libp2p::core::connection::ListenerId,
    address: &Multiaddr,
)
    ensures
        requests_of(*final(toggle)) == then_asked(
            requests_of(*old(toggle)),
            seq![KademliaRequest::NewListenAddr { listener: id, address: *address }],
        ),
{
    toggle.inject_new_listen_addr(id, address)
}

/// The `inject_expired_listen_addr` of [`Toggle`]: an enabled Kademlia is told.
#[verifier::external_body]
pub(crate) fn kademlia_inject_expired_listen_addr(
    toggle: &mut KademliaToggle,
    id: libp2p::core::connection::ListenerId,
    address: &Multiaddr,
)
    ensures
        requests_of(*final(toggle)) == then_asked(
            requests_of(*old(toggle)),
            seq![KademliaRequest::ExpiredListenAddr { listener: id, address: *address }],
        ),
{
    toggle.inject_expired_listen_addr(id, address)
}

/// Why a listener closed, if it failed.
pub open spec fn failure_of(reason: Result<(), &std::io::Error>) -> Option<std::io::Error> {
    match reason {
        Ok(_) => None,
        Err(error) => Some(*error),
    }
}

/// The `inject_listener_closed` of [`Toggle`]: an enabled Kademlia is told. (It
/// draws no consequence.)
#[verifier::external_body]
pub(crate) fn kademlia_inject_listener_closed(
    toggle: &mut KademliaToggle,
    id: libp2p::core::connection::ListenerId,
    reason: Result<(), &std::io::Error>,
)
    ensures
        requests_of(*final(toggle)) == then_asked(
            requests_of(*old(toggle)),
            seq![KademliaRequest::ListenerClosed { listener: id, failure: failure_of(reason) }],
        ),
{
    toggle.inject_listener_closed(id, reason)
}

/// The `inject_new_external_addr` of [`Toggle`]: an enabled Kademlia is told.
#[verifier::external_body]
pub(crate) fn kademlia_inject_new_external_addr(toggle: &mut KademliaToggle, address: &Multiaddr)
    ensures
        requests_of(*final(toggle)) == then_asked(
            requests_of(*old(toggle)),
            seq![KademliaRequest::NewExternalAddr { address: *address }],
        ),
{
    toggle.inject_new_external_addr(address)
}

/// The record of a Kademlia as discovery makes it, before it is told of any
/// peer.
pub open spec fn created(local_peer_id: PeerId, disjoint_query_paths: bool) -> KademliaRequest {
    KademliaRequest::Create {
        local_peer_id,
        store_owner: local_peer_id,
        settings: KademliaSettings {
            disjoint_query_paths,
            protocol_name: network_protocol_name(),
            others_default: true,
        },
    }
}

/// Makes the Kademlia of the local node.
pub(crate) fn create_kademlia(local_peer_id: PeerId, disjoint_query_paths: bool) -> (kademlia:
    Kademlia<MemoryStore>)
    ensures
        kademlia_requests(kademlia) == seq![created(local_peer_id, disjoint_query_paths)],
{
    let store = new_memory_store(local_peer_id);
    let mut config = default_kademlia_config();
    set_disjoint_query_paths(&mut config, disjoint_query_paths);
    set_protocol_name(
        &mut config,
        vstd::slice::slice_to_vec("/anoma/kad/anoma/kad/1.0.0".as_bytes()),
    );
    kademlia_with_config(local_peer_id, store, config)
}

/// Offers the addresses of `list` to an enabled Kademlia, in order.
pub(crate) fn offer_addresses(toggle: &mut KademliaToggle, list: Vec<(PeerId, Multiaddr)>)
    ensures
        requests_of(*final(toggle)) == then_asked(
            requests_of(*old(toggle)),
            add_address_requests(list@),
        ),
{
    let ghost all = list@;
    let ghost asked = requests_of(*toggle);
    proof {
        assert(add_address_requests(all.take(0)) =~= Seq::empty());
        if let Some(requests) = asked {
            assert(requests + add_address_requests(all.take(0)) =~= requests);
        }
    }
    for entry in it: list
        invariant
            it.seq() == all,
            requests_of(*toggle) == then_asked(asked, add_address_requests(all.take(it.index()))),
    {
        let ghost i = it.index();
        let (peer_id, address) = entry;
        if let Some(kademlia) = kademlia_as_mut(toggle) {
            add_address(kademlia, &peer_id, address);
        }
        proof {
            assert(add_address_requests(all.take(i + 1)) =~= add_address_requests(all.take(i)).push(
                add_address_request((peer_id, address)),
            ));
            if let Some(requests) = asked {
                assert(requests + add_address_requests(all.take(i + 1)) =~= (requests
                    + add_address_requests(all.take(i))).push(
                    add_address_request((peer_id, address)),
                ));
            }
        }
    }
    assert(all.take(all.len() as int) == all);
}

} // verus!
