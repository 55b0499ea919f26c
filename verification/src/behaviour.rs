//! The discovery behaviour: its state, and what it does on each occasion.
use crate::action::{
    as_discovery_action, into_discovery_action, BehaviourAction, DiscoveryEvent, KademliaAction,
    MdnsAction, PollInput, PollStep,
};
use crate::config::{ConfigParts, DiscoveryConfig, DiscoveryConfigView};
use crate::delay::{delay_after, doubled, QueryDelay};
use crate::display::{render, rendered};
use crate::error::Error;
use crate::kademlia::{
    add_address, add_address_request, add_address_requests, all_found, all_found_by_kademlia,
    bootstrap, confirms_protocol, create_kademlia, created, enabled_kademlia, failure_of,
    found_by_queries, get_closest_peers, given_by_kademlia, is_confirmation,
    is_refused_unconditionally, kademlia_addresses_of_peer, kademlia_as_mut, kademlia_handler,
    kademlia_inject_address_change, kademlia_inject_connected, kademlia_inject_connection_closed,
    kademlia_inject_connection_established, kademlia_inject_dial_failure,
    kademlia_inject_disconnected, kademlia_inject_event, kademlia_inject_expired_listen_addr,
    kademlia_inject_listener_closed, kademlia_inject_new_external_addr,
    kademlia_inject_new_listen_addr, kademlia_is_enabled, kademlia_new_handler, kademlia_requests,
    kademlia_was_asked, made_by_default, offer_addresses, optional_list, refused_unconditionally,
    requests_of, routed_by_kademlia, routing_table, table_addresses, then_asked, toggle_kademlia,
    told_connected, ConnectionHandler, HandlerEvent, HandlerProto, KademliaRequest, KademliaToggle,
};
use crate::mdns::{
    enabled_mdns, given_by_mdns, held_by_mdns, mdns_addresses_of_peer, mdns_is_enabled, mdns_nodes,
    mdns_was_asked, toggle_mdns, unexpired, MdnsEvent, MdnsToggle,
};
use crate::peer::{
    addresses_in, addresses_of, chance_was_asked, clone_address, drawn_at_random, random_peer_id,
    set_holds_what_it_keeps, PeerAddress, PeerSet,
};
use crate::timer::{
    debug_interval, interval_secs, interval_was_written, new_interval, period_of,
    written_of_interval,
};
use async_std::stream::Interval;
use libp2p::kad::store::MemoryStore;
use libp2p::kad::Kademlia;
use libp2p::mdns::Mdns;
use libp2p::swarm::DialError;
use libp2p::{Multiaddr, PeerId};
use std::collections::VecDeque;
use vstd::prelude::*;
use vstd::string::StringExecFns;

verus! {

/// The state of discovery.
#[verifier::ext_equal]
pub struct DiscoveryView {
    /// Peers that the user names, with an address each.
    pub user_defined: Seq<PeerAddress>,
    /// What Kademlia has been asked; `None` if it is disabled.
    pub kademlia: Option<Seq<KademliaRequest>>,
    /// Whether multicast DNS is enabled.
    pub mdns_enabled: bool,
    /// The period of the timer of the random queries, in seconds; `None` if
    /// there is no timer.
    pub timer: Option<nat>,
    /// The period, in seconds, of the timer that comes next.
    pub next_delay: nat,
    /// Events that are to be reported, the next one first.
    pub pending_events: Seq<DiscoveryEvent>,
    /// The number of connections.
    pub num_connections: int,
    /// The connected peers.
    pub peers: Set<PeerId>,
    /// The number of connections at which discovery pauses.
    pub discovery_max: u64,
    /// Whether Kademlia declined to join the network at the start.
    pub bootstrap_failed: bool,
}

/// The peer and the address of an entry, as Kademlia is offered them.
pub open spec fn as_pair(entry: PeerAddress) -> (PeerId, Multiaddr) {
    (entry.peer_id, entry.address)
}

/// The entries of a list, as Kademlia is offered them.
pub open spec fn as_pairs(list: Seq<PeerAddress>) -> Seq<(PeerId, Multiaddr)> {
    list.map_values(|entry: PeerAddress| as_pair(entry))
}

impl DiscoveryView {
    /// The state that discovery starts in; `bootstrap_failed` is whether Kademlia
    /// declined to join the network.
    pub open spec fn initial(
        local_peer_id: PeerId,
        config: DiscoveryConfigView,
        bootstrap_failed: bool,
    ) -> Self {
        DiscoveryView {
            user_defined: config.user_defined,
            kademlia: if config.enable_kademlia {
                Some(
                    seq![created(local_peer_id, config.kademlia_disjoint_query_paths)]
                        + add_address_requests(as_pairs(config.user_defined))
                        + seq![KademliaRequest::Bootstrap],
                )
            } else {
                None
            },
            mdns_enabled: config.enable_mdns,
            timer: None,
            next_delay: delay_after(0),
            pending_events: Seq::empty(),
            num_connections: 0,
            peers: Set::empty(),
            discovery_max: config.discovery_max,
            bootstrap_failed,
        }
    }

    /// Tells whether Kademlia, if enabled, was made with default settings.
    pub open spec fn kademlia_made_by_default(self) -> bool {
        self.kademlia matches Some(requests) ==> made_by_default(requests)
    }

    /// Tells whether there is room for more connections.
    pub open spec fn below_limit(self) -> bool {
        self.num_connections < self.discovery_max
    }

    /// The state as text, with the connected peers in the order of `peers`.
    pub open spec fn text(self, peers: Seq<PeerId>, timer: Seq<char>) -> Seq<char> {
        rendered(
            self.user_defined,
            self.kademlia is Some,
            self.mdns_enabled,
            timer,
            self.next_delay,
            self.num_connections as nat,
            peers,
            self.discovery_max as nat,
        )
    }

    /// The state once the first connection to `peer_id` has come about.
    pub open spec fn connected(self, peer_id: PeerId) -> Self {
        DiscoveryView {
            peers: self.peers.insert(peer_id),
            pending_events: self.pending_events.push(DiscoveryEvent::Connected(peer_id)),
            kademlia: then_asked(self.kademlia, seq![KademliaRequest::Connected { peer_id }]),
            ..self
        }
    }

    /// The state once the last connection to `peer_id` is gone.
    pub open spec fn disconnected(self, peer_id: PeerId) -> Self {
        DiscoveryView {
            peers: self.peers.remove(peer_id),
            pending_events: self.pending_events.push(DiscoveryEvent::Disconnected(peer_id)),
            kademlia: then_asked(self.kademlia, seq![KademliaRequest::Disconnected { peer_id }]),
            ..self
        }
    }

    /// The state with one more connection.
    pub open spec fn connection_established(
        self,
        peer_id: PeerId,
        connection: libp2p::core::connection::ConnectionId,
        endpoint: libp2p::core::ConnectedPoint,
        failed_addresses: Option<Seq<Multiaddr>>,
    ) -> Self {
        DiscoveryView { num_connections: self.num_connections + 1, ..self }.passed_on(
            KademliaRequest::ConnectionEstablished {
                peer_id,
                connection,
                endpoint,
                failed_addresses,
            },
        )
    }

    /// The state with one connection less.
    pub open spec fn connection_closed(
        self,
        peer_id: PeerId,
        connection: libp2p::core::connection::ConnectionId,
        endpoint: libp2p::core::ConnectedPoint,
        handler: ConnectionHandler,
    ) -> Self {
        DiscoveryView { num_connections: self.num_connections - 1, ..self }.passed_on(
            KademliaRequest::ConnectionClosed { peer_id, connection, endpoint, handler },
        )
    }

    /// The state once Kademlia, if enabled, has been told something that
    /// discovery itself takes no note of.
    pub open spec fn passed_on(self, request: KademliaRequest) -> Self {
        DiscoveryView { kademlia: then_asked(self.kademlia, seq![request]), ..self }
    }

    /// The state once the next pending event, if any, has been reported.
    pub open spec fn event_reported(self) -> Self {
        DiscoveryView {
            pending_events: if self.pending_events.len() > 0 {
                self.pending_events.drop_first()
            } else {
                self.pending_events
            },
            ..self
        }
    }

    /// The state once the timer has fired: below the limit, Kademlia searches
    /// around `target`. A new timer waits for as long as had been planned, and
    /// the one after it for longer.
    pub open spec fn timer_fired(self, target: PeerId) -> Self {
        DiscoveryView {
            kademlia: if self.below_limit() {
                then_asked(self.kademlia, seq![KademliaRequest::GetClosestPeers { target }])
            } else {
                self.kademlia
            },
            timer: Some(self.next_delay),
            next_delay: doubled(self.next_delay),
            ..self
        }
    }

    /// The state once multicast DNS has discovered the peers of `list`: below
    /// the limit, Kademlia is offered them all; otherwise they are forgotten.
    pub open spec fn discovered(self, list: Seq<(PeerId, Multiaddr)>) -> Self {
        DiscoveryView {
            kademlia: if self.below_limit() {
                then_asked(self.kademlia, add_address_requests(list))
            } else {
                self.kademlia
            },
            ..self
        }
    }
}

/// What discovery does with an action of Kademlia: an event is dropped, and
/// anything else is handed on. When Kademlia has nothing, the timer is next if
/// there is one, and multicast DNS otherwise.
pub open spec fn after_kademlia<N>(
    state: DiscoveryView,
    polled: Option<KademliaAction<N>>,
) -> PollStep<N> {
    match polled {
        Some(BehaviourAction::GenerateEvent(_)) => PollStep::PollKademlia,
        Some(action) => PollStep::Ready(as_discovery_action(action)),
        None => if state.timer is Some {
            PollStep::PollTimer(None)
        } else {
            PollStep::PollMdns
        },
    }
}

/// What discovery does with an action of multicast DNS. A dial is handed on
/// with `handler` in place of the handler of multicast DNS; events and
/// notifications are not handed on. When multicast DNS has nothing, the poll is
/// over.
pub open spec fn after_mdns<H, M, N>(
    handler: HandlerProto,
    polled: Option<MdnsAction<H, M>>,
) -> PollStep<N> {
    match polled {
        Some(BehaviourAction::GenerateEvent(_)) => PollStep::PollMdns,
        Some(BehaviourAction::DialAddress { address, .. }) => PollStep::Ready(
            BehaviourAction::DialAddress { address, handler },
        ),
        Some(BehaviourAction::DialPeer { peer_id, condition, .. }) => PollStep::Ready(
            BehaviourAction::DialPeer { peer_id, condition, handler },
        ),
        Some(BehaviourAction::NotifyHandler { .. }) => PollStep::PollMdns,
        Some(BehaviourAction::ReportObservedAddr { address, score }) => PollStep::Ready(
            BehaviourAction::ReportObservedAddr { address, score },
        ),
        Some(BehaviourAction::CloseConnection { peer_id, connection }) => PollStep::Ready(
            BehaviourAction::CloseConnection { peer_id, connection },
        ),
        None => PollStep::Pending,
    }
}

/// The state and the step that follow `input`. `handler` is the one that
/// Kademlia makes, and `target` the peer around which a random query searches.
pub open spec fn poll_next<H, M, N>(
    state: DiscoveryView,
    handler: HandlerProto,
    target: PeerId,
    input: PollInput<H, M, N>,
) -> (DiscoveryView, PollStep<N>) {
    match input {
        PollInput::Start => if state.pending_events.len() > 0 {
            (
                state.event_reported(),
                PollStep::Ready(BehaviourAction::GenerateEvent(state.pending_events[0])),
            )
        } else {
            (state, PollStep::PollKademlia)
        },
        PollInput::Kademlia(polled) => (state, after_kademlia(state, polled)),
        PollInput::Timer(true) => (
            state.timer_fired(target),
            PollStep::PollTimer(
                if state.below_limit() {
                    Some(target)
                } else {
                    None
                },
            ),
        ),
        PollInput::Timer(false) => (state, PollStep::PollMdns),
        PollInput::Mdns(polled) => (
            match polled {
                Some(BehaviourAction::GenerateEvent(MdnsEvent::Discovered(list))) => {
                    state.discovered(list@)
                },
                _ => state,
            },
            after_mdns(handler, polled),
        ),
    }
}

/// Tells whether `input` can have Kademlia search, or offer it addresses.
pub open spec fn reaches_kademlia<H, M, N>(
    state: DiscoveryView,
    input: PollInput<H, M, N>,
) -> bool {
    state.below_limit() && match input {
        PollInput::Timer(fired) => fired,
        PollInput::Mdns(Some(BehaviourAction::GenerateEvent(MdnsEvent::Discovered(_)))) => true,
        _ => false,
    }
}

/// Implementation of a network behaviour that discovers the nodes on the
/// network.
pub struct DiscoveryBehaviour {
    /// User-defined list of nodes and their addresses. Typically includes
    /// bootstrap nodes and reserved nodes.
    user_defined: Vec<PeerAddress>,
    /// Kademlia discovery. One that is put in its place from outside has to have
    /// been made with default settings.
    pub kademlia: KademliaToggle,
    /// Discovers nodes on the local network.
    pub mdns: MdnsToggle,
    /// Stream that fires when we need to perform the next random Kademlia
    /// query.
    pub next_kad_random_query: Option<Interval>,
    /// After `next_kad_random_query` triggers, the next one triggers after
    /// this duration.
    duration_to_next_kad: QueryDelay,
    /// Events to return in priority when polled.
    pending_events: VecDeque<DiscoveryEvent>,
    /// Number of connections.
    num_connections: u64,
    /// Keeps set of peers connected.
    peers: PeerSet,
    /// Number of active connections to pause discovery on.
    discovery_max: u64,
    /// Whether Kademlia declined to join the network at the start.
    bootstrap_failed: bool,
}

impl View for DiscoveryBehaviour {
    type V = DiscoveryView;

    closed spec fn view(&self) -> DiscoveryView {
        DiscoveryView {
            user_defined: self.user_defined@,
            kademlia: requests_of(self.kademlia),
            mdns_enabled: enabled_mdns(self.mdns) is Some,
            timer: period_of(self.next_kad_random_query),
            next_delay: self.duration_to_next_kad@,
            pending_events: self.pending_events@,
            num_connections: self.num_connections as int,
            peers: self.peers@,
            discovery_max: self.discovery_max,
            bootstrap_failed: self.bootstrap_failed,
        }
    }
}

impl DiscoveryBehaviour {
    /// The Kademlia of this behaviour.
    pub closed spec fn kademlia_toggle(&self) -> KademliaToggle {
        self.kademlia
    }

    /// The multicast DNS of this behaviour.
    pub closed spec fn mdns_toggle(&self) -> MdnsToggle {
        self.mdns
    }

    /// The timer of the random queries.
    pub closed spec fn timer(&self) -> Option<Interval> {
        self.next_kad_random_query
    }

    /// The connected peers in the order in which they are kept.
    pub closed spec fn peer_order(&self) -> Seq<PeerId> {
        self.peers.order()
    }

    /// Tells whether multicast DNS and the timer are the same as in `before`.
    pub open spec fn same_mdns_and_timer(&self, before: &Self) -> bool {
        &&& self.mdns_toggle() == before.mdns_toggle()
        &&& self.timer() == before.timer()
    }

    /// Tells whether multicast DNS, the timer, and the order of the connected
    /// peers are the same as in `before`.
    pub open spec fn same_but_for_kademlia(&self, before: &Self) -> bool {
        &&& self.same_mdns_and_timer(before)
        &&& self.peer_order() == before.peer_order()
    }

    /// The handler that this behaviour makes for a connection.
    pub open spec fn handler(&self) -> HandlerProto {
        kademlia_handler(self.kademlia_toggle())
    }
}

/// The state tells of the parts as they are: what has been asked of the Kademlia
/// at hand, whether multicast DNS is at hand, how long the timer at hand waits,
/// and which peers are kept.
pub proof fn state_tells_of_the_parts(behaviour: DiscoveryBehaviour)
    ensures
        behaviour@.kademlia == match enabled_kademlia(behaviour.kademlia_toggle()) {
            Some(kademlia) => Some(kademlia_requests(kademlia)),
            None => None,
        },
        behaviour@.mdns_enabled == (enabled_mdns(behaviour.mdns_toggle()) is Some),
        behaviour@.timer == match behaviour.timer() {
            Some(interval) => Some(interval_secs(interval)),
            None => None,
        },
        behaviour@.peers == behaviour.peer_order().to_set(),
        behaviour.handler() == kademlia_handler(behaviour.kademlia_toggle()),
{
    set_holds_what_it_keeps(behaviour.peers);
}

/// The parts that the state tells of are those that a driver polls.
proof fn parts_are_those_that_are_polled(behaviour: DiscoveryBehaviour)
    ensures
        behaviour.kademlia_toggle() == behaviour.kademlia,
        behaviour.mdns_toggle() == behaviour.mdns,
        behaviour.timer() == behaviour.next_kad_random_query,
        behaviour.peer_order() == behaviour.peers.order(),
{
}

/// Two behaviours agree on the parts beside Kademlia exactly if they have the same
/// multicast DNS, the same timer, and the same peers in the same order.
pub proof fn agreement_is_on_each_part(before: DiscoveryBehaviour, after: DiscoveryBehaviour)
    ensures
        after.same_mdns_and_timer(&before) <==> {
            &&& after.mdns_toggle() == before.mdns_toggle()
            &&& after.timer() == before.timer()
        },
        after.same_but_for_kademlia(&before) <==> {
            &&& after.mdns_toggle() == before.mdns_toggle()
            &&& after.timer() == before.timer()
            &&& after.peer_order() == before.peer_order()
        },
{
}

/// The number of connections is a `u64`.
pub proof fn connection_count_fits(behaviour: DiscoveryBehaviour)
    ensures
        0 <= behaviour@.num_connections <= u64::MAX,
{
}

/// Tells Kademlia of the user's peers.
fn introduce(kademlia: &mut Kademlia<MemoryStore>, user_defined: &Vec<PeerAddress>)
    ensures
        kademlia_requests(*final(kademlia)) == kademlia_requests(*old(kademlia))
            + add_address_requests(as_pairs(user_defined@)),
{
    let ghost all = user_defined@;
    let ghost requests = kademlia_requests(*kademlia);
    assert(requests + add_address_requests(as_pairs(all.take(0))) =~= requests);
    for i in 0..user_defined.len()
        invariant
            all == user_defined@,
            kademlia_requests(*kademlia) == requests + add_address_requests(
                as_pairs(all.take(i as int)),
            ),
    {
        let entry = &user_defined[i];
        add_address(kademlia, &entry.peer_id, clone_address(&entry.address));
        assert(requests + add_address_requests(as_pairs(all.take(i + 1))) =~= (requests
            + add_address_requests(as_pairs(all.take(i as int)))).push(
            add_address_request(as_pair(*entry)),
        ));
    }
    assert(all.take(all.len() as int) == all);
}

impl DiscoveryBehaviour {
    /// Create a `DiscoveryBehaviour` from a config. `mdns` is what came of
    /// starting multicast DNS, which is only tried where the config enables it.
    pub fn new(
        local_peer_id: PeerId,
        config: DiscoveryConfig,
        mdns: Option<Result<Mdns, std::io::Error>>,
    ) -> (result: Result<DiscoveryBehaviour, Error>)
        requires
            mdns is Some <==> config@.enable_mdns,
        ensures
            match mdns {
                Some(Err(reason)) => result == Err::<DiscoveryBehaviour, Error>(
                    Error::FailedMdns(reason),
                ),
                _ => {
                    &&& result matches Ok(behaviour)
                    &&& behaviour@ == DiscoveryView::initial(
                        local_peer_id,
                        config@,
                        behaviour@.bootstrap_failed,
                    )
                    &&& behaviour@.bootstrap_failed == match enabled_kademlia(
                        behaviour.kademlia_toggle(),
                    ) {
                        Some(kademlia) => routing_table(kademlia).dom() == Set::<PeerId>::empty(),
                        None => false,
                    }
                    &&& enabled_mdns(behaviour.mdns_toggle()) == match mdns {
                        Some(Ok(mdns)) => Some(mdns),
                        _ => None,
                    }
                    &&& behaviour.timer() is None
                    &&& behaviour.peer_order() == Seq::<PeerId>::empty()
                },
            },
    {
        let ConfigParts {
            user_defined,
            discovery_max,
            enable_kademlia,
            kademlia_disjoint_query_paths,
        } = config.into_parts();
        let mut bootstrap_failed = false;
        let kademlia_opt = if enable_kademlia {
            let mut kademlia = create_kademlia(local_peer_id, kademlia_disjoint_query_paths);
            introduce(&mut kademlia, &user_defined);
            bootstrap_failed = bootstrap(&mut kademlia);
            Some(kademlia)
        } else {
            None
        };
        let mdns_opt = match mdns {
            Some(Ok(mdns)) => Some(mdns),
            Some(Err(reason)) => {
                return Err(Error::FailedMdns(reason));
            },
            None => None,
        };
        let behaviour = DiscoveryBehaviour {
            user_defined,
            kademlia: toggle_kademlia(kademlia_opt),
            mdns: toggle_mdns(mdns_opt),
            next_kad_random_query: None,
            duration_to_next_kad: QueryDelay::new(),
            pending_events: VecDeque::new(),
            num_connections: 0,
            peers: PeerSet::new(),
            discovery_max,
            bootstrap_failed,
        };
        assert(behaviour@ =~= DiscoveryView::initial(local_peer_id, config@, bootstrap_failed));
        Ok(behaviour)
    }

    /// Tells whether Kademlia declined to join the network at the start, for
    /// want of a peer that it could route to.
    pub fn bootstrap_failed(&self) -> (failed: bool)
        ensures
            failed == self@.bootstrap_failed,
    {
        self.bootstrap_failed
    }

    /// Number of active connections to pause discovery on.
    pub fn discovery_max(&self) -> (limit: u64)
        ensures
            limit == self@.discovery_max,
    {
        self.discovery_max
    }

    /// Tells whether there is room for more connections.
    pub fn below_limit(&self) -> (room: bool)
        ensures
            room == self@.below_limit(),
    {
        self.num_connections < self.discovery_max
    }

    /// Number of connections.
    pub fn num_connections(&self) -> (count: u64)
        ensures
            count == self@.num_connections,
    {
        self.num_connections
    }

    /// The connected peers.
    pub fn peers(&self) -> (peers: &PeerSet)
        ensures
            peers@ == self@.peers,
            peers.order() == self.peer_order(),
    {
        &self.peers
    }

    /// A handler for a new connection, as Kademlia makes it.
    pub fn new_handler(&mut self) -> (handler: HandlerProto)
        ensures
            handler == old(self).handler(),
            *final(self) == *old(self),
    {
        kademlia_new_handler(&mut self.kademlia)
    }

    /// The addresses of a peer, given what Kademlia and multicast DNS know:
    /// first those of the user's list, then those of Kademlia, then those of
    /// the local network.
    pub fn join_addresses(
        &self,
        peer_id: &PeerId,
        from_kademlia: Vec<Multiaddr>,
        from_mdns: Vec<Multiaddr>,
    ) -> (list: Vec<Multiaddr>)
        ensures
            list@ == addresses_in(self@.user_defined, *peer_id) + from_kademlia@ + from_mdns@,
    {
        let mut list = addresses_of(&self.user_defined, peer_id);
        let mut from_kademlia = from_kademlia;
        let mut from_mdns = from_mdns;
        list.append(&mut from_kademlia);
        list.append(&mut from_mdns);
        list
    }

    /// Look for the address of a peer first in the user defined list then in
    /// kademlia then lastly in the local network. Sum all possible address and
    /// returns.
    pub fn addresses_of_peer(&mut self, peer_id: &PeerId) -> (list: Vec<Multiaddr>)
        ensures
            final(self)@ == old(self)@,
            final(self).same_but_for_kademlia(old(self)),
            exists|from_queries: Seq<Multiaddr>, now: int|
                {
                    &&& list@ == addresses_in(old(self)@.user_defined, *peer_id)
                        + routed_by_kademlia(final(self).kademlia_toggle(), *peer_id)
                        + from_queries + held_by_mdns(final(self).mdns_toggle(), *peer_id, now)
                    &&& #[trigger] all_found_by_kademlia(
                        final(self).kademlia_toggle(),
                        *peer_id,
                        from_queries,
                    )
                    &&& (#[trigger] held_by_mdns(
                        final(self).mdns_toggle(),
                        *peer_id,
                        now,
                    )).no_duplicates()
                    &&& given_by_kademlia(
                        old(self).kademlia_toggle(),
                        *peer_id,
                        routed_by_kademlia(final(self).kademlia_toggle(), *peer_id) + from_queries,
                    )
                    &&& given_by_mdns(
                        old(self).mdns_toggle(),
                        *peer_id,
                        held_by_mdns(final(self).mdns_toggle(), *peer_id, now),
                    )
                    &&& old(self)@.kademlia is None ==> from_queries.len() == 0
                    &&& !old(self)@.mdns_enabled ==> held_by_mdns(
                        final(self).mdns_toggle(),
                        *peer_id,
                        now,
                    ).len() == 0
                },
            old(self)@.kademlia is None ==> routed_by_kademlia(
                final(self).kademlia_toggle(),
                *peer_id,
            ).len() == 0,
    {
        let from_kademlia = kademlia_addresses_of_peer(&mut self.kademlia, peer_id);
        let from_mdns = mdns_addresses_of_peer(&mut self.mdns, peer_id);
        let ghost known = from_kademlia@;
        let ghost seen = from_mdns@;
        let list = self.join_addresses(peer_id, from_kademlia, from_mdns);
        proof {
            kademlia_was_asked(old(self).kademlia, *peer_id, known);
            mdns_was_asked(old(self).mdns, *peer_id, seen);
            let from_queries = match enabled_kademlia(self.kademlia) {
                Some(kademlia) => choose|from_queries: Seq<Multiaddr>|
                    known == table_addresses(routing_table(kademlia), *peer_id) + from_queries
                        && #[trigger] all_found(
                        found_by_queries(kademlia),
                        *peer_id,
                        from_queries,
                    ),
                None => Seq::empty(),
            };
            let now = match enabled_mdns(self.mdns) {
                Some(mdns) => choose|now: int|
                    seen == #[trigger] unexpired(mdns_nodes(mdns), *peer_id, now),
                None => 0,
            };
            assert(all_found_by_kademlia(self.kademlia_toggle(), *peer_id, from_queries));
            assert(seen == held_by_mdns(self.mdns_toggle(), *peer_id, now));
            assert(known == routed_by_kademlia(self.kademlia_toggle(), *peer_id) + from_queries);
            assert(list@ == addresses_in(self@.user_defined, *peer_id) + routed_by_kademlia(
                self.kademlia_toggle(),
                *peer_id,
            ) + from_queries + held_by_mdns(self.mdns_toggle(), *peer_id, now));
        }
        list
    }

    /// Takes note of the first connection to a peer.
    pub fn inject_connected(&mut self, peer_id: &PeerId)
        ensures
            final(self)@ == old(self)@.connected(*peer_id),
            final(self).same_mdns_and_timer(old(self)),
    {
        self.peers.insert(*peer_id);
        self.pending_events.push_back(DiscoveryEvent::Connected(*peer_id));
        kademlia_inject_connected(&mut self.kademlia, peer_id);
    }

    /// Takes note that the last connection to a peer is gone.
    pub fn inject_disconnected(&mut self, peer_id: &PeerId)
        ensures
            final(self)@ == old(self)@.disconnected(*peer_id),
            final(self).same_mdns_and_timer(old(self)),
    {
        self.peers.remove(peer_id);
        self.pending_events.push_back(DiscoveryEvent::Disconnected(*peer_id));
        kademlia_inject_disconnected(&mut self.kademlia, peer_id);
    }

    /// Takes note of a connection.
    pub fn inject_connection_established(
        &mut self,
        peer_id: &PeerId,
        conn: &libp2p::core::connection::ConnectionId,
        endpoint: &libp2p::core::ConnectedPoint,
        failed_addresses: Option<&Vec<Multiaddr>>,
    )
        requires
            old(self)@.num_connections < u64::MAX,
        ensures
            final(self)@ == old(self)@.connection_established(
                *peer_id,
                *conn,
                *endpoint,
                optional_list(failed_addresses),
            ),
            final(self).same_but_for_kademlia(old(self)),
    {
        self.num_connections = self.num_connections + 1;
        kademlia_inject_connection_established(
            &mut self.kademlia,
            peer_id,
            conn,
            endpoint,
            failed_addresses,
        );
    }

    /// Takes note that a connection is closed.
    pub fn inject_connection_closed(
        &mut self,
        peer_id: &PeerId,
        conn: &libp2p::core::connection::ConnectionId,
        endpoint: &libp2p::core::ConnectedPoint,
        handler: ConnectionHandler,
    )
        requires
            old(self)@.num_connections > 0,
        ensures
            final(self)@ == old(self)@.connection_closed(*peer_id, *conn, *endpoint, handler),
            final(self).same_but_for_kademlia(old(self)),
    {
        self.num_connections = self.num_connections - 1;
        kademlia_inject_connection_closed(&mut self.kademlia, peer_id, conn, endpoint, handler);
    }

    /// Tells Kademlia that the ends of a connection have changed.
    pub fn inject_address_change(
        &mut self,
        peer: &PeerId,
        id: &libp2p::core::connection::ConnectionId,
        old_end: &libp2p::core::ConnectedPoint,
        new_end: &libp2p::core::ConnectedPoint,
    )
        ensures
            final(self)@ == old(self)@.passed_on(
                KademliaRequest::AddressChange {
                    peer_id: *peer,
                    connection: *id,
                    old: *old_end,
                    new: *new_end,
                },
            ),
            final(self).same_but_for_kademlia(old(self)),
    {
        kademlia_inject_address_change(&mut self.kademlia, peer, id, old_end, new_end);
    }

    /// Tells whether `peer_id` can be the one whose connection handler reports
    /// `event` to Kademlia: only a connected peer confirms the protocol.
    pub fn accepts_event(&self, peer_id: &PeerId, event: &HandlerEvent) -> (accepts: bool)
        ensures
            accepts == (self@.kademlia is Some && confirms_protocol(*event)
                ==> self@.peers.contains(*peer_id)),
    {
        !(kademlia_is_enabled(&self.kademlia) && is_confirmation(event) && !self.peers.contains(
            peer_id,
        ))
    }

    /// Hands Kademlia what the handler of a connection reports. If that confirms
    /// the protocol, Kademlia has to have been told of a connection to the peer. It
    /// has to be one with default settings, as [`DiscoveryBehaviour::new`] makes it.
    pub fn inject_event(
        &mut self,
        peer_id: PeerId,
        connection: libp2p::core::connection::ConnectionId,
        event: HandlerEvent,
    )
        requires
            old(self)@.kademlia_made_by_default(),
            confirms_protocol(event) ==> (old(self)@.kademlia matches Some(requests)
                ==> told_connected(requests, peer_id)),
        ensures
            final(self)@ == old(self)@.passed_on(
                KademliaRequest::HandlerEvent { peer_id, connection, event },
            ),
            final(self).same_but_for_kademlia(old(self)),
    {
        kademlia_inject_event(&mut self.kademlia, peer_id, connection, event);
    }

    /// Tells whether the failure of a dial can be reported: that a peer was not
    /// dialled because of a condition that always holds cannot.
    pub fn accepts_dial_failure(&self, peer_id: Option<PeerId>, error: &DialError) -> (accepts:
        bool)
        ensures
            accepts == (self@.kademlia is Some && peer_id is Some ==> !refused_unconditionally(
                *error,
            )),
    {
        !(kademlia_is_enabled(&self.kademlia) && peer_id.is_some() && is_refused_unconditionally(
            error,
        ))
    }

    /// Tells Kademlia that a peer could not be dialled.
    pub fn inject_dial_failure(
        &mut self,
        peer_id: Option<PeerId>,
        handler: HandlerProto,
        error: &DialError,
    )
        requires
            old(self)@.kademlia is Some && peer_id is Some ==> !refused_unconditionally(*error),
        ensures
            final(self)@ == old(self)@.passed_on(
                KademliaRequest::DialFailure {
                    dialled: peer_id,
                    prototype: handler,
                    error: *error,
                },
            ),
            final(self).same_but_for_kademlia(old(self)),
    {
        kademlia_inject_dial_failure(&mut self.kademlia, peer_id, handler, error);
    }

    /// Tells Kademlia that the local node listens on an address.
    pub fn inject_new_listen_addr(
        &mut self,
        id: libp2p::core::connection::ListenerId,
        addr: &Multiaddr,
    )
        ensures
            final(self)@ == old(self)@.passed_on(
                KademliaRequest::NewListenAddr { listener: id, address: *addr },
            ),
            final(self).same_but_for_kademlia(old(self)),
    {
        kademlia_inject_new_listen_addr(&mut self.kademlia, id, addr);
    }

    /// Tells Kademlia that the local node listens on an address no more.
    pub fn inject_expired_listen_addr(
        &mut self,
        id: libp2p::core::connection::ListenerId,
        addr: &Multiaddr,
    )
        ensures
            final(self)@ == old(self)@.passed_on(
                KademliaRequest::ExpiredListenAddr { listener: id, address: *addr },
            ),
            final(self).same_but_for_kademlia(old(self)),
    {
        kademlia_inject_expired_listen_addr(&mut self.kademlia, id, addr);
    }

    /// Tells Kademlia that a listener has closed.
    pub fn inject_listener_closed(
        &mut self,
        id: libp2p::core::connection::ListenerId,
        reason: Result<(), &std::io::Error>,
    )
        ensures
            final(self)@ == old(self)@.passed_on(
                KademliaRequest::ListenerClosed { listener: id, failure: failure_of(reason) },
            ),
            final(self).same_but_for_kademlia(old(self)),
    {
        kademlia_inject_listener_closed(&mut self.kademlia, id, reason);
    }

    /// Tells Kademlia of an address at which the local node is seen.
    pub fn inject_new_external_addr(&mut self, addr: &Multiaddr)
        ensures
            final(self)@ == old(self)@.passed_on(
                KademliaRequest::NewExternalAddr { address: *addr },
            ),
            final(self).same_but_for_kademlia(old(self)),
    {
        kademlia_inject_new_external_addr(&mut self.kademlia, addr);
    }

    /// Sets the next timer, and has the one after it wait for longer.
    fn set_next_timer(&mut self)
        ensures
            final(self)@ == (DiscoveryView {
                timer: Some(old(self)@.next_delay),
                next_delay: doubled(old(self)@.next_delay),
                ..old(self)@
            }),
            final(self).kademlia_toggle() == old(self).kademlia_toggle(),
            final(self).mdns_toggle() == old(self).mdns_toggle(),
            final(self).peer_order() == old(self).peer_order(),
    {
        self.next_kad_random_query = Some(new_interval(self.duration_to_next_kad.secs()));
        self.duration_to_next_kad.advance();
    }

    /// The timer of the random queries has fired: searches around `target`
    /// unless there are enough connections, and sets the next timer. Kademlia has
    /// to be one with default settings, as [`DiscoveryBehaviour::new`] makes it.
    pub fn random_query(&mut self, target: PeerId)
        requires
            old(self)@.kademlia_made_by_default(),
        ensures
            final(self)@ == old(self)@.timer_fired(target),
            final(self).mdns_toggle() == old(self).mdns_toggle(),
            final(self).peer_order() == old(self).peer_order(),
            !old(self)@.below_limit() ==> final(self).kademlia_toggle() == old(
                self,
            ).kademlia_toggle(),
    {
        if self.below_limit() {
            if let Some(kademlia) = kademlia_as_mut(&mut self.kademlia) {
                get_closest_peers(kademlia, target);
            }
        }
        self.set_next_timer();
    }

    /// Multicast DNS has discovered peers: offers them to Kademlia unless there
    /// are enough connections.
    pub fn mdns_discovered(&mut self, list: Vec<(PeerId, Multiaddr)>)
        ensures
            final(self)@ == old(self)@.discovered(list@),
            final(self).same_but_for_kademlia(old(self)),
            !old(self)@.below_limit() ==> final(self).kademlia_toggle() == old(
                self,
            ).kademlia_toggle(),
    {
        if self.below_limit() {
            offer_addresses(&mut self.kademlia, list);
        }
    }

    /// Kademlia has been polled.
    pub fn kademlia_polled<N>(&self, polled: Option<KademliaAction<N>>) -> (step: PollStep<N>)
        ensures
            step == after_kademlia(self@, polled),
    {
        match polled {
            Some(BehaviourAction::GenerateEvent(_)) => PollStep::PollKademlia,
            Some(action) => PollStep::Ready(into_discovery_action(action)),
            None => if self.next_kad_random_query.is_some() {
                PollStep::PollTimer(None)
            } else {
                PollStep::PollMdns
            },
        }
    }

    /// Multicast DNS has been polled.
    pub fn mdns_polled<H, M, N>(&mut self, polled: Option<MdnsAction<H, M>>) -> (step: PollStep<N>)
        ensures
            step == after_mdns::<H, M, N>(old(self).handler(), polled),
            final(self)@ == (match polled {
                Some(BehaviourAction::GenerateEvent(MdnsEvent::Discovered(list))) => {
                    old(self)@.discovered(list@)
                },
                _ => old(self)@,
            }),
            final(self).same_but_for_kademlia(old(self)),
            !reaches_kademlia::<H, M, N>(old(self)@, PollInput::Mdns(polled))
                ==> final(self).kademlia_toggle() == old(self).kademlia_toggle(),
    {
        match polled {
            Some(BehaviourAction::GenerateEvent(event)) => {
                match event {
                    MdnsEvent::Discovered(list) => self.mdns_discovered(list),
                    MdnsEvent::Expired(_) => {},
                }
                PollStep::PollMdns
            },
            Some(BehaviourAction::DialAddress { address, handler: _ }) => {
                let handler = self.new_handler();
                PollStep::Ready(BehaviourAction::DialAddress { address, handler })
            },
            Some(BehaviourAction::DialPeer { peer_id, condition, handler: _ }) => {
                let handler = self.new_handler();
                PollStep::Ready(BehaviourAction::DialPeer { peer_id, condition, handler })
            },
            // Nothing to notify handler
            Some(BehaviourAction::NotifyHandler { .. }) => PollStep::PollMdns,
            Some(BehaviourAction::ReportObservedAddr { address, score }) => PollStep::Ready(
                BehaviourAction::ReportObservedAddr { address, score },
            ),
            Some(BehaviourAction::CloseConnection { peer_id, connection }) => PollStep::Ready(
                BehaviourAction::CloseConnection { peer_id, connection },
            ),
            None => PollStep::Pending,
        }
    }

    /// One step of a poll: first the local queue, then Kademlia, then the timer
    /// of the random queries, and lastly multicast DNS. The driver starts with
    /// [`PollInput::Start`], does what it is told, and brings what came of it.
    pub fn poll<H, M, N>(&mut self, input: PollInput<H, M, N>) -> (step: PollStep<N>)
        requires
            input is Timer ==> old(self)@.timer is Some,
            input == PollInput::<H, M, N>::Timer(true) ==> old(self)@.kademlia_made_by_default(),
        ensures
            exists|target: PeerId|
                {
                    &&& #[trigger] poll_next(old(self)@, old(self).handler(), target, input) == (
                        final(self)@,
                        step,
                    )
                    &&& step matches PollStep::PollTimer(Some(searched)) ==> drawn_at_random(
                        searched,
                    )
                },
            final(self).mdns_toggle() == old(self).mdns_toggle(),
            final(self).peer_order() == old(self).peer_order(),
            input != PollInput::<H, M, N>::Timer(true) ==> final(self).timer() == old(self).timer(),
            !reaches_kademlia(old(self)@, input) ==> final(self).kademlia_toggle() == old(
                self,
            ).kademlia_toggle(),
    {
        let ghost handler = self.handler();
        let ghost before = self@;
        let ghost mut target = arbitrary::<PeerId>();
        let step = match input {
            PollInput::Start => match self.pending_events.pop_front() {
                Some(event) => PollStep::Ready(BehaviourAction::GenerateEvent(event)),
                None => PollStep::PollKademlia,
            },
            PollInput::Kademlia(polled) => self.kademlia_polled(polled),
            PollInput::Timer(true) => {
                if self.below_limit() {
                    let random_peer = random_peer_id();
                    proof {
                        chance_was_asked(random_peer);
                        target = random_peer;
                    }
                    self.random_query(random_peer);
                    PollStep::PollTimer(Some(random_peer))
                } else {
                    self.set_next_timer();
                    PollStep::PollTimer(None)
                }
            },
            PollInput::Timer(false) => PollStep::PollMdns,
            PollInput::Mdns(polled) => self.mdns_polled(polled),
        };
        assert(poll_next(before, handler, target, input) == (self@, step));
        step
    }

    /// The text of this behaviour, given what tells of the timer.
    pub open spec fn text(&self, timer: Seq<char>) -> Seq<char> {
        self@.text(self.peer_order(), timer)
    }

    /// The state as text, given what tells of the timer.
    pub fn text_with_timer(&self, timer: &str) -> (text: String)
        ensures
            text@ == self.text(timer@),
            text@ == rendered(
                self@.user_defined,
                self@.kademlia is Some,
                self@.mdns_enabled,
                timer@,
                self@.next_delay,
                self@.num_connections as nat,
                self.peer_order(),
                self@.discovery_max as nat,
            ),
            self.peer_order().no_duplicates(),
            self.peer_order().to_set() == self@.peers,
    {
        render(
            &self.user_defined,
            kademlia_is_enabled(&self.kademlia),
            mdns_is_enabled(&self.mdns),
            timer,
            self.duration_to_next_kad.secs(),
            self.num_connections,
            self.peers.members(),
            self.discovery_max,
        )
    }

    /// The state as text.
    pub fn display(&self) -> (text: String)
        ensures
            self@.timer is None ==> text@ == self.text("None"@),
            self@.timer is Some ==> exists|interval: Seq<char>|
                {
                    &&& text@ == self.text(#[trigger] ("Some("@ + interval + ")"@))
                    &&& written_of_interval(self.timer()->0, interval)
                },
            self.peer_order().no_duplicates(),
            self.peer_order().to_set() == self@.peers,
    {
        match &self.next_kad_random_query {
            None => self.text_with_timer("None"),
            Some(interval) => {
                let ghost shown = *interval;
                let interval = debug_interval(interval);
                proof {
                    interval_was_written(shown, interval@);
                }
                let timer = String::from_str("Some(").concat(interval.as_str()).concat(")");
                assert(timer@ == "Some("@ + interval@ + ")"@);
                self.text_with_timer(timer.as_str())
            },
        }
    }
}

} // verus!
