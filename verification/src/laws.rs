//! Properties of discovery that span several operations.
use crate::action::{BehaviourAction, DiscoveryEvent, PollInput, PollStep};
use crate::behaviour::{poll_next, DiscoveryView};
use crate::config::DiscoveryConfigView;
use crate::delay::delay_after;
use crate::kademlia::{
    add_address_request, created, told_connected, ConnectionHandler,
    HandlerEvent, HandlerProto, KademliaRequest,
};
use crate::mdns::MdnsEvent;
use crate::peer::{addresses_in, PeerAddress};
use libp2p::swarm::DialError;
use libp2p::{Multiaddr, PeerId};
use vstd::prelude::*;

verus! {

/// Something that happens to discovery.
pub enum Operation {
    /// The first connection to a peer has come about.
    Connected(PeerId),
    /// The last connection to a peer is gone.
    Disconnected(PeerId),
    /// There is one connection more.
    ConnectionEstablished {
        peer_id: PeerId,
        connection: libp2p::core::connection::ConnectionId,
        endpoint: libp2p::core::ConnectedPoint,
        failed_addresses: Option<Seq<Multiaddr>>,
    },
    /// There is one connection less.
    ConnectionClosed {
        peer_id: PeerId,
        connection: libp2p::core::connection::ConnectionId,
        endpoint: libp2p::core::ConnectedPoint,
        handler: ConnectionHandler,
    },
    /// The ends of a connection have changed.
    AddressChange {
        peer_id: PeerId,
        connection: libp2p::core::connection::ConnectionId,
        old: libp2p::core::ConnectedPoint,
        new: libp2p::core::ConnectedPoint,
    },
    /// The handler of a connection reports something.
    HandlerEvent {
        peer_id: PeerId,
        connection: libp2p::core::connection::ConnectionId,
        event: HandlerEvent,
    },
    /// A peer could not be dialled.
    DialFailure { dialled: Option<PeerId>, prototype: HandlerProto, error: DialError },
    /// The local node listens on an address.
    NewListenAddr { listener: libp2p::core::connection::ListenerId, address: Multiaddr },
    /// The local node listens on an address no more.
    ExpiredListenAddr { listener: libp2p::core::connection::ListenerId, address: Multiaddr },
    /// A listener is closed.
    ListenerClosed {
        listener: libp2p::core::connection::ListenerId,
        failure: Option<std::io::Error>,
    },
    /// The local node is seen at an address.
    NewExternalAddr { address: Multiaddr },
    /// The next pending event is reported, if there is one.
    EventReported,
    /// The timer of the random queries has fired; the search is around a peer.
    TimerFired(PeerId),
    /// Multicast DNS has discovered peers.
    Discovered(Seq<(PeerId, Multiaddr)>),
}

/// The state after one operation.
pub open spec fn apply(state: DiscoveryView, operation: Operation) -> DiscoveryView {
    match operation {
        Operation::Connected(peer_id) => state.connected(peer_id),
        Operation::Disconnected(peer_id) => state.disconnected(peer_id),
        Operation::ConnectionEstablished { peer_id, connection, endpoint, failed_addresses } => {
            state.connection_established(peer_id, connection, endpoint, failed_addresses)
        },
        Operation::ConnectionClosed { peer_id, connection, endpoint, handler } => {
            state.connection_closed(peer_id, connection, endpoint, handler)
        },
        Operation::AddressChange { peer_id, connection, old, new } => state.passed_on(
            KademliaRequest::AddressChange { peer_id, connection, old, new },
        ),
        Operation::HandlerEvent { peer_id, connection, event } => state.passed_on(
            KademliaRequest::HandlerEvent { peer_id, connection, event },
        ),
        Operation::DialFailure { dialled, prototype, error } => state.passed_on(
            KademliaRequest::DialFailure { dialled, prototype, error },
        ),
        Operation::NewListenAddr { listener, address } => state.passed_on(
            KademliaRequest::NewListenAddr { listener, address },
        ),
        Operation::ExpiredListenAddr { listener, address } => state.passed_on(
            KademliaRequest::ExpiredListenAddr { listener, address },
        ),
        Operation::ListenerClosed { listener, failure } => state.passed_on(
            KademliaRequest::ListenerClosed { listener, failure },
        ),
        Operation::NewExternalAddr { address } => state.passed_on(
            KademliaRequest::NewExternalAddr { address },
        ),
        Operation::EventReported => state.event_reported(),
        Operation::TimerFired(target) => state.timer_fired(target),
        Operation::Discovered(list) => state.discovered(list),
    }
}

/// The state after operations, one after the other.
pub open spec fn run(state: DiscoveryView, operations: Seq<Operation>) -> DiscoveryView
    decreases operations.len(),
{
    if operations.len() == 0 {
        state
    } else {
        apply(run(state, operations.drop_last()), operations.last())
    }
}

/// How many of the operations meet a condition.
pub open spec fn count(operations: Seq<Operation>, condition: spec_fn(Operation) -> bool) -> nat
    decreases operations.len(),
{
    if operations.len() == 0 {
        0
    } else {
        count(operations.drop_last(), condition) + if condition(operations.last()) {
            1nat
        } else {
            0nat
        }
    }
}

/// The events that the operations report, the first one first.
pub open spec fn reported(state: DiscoveryView, operations: Seq<Operation>) -> Seq<DiscoveryEvent>
    decreases operations.len(),
{
    if operations.len() == 0 {
        Seq::empty()
    } else {
        let earlier = reported(state, operations.drop_last());
        let pending = run(state, operations.drop_last()).pending_events;
        if operations.last() is EventReported && pending.len() > 0 {
            earlier.push(pending[0])
        } else {
            earlier
        }
    }
}

/// The events that the operations give rise to, the first one first.
pub open spec fn raised(operations: Seq<Operation>) -> Seq<DiscoveryEvent>
    decreases operations.len(),
{
    if operations.len() == 0 {
        Seq::empty()
    } else {
        let earlier = raised(operations.drop_last());
        match operations.last() {
            Operation::Connected(peer_id) => earlier.push(DiscoveryEvent::Connected(peer_id)),
            Operation::Disconnected(peer_id) => earlier.push(DiscoveryEvent::Disconnected(peer_id)),
            _ => earlier,
        }
    }
}

/// Whether `peer_id` is connected after the operations, given whether it was
/// before: what was said of it last decides.
pub open spec fn connected_after(before: bool, operations: Seq<Operation>, peer_id: PeerId) -> bool
    decreases operations.len(),
{
    if operations.len() == 0 {
        before
    } else if operations.last() == Operation::Connected(peer_id) {
        true
    } else if operations.last() == Operation::Disconnected(peer_id) {
        false
    } else {
        connected_after(before, operations.drop_last(), peer_id)
    }
}

/// The number of connections is the number that were established less the
/// number that were closed.
pub proof fn connections_are_counted(state: DiscoveryView, operations: Seq<Operation>)
    ensures
        run(state, operations).num_connections == state.num_connections + count(
            operations,
            |operation: Operation| operation is ConnectionEstablished,
        ) - count(operations, |operation: Operation| operation is ConnectionClosed),
    decreases operations.len(),
{
    if operations.len() > 0 {
        connections_are_counted(state, operations.drop_last());
    }
}

/// Every event is reported once, in the order in which events arose: what has
/// been reported, followed by what is still pending, is what was pending at
/// first, followed by what arose since.
pub proof fn events_are_reported_in_order(state: DiscoveryView, operations: Seq<Operation>)
    ensures
        reported(state, operations) + run(state, operations).pending_events == state.pending_events
            + raised(operations),
    decreases operations.len(),
{
    if operations.len() > 0 {
        let earlier = operations.drop_last();
        events_are_reported_in_order(state, earlier);
        let pending = run(state, earlier).pending_events;
        match operations.last() {
            Operation::Connected(peer_id) => {
                let event = DiscoveryEvent::Connected(peer_id);
                assert(reported(state, earlier) + pending.push(event) =~= (reported(state, earlier)
                    + pending).push(event));
            },
            Operation::Disconnected(peer_id) => {
                let event = DiscoveryEvent::Disconnected(peer_id);
                assert(reported(state, earlier) + pending.push(event) =~= (reported(state, earlier)
                    + pending).push(event));
            },
            _ => {},
        }
        assert(reported(state, operations) + run(state, operations).pending_events
            =~= state.pending_events + raised(operations));
    } else {
        assert(reported(state, operations) + run(state, operations).pending_events
            =~= state.pending_events + raised(operations));
    }
}

/// A peer is among the connected ones exactly if the last thing that was said
/// of it is that it is connected, or nothing was said and it was among them
/// before.
pub proof fn peers_follow_the_last_word(
    state: DiscoveryView,
    operations: Seq<Operation>,
    peer_id: PeerId,
)
    ensures
        run(state, operations).peers.contains(peer_id) == connected_after(
            state.peers.contains(peer_id),
            operations,
            peer_id,
        ),
    decreases operations.len(),
{
    if operations.len() > 0 {
        peers_follow_the_last_word(state, operations.drop_last(), peer_id);
    }
}

/// The user's list, the limit, which sources are enabled, and whether the network
/// could be joined at the start never change. In particular the addresses that
/// the user gives never expire.
pub proof fn settings_never_change(state: DiscoveryView, operations: Seq<Operation>)
    ensures
        run(state, operations).user_defined == state.user_defined,
        run(state, operations).discovery_max == state.discovery_max,
        run(state, operations).mdns_enabled == state.mdns_enabled,
        run(state, operations).kademlia is Some == state.kademlia is Some,
        run(state, operations).bootstrap_failed == state.bootstrap_failed,
    decreases operations.len(),
{
    if operations.len() > 0 {
        settings_never_change(state, operations.drop_last());
    }
}

/// What Kademlia has been asked is never taken back: the record only grows.
pub proof fn requests_only_grow(state: DiscoveryView, operations: Seq<Operation>)
    requires
        state.kademlia is Some,
    ensures
        run(state, operations).kademlia is Some,
        state.kademlia->0.is_prefix_of(run(state, operations).kademlia->0),
    decreases operations.len(),
{
    if operations.len() > 0 {
        requests_only_grow(state, operations.drop_last());
    }
}

/// A request by which Kademlia comes to look for further peers.
pub open spec fn seeks_peers(request: KademliaRequest) -> bool {
    request is GetClosestPeers || request is AddAddress
}

/// Discovery pauses at the limit: from a state with enough connections, and for
/// as long as no connection closes, Kademlia is neither asked to search nor
/// offered addresses.
pub proof fn discovery_pauses_at_the_limit(state: DiscoveryView, operations: Seq<Operation>)
    requires
        !state.below_limit(),
        state.kademlia is Some,
        forall|i: int|
            0 <= i < operations.len() ==> !(#[trigger] operations[i] is ConnectionClosed),
    ensures
        !run(state, operations).below_limit(),
        run(state, operations).kademlia is Some,
        forall|i: int|
            state.kademlia->0.len() <= i < run(state, operations).kademlia->0.len()
                ==> !seeks_peers(#[trigger] run(state, operations).kademlia->0[i]),
    decreases operations.len(),
{
    if operations.len() > 0 {
        let earlier = operations.drop_last();
        assert forall|i: int| 0 <= i < earlier.len() implies !(#[trigger] earlier[i]
            is ConnectionClosed) by {
            assert(earlier[i] == operations[i]);
        }
        discovery_pauses_at_the_limit(state, earlier);
        assert(!(operations[operations.len() - 1] is ConnectionClosed));
    }
}

/// Below the limit, each firing of the timer has Kademlia search, and each
/// discovered address is offered to Kademlia.
pub proof fn discovery_goes_on_below_the_limit(
    state: DiscoveryView,
    target: PeerId,
    list: Seq<(PeerId, Multiaddr)>,
)
    requires
        state.below_limit(),
        state.kademlia is Some,
    ensures
        state.timer_fired(target).kademlia == Some(
            state.kademlia->0.push(KademliaRequest::GetClosestPeers { target }),
        ),
        state.discovered(list).kademlia is Some,
        forall|i: int|
            0 <= i < list.len() ==> state.discovered(list).kademlia->0.contains(
                add_address_request(#[trigger] list[i]),
            ),
{
    assert(state.kademlia->0 + seq![KademliaRequest::GetClosestPeers { target }]
        =~= state.kademlia->0.push(KademliaRequest::GetClosestPeers { target }));
    let requests = state.discovered(list).kademlia->0;
    assert forall|i: int| 0 <= i < list.len() implies requests.contains(
        add_address_request(#[trigger] list[i]),
    ) by {
        assert(requests[state.kademlia->0.len() + i] == add_address_request(list[i]));
    }
}

/// From the start on, the time that the next timer waits depends only on how
/// often the timer has fired. Once it has fired, there is a timer, and it waits
/// for the time that was planned when it was set.
pub proof fn timer_backs_off(
    local_peer_id: PeerId,
    config: DiscoveryConfigView,
    bootstrap_failed: bool,
    operations: Seq<Operation>,
)
    ensures
        ({
            let state = run(
                DiscoveryView::initial(local_peer_id, config, bootstrap_failed),
                operations,
            );
            let fired = count(operations, |operation: Operation| operation is TimerFired);
            &&& state.next_delay == delay_after(fired)
            &&& state.timer == if fired == 0 {
                None
            } else {
                Some(delay_after((fired - 1) as nat))
            }
        }),
    decreases operations.len(),
{
    if operations.len() > 0 {
        timer_backs_off(local_peer_id, config, bootstrap_failed, operations.drop_last());
    }
}

/// A connection that comes and goes leaves the count as it was, and a peer that
/// comes and goes is not among the connected ones, while all others stay.
pub proof fn coming_and_going_cancel_out(
    state: DiscoveryView,
    peer_id: PeerId,
    connection: libp2p::core::connection::ConnectionId,
    endpoint: libp2p::core::ConnectedPoint,
    failed_addresses: Option<Seq<Multiaddr>>,
    handler: ConnectionHandler,
)
    ensures
        state.connection_established(
            peer_id,
            connection,
            endpoint,
            failed_addresses,
        ).connection_closed(peer_id, connection, endpoint, handler).num_connections
            == state.num_connections,
        state.connected(peer_id).disconnected(peer_id).peers == state.peers.remove(peer_id),
        state.disconnected(peer_id).connected(peer_id).peers == state.peers.insert(peer_id),
{
    assert(state.connected(peer_id).disconnected(peer_id).peers =~= state.peers.remove(peer_id));
    assert(state.disconnected(peer_id).connected(peer_id).peers =~= state.peers.insert(peer_id));
}

/// At the start, an enabled Kademlia has been made for the local node, has been
/// offered the user's peers in the order of the list, and has then been asked
/// to join the network. No peer is connected yet.
pub proof fn user_peers_are_offered_first(
    local_peer_id: PeerId,
    config: DiscoveryConfigView,
    bootstrap_failed: bool,
)
    requires
        config.enable_kademlia,
    ensures
        ({
            let state = DiscoveryView::initial(local_peer_id, config, bootstrap_failed);
            let requests = state.kademlia->0;
            let n = config.user_defined.len();
            &&& state.kademlia is Some
            &&& requests.len() == n + 2
            &&& requests[0] == created(local_peer_id, config.kademlia_disjoint_query_paths)
            &&& forall|i: int|
                0 <= i < n ==> requests[i + 1] == (KademliaRequest::AddAddress {
                    peer_id: (#[trigger] config.user_defined[i]).peer_id,
                    address: config.user_defined[i].address,
                })
            &&& requests[n as int + 1] == KademliaRequest::Bootstrap
            &&& state.peers == Set::<PeerId>::empty()
        }),
{
}

/// Kademlia takes the same peers to be connected as discovery does: from the
/// start on, a peer is among the connected ones exactly if the last that
/// Kademlia was told of it is that it is connected.
pub proof fn kademlia_knows_who_is_connected(
    local_peer_id: PeerId,
    config: DiscoveryConfigView,
    bootstrap_failed: bool,
    operations: Seq<Operation>,
    peer_id: PeerId,
)
    requires
        config.enable_kademlia,
    ensures
        ({
            let state = run(
                DiscoveryView::initial(local_peer_id, config, bootstrap_failed),
                operations,
            );
            &&& state.kademlia is Some
            &&& told_connected(state.kademlia->0, peer_id) == state.peers.contains(peer_id)
        }),
    decreases operations.len(),
{
    let start = DiscoveryView::initial(local_peer_id, config, bootstrap_failed);
    if operations.len() == 0 {
        lemma_said_nothing(Seq::empty(), start.kademlia->0, peer_id);
        assert(Seq::<KademliaRequest>::empty() + start.kademlia->0 =~= start.kademlia->0);
    } else {
        let earlier = operations.drop_last();
        kademlia_knows_who_is_connected(
            local_peer_id,
            config,
            bootstrap_failed,
            earlier,
            peer_id,
        );
        let before = run(start, earlier).kademlia->0;
        let after = run(start, operations).kademlia->0;
        match operations.last() {
            Operation::Connected(_) | Operation::Disconnected(_) => {
                assert(after.drop_last() =~= before);
            },
            _ => {
                let more = after.skip(before.len() as int);
                assert(after =~= before + more);
                lemma_said_nothing(before, more, peer_id);
            },
        }
    }
}

/// From the start on, Kademlia is the one that was made at the start, with
/// default settings.
pub proof fn kademlia_stays_as_made(
    local_peer_id: PeerId,
    config: DiscoveryConfigView,
    bootstrap_failed: bool,
    operations: Seq<Operation>,
)
    ensures
        ({
            let state = run(
                DiscoveryView::initial(local_peer_id, config, bootstrap_failed),
                operations,
            );
            &&& state.kademlia_made_by_default()
            &&& config.enable_kademlia ==> state.kademlia->0[0] == created(
                local_peer_id,
                config.kademlia_disjoint_query_paths,
            )
        }),
{
    let start = DiscoveryView::initial(local_peer_id, config, bootstrap_failed);
    settings_never_change(start, operations);
    if config.enable_kademlia {
        requests_only_grow(start, operations);
        assert(run(start, operations).kademlia->0[0] == start.kademlia->0[0]);
    }
}

/// Requests that do not tell of a peer that has come or gone do not change what
/// was said last.
proof fn lemma_said_nothing(
    requests: Seq<KademliaRequest>,
    more: Seq<KademliaRequest>,
    peer_id: PeerId,
)
    requires
        forall|i: int|
            0 <= i < more.len() ==> !(#[trigger] more[i] is Connected || more[i] is Disconnected),
    ensures
        told_connected(requests + more, peer_id) == told_connected(requests, peer_id),
    decreases more.len(),
{
    if more.len() == 0 {
        assert(requests + more =~= requests);
    } else {
        lemma_said_nothing(requests, more.drop_last(), peer_id);
        assert((requests + more).drop_last() =~= requests + more.drop_last());
        assert((requests + more).last() == more[more.len() - 1]);
    }
}

/// With Kademlia disabled nothing is ever asked of it.
pub proof fn disabled_kademlia_is_left_alone(
    local_peer_id: PeerId,
    config: DiscoveryConfigView,
    bootstrap_failed: bool,
    operations: Seq<Operation>,
)
    requires
        !config.enable_kademlia,
    ensures
        run(
            DiscoveryView::initial(local_peer_id, config, bootstrap_failed),
            operations,
        ).kademlia is None,
{
    settings_never_change(
        DiscoveryView::initial(local_peer_id, config, bootstrap_failed),
        operations,
    );
}

/// An event that tells of a peer that has come or gone.
pub open spec fn tells_of_a_peer(event: DiscoveryEvent) -> bool {
    event is Connected || event is Disconnected
}

/// Whatever happens, only events that tell of a peer are pending.
pub proof fn pending_events_tell_of_peers(
    local_peer_id: PeerId,
    config: DiscoveryConfigView,
    bootstrap_failed: bool,
    operations: Seq<Operation>,
)
    ensures
        ({
            let pending = run(
                DiscoveryView::initial(local_peer_id, config, bootstrap_failed),
                operations,
            ).pending_events;
            forall|i: int| 0 <= i < pending.len() ==> tells_of_a_peer(#[trigger] pending[i])
        }),
    decreases operations.len(),
{
    if operations.len() > 0 {
        pending_events_tell_of_peers(
            local_peer_id,
            config,
            bootstrap_failed,
            operations.drop_last(),
        );
    }
}

/// A poll never reports an event of Kademlia or of multicast DNS: every event
/// that it reports tells of a peer that has come or gone.
pub proof fn polling_reports_only_peers<H, M, N>(
    local_peer_id: PeerId,
    config: DiscoveryConfigView,
    bootstrap_failed: bool,
    operations: Seq<Operation>,
    handler: HandlerProto,
    target: PeerId,
    input: PollInput<H, M, N>,
)
    ensures
        ({
            let state = run(
                DiscoveryView::initial(local_peer_id, config, bootstrap_failed),
                operations,
            );
            poll_next(state, handler, target, input).1 matches PollStep::Ready(
                BehaviourAction::GenerateEvent(event),
            ) ==> tells_of_a_peer(event)
        }),
{
    pending_events_tell_of_peers(local_peer_id, config, bootstrap_failed, operations);
}

/// The operation that a step of a poll performs, if any.
pub open spec fn operation_of<H, M, N>(target: PeerId, input: PollInput<H, M, N>) -> Option<
    Operation,
> {
    match input {
        PollInput::Start => Some(Operation::EventReported),
        PollInput::Timer(true) => Some(Operation::TimerFired(target)),
        PollInput::Mdns(Some(BehaviourAction::GenerateEvent(MdnsEvent::Discovered(list)))) => Some(
            Operation::Discovered(list@),
        ),
        _ => None,
    }
}

/// A step of a poll changes the state by at most one operation.
pub proof fn polling_performs_operations<H, M, N>(
    state: DiscoveryView,
    handler: HandlerProto,
    target: PeerId,
    input: PollInput<H, M, N>,
)
    ensures
        poll_next(state, handler, target, input).0 == (match operation_of(target, input) {
            Some(operation) => apply(state, operation),
            None => state,
        }),
{
}

/// The text tells neither of the queue nor of what Kademlia has been asked:
/// reporting an event, and passing something on to Kademlia, leave it as it is.
pub proof fn text_tells_of_neither_queue_nor_requests(
    state: DiscoveryView,
    request: KademliaRequest,
    order: Seq<PeerId>,
    timer: Seq<char>,
)
    ensures
        state.event_reported().text(order, timer) == state.text(order, timer),
        state.passed_on(request).text(order, timer) == state.text(order, timer),
{
}

/// The circumstances of one step of a poll.
pub struct Moment<H, M, N> {
    /// The state before the step.
    pub state: DiscoveryView,
    /// The handler that Kademlia makes.
    pub handler: HandlerProto,
    /// The peer around which a random query searches.
    pub target: PeerId,
    /// What the driver brings.
    pub input: PollInput<H, M, N>,
}

impl<H, M, N> Moment<H, M, N> {
    /// The state after the step.
    pub open spec fn after(self) -> DiscoveryView {
        poll_next(self.state, self.handler, self.target, self.input).0
    }

    /// What the driver is told to do.
    pub open spec fn step(self) -> PollStep<N> {
        poll_next(self.state, self.handler, self.target, self.input).1
    }

    /// The source that this step is about, in the order of a poll.
    pub open spec fn source(self) -> int {
        match self.input {
            PollInput::Start => 0,
            PollInput::Kademlia(_) => 1,
            PollInput::Timer(_) => 2,
            PollInput::Mdns(_) => 3,
        }
    }

    /// Tells whether the driver, at this step, brings what `step` asks for.
    pub open spec fn obeys(self, step: PollStep<N>) -> bool {
        match step {
            PollStep::Ready(_) => false,
            PollStep::PollKademlia => self.input is Kademlia,
            PollStep::PollTimer(_) => self.input is Timer,
            PollStep::PollMdns => self.input is Mdns,
            PollStep::Pending => false,
        }
    }
}

/// Tells whether `moments` are the steps of one poll, from its start on, with a
/// driver that does as it is told.
pub open spec fn is_poll<H, M, N>(moments: Seq<Moment<H, M, N>>) -> bool {
    &&& moments.len() > 0
    &&& moments[0].input is Start
    &&& forall|i: int|
        0 < i < moments.len() ==> {
            &&& (#[trigger] moments[i]).obeys(moments[i - 1].step())
            &&& moments[i].state == moments[i - 1].after()
        }
}

/// Tells whether `moments` are a poll to its end: the last step gives the swarm
/// its answer.
pub open spec fn is_whole_poll<H, M, N>(moments: Seq<Moment<H, M, N>>) -> bool {
    &&& is_poll(moments)
    &&& moments.last().step() is Ready || moments.last().step() is Pending
}

/// Tells whether a source has brought nothing that discovery hands on: of
/// Kademlia nothing but events, and of multicast DNS nothing but events and
/// notifications.
pub open spec fn brings_nothing<H, M, N>(input: PollInput<H, M, N>) -> bool {
    match input {
        PollInput::Kademlia(Some(action)) => action is GenerateEvent,
        PollInput::Mdns(Some(action)) => action is GenerateEvent || action is NotifyHandler,
        _ => true,
    }
}

/// The operations that the steps of a poll perform, the first one first.
pub open spec fn performed<H, M, N>(moments: Seq<Moment<H, M, N>>) -> Seq<Operation>
    decreases moments.len(),
{
    if moments.len() == 0 {
        Seq::empty()
    } else {
        let earlier = performed(moments.drop_last());
        match operation_of(moments.last().target, moments.last().input) {
            Some(operation) => earlier.push(operation),
            None => earlier,
        }
    }
}

/// The steps of a poll, less the last one, are a poll too.
proof fn lemma_shorter_poll<H, M, N>(moments: Seq<Moment<H, M, N>>)
    requires
        is_poll(moments),
        moments.len() > 1,
    ensures
        is_poll(moments.drop_last()),
{
    let earlier = moments.drop_last();
    assert forall|i: int| 0 < i < earlier.len() implies {
        &&& (#[trigger] earlier[i]).obeys(earlier[i - 1].step())
        &&& earlier[i].state == earlier[i - 1].after()
    } by {
        assert(moments[i].obeys(moments[i - 1].step()));
    }
}

/// One operation more is performed behind all others.
proof fn lemma_run_push(state: DiscoveryView, operations: Seq<Operation>, operation: Operation)
    ensures
        run(state, operations.push(operation)) == apply(run(state, operations), operation),
{
    assert(operations.push(operation).drop_last() =~= operations);
    assert(operations.push(operation).last() == operation);
}

/// One step does what its operation does.
proof fn lemma_last_operation<H, M, N>(
    state: DiscoveryView,
    operations: Seq<Operation>,
    moment: Moment<H, M, N>,
)
    requires
        moment.state == run(state, operations),
    ensures
        moment.after() == run(
            state,
            match operation_of(moment.target, moment.input) {
                Some(operation) => operations.push(operation),
                None => operations,
            },
        ),
{
    polling_performs_operations(moment.state, moment.handler, moment.target, moment.input);
    match operation_of(moment.target, moment.input) {
        Some(operation) => lemma_run_push(state, operations, operation),
        None => {},
    }
}

/// A poll does what its operations do, one after the other, and nothing else.
pub proof fn poll_performs_its_operations<H, M, N>(moments: Seq<Moment<H, M, N>>)
    requires
        is_poll(moments),
    ensures
        moments.last().after() == run(moments[0].state, performed(moments)),
    decreases moments.len(),
{
    let start = moments[0].state;
    let earlier = moments.drop_last();
    assert(moments.last().state == run(start, performed(earlier))) by {
        if moments.len() > 1 {
            lemma_shorter_poll(moments);
            poll_performs_its_operations(earlier);
            assert(moments[moments.len() - 1].state == moments[moments.len() - 2].after());
        }
    }
    lemma_last_operation(start, performed(earlier), moments.last());
}

/// A poll has nothing for the swarm exactly if no event was queued and the
/// sources brought nothing that is handed on.
pub proof fn poll_is_pending_if_nothing_comes<H, M, N>(moments: Seq<Moment<H, M, N>>)
    requires
        is_whole_poll(moments),
    ensures
        moments.last().step() is Pending <==> {
            &&& moments[0].state.pending_events.len() == 0
            &&& forall|i: int|
                0 <= i < moments.len() ==> brings_nothing(#[trigger] moments[i].input)
        },
{
    let last = moments.len() - 1;
    if moments.last().step() is Pending {
        assert forall|i: int| 0 <= i < moments.len() implies !(#[trigger] moments[i].step()
            is Ready) by {
            if i < last {
                assert(moments[i + 1].obeys(moments[i + 1 - 1].step()));
            }
        }
        assert(!(moments[0].step() is Ready));
        assert forall|i: int| 0 <= i < moments.len() implies brings_nothing(
            #[trigger] moments[i].input,
        ) by {
            assert(!(moments[i].step() is Ready));
        }
    } else {
        if last > 0 {
            assert(moments[last].obeys(moments[last - 1].step()));
        }
        assert(moments[0].state.pending_events.len() > 0 || !brings_nothing(moments[last].input));
    }
}

/// A poll gives up only when every source has nothing: before a step that is
/// about the timer or multicast DNS, Kademlia had nothing; before one that is
/// about multicast DNS, the timer, if there is one, had not fired; and a poll
/// that has nothing for the swarm ends with multicast DNS having nothing. Up to
/// the first step about the timer, the timer stays as it is.
pub proof fn poll_asks_until_there_is_nothing<H, M, N>(moments: Seq<Moment<H, M, N>>)
    requires
        is_poll(moments),
    ensures
        moments.last().source() >= 2 ==> exists|i: int|
            0 <= i < moments.len() && (#[trigger] moments[i]).input == PollInput::<
                H,
                M,
                N,
            >::Kademlia(None),
        moments.last().source() == 3 && moments[0].state.timer is Some ==> exists|i: int|
            0 <= i < moments.len() && (#[trigger] moments[i]).input == PollInput::<
                H,
                M,
                N,
            >::Timer(false),
        moments.last().step() is Pending ==> moments.last().input == PollInput::<H, M, N>::Mdns(
            None,
        ),
        moments.last().source() < 2 ==> moments.last().after().timer == moments[0].state.timer,
    decreases moments.len(),
{
    let last = moments.len() - 1;
    if last > 0 {
        let earlier = moments.drop_last();
        lemma_shorter_poll(moments);
        poll_asks_until_there_is_nothing(earlier);
        assert(moments[last].obeys(moments[last - 1].step()));
        assert(earlier.last() == moments[last - 1]);
        if moments.last().source() >= 2 {
            if earlier.last().source() >= 2 {
                let i = choose|i: int|
                    0 <= i < earlier.len() && (#[trigger] earlier[i]).input == PollInput::<
                        H,
                        M,
                        N,
                    >::Kademlia(None);
                assert(moments[i] == earlier[i]);
            } else {
                assert(moments[last - 1].input == PollInput::<H, M, N>::Kademlia(None));
            }
        }
        if moments.last().source() == 3 && moments[0].state.timer is Some {
            if earlier.last().source() == 3 {
                let i = choose|i: int|
                    0 <= i < earlier.len() && (#[trigger] earlier[i]).input == PollInput::<
                        H,
                        M,
                        N,
                    >::Timer(false);
                assert(moments[i] == earlier[i]);
            } else {
                assert(moments[last - 1].input == PollInput::<H, M, N>::Timer(false));
            }
        }
    }
}

/// A poll leaves the connections, the connected peers and the settings alone, and
/// takes from the queue at most the event that it reports.
pub proof fn polling_leaves_connections_alone<H, M, N>(moments: Seq<Moment<H, M, N>>)
    requires
        is_poll(moments),
    ensures
        ({
            let before = moments[0].state;
            let after = moments.last().after();
            &&& after.num_connections == before.num_connections
            &&& after.peers == before.peers
            &&& after.user_defined == before.user_defined
            &&& after.discovery_max == before.discovery_max
            &&& after.mdns_enabled == before.mdns_enabled
            &&& after.kademlia is Some == before.kademlia is Some
            &&& after.pending_events == before.event_reported().pending_events
        }),
    decreases moments.len(),
{
    if moments.len() > 1 {
        let last = moments.len() - 1;
        lemma_shorter_poll(moments);
        polling_leaves_connections_alone(moments.drop_last());
        assert(moments[last].obeys(moments[last - 1].step()));
        assert(moments[last].state == moments[last - 1].after());
    }
}

/// A poll asks its sources in order and never goes back: first the local queue,
/// then Kademlia, then the timer, lastly multicast DNS.
pub proof fn sources_are_polled_in_order<H, M, N>(moments: Seq<Moment<H, M, N>>, i: int, j: int)
    requires
        is_poll(moments),
        0 <= i < j < moments.len(),
    ensures
        moments[i].source() <= moments[j].source(),
        moments[j].source() > 0,
    decreases j - i,
{
    assert(moments[j].obeys(moments[j - 1].step()));
    if i + 1 < j {
        sources_are_polled_in_order(moments, i, j - 1);
    }
}

/// An event in the queue is reported at once: a poll that starts with one has a
/// single step, which asks no source and leaves all but the queue alone.
pub proof fn queued_events_come_first<H, M, N>(moments: Seq<Moment<H, M, N>>)
    requires
        is_poll(moments),
        moments[0].state.pending_events.len() > 0,
    ensures
        moments.len() == 1,
        moments[0].step() == PollStep::<N>::Ready(
            BehaviourAction::GenerateEvent(moments[0].state.pending_events[0]),
        ),
{
    if moments.len() > 1 {
        assert(moments[1].obeys(moments[0].step()));
    }
}

/// Adding peers twice is the same as adding the two lists as one.
pub proof fn user_peers_accumulate(
    config: DiscoveryConfigView,
    first: Seq<PeerAddress>,
    second: Seq<PeerAddress>,
)
    ensures
        config.with_peers(first).with_peers(second) == config.with_peers(first + second),
{
    assert(config.user_defined + first + second =~= config.user_defined + (first + second));
}

/// Of two settings of the same thing the later one holds.
pub proof fn later_setting_holds(config: DiscoveryConfigView, n: u64, m: u64, a: bool, b: bool)
    ensures
        config.with_limit(n).with_limit(m) == config.with_limit(m),
        config.with_mdns(a).with_mdns(b) == config.with_mdns(b),
        config.with_kademlia(a).with_kademlia(b) == config.with_kademlia(b),
        config.with_disjoint_query_paths(a).with_disjoint_query_paths(b)
            == config.with_disjoint_query_paths(b),
{
}

/// The order in which different things are set does not matter.
pub proof fn settings_are_independent(
    config: DiscoveryConfigView,
    limit: u64,
    more: Seq<PeerAddress>,
    disjoint: bool,
    mdns: bool,
    kademlia: bool,
)
    ensures
        config.with_limit(limit).with_peers(more) == config.with_peers(more).with_limit(limit),
        config.with_limit(limit).with_disjoint_query_paths(disjoint)
            == config.with_disjoint_query_paths(disjoint).with_limit(limit),
        config.with_limit(limit).with_mdns(mdns) == config.with_mdns(mdns).with_limit(limit),
        config.with_limit(limit).with_kademlia(kademlia) == config.with_kademlia(
            kademlia,
        ).with_limit(limit),
        config.with_peers(more).with_disjoint_query_paths(disjoint)
            == config.with_disjoint_query_paths(disjoint).with_peers(more),
        config.with_peers(more).with_mdns(mdns) == config.with_mdns(mdns).with_peers(more),
        config.with_peers(more).with_kademlia(kademlia) == config.with_kademlia(
            kademlia,
        ).with_peers(more),
        config.with_disjoint_query_paths(disjoint).with_mdns(mdns) == config.with_mdns(
            mdns,
        ).with_disjoint_query_paths(disjoint),
        config.with_disjoint_query_paths(disjoint).with_kademlia(kademlia)
            == config.with_kademlia(kademlia).with_disjoint_query_paths(disjoint),
        config.with_mdns(mdns).with_kademlia(kademlia) == config.with_kademlia(kademlia).with_mdns(
            mdns,
        ),
{
}

/// The addresses that a list gives for a peer are those of its entries for that
/// peer, and of no other entries.
pub proof fn addresses_belong_to_the_peer(
    list: Seq<PeerAddress>,
    peer_id: PeerId,
    address: Multiaddr,
)
    ensures
        addresses_in(list, peer_id).contains(address) <==> list.contains(
            PeerAddress { address, peer_id },
        ),
{
    let matches = |entry: PeerAddress| entry.peer_id == peer_id;
    let kept = list.filter(matches);
    let entry = PeerAddress { address, peer_id };
    if addresses_in(list, peer_id).contains(address) {
        let i = addresses_in(list, peer_id).index_of(address);
        assert(kept[i] == entry);
        list.lemma_filter_contains_rev(matches, entry);
    }
    if list.contains(entry) {
        let j = list.index_of(entry);
        assert(kept.contains(list[j]));
        let i = kept.index_of(entry);
        assert(addresses_in(list, peer_id)[i] == address);
    }
}

} // verus!
