//! What each operation does, part by part.
use crate::action::{as_discovery_action, BehaviourAction, DiscoveryEvent, KademliaAction};
use crate::action::{PollInput, PollStep};
use crate::behaviour::{as_pair, as_pairs, poll_next, reaches_kademlia, DiscoveryView};
use crate::config::DiscoveryConfigView;
use crate::delay::{delay_after, doubled};
use crate::display::{
    decimal, listed, peer_address_text, peer_addresses_text, peer_ids_text, rendered, truth,
};
use crate::error::Error;
use crate::kademlia::{
    add_address_request, add_address_requests, all_found, all_found_by_kademlia, created,
    enabled_kademlia, failure_of, found_by_queries, kademlia_requests, made_by_default,
    network_protocol_name, optional_list, requests_of, routed_by_kademlia, routing_table,
    table_addresses, then_asked, told_connected, ConnectionHandler, HandlerProto, KademliaRequest,
    KademliaSettings, KademliaToggle,
};
use crate::mdns::{enabled_mdns, held_by_mdns, mdns_nodes, unexpired, MdnsEvent, MdnsToggle};
use crate::peer::{addresses_in, multiaddr_text, peer_id_text, PeerAddress};
use crate::timer::{interval_secs, period_of};
use async_std::stream::Interval;
use libp2p::{Multiaddr, PeerId};
use vstd::multiset::Multiset;
use vstd::prelude::*;
use vstd::utf8::encode_utf8;

verus! {

/// A builder starts with no peers, no limit that could be reached, and everything
/// enabled.
pub proof fn builder_starts_with_everything_enabled()
    ensures
        DiscoveryConfigView::initial().user_defined.len() == 0,
        DiscoveryConfigView::initial().discovery_max == 0xffff_ffff_ffff_ffff,
        DiscoveryConfigView::initial().enable_kademlia,
        DiscoveryConfigView::initial().enable_mdns,
        DiscoveryConfigView::initial().kademlia_disjoint_query_paths,
{
}

/// Each step of a builder sets the thing that it is named after to the value that
/// it is given, and leaves all other things as they are.
pub proof fn builder_steps_set_one_thing(
    config: DiscoveryConfigView,
    limit: u64,
    more: Seq<PeerAddress>,
    value: bool,
)
    ensures
        config.with_limit(limit).discovery_max == limit,
        config.with_limit(limit).user_defined == config.user_defined,
        config.with_limit(limit).enable_kademlia == config.enable_kademlia,
        config.with_limit(limit).enable_mdns == config.enable_mdns,
        config.with_limit(limit).kademlia_disjoint_query_paths
            == config.kademlia_disjoint_query_paths,
        config.with_peers(more).user_defined.len() == config.user_defined.len() + more.len(),
        forall|i: int|
            0 <= i < config.user_defined.len() ==> #[trigger] config.with_peers(
                more,
            ).user_defined[i] == config.user_defined[i],
        forall|i: int|
            0 <= i < more.len() ==> config.with_peers(more).user_defined[config.user_defined.len()
                + i] == #[trigger] more[i],
        config.with_peers(more).discovery_max == config.discovery_max,
        config.with_peers(more).enable_kademlia == config.enable_kademlia,
        config.with_peers(more).enable_mdns == config.enable_mdns,
        config.with_peers(more).kademlia_disjoint_query_paths
            == config.kademlia_disjoint_query_paths,
        config.with_disjoint_query_paths(value).kademlia_disjoint_query_paths == value,
        config.with_disjoint_query_paths(value).user_defined == config.user_defined,
        config.with_disjoint_query_paths(value).discovery_max == config.discovery_max,
        config.with_disjoint_query_paths(value).enable_kademlia == config.enable_kademlia,
        config.with_disjoint_query_paths(value).enable_mdns == config.enable_mdns,
        config.with_mdns(value).enable_mdns == value,
        config.with_mdns(value).user_defined == config.user_defined,
        config.with_mdns(value).discovery_max == config.discovery_max,
        config.with_mdns(value).enable_kademlia == config.enable_kademlia,
        config.with_mdns(value).kademlia_disjoint_query_paths
            == config.kademlia_disjoint_query_paths,
        config.with_kademlia(value).enable_kademlia == value,
        config.with_kademlia(value).user_defined == config.user_defined,
        config.with_kademlia(value).discovery_max == config.discovery_max,
        config.with_kademlia(value).enable_mdns == config.enable_mdns,
        config.with_kademlia(value).kademlia_disjoint_query_paths
            == config.kademlia_disjoint_query_paths,
{
}

/// An enabled Kademlia starts with the settings of the configuration: it belongs
/// to the local node, as does its store; its query paths are kept apart exactly if
/// the configuration says so; it speaks the protocol of this network; everything
/// else is as by default. It is then offered each peer of the user's list at its
/// address, in the order of the list, and last asked to join the network. That is
/// all that it is asked.
pub proof fn kademlia_starts_as_configured(
    local_peer_id: PeerId,
    config: DiscoveryConfigView,
    bootstrap_failed: bool,
)
    requires
        config.enable_kademlia,
    ensures
        ({
            let start = DiscoveryView::initial(local_peer_id, config, bootstrap_failed);
            let n = config.user_defined.len();
            &&& start.kademlia is Some
            &&& start.kademlia->0.len() == n + 2
            &&& start.kademlia->0[0] == (KademliaRequest::Create {
                local_peer_id: local_peer_id,
                store_owner: local_peer_id,
                settings: KademliaSettings {
                    disjoint_query_paths: config.kademlia_disjoint_query_paths,
                    protocol_name: encode_utf8("/anoma/kad/anoma/kad/1.0.0"@),
                    others_default: true,
                },
            })
            &&& forall|i: int|
                0 <= i < n ==> start.kademlia->0[i + 1] == (KademliaRequest::AddAddress {
                    peer_id: (#[trigger] config.user_defined[i]).peer_id,
                    address: config.user_defined[i].address,
                })
            &&& start.kademlia->0[n as int + 1] == KademliaRequest::Bootstrap
        }),
{
}

/// Discovery starts with the user's list and the limit of the configuration, with
/// those sources that the configuration enables, without a timer, with nothing to
/// report, and without connections or connected peers. The first timer waits for
/// one second.
pub proof fn discovery_starts_unconnected(
    local_peer_id: PeerId,
    config: DiscoveryConfigView,
    bootstrap_failed: bool,
)
    ensures
        ({
            let start = DiscoveryView::initial(local_peer_id, config, bootstrap_failed);
            &&& start.user_defined == config.user_defined
            &&& start.discovery_max == config.discovery_max
            &&& start.kademlia is Some <==> config.enable_kademlia
            &&& start.mdns_enabled == config.enable_mdns
            &&& start.timer is None
            &&& start.next_delay == 1
            &&& start.pending_events.len() == 0
            &&& start.num_connections == 0
            &&& forall|id: PeerId| !#[trigger] start.peers.contains(id)
            &&& start.bootstrap_failed == bootstrap_failed
        }),
{
}

/// One request behind others.
proof fn lemma_one_more(requests: Seq<KademliaRequest>, request: KademliaRequest)
    ensures
        requests + seq![request] == requests.push(request),
{
    assert(requests + seq![request] =~= requests.push(request));
}

/// A peer that connects is among the connected ones thereafter, beside those that
/// were; that it has connected is reported after all that is to be reported
/// already; and Kademlia is told of that peer. Nothing else changes.
pub proof fn connecting_adds_the_peer(state: DiscoveryView, peer_id: PeerId)
    ensures
        ({
            let after = state.connected(peer_id);
            &&& forall|id: PeerId| #[trigger]
                after.peers.contains(id) <==> id == peer_id || state.peers.contains(id)
            &&& after.pending_events.len() == state.pending_events.len() + 1
            &&& forall|i: int|
                0 <= i < state.pending_events.len() ==> #[trigger] after.pending_events[i]
                    == state.pending_events[i]
            &&& after.pending_events.last() == DiscoveryEvent::Connected(peer_id)
            &&& state.kademlia is None ==> after.kademlia is None
            &&& state.kademlia matches Some(requests) ==> after.kademlia == Some(
                requests.push(KademliaRequest::Connected { peer_id: peer_id }),
            )
            &&& after == DiscoveryView {
                peers: after.peers,
                pending_events: after.pending_events,
                kademlia: after.kademlia,
                ..state
            }
        }),
{
    if let Some(requests) = state.kademlia {
        lemma_one_more(requests, KademliaRequest::Connected { peer_id });
    }
}

/// A peer that disconnects is not among the connected ones thereafter, while the
/// others stay; that it has disconnected is reported after all that is to be
/// reported already; and Kademlia is told of that peer. Nothing else changes.
pub proof fn disconnecting_removes_the_peer(state: DiscoveryView, peer_id: PeerId)
    ensures
        ({
            let after = state.disconnected(peer_id);
            &&& forall|id: PeerId| #[trigger]
                after.peers.contains(id) <==> id != peer_id && state.peers.contains(id)
            &&& after.pending_events.len() == state.pending_events.len() + 1
            &&& forall|i: int|
                0 <= i < state.pending_events.len() ==> #[trigger] after.pending_events[i]
                    == state.pending_events[i]
            &&& after.pending_events.last() == DiscoveryEvent::Disconnected(peer_id)
            &&& state.kademlia is None ==> after.kademlia is None
            &&& state.kademlia matches Some(requests) ==> after.kademlia == Some(
                requests.push(KademliaRequest::Disconnected { peer_id: peer_id }),
            )
            &&& after == DiscoveryView {
                peers: after.peers,
                pending_events: after.pending_events,
                kademlia: after.kademlia,
                ..state
            }
        }),
{
    if let Some(requests) = state.kademlia {
        lemma_one_more(requests, KademliaRequest::Disconnected { peer_id });
    }
}

/// A connection that is established counts as one more, and Kademlia is told of
/// it: who, which, over which ends, and at which addresses it had been tried in
/// vain. Nothing else changes.
pub proof fn establishing_counts_one_more(
    state: DiscoveryView,
    peer_id: PeerId,
    connection: libp2p::core::connection::ConnectionId,
    endpoint: libp2p::core::ConnectedPoint,
    failed_addresses: Option<Seq<Multiaddr>>,
)
    ensures
        ({
            let after = state.connection_established(
                peer_id,
                connection,
                endpoint,
                failed_addresses,
            );
            &&& after.num_connections == state.num_connections + 1
            &&& state.kademlia is None ==> after.kademlia is None
            &&& state.kademlia matches Some(requests) ==> after.kademlia == Some(
                requests.push(
                    KademliaRequest::ConnectionEstablished {
                        peer_id: peer_id,
                        connection: connection,
                        endpoint: endpoint,
                        failed_addresses: failed_addresses,
                    },
                ),
            )
            &&& after == DiscoveryView {
                num_connections: after.num_connections,
                kademlia: after.kademlia,
                ..state
            }
        }),
{
    if let Some(requests) = state.kademlia {
        lemma_one_more(
            requests,
            KademliaRequest::ConnectionEstablished {
                peer_id,
                connection,
                endpoint,
                failed_addresses,
            },
        );
    }
}

/// A connection that is closed counts as one less, and Kademlia is told of it: who,
/// which, over which ends, and with which handler. Nothing else changes.
pub proof fn closing_counts_one_less(
    state: DiscoveryView,
    peer_id: PeerId,
    connection: libp2p::core::connection::ConnectionId,
    endpoint: libp2p::core::ConnectedPoint,
    handler: ConnectionHandler,
)
    ensures
        ({
            let after = state.connection_closed(peer_id, connection, endpoint, handler);
            &&& after.num_connections == state.num_connections - 1
            &&& state.kademlia is None ==> after.kademlia is None
            &&& state.kademlia matches Some(requests) ==> after.kademlia == Some(
                requests.push(
                    KademliaRequest::ConnectionClosed {
                        peer_id: peer_id,
                        connection: connection,
                        endpoint: endpoint,
                        handler: handler,
                    },
                ),
            )
            &&& after == DiscoveryView {
                num_connections: after.num_connections,
                kademlia: after.kademlia,
                ..state
            }
        }),
{
    if let Some(requests) = state.kademlia {
        lemma_one_more(
            requests,
            KademliaRequest::ConnectionClosed { peer_id, connection, endpoint, handler },
        );
    }
}

/// What is passed on to Kademlia reaches it as it is, once, and changes nothing
/// else.
pub proof fn passing_on_tells_kademlia_alone(state: DiscoveryView, request: KademliaRequest)
    ensures
        ({
            let after = state.passed_on(request);
            &&& state.kademlia is None ==> after.kademlia is None
            &&& state.kademlia matches Some(requests) ==> after.kademlia == Some(
                requests.push(request),
            )
            &&& after == DiscoveryView { kademlia: after.kademlia, ..state }
        }),
{
    if let Some(requests) = state.kademlia {
        lemma_one_more(requests, request);
    }
}

/// There is room for more exactly if there are fewer connections than the limit.
pub proof fn room_is_what_the_limit_leaves(state: DiscoveryView)
    ensures
        state.below_limit() <==> state.num_connections < state.discovery_max,
{
}

/// Discovery is paused while there are as many connections as the limit, or more:
/// neither the firing of the timer nor a discovery of multicast DNS has Kademlia
/// asked anything.
pub proof fn enough_connections_pause_discovery(
    state: DiscoveryView,
    target: PeerId,
    list: Seq<(PeerId, Multiaddr)>,
)
    requires
        state.num_connections >= state.discovery_max,
    ensures
        state.timer_fired(target).kademlia == state.kademlia,
        state.discovered(list) == state,
{
}

/// While there are fewer connections than the limit, a firing of the timer has
/// Kademlia search around the target, once, and asks nothing else of it.
pub proof fn too_few_connections_start_a_search(state: DiscoveryView, target: PeerId)
    requires
        state.num_connections < state.discovery_max,
    ensures
        state.kademlia is None ==> state.timer_fired(target).kademlia is None,
        state.kademlia matches Some(requests) ==> state.timer_fired(target).kademlia == Some(
            requests.push(KademliaRequest::GetClosestPeers { target: target }),
        ),
{
    if let Some(requests) = state.kademlia {
        lemma_one_more(requests, KademliaRequest::GetClosestPeers { target });
    }
}

/// While there are fewer connections than the limit, a discovery of multicast DNS
/// has Kademlia offered each peer at the address at which it was seen, in order,
/// and nothing else.
pub proof fn too_few_connections_offer_what_is_seen(
    state: DiscoveryView,
    list: Seq<(PeerId, Multiaddr)>,
)
    requires
        state.num_connections < state.discovery_max,
    ensures
        ({
            let after = state.discovered(list);
            &&& state.kademlia is None ==> after.kademlia is None
            &&& state.kademlia matches Some(requests) ==> {
                &&& after.kademlia is Some
                &&& after.kademlia->0.len() == requests.len() + list.len()
                &&& forall|i: int|
                    0 <= i < requests.len() ==> #[trigger] after.kademlia->0[i] == requests[i]
                &&& forall|i: int|
                    0 <= i < list.len() ==> after.kademlia->0[requests.len() + i] == (
                    KademliaRequest::AddAddress {
                        peer_id: (#[trigger] list[i]).0,
                        address: list[i].1,
                    })
            }
            &&& after == DiscoveryView { kademlia: after.kademlia, ..state }
        }),
{
}

/// Whatever the number of connections, a firing of the timer sets a new timer,
/// which waits for as long as had been planned. The one after it is to wait for
/// twice as long, but for no longer than a minute. Beside that, it touches nothing
/// but Kademlia.
pub proof fn firing_sets_the_next_timer(state: DiscoveryView, target: PeerId)
    ensures
        ({
            let after = state.timer_fired(target);
            &&& after.timer == Some(state.next_delay)
            &&& after.next_delay <= 60
            &&& after.next_delay <= 2 * state.next_delay
            &&& after.next_delay == 60 || after.next_delay == 2 * state.next_delay
            &&& after == DiscoveryView {
                kademlia: after.kademlia,
                timer: after.timer,
                next_delay: after.next_delay,
                ..state
            }
        }),
{
}

/// The waiting time starts at one second, and each one is the least of twice the one
/// before and a minute.
pub proof fn waiting_times_double_up_to_a_minute(fired: nat, secs: nat)
    ensures
        delay_after(0) == 1,
        delay_after(fired + 1) <= 60,
        delay_after(fired + 1) <= 2 * delay_after(fired),
        delay_after(fired + 1) == 60 || delay_after(fired + 1) == 2 * delay_after(fired),
        doubled(secs) <= 60,
        doubled(secs) <= 2 * secs,
        doubled(secs) == 60 || doubled(secs) == 2 * secs,
{
}

/// Reporting takes the event that is next from the queue, and nothing else. An
/// empty queue stays empty.
pub proof fn reporting_takes_the_next_event(state: DiscoveryView)
    ensures
        ({
            let after = state.event_reported();
            &&& state.pending_events.len() == 0 ==> after == state
            &&& state.pending_events.len() > 0 ==> {
                &&& after.pending_events.len() == state.pending_events.len() - 1
                &&& forall|i: int|
                    0 <= i < after.pending_events.len() ==> #[trigger] after.pending_events[i]
                        == state.pending_events[i + 1]
                &&& after == DiscoveryView { pending_events: after.pending_events, ..state }
            }
        }),
{
}

/// A poll starts with the queue: if there is an event in it, the first one is
/// reported, and taken from the queue. Otherwise Kademlia is polled, and nothing
/// changes.
pub proof fn poll_starts_with_the_queue<H, M, N>(
    state: DiscoveryView,
    handler: HandlerProto,
    target: PeerId,
)
    ensures
        ({
            let (after, step) = poll_next::<H, M, N>(state, handler, target, PollInput::Start);
            &&& state.pending_events.len() == 0 ==> {
                &&& step == PollStep::<N>::PollKademlia
                &&& after == state
            }
            &&& state.pending_events.len() > 0 ==> {
                &&& step == PollStep::<N>::Ready(
                    BehaviourAction::GenerateEvent(state.pending_events[0]),
                )
                &&& seq![state.pending_events[0]] + after.pending_events == state.pending_events
                &&& after == DiscoveryView { pending_events: after.pending_events, ..state }
            }
        }),
{
    if state.pending_events.len() > 0 {
        assert(seq![state.pending_events[0]] + state.pending_events.drop_first()
            =~= state.pending_events);
    }
}

/// What Kademlia asks of the swarm is handed on as it is, whatever the state: a dial
/// goes to the address, or to the peer, that Kademlia names, under its condition
/// and with its handler, and so on for every other thing but an event. The state
/// stays as it is.
pub proof fn kademlia_is_handed_on_unchanged<H, M, N>(
    state: DiscoveryView,
    handler: HandlerProto,
    target: PeerId,
    action: KademliaAction<N>,
)
    ensures
        ({
            let (after, step) = poll_next::<H, M, N>(
                state,
                handler,
                target,
                PollInput::Kademlia(Some(action)),
            );
            &&& after == state
            &&& match action {
                BehaviourAction::GenerateEvent(_) => step == PollStep::<N>::PollKademlia,
                BehaviourAction::DialAddress { address, handler } => step == PollStep::<N>::Ready(
                    BehaviourAction::DialAddress { address: address, handler: handler },
                ),
                BehaviourAction::DialPeer { peer_id, condition, handler } => step == PollStep::<
                    N,
                >::Ready(
                    BehaviourAction::DialPeer {
                        peer_id: peer_id,
                        condition: condition,
                        handler: handler,
                    },
                ),
                BehaviourAction::NotifyHandler { peer_id, handler, event } => step == PollStep::<
                    N,
                >::Ready(
                    BehaviourAction::NotifyHandler {
                        peer_id: peer_id,
                        handler: handler,
                        event: event,
                    },
                ),
                BehaviourAction::ReportObservedAddr { address, score } => step == PollStep::<
                    N,
                >::Ready(BehaviourAction::ReportObservedAddr { address: address, score: score }),
                BehaviourAction::CloseConnection { peer_id, connection } => step == PollStep::<
                    N,
                >::Ready(
                    BehaviourAction::CloseConnection { peer_id: peer_id, connection: connection },
                ),
            }
        }),
{
}

/// When Kademlia has nothing, the timer is polled if there is one, and multicast
/// DNS otherwise. The state stays as it is.
pub proof fn idle_kademlia_gives_way<H, M, N>(
    state: DiscoveryView,
    handler: HandlerProto,
    target: PeerId,
)
    ensures
        ({
            let (after, step) = poll_next::<H, M, N>(
                state,
                handler,
                target,
                PollInput::Kademlia(None),
            );
            &&& after == state
            &&& state.timer is Some ==> step == PollStep::<N>::PollTimer(None)
            &&& state.timer is None ==> step == PollStep::<N>::PollMdns
        }),
{
}

/// A timer that has fired is polled again, after a search around the target has
/// been started, if there are fewer connections than the limit, and after a new
/// timer has been set. One that has not fired gives way to multicast DNS, and
/// nothing changes.
pub proof fn timer_is_polled_until_it_waits<H, M, N>(
    state: DiscoveryView,
    handler: HandlerProto,
    target: PeerId,
)
    ensures
        ({
            let (after, step) = poll_next::<H, M, N>(
                state,
                handler,
                target,
                PollInput::Timer(true),
            );
            &&& state.num_connections < state.discovery_max ==> {
                &&& step == PollStep::<N>::PollTimer(Some(target))
                &&& state.kademlia is None ==> after.kademlia is None
                &&& state.kademlia matches Some(requests) ==> after.kademlia == Some(
                    requests.push(KademliaRequest::GetClosestPeers { target: target }),
                )
            }
            &&& state.num_connections >= state.discovery_max ==> {
                &&& step == PollStep::<N>::PollTimer(None)
                &&& after.kademlia == state.kademlia
            }
            &&& after.timer == Some(state.next_delay)
            &&& after.next_delay == 60 || after.next_delay == 2 * state.next_delay
            &&& after.next_delay <= 60 && after.next_delay <= 2 * state.next_delay
            &&& after == DiscoveryView {
                kademlia: after.kademlia,
                timer: after.timer,
                next_delay: after.next_delay,
                ..state
            }
        }),
        poll_next::<H, M, N>(state, handler, target, PollInput::Timer(false)) == (
            state,
            PollStep::<N>::PollMdns,
        ),
{
    if let Some(requests) = state.kademlia {
        lemma_one_more(requests, KademliaRequest::GetClosestPeers { target });
    }
}

/// What multicast DNS asks of the swarm is handed on as it is, but that a dial gets
/// the handler that Kademlia makes, and that events and notifications are not handed
/// on. The state changes with a discovery alone. When multicast DNS has nothing, the
/// poll has nothing.
pub proof fn mdns_is_handed_on_with_own_handler<H, M, N>(
    state: DiscoveryView,
    handler: HandlerProto,
    target: PeerId,
    polled: Option<BehaviourAction<MdnsEvent, H, M>>,
)
    ensures
        ({
            let (after, step) = poll_next::<H, M, N>(
                state,
                handler,
                target,
                PollInput::Mdns(polled),
            );
            match polled {
                None => step == PollStep::<N>::Pending && after == state,
                Some(BehaviourAction::GenerateEvent(MdnsEvent::Discovered(_))) => step
                    == PollStep::<N>::PollMdns,
                Some(BehaviourAction::GenerateEvent(MdnsEvent::Expired(_))) => step
                    == PollStep::<N>::PollMdns && after == state,
                Some(BehaviourAction::DialAddress { address, .. }) => step == PollStep::<N>::Ready(
                    BehaviourAction::DialAddress { address: address, handler: handler },
                ) && after == state,
                Some(BehaviourAction::DialPeer { peer_id, condition, .. }) => step == PollStep::<
                    N,
                >::Ready(
                    BehaviourAction::DialPeer {
                        peer_id: peer_id,
                        condition: condition,
                        handler: handler,
                    },
                ) && after == state,
                Some(BehaviourAction::NotifyHandler { .. }) => step == PollStep::<N>::PollMdns
                    && after == state,
                Some(BehaviourAction::ReportObservedAddr { address, score }) => step == PollStep::<
                    N,
                >::Ready(BehaviourAction::ReportObservedAddr { address: address, score: score })
                    && after == state,
                Some(BehaviourAction::CloseConnection { peer_id, connection }) => step
                    == PollStep::<N>::Ready(
                    BehaviourAction::CloseConnection { peer_id: peer_id, connection: connection },
                ) && after == state,
            }
        }),
{
}

/// A discovery that a poll of multicast DNS brings has Kademlia offered each peer at
/// the address at which it was seen, in order, and nothing else, if there are fewer
/// connections than the limit; otherwise nothing changes.
pub proof fn discoveries_are_offered_by_a_poll<H, M, N>(
    state: DiscoveryView,
    handler: HandlerProto,
    target: PeerId,
    list: Vec<(PeerId, Multiaddr)>,
)
    ensures
        ({
            let (after, step) = poll_next::<H, M, N>(
                state,
                handler,
                target,
                PollInput::Mdns(
                    Some(BehaviourAction::GenerateEvent(MdnsEvent::Discovered(list))),
                ),
            );
            &&& step == PollStep::<N>::PollMdns
            &&& state.num_connections >= state.discovery_max || state.kademlia is None
                ==> after == state
            &&& state.num_connections < state.discovery_max ==> (state.kademlia matches Some(
                requests,
            ) ==> {
                &&& after.kademlia is Some
                &&& after.kademlia->0.len() == requests.len() + list@.len()
                &&& forall|i: int|
                    0 <= i < requests.len() ==> #[trigger] after.kademlia->0[i] == requests[i]
                &&& forall|i: int|
                    0 <= i < list@.len() ==> after.kademlia->0[requests.len() + i] == (
                    KademliaRequest::AddAddress {
                        peer_id: (#[trigger] list@[i]).0,
                        address: list@[i].1,
                    })
                &&& after == DiscoveryView { kademlia: after.kademlia, ..state }
            })
        }),
{
}

/// Kademlia is left as it is by every step of a poll but two: a timer that has fired,
/// and a discovery of multicast DNS, both with fewer connections than the limit.
pub proof fn few_steps_reach_kademlia<H, M, N>(state: DiscoveryView, input: PollInput<H, M, N>)
    ensures
        reaches_kademlia(state, input) <==> {
            &&& state.num_connections < state.discovery_max
            &&& {
                ||| input == PollInput::<H, M, N>::Timer(true)
                ||| (input matches PollInput::Mdns(
                    Some(BehaviourAction::GenerateEvent(MdnsEvent::Discovered(_))),
                ))
            }
        },
{
}

/// An action of Kademlia stays what it is, but that an event is marked as one of
/// Kademlia.
pub proof fn marking_keeps_actions<N>(action: KademliaAction<N>)
    ensures
        match action {
            BehaviourAction::GenerateEvent(event) => as_discovery_action(action)
                == BehaviourAction::<DiscoveryEvent, HandlerProto, N>::GenerateEvent(
                DiscoveryEvent::KademliaEvent(event),
            ),
            BehaviourAction::DialAddress { address, handler } => as_discovery_action(action) == (
            BehaviourAction::<DiscoveryEvent, HandlerProto, N>::DialAddress {
                address: address,
                handler: handler,
            }),
            BehaviourAction::DialPeer { peer_id, condition, handler } => as_discovery_action(action)
                == (BehaviourAction::<DiscoveryEvent, HandlerProto, N>::DialPeer {
                peer_id: peer_id,
                condition: condition,
                handler: handler,
            }),
            BehaviourAction::NotifyHandler { peer_id, handler, event } => as_discovery_action(
                action,
            ) == (BehaviourAction::<DiscoveryEvent, HandlerProto, N>::NotifyHandler {
                peer_id: peer_id,
                handler: handler,
                event: event,
            }),
            BehaviourAction::ReportObservedAddr { address, score } => as_discovery_action(action)
                == (BehaviourAction::<DiscoveryEvent, HandlerProto, N>::ReportObservedAddr {
                address: address,
                score: score,
            }),
            BehaviourAction::CloseConnection { peer_id, connection } => as_discovery_action(action)
                == (BehaviourAction::<DiscoveryEvent, HandlerProto, N>::CloseConnection {
                peer_id: peer_id,
                connection: connection,
            }),
        },
{
}

/// The record of a toggle is that of the Kademlia in it. What is asked comes behind
/// what was asked; a disabled Kademlia has no record.
pub proof fn record_is_kept_in_order(
    toggle: KademliaToggle,
    requests: Seq<KademliaRequest>,
    more: Seq<KademliaRequest>,
)
    ensures
        requests_of(toggle) is Some <==> enabled_kademlia(toggle) is Some,
        enabled_kademlia(toggle) matches Some(kademlia) ==> requests_of(toggle) == Some(
            kademlia_requests(kademlia),
        ),
        then_asked(Some(requests), more) == Some(requests + more),
        then_asked(None, more) is None,
{
}

/// Requests say what they are made from: each address is offered with its peer, and
/// a Kademlia is made for the local node, with the query paths as given, under the
/// name of this network.
pub proof fn requests_say_what_is_asked(
    peer_id: PeerId,
    address: Multiaddr,
    list: Seq<(PeerId, Multiaddr)>,
    disjoint: bool,
)
    ensures
        add_address_request((peer_id, address)) == (KademliaRequest::AddAddress {
            peer_id: peer_id,
            address: address,
        }),
        add_address_requests(list).len() == list.len(),
        forall|i: int|
            0 <= i < list.len() ==> add_address_requests(list)[i] == (KademliaRequest::AddAddress {
                peer_id: (#[trigger] list[i]).0,
                address: list[i].1,
            }),
        network_protocol_name() == encode_utf8("/anoma/kad/anoma/kad/1.0.0"@),
        created(peer_id, disjoint) == (KademliaRequest::Create {
            local_peer_id: peer_id,
            store_owner: peer_id,
            settings: KademliaSettings {
                disjoint_query_paths: disjoint,
                protocol_name: encode_utf8("/anoma/kad/anoma/kad/1.0.0"@),
                others_default: true,
            },
        }),
{
}

/// The user's list is offered as it stands: each entry with its peer and its address.
pub proof fn entries_are_offered_as_they_stand(list: Seq<PeerAddress>, entry: PeerAddress)
    ensures
        as_pair(entry) == (entry.peer_id, entry.address),
        as_pairs(list).len() == list.len(),
        forall|i: int|
            0 <= i < list.len() ==> as_pairs(list)[i] == (
                (#[trigger] list[i]).peer_id,
                list[i].address,
            ),
{
}

/// A Kademlia takes a peer to be connected if it was told so, until it is told that
/// the peer has disconnected. Nothing else that it is told matters.
pub proof fn last_word_on_a_peer_decides(
    requests: Seq<KademliaRequest>,
    request: KademliaRequest,
    peer_id: PeerId,
)
    ensures
        !told_connected(Seq::empty(), peer_id),
        told_connected(requests.push(KademliaRequest::Connected { peer_id: peer_id }), peer_id),
        !told_connected(requests.push(KademliaRequest::Disconnected { peer_id: peer_id }), peer_id),
        request != (KademliaRequest::Connected { peer_id: peer_id }) && request != (
        KademliaRequest::Disconnected { peer_id: peer_id }) ==> told_connected(
            requests.push(request),
            peer_id,
        ) == told_connected(requests, peer_id),
{
    assert(requests.push(request).drop_last() =~= requests);
}

/// A Kademlia was made by default exactly if the first thing in its record is that it
/// was made with settings that are the default ones where nothing else is said.
pub proof fn first_request_tells_how_it_was_made(requests: Seq<KademliaRequest>)
    ensures
        made_by_default(requests) <==> requests.len() > 0 && match requests[0] {
            KademliaRequest::Create { settings, .. } => settings.others_default,
            _ => false,
        },
{
}

/// What is passed by reference is passed on as it is.
pub proof fn references_are_passed_on(list: Vec<Multiaddr>, error: std::io::Error)
    ensures
        optional_list(Some(&list)) == Some(list@),
        optional_list(None) is None,
        failure_of(Ok(())) is None,
        failure_of(Err(&error)) == Some(error),
{
}

/// Kademlia knows a peer at the addresses that the routing table holds for it, and at
/// those that its queries have come across, each as often as they have. A disabled
/// Kademlia knows none.
pub proof fn kademlia_knows_table_and_queries(
    toggle: KademliaToggle,
    table: Map<PeerId, Seq<Multiaddr>>,
    found: Multiset<(PeerId, Multiaddr)>,
    peer_id: PeerId,
    addresses: Seq<Multiaddr>,
)
    ensures
        table.contains_key(peer_id) ==> table_addresses(table, peer_id) == table[peer_id],
        !table.contains_key(peer_id) ==> table_addresses(table, peer_id).len() == 0,
        all_found(found, peer_id, addresses) <==> forall|address: Multiaddr| #[trigger]
            addresses.to_multiset().count(address) == found.count((peer_id, address)),
        enabled_kademlia(toggle) matches Some(kademlia) ==> {
            &&& routing_table(kademlia).contains_key(peer_id) ==> routed_by_kademlia(
                toggle,
                peer_id,
            ) == routing_table(kademlia)[peer_id]
            &&& !routing_table(kademlia).contains_key(peer_id) ==> routed_by_kademlia(
                toggle,
                peer_id,
            ).len() == 0
            &&& all_found_by_kademlia(toggle, peer_id, addresses) <==> forall|
                address: Multiaddr,
            | #[trigger]
                addresses.to_multiset().count(address) == found_by_queries(kademlia).count(
                    (peer_id, address),
                )
        },
        enabled_kademlia(toggle) is None ==> {
            &&& routed_by_kademlia(toggle, peer_id).len() == 0
            &&& all_found_by_kademlia(toggle, peer_id, addresses) <==> addresses.len() == 0
        },
{
}

/// One sighting more in the list of multicast DNS gives one address more, behind the
/// others, if it is one of the peer and outlives the instant; otherwise it makes no
/// difference. An empty list gives none.
pub proof fn each_lasting_sighting_counts(
    nodes: Seq<(PeerId, Multiaddr, int)>,
    seen: PeerId,
    address: Multiaddr,
    expires: int,
    peer_id: PeerId,
    now: int,
)
    ensures
        unexpired(Seq::empty(), peer_id, now).len() == 0,
        seen == peer_id && expires > now ==> unexpired(
            nodes.push((seen, address, expires)),
            peer_id,
            now,
        ) == unexpired(nodes, peer_id, now).push(address),
        seen != peer_id || expires <= now ==> unexpired(
            nodes.push((seen, address, expires)),
            peer_id,
            now,
        ) == unexpired(nodes, peer_id, now),
{
    reveal(Seq::filter);
    let longer = nodes.push((seen, address, expires));
    assert(longer.drop_last() =~= nodes);
    assert(longer.last() == (seen, address, expires));
    assert(seen == peer_id && expires > now ==> unexpired(longer, peer_id, now) =~= unexpired(
        nodes,
        peer_id,
        now,
    ).push(address));
}

/// A sighting of the peer that outlives the instant is in the answer, and nothing else
/// is.
pub proof fn lasting_sightings_are_in_the_answer(
    nodes: Seq<(PeerId, Multiaddr, int)>,
    peer_id: PeerId,
    now: int,
    address: Multiaddr,
)
    ensures
        unexpired(nodes, peer_id, now).contains(address) <==> exists|i: int|
            0 <= i < nodes.len() && (#[trigger] nodes[i]).0 == peer_id && nodes[i].1 == address
                && nodes[i].2 > now,
    decreases nodes.len(),
{
    if nodes.len() == 0 {
        reveal(Seq::filter);
    } else {
        let shorter = nodes.drop_last();
        let last = nodes.last();
        lasting_sightings_are_in_the_answer(shorter, peer_id, now, address);
        each_lasting_sighting_counts(shorter, last.0, last.1, last.2, peer_id, now);
        assert(nodes =~= shorter.push((last.0, last.1, last.2)));
        let before = unexpired(shorter, peer_id, now);
        if last.0 == peer_id && last.2 > now {
            if before.contains(address) {
                let i = before.index_of(address);
                assert(before.push(last.1)[i] == address);
            }
            assert(before.push(last.1)[before.len() as int] == last.1);
            if before.push(last.1).contains(address) && !before.contains(address) {
                let i = before.push(last.1).index_of(address);
                assert(i == before.len()) by {
                    if i < before.len() {
                        assert(before[i] == address);
                    }
                }
            }
        }
        if exists|i: int|
            0 <= i < nodes.len() && (#[trigger] nodes[i]).0 == peer_id && nodes[i].1 == address
                && nodes[i].2 > now {
            let i = choose|i: int|
                0 <= i < nodes.len() && (#[trigger] nodes[i]).0 == peer_id && nodes[i].1 == address
                    && nodes[i].2 > now;
            if i < shorter.len() {
                assert(shorter[i] == nodes[i]);
            }
        }
        if exists|i: int|
            0 <= i < shorter.len() && (#[trigger] shorter[i]).0 == peer_id && shorter[i].1
                == address && shorter[i].2 > now {
            let i = choose|i: int|
                0 <= i < shorter.len() && (#[trigger] shorter[i]).0 == peer_id && shorter[i].1
                    == address && shorter[i].2 > now;
            assert(nodes[i] == shorter[i]);
        }
        assert(nodes[nodes.len() - 1] == last);
    }
}

/// The multicast DNS of a toggle holds what outlives the instant in its list. A
/// disabled one holds nothing.
pub proof fn mdns_holds_what_lasts(toggle: MdnsToggle, peer_id: PeerId, now: int)
    ensures
        enabled_mdns(toggle) matches Some(mdns) ==> held_by_mdns(toggle, peer_id, now)
            == unexpired(mdns_nodes(mdns), peer_id, now),
        enabled_mdns(toggle) is None ==> held_by_mdns(toggle, peer_id, now).len() == 0,
{
}

/// One entry more in the user's list gives one address more, behind the others, if it
/// is one of the peer; otherwise it makes no difference. An empty list gives none.
pub proof fn each_entry_of_the_peer_counts(
    list: Seq<PeerAddress>,
    entry: PeerAddress,
    peer_id: PeerId,
)
    ensures
        addresses_in(Seq::empty(), peer_id).len() == 0,
        entry.peer_id == peer_id ==> addresses_in(list.push(entry), peer_id) == addresses_in(
            list,
            peer_id,
        ).push(entry.address),
        entry.peer_id != peer_id ==> addresses_in(list.push(entry), peer_id) == addresses_in(
            list,
            peer_id,
        ),
{
    reveal(Seq::filter);
    assert(list.push(entry).drop_last() =~= list);
    assert(entry.peer_id == peer_id ==> addresses_in(list.push(entry), peer_id) =~= addresses_in(
        list,
        peer_id,
    ).push(entry.address));
}

/// The period of a timer is the number of seconds for which it waits.
pub proof fn period_is_that_of_the_timer(interval: Interval)
    ensures
        period_of(Some(interval)) == Some(interval_secs(interval)),
        period_of(None) is None,
{
}

/// The number that a row of decimal digits stands for.
pub open spec fn number(digits: Seq<char>) -> int
    decreases digits.len(),
{
    if digits.len() == 0 {
        0
    } else {
        10 * number(digits.drop_last()) + (digits.last() as int - '0' as int)
    }
}

/// A number in decimal reads back as that number, consists of digits alone, and does
/// not start with a zero unless it is zero.
pub proof fn decimals_read_back(n: nat)
    ensures
        number(decimal(n)) == n,
        decimal(n).len() > 0,
        forall|i: int| 0 <= i < decimal(n).len() ==> '0' <= #[trigger] decimal(n)[i] <= '9',
        n > 0 ==> decimal(n)[0] != '0',
        n == 0 ==> decimal(n).len() == 1,
    decreases n,
{
    reveal_strlit("0");
    reveal_strlit("1");
    reveal_strlit("2");
    reveal_strlit("3");
    reveal_strlit("4");
    reveal_strlit("5");
    reveal_strlit("6");
    reveal_strlit("7");
    reveal_strlit("8");
    reveal_strlit("9");
    reveal_with_fuel(number, 2);
    if n >= 10 {
        decimals_read_back(n / 10);
        let rest = decimal(n / 10);
        assert(decimal(n).drop_last() =~= rest);
        assert(forall|i: int| 0 <= i < rest.len() ==> #[trigger] decimal(n)[i] == rest[i]);
    } else {
        assert(decimal(n).drop_last() =~= Seq::empty());
    }
}

/// Truth is told in words.
pub proof fn truth_is_told_in_words()
    ensures
        truth(true) == "true"@,
        truth(false) == "false"@,
{
}

/// Listed items stand in order, with a comma and a space between each two of them.
pub proof fn items_are_listed_in_order(items: Seq<Seq<char>>, item: Seq<char>)
    ensures
        listed(Seq::empty()) == Seq::<char>::empty(),
        listed(seq![item]) == item,
        items.len() > 0 ==> listed(items.push(item)) == listed(items) + ", "@ + item,
{
    assert(items.push(item).drop_last() =~= items);
}

/// The user's list is told in brackets, entry by entry in order, each with its address
/// and its peer; a set of peers is told in braces, peer by peer.
pub proof fn lists_are_told_item_by_item(
    list: Seq<PeerAddress>,
    ids: Seq<PeerId>,
    items: Seq<Seq<char>>,
)
    ensures
        items.len() == list.len() && (forall|i: int|
            0 <= i < list.len() ==> #[trigger] items[i] == "PeerAddress { address: "@
                + multiaddr_text(list[i].address) + ", peer_id: "@ + peer_id_text(list[i].peer_id)
                + " }"@) ==> peer_addresses_text(list) == "["@ + listed(items) + "]"@,
        items.len() == ids.len() && (forall|i: int|
            0 <= i < ids.len() ==> #[trigger] items[i] == peer_id_text(ids[i]))
            ==> peer_ids_text(ids) == "{"@ + listed(items) + "}"@,
        forall|i: int|
            0 <= i < list.len() ==> peer_address_text(#[trigger] list[i])
                == "PeerAddress { address: "@ + multiaddr_text(list[i].address) + ", peer_id: "@
                + peer_id_text(list[i].peer_id) + " }"@,
{
    let entries = list.map_values(|entry: PeerAddress| peer_address_text(entry));
    let texts = ids.map_values(|id: PeerId| peer_id_text(id));
    if items.len() == list.len() && (forall|i: int|
        0 <= i < list.len() ==> #[trigger] items[i] == "PeerAddress { address: "@ + multiaddr_text(
            list[i].address,
        ) + ", peer_id: "@ + peer_id_text(list[i].peer_id) + " }"@) {
        assert(items =~= entries);
    }
    if items.len() == ids.len() && (forall|i: int|
        0 <= i < ids.len() ==> #[trigger] items[i] == peer_id_text(ids[i])) {
        assert(items =~= texts);
    }
}

/// The text of the state has a line for each part, in this order and under these
/// names, between braces.
pub proof fn text_has_a_line_for_each_part(
    state: DiscoveryView,
    peers: Seq<PeerId>,
    timer: Seq<char>,
)
    ensures
        state.text(peers, timer) == "{\n    user_defined "@ + peer_addresses_text(
            state.user_defined,
        ) + ",\n    kademlia: "@ + truth(state.kademlia is Some) + ",\n    mdns: "@ + truth(
            state.mdns_enabled,
        ) + ",\n    next_kad_random_query: "@ + timer + ",\n    duration_to_next_kad "@ + decimal(
            state.next_delay,
        ) + "s,\n    num_connection: "@ + decimal(state.num_connections as nat)
            + ",\n    peers: "@ + peer_ids_text(peers) + ",\n    discovery_max: "@ + decimal(
            state.discovery_max as nat,
        ) + "\n}"@,
{
}

/// The same, of the parts themselves.
pub proof fn rendering_has_a_line_for_each_part(
    user_defined: Seq<PeerAddress>,
    kademlia: bool,
    mdns: bool,
    timer: Seq<char>,
    delay_secs: nat,
    num_connections: nat,
    peers: Seq<PeerId>,
    discovery_max: nat,
)
    ensures
        rendered(
            user_defined,
            kademlia,
            mdns,
            timer,
            delay_secs,
            num_connections,
            peers,
            discovery_max,
        ) == "{\n    user_defined "@ + peer_addresses_text(user_defined) + ",\n    kademlia: "@
            + truth(kademlia) + ",\n    mdns: "@ + truth(mdns) + ",\n    next_kad_random_query: "@
            + timer + ",\n    duration_to_next_kad "@ + decimal(delay_secs)
            + "s,\n    num_connection: "@ + decimal(num_connections) + ",\n    peers: "@
            + peer_ids_text(peers) + ",\n    discovery_max: "@ + decimal(discovery_max) + "\n}"@,
{
}

/// The message of an error starts with what failed.
pub proof fn messages_start_with_what_failed(reason: String, error: std::io::Error)
    ensures
        Error::FailedBootstrap(reason).message_start() == "Failed to bootstrap kademlia "@,
        Error::FailedMdns(error).message_start() == "Failed to initialize mdns "@,
{
}

} // verus!
