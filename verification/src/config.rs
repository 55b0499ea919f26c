//! The configuration of discovery and its builder.
use crate::error::Error;
use crate::peer::{clone_peer_addresses, PeerAddress};
use vstd::prelude::*;

verus! {

/// What a [`DiscoveryConfig`] says.
pub struct DiscoveryConfigView {
    /// Peers that the user names, with an address each.
    pub user_defined: Seq<PeerAddress>,
    /// The number of connections at which discovery pauses.
    pub discovery_max: u64,
    /// Whether Kademlia looks for peers.
    pub enable_kademlia: bool,
    /// Whether multicast DNS looks for peers on the local network.
    pub enable_mdns: bool,
    /// Whether the paths of one Kademlia query are kept apart.
    pub kademlia_disjoint_query_paths: bool,
}

impl DiscoveryConfigView {
    /// The configuration that a builder starts from.
    pub open spec fn initial() -> Self {
        DiscoveryConfigView {
            user_defined: Seq::empty(),
            discovery_max: u64::MAX,
            enable_kademlia: true,
            enable_mdns: true,
            kademlia_disjoint_query_paths: true,
        }
    }

    /// The same, with discovery pausing at `limit` connections.
    pub open spec fn with_limit(self, limit: u64) -> Self {
        DiscoveryConfigView { discovery_max: limit, ..self }
    }

    /// The same, with `more` behind the peers that are named already.
    pub open spec fn with_peers(self, more: Seq<PeerAddress>) -> Self {
        DiscoveryConfigView { user_defined: self.user_defined + more, ..self }
    }

    /// The same, with disjoint query paths on or off.
    pub open spec fn with_disjoint_query_paths(self, value: bool) -> Self {
        DiscoveryConfigView { kademlia_disjoint_query_paths: value, ..self }
    }

    /// The same, with multicast DNS on or off.
    pub open spec fn with_mdns(self, value: bool) -> Self {
        DiscoveryConfigView { enable_mdns: value, ..self }
    }

    /// The same, with Kademlia on or off.
    pub open spec fn with_kademlia(self, value: bool) -> Self {
        DiscoveryConfigView { enable_kademlia: value, ..self }
    }
}

/// How discovery is to work.
pub struct DiscoveryConfig {
    /// user defined peer that are given to kad in order to connect to the
    /// network
    user_defined: Vec<PeerAddress>,
    /// maximum number of peer to connect to
    discovery_max: u64,
    /// enable kademlia to find new peer
    enable_kademlia: bool,
    /// look for new peer over local network.
    enable_mdns: bool,
    /// use the option from kademlia. Prevent some type of attacks against
    /// kademlia.
    kademlia_disjoint_query_paths: bool,
}

/// What a [`DiscoveryConfig`] says, but for multicast DNS, taken apart.
pub(crate) struct ConfigParts {
    pub(crate) user_defined: Vec<PeerAddress>,
    pub(crate) discovery_max: u64,
    pub(crate) enable_kademlia: bool,
    pub(crate) kademlia_disjoint_query_paths: bool,
}

impl View for DiscoveryConfig {
    type V = DiscoveryConfigView;

    closed spec fn view(&self) -> DiscoveryConfigView {
        DiscoveryConfigView {
            user_defined: self.user_defined@,
            discovery_max: self.discovery_max,
            enable_kademlia: self.enable_kademlia,
            enable_mdns: self.enable_mdns,
            kademlia_disjoint_query_paths: self.kademlia_disjoint_query_paths,
        }
    }
}

impl Default for DiscoveryConfig {
    fn default() -> (config: Self)
        ensures
            config@ == DiscoveryConfigView::initial(),
    {
        DiscoveryConfig {
            user_defined: Vec::new(),
            discovery_max: u64::MAX,
            enable_kademlia: true,
            enable_mdns: true,
            kademlia_disjoint_query_paths: true,
        }
    }
}

impl Clone for DiscoveryConfig {
    fn clone(&self) -> (copy: Self)
        ensures
            copy@ == self@,
    {
        DiscoveryConfig {
            user_defined: clone_peer_addresses(&self.user_defined),
            discovery_max: self.discovery_max,
            enable_kademlia: self.enable_kademlia,
            enable_mdns: self.enable_mdns,
            kademlia_disjoint_query_paths: self.kademlia_disjoint_query_paths,
        }
    }
}

impl DiscoveryConfig {
    /// Tells whether multicast DNS is to be started.
    pub fn mdns_enabled(&self) -> (enabled: bool)
        ensures
            enabled == self@.enable_mdns,
    {
        self.enable_mdns
    }

    /// Takes the configuration apart.
    pub(crate) fn into_parts(self) -> (parts: ConfigParts)
        ensures
            parts.user_defined@ == self@.user_defined,
            parts.discovery_max == self@.discovery_max,
            parts.enable_kademlia == self@.enable_kademlia,
            parts.kademlia_disjoint_query_paths == self@.kademlia_disjoint_query_paths,
    {
        ConfigParts {
            user_defined: self.user_defined,
            discovery_max: self.discovery_max,
            enable_kademlia: self.enable_kademlia,
            kademlia_disjoint_query_paths: self.kademlia_disjoint_query_paths,
        }
    }
}

/// Builds a [`DiscoveryConfig`] step by step. Each step hands the builder
/// back, so that steps can be chained.
pub struct DiscoveryConfigBuilder {
    config: DiscoveryConfig,
}

impl View for DiscoveryConfigBuilder {
    type V = DiscoveryConfigView;

    closed spec fn view(&self) -> DiscoveryConfigView {
        self.config@
    }
}

impl Default for DiscoveryConfigBuilder {
    fn default() -> (builder: Self)
        ensures
            builder@ == DiscoveryConfigView::initial(),
    {
        DiscoveryConfigBuilder { config: DiscoveryConfig::default() }
    }
}

impl DiscoveryConfigBuilder {
    /// Set the number of active connections at which we pause discovery.
    pub fn discovery_limit(&mut self, limit: u64) -> (builder: &mut Self)
        ensures
            (*builder)@ == old(self)@.with_limit(limit),
            *final(self) == *final(builder),
    {
        self.config.discovery_max = limit;
        self
    }

    /// Set custom nodes which never expire, e.g. bootstrap or reserved nodes.
    /// They come behind those that were set before.
    pub fn with_user_defined(&mut self, user_defined: Vec<PeerAddress>) -> (builder: &mut Self)
        ensures
            (*builder)@ == old(self)@.with_peers(user_defined@),
            *final(self) == *final(builder),
    {
        let mut more = user_defined;
        self.config.user_defined.append(&mut more);
        self
    }

    /// Configures if disjoint query path is enabled
    pub fn use_kademlia_disjoint_query_paths(&mut self, value: bool) -> (builder: &mut Self)
        ensures
            (*builder)@ == old(self)@.with_disjoint_query_paths(value),
            *final(self) == *final(builder),
    {
        self.config.kademlia_disjoint_query_paths = value;
        self
    }

    /// Configures if mdns is enabled.
    pub fn with_mdns(&mut self, value: bool) -> (builder: &mut Self)
        ensures
            (*builder)@ == old(self)@.with_mdns(value),
            *final(self) == *final(builder),
    {
        self.config.enable_mdns = value;
        self
    }

    /// Configures if Kademlia is enabled.
    pub fn with_kademlia(&mut self, value: bool) -> (builder: &mut Self)
        ensures
            (*builder)@ == old(self)@.with_kademlia(value),
            *final(self) == *final(builder),
    {
        self.config.enable_kademlia = value;
        self
    }

    /// Build the discovery config. This never fails.
    pub fn build(&self) -> (built: Result<DiscoveryConfig, Error>)
        ensures
            built matches Ok(config) && config@ == self@,
    {
        Ok(self.config.clone())
    }
}

} // verus!
