use discovery::behaviour::DiscoveryBehaviour;
use discovery::config::{DiscoveryConfig, DiscoveryConfigBuilder};
use discovery::error::Error;
use discovery::peer::PeerAddress;
use libp2p::{Multiaddr, PeerId};

fn address(text: &str) -> Multiaddr {
    text.parse().unwrap()
}

fn entry(text: &str, peer_id: PeerId) -> PeerAddress {
    PeerAddress {
        address: address(text),
        peer_id,
    }
}

fn started(config: DiscoveryConfig) -> DiscoveryBehaviour {
    assert!(!config.mdns_enabled());
    DiscoveryBehaviour::new(PeerId::random(), config, None).unwrap()
}

#[test]
fn default_config_enables_everything() {
    let mut builder = DiscoveryConfigBuilder::default();
    assert!(builder.build().unwrap().mdns_enabled());
    let text = started(builder.with_mdns(false).build().unwrap()).display();
    assert!(text.contains("\n    user_defined [],\n"));
    assert!(text.contains("\n    kademlia: true,\n"));
    assert!(text.contains("\n    discovery_max: 18446744073709551615\n}"));
}

#[test]
fn default_of_config_and_builder_agree() {
    assert!(DiscoveryConfig::default().mdns_enabled());
    assert!(DiscoveryConfigBuilder::default()
        .build()
        .unwrap()
        .mdns_enabled());
}

#[test]
fn steps_can_be_chained() {
    let mut builder = DiscoveryConfigBuilder::default();
    let config = builder
        .discovery_limit(7)
        .with_mdns(false)
        .with_kademlia(false)
        .use_kademlia_disjoint_query_paths(false)
        .build()
        .unwrap();
    let text = started(config).display();
    assert!(text.contains("\n    kademlia: false,\n"));
    assert!(text.contains("\n    mdns: false,\n"));
    assert!(text.contains("\n    discovery_max: 7\n}"));
}

#[test]
fn later_setting_holds() {
    let mut builder = DiscoveryConfigBuilder::default();
    builder.discovery_limit(3).with_mdns(false);
    builder.with_mdns(true).with_mdns(false).discovery_limit(12);
    let text = started(builder.build().unwrap()).display();
    assert!(text.contains("\n    discovery_max: 12\n}"));
}

#[test]
fn settings_are_independent() {
    let mut one = DiscoveryConfigBuilder::default();
    one.discovery_limit(5).with_kademlia(false).with_mdns(false);
    let mut other = DiscoveryConfigBuilder::default();
    other.with_mdns(false).with_kademlia(false).discovery_limit(5);
    assert_eq!(
        started(one.build().unwrap()).display(),
        started(other.build().unwrap()).display()
    );
}

#[test]
fn user_peers_accumulate() {
    let (p, q) = (PeerId::random(), PeerId::random());
    let mut builder = DiscoveryConfigBuilder::default();
    builder
        .with_mdns(false)
        .with_kademlia(false)
        .with_user_defined(vec![entry("/ip4/10.0.0.1/tcp/1", p)])
        .with_user_defined(vec![
            entry("/ip4/10.0.0.2/tcp/2", q),
            entry("/ip4/10.0.0.3/tcp/3", p),
        ]);
    let mut behaviour = started(builder.build().unwrap());
    assert_eq!(
        behaviour.addresses_of_peer(&p),
        vec![address("/ip4/10.0.0.1/tcp/1"), address("/ip4/10.0.0.3/tcp/3")]
    );
    assert_eq!(
        behaviour.addresses_of_peer(&q),
        vec![address("/ip4/10.0.0.2/tcp/2")]
    );
}

#[test]
fn building_leaves_the_builder_as_it_is() {
    let p = PeerId::random();
    let mut builder = DiscoveryConfigBuilder::default();
    builder
        .with_mdns(false)
        .with_kademlia(false)
        .with_user_defined(vec![entry("/ip4/10.0.0.1/tcp/1", p)]);
    let first = builder.build().unwrap();
    let second = builder.build().unwrap();
    let copy = first.clone();
    for config in vec![first, second, copy] {
        assert_eq!(
            started(config).addresses_of_peer(&p),
            vec![address("/ip4/10.0.0.1/tcp/1")]
        );
    }
}

#[test]
fn messages_name_what_failed() {
    let error = Error::FailedBootstrap(String::from("no peers"));
    assert_eq!(error.message(), "Failed to bootstrap kademlia no peers");
    let reason = std::io::Error::new(std::io::ErrorKind::Other, "no socket");
    let error = Error::FailedMdns(reason);
    assert_eq!(error.message(), "Failed to initialize mdns no socket");
    assert_eq!(error.message_for("why"), "Failed to initialize mdns why");
}
