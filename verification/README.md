# discovery

Peer discovery for a node of a peer-to-peer network, verified with Verus.

Peers come from three sources: a list that the user gives, a Kademlia
distributed hash table, and multicast DNS on the local network. The library
keeps the state, decides what is asked of Kademlia and what is handed to the
swarm, pauses at a limit of connections, and backs off between random queries.

- `src/config.rs`: the configuration and its builder.
- `src/behaviour.rs`: the state of discovery, and what it does on each occasion.
- `src/action.rs`: what behaviours ask of the swarm, and the steps of a poll.
- `src/delay.rs`, `src/peer.rs`, `src/display.rs`, `src/error.rs`: the waiting
  time, peers and sets of peers, the state as text, errors.
- `src/kademlia.rs`, `src/mdns.rs`, `src/timer.rs`, `src/outside.rs`: what is
  trusted of libp2p and async-std.
- `src/laws.rs`: properties that span several operations.
- `app/`: the network behaviour of libp2p around the library. It starts
  multicast DNS, polls sockets and timers, and writes the log.
