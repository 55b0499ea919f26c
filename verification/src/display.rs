//! The state of discovery as text.
use crate::peer::{debug_address, debug_peer_id, multiaddr_text, peer_id_text, PeerAddress};
use libp2p::PeerId;
use vstd::prelude::*;
use vstd::string::StringExecFns;

verus! {

/// The decimal digit of a number below ten.
pub open spec fn digit(n: nat) -> Seq<char> {
    if n == 0 {
        "0"@
    } else if n == 1 {
        "1"@
    } else if n == 2 {
        "2"@
    } else if n == 3 {
        "3"@
    } else if n == 4 {
        "4"@
    } else if n == 5 {
        "5"@
    } else if n == 6 {
        "6"@
    } else if n == 7 {
        "7"@
    } else if n == 8 {
        "8"@
    } else {
        "9"@
    }
}

/// A number in decimal, without leading zeros.
pub open spec fn decimal(n: nat) -> Seq<char>
    decreases n,
{
    if n < 10 {
        digit(n)
    } else {
        decimal(n / 10) + digit(n % 10)
    }
}

/// A truth value in words.
pub open spec fn truth(value: bool) -> Seq<char> {
    if value {
        "true"@
    } else {
        "false"@
    }
}

/// One entry of the user's list.
pub open spec fn peer_address_text(entry: PeerAddress) -> Seq<char> {
    "PeerAddress { address: "@ + multiaddr_text(entry.address) + ", peer_id: "@ + peer_id_text(
        entry.peer_id,
    ) + " }"@
}

/// Items one after the other, with a comma between them.
pub open spec fn listed(items: Seq<Seq<char>>) -> Seq<char>
    decreases items.len(),
{
    if items.len() == 0 {
        Seq::empty()
    } else if items.len() == 1 {
        items[0]
    } else {
        listed(items.drop_last()) + ", "@ + items.last()
    }
}

/// The user's list.
pub open spec fn peer_addresses_text(list: Seq<PeerAddress>) -> Seq<char> {
    "["@ + listed(list.map_values(|entry: PeerAddress| peer_address_text(entry))) + "]"@
}

/// A set of peers, in the order in which `ids` gives them.
pub open spec fn peer_ids_text(ids: Seq<PeerId>) -> Seq<char> {
    "{"@ + listed(ids.map_values(|id: PeerId| peer_id_text(id))) + "}"@
}

/// The state of discovery: a line for each part, between braces.
pub open spec fn rendered(
    user_defined: Seq<PeerAddress>,
    kademlia: bool,
    mdns: bool,
    timer: Seq<char>,
    delay_secs: nat,
    num_connections: nat,
    peers: Seq<PeerId>,
    discovery_max: nat,
) -> Seq<char> {
    "{\n    user_defined "@ + peer_addresses_text(user_defined) + ",\n    kademlia: "@ + truth(
        kademlia,
    ) + ",\n    mdns: "@ + truth(mdns) + ",\n    next_kad_random_query: "@ + timer
        + ",\n    duration_to_next_kad "@ + decimal(delay_secs) + "s,\n    num_connection: "@
        + decimal(num_connections) + ",\n    peers: "@ + peer_ids_text(peers)
        + ",\n    discovery_max: "@ + decimal(discovery_max) + "\n}"@
}

/// Writes the digit of a number below ten.
fn push_digit(text: &mut String, n: u64)
    requires
        n < 10,
    ensures
        final(text)@ == old(text)@ + digit(n as nat),
{
    text.append(
        match n {
            0 => "0",
            1 => "1",
            2 => "2",
            3 => "3",
            4 => "4",
            5 => "5",
            6 => "6",
            7 => "7",
            8 => "8",
            _ => "9",
        },
    );
}

/// Writes a number in decimal.
fn push_decimal(text: &mut String, n: u64)
    ensures
        final(text)@ == old(text)@ + decimal(n as nat),
    decreases n,
{
    let ghost before = text@;
    if n < 10 {
        push_digit(text, n);
    } else {
        push_decimal(text, n / 10);
        push_digit(text, n % 10);
        assert(text@ =~= before + (decimal((n / 10) as nat) + digit((n % 10) as nat)));
    }
}

/// Writes a truth value.
fn push_truth(text: &mut String, value: bool)
    ensures
        final(text)@ == old(text)@ + truth(value),
{
    text.append(
        if value {
            "true"
        } else {
            "false"
        },
    );
}

/// Writes the user's list.
fn push_peer_addresses(text: &mut String, list: &Vec<PeerAddress>)
    ensures
        final(text)@ == old(text)@ + peer_addresses_text(list@),
{
    let ghost before = text@;
    let ghost items = list@.map_values(|entry: PeerAddress| peer_address_text(entry));
    text.append("[");
    assert(text@ =~= before + "["@ + listed(items.take(0)));
    for i in 0..list.len()
        invariant
            items == list@.map_values(|entry: PeerAddress| peer_address_text(entry)),
            text@ == before + "["@ + listed(items.take(i as int)),
    {
        let ghost start = text@;
        if i > 0 {
            text.append(", ");
        }
        let ghost separated = text@;
        let address = debug_address(&list[i].address);
        let peer_id = debug_peer_id(&list[i].peer_id);
        text.append("PeerAddress { address: ");
        text.append(address.as_str());
        text.append(", peer_id: ");
        text.append(peer_id.as_str());
        text.append(" }");
        proof {
            assert(text@ =~= separated + items[i as int]);
            assert(items.take(i + 1).drop_last() =~= items.take(i as int));
            assert(items.take(i + 1).last() == items[i as int]);
            assert(text@ =~= before + "["@ + listed(items.take(i + 1)));
        }
    }
    assert(items.take(items.len() as int) =~= items);
    text.append("]");
    assert(text@ =~= before + peer_addresses_text(list@));
}

/// Writes a set of peers.
fn push_peer_ids(text: &mut String, ids: &Vec<PeerId>)
    ensures
        final(text)@ == old(text)@ + peer_ids_text(ids@),
{
    let ghost before = text@;
    let ghost items = ids@.map_values(|id: PeerId| peer_id_text(id));
    text.append("{");
    assert(text@ =~= before + "{"@ + listed(items.take(0)));
    for i in 0..ids.len()
        invariant
            items == ids@.map_values(|id: PeerId| peer_id_text(id)),
            text@ == before + "{"@ + listed(items.take(i as int)),
    {
        if i > 0 {
            text.append(", ");
        }
        let ghost separated = text@;
        let peer_id = debug_peer_id(&ids[i]);
        text.append(peer_id.as_str());
        proof {
            assert(text@ =~= separated + items[i as int]);
            assert(items.take(i + 1).drop_last() =~= items.take(i as int));
            assert(items.take(i + 1).last() == items[i as int]);
            assert(text@ =~= before + "{"@ + listed(items.take(i + 1)));
        }
    }
    assert(items.take(items.len() as int) =~= items);
    text.append("}");
    assert(text@ =~= before + peer_ids_text(ids@));
}

/// Writes the state of discovery. `timer` tells of the timer of the random
/// queries.
pub fn render(
    user_defined: &Vec<PeerAddress>,
    kademlia: bool,
    mdns: bool,
    timer: &str,
    delay_secs: u64,
    num_connections: u64,
    peers: &Vec<PeerId>,
    discovery_max: u64,
) -> (text: String)
    ensures
        text@ == rendered(
            user_defined@,
            kademlia,
            mdns,
            timer@,
            delay_secs as nat,
            num_connections as nat,
            peers@,
            discovery_max as nat,
        ),
{
    let mut text = String::from_str("{\n    user_defined ");
    push_peer_addresses(&mut text, user_defined);
    text.append(",\n    kademlia: ");
    push_truth(&mut text, kademlia);
    text.append(",\n    mdns: ");
    push_truth(&mut text, mdns);
    text.append(",\n    next_kad_random_query: ");
    text.append(timer);
    text.append(",\n    duration_to_next_kad ");
    push_decimal(&mut text, delay_secs);
    text.append("s,\n    num_connection: ");
    push_decimal(&mut text, num_connections);
    text.append(",\n    peers: ");
    push_peer_ids(&mut text, peers);
    text.append(",\n    discovery_max: ");
    push_decimal(&mut text, discovery_max);
    text.append("\n}");
    text
}

} // verus!
