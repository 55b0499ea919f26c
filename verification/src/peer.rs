//! Peers, their addresses, and sets of peers.
use libp2p::{Multiaddr, PeerId};
use vstd::prelude::*;

verus! {

/// The text that the `Debug` of [`PeerId`] writes.
pub uninterp spec fn peer_id_text(peer_id: PeerId) -> Seq<char>;

/// The text that the `Debug` of [`Multiaddr`] writes.
pub uninterp spec fn multiaddr_text(address: Multiaddr) -> Seq<char>;

/// The `==` of [`PeerId`]: two identities are equal when they are the same
/// value. (It compares code, size and digest of the hash that an identity is.)
#[verifier::external_body]
pub(crate) fn same_peer(left: &PeerId, right: &PeerId) -> (same: bool)
    ensures
        same == (*left == *right),
{
    left == right
}

/// The `clone` of [`Multiaddr`]: the clone is the same address.
#[verifier::external_body]
pub(crate) fn clone_address(address: &Multiaddr) -> (copy: Multiaddr)
    ensures
        copy == *address,
{
    address.clone()
}

/// [`PeerId::random`]: some identity. Which one is left to chance.
#[verifier::external_body]
pub(crate) fn random_peer_id() -> PeerId {
    PeerId::random()
}

/// Tells whether `peer_id` is one that chance gave.
pub closed spec fn drawn_at_random(peer_id: PeerId) -> bool {
    call_ensures(random_peer_id, (), peer_id)
}

/// Only what [`PeerId::random`] gave counts as given by chance.
pub(crate) proof fn chance_was_asked(peer_id: PeerId)
    ensures
        drawn_at_random(peer_id) <==> call_ensures(random_peer_id, (), peer_id),
{
}

/// The `Debug` of [`PeerId`]: its text depends on the identity alone.
#[verifier::external_body]
pub(crate) fn debug_peer_id(peer_id: &PeerId) -> (text: String)
    ensures
        text@ == peer_id_text(*peer_id),
{
    format!("{:?}", peer_id)
}

/// The `Debug` of [`Multiaddr`]: its text depends on the address alone.
#[verifier::external_body]
pub(crate) fn debug_address(address: &Multiaddr) -> (text: String)
    ensures
        text@ == multiaddr_text(*address),
{
    format!("{:?}", address)
}

/// A peer and one address at which it can be reached.
#[derive(Debug)]
pub struct PeerAddress {
    /// Where the peer listens.
    pub address: Multiaddr,
    /// Who listens there.
    pub peer_id: PeerId,
}

impl Clone for PeerAddress {
    fn clone(&self) -> (copy: Self)
        ensures
            copy == *self,
    {
        PeerAddress { address: clone_address(&self.address), peer_id: self.peer_id }
    }
}

/// Copies a list of peers with their addresses.
pub(crate) fn clone_peer_addresses(list: &Vec<PeerAddress>) -> (copy: Vec<PeerAddress>)
    ensures
        copy@ == list@,
{
    let mut copy: Vec<PeerAddress> = Vec::new();
    for i in 0..list.len()
        invariant
            copy@ == list@.take(i as int),
    {
        copy.push(list[i].clone());
    }
    copy
}

/// The addresses that `list` gives for `peer_id`, in the order of the list.
pub open spec fn addresses_in(list: Seq<PeerAddress>, peer_id: PeerId) -> Seq<Multiaddr> {
    list.filter(|entry: PeerAddress| entry.peer_id == peer_id).map_values(
        |entry: PeerAddress| entry.address,
    )
}

/// Collects the addresses that `list` gives for `peer_id`.
pub fn addresses_of(list: &Vec<PeerAddress>, peer_id: &PeerId) -> (addresses: Vec<Multiaddr>)
    ensures
        addresses@ == addresses_in(list@, *peer_id),
{
    let mut addresses: Vec<Multiaddr> = Vec::new();
    for i in 0..list.len()
        invariant
            addresses@ == addresses_in(list@.take(i as int), *peer_id),
    {
        proof {
            reveal(Seq::filter);
            assert(list@.take(i + 1).drop_last() == list@.take(i as int));
        }
        if same_peer(&list[i].peer_id, peer_id) {
            addresses.push(clone_address(&list[i].address));
        }
    }
    assert(list@.take(list@.len() as int) == list@);
    addresses
}

/// A set of peers.
#[derive(Debug)]
pub struct PeerSet {
    ids: Vec<PeerId>,
}

impl View for PeerSet {
    type V = Set<PeerId>;

    closed spec fn view(&self) -> Set<PeerId> {
        self.ids@.to_set()
    }
}

impl PeerSet {
    #[verifier::type_invariant]
    spec fn each_once(self) -> bool {
        self.ids@.no_duplicates()
    }

    /// The members in the order in which they are kept.
    pub closed spec fn order(&self) -> Seq<PeerId> {
        self.ids@
    }

    /// The empty set.
    pub fn new() -> (set: Self)
        ensures
            set@ == Set::<PeerId>::empty(),
            set.order() == Seq::<PeerId>::empty(),
    {
        let set = PeerSet { ids: Vec::new() };
        assert(set@ =~= Set::<PeerId>::empty());
        set
    }

    /// Where `peer_id` stands among the members, if it is one.
    fn position(&self, peer_id: &PeerId) -> (found: Option<usize>)
        ensures
            match found {
                Some(i) => i < self.ids@.len() && self.ids@[i as int] == *peer_id,
                None => !self.ids@.contains(*peer_id),
            },
    {
        for i in 0..self.ids.len()
            invariant
                forall|j: int| 0 <= j < i ==> self.ids@[j] != *peer_id,
        {
            if same_peer(&self.ids[i], peer_id) {
                return Some(i);
            }
        }
        None
    }

    /// Tells whether `peer_id` is a member.
    pub fn contains(&self, peer_id: &PeerId) -> (found: bool)
        ensures
            found == self@.contains(*peer_id),
    {
        self.position(peer_id).is_some()
    }

    /// Adds `peer_id`; a member stays one.
    pub fn insert(&mut self, peer_id: PeerId)
        ensures
            final(self)@ == old(self)@.insert(peer_id),
    {
        proof {
            use_type_invariant(&*self);
        }
        let ghost before = self.ids@;
        if self.position(&peer_id).is_none() {
            let mut ids = Vec::new();
            std::mem::swap(&mut ids, &mut self.ids);
            ids.push(peer_id);
            proof {
                before.lemma_push_to_set_commute(peer_id);
            }
            self.ids = ids;
        } else {
            assert(before.to_set() =~= before.to_set().insert(peer_id));
        }
    }

    /// Takes `peer_id` out, if it is a member.
    pub fn remove(&mut self, peer_id: &PeerId)
        ensures
            final(self)@ == old(self)@.remove(*peer_id),
    {
        proof {
            use_type_invariant(&*self);
        }
        let ghost before = self.ids@;
        if let Some(i) = self.position(peer_id) {
            let mut ids = Vec::new();
            std::mem::swap(&mut ids, &mut self.ids);
            ids.remove(i);
            assert forall|id: PeerId| before.contains(id) && id != *peer_id implies ids@.contains(
                id,
            ) by {
                let j = before.index_of(id);
                assert(ids@[if j < i { j } else { j - 1 }] == id);
            }
            assert(ids@.to_set() =~= before.to_set().remove(*peer_id));
            self.ids = ids;
        } else {
            assert(before.to_set() =~= before.to_set().remove(*peer_id));
        }
    }

    /// The members, each of them once.
    pub fn members(&self) -> (ids: &Vec<PeerId>)
        ensures
            ids@ == self.order(),
            ids@.no_duplicates(),
            ids@.to_set() == self@,
    {
        proof {
            use_type_invariant(self);
        }
        &self.ids
    }
}

/// A set holds the peers that it keeps, in whatever order.
pub proof fn set_holds_what_it_keeps(set: PeerSet)
    ensures
        set@ == set.order().to_set(),
{
}

} // verus!
