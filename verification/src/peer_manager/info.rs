//! What is known of one connected peer.

use crate::bytes::clone_text;
use crate::ids::{Multiaddr, MultiaddrView};
use vstd::prelude::*;

verus! {

/// The height of a block.
pub type BlockHeight = u32;

/// How a peer came to be known. Reserved peers are set by the operator and
/// keep their class for good; bootstrap peers are the ones dialed first;
/// every other peer is discovered.
#[derive(Clone, Copy, Debug, PartialEq, Eq, Structural)]
pub enum PeerClass {
    Reserved,
    Bootstrap,
    Discovered,
}

/// The last heartbeat heard from a peer.
#[derive(Clone, Copy, Debug, PartialEq, Eq, Structural)]
pub struct HeartbeatData {
    pub block_height: BlockHeight,
    pub last_seen: u64,
}

/// The record kept for a connected peer.
#[derive(Debug)]
pub struct PeerInfo {
    pub class: PeerClass,
    pub peer_addresses: Vec<Multiaddr>,
    pub client_version: Option<String>,
    pub heartbeat_data: Option<HeartbeatData>,
    pub score: i64,
    pub banned: bool,
}

/// What a [`PeerInfo`] stands for.
pub struct PeerInfoView {
    pub class: PeerClass,
    pub addresses: Seq<MultiaddrView>,
    pub client_version: Option<Seq<char>>,
    pub heartbeat: Option<HeartbeatData>,
    pub score: i64,
    pub banned: bool,
}

/// The abstract values of a list of addresses, in order.
pub open spec fn address_views(addresses: Seq<Multiaddr>) -> Seq<MultiaddrView> {
    Seq::new(addresses.len(), |i: int| addresses[i]@)
}

/// `known` followed by those of `seen` that are new, each once, in the
/// order in which they are first seen.
pub open spec fn merge_addresses(known: Seq<MultiaddrView>, seen: Seq<MultiaddrView>) -> Seq<
    MultiaddrView,
>
    decreases seen.len(),
{
    if seen.len() == 0 {
        known
    } else {
        let rest = merge_addresses(known, seen.drop_last());
        if rest.contains(seen.last()) {
            rest
        } else {
            rest.push(seen.last())
        }
    }
}

/// Merging adds exactly the addresses seen and repeats none.
pub proof fn lemma_merge_addresses(known: Seq<MultiaddrView>, seen: Seq<MultiaddrView>)
    requires
        known.no_duplicates(),
    ensures
        merge_addresses(known, seen).no_duplicates(),
        merge_addresses(known, seen).to_set() == known.to_set().union(seen.to_set()),
        known.is_prefix_of(merge_addresses(known, seen)),
    decreases seen.len(),
{
    let merged = merge_addresses(known, seen);
    if seen.len() == 0 {
        assert(merged.to_set() =~= known.to_set().union(seen.to_set()));
    } else {
        let rest = merge_addresses(known, seen.drop_last());
        lemma_merge_addresses(known, seen.drop_last());
        assert forall|a: MultiaddrView| #[trigger]
            merged.to_set().contains(a) <==> known.to_set().union(seen.to_set()).contains(a) by {
            if merged.contains(a) {
                let i = choose|i: int| 0 <= i < merged.len() && merged[i] == a;
                if i < rest.len() {
                    assert(rest[i] == a);
                    assert(rest.to_set().contains(a));
                    if seen.drop_last().contains(a) {
                        let j = choose|j: int|
                            0 <= j < seen.drop_last().len() && seen.drop_last()[j] == a;
                        assert(seen[j] == a);
                    }
                } else {
                    assert(seen[seen.len() - 1] == a);
                }
            }
            if known.contains(a) {
                assert(rest.to_set().contains(a));
                let i = choose|i: int| 0 <= i < rest.len() && rest[i] == a;
                assert(merged[i] == a);
            }
            if seen.contains(a) {
                let j = choose|j: int| 0 <= j < seen.len() && seen[j] == a;
                if j < seen.len() - 1 {
                    assert(seen.drop_last()[j] == a);
                    assert(seen.drop_last().to_set().contains(a));
                    assert(rest.to_set().contains(a));
                    let i = choose|i: int| 0 <= i < rest.len() && rest[i] == a;
                    assert(merged[i] == a);
                } else {
                    if rest.contains(a) {
                    } else {
                        assert(merged[rest.len() as int] == a);
                    }
                }
            }
        }
        assert(merged.to_set() =~= known.to_set().union(seen.to_set()));
    }
}

impl View for PeerInfo {
    type V = PeerInfoView;

    open spec fn view(&self) -> PeerInfoView {
        PeerInfoView {
            class: self.class,
            addresses: address_views(self.peer_addresses@),
            client_version: match self.client_version {
                Some(text) => Some(text@),
                None => None,
            },
            heartbeat: self.heartbeat_data,
            score: self.score,
            banned: self.banned,
        }
    }
}

/// Whether `addresses` holds an address equal to `address`.
pub fn has_address(addresses: &Vec<Multiaddr>, address: &Multiaddr) -> (r: bool)
    ensures
        r == address_views(addresses@).contains(address@),
{
    let mut i: usize = 0;
    while i < addresses.len()
        invariant
            i <= addresses@.len(),
            forall|j: int| 0 <= j < i ==> address_views(addresses@)[j] != address@,
        decreases addresses@.len() - i,
    {
        if addresses[i].same(address) {
            assert(address_views(addresses@)[i as int] == address@);
            return true;
        }
        i = i + 1;
    }
    false
}

/// Adds to `known` the addresses of `seen` that it does not hold yet.
pub fn merge_into(known: &mut Vec<Multiaddr>, seen: &Vec<Multiaddr>)
    ensures
        address_views(final(known)@) == merge_addresses(
            address_views(old(known)@),
            address_views(seen@),
        ),
{
    let ghost start = address_views(known@);
    let ghost seen_views = address_views(seen@);
    let mut i: usize = 0;
    assert(seen_views.subrange(0, 0) =~= Seq::<MultiaddrView>::empty());
    while i < seen.len()
        invariant
            i <= seen@.len(),
            start == address_views(old(known)@),
            seen_views == address_views(seen@),
            address_views(known@) == merge_addresses(start, seen_views.subrange(0, i as int)),
        decreases seen@.len() - i,
    {
        let ghost before = address_views(known@);
        let ghost prefix = seen_views.subrange(0, i + 1);
        assert(prefix.drop_last() =~= seen_views.subrange(0, i as int));
        assert(prefix.last() == seen@[i as int]@);
        if !has_address(known, &seen[i]) {
            known.push(seen[i].duplicate());
            assert(address_views(known@) =~= before.push(seen@[i as int]@));
        }
        i = i + 1;
    }
    assert(seen_views.subrange(0, i as int) =~= seen_views);
}

impl PeerInfo {
    /// The record of a peer that has just connected.
    pub fn connected(class: PeerClass, addresses: &Vec<Multiaddr>, score: i64) -> (info: PeerInfo)
        ensures
            info@ == (PeerInfoView {
                class,
                addresses: merge_addresses(Seq::empty(), address_views(addresses@)),
                client_version: None,
                heartbeat: None,
                score,
                banned: false,
            }),
    {
        let mut peer_addresses: Vec<Multiaddr> = Vec::new();
        assert(address_views(peer_addresses@) =~= Seq::<MultiaddrView>::empty());
        merge_into(&mut peer_addresses, addresses);
        PeerInfo {
            class,
            peer_addresses,
            client_version: None,
            heartbeat_data: None,
            score,
            banned: false,
        }
    }

    /// A record that stands in while the real one is being changed: that
    /// of a discovered peer of which nothing is known, with a score of zero.
    pub(crate) fn vacant() -> (info: PeerInfo)
        ensures
            info@ == (PeerInfoView {
                class: PeerClass::Discovered,
                addresses: Seq::empty(),
                client_version: None,
                heartbeat: None,
                score: 0,
                banned: false,
            }),
    {
        let peer_addresses: Vec<Multiaddr> = Vec::new();
        assert(address_views(peer_addresses@) =~= Seq::<MultiaddrView>::empty());
        PeerInfo {
            class: PeerClass::Discovered,
            peer_addresses,
            client_version: None,
            heartbeat_data: None,
            score: 0,
            banned: false,
        }
    }

    /// A copy of this record.
    pub fn duplicate(&self) -> (info: PeerInfo)
        ensures
            info@ == self@,
    {
        let mut peer_addresses: Vec<Multiaddr> = Vec::new();
        let mut i: usize = 0;
        while i < self.peer_addresses.len()
            invariant
                i <= self.peer_addresses@.len(),
                peer_addresses@.len() == i,
                forall|j: int| 0 <= j < i ==> peer_addresses@[j]@ == self.peer_addresses@[j]@,
            decreases self.peer_addresses@.len() - i,
        {
            peer_addresses.push(self.peer_addresses[i].duplicate());
            i = i + 1;
        }
        assert(address_views(peer_addresses@) =~= address_views(self.peer_addresses@));
        let client_version = match &self.client_version {
            Some(text) => Some(clone_text(text)),
            None => None,
        };
        PeerInfo {
            class: self.class,
            peer_addresses,
            client_version,
            heartbeat_data: self.heartbeat_data,
            score: self.score,
            banned: self.banned,
        }
    }
}

} // verus!
