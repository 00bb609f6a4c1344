//! The executable peer manager.

use crate::ids::{Multiaddr, MultiaddrView, PeerId};
use crate::numbers::{add_saturating_i64, add_saturating_u64};
use crate::peer_manager::info::{
    address_views, merge_into, BlockHeight, HeartbeatData, PeerClass, PeerInfo, PeerInfoView,
};
use crate::peer_manager::model::{
    doubled, lemma_closed_inv, lemma_contact_inv, lemma_dial_failed_inv, lemma_doubled_monotonic,
    lemma_established_inv, lemma_heartbeat_inv, lemma_identified_inv, lemma_initial_inv,
    lemma_members_after_insert, lemma_members_after_remove, lemma_members_finite,
    lemma_members_unchanged, lemma_penalized_inv, lemma_scored_inv, lemma_total_within_limit,
    redial_delay, unfailed, Admission, AdmissionReject, PeerLimits, PeerManagerView, RedialView,
    ReservedView, ScoreOutcome,
};
use crate::table::Table;
use vstd::prelude::*;

verus! {

/// A reserved peer as configured, with the number of dials that have failed
/// since it was last connected.
#[derive(Debug)]
pub struct ReservedNode {
    pub address: Multiaddr,
    pub failed_dials: u32,
}

impl View for ReservedNode {
    type V = ReservedView;

    open spec fn view(&self) -> ReservedView {
        ReservedView { address: self.address@, failed_dials: self.failed_dials }
    }
}

/// An order to dial a peer again once `delay_ms` have passed.
#[derive(Debug)]
pub struct Redial {
    pub peer: PeerId,
    pub address: Multiaddr,
    pub delay_ms: u64,
}

impl View for Redial {
    type V = RedialView;

    open spec fn view(&self) -> RedialView {
        RedialView { peer: self.peer, address: self.address@, delay_ms: self.delay_ms }
    }
}

/// The view of an optional order to dial.
pub open spec fn redial_view(redial: Option<Redial>) -> Option<RedialView> {
    match redial {
        Some(r) => Some(r@),
        None => None,
    }
}

/// The abstract values of the reserved roster.
pub open spec fn node_views(nodes: Map<PeerId, ReservedNode>) -> Map<PeerId, ReservedView> {
    Map::new(|peer: PeerId| nodes.contains_key(peer), |peer: PeerId| nodes[peer]@)
}

/// The abstract values of a roster of addresses.
pub open spec fn roster_views(roster: Map<PeerId, Multiaddr>) -> Map<PeerId, MultiaddrView> {
    Map::new(|peer: PeerId| roster.contains_key(peer), |peer: PeerId| roster[peer]@)
}

/// The abstract values of the records.
pub open spec fn info_views(records: Map<PeerId, PeerInfo>) -> Map<PeerId, PeerInfoView> {
    Map::new(|peer: PeerId| records.contains_key(peer), |peer: PeerId| records[peer]@)
}

/// The roster that a list of addresses describes: each address that names
/// a peer stands for that peer; of two that name the same peer the later
/// one counts.
pub open spec fn roster_of(addresses: Seq<MultiaddrView>) -> Map<PeerId, MultiaddrView>
    decreases addresses.len(),
{
    if addresses.len() == 0 {
        Map::empty()
    } else {
        let rest = roster_of(addresses.drop_last());
        match addresses.last().peer {
            Some(peer) => rest.insert(peer, addresses.last()),
            None => rest,
        }
    }
}

/// A roster names finitely many peers.
pub proof fn lemma_roster_finite(addresses: Seq<MultiaddrView>)
    ensures
        roster_of(addresses).dom().finite(),
    decreases addresses.len(),
{
    if addresses.len() > 0 {
        lemma_roster_finite(addresses.drop_last());
    }
}

/// The delay before the next dial of a peer after `failed_dials` dials
/// have failed in a row.
pub fn compute_redial_delay(limits: &PeerLimits, failed_dials: u32) -> (delay: u64)
    ensures
        delay == redial_delay(*limits, failed_dials),
        delay <= limits.redial_ceiling_ms,
{
    if failed_dials == 0 {
        return 0;
    }
    let ceiling: u64 = limits.redial_ceiling_ms;
    let steps: u32 = failed_dials - 1;
    let mut delay: u64 = limits.redial_base_ms;
    let mut done: u32 = 0;
    while done < steps && delay < ceiling
        invariant
            done <= steps,
            failed_dials > 0,
            steps == failed_dials - 1,
            delay == doubled(limits.redial_base_ms as nat, done as nat),
            ceiling == limits.redial_ceiling_ms,
        decreases steps - done,
    {
        if delay > ceiling / 2 {
            proof {
                assert(doubled(limits.redial_base_ms as nat, (done + 1) as nat) == 2 * doubled(
                    limits.redial_base_ms as nat,
                    done as nat,
                ));
                lemma_doubled_monotonic(
                    limits.redial_base_ms as nat,
                    (done + 1) as nat,
                    steps as nat,
                );
            }
            return ceiling;
        }
        assert(doubled(limits.redial_base_ms as nat, (done + 1) as nat) == 2 * doubled(
            limits.redial_base_ms as nat,
            done as nat,
        ));
        delay = delay * 2;
        done = done + 1;
    }
    proof {
        lemma_doubled_monotonic(limits.redial_base_ms as nat, done as nat, steps as nat);
    }
    if delay >= ceiling {
        ceiling
    } else {
        delay
    }
}

/// The peer manager: the rosters, one record per connected peer, and the
/// bans that outlast their connection.
pub struct PeerManager {
    local_peer_id: PeerId,
    limits: PeerLimits,
    reserved: Table<PeerId, ReservedNode>,
    bootstrap: Table<PeerId, Multiaddr>,
    connected: Table<PeerId, PeerInfo>,
    connected_bootstrap: usize,
    connected_discovered: usize,
    bans: Table<PeerId, u64>,
    bootstrap_failures: Table<PeerId, u32>,
}

impl View for PeerManager {
    type V = PeerManagerView;

    closed spec fn view(&self) -> PeerManagerView {
        PeerManagerView {
            local: self.local_peer_id,
            limits: self.limits,
            reserved: node_views(self.reserved@),
            bootstrap: roster_views(self.bootstrap@),
            peers: info_views(self.connected@),
            order: self.connected.key_seq(),
            bans: self.bans@,
            bootstrap_failures: self.bootstrap_failures@,
        }
    }
}

impl PeerManager {
    /// The representation invariant. It implies the invariant of the model.
    pub closed spec fn wf(&self) -> bool {
        &&& self.reserved.wf()
        &&& self.bootstrap.wf()
        &&& self.connected.wf()
        &&& self.bans.wf()
        &&& self.bootstrap_failures.wf()
        &&& self.connected_bootstrap == self@.members(PeerClass::Bootstrap).len()
        &&& self.connected_discovered == self@.members(PeerClass::Discovered).len()
        &&& self@.inv()
    }

    /// A well-formed manager is in a state that meets the model's
    /// invariant, and its tables fit the machine.
    pub proof fn lemma_wf(&self)
        requires
            self.wf(),
        ensures
            self@.inv(),
            self@.peers.dom().len() <= usize::MAX,
            self@.order.len() == self@.peers.dom().len(),
    {
        self.connected.lemma_contents();
        assert(self@.peers.dom() =~= self.connected@.dom());
    }

    /// A manager with the given rosters and no peers.
    pub fn new(
        local_peer_id: PeerId,
        limits: PeerLimits,
        reserved_nodes: &Vec<Multiaddr>,
        bootstrap_nodes: &Vec<Multiaddr>,
    ) -> (manager: PeerManager)
        ensures
            manager.wf(),
            manager@ == PeerManagerView::initial(
                local_peer_id,
                limits,
                roster_of(address_views(reserved_nodes@)),
                roster_of(address_views(bootstrap_nodes@)),
            ),
    {
        let ghost reserved_views = address_views(reserved_nodes@);
        let ghost bootstrap_views = address_views(bootstrap_nodes@);
        let mut reserved: Table<PeerId, ReservedNode> = Table::new();
        let mut i: usize = 0;
        assert(reserved_views.subrange(0, 0) =~= Seq::<MultiaddrView>::empty());
        assert(node_views(reserved@) =~= unfailed(roster_of(reserved_views.subrange(0, 0))));
        while i < reserved_nodes.len()
            invariant
                i <= reserved_nodes@.len(),
                reserved.wf(),
                reserved_views == address_views(reserved_nodes@),
                node_views(reserved@) == unfailed(roster_of(reserved_views.subrange(0, i as int))),
            decreases reserved_nodes@.len() - i,
        {
            let ghost prefix = reserved_views.subrange(0, i + 1);
            assert(prefix.drop_last() =~= reserved_views.subrange(0, i as int));
            assert(prefix.last() == reserved_nodes@[i as int]@);
            match reserved_nodes[i].peer {
                Some(peer) => {
                    let node = ReservedNode {
                        address: reserved_nodes[i].duplicate(),
                        failed_dials: 0,
                    };
                    let ghost before = reserved@;
                    let ghost node_view = node@;
                    let _ = reserved.insert(peer, node);
                    assert(node_view == ReservedView { address: prefix.last(), failed_dials: 0 });
                    assert(node_views(reserved@) =~= node_views(before).insert(peer, node_view));
                    assert(unfailed(roster_of(prefix)) =~= unfailed(
                        roster_of(prefix.drop_last()),
                    ).insert(peer, node_view));
                    assert(roster_of(prefix) == roster_of(prefix.drop_last()).insert(
                        peer,
                        prefix.last(),
                    ));
                    assert(node_views(reserved@) =~= unfailed(roster_of(prefix)));
                },
                None => {
                    assert(roster_of(prefix) == roster_of(prefix.drop_last()));
                },
            }
            i = i + 1;
        }
        assert(reserved_views.subrange(0, i as int) =~= reserved_views);
        let mut bootstrap: Table<PeerId, Multiaddr> = Table::new();
        let mut j: usize = 0;
        assert(bootstrap_views.subrange(0, 0) =~= Seq::<MultiaddrView>::empty());
        assert(roster_views(bootstrap@) =~= roster_of(bootstrap_views.subrange(0, 0)));
        while j < bootstrap_nodes.len()
            invariant
                j <= bootstrap_nodes@.len(),
                bootstrap.wf(),
                bootstrap_views == address_views(bootstrap_nodes@),
                roster_views(bootstrap@) == roster_of(bootstrap_views.subrange(0, j as int)),
            decreases bootstrap_nodes@.len() - j,
        {
            let ghost prefix = bootstrap_views.subrange(0, j + 1);
            assert(prefix.drop_last() =~= bootstrap_views.subrange(0, j as int));
            assert(prefix.last() == bootstrap_nodes@[j as int]@);
            match bootstrap_nodes[j].peer {
                Some(peer) => {
                    let _ = bootstrap.insert(peer, bootstrap_nodes[j].duplicate());
                    assert(roster_of(prefix) == roster_of(prefix.drop_last()).insert(
                        peer,
                        prefix.last(),
                    ));
                    assert(roster_views(bootstrap@) =~= roster_of(prefix));
                },
                None => {
                    assert(roster_of(prefix) == roster_of(prefix.drop_last()));
                },
            }
            j = j + 1;
        }
        assert(bootstrap_views.subrange(0, j as int) =~= bootstrap_views);
        let manager = PeerManager {
            local_peer_id,
            limits,
            reserved,
            bootstrap,
            connected: Table::new(),
            connected_bootstrap: 0,
            connected_discovered: 0,
            bans: Table::new(),
            bootstrap_failures: Table::new(),
        };
        proof {
            let initial = PeerManagerView::initial(
                local_peer_id,
                limits,
                roster_of(reserved_views),
                roster_of(bootstrap_views),
            );
            lemma_roster_finite(reserved_views);
            lemma_roster_finite(bootstrap_views);
            lemma_initial_inv(local_peer_id, limits, roster_of(reserved_views), roster_of(bootstrap_views));
            assert(manager@.peers =~= initial.peers);
            assert(manager@ == initial);
            assert(manager@.members(PeerClass::Bootstrap) =~= Set::<PeerId>::empty());
            assert(manager@.members(PeerClass::Discovered) =~= Set::<PeerId>::empty());
        }
        manager
    }

    /// This node's own identity.
    pub fn local_peer_id(&self) -> (peer: PeerId)
        ensures
            peer == self@.local,
    {
        self.local_peer_id
    }

    /// The numbers that govern admission, scoring and re-dialing.
    pub fn limits(&self) -> (limits: PeerLimits)
        ensures
            limits == self@.limits,
    {
        self.limits
    }

    /// How many peers are connected.
    pub fn total_peers_connected(&self) -> (n: usize)
        requires
            self.wf(),
        ensures
            n == self@.peers.dom().len(),
            n <= self@.limits.max_discovery_peers_connected + self@.reserved.dom().len()
                + self@.bootstrap.dom().len(),
    {
        proof {
            self.lemma_wf();
            lemma_total_within_limit(self@);
        }
        self.connected.len()
    }

    /// How many discovered peers are connected: never more than the limit.
    pub fn connected_discovered(&self) -> (n: usize)
        requires
            self.wf(),
        ensures
            n == self@.members(PeerClass::Discovered).len(),
            n <= self@.limits.max_discovery_peers_connected,
    {
        self.connected_discovered
    }

    /// How many bootstrap peers are connected.
    pub fn connected_bootstrap(&self) -> (n: usize)
        requires
            self.wf(),
        ensures
            n == self@.members(PeerClass::Bootstrap).len(),
    {
        self.connected_bootstrap
    }

    /// Whether `peer` is connected.
    pub fn is_connected(&self, peer: &PeerId) -> (b: bool)
        requires
            self.wf(),
        ensures
            b == self@.peers.contains_key(*peer),
    {
        self.connected.contains_key(peer)
    }

    /// The record of `peer`, if it is connected.
    pub fn get_peer_info(&self, peer: &PeerId) -> (info: Option<&PeerInfo>)
        requires
            self.wf(),
        ensures
            match info {
                Some(i) => self@.peers.contains_key(*peer) && i@ == self@.peers[*peer],
                None => !self@.peers.contains_key(*peer),
            },
    {
        self.connected.get(peer)
    }

    /// The score of `peer`, if it is connected.
    pub fn get_peer_score(&self, peer: &PeerId) -> (score: Option<i64>)
        requires
            self.wf(),
        ensures
            score == if self@.peers.contains_key(*peer) {
                Some(self@.peers[*peer].score)
            } else {
                None::<i64>
            },
    {
        match self.connected.get(peer) {
            Some(info) => Some(info.score),
            None => None,
        }
    }

    /// The class of `peer`.
    pub fn class_of(&self, peer: &PeerId) -> (class: PeerClass)
        requires
            self.wf(),
        ensures
            class == self@.class_of(*peer),
    {
        if self.reserved.contains_key(peer) {
            PeerClass::Reserved
        } else if self.bootstrap.contains_key(peer) {
            PeerClass::Bootstrap
        } else {
            PeerClass::Discovered
        }
    }

    /// Whether `peer` is graylisted: connected, not reserved, and with a
    /// score below the graylist threshold.
    pub fn is_graylisted(&self, peer: &PeerId) -> (b: bool)
        requires
            self.wf(),
        ensures
            b == self@.is_graylisted(*peer),
    {
        match self.connected.get(peer) {
            Some(info) => !self.reserved.contains_key(peer) && info.score
                < self.limits.graylist_threshold,
            None => false,
        }
    }

    /// Whether `peer` may be asked or sent to, and its messages taken.
    pub fn is_eligible(&self, peer: &PeerId) -> (b: bool)
        requires
            self.wf(),
        ensures
            b == self@.is_eligible(*peer),
    {
        match self.connected.get(peer) {
            Some(info) => !info.banned && !(!self.reserved.contains_key(peer) && info.score
                < self.limits.graylist_threshold),
            None => false,
        }
    }

    /// The verdict that a connection with `peer` established at `now`
    /// would get.
    pub fn admission(&self, peer: &PeerId, now: u64) -> (verdict: Admission)
        requires
            self.wf(),
        ensures
            verdict == self@.admission(*peer, now),
    {
        proof {
            self.bootstrap.lemma_contents();
            assert(self@.bootstrap.dom() =~= self.bootstrap@.dom());
        }
        if peer.same(&self.local_peer_id) {
            return Admission::Reject(AdmissionReject::SelfDial);
        }
        if self.reserved.contains_key(peer) {
            return Admission::Accept;
        }
        let banned_while_connected = match self.connected.get(peer) {
            Some(info) => info.banned,
            None => false,
        };
        let banned = banned_while_connected || match self.bans.get(peer) {
            Some(until) => now < *until,
            None => false,
        };
        if banned {
            return Admission::Reject(AdmissionReject::BannedPeer);
        }
        if self.limits.reserved_nodes_only_mode {
            return Admission::Reject(AdmissionReject::ReservedOnlyMode);
        }
        if self.connected.contains_key(peer) {
            return Admission::Accept;
        }
        if self.bootstrap.contains_key(peer) {
            if self.connected_bootstrap < self.bootstrap.len() {
                Admission::Accept
            } else {
                Admission::Reject(AdmissionReject::CapacityFull)
            }
        } else if self.connected_discovered < self.limits.max_discovery_peers_connected as usize {
            Admission::Accept
        } else {
            Admission::Reject(AdmissionReject::CapacityFull)
        }
    }
}

/// Notice that a peer's record changed.
#[derive(Clone, Copy, Debug, PartialEq, Eq)]
pub struct PeerInfoUpdated {
    pub peer: PeerId,
    /// The height of the last heartbeat, if the peer has sent one.
    pub block_height: Option<BlockHeight>,
}

impl PeerManager {
    /// Forgets the failed dials of `peer`, which has been reached.
    fn note_contact(&mut self, peer: &PeerId)
        requires
            old(self).wf(),
        ensures
            final(self).wf(),
            final(self)@ == (PeerManagerView {
                reserved: old(self)@.reserved_after_contact(*peer),
                bootstrap_failures: old(self)@.bootstrap_failures.remove(*peer),
                ..old(self)@
            }),
    {
        let ghost v = self@;
        let _ = self.bootstrap_failures.remove(peer);
        match self.reserved.find(peer) {
            Some(i) => {
                let (key, node) = self.reserved.remove_at(i);
                let renewed = ReservedNode { address: node.address, failed_dials: 0 };
                let _ = self.reserved.insert(key, renewed);
                proof {
                    assert(node_views(self.reserved@) =~= v.reserved_after_contact(*peer));
                }
            },
            None => {
                assert(self@.reserved =~= v.reserved_after_contact(*peer));
            },
        }
        proof {
            lemma_contact_inv(v, *peer);
            assert(self@.reserved.dom() =~= v.reserved.dom());
            lemma_members_unchanged(v, self@, PeerClass::Bootstrap);
            lemma_members_unchanged(v, self@, PeerClass::Discovered);
        }
    }

    /// Takes in a connection that was established with `peer` at `now`, or
    /// turns it away. An admitted peer has a record afterwards, which
    /// holds the addresses given; a rejected one leaves no trace.
    pub fn on_connection_established(
        &mut self,
        peer: PeerId,
        addresses: &Vec<Multiaddr>,
        now: u64,
    ) -> (verdict: Admission)
        requires
            old(self).wf(),
        ensures
            final(self).wf(),
            verdict == old(self)@.admission(peer, now),
            final(self)@ == old(self)@.established(peer, address_views(addresses@), now),
    {
        let verdict = self.admission(&peer, now);
        match verdict {
            Admission::Reject(_) => {
                return verdict;
            },
            Admission::Accept => {},
        }
        let ghost v = self@;
        let ghost seen = address_views(addresses@);
        self.note_contact(&peer);
        let ghost mid = self@;
        proof {
            assert(mid.reserved.dom() =~= v.reserved.dom());
            lemma_members_unchanged(v, mid, PeerClass::Bootstrap);
            lemma_members_unchanged(v, mid, PeerClass::Discovered);
            lemma_established_inv(v, peer, seen, now);
        }
        match self.connected.find(&peer) {
            Some(i) => {
                proof {
                    self.connected.lemma_contents();
                }
                let ghost records = self.connected@;
                let mut info = self.connected.replace_at(i, PeerInfo::vacant());
                let ghost before = info@;
                merge_into(&mut info.peer_addresses, addresses);
                let ghost after = info@;
                let _ = self.connected.replace_at(i, info);
                proof {
                    assert(before == v.peers[peer]);
                    assert(self.connected@ =~= records.insert(peer, info));
                    assert(info_views(self.connected@) =~= v.peers.insert(peer, after));
                    assert(self@ == v.established(peer, seen, now));
                    lemma_members_unchanged(v, self@, PeerClass::Bootstrap);
                    lemma_members_unchanged(v, self@, PeerClass::Discovered);
                }
            },
            None => {
                let class = self.class_of(&peer);
                let info = PeerInfo::connected(class, addresses, self.limits.initial_score);
                let ghost fresh = info@;
                let _ = self.connected.insert(peer, info);
                let _ = self.bans.remove(&peer);
                proof {
                    assert(mid.class_of(peer) == v.class_of(peer));
                    assert(info_views(self.connected@) =~= v.peers.insert(peer, fresh));
                    assert(self@ == v.established(peer, seen, now));
                    self.connected.lemma_contents();
                    assert(self@.peers.dom() =~= self.connected@.dom());
                    lemma_members_after_insert(v, self@, peer, PeerClass::Bootstrap);
                    lemma_members_after_insert(v, self@, peer, PeerClass::Discovered);
                    lemma_members_finite(self@, PeerClass::Bootstrap);
                    lemma_members_finite(self@, PeerClass::Discovered);
                }
                match class {
                    PeerClass::Reserved => {},
                    PeerClass::Bootstrap => {
                        self.connected_bootstrap = self.connected_bootstrap + 1;
                    },
                    PeerClass::Discovered => {
                        self.connected_discovered = self.connected_discovered + 1;
                    },
                }
            },
        }
        verdict
    }

    /// Drops the record of `peer`, whose last connection was closed at
    /// `now`. A ban it had lingers; a reserved peer is to be dialed again
    /// at once.
    pub fn on_connection_closed(&mut self, peer: &PeerId, now: u64) -> (redial: Option<Redial>)
        requires
            old(self).wf(),
        ensures
            final(self).wf(),
            final(self)@ == old(self)@.closed(*peer, now),
            redial_view(redial) == old(self)@.redial_after_close(*peer),
    {
        let ghost v = self@;
        match self.connected.find(peer) {
            None => None,
            Some(i) => {
                proof {
                    self.connected.lemma_contents();
                    lemma_closed_inv(v, *peer, now);
                }
                let (key, info) = self.connected.remove_at(i);
                assert(info@ == v.peers[*peer]);
                if info.banned {
                    let until = add_saturating_u64(now, self.limits.ban_linger_ms);
                    let _ = self.bans.insert(key, until);
                }
                proof {
                    assert(info_views(self.connected@) =~= v.peers.remove(*peer));
                    assert(self@ == v.closed(*peer, now));
                    assert(self@.peers.dom() =~= v.peers.dom().remove(*peer));
                    lemma_members_after_remove(v, self@, *peer, PeerClass::Bootstrap);
                    lemma_members_after_remove(v, self@, *peer, PeerClass::Discovered);
                }
                match info.class {
                    PeerClass::Reserved => {},
                    PeerClass::Bootstrap => {
                        self.connected_bootstrap = self.connected_bootstrap - 1;
                    },
                    PeerClass::Discovered => {
                        self.connected_discovered = self.connected_discovered - 1;
                    },
                }
                match self.reserved.get(peer) {
                    Some(node) => Some(
                        Redial { peer: *peer, address: node.address.duplicate(), delay_ms: 0 },
                    ),
                    None => None,
                }
            },
        }
    }

    /// Notes that a dial of `peer` failed. A reserved peer that is not
    /// connected is to be dialed again after a delay that doubles with each
    /// failure up to the ceiling; a bootstrap peer likewise while it has
    /// tries left; for any other peer nothing follows.
    pub fn on_dial_failure(&mut self, peer: &PeerId) -> (redial: Option<Redial>)
        requires
            old(self).wf(),
        ensures
            final(self).wf(),
            final(self)@ == old(self)@.dial_failed(*peer),
            redial_view(redial) == old(self)@.redial_after_failure(*peer),
    {
        let ghost v = self@;
        if self.connected.contains_key(peer) {
            return None;
        }
        match self.reserved.find(peer) {
            None => {
                let address = match self.bootstrap.get(peer) {
                    None => {
                        return None;
                    },
                    Some(address) => address.duplicate(),
                };
                let failed: u32 = match self.bootstrap_failures.get(peer) {
                    Some(count) => *count,
                    None => 0,
                };
                if failed >= self.limits.bootstrap_dial_retries {
                    return None;
                }
                let failed_dials: u32 = failed + 1;
                let delay_ms = compute_redial_delay(&self.limits, failed_dials);
                let _ = self.bootstrap_failures.insert(*peer, failed_dials);
                proof {
                    lemma_dial_failed_inv(v, *peer);
                    assert(self@ == v.dial_failed(*peer));
                    lemma_members_unchanged(v, self@, PeerClass::Bootstrap);
                    lemma_members_unchanged(v, self@, PeerClass::Discovered);
                }
                Some(Redial { peer: *peer, address, delay_ms })
            },
            Some(i) => {
                proof {
                    self.reserved.lemma_contents();
                    lemma_dial_failed_inv(v, *peer);
                }
                let (key, node) = self.reserved.remove_at(i);
                let failed_dials: u32 = if node.failed_dials == u32::MAX {
                    u32::MAX
                } else {
                    node.failed_dials + 1
                };
                let delay_ms = compute_redial_delay(&self.limits, failed_dials);
                let address = node.address.duplicate();
                let renewed = ReservedNode { address: node.address, failed_dials };
                let _ = self.reserved.insert(key, renewed);
                proof {
                    assert(node_views(self.reserved@) =~= v.dial_failed(*peer).reserved);
                    assert(self@ == v.dial_failed(*peer));
                    assert(self@.reserved.dom() =~= v.reserved.dom());
                    lemma_members_unchanged(v, self@, PeerClass::Bootstrap);
                    lemma_members_unchanged(v, self@, PeerClass::Discovered);
                }
                Some(Redial { peer: *peer, address, delay_ms })
            },
        }
    }

    /// Records a heartbeat of `peer`. A connected peer's record takes the
    /// height and the time, and the change is announced; of any other peer
    /// nothing is kept.
    pub fn update_heartbeat(&mut self, peer: &PeerId, block_height: BlockHeight, now: u64) -> (event:
        Option<PeerInfoUpdated>)
        requires
            old(self).wf(),
        ensures
            final(self).wf(),
            final(self)@ == old(self)@.heartbeat(*peer, block_height, now),
            event == if old(self)@.peers.contains_key(*peer) {
                Some(PeerInfoUpdated { peer: *peer, block_height: Some(block_height) })
            } else {
                None::<PeerInfoUpdated>
            },
    {
        let ghost v = self@;
        match self.connected.find(peer) {
            None => None,
            Some(i) => {
                proof {
                    self.connected.lemma_contents();
                    lemma_heartbeat_inv(v, *peer, block_height, now);
                }
                let mut info = self.connected.replace_at(i, PeerInfo::vacant());
                info.heartbeat_data = Some(HeartbeatData { block_height, last_seen: now });
                let ghost after = info@;
                let _ = self.connected.replace_at(i, info);
                proof {
                    assert(info_views(self.connected@) =~= v.peers.insert(*peer, after));
                    assert(self@ == v.heartbeat(*peer, block_height, now));
                    lemma_members_unchanged(v, self@, PeerClass::Bootstrap);
                    lemma_members_unchanged(v, self@, PeerClass::Discovered);
                }
                Some(PeerInfoUpdated { peer: *peer, block_height: Some(block_height) })
            },
        }
    }

    /// Records what `peer` told of itself. A connected peer's record takes
    /// the client version and the addresses that are new, and the change is
    /// announced with the height of its last heartbeat.
    pub fn update_identify(
        &mut self,
        peer: &PeerId,
        client_version: String,
        addresses: &Vec<Multiaddr>,
    ) -> (event: Option<PeerInfoUpdated>)
        requires
            old(self).wf(),
        ensures
            final(self).wf(),
            final(self)@ == old(self)@.identified(
                *peer,
                client_version@,
                address_views(addresses@),
            ),
            event == if old(self)@.peers.contains_key(*peer) {
                Some(
                    PeerInfoUpdated {
                        peer: *peer,
                        block_height: match old(self)@.peers[*peer].heartbeat {
                            Some(heartbeat) => Some(heartbeat.block_height),
                            None => None,
                        },
                    },
                )
            } else {
                None::<PeerInfoUpdated>
            },
    {
        let ghost v = self@;
        let ghost seen = address_views(addresses@);
        let ghost version = client_version@;
        match self.connected.find(peer) {
            None => None,
            Some(i) => {
                proof {
                    self.connected.lemma_contents();
                    lemma_identified_inv(v, *peer, version, seen);
                }
                let mut info = self.connected.replace_at(i, PeerInfo::vacant());
                info.client_version = Some(client_version);
                merge_into(&mut info.peer_addresses, addresses);
                let block_height = match info.heartbeat_data {
                    Some(heartbeat) => Some(heartbeat.block_height),
                    None => None,
                };
                let ghost after = info@;
                let _ = self.connected.replace_at(i, info);
                proof {
                    assert(info_views(self.connected@) =~= v.peers.insert(*peer, after));
                    assert(self@ == v.identified(*peer, version, seen));
                    lemma_members_unchanged(v, self@, PeerClass::Bootstrap);
                    lemma_members_unchanged(v, self@, PeerClass::Discovered);
                }
                Some(PeerInfoUpdated { peer: *peer, block_height })
            },
        }
    }

    /// Changes the score of `peer` by `delta`. A peer whose score falls
    /// below the graylist threshold is banned and is to be disconnected,
    /// unless it is reserved: a reserved peer is scored and never banned.
    pub fn apply_score_delta(&mut self, peer: &PeerId, delta: i64) -> (outcome: ScoreOutcome)
        requires
            old(self).wf(),
        ensures
            final(self).wf(),
            final(self)@ == old(self)@.scored(*peer, delta),
            outcome == old(self)@.score_outcome(*peer, delta),
    {
        let ghost v = self@;
        match self.connected.find(peer) {
            None => ScoreOutcome::UnknownPeer,
            Some(i) => {
                proof {
                    self.connected.lemma_contents();
                    lemma_scored_inv(v, *peer, delta);
                }
                let reserved = self.reserved.contains_key(peer);
                let mut info = self.connected.replace_at(i, PeerInfo::vacant());
                let score = add_saturating_i64(info.score, delta);
                let bans = !reserved && score < self.limits.graylist_threshold;
                info.score = score;
                info.banned = info.banned || bans;
                let ghost after = info@;
                let _ = self.connected.replace_at(i, info);
                proof {
                    assert(info_views(self.connected@) =~= v.peers.insert(*peer, after));
                    assert(self@ == v.scored(*peer, delta));
                    lemma_members_unchanged(v, self@, PeerClass::Bootstrap);
                    lemma_members_unchanged(v, self@, PeerClass::Discovered);
                }
                if bans {
                    ScoreOutcome::Banned(score)
                } else {
                    ScoreOutcome::Scored(score)
                }
            },
        }
    }

    /// How many peers may be asked or sent to.
    pub fn eligible_count(&self) -> (n: usize)
        requires
            self.wf(),
        ensures
            n == self@.eligible().len(),
    {
        self.eligible_peers().len()
    }

    /// Changes the score of `peer` by `delta` for a cause that never bans,
    /// and says whether the peer is connected.
    pub fn penalize(&mut self, peer: &PeerId, delta: i64) -> (known: bool)
        requires
            old(self).wf(),
        ensures
            final(self).wf(),
            final(self)@ == old(self)@.penalized(*peer, delta),
            known == old(self)@.peers.contains_key(*peer),
    {
        let ghost v = self@;
        match self.connected.find(peer) {
            None => false,
            Some(i) => {
                proof {
                    self.connected.lemma_contents();
                    lemma_penalized_inv(v, *peer, delta);
                }
                let mut info = self.connected.replace_at(i, PeerInfo::vacant());
                info.score = add_saturating_i64(info.score, delta);
                let ghost after = info@;
                let _ = self.connected.replace_at(i, info);
                proof {
                    assert(info_views(self.connected@) =~= v.peers.insert(*peer, after));
                    assert(self@ == v.penalized(*peer, delta));
                    lemma_members_unchanged(v, self@, PeerClass::Bootstrap);
                    lemma_members_unchanged(v, self@, PeerClass::Discovered);
                }
                true
            },
        }
    }

    /// The peers that may be asked or sent to, in the order in which they
    /// connected.
    pub fn eligible_peers(&self) -> (peers: Vec<PeerId>)
        requires
            self.wf(),
        ensures
            peers@ == self@.eligible(),
    {
        let mut peers: Vec<PeerId> = Vec::new();
        let n = self.connected.len();
        let mut i: usize = 0;
        proof {
            self.connected.lemma_contents();
            assert(self@.order.subrange(0, 0) =~= Seq::<PeerId>::empty());
        }
        while i < n
            invariant
                self.wf(),
                n == self@.order.len(),
                i <= n,
                peers@ == self@.eligible_among(self@.order.subrange(0, i as int)),
            decreases n - i,
        {
            proof {
                self.connected.lemma_contents();
                let prefix = self@.order.subrange(0, i + 1);
                assert(prefix.drop_last() =~= self@.order.subrange(0, i as int));
                assert(prefix.last() == self@.order[i as int]);
            }
            let key = *self.connected.key_at(i);
            if self.is_eligible(&key) {
                peers.push(key);
            }
            i = i + 1;
        }
        assert(self@.order.subrange(0, i as int) =~= self@.order);
        peers
    }
}

impl PeerManager {
    /// The position of the first ban that has run out at `now`.
    fn first_expired_ban(&self, now: u64) -> (r: Option<usize>)
        requires
            self.wf(),
        ensures
            match r {
                Some(i) => i < self.bans.key_seq().len() && self@.expired_bans(now).contains(
                    self.bans.key_seq()[i as int],
                ),
                None => self@.expired_bans(now) == Set::<PeerId>::empty(),
            },
    {
        let n = self.bans.len();
        let mut i: usize = 0;
        proof {
            self.bans.lemma_contents();
        }
        while i < n
            invariant
                self.wf(),
                n == self.bans.key_seq().len(),
                i <= n,
                forall|j: int|
                    0 <= j < i ==> !self@.expired_bans(now).contains(
                        #[trigger] self.bans.key_seq()[j],
                    ),
            decreases n - i,
        {
            proof {
                self.bans.lemma_contents();
            }
            if *self.bans.value_at(i) <= now {
                return Some(i);
            }
            i = i + 1;
        }
        proof {
            self.bans.lemma_contents();
            assert forall|peer: PeerId| !self@.expired_bans(now).contains(peer) by {
                if self@.bans.contains_key(peer) {
                    let j = self.bans.key_seq().index_of(peer);
                    assert(self.bans.key_seq()[j] == peer);
                }
            }
            assert(self@.expired_bans(now) =~= Set::<PeerId>::empty());
        }
        None
    }

    /// Forgets the bans that have run out at `now`.
    pub fn prune_bans(&mut self, now: u64)
        requires
            old(self).wf(),
        ensures
            final(self).wf(),
            final(self)@ == old(self)@.bans_pruned(now),
    {
        let ghost before = self@;
        loop
            invariant_except_break
                self.wf(),
                self@ == (PeerManagerView { bans: self@.bans, ..before }),
                forall|peer: PeerId| #[trigger]
                    self@.bans.contains_key(peer) ==> before.bans.contains_key(peer)
                        && self@.bans[peer] == before.bans[peer],
                forall|peer: PeerId| #[trigger]
                    before.bans.contains_key(peer) ==> self@.bans.contains_key(peer)
                        || before.expired_bans(now).contains(peer),
            ensures
                self.wf(),
                self@ == before.bans_pruned(now),
            decreases self@.bans.dom().len(),
        {
            match self.first_expired_ban(now) {
                None => {
                    proof {
                        assert forall|peer: PeerId|
                            self@.bans.contains_key(peer) <==> before.bans.remove_keys(
                                before.expired_bans(now),
                            ).contains_key(peer) by {
                            if self@.bans.contains_key(peer) {
                                assert(!self@.expired_bans(now).contains(peer));
                            }
                        }
                        assert(self@.bans =~= before.bans.remove_keys(before.expired_bans(now)));
                    }
                    break ;
                },
                Some(i) => {
                    let ghost current = self@;
                    proof {
                        self.bans.lemma_contents();
                    }
                    let (peer, _) = self.bans.remove_at(i);
                    proof {
                        self.bans.lemma_contents();
                        let pruned = PeerManagerView { bans: current.bans.remove(peer), ..current };
                        assert(self@ == pruned);
                        assert forall|p: PeerId| #[trigger] pruned.bans.contains_key(p) implies
                            !pruned.reserved.contains_key(p) by {
                            assert(current.bans.contains_key(p));
                        }
                        lemma_members_unchanged(current, self@, PeerClass::Bootstrap);
                        lemma_members_unchanged(current, self@, PeerClass::Discovered);
                    }
                },
            }
        }
    }
}

} // verus!
