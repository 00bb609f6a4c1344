//! The peer manager as a mathematical state machine.
//!
//! A state is a [`PeerManagerView`]; each event of a peer's life takes it to
//! the next state by a function of this module. The invariant
//! [`PeerManagerView::inv`] gathers what holds at every moment, and the
//! lemmas at the end show that every step keeps it.

use crate::ids::{MultiaddrView, PeerId};
use crate::numbers::{saturating_add_i64, saturating_add_u64};
use crate::peer_manager::info::{
    lemma_merge_addresses, merge_addresses, BlockHeight, HeartbeatData, PeerClass, PeerInfoView,
};
use crate::table::{lemma_push_unique, lemma_remove_unique};
use vstd::prelude::*;
use vstd::set_lib::{lemma_len_subset, lemma_set_disjoint_lens};

verus! {

/// The numbers that govern admission, scoring and re-dialing.
#[derive(Clone, Copy, Debug, PartialEq, Eq, Structural)]
pub struct PeerLimits {
    /// How many discovered peers may be connected at once.
    pub max_discovery_peers_connected: u32,
    /// Whether only reserved peers may connect.
    pub reserved_nodes_only_mode: bool,
    /// The score a peer starts with.
    pub initial_score: i64,
    /// The score below which a peer is banned.
    pub graylist_threshold: i64,
    /// How long a ban outlasts the connection, in milliseconds.
    pub ban_linger_ms: u64,
    /// The delay before a peer is dialed again after the first failure.
    pub redial_base_ms: u64,
    /// The longest delay before a peer is dialed again.
    pub redial_ceiling_ms: u64,
    /// How often a bootstrap peer is dialed again after its first dial
    /// failed.
    pub bootstrap_dial_retries: u32,
}

/// Why a connection was turned away.
#[derive(Clone, Copy, Debug, PartialEq, Eq, Structural)]
pub enum AdmissionReject {
    CapacityFull,
    ReservedOnlyMode,
    SelfDial,
    BannedPeer,
}

/// The verdict on a connection that has just been established.
#[derive(Clone, Copy, Debug, PartialEq, Eq, Structural)]
pub enum Admission {
    Accept,
    Reject(AdmissionReject),
}

/// What came of a change of score.
#[derive(Clone, Copy, Debug, PartialEq, Eq, Structural)]
pub enum ScoreOutcome {
    /// The peer is not connected; nothing changed.
    UnknownPeer,
    /// The score was changed and the peer stays.
    Scored(i64),
    /// The score fell below the graylist threshold: the peer is now banned
    /// and is to be disconnected.
    Banned(i64),
}

/// A reserved peer as configured, with the number of dials that have failed
/// since it was last connected.
pub struct ReservedView {
    pub address: MultiaddrView,
    pub failed_dials: u32,
}

/// An order to dial a peer again once the delay has passed.
pub struct RedialView {
    pub peer: PeerId,
    pub address: MultiaddrView,
    pub delay_ms: u64,
}

/// The state of the peer manager.
pub struct PeerManagerView {
    /// This node's own identity.
    pub local: PeerId,
    pub limits: PeerLimits,
    /// The reserved roster.
    pub reserved: Map<PeerId, ReservedView>,
    /// The bootstrap roster.
    pub bootstrap: Map<PeerId, MultiaddrView>,
    /// One record per connected peer.
    pub peers: Map<PeerId, PeerInfoView>,
    /// The connected peers in the order in which they connected.
    pub order: Seq<PeerId>,
    /// Bans that outlast their connection: peer and the time the ban ends.
    pub bans: Map<PeerId, u64>,
    /// The dials of bootstrap peers that have failed in a row, where any
    /// has.
    pub bootstrap_failures: Map<PeerId, u32>,
}

/// A reserved roster none of whose peers has a failed dial behind it.
pub open spec fn unfailed(roster: Map<PeerId, MultiaddrView>) -> Map<PeerId, ReservedView> {
    Map::new(
        |peer: PeerId| roster.contains_key(peer),
        |peer: PeerId| ReservedView { address: roster[peer], failed_dials: 0 },
    )
}

/// `base` doubled `times` times.
pub open spec fn doubled(base: nat, times: nat) -> nat
    decreases times,
{
    if times == 0 {
        base
    } else {
        2 * doubled(base, (times - 1) as nat)
    }
}

/// The delay before the next dial of a peer after `failed_dials` dials
/// have failed in a row: none at first, then the base delay, doubled with
/// each further failure and held at the ceiling.
pub open spec fn redial_delay(limits: PeerLimits, failed_dials: u32) -> u64 {
    if failed_dials == 0 {
        0
    } else {
        let raw = doubled(limits.redial_base_ms as nat, (failed_dials - 1) as nat);
        if raw >= limits.redial_ceiling_ms {
            limits.redial_ceiling_ms
        } else {
            raw as u64
        }
    }
}

/// Doubling more often never gives less.
pub proof fn lemma_doubled_monotonic(base: nat, a: nat, b: nat)
    requires
        a <= b,
    ensures
        doubled(base, a) <= doubled(base, b),
    decreases b,
{
    if a < b {
        lemma_doubled_monotonic(base, a, (b - 1) as nat);
    }
}

impl PeerManagerView {
    /// The state of a manager that has no peers yet.
    pub open spec fn initial(
        local: PeerId,
        limits: PeerLimits,
        reserved: Map<PeerId, MultiaddrView>,
        bootstrap: Map<PeerId, MultiaddrView>,
    ) -> PeerManagerView {
        PeerManagerView {
            local,
            limits,
            reserved: unfailed(reserved),
            bootstrap,
            peers: Map::empty(),
            order: Seq::empty(),
            bans: Map::empty(),
            bootstrap_failures: Map::empty(),
        }
    }

    /// The class of `peer`, which the two rosters decide.
    pub open spec fn class_of(self, peer: PeerId) -> PeerClass {
        if self.reserved.contains_key(peer) {
            PeerClass::Reserved
        } else if self.bootstrap.contains_key(peer) {
            PeerClass::Bootstrap
        } else {
            PeerClass::Discovered
        }
    }

    /// The connected peers of one class.
    pub open spec fn members(self, class: PeerClass) -> Set<PeerId> {
        Set::new(|peer: PeerId| self.peers.contains_key(peer) && self.class_of(peer) == class)
    }

    /// Whether `peer` is banned at `now`: it is connected and banned, or
    /// a ban that outlasted its connection is still running.
    pub open spec fn is_banned(self, peer: PeerId, now: u64) -> bool {
        ||| self.peers.contains_key(peer) && self.peers[peer].banned
        ||| self.bans.contains_key(peer) && now < self.bans[peer]
    }

    /// The verdict on a connection with `peer` established at `now`.
    pub open spec fn admission(self, peer: PeerId, now: u64) -> Admission {
        if peer == self.local {
            Admission::Reject(AdmissionReject::SelfDial)
        } else if self.reserved.contains_key(peer) {
            Admission::Accept
        } else if self.is_banned(peer, now) {
            Admission::Reject(AdmissionReject::BannedPeer)
        } else if self.limits.reserved_nodes_only_mode {
            Admission::Reject(AdmissionReject::ReservedOnlyMode)
        } else if self.peers.contains_key(peer) {
            Admission::Accept
        } else if self.bootstrap.contains_key(peer) {
            if self.members(PeerClass::Bootstrap).len() < self.bootstrap.dom().len() {
                Admission::Accept
            } else {
                Admission::Reject(AdmissionReject::CapacityFull)
            }
        } else if self.members(PeerClass::Discovered).len()
            < self.limits.max_discovery_peers_connected {
            Admission::Accept
        } else {
            Admission::Reject(AdmissionReject::CapacityFull)
        }
    }

    /// The record that `peer` gets when it connects with `addresses`.
    pub open spec fn fresh_record(
        self,
        peer: PeerId,
        addresses: Seq<MultiaddrView>,
    ) -> PeerInfoView {
        PeerInfoView {
            class: self.class_of(peer),
            addresses: merge_addresses(Seq::empty(), addresses),
            client_version: None,
            heartbeat: None,
            score: self.limits.initial_score,
            banned: false,
        }
    }

    /// The reserved roster once `peer` has been reached.
    pub open spec fn reserved_after_contact(self, peer: PeerId) -> Map<PeerId, ReservedView> {
        if self.reserved.contains_key(peer) {
            self.reserved.insert(
                peer,
                ReservedView { address: self.reserved[peer].address, failed_dials: 0 },
            )
        } else {
            self.reserved
        }
    }

    /// The state after a connection with `peer` was established at `now`:
    /// unchanged where the connection is rejected; else the peer has a
    /// record, which holds the addresses given.
    pub open spec fn established(
        self,
        peer: PeerId,
        addresses: Seq<MultiaddrView>,
        now: u64,
    ) -> PeerManagerView {
        if self.admission(peer, now) != Admission::Accept {
            self
        } else if self.peers.contains_key(peer) {
            PeerManagerView {
                peers: self.peers.insert(
                    peer,
                    PeerInfoView {
                        addresses: merge_addresses(self.peers[peer].addresses, addresses),
                        ..self.peers[peer]
                    },
                ),
                reserved: self.reserved_after_contact(peer),
                bootstrap_failures: self.bootstrap_failures.remove(peer),
                ..self
            }
        } else {
            PeerManagerView {
                peers: self.peers.insert(peer, self.fresh_record(peer, addresses)),
                order: self.order.push(peer),
                reserved: self.reserved_after_contact(peer),
                bootstrap_failures: self.bootstrap_failures.remove(peer),
                bans: self.bans.remove(peer),
                ..self
            }
        }
    }

    /// The state after the last connection with `peer` was closed at `now`:
    /// its record is gone, and a ban it had lingers.
    pub open spec fn closed(self, peer: PeerId, now: u64) -> PeerManagerView {
        if !self.peers.contains_key(peer) {
            self
        } else {
            PeerManagerView {
                peers: self.peers.remove(peer),
                order: self.order.remove(self.order.index_of(peer)),
                bans: if self.peers[peer].banned {
                    self.bans.insert(peer, saturating_add_u64(now, self.limits.ban_linger_ms))
                } else {
                    self.bans
                },
                ..self
            }
        }
    }

    /// The dial that a closed connection calls for: at once, if the peer
    /// was connected and is reserved.
    pub open spec fn redial_after_close(self, peer: PeerId) -> Option<RedialView> {
        if self.peers.contains_key(peer) && self.reserved.contains_key(peer) {
            Some(RedialView { peer, address: self.reserved[peer].address, delay_ms: 0 })
        } else {
            None
        }
    }

    /// The number of failed dials of a reserved peer after one more.
    pub open spec fn failures_after(self, peer: PeerId) -> u32 {
        if self.reserved[peer].failed_dials == u32::MAX {
            u32::MAX
        } else {
            (self.reserved[peer].failed_dials + 1) as u32
        }
    }

    /// The dials of the bootstrap peer `peer` that have failed in a row.
    pub open spec fn bootstrap_failures_of(self, peer: PeerId) -> u32 {
        if self.bootstrap_failures.contains_key(peer) {
            self.bootstrap_failures[peer]
        } else {
            0
        }
    }

    /// Whether a failed dial of `peer` is tried again because `peer` is a
    /// bootstrap peer that is not connected and has tries left.
    pub open spec fn retries_bootstrap(self, peer: PeerId) -> bool {
        &&& !self.reserved.contains_key(peer)
        &&& self.bootstrap.contains_key(peer)
        &&& !self.peers.contains_key(peer)
        &&& self.bootstrap_failures_of(peer) < self.limits.bootstrap_dial_retries
    }

    /// The state after a dial of `peer` failed.
    pub open spec fn dial_failed(self, peer: PeerId) -> PeerManagerView {
        if self.reserved.contains_key(peer) && !self.peers.contains_key(peer) {
            PeerManagerView {
                reserved: self.reserved.insert(
                    peer,
                    ReservedView {
                        address: self.reserved[peer].address,
                        failed_dials: self.failures_after(peer),
                    },
                ),
                ..self
            }
        } else if self.retries_bootstrap(peer) {
            PeerManagerView {
                bootstrap_failures: self.bootstrap_failures.insert(
                    peer,
                    (self.bootstrap_failures_of(peer) + 1) as u32,
                ),
                ..self
            }
        } else {
            self
        }
    }

    /// The dial that a failed dial calls for. A reserved peer that is not
    /// connected is dialed again every time, a bootstrap peer as often as
    /// it has tries; each after the delay that the failures have earned.
    /// For any other peer nothing follows.
    pub open spec fn redial_after_failure(self, peer: PeerId) -> Option<RedialView> {
        if self.reserved.contains_key(peer) && !self.peers.contains_key(peer) {
            Some(
                RedialView {
                    peer,
                    address: self.reserved[peer].address,
                    delay_ms: redial_delay(self.limits, self.failures_after(peer)),
                },
            )
        } else if self.retries_bootstrap(peer) {
            Some(
                RedialView {
                    peer,
                    address: self.bootstrap[peer],
                    delay_ms: redial_delay(
                        self.limits,
                        (self.bootstrap_failures_of(peer) + 1) as u32,
                    ),
                },
            )
        } else {
            None
        }
    }

    /// The state after a heartbeat of `peer` with `block_height` at `now`.
    pub open spec fn heartbeat(
        self,
        peer: PeerId,
        block_height: BlockHeight,
        now: u64,
    ) -> PeerManagerView {
        if self.peers.contains_key(peer) {
            PeerManagerView {
                peers: self.peers.insert(
                    peer,
                    PeerInfoView {
                        heartbeat: Some(HeartbeatData { block_height, last_seen: now }),
                        ..self.peers[peer]
                    },
                ),
                ..self
            }
        } else {
            self
        }
    }

    /// The state after `peer` identified itself.
    pub open spec fn identified(
        self,
        peer: PeerId,
        client_version: Seq<char>,
        addresses: Seq<MultiaddrView>,
    ) -> PeerManagerView {
        if self.peers.contains_key(peer) {
            PeerManagerView {
                peers: self.peers.insert(
                    peer,
                    PeerInfoView {
                        client_version: Some(client_version),
                        addresses: merge_addresses(self.peers[peer].addresses, addresses),
                        ..self.peers[peer]
                    },
                ),
                ..self
            }
        } else {
            self
        }
    }

    /// Whether a change of `delta` bans `peer`: its score falls below the
    /// graylist threshold and it is not reserved.
    pub open spec fn bans_peer(self, peer: PeerId, delta: i64) -> bool {
        &&& self.peers.contains_key(peer)
        &&& !self.reserved.contains_key(peer)
        &&& saturating_add_i64(self.peers[peer].score, delta) < self.limits.graylist_threshold
    }

    /// The state after the score of `peer` changed by `delta`.
    pub open spec fn scored(self, peer: PeerId, delta: i64) -> PeerManagerView {
        if self.peers.contains_key(peer) {
            PeerManagerView {
                peers: self.peers.insert(
                    peer,
                    PeerInfoView {
                        score: saturating_add_i64(self.peers[peer].score, delta),
                        banned: self.peers[peer].banned || self.bans_peer(peer, delta),
                        ..self.peers[peer]
                    },
                ),
                ..self
            }
        } else {
            self
        }
    }

    /// The state after the score of `peer` changed by `delta` for a cause
    /// that never bans.
    pub open spec fn penalized(self, peer: PeerId, delta: i64) -> PeerManagerView {
        if self.peers.contains_key(peer) {
            PeerManagerView {
                peers: self.peers.insert(
                    peer,
                    PeerInfoView {
                        score: saturating_add_i64(self.peers[peer].score, delta),
                        ..self.peers[peer]
                    },
                ),
                ..self
            }
        } else {
            self
        }
    }

    /// What came of changing the score of `peer` by `delta`.
    pub open spec fn score_outcome(self, peer: PeerId, delta: i64) -> ScoreOutcome {
        if !self.peers.contains_key(peer) {
            ScoreOutcome::UnknownPeer
        } else if self.bans_peer(peer, delta) {
            ScoreOutcome::Banned(saturating_add_i64(self.peers[peer].score, delta))
        } else {
            ScoreOutcome::Scored(saturating_add_i64(self.peers[peer].score, delta))
        }
    }

    /// The bans that have run out at `now`.
    pub open spec fn expired_bans(self, now: u64) -> Set<PeerId> {
        Set::new(|peer: PeerId| self.bans.contains_key(peer) && self.bans[peer] <= now)
    }

    /// The state after the bans that have run out at `now` were forgotten.
    pub open spec fn bans_pruned(self, now: u64) -> PeerManagerView {
        PeerManagerView { bans: self.bans.remove_keys(self.expired_bans(now)), ..self }
    }

    /// Whether `peer` is graylisted: it is connected, it is not reserved,
    /// and its score is below the graylist threshold.
    pub open spec fn is_graylisted(self, peer: PeerId) -> bool {
        &&& self.peers.contains_key(peer)
        &&& !self.reserved.contains_key(peer)
        &&& self.peers[peer].score < self.limits.graylist_threshold
    }

    /// Whether `peer` may be asked or sent to, and its messages taken: it
    /// is connected, not banned and not graylisted.
    pub open spec fn is_eligible(self, peer: PeerId) -> bool {
        self.peers.contains_key(peer) && !self.peers[peer].banned && !self.is_graylisted(peer)
    }

    /// Those of `order` that are eligible, in the same order.
    pub open spec fn eligible_among(self, order: Seq<PeerId>) -> Seq<PeerId>
        decreases order.len(),
    {
        if order.len() == 0 {
            Seq::empty()
        } else {
            let rest = self.eligible_among(order.drop_last());
            if self.is_eligible(order.last()) {
                rest.push(order.last())
            } else {
                rest
            }
        }
    }

    /// The eligible peers in the order in which they connected.
    pub open spec fn eligible(self) -> Seq<PeerId> {
        self.eligible_among(self.order)
    }

    /// What holds of the state at every moment.
    pub open spec fn inv(self) -> bool {
        &&& self.reserved.dom().finite()
        &&& self.bootstrap.dom().finite()
        &&& self.peers.dom().finite()
        &&& self.order.no_duplicates()
        &&& self.order.to_set() == self.peers.dom()
        &&& !self.peers.contains_key(self.local)
        &&& forall|peer: PeerId| #[trigger]
            self.peers.contains_key(peer) ==> {
                &&& self.peers[peer].class == self.class_of(peer)
                &&& self.peers[peer].addresses.no_duplicates()
                &&& self.reserved.contains_key(peer) ==> !self.peers[peer].banned
                &&& !self.bans.contains_key(peer)
                &&& self.limits.reserved_nodes_only_mode ==> self.reserved.contains_key(peer)
            }
        &&& forall|peer: PeerId| #[trigger]
            self.bans.contains_key(peer) ==> !self.reserved.contains_key(peer)
        &&& self.members(PeerClass::Discovered).len() <= self.limits.max_discovery_peers_connected
    }
}

/// The members of a class are among the connected peers.
pub proof fn lemma_members_finite(v: PeerManagerView, class: PeerClass)
    requires
        v.peers.dom().finite(),
    ensures
        v.members(class).finite(),
        v.members(class).len() <= v.peers.dom().len(),
{
    assert(v.members(class).subset_of(v.peers.dom()));
    lemma_len_subset(v.members(class), v.peers.dom());
}

/// A peer that comes in joins its class and no other.
pub proof fn lemma_members_after_insert(
    v: PeerManagerView,
    w: PeerManagerView,
    peer: PeerId,
    class: PeerClass,
)
    requires
        v.peers.dom().finite(),
        !v.peers.contains_key(peer),
        w.peers.dom() == v.peers.dom().insert(peer),
        w.reserved.dom() == v.reserved.dom(),
        w.bootstrap.dom() == v.bootstrap.dom(),
    ensures
        w.members(class) == if v.class_of(peer) == class {
            v.members(class).insert(peer)
        } else {
            v.members(class)
        },
        w.members(class).len() == if v.class_of(peer) == class {
            v.members(class).len() + 1
        } else {
            v.members(class).len()
        },
{
    lemma_members_finite(v, class);
    assert forall|p: PeerId| w.class_of(p) == v.class_of(p) by {
        assert(w.reserved.contains_key(p) == v.reserved.contains_key(p));
        assert(w.bootstrap.contains_key(p) == v.bootstrap.contains_key(p));
    }
    if v.class_of(peer) == class {
        assert(w.members(class) =~= v.members(class).insert(peer));
    } else {
        assert(w.members(class) =~= v.members(class));
    }
}

/// A peer that leaves is taken from its class and from no other.
pub proof fn lemma_members_after_remove(
    v: PeerManagerView,
    w: PeerManagerView,
    peer: PeerId,
    class: PeerClass,
)
    requires
        v.peers.dom().finite(),
        v.peers.contains_key(peer),
        w.peers.dom() == v.peers.dom().remove(peer),
        w.reserved.dom() == v.reserved.dom(),
        w.bootstrap.dom() == v.bootstrap.dom(),
    ensures
        w.members(class) == if v.class_of(peer) == class {
            v.members(class).remove(peer)
        } else {
            v.members(class)
        },
        w.members(class).len() == if v.class_of(peer) == class {
            v.members(class).len() - 1
        } else {
            v.members(class).len() as int
        },
{
    lemma_members_finite(v, class);
    assert forall|p: PeerId| w.class_of(p) == v.class_of(p) by {
        assert(w.reserved.contains_key(p) == v.reserved.contains_key(p));
        assert(w.bootstrap.contains_key(p) == v.bootstrap.contains_key(p));
    }
    if v.class_of(peer) == class {
        assert(v.members(class).contains(peer));
        assert(w.members(class) =~= v.members(class).remove(peer));
    } else {
        assert(w.members(class) =~= v.members(class));
    }
}

/// While the same peers are connected and the rosters name the same peers,
/// every class keeps its members.
pub proof fn lemma_members_unchanged(v: PeerManagerView, w: PeerManagerView, class: PeerClass)
    requires
        w.peers.dom() == v.peers.dom(),
        w.reserved.dom() == v.reserved.dom(),
        w.bootstrap.dom() == v.bootstrap.dom(),
    ensures
        w.members(class) == v.members(class),
{
    assert forall|p: PeerId| w.class_of(p) == v.class_of(p) by {
        assert(w.reserved.contains_key(p) == v.reserved.contains_key(p));
        assert(w.bootstrap.contains_key(p) == v.bootstrap.contains_key(p));
    }
    assert(w.members(class) =~= v.members(class));
}

/// A manager that has no peers yet is in a state that meets the invariant.
pub proof fn lemma_initial_inv(
    local: PeerId,
    limits: PeerLimits,
    reserved: Map<PeerId, MultiaddrView>,
    bootstrap: Map<PeerId, MultiaddrView>,
)
    requires
        reserved.dom().finite(),
        bootstrap.dom().finite(),
    ensures
        PeerManagerView::initial(local, limits, reserved, bootstrap).inv(),
        PeerManagerView::initial(local, limits, reserved, bootstrap).peers.dom().len() == 0,
{
    let v = PeerManagerView::initial(local, limits, reserved, bootstrap);
    assert(v.reserved.dom() =~= reserved.dom());
    assert(v.order.to_set() =~= v.peers.dom());
    assert(v.members(PeerClass::Discovered) =~= Set::<PeerId>::empty());
}

/// Admission keeps the invariant: whoever connects, the discovered peers
/// stay within their limit, this node has no record of itself, and in
/// reserved-only mode every record is that of a reserved peer.
pub proof fn lemma_established_inv(
    v: PeerManagerView,
    peer: PeerId,
    addresses: Seq<MultiaddrView>,
    now: u64,
)
    requires
        v.inv(),
    ensures
        v.established(peer, addresses, now).inv(),
{
    let w = v.established(peer, addresses, now);
    if v.admission(peer, now) != Admission::Accept {
    } else if v.peers.contains_key(peer) {
        assert(w.peers.dom() =~= v.peers.dom());
        assert(w.reserved.dom() =~= v.reserved.dom());
        lemma_members_unchanged(v, w, PeerClass::Discovered);
        lemma_merge_addresses(v.peers[peer].addresses, addresses);
        assert forall|p: PeerId| w.class_of(p) == v.class_of(p) by {
            assert(w.reserved.contains_key(p) == v.reserved.contains_key(p));
        }
        assert forall|p: PeerId| #[trigger] w.bans.contains_key(p) implies !w.reserved.contains_key(
            p,
        ) by {
            assert(w.reserved.contains_key(p) == v.reserved.contains_key(p));
        }
    } else {
        assert(w.peers.dom() =~= v.peers.dom().insert(peer));
        assert(w.reserved.dom() =~= v.reserved.dom());
        assert(!v.order.contains(peer)) by {
            assert(v.order.to_set().contains(peer) == v.peers.dom().contains(peer));
        }
        lemma_push_unique(v.order, peer);
        lemma_members_after_insert(v, w, peer, PeerClass::Discovered);
        lemma_merge_addresses(Seq::empty(), addresses);
        assert forall|p: PeerId| w.class_of(p) == v.class_of(p) by {
            assert(w.reserved.contains_key(p) == v.reserved.contains_key(p));
        }
        assert forall|p: PeerId| #[trigger] w.bans.contains_key(p) implies !w.reserved.contains_key(
            p,
        ) by {
            assert(v.bans.contains_key(p));
            assert(w.reserved.contains_key(p) == v.reserved.contains_key(p));
        }
    }
}

/// Closing a connection keeps the invariant.
pub proof fn lemma_closed_inv(v: PeerManagerView, peer: PeerId, now: u64)
    requires
        v.inv(),
    ensures
        v.closed(peer, now).inv(),
{
    let w = v.closed(peer, now);
    if v.peers.contains_key(peer) {
        assert(v.order.to_set().contains(peer));
        let i = v.order.index_of(peer);
        assert(0 <= i < v.order.len() && v.order[i] == peer);
        lemma_remove_unique(v.order, i);
        assert(w.peers.dom() =~= v.peers.dom().remove(peer));
        lemma_members_after_remove(v, w, peer, PeerClass::Discovered);
    }
}

/// A failed dial keeps the invariant.
pub proof fn lemma_dial_failed_inv(v: PeerManagerView, peer: PeerId)
    requires
        v.inv(),
    ensures
        v.dial_failed(peer).inv(),
{
    let w = v.dial_failed(peer);
    if v.reserved.contains_key(peer) && !v.peers.contains_key(peer) {
        assert(w.reserved.dom() =~= v.reserved.dom());
        lemma_members_unchanged(v, w, PeerClass::Discovered);
        assert forall|p: PeerId| w.class_of(p) == v.class_of(p) by {
            assert(w.reserved.contains_key(p) == v.reserved.contains_key(p));
        }
        assert forall|p: PeerId| #[trigger] w.bans.contains_key(p) implies !w.reserved.contains_key(
            p,
        ) by {
            assert(w.reserved.contains_key(p) == v.reserved.contains_key(p));
        }
    } else {
        lemma_members_unchanged(v, w, PeerClass::Discovered);
    }
}

/// A heartbeat keeps the invariant.
pub proof fn lemma_heartbeat_inv(v: PeerManagerView, peer: PeerId, block_height: BlockHeight, now: u64)
    requires
        v.inv(),
    ensures
        v.heartbeat(peer, block_height, now).inv(),
{
    let w = v.heartbeat(peer, block_height, now);
    if v.peers.contains_key(peer) {
        assert(w.peers.dom() =~= v.peers.dom());
        lemma_members_unchanged(v, w, PeerClass::Discovered);
    }
}

/// An identification keeps the invariant.
pub proof fn lemma_identified_inv(
    v: PeerManagerView,
    peer: PeerId,
    client_version: Seq<char>,
    addresses: Seq<MultiaddrView>,
)
    requires
        v.inv(),
    ensures
        v.identified(peer, client_version, addresses).inv(),
{
    let w = v.identified(peer, client_version, addresses);
    if v.peers.contains_key(peer) {
        assert(w.peers.dom() =~= v.peers.dom());
        lemma_members_unchanged(v, w, PeerClass::Discovered);
        lemma_merge_addresses(v.peers[peer].addresses, addresses);
    }
}

/// A change of score keeps the invariant; in particular it never bans a
/// reserved peer.
pub proof fn lemma_scored_inv(v: PeerManagerView, peer: PeerId, delta: i64)
    requires
        v.inv(),
    ensures
        v.scored(peer, delta).inv(),
        v.reserved.contains_key(peer) ==> !(v.score_outcome(peer, delta) is Banned),
{
    let w = v.scored(peer, delta);
    if v.peers.contains_key(peer) {
        assert(w.peers.dom() =~= v.peers.dom());
        lemma_members_unchanged(v, w, PeerClass::Discovered);
    }
}

/// At every moment the connected discovered peers are no more than their
/// limit allows.
pub proof fn lemma_discovered_within_limit(v: PeerManagerView)
    requires
        v.inv(),
    ensures
        v.members(PeerClass::Discovered).len() <= v.limits.max_discovery_peers_connected,
{
}

/// At every moment the connected peers are no more than the discovery
/// limit and the two rosters allow together, and each class stays within
/// its own share.
pub proof fn lemma_total_within_limit(v: PeerManagerView)
    requires
        v.inv(),
    ensures
        v.members(PeerClass::Reserved).len() <= v.reserved.dom().len(),
        v.members(PeerClass::Bootstrap).len() <= v.bootstrap.dom().len(),
        v.peers.dom().len() == v.members(PeerClass::Reserved).len() + v.members(
            PeerClass::Bootstrap,
        ).len() + v.members(PeerClass::Discovered).len(),
        v.peers.dom().len() <= v.limits.max_discovery_peers_connected + v.reserved.dom().len()
            + v.bootstrap.dom().len(),
{
    let r = v.members(PeerClass::Reserved);
    let b = v.members(PeerClass::Bootstrap);
    let d = v.members(PeerClass::Discovered);
    lemma_members_finite(v, PeerClass::Reserved);
    lemma_members_finite(v, PeerClass::Bootstrap);
    lemma_members_finite(v, PeerClass::Discovered);
    assert(r.subset_of(v.reserved.dom()));
    lemma_len_subset(r, v.reserved.dom());
    assert(b.subset_of(v.bootstrap.dom()));
    lemma_len_subset(b, v.bootstrap.dom());
    assert(r.disjoint(b));
    lemma_set_disjoint_lens(r, b);
    assert((r + b).disjoint(d));
    lemma_set_disjoint_lens(r + b, d);
    assert((r + b) + d =~= v.peers.dom());
}

/// A reserved peer other than this node itself is admitted whenever it
/// connects, however many peers are connected and whatever their classes.
pub proof fn lemma_reserved_always_admitted(v: PeerManagerView, peer: PeerId, now: u64)
    requires
        v.reserved.contains_key(peer),
        peer != v.local,
    ensures
        v.admission(peer, now) == Admission::Accept,
        v.established(peer, Seq::empty(), now).peers.contains_key(peer),
{
}

/// A reserved peer is dialed again whenever its connection closes and
/// whenever a dial of it fails: the manager never gives it up.
pub proof fn lemma_reserved_always_redialed(v: PeerManagerView, peer: PeerId, now: u64)
    requires
        v.reserved.contains_key(peer),
    ensures
        v.peers.contains_key(peer) ==> v.redial_after_close(peer) is Some,
        !v.peers.contains_key(peer) ==> v.redial_after_failure(peer) is Some,
        v.closed(peer, now).reserved.contains_key(peer),
        v.dial_failed(peer).reserved.contains_key(peer),
        redial_delay(v.limits, v.failures_after(peer)) <= v.limits.redial_ceiling_ms,
{
}

/// A bootstrap peer is dialed again after a failure only while it has
/// tries left, and each failure uses one up.
pub proof fn lemma_bootstrap_tries_run_out(v: PeerManagerView, peer: PeerId)
    requires
        !v.reserved.contains_key(peer),
    ensures
        v.redial_after_failure(peer) is Some ==> v.retries_bootstrap(peer) && v.dial_failed(
            peer,
        ).bootstrap_failures_of(peer) == v.bootstrap_failures_of(peer) + 1,
        v.bootstrap_failures_of(peer) >= v.limits.bootstrap_dial_retries ==> v.redial_after_failure(
            peer,
        ) is None && v.dial_failed(peer) == v,
{
}

/// A connection with this node's own identity is rejected and leaves no
/// trace.
pub proof fn lemma_self_dial_rejected(v: PeerManagerView, addresses: Seq<MultiaddrView>, now: u64)
    ensures
        v.admission(v.local, now) == Admission::Reject(AdmissionReject::SelfDial),
        v.established(v.local, addresses, now) == v,
{
}

/// In reserved-only mode a peer that is not reserved is rejected, and every
/// connected peer is a reserved one.
pub proof fn lemma_reserved_only_mode(v: PeerManagerView, peer: PeerId, now: u64)
    requires
        v.inv(),
        v.limits.reserved_nodes_only_mode,
    ensures
        !v.reserved.contains_key(peer) ==> v.admission(peer, now) is Reject,
        v.peers.dom().subset_of(v.reserved.dom()),
        v.established(peer, Seq::empty(), now).peers.dom().subset_of(v.reserved.dom()),
{
    lemma_established_inv(v, peer, Seq::empty(), now);
    let w = v.established(peer, Seq::empty(), now);
    assert forall|p: PeerId| w.peers.dom().contains(p) implies v.reserved.dom().contains(p) by {
        assert(w.peers.contains_key(p));
        assert(w.reserved.contains_key(p));
        assert(w.reserved.dom() =~= v.reserved.dom());
    }
}

/// A peer whose ban still runs is rejected, unless it is this node itself
/// or a reserved peer, for which other rules come first.
pub proof fn lemma_banned_rejected(v: PeerManagerView, peer: PeerId, now: u64)
    requires
        v.is_banned(peer, now),
        peer != v.local,
        !v.reserved.contains_key(peer),
    ensures
        v.admission(peer, now) == Admission::Reject(AdmissionReject::BannedPeer),
{
}

/// The eligible peers of a list are those of its members that are
/// eligible, and no others.
pub proof fn lemma_eligible_among(v: PeerManagerView, order: Seq<PeerId>)
    ensures
        forall|i: int|
            0 <= i < v.eligible_among(order).len() ==> v.is_eligible(
                #[trigger] v.eligible_among(order)[i],
            ) && order.contains(v.eligible_among(order)[i]),
        forall|i: int|
            0 <= i < order.len() && v.is_eligible(order[i]) ==> v.eligible_among(order).contains(
                #[trigger] order[i],
            ),
        v.eligible_among(order).len() <= order.len(),
    decreases order.len(),
{
    let all = v.eligible_among(order);
    if order.len() > 0 {
        let rest = v.eligible_among(order.drop_last());
        lemma_eligible_among(v, order.drop_last());
        assert forall|i: int| 0 <= i < all.len() implies v.is_eligible(#[trigger] all[i])
            && order.contains(all[i]) by {
            if i < rest.len() {
                assert(all[i] == rest[i]);
                assert(order.drop_last().contains(rest[i]));
                let j = choose|j: int| 0 <= j < order.drop_last().len() && order.drop_last()[j] == rest[i];
                assert(order[j] == all[i]);
            } else {
                assert(all[i] == order[order.len() - 1]);
            }
        }
        assert forall|i: int| 0 <= i < order.len() && v.is_eligible(order[i]) implies all.contains(
            #[trigger] order[i],
        ) by {
            if i < order.len() - 1 {
                assert(order.drop_last()[i] == order[i]);
                assert(rest.contains(order.drop_last()[i]));
                let j = choose|j: int| 0 <= j < rest.len() && rest[j] == order[i];
                assert(all[j] == order[i]);
            } else {
                assert(all[all.len() - 1] == order[i]);
            }
        }
    }
}

/// A peer is among the eligible ones exactly if it is connected and not
/// banned.
pub proof fn lemma_eligible(v: PeerManagerView, peer: PeerId)
    requires
        v.inv(),
    ensures
        v.eligible().contains(peer) <==> v.is_eligible(peer),
{
    lemma_eligible_among(v, v.order);
    if v.eligible().contains(peer) {
        let i = choose|i: int| 0 <= i < v.eligible().len() && v.eligible()[i] == peer;
        assert(v.is_eligible(v.eligible()[i]));
    }
    if v.is_eligible(peer) {
        assert(v.order.to_set().contains(peer));
        let j = choose|j: int| 0 <= j < v.order.len() && v.order[j] == peer;
        assert(v.eligible_among(v.order).contains(v.order[j]));
    }
}

/// Reaching a peer keeps the invariant.
pub proof fn lemma_contact_inv(v: PeerManagerView, peer: PeerId)
    requires
        v.inv(),
    ensures
        (PeerManagerView {
            reserved: v.reserved_after_contact(peer),
            bootstrap_failures: v.bootstrap_failures.remove(peer),
            ..v
        }).inv(),
{
    let w = PeerManagerView {
        reserved: v.reserved_after_contact(peer),
        bootstrap_failures: v.bootstrap_failures.remove(peer),
        ..v
    };
    assert(w.reserved.dom() =~= v.reserved.dom());
    lemma_members_unchanged(v, w, PeerClass::Discovered);
    assert forall|p: PeerId| w.class_of(p) == v.class_of(p) by {
        assert(w.reserved.contains_key(p) == v.reserved.contains_key(p));
    }
    assert forall|p: PeerId| #[trigger] w.bans.contains_key(p) implies !w.reserved.contains_key(
        p,
    ) by {
        assert(w.reserved.contains_key(p) == v.reserved.contains_key(p));
    }
}

/// A change of score that never bans keeps the invariant, keeps every
/// peer connected that was, and bans nobody; a peer whose score it takes
/// below the graylist threshold is graylisted all the same, unless it is
/// reserved.
pub proof fn lemma_penalized_inv(v: PeerManagerView, peer: PeerId, delta: i64)
    requires
        v.inv(),
    ensures
        v.penalized(peer, delta).inv(),
        v.penalized(peer, delta).peers.dom() == v.peers.dom(),
        forall|p: PeerId|
            v.peers.contains_key(p) ==> (#[trigger] v.penalized(peer, delta).peers[p]).banned
                == v.peers[p].banned,
        forall|p: PeerId| p != peer ==> v.penalized(peer, delta).is_eligible(p) == v.is_eligible(p),
{
    let w = v.penalized(peer, delta);
    if v.peers.contains_key(peer) {
        assert(w.peers.dom() =~= v.peers.dom());
        lemma_members_unchanged(v, w, PeerClass::Discovered);
    }
}

/// Forgetting the bans that have run out keeps the invariant and leaves
/// every admission as it was, since a ban that has run out turns nobody
/// away.
pub proof fn lemma_bans_pruned_inv(v: PeerManagerView, peer: PeerId, now: u64)
    requires
        v.inv(),
    ensures
        v.bans_pruned(now).inv(),
        v.bans_pruned(now).admission(peer, now) == v.admission(peer, now),
{
    let w = v.bans_pruned(now);
    lemma_members_unchanged(v, w, PeerClass::Discovered);
    lemma_members_unchanged(v, w, PeerClass::Bootstrap);
}

/// A peer whose score is below the graylist threshold is not eligible,
/// whether it is banned or not: nothing is asked of it and its messages
/// are not taken. A reserved peer is never graylisted and never banned.
pub proof fn lemma_graylisted_is_not_eligible(v: PeerManagerView, peer: PeerId)
    requires
        v.inv(),
        v.peers.contains_key(peer),
    ensures
        !v.reserved.contains_key(peer) && v.peers[peer].score < v.limits.graylist_threshold
            ==> !v.is_eligible(peer),
        v.reserved.contains_key(peer) ==> v.is_eligible(peer),
{
}

} // verus!
