//! The table of inbound requests.
//!
//! A request of a peer is handed to the embedder, which owes it exactly one
//! response. The table holds each request until the response is sent or
//! the time for it has run out; a request whose time has run out is dropped
//! without a word, and the peer that asked runs into its own deadline.

use crate::ids::PeerId;
use crate::numbers::{add_saturating_u64, saturating_add_u64};
use crate::request_response::messages::RequestKind;
use crate::table::Table;
use vstd::prelude::*;

verus! {

/// The id under which the transport hands over a request of a peer.
pub type InboundRequestId = u64;

/// A request of a peer that awaits the embedder's response.
#[derive(Clone, Copy, Debug, PartialEq, Eq)]
pub struct InboundRequest {
    /// The peer that asked.
    pub peer: PeerId,
    /// The kind of the request.
    pub kind: RequestKind,
    /// The time after which no response is sent any more.
    pub deadline: u64,
}

/// The state of the table of inbound requests.
pub struct InboundView {
    /// The requests that await their response, by id.
    pub pending: Map<InboundRequestId, InboundRequest>,
    /// How long the embedder may take to respond, in milliseconds.
    pub timeout_ms: u64,
}

impl InboundView {
    /// The state after the request `id` of `peer` came in at `now`. An id
    /// that is already pending is not entered again.
    pub open spec fn received(
        self,
        id: InboundRequestId,
        peer: PeerId,
        kind: RequestKind,
        now: u64,
    ) -> InboundView {
        if self.pending.contains_key(id) {
            self
        } else {
            InboundView {
                pending: self.pending.insert(
                    id,
                    InboundRequest {
                        peer,
                        kind,
                        deadline: saturating_add_u64(now, self.timeout_ms),
                    },
                ),
                ..self
            }
        }
    }

    /// The state after the request `id` was answered.
    pub open spec fn answered(self, id: InboundRequestId) -> InboundView {
        InboundView { pending: self.pending.remove(id), ..self }
    }

    /// The requests whose time has run out at `now`.
    pub open spec fn overdue(self, now: u64) -> Set<InboundRequestId> {
        Set::new(
            |id: InboundRequestId| self.pending.contains_key(id) && self.pending[id].deadline <= now,
        )
    }

    /// The state after the overdue requests were dropped at `now`.
    pub open spec fn expired(self, now: u64) -> InboundView {
        InboundView { pending: self.pending.remove_keys(self.overdue(now)), ..self }
    }
}

/// A request is answered at most once: once answered it is pending no
/// more, and neither is a request that was dropped.
pub proof fn lemma_one_response(v: InboundView, id: InboundRequestId, now: u64)
    ensures
        !v.answered(id).pending.contains_key(id),
        v.overdue(now).contains(id) ==> !v.expired(now).pending.contains_key(id),
        v.expired(now).overdue(now) == Set::<InboundRequestId>::empty(),
{
    assert(v.expired(now).overdue(now) =~= Set::<InboundRequestId>::empty());
}

/// The table of inbound requests.
pub struct InboundTable {
    pending: Table<InboundRequestId, InboundRequest>,
    timeout_ms: u64,
}

impl View for InboundTable {
    type V = InboundView;

    closed spec fn view(&self) -> InboundView {
        InboundView { pending: self.pending@, timeout_ms: self.timeout_ms }
    }
}

impl InboundTable {
    /// The representation invariant.
    pub closed spec fn wf(&self) -> bool {
        self.pending.wf()
    }

    /// An empty table whose requests may wait `timeout_ms` each.
    pub fn new(timeout_ms: u64) -> (table: InboundTable)
        ensures
            table.wf(),
            table@ == (InboundView { pending: Map::empty(), timeout_ms }),
    {
        InboundTable { pending: Table::new(), timeout_ms }
    }

    /// How many requests await their response.
    pub fn len(&self) -> (n: usize)
        requires
            self.wf(),
        ensures
            n == self@.pending.dom().len(),
    {
        self.pending.len()
    }

    /// Enters the request `id` of `peer`, which came in at `now`. Says
    /// whether the request is new; one whose id is already pending is not
    /// entered again.
    pub fn on_request(&mut self, id: InboundRequestId, peer: PeerId, kind: RequestKind, now: u64) -> (fresh:
        bool)
        requires
            old(self).wf(),
        ensures
            final(self).wf(),
            fresh == !old(self)@.pending.contains_key(id),
            final(self)@ == old(self)@.received(id, peer, kind, now),
    {
        if self.pending.contains_key(&id) {
            return false;
        }
        let deadline = add_saturating_u64(now, self.timeout_ms);
        let _ = self.pending.insert(id, InboundRequest { peer, kind, deadline });
        true
    }

    /// Takes the request `id` out to answer it, if it is pending.
    pub fn take(&mut self, id: InboundRequestId) -> (request: Option<InboundRequest>)
        requires
            old(self).wf(),
        ensures
            final(self).wf(),
            final(self)@ == old(self)@.answered(id),
            request == if old(self)@.pending.contains_key(id) {
                Some(old(self)@.pending[id])
            } else {
                None::<InboundRequest>
            },
    {
        self.pending.remove(&id)
    }

    /// The position of the first request that is overdue at `now`.
    fn first_overdue(&self, now: u64) -> (r: Option<usize>)
        requires
            self.wf(),
        ensures
            match r {
                Some(i) => i < self.pending.key_seq().len() && self@.overdue(now).contains(
                    self.pending.key_seq()[i as int],
                ),
                None => self@.overdue(now) == Set::<InboundRequestId>::empty(),
            },
    {
        let n = self.pending.len();
        let mut i: usize = 0;
        proof {
            self.pending.lemma_contents();
        }
        while i < n
            invariant
                self.wf(),
                n == self.pending.key_seq().len(),
                i <= n,
                forall|j: int|
                    0 <= j < i ==> !self@.overdue(now).contains(
                        #[trigger] self.pending.key_seq()[j],
                    ),
            decreases n - i,
        {
            proof {
                self.pending.lemma_contents();
            }
            if self.pending.value_at(i).deadline <= now {
                return Some(i);
            }
            i = i + 1;
        }
        proof {
            self.pending.lemma_contents();
            assert forall|id: InboundRequestId| !self@.overdue(now).contains(id) by {
                if self@.pending.contains_key(id) {
                    let j = self.pending.key_seq().index_of(id);
                    assert(self.pending.key_seq()[j] == id);
                }
            }
            assert(self@.overdue(now) =~= Set::<InboundRequestId>::empty());
        }
        None
    }

    /// Drops the requests whose time has run out at `now`, and says how
    /// many they were.
    pub fn expire(&mut self, now: u64) -> (dropped: usize)
        requires
            old(self).wf(),
        ensures
            final(self).wf(),
            final(self)@ == old(self)@.expired(now),
            dropped == old(self)@.pending.dom().len() - final(self)@.pending.dom().len(),
    {
        let ghost before = self@;
        let mut dropped: usize = 0;
        proof {
            self.pending.lemma_contents();
        }
        loop
            invariant_except_break
                self.wf(),
                self@.timeout_ms == before.timeout_ms,
                before.pending.dom().finite(),
                before.pending.dom().len() <= usize::MAX,
                self@.pending.dom().finite(),
                dropped == before.pending.dom().len() - self@.pending.dom().len(),
                forall|id: InboundRequestId| #[trigger]
                    self@.pending.contains_key(id) ==> before.pending.contains_key(id)
                        && self@.pending[id] == before.pending[id],
                forall|id: InboundRequestId| #[trigger]
                    before.pending.contains_key(id) ==> self@.pending.contains_key(id)
                        || before.overdue(now).contains(id),
            ensures
                self.wf(),
                self@ == before.expired(now),
                dropped == before.pending.dom().len() - self@.pending.dom().len(),
            decreases self@.pending.dom().len(),
        {
            match self.first_overdue(now) {
                None => {
                    proof {
                        assert forall|id: InboundRequestId|
                            self@.pending.contains_key(id) <==> before.pending.remove_keys(
                                before.overdue(now),
                            ).contains_key(id) by {
                            if self@.pending.contains_key(id) {
                                assert(!self@.overdue(now).contains(id));
                            }
                        }
                        assert(self@.pending =~= before.pending.remove_keys(before.overdue(now)));
                    }
                    break ;
                },
                Some(i) => {
                    proof {
                        self.pending.lemma_contents();
                    }
                    let _ = self.pending.remove_at(i);
                    proof {
                        self.pending.lemma_contents();
                    }
                    dropped = dropped + 1;
                },
            }
        }
        dropped
    }
}

} // verus!
