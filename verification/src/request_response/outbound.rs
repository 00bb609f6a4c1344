//! The table of outbound requests.
//!
//! A request is entered when it is sent and leaves the table on the first
//! of three events: its response arrives, its deadline passes, or the peer
//! that was asked disconnects. Whichever comes first hands the caller's
//! slot its one outcome; whatever comes later finds nothing to act on.

use crate::ids::PeerId;
use crate::numbers::{add_saturating_u64, saturating_add_u64};
use crate::request_response::messages::{
    RequestKind, RequestResponseError, ResponseError, ResponseMessage, ResponseResult,
    ResponseSender, SendError,
};
use crate::table::{lemma_push_unique, Table};
use vstd::prelude::*;

verus! {

/// The id that pairs a request of this node with its response: unique among
/// the pending requests.
pub type OutboundRequestId = u64;

/// A request that awaits its outcome.
#[derive(Clone, Copy, Debug, PartialEq, Eq)]
pub struct OutboundRequest {
    /// The peer that was asked.
    pub peer: PeerId,
    /// The time at which the request is given up.
    pub deadline: u64,
    /// The kind of the request.
    pub kind: RequestKind,
    /// The slot in which the caller waits.
    pub reply_slot: ResponseSender,
}

/// The one outcome of a request, to be put into the caller's slot.
#[derive(Debug, PartialEq, Eq)]
pub struct ReplyDelivery {
    pub request_id: OutboundRequestId,
    pub reply_slot: ResponseSender,
    pub result: ResponseResult,
}

/// The state of the table of outbound requests.
pub struct OutboundView {
    /// The requests that await their outcome, by id.
    pub pending: Map<OutboundRequestId, OutboundRequest>,
    /// The id that the next request gets.
    pub next_id: OutboundRequestId,
    /// How many requests may be pending at once.
    pub capacity: usize,
    /// How long a request may wait, in milliseconds.
    pub timeout_ms: u64,
    /// Whether the service has been shut down.
    pub closed: bool,
}

/// The id after `id`; after the largest comes zero.
pub open spec fn following_id(id: OutboundRequestId) -> OutboundRequestId {
    if id == u64::MAX {
        0
    } else {
        (id + 1) as u64
    }
}

/// What the caller of `request` gets when `response` arrives: the response
/// with the peer that was asked, if it is of the kind that was asked for
/// and that the slot takes; else a type mismatch.
pub open spec fn response_result(
    request: OutboundRequest,
    response: ResponseMessage,
) -> ResponseResult {
    if response.spec_kind() == request.kind && response.spec_kind()
        == request.reply_slot.spec_kind() {
        Ok((request.peer, response))
    } else {
        Err(ResponseError::TypeMismatch)
    }
}

/// The ids of `deliveries`, in order.
pub open spec fn delivered_ids(deliveries: Seq<ReplyDelivery>) -> Seq<OutboundRequestId> {
    Seq::new(deliveries.len(), |i: int| deliveries[i].request_id)
}

impl OutboundView {
    /// Why a request cannot be entered now, if it cannot.
    pub open spec fn refusal(self) -> Option<SendError> {
        if self.closed {
            Some(SendError::Closed)
        } else if self.pending.dom().len() >= self.capacity || self.pending.contains_key(
            self.next_id,
        ) {
            Some(SendError::Full)
        } else {
            None
        }
    }

    /// The state after a request to `peer` was entered at `now`.
    pub open spec fn registered(
        self,
        peer: PeerId,
        kind: RequestKind,
        reply_slot: ResponseSender,
        now: u64,
    ) -> OutboundView {
        OutboundView {
            pending: self.pending.insert(
                self.next_id,
                OutboundRequest {
                    peer,
                    deadline: saturating_add_u64(now, self.timeout_ms),
                    kind,
                    reply_slot,
                },
            ),
            next_id: following_id(self.next_id),
            ..self
        }
    }

    /// The state after the request `id` got its outcome.
    pub open spec fn resolved(self, id: OutboundRequestId) -> OutboundView {
        OutboundView { pending: self.pending.remove(id), ..self }
    }

    /// Whether the request `id` is pending and its deadline has come at
    /// `now`.
    pub open spec fn is_due(self, id: OutboundRequestId, now: u64) -> bool {
        self.pending.contains_key(id) && self.pending[id].deadline <= now
    }

    /// Whether `id` is the due request that is to be given up first: the
    /// one with the earliest deadline and, among those, the lowest id.
    pub open spec fn is_earliest_due(self, id: OutboundRequestId, now: u64) -> bool {
        &&& self.is_due(id, now)
        &&& forall|other: OutboundRequestId| #[trigger]
            self.is_due(other, now) ==> self.pending[id].deadline < self.pending[other].deadline
                || (self.pending[id].deadline == self.pending[other].deadline && id <= other)
    }

    /// The due request that is to be given up first at `now`, if any
    /// request is due.
    pub open spec fn earliest_due(self, now: u64) -> Option<OutboundRequestId> {
        if exists|id: OutboundRequestId| self.is_earliest_due(id, now) {
            Some(choose|id: OutboundRequestId| self.is_earliest_due(id, now))
        } else {
            None
        }
    }

    /// The pending requests that an event ends: those that were put to
    /// `peer`, or all of them where no peer is given.
    pub open spec fn selected(self, peer: Option<PeerId>) -> Set<OutboundRequestId> {
        Set::new(
            |id: OutboundRequestId|
                self.pending.contains_key(id) && (peer is None || self.pending[id].peer
                    == peer->Some_0),
        )
    }

    /// What holds of the table at every moment.
    pub open spec fn inv(self) -> bool {
        &&& self.pending.dom().finite()
        &&& self.pending.dom().len() <= self.capacity
    }
}

/// Once a request has its outcome it is pending no more, so that no later
/// response, deadline or disconnect finds it: each request has at most one
/// outcome.
pub proof fn lemma_one_outcome(v: OutboundView, id: OutboundRequestId, peer: Option<PeerId>, now: u64)
    ensures
        !v.resolved(id).pending.contains_key(id),
        !v.resolved(id).is_due(id, now),
        !v.resolved(id).is_earliest_due(id, now),
        !v.resolved(id).selected(peer).contains(id),
        v.resolved(id).resolved(id) == v.resolved(id),
{
    assert(v.resolved(id).pending.remove(id) =~= v.resolved(id).pending);
}

/// At most one request is the earliest due one.
pub proof fn lemma_earliest_due_unique(
    v: OutboundView,
    a: OutboundRequestId,
    b: OutboundRequestId,
    now: u64,
)
    requires
        v.is_earliest_due(a, now),
        v.is_earliest_due(b, now),
    ensures
        a == b,
{
    assert(v.is_due(a, now));
    assert(v.is_due(b, now));
}

/// The request that is first in line is the one that
/// [`OutboundView::earliest_due`] names.
pub proof fn lemma_earliest_due(v: OutboundView, id: OutboundRequestId, now: u64)
    requires
        v.is_earliest_due(id, now),
    ensures
        v.earliest_due(now) == Some(id),
{
    let chosen = choose|other: OutboundRequestId| v.is_earliest_due(other, now);
    lemma_earliest_due_unique(v, chosen, id, now);
}

/// Where no request is due, none is first in line.
pub proof fn lemma_none_due(v: OutboundView, now: u64)
    requires
        forall|id: OutboundRequestId| !v.is_due(id, now),
    ensures
        v.earliest_due(now) is None,
{
}

/// Whether the request `a` is given up no later than the request `b`.
pub open spec fn gives_up_before(
    v: OutboundView,
    a: OutboundRequestId,
    b: OutboundRequestId,
) -> bool {
    v.pending[a].deadline < v.pending[b].deadline || (v.pending[a].deadline
        == v.pending[b].deadline && a <= b)
}

/// Among finitely many requests, one is given up no later than all the
/// others.
pub proof fn lemma_first_among(v: OutboundView, ids: Set<OutboundRequestId>) -> (first:
    OutboundRequestId)
    requires
        ids.finite(),
        ids.len() > 0,
    ensures
        ids.contains(first),
        forall|other: OutboundRequestId| ids.contains(other) ==> gives_up_before(v, first, other),
    decreases ids.len(),
{
    let a = ids.choose();
    let rest = ids.remove(a);
    if rest.len() == 0 {
        assert forall|other: OutboundRequestId| ids.contains(other) implies gives_up_before(
            v,
            a,
            other,
        ) by {
            if other != a {
                assert(rest.contains(other));
            }
        }
        a
    } else {
        let m = lemma_first_among(v, rest);
        let first = if gives_up_before(v, a, m) {
            a
        } else {
            m
        };
        assert forall|other: OutboundRequestId| ids.contains(other) implies gives_up_before(
            v,
            first,
            other,
        ) by {
            if other != a {
                assert(rest.contains(other));
                assert(gives_up_before(v, m, other));
            }
        }
        first
    }
}

/// Where any request is due, one of the due requests is first in line: a
/// tick never passes a due request by while the table does nothing.
pub proof fn lemma_a_due_request_is_first(v: OutboundView, id: OutboundRequestId, now: u64)
    requires
        v.inv(),
        v.is_due(id, now),
    ensures
        v.earliest_due(now) is Some,
        v.is_due(v.earliest_due(now)->Some_0, now),
{
    let due = Set::new(|other: OutboundRequestId| v.is_due(other, now));
    assert(due.subset_of(v.pending.dom()));
    vstd::set_lib::lemma_len_subset(due, v.pending.dom());
    assert(due.contains(id));
    assert(due.len() > 0) by {
        if due.len() == 0 {
            assert(due =~= Set::<OutboundRequestId>::empty());
        }
    }
    let first = lemma_first_among(v, due);
    assert(v.is_earliest_due(first, now)) by {
        assert forall|other: OutboundRequestId| #[trigger]
            v.is_due(other, now) implies v.pending[first].deadline < v.pending[other].deadline
            || (v.pending[first].deadline == v.pending[other].deadline && first <= other) by {
            assert(due.contains(other));
            assert(gives_up_before(v, first, other));
        }
    }
    lemma_earliest_due(v, first, now);
}

/// The table of outbound requests.
pub struct OutboundTable {
    pending: Table<OutboundRequestId, OutboundRequest>,
    next_id: OutboundRequestId,
    capacity: usize,
    timeout_ms: u64,
    closed: bool,
}

impl View for OutboundTable {
    type V = OutboundView;

    closed spec fn view(&self) -> OutboundView {
        OutboundView {
            pending: self.pending@,
            next_id: self.next_id,
            capacity: self.capacity,
            timeout_ms: self.timeout_ms,
            closed: self.closed,
        }
    }
}

impl OutboundTable {
    /// The representation invariant. It implies the invariant of the model.
    pub closed spec fn wf(&self) -> bool {
        &&& self.pending.wf()
        &&& self@.inv()
    }

    /// A well-formed table is in a state that meets the model's invariant.
    pub proof fn lemma_wf(&self)
        requires
            self.wf(),
        ensures
            self@.inv(),
    {
    }

    /// An empty table for at most `capacity` requests, each of which may
    /// wait `timeout_ms`.
    pub fn new(capacity: usize, timeout_ms: u64) -> (table: OutboundTable)
        ensures
            table.wf(),
            table@ == (OutboundView {
                pending: Map::empty(),
                next_id: 0,
                capacity,
                timeout_ms,
                closed: false,
            }),
    {
        OutboundTable { pending: Table::new(), next_id: 0, capacity, timeout_ms, closed: false }
    }

    /// Whether the table has been shut down.
    pub fn is_closed(&self) -> (closed: bool)
        ensures
            closed == self@.closed,
    {
        self.closed
    }

    /// How many requests are pending.
    pub fn len(&self) -> (n: usize)
        requires
            self.wf(),
        ensures
            n == self@.pending.dom().len(),
            n <= self@.capacity,
    {
        self.pending.len()
    }

    /// The pending request `id`, if there is one.
    pub fn get(&self, id: OutboundRequestId) -> (request: Option<OutboundRequest>)
        requires
            self.wf(),
        ensures
            request == if self@.pending.contains_key(id) {
                Some(self@.pending[id])
            } else {
                None::<OutboundRequest>
            },
    {
        match self.pending.get(&id) {
            Some(request) => Some(*request),
            None => None,
        }
    }

    /// Enters a request to `peer` with the deadline `now` plus the
    /// timeout, and hands out its id. The request is refused after a
    /// shutdown, and when the table is full.
    pub fn register(
        &mut self,
        peer: PeerId,
        kind: RequestKind,
        reply_slot: ResponseSender,
        now: u64,
    ) -> (r: Result<OutboundRequestId, SendError>)
        requires
            old(self).wf(),
        ensures
            final(self).wf(),
            match r {
                Ok(id) => old(self)@.refusal() is None && id == old(self)@.next_id && final(self)@
                    == old(self)@.registered(peer, kind, reply_slot, now),
                Err(e) => old(self)@.refusal() == Some(e) && final(self)@ == old(self)@,
            },
    {
        if self.closed {
            return Err(SendError::Closed);
        }
        if self.pending.len() >= self.capacity || self.pending.contains_key(&self.next_id) {
            return Err(SendError::Full);
        }
        let id = self.next_id;
        let deadline = add_saturating_u64(now, self.timeout_ms);
        let _ = self.pending.insert(id, OutboundRequest { peer, deadline, kind, reply_slot });
        self.next_id = if id == u64::MAX {
            0
        } else {
            id + 1
        };
        Ok(id)
    }

    /// Takes the response to the request `id`. A pending request leaves the
    /// table and its caller gets the response, or a type mismatch where the
    /// response is of another kind than was asked for. A response to a
    /// request that is not pending is discarded.
    pub fn on_response(&mut self, id: OutboundRequestId, response: ResponseMessage) -> (delivery:
        Option<ReplyDelivery>)
        requires
            old(self).wf(),
        ensures
            final(self).wf(),
            final(self)@ == old(self)@.resolved(id),
            delivery == if old(self)@.pending.contains_key(id) {
                Some(
                    ReplyDelivery {
                        request_id: id,
                        reply_slot: old(self)@.pending[id].reply_slot,
                        result: response_result(old(self)@.pending[id], response),
                    },
                )
            } else {
                None::<ReplyDelivery>
            },
    {
        match self.pending.remove(&id) {
            None => None,
            Some(request) => {
                let kind = response.kind();
                let matches = (kind == request.kind) && (kind == request.reply_slot.kind());
                let result = if matches {
                    Ok((request.peer, response))
                } else {
                    Err(ResponseError::TypeMismatch)
                };
                Some(ReplyDelivery { request_id: id, reply_slot: request.reply_slot, result })
            },
        }
    }

    /// Ends the request `id` because its response broke the rules of the
    /// wire: a pending request leaves the table and its caller learns of
    /// the violation.
    pub fn on_protocol_violation(&mut self, id: OutboundRequestId) -> (delivery: Option<
        ReplyDelivery,
    >)
        requires
            old(self).wf(),
        ensures
            final(self).wf(),
            final(self)@ == old(self)@.resolved(id),
            delivery == if old(self)@.pending.contains_key(id) {
                Some(
                    ReplyDelivery {
                        request_id: id,
                        reply_slot: old(self)@.pending[id].reply_slot,
                        result: Err(ResponseError::ProtocolViolation),
                    },
                )
            } else {
                None::<ReplyDelivery>
            },
    {
        match self.pending.remove(&id) {
            None => None,
            Some(request) => Some(
                ReplyDelivery {
                    request_id: id,
                    reply_slot: request.reply_slot,
                    result: Err(ResponseError::ProtocolViolation),
                },
            ),
        }
    }

    /// Gives up the due request that is first in line, if any request is
    /// due at `now`: it leaves the table and its caller gets a timeout.
    pub fn expire_next(&mut self, now: u64) -> (delivery: Option<ReplyDelivery>)
        requires
            old(self).wf(),
        ensures
            final(self).wf(),
            match delivery {
                Some(d) => {
                    &&& old(self)@.is_earliest_due(d.request_id, now)
                    &&& d.reply_slot == old(self)@.pending[d.request_id].reply_slot
                    &&& d.result == Err::<(PeerId, ResponseMessage), ResponseError>(
                        ResponseError::P2P(RequestResponseError::Timeout),
                    )
                    &&& final(self)@ == old(self)@.resolved(d.request_id)
                },
                None => final(self)@ == old(self)@ && forall|id: OutboundRequestId|
                    !old(self)@.is_due(id, now),
            },
    {
        let n = self.pending.len();
        let mut best: Option<usize> = None;
        let mut i: usize = 0;
        proof {
            self.pending.lemma_contents();
        }
        while i < n
            invariant
                self.wf(),
                self == old(self),
                n == self.pending.key_seq().len(),
                i <= n,
                match best {
                    Some(b) => {
                        &&& b < i
                        &&& self.pending.value_seq()[b as int].deadline <= now
                        &&& forall|j: int|
                            0 <= j < i && self.pending.value_seq()[j].deadline <= now ==> {
                                let mine = self.pending.value_seq()[b as int].deadline;
                                let theirs = (#[trigger] self.pending.value_seq()[j]).deadline;
                                mine < theirs || (mine == theirs && self.pending.key_seq()[b as int]
                                    <= self.pending.key_seq()[j])
                            }
                    },
                    None => forall|j: int|
                        0 <= j < i ==> (#[trigger] self.pending.value_seq()[j]).deadline > now,
                },
            decreases n - i,
        {
            let deadline = self.pending.value_at(i).deadline;
            if deadline <= now {
                let better = match best {
                    None => true,
                    Some(b) => {
                        let current = self.pending.value_at(b).deadline;
                        deadline < current || (deadline == current && *self.pending.key_at(i)
                            < *self.pending.key_at(b))
                    },
                };
                if better {
                    best = Some(i);
                }
            }
            i = i + 1;
        }
        proof {
            self.pending.lemma_contents();
            assert forall|id: OutboundRequestId| #[trigger] self@.is_due(id, now) implies {
                let j = self.pending.key_seq().index_of(id);
                0 <= j < n && self.pending.key_seq()[j] == id && self.pending.value_seq()[j]
                    == self@.pending[id]
            } by {
                assert(self.pending@.contains_key(id));
                assert(self.pending.key_seq().contains(id));
            }
        }
        match best {
            None => {
                assert forall|id: OutboundRequestId| !self@.is_due(id, now) by {
                    if self@.is_due(id, now) {
                        let j = self.pending.key_seq().index_of(id);
                        assert(self.pending.value_seq()[j].deadline > now);
                    }
                }
                None
            },
            Some(b) => {
                let ghost chosen = self.pending.key_seq()[b as int];
                proof {
                    assert(self@.pending.contains_key(chosen));
                    assert(self@.pending[chosen] == self.pending.value_seq()[b as int]);
                    assert forall|other: OutboundRequestId| #[trigger]
                        self@.is_due(other, now) implies self@.pending[chosen].deadline
                        < self@.pending[other].deadline || (self@.pending[chosen].deadline
                        == self@.pending[other].deadline && chosen <= other) by {
                        let j = self.pending.key_seq().index_of(other);
                        assert(self.pending.value_seq()[j].deadline <= now);
                    }
                }
                let (id, request) = self.pending.remove_at(b);
                Some(
                    ReplyDelivery {
                        request_id: id,
                        reply_slot: request.reply_slot,
                        result: Err(ResponseError::P2P(RequestResponseError::Timeout)),
                    },
                )
            },
        }
    }
}

/// Whether `deliveries` hand the outcome `error` to exactly the requests
/// `ended` of the table `before`, each once and in its own slot.
pub open spec fn ends_requests(
    deliveries: Seq<ReplyDelivery>,
    before: OutboundView,
    ended: Set<OutboundRequestId>,
    error: RequestResponseError,
) -> bool {
    &&& delivered_ids(deliveries).no_duplicates()
    &&& delivered_ids(deliveries).to_set() == ended
    &&& forall|j: int|
        0 <= j < deliveries.len() ==> {
            let d = #[trigger] deliveries[j];
            &&& d.reply_slot == before.pending[d.request_id].reply_slot
            &&& d.result == Err::<(PeerId, ResponseMessage), ResponseError>(
                ResponseError::P2P(error),
            )
        }
}

impl OutboundTable {
    /// The position of the first pending request that was put to `peer`,
    /// or of the first pending request where no peer is given.
    fn first_selected(&self, peer: &Option<PeerId>) -> (r: Option<usize>)
        requires
            self.wf(),
        ensures
            match r {
                Some(i) => i < self.pending.key_seq().len() && self@.selected(*peer).contains(
                    self.pending.key_seq()[i as int],
                ),
                None => self@.selected(*peer) == Set::<OutboundRequestId>::empty(),
            },
    {
        let n = self.pending.len();
        let mut i: usize = 0;
        proof {
            self.pending.lemma_contents();
        }
        while i < n
            invariant
                self.wf(),
                n == self.pending.key_seq().len(),
                i <= n,
                forall|j: int|
                    0 <= j < i ==> !self@.selected(*peer).contains(
                        #[trigger] self.pending.key_seq()[j],
                    ),
            decreases n - i,
        {
            proof {
                self.pending.lemma_contents();
            }
            let hit = match peer {
                None => true,
                Some(p) => self.pending.value_at(i).peer.same(p),
            };
            if hit {
                return Some(i);
            }
            i = i + 1;
        }
        proof {
            self.pending.lemma_contents();
            assert forall|id: OutboundRequestId| !self@.selected(*peer).contains(id) by {
                if self@.pending.contains_key(id) {
                    let j = self.pending.key_seq().index_of(id);
                    assert(self.pending.key_seq()[j] == id);
                }
            }
            assert(self@.selected(*peer) =~= Set::<OutboundRequestId>::empty());
        }
        None
    }

    /// Ends the selected requests with `error`.
    fn fail_selected(&mut self, peer: Option<PeerId>, error: RequestResponseError) -> (deliveries:
        Vec<ReplyDelivery>)
        requires
            old(self).wf(),
        ensures
            final(self).wf(),
            final(self)@ == (OutboundView {
                pending: old(self)@.pending.remove_keys(old(self)@.selected(peer)),
                ..old(self)@
            }),
            ends_requests(deliveries@, old(self)@, old(self)@.selected(peer), error),
    {
        let ghost before = self@;
        let mut deliveries: Vec<ReplyDelivery> = Vec::new();
        loop
            invariant_except_break
                self.wf(),
                self@.next_id == before.next_id,
                self@.capacity == before.capacity,
                self@.timeout_ms == before.timeout_ms,
                self@.closed == before.closed,
                before.pending.dom().finite(),
                forall|id: OutboundRequestId| #[trigger]
                    self@.pending.contains_key(id) ==> before.pending.contains_key(id)
                        && self@.pending[id] == before.pending[id],
                forall|id: OutboundRequestId| #[trigger]
                    before.pending.contains_key(id) ==> self@.pending.contains_key(id) || (
                    before.selected(peer).contains(id) && delivered_ids(deliveries@).contains(id)),
                delivered_ids(deliveries@).no_duplicates(),
                forall|j: int|
                    0 <= j < deliveries@.len() ==> {
                        let d = #[trigger] deliveries@[j];
                        &&& before.selected(peer).contains(d.request_id)
                        &&& !self@.pending.contains_key(d.request_id)
                        &&& d.reply_slot == before.pending[d.request_id].reply_slot
                        &&& d.result == Err::<(PeerId, ResponseMessage), ResponseError>(
                            ResponseError::P2P(error),
                        )
                    },
            ensures
                self.wf(),
                self@ == (OutboundView {
                    pending: before.pending.remove_keys(before.selected(peer)),
                    ..before
                }),
                ends_requests(deliveries@, before, before.selected(peer), error),
            decreases self@.pending.dom().len(),
        {
            match self.first_selected(&peer) {
                None => {
                    proof {
                        let ids = delivered_ids(deliveries@);
                        assert(self@.pending =~= before.pending.remove_keys(before.selected(peer))) by {
                            assert forall|id: OutboundRequestId|
                                self@.pending.contains_key(id) <==> before.pending.remove_keys(
                                    before.selected(peer),
                                ).contains_key(id) by {
                                if self@.pending.contains_key(id) {
                                    assert(!self@.selected(peer).contains(id));
                                }
                            }
                        }
                        assert forall|id: OutboundRequestId| #[trigger]
                            ids.to_set().contains(id) <==> before.selected(peer).contains(id) by {
                            if ids.contains(id) {
                                let j = choose|j: int| 0 <= j < ids.len() && ids[j] == id;
                                assert(deliveries@[j].request_id == id);
                            }
                            if before.selected(peer).contains(id) {
                                assert(before.pending.contains_key(id));
                                if self@.pending.contains_key(id) {
                                    assert(self@.selected(peer).contains(id));
                                }
                            }
                        }
                        assert(ids.to_set() =~= before.selected(peer));
                    }
                    break ;
                },
                Some(i) => {
                    let ghost current = self@;
                    let ghost ids = delivered_ids(deliveries@);
                    proof {
                        self.pending.lemma_contents();
                    }
                    let (id, request) = self.pending.remove_at(i);
                    proof {
                        assert(!ids.contains(id)) by {
                            if ids.contains(id) {
                                let j = choose|j: int| 0 <= j < ids.len() && ids[j] == id;
                                assert(deliveries@[j].request_id == id);
                            }
                        }
                        assert(current.pending.contains_key(id));
                        assert(before.selected(peer).contains(id));
                    }
                    deliveries.push(
                        ReplyDelivery {
                            request_id: id,
                            reply_slot: request.reply_slot,
                            result: Err(ResponseError::P2P(error)),
                        },
                    );
                    proof {
                        let ids2 = delivered_ids(deliveries@);
                        assert(ids2 =~= ids.push(id));
                        lemma_push_unique(ids, id);
                        assert forall|other: OutboundRequestId| #[trigger]
                            before.pending.contains_key(other) implies self@.pending.contains_key(
                            other,
                        ) || (before.selected(peer).contains(other) && ids2.contains(other)) by {
                            if other == id {
                                assert(ids2[ids.len() as int] == id);
                            } else if !current.pending.contains_key(other) {
                                assert(ids.contains(other));
                                let j = choose|j: int| 0 <= j < ids.len() && ids[j] == other;
                                assert(ids2[j] == other);
                            }
                        }
                    }
                },
            }
        }
        deliveries
    }

    /// Ends every request that was put to `peer`, which has disconnected:
    /// each leaves the table and its caller learns of the disconnect.
    pub fn on_peer_disconnected(&mut self, peer: PeerId) -> (deliveries: Vec<ReplyDelivery>)
        requires
            old(self).wf(),
        ensures
            final(self).wf(),
            final(self)@ == (OutboundView {
                pending: old(self)@.pending.remove_keys(old(self)@.selected(Some(peer))),
                ..old(self)@
            }),
            ends_requests(
                deliveries@,
                old(self)@,
                old(self)@.selected(Some(peer)),
                RequestResponseError::PeerDisconnected,
            ),
    {
        self.fail_selected(Some(peer), RequestResponseError::PeerDisconnected)
    }

    /// Shuts the table down: every pending request leaves it and its caller
    /// learns of the shutdown, and from now on every request is refused.
    pub fn shutdown(&mut self) -> (deliveries: Vec<ReplyDelivery>)
        requires
            old(self).wf(),
        ensures
            final(self).wf(),
            final(self)@ == (OutboundView { pending: Map::empty(), closed: true, ..old(self)@ }),
            ends_requests(
                deliveries@,
                old(self)@,
                old(self)@.pending.dom(),
                RequestResponseError::Shutdown,
            ),
    {
        proof {
            assert(self@.selected(None) =~= self@.pending.dom());
        }
        let deliveries = self.fail_selected(None, RequestResponseError::Shutdown);
        self.closed = true;
        proof {
            assert(self@.pending =~= Map::<OutboundRequestId, OutboundRequest>::empty());
        }
        deliveries
    }
}

} // verus!
