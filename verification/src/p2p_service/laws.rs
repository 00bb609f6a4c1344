//! What holds of the service whatever happens: the laws of the state
//! machine, each proved from the functions that define its steps.

use crate::gossipsub::layer::PublishError;
use crate::gossipsub::topics::GossipTopicTag;
use crate::ids::{MessageId, MultiaddrView, PeerId};
use crate::numbers::saturating_add_u64;
use crate::p2p_service::events::{ActionView, IncomingConnectionError};
use crate::p2p_service::model::ServiceView;
use crate::peer_manager::info::{BlockHeight, PeerClass};
use crate::peer_manager::model::{
    lemma_bans_pruned_inv, lemma_closed_inv, lemma_dial_failed_inv, lemma_established_inv,
    lemma_heartbeat_inv, lemma_identified_inv, lemma_penalized_inv, lemma_scored_inv, Admission,
};
use crate::request_response::inbound::InboundRequestId;
use crate::request_response::messages::{
    RequestKind, RequestView, ResponseError, ResponseMessage, ResponseSender, SendError,
};
use crate::request_response::outbound::{
    lemma_a_due_request_is_first, response_result, OutboundRequest, OutboundRequestId,
    ReplyDelivery,
};
use crate::types::GossipsubMessageAcceptance;
use vstd::prelude::*;
use vstd::set_lib::lemma_len_subset;

verus! {

/// Whatever the transport reports and whatever the embedder asks, the
/// state keeps its invariant: each step from a state that meets it leads
/// to a state that meets it.
pub proof fn lemma_steps_keep_inv(
    v: ServiceView,
    peer: PeerId,
    addresses: Seq<MultiaddrView>,
    checksum: Seq<u8>,
    text: Seq<char>,
    payload: Seq<u8>,
    height: BlockHeight,
    message_id: MessageId,
    acceptance: GossipsubMessageAcceptance,
    request_id: OutboundRequestId,
    response: ResponseMessage,
    deliveries: Seq<ReplyDelivery>,
    now: u64,
)
    requires
        v.inv(),
    ensures
        v.started().inv(),
        v.connection_established(peer, addresses, checksum, now).inv(),
        v.connection_closed(peer, now, deliveries).inv(),
        v.dial_failed(peer).inv(),
        v.heartbeat_received(peer, height, now).inv(),
        v.identified(peer, text, addresses).inv(),
        v.subscribed(peer, text).inv(),
        v.unsubscribed(peer, text).inv(),
        v.gossip_received(peer, text, payload, now).inv(),
        v.response_received(request_id, response).inv(),
        v.verdict_reported(message_id, peer, acceptance).inv(),
        v.ticked(now).inv(),
        v.shut_down(deliveries).inv(),
{
    lemma_established_inv(v.peers, peer, addresses, now);
    lemma_bans_pruned_inv(v.peers, peer, now);
    lemma_closed_inv(v.peers, peer, now);
    lemma_dial_failed_inv(v.peers, peer);
    lemma_heartbeat_inv(v.peers, peer, height, now);
    lemma_identified_inv(v.peers, peer, text, addresses);
    lemma_scored_inv(v.peers, peer, v.gossip.limits.rate_penalty);
    lemma_scored_inv(v.peers, peer, v.gossip.verdict_delta(message_id, acceptance));
    let closed = v.outbound.pending.remove_keys(v.outbound.selected(Some(peer)));
    assert(closed.dom().subset_of(v.outbound.pending.dom()));
    lemma_len_subset(closed.dom(), v.outbound.pending.dom());
    if v.outbound.pending.contains_key(request_id) {
        lemma_penalized_inv(v.peers, v.outbound.pending[request_id].peer, v.mismatch_delta);
    }
    match v.outbound.earliest_due(now) {
        Some(id) => {
            assert(v.outbound.resolved(id).pending.dom().subset_of(v.outbound.pending.dom()));
            lemma_len_subset(
                v.outbound.resolved(id).pending.dom(),
                v.outbound.pending.dom(),
            );
        },
        None => {},
    }
    assert(v.outbound.resolved(request_id).pending.dom().subset_of(v.outbound.pending.dom()));
    lemma_len_subset(
        v.outbound.resolved(request_id).pending.dom(),
        v.outbound.pending.dom(),
    );
}

/// Sending a request and answering one keep the invariant too.
pub proof fn lemma_requests_keep_inv(
    v: ServiceView,
    peer: PeerId,
    message: RequestView,
    kind_of_message: RequestKind,
    reply_slot: ResponseSender,
    inbound_id: InboundRequestId,
    response: ResponseMessage,
    tag: GossipTopicTag,
    payload: Seq<u8>,
    now: u64,
)
    requires
        v.inv(),
    ensures
        v.outbound.refusal() is None ==> v.request_sent(
            peer,
            message,
            kind_of_message,
            reply_slot,
            now,
        ).inv(),
        v.request_received(inbound_id, peer, message, kind_of_message, now).inv(),
        v.response_sent(inbound_id, response).inv(),
        v.published(tag, payload, now).inv(),
{
}

/// No step takes an event back or puts one before another that waits:
/// what the embedder has not read yet stays at the head of the queue, in
/// its order, so that events reach the embedder in the order in which the
/// transport reported what caused them.
pub proof fn lemma_events_keep_their_order(
    v: ServiceView,
    peer: PeerId,
    addresses: Seq<MultiaddrView>,
    checksum: Seq<u8>,
    text: Seq<char>,
    payload: Seq<u8>,
    height: BlockHeight,
    request_id: InboundRequestId,
    message: RequestView,
    kind_of_message: RequestKind,
    deliveries: Seq<ReplyDelivery>,
    now: u64,
)
    ensures
        v.events.is_prefix_of(v.connection_established(peer, addresses, checksum, now).events),
        v.events.is_prefix_of(v.connection_closed(peer, now, deliveries).events),
        v.events.is_prefix_of(v.heartbeat_received(peer, height, now).events),
        v.events.is_prefix_of(v.identified(peer, text, addresses).events),
        v.events.is_prefix_of(v.subscribed(peer, text).events),
        v.events.is_prefix_of(v.gossip_received(peer, text, payload, now).events),
        v.events.is_prefix_of(
            v.request_received(request_id, peer, message, kind_of_message, now).events,
        ),
        v.ticked(now).events == v.events,
        v.dial_failed(peer).events == v.events,
{
}

/// At every moment the connected discovered peers are no more than the
/// configured limit.
pub proof fn lemma_discovered_peers_within_limit(v: ServiceView)
    requires
        v.inv(),
    ensures
        v.peers.members(PeerClass::Discovered).len()
            <= v.peers.limits.max_discovery_peers_connected,
{
}

/// A payload that counts as seen is not published again: the embedder is
/// told that it is a duplicate, whether the queue has room or not.
pub proof fn lemma_seen_payload_is_duplicate(v: ServiceView, tag: GossipTopicTag, payload: Seq<u8>, now: u64)
    requires
        v.gossip.is_seen(MessageId::spec_of(payload), now),
        v.gossip.topics.subscribes_to(tag),
    ensures
        v.publish_refusal(tag, payload, now) == Some(PublishError::Duplicate),
{
}

/// A payload that was published counts as seen until its window has
/// passed, so that publishing it a second time within the window is
/// refused as a duplicate.
pub proof fn lemma_second_publish_is_refused(
    v: ServiceView,
    tag: GossipTopicTag,
    payload: Seq<u8>,
    first: u64,
    later: u64,
)
    requires
        v.publish_refusal(tag, payload, first) is None,
        first <= later < saturating_add_u64(first, v.gossip.limits.seen_window_ms),
    ensures
        v.published(tag, payload, first).gossip.is_seen(MessageId::spec_of(payload), later),
        v.published(tag, payload, first).publish_refusal(tag, payload, later) == Some(
            PublishError::Duplicate,
        ),
{
}

/// A payload that a peer delivered counts as seen as well: the node that
/// received it cannot publish it within the window, whoever published it
/// first.
pub proof fn lemma_received_payload_is_duplicate(
    v: ServiceView,
    peer: PeerId,
    topic_hash: Seq<char>,
    tag: GossipTopicTag,
    payload: Seq<u8>,
    first: u64,
    later: u64,
)
    requires
        v.gossip.inbound_verdict(peer, v.peers.is_eligible(peer), topic_hash, payload, first)
            is Deliver,
        v.gossip.topics.subscribes_to(tag),
        first <= later < saturating_add_u64(first, v.gossip.limits.seen_window_ms),
    ensures
        v.gossip_received(peer, topic_hash, payload, first).gossip.is_seen(
            MessageId::spec_of(payload),
            later,
        ),
        v.gossip_received(peer, topic_hash, payload, first).publish_refusal(tag, payload, later)
            == Some(PublishError::Duplicate),
{
}

/// A message that the embedder rejects or ignores is sent on to no peer:
/// no action that follows from the verdict publishes anything.
pub proof fn lemma_rejected_is_not_forwarded(
    v: ServiceView,
    message_id: MessageId,
    peer: PeerId,
    acceptance: GossipsubMessageAcceptance,
)
    requires
        acceptance != GossipsubMessageAcceptance::Accept,
    ensures
        forall|i: int|
            0 <= i < v.verdict_actions(message_id, peer, acceptance).len() ==> !(
            #[trigger] v.verdict_actions(message_id, peer, acceptance)[i] is Publish),
{
}

/// A request that is not pending gets no outcome: neither a response nor
/// the passing of time nor a disconnect delivers anything for it. Every
/// outcome leaves the request not pending, so that each request has at
/// most one.
pub proof fn lemma_request_ends_once(
    v: ServiceView,
    request_id: OutboundRequestId,
    response: ResponseMessage,
    peer: PeerId,
    now: u64,
)
    ensures
        !v.response_received(request_id, response).outbound.pending.contains_key(request_id),
        v.outbound.earliest_due(now) == Some(request_id) ==> !v.ticked(
            now,
        ).outbound.pending.contains_key(request_id),
        v.outbound.selected(Some(peer)).contains(request_id) ==> !v.connection_closed(
            peer,
            now,
            Seq::empty(),
        ).outbound.pending.contains_key(request_id),
        !v.outbound.pending.contains_key(request_id) ==> {
            &&& v.response_received(request_id, response) == v
            &&& v.outbound.earliest_due(now) != Some(request_id)
            &&& !v.outbound.selected(Some(peer)).contains(request_id)
        },
{
    if !v.outbound.pending.contains_key(request_id) {
        if v.outbound.earliest_due(now) == Some(request_id) {
            assert(v.outbound.is_earliest_due(request_id, now));
        }
    }
}

/// A connection with this node's own identity is never kept: the peer is
/// turned away, no record is made, and the embedder hears nothing.
pub proof fn lemma_self_dial_is_rejected(
    v: ServiceView,
    addresses: Seq<MultiaddrView>,
    checksum: Seq<u8>,
    now: u64,
)
    ensures
        v.connection_verdict(v.peers.local, checksum, now) is Err,
        v.connection_established(v.peers.local, addresses, checksum, now).peers == v.peers,
        v.connection_established(v.peers.local, addresses, checksum, now).events == v.events,
{
}

/// A peer whose checksum differs is a transport error: no record is made
/// and the embedder hears nothing.
pub proof fn lemma_checksum_mismatch_is_transport_error(
    v: ServiceView,
    peer: PeerId,
    addresses: Seq<MultiaddrView>,
    checksum: Seq<u8>,
    now: u64,
)
    requires
        checksum != v.checksum,
    ensures
        v.connection_verdict(peer, checksum, now) == Err::<(), IncomingConnectionError>(
            IncomingConnectionError::Transport,
        ),
        v.connection_established(peer, addresses, checksum, now).peers == v.peers,
        v.connection_established(peer, addresses, checksum, now).events == v.events,
{
}

/// In reserved-only mode the embedder hears of the connection of reserved
/// peers only: any other peer is turned away without an event.
pub proof fn lemma_reserved_only_mode_keeps_others_out(
    v: ServiceView,
    peer: PeerId,
    addresses: Seq<MultiaddrView>,
    checksum: Seq<u8>,
    now: u64,
)
    requires
        v.peers.limits.reserved_nodes_only_mode,
        !v.peers.reserved.contains_key(peer),
    ensures
        v.connection_verdict(peer, checksum, now) is Err,
        v.connection_established(peer, addresses, checksum, now).peers == v.peers,
        v.connection_established(peer, addresses, checksum, now).events == v.events,
{
}

/// A response of another kind than the request gives its caller a type
/// mismatch, and a response of the kind asked for gives it the response.
pub proof fn lemma_response_kind_decides(
    request: OutboundRequest,
    response: ResponseMessage,
)
    requires
        request.reply_slot.spec_kind() == request.kind,
    ensures
        response.spec_kind() != request.kind ==> response_result(request, response) == Err::<
            (PeerId, ResponseMessage),
            ResponseError,
        >(ResponseError::TypeMismatch),
        response.spec_kind() == request.kind ==> response_result(request, response) == Ok::<
            (PeerId, ResponseMessage),
            ResponseError,
        >((request.peer, response)),
{
}

/// A reserved peer never loses its place: whenever it connects with the
/// right checksum it is kept, unless it is this node itself; whenever its
/// connection ends it is dialed again at once; and whenever a dial of it
/// fails it is dialed again, after a delay that never exceeds the ceiling.
pub proof fn lemma_reserved_peer_is_never_given_up(
    v: ServiceView,
    peer: PeerId,
    addresses: Seq<MultiaddrView>,
    deliveries: Seq<ReplyDelivery>,
    now: u64,
)
    requires
        v.peers.reserved.contains_key(peer),
    ensures
        peer != v.peers.local ==> v.connection_verdict(peer, v.checksum, now) is Ok
            && v.connection_established(peer, addresses, v.checksum, now).peers.peers.contains_key(
            peer,
        ),
        v.peers.peers.contains_key(peer) ==> v.connection_closed(peer, now, deliveries).actions.last()
            == ActionView::Dial(v.peers.redial_after_close(peer)->Some_0)
            && v.peers.redial_after_close(peer)->Some_0.delay_ms == 0,
        !v.peers.peers.contains_key(peer) ==> v.dial_failed(peer).actions.last() == ActionView::Dial(
            v.peers.redial_after_failure(peer)->Some_0,
        ) && v.peers.redial_after_failure(peer)->Some_0.delay_ms
            <= v.peers.limits.redial_ceiling_ms,
        v.dial_failed(peer).peers.reserved.contains_key(peer),
        v.connection_closed(peer, now, deliveries).peers.reserved.contains_key(peer),
{
    assert(v.peers.admission(peer, now) == Admission::Accept || peer == v.peers.local);
}

/// A request that is pending when its deadline has come does not wait
/// for ever: at every tick from then on, some due request gets its
/// timeout, so that after as many ticks as requests are pending none that
/// was due is left.
pub proof fn lemma_due_requests_time_out(v: ServiceView, request_id: OutboundRequestId, now: u64)
    requires
        v.inv(),
        v.outbound.is_due(request_id, now),
    ensures
        v.outbound.earliest_due(now) is Some,
        v.ticked(now).outbound.pending.dom().len() == v.outbound.pending.dom().len() - 1,
        v.ticked(now).actions.len() > v.actions.len(),
{
    lemma_a_due_request_is_first(v.outbound, request_id, now);
}

/// A verdict of the embedder moves the score of the sender the right
/// way: an accepted message raises it, a rejected one lowers it, an
/// ignored one leaves it; and a response of the wrong kind lowers the
/// score of the peer that sent it.
pub proof fn lemma_scores_move_the_right_way(
    v: ServiceView,
    message_id: MessageId,
    request_id: OutboundRequestId,
    response: ResponseMessage,
)
    requires
        v.inv(),
        v.gossip.pending.contains_key(message_id),
    ensures
        v.gossip.verdict_delta(message_id, GossipsubMessageAcceptance::Accept) > 0,
        v.gossip.verdict_delta(message_id, GossipsubMessageAcceptance::Reject) < 0,
        v.gossip.verdict_delta(message_id, GossipsubMessageAcceptance::Ignore) == 0,
        v.outbound.pending.contains_key(request_id) && response_result(
            v.outbound.pending[request_id],
            response,
        ) is Err ==> {
            let peer = v.outbound.pending[request_id].peer;
            v.peers.peers.contains_key(peer) ==> v.response_received(
                request_id,
                response,
            ).peers.peers[peer].score <= v.peers.peers[peer].score
        },
{
}

/// A peer whose score is below the graylist threshold is neither heard
/// nor asked, banned or not: its gossip and its requests reach the
/// embedder in no event, and no request is sent to it.
pub proof fn lemma_graylisted_peer_is_neither_heard_nor_asked(
    v: ServiceView,
    peer: PeerId,
    topic_hash: Seq<char>,
    payload: Seq<u8>,
    request_id: InboundRequestId,
    message: RequestView,
    kind_of_message: RequestKind,
    now: u64,
)
    requires
        v.peers.is_graylisted(peer),
    ensures
        v.gossip_received(peer, topic_hash, payload, now).events == v.events,
        v.gossip_received(peer, topic_hash, payload, now).gossip.seen == v.gossip.seen,
        v.request_received(request_id, peer, message, kind_of_message, now) == v,
        !v.outbound.closed ==> v.request_refusal(Some(peer)) == Some(SendError::NoEligiblePeer),
{
}

} // verus!
