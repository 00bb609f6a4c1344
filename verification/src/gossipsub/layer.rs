//! The gossip layer of one node.
//!
//! The layer remembers the messages it has seen for a while, so that a
//! payload is published and surfaced once; it holds each message that it
//! surfaced until the embedder has judged it; and it knows which peer
//! subscribes to what, so that an accepted message can go on to the mesh.

use crate::bytes::clone_bytes;
use crate::gossipsub::messages::{GossipsubBroadcastRequest, GossipsubMessage};
use crate::gossipsub::topics::{GossipTopicTag, GossipsubTopics, GossipsubTopicsView};
use crate::ids::{MessageId, PeerId};
use crate::numbers::{add_saturating_u64, saturating_add_u64};
use crate::table::Table;
use crate::types::GossipsubMessageAcceptance;
use vstd::prelude::*;

verus! {

/// Why a message was not published.
#[derive(Clone, Debug, PartialEq, Eq)]
pub enum PublishError {
    /// The payload was published or received within the seen window.
    Duplicate,
    /// The queue of outbound work has no room.
    Full,
    /// The node does not subscribe to the message's topic.
    NotSubscribed,
    /// The transport failed; the text says how.
    Transport(String),
}

/// The numbers that govern gossip.
#[derive(Clone, Copy, Debug, PartialEq, Eq, Structural)]
pub struct GossipLimits {
    /// How long a message counts as seen, in milliseconds.
    pub seen_window_ms: u64,
    /// The length of the window in which a peer's messages are counted.
    pub rate_window_ms: u64,
    /// How many messages a peer may send within one window.
    pub max_messages_per_window: u32,
    /// How many peers a topic's mesh holds at most.
    pub mesh_size: u32,
    /// The change of score for a message that the embedder accepted.
    pub accept_delta: i64,
    /// The change of score for a message that the embedder rejected.
    pub reject_delta: i64,
    /// The change of score for a message beyond the rate limit.
    pub rate_penalty: i64,
}

/// The topics that a peer subscribes to.
#[derive(Clone, Copy, Debug, PartialEq, Eq, Structural)]
pub struct TopicSet {
    pub new_tx: bool,
    pub tx_preconfirmations: bool,
}

impl TopicSet {
    /// Whether the set holds the topic of `tag`.
    pub open spec fn spec_has(self, tag: GossipTopicTag) -> bool {
        match tag {
            GossipTopicTag::NewTx => self.new_tx,
            GossipTopicTag::TxPreconfirmations => self.tx_preconfirmations,
        }
    }

    /// The set with the topic of `tag` put in or taken out.
    pub open spec fn spec_with(self, tag: GossipTopicTag, subscribed: bool) -> TopicSet {
        match tag {
            GossipTopicTag::NewTx => TopicSet { new_tx: subscribed, ..self },
            GossipTopicTag::TxPreconfirmations => TopicSet {
                tx_preconfirmations: subscribed,
                ..self
            },
        }
    }

    /// Whether the set holds the topic of `tag`.
    pub fn has(self, tag: GossipTopicTag) -> (b: bool)
        ensures
            b == self.spec_has(tag),
    {
        match tag {
            GossipTopicTag::NewTx => self.new_tx,
            GossipTopicTag::TxPreconfirmations => self.tx_preconfirmations,
        }
    }

    /// The set with the topic of `tag` put in or taken out.
    pub fn with(self, tag: GossipTopicTag, subscribed: bool) -> (set: TopicSet)
        ensures
            set == self.spec_with(tag, subscribed),
    {
        match tag {
            GossipTopicTag::NewTx => TopicSet {
                new_tx: subscribed,
                tx_preconfirmations: self.tx_preconfirmations,
            },
            GossipTopicTag::TxPreconfirmations => TopicSet {
                new_tx: self.new_tx,
                tx_preconfirmations: subscribed,
            },
        }
    }
}

/// The messages a peer has sent in the running window.
#[derive(Clone, Copy, Debug, PartialEq, Eq, Structural)]
pub struct RateWindow {
    pub started: u64,
    pub count: u32,
}

/// A message that was surfaced and awaits the embedder's verdict.
#[derive(Debug)]
pub struct PendingMessage {
    pub source: PeerId,
    pub tag: GossipTopicTag,
    pub payload: Vec<u8>,
}

/// What a [`PendingMessage`] stands for.
pub struct PendingView {
    pub source: PeerId,
    pub tag: GossipTopicTag,
    pub payload: Seq<u8>,
}

impl View for PendingMessage {
    type V = PendingView;

    open spec fn view(&self) -> PendingView {
        PendingView { source: self.source, tag: self.tag, payload: self.payload@ }
    }
}

/// The abstract values of the messages that await a verdict.
pub open spec fn pending_views(
    messages: Map<MessageId,
    PendingMessage>,
) -> Map<MessageId, PendingView> {
    Map::new(|id: MessageId| messages.contains_key(id), |id: MessageId| messages[id]@)
}

/// What becomes of a message that came in.
pub enum InboundVerdict {
    /// The node does not subscribe to the topic: dropped without a word.
    UnknownTopic,
    /// The sender is not connected or is banned: dropped without a word.
    SourceNotEligible,
    /// The sender is over its rate: dropped, and the sender pays for it.
    RateLimited,
    /// The payload was seen before: dropped.
    Duplicate,
    /// The message goes to the embedder.
    Deliver(GossipTopicTag),
}

/// The state of the gossip layer.
pub struct GossipView {
    pub topics: GossipsubTopicsView,
    pub limits: GossipLimits,
    /// The messages seen, each with the time at which it is forgotten.
    pub seen: Map<MessageId, u64>,
    /// The messages that await the embedder's verdict.
    pub pending: Map<MessageId, PendingView>,
    /// What each peer subscribes to.
    pub subscriptions: Map<PeerId, TopicSet>,
    /// How many messages each peer has sent in its running window.
    pub rates: Map<PeerId, RateWindow>,
}

/// `peers` without `excluded`.
pub open spec fn without(peers: Seq<PeerId>, excluded: Option<PeerId>) -> Seq<PeerId>
    decreases peers.len(),
{
    if peers.len() == 0 {
        Seq::empty()
    } else {
        let rest = without(peers.drop_last(), excluded);
        if excluded == Some(peers.last()) {
            rest
        } else {
            rest.push(peers.last())
        }
    }
}

impl GossipView {
    /// Whether the message `id` counts as seen at `now`.
    pub open spec fn is_seen(self, id: MessageId, now: u64) -> bool {
        self.seen.contains_key(id) && now < self.seen[id]
    }

    /// Why `payload` cannot be published under `tag` at `now`, if it
    /// cannot.
    pub open spec fn publish_refusal(self, tag: GossipTopicTag, payload: Seq<u8>, now: u64) -> Option<
        PublishError,
    > {
        if !self.topics.subscribes_to(tag) {
            Some(PublishError::NotSubscribed)
        } else if self.is_seen(MessageId::spec_of(payload), now) {
            Some(PublishError::Duplicate)
        } else {
            None
        }
    }

    /// Why `payload` cannot be published under `tag` at `now`, if it
    /// cannot, where `room` says whether the transport can take a
    /// message. The topic and the seen window are asked first, so that a
    /// payload that counts as seen is a duplicate also where there is no
    /// room.
    pub open spec fn publish_refusal_with(
        self,
        tag: GossipTopicTag,
        payload: Seq<u8>,
        now: u64,
        room: bool,
    ) -> Option<PublishError> {
        match self.publish_refusal(tag, payload, now) {
            Some(error) => Some(error),
            None => if room {
                None
            } else {
                Some(PublishError::Full)
            },
        }
    }

    /// The state after the message `id` was seen at `now`.
    pub open spec fn saw(self, id: MessageId, now: u64) -> GossipView {
        GossipView {
            seen: self.seen.insert(id, saturating_add_u64(now, self.limits.seen_window_ms)),
            ..self
        }
    }

    /// The window of `peer` once it has sent one more message at `now`:
    /// the running one with one more message, or a new one where none runs.
    pub open spec fn rate_after(self, peer: PeerId, now: u64) -> RateWindow {
        if self.rates.contains_key(peer) && self.rates[peer].started <= now && now
            - self.rates[peer].started < self.limits.rate_window_ms {
            RateWindow {
                started: self.rates[peer].started,
                count: if self.rates[peer].count == u32::MAX {
                    u32::MAX
                } else {
                    (self.rates[peer].count + 1) as u32
                },
            }
        } else {
            RateWindow { started: now, count: 1 }
        }
    }

    /// What becomes of the message with `payload` that `peer` sent under
    /// the topic `topic_hash` at `now`.
    pub open spec fn inbound_verdict(
        self,
        peer: PeerId,
        source_eligible: bool,
        topic_hash: Seq<char>,
        payload: Seq<u8>,
        now: u64,
    ) -> InboundVerdict {
        match self.topics.subscribed_tag_of(topic_hash) {
            None => InboundVerdict::UnknownTopic,
            Some(tag) => if !source_eligible {
                InboundVerdict::SourceNotEligible
            } else if self.rate_after(peer, now).count > self.limits.max_messages_per_window {
                InboundVerdict::RateLimited
            } else if self.is_seen(MessageId::spec_of(payload), now) {
                InboundVerdict::Duplicate
            } else {
                InboundVerdict::Deliver(tag)
            },
        }
    }

    /// The state after that message came in: a message of an eligible peer
    /// on a known topic counts against the peer's rate, and a message that
    /// is delivered is seen and awaits its verdict.
    pub open spec fn received(
        self,
        peer: PeerId,
        source_eligible: bool,
        topic_hash: Seq<char>,
        payload: Seq<u8>,
        now: u64,
    ) -> GossipView {
        match self.inbound_verdict(peer, source_eligible, topic_hash, payload, now) {
            InboundVerdict::UnknownTopic => self,
            InboundVerdict::SourceNotEligible => self,
            InboundVerdict::RateLimited => GossipView {
                rates: self.rates.insert(peer, self.rate_after(peer, now)),
                ..self
            },
            InboundVerdict::Duplicate => GossipView {
                rates: self.rates.insert(peer, self.rate_after(peer, now)),
                ..self
            },
            InboundVerdict::Deliver(tag) => GossipView {
                rates: self.rates.insert(peer, self.rate_after(peer, now)),
                seen: self.seen.insert(
                    MessageId::spec_of(payload),
                    saturating_add_u64(now, self.limits.seen_window_ms),
                ),
                pending: self.pending.insert(
                    MessageId::spec_of(payload),
                    PendingView { source: peer, tag, payload },
                ),
                ..self
            },
        }
    }

    /// What `peer` subscribes to.
    pub open spec fn topics_of(self, peer: PeerId) -> TopicSet {
        if self.subscriptions.contains_key(peer) {
            self.subscriptions[peer]
        } else {
            TopicSet { new_tx: false, tx_preconfirmations: false }
        }
    }

    /// Whether `peer` subscribes to the topic of `tag`.
    pub open spec fn subscribed(self, peer: PeerId, tag: GossipTopicTag) -> bool {
        self.topics_of(peer).spec_has(tag)
    }

    /// The state after `peer` subscribed to, or unsubscribed from, the
    /// topic that goes by `topic_hash`.
    pub open spec fn subscription_changed(
        self,
        peer: PeerId,
        topic_hash: Seq<char>,
        subscribed: bool,
    ) -> GossipView {
        match self.topics.tag_of(topic_hash) {
            Some(tag) => GossipView {
                subscriptions: self.subscriptions.insert(
                    peer,
                    self.topics_of(peer).spec_with(tag, subscribed),
                ),
                ..self
            },
            None => self,
        }
    }

    /// The state after `peer` disconnected.
    pub open spec fn peer_gone(self, peer: PeerId) -> GossipView {
        GossipView {
            subscriptions: self.subscriptions.remove(peer),
            rates: self.rates.remove(peer),
            ..self
        }
    }

    /// The change of score that a verdict on the message `id` earns its
    /// sender.
    pub open spec fn verdict_delta(
        self,
        id: MessageId,
        acceptance: GossipsubMessageAcceptance,
    ) -> i64 {
        if !self.pending.contains_key(id) {
            0
        } else {
            match acceptance {
                GossipsubMessageAcceptance::Accept => self.limits.accept_delta,
                GossipsubMessageAcceptance::Reject => self.limits.reject_delta,
                GossipsubMessageAcceptance::Ignore => 0,
            }
        }
    }

    /// Whether a verdict sends the message `id` on to the mesh: only an
    /// acceptance of a message that awaits its verdict does.
    pub open spec fn forwards(self, id: MessageId, acceptance: GossipsubMessageAcceptance) -> bool {
        self.pending.contains_key(id) && acceptance == GossipsubMessageAcceptance::Accept
    }

    /// The state after the embedder gave its verdict on the message `id`.
    pub open spec fn judged(self, id: MessageId) -> GossipView {
        GossipView { pending: self.pending.remove(id), ..self }
    }

    /// The messages that are forgotten at `now`.
    pub open spec fn stale(self, now: u64) -> Set<MessageId> {
        Set::new(|id: MessageId| self.seen.contains_key(id) && self.seen[id] <= now)
    }

    /// The state after the stale messages were forgotten at `now`.
    pub open spec fn pruned(self, now: u64) -> GossipView {
        GossipView {
            seen: self.seen.remove_keys(self.stale(now)),
            pending: self.pending.remove_keys(self.stale(now)),
            ..self
        }
    }

    /// The mesh of a topic among `eligible`: the first subscribers in
    /// order, as many as the mesh holds.
    pub open spec fn mesh_among(self, eligible: Seq<PeerId>, tag: GossipTopicTag) -> Seq<PeerId>
        decreases eligible.len(),
    {
        if eligible.len() == 0 {
            Seq::empty()
        } else {
            let rest = self.mesh_among(eligible.drop_last(), tag);
            if self.subscribed(eligible.last(), tag) && rest.len() < self.limits.mesh_size {
                rest.push(eligible.last())
            } else {
                rest
            }
        }
    }

    /// The peers that a message of `tag` goes to: the mesh without the
    /// peer it came from.
    pub open spec fn targets(
        self,
        eligible: Seq<PeerId>,
        tag: GossipTopicTag,
        source: Option<PeerId>,
    ) -> Seq<PeerId> {
        without(self.mesh_among(eligible, tag), source)
    }
}

/// A payload that was published or delivered counts as seen until its
/// window has passed, whoever sends it: publishing it again is refused as
/// a duplicate, and so is delivering it again.
pub proof fn lemma_seen_is_duplicate(
    v: GossipView,
    tag: GossipTopicTag,
    payload: Seq<u8>,
    peer: PeerId,
    topic_hash: Seq<char>,
    first: u64,
    later: u64,
)
    requires
        v.topics.subscribes_to(tag),
        first <= later < saturating_add_u64(first, v.limits.seen_window_ms),
    ensures
        v.saw(MessageId::spec_of(payload), first).publish_refusal(tag, payload, later) == Some(
            PublishError::Duplicate,
        ),
        v.inbound_verdict(peer, true, topic_hash, payload, first) is Deliver ==> v.received(
            peer,
            true,
            topic_hash,
            payload,
            first,
        ).publish_refusal(tag, payload, later) == Some(PublishError::Duplicate),
        !(v.saw(MessageId::spec_of(payload), first).inbound_verdict(
            peer,
            true,
            topic_hash,
            payload,
            later,
        ) is Deliver),
{
}

/// A message that the embedder rejects or ignores is not sent on, and a
/// message is sent on at most once.
pub proof fn lemma_only_accepted_is_forwarded(
    v: GossipView,
    id: MessageId,
    acceptance: GossipsubMessageAcceptance,
)
    ensures
        acceptance != GossipsubMessageAcceptance::Accept ==> !v.forwards(id, acceptance),
        !v.judged(id).forwards(id, acceptance),
{
}

/// The mesh holds only subscribers among the eligible peers, and no more
/// than its size.
pub proof fn lemma_mesh(v: GossipView, eligible: Seq<PeerId>, tag: GossipTopicTag)
    ensures
        v.mesh_among(eligible, tag).len() <= v.limits.mesh_size,
        v.mesh_among(eligible, tag).len() <= eligible.len(),
        forall|i: int|
            0 <= i < v.mesh_among(eligible, tag).len() ==> eligible.contains(
                #[trigger] v.mesh_among(eligible, tag)[i],
            ) && v.subscribed(v.mesh_among(eligible, tag)[i], tag),
    decreases eligible.len(),
{
    let mesh = v.mesh_among(eligible, tag);
    if eligible.len() > 0 {
        let rest = v.mesh_among(eligible.drop_last(), tag);
        lemma_mesh(v, eligible.drop_last(), tag);
        assert forall|i: int| 0 <= i < mesh.len() implies eligible.contains(#[trigger] mesh[i])
            && v.subscribed(mesh[i], tag) by {
            if i < rest.len() {
                assert(mesh[i] == rest[i]);
                assert(eligible.drop_last().contains(rest[i]));
                let j = choose|j: int|
                    0 <= j < eligible.drop_last().len() && eligible.drop_last()[j] == rest[i];
                assert(eligible[j] == mesh[i]);
            } else {
                assert(mesh[i] == eligible[eligible.len() - 1]);
            }
        }
    }
}

/// The mesh of a topic depends on the subscriptions and on the size of the
/// mesh, and on nothing else in the state.
pub proof fn lemma_mesh_depends_on_subscriptions(
    v: GossipView,
    w: GossipView,
    eligible: Seq<PeerId>,
    tag: GossipTopicTag,
)
    requires
        v.subscriptions == w.subscriptions,
        v.limits == w.limits,
    ensures
        v.mesh_among(eligible, tag) == w.mesh_among(eligible, tag),
    decreases eligible.len(),
{
    if eligible.len() > 0 {
        lemma_mesh_depends_on_subscriptions(v, w, eligible.drop_last(), tag);
    }
}

/// The targets of a message never hold the peer it came from, and hold
/// none but members of the mesh.
pub proof fn lemma_without(peers: Seq<PeerId>, excluded: PeerId)
    ensures
        !without(peers, Some(excluded)).contains(excluded),
        forall|i: int|
            0 <= i < without(peers, Some(excluded)).len() ==> peers.contains(
                #[trigger] without(peers, Some(excluded))[i],
            ),
    decreases peers.len(),
{
    let all = without(peers, Some(excluded));
    if peers.len() > 0 {
        let rest = without(peers.drop_last(), Some(excluded));
        lemma_without(peers.drop_last(), excluded);
        if all.contains(excluded) {
            let i = choose|i: int| 0 <= i < all.len() && all[i] == excluded;
            if i < rest.len() {
                assert(rest[i] == excluded);
            }
        }
        assert forall|i: int| 0 <= i < all.len() implies peers.contains(#[trigger] all[i]) by {
            if i < rest.len() {
                assert(all[i] == rest[i]);
                assert(peers.drop_last().contains(rest[i]));
                let j = choose|j: int|
                    0 <= j < peers.drop_last().len() && peers.drop_last()[j] == rest[i];
                assert(peers[j] == all[i]);
            } else {
                assert(all[i] == peers[peers.len() - 1]);
            }
        }
    }
}

/// A message that is to go out to the mesh of its topic.
#[derive(Debug)]
pub struct Publication {
    pub tag: GossipTopicTag,
    pub topic_hash: String,
    pub message_id: MessageId,
    pub payload: Vec<u8>,
}

/// A message that came in and goes to the embedder.
#[derive(Debug)]
pub struct InboundGossip {
    pub message_id: MessageId,
    pub peer: PeerId,
    pub topic_hash: String,
    pub message: GossipsubMessage,
}

/// What became of a message that came in.
#[derive(Debug)]
pub enum InboundOutcome {
    UnknownTopic,
    SourceNotEligible,
    /// Dropped; the sender's score is to change by `penalty`.
    RateLimited { penalty: i64 },
    Duplicate,
    Deliver(InboundGossip),
}

/// Notice that a peer subscribed to a topic.
#[derive(Clone, Copy, Debug, PartialEq, Eq)]
pub struct NewSubscription {
    pub peer: PeerId,
    pub tag: GossipTopicTag,
}

/// What follows from the embedder's verdict on a message: whether the
/// message goes on, and by how much its sender's score changes.
#[derive(Debug)]
pub struct ValidationOutcome {
    pub forward: Option<Publication>,
    /// The peer that the message came from, where the message awaited its
    /// verdict.
    pub source: Option<PeerId>,
    pub score_delta: i64,
}

/// The gossip layer of one node.
pub struct GossipLayer {
    topics: GossipsubTopics,
    limits: GossipLimits,
    seen: Table<MessageId, u64>,
    pending: Table<MessageId, PendingMessage>,
    subscriptions: Table<PeerId, TopicSet>,
    rates: Table<PeerId, RateWindow>,
}

impl View for GossipLayer {
    type V = GossipView;

    closed spec fn view(&self) -> GossipView {
        GossipView {
            topics: self.topics@,
            limits: self.limits,
            seen: self.seen@,
            pending: pending_views(self.pending@),
            subscriptions: self.subscriptions@,
            rates: self.rates@,
        }
    }
}

impl GossipLayer {
    /// The representation invariant.
    pub closed spec fn wf(&self) -> bool {
        &&& self.topics.wf()
        &&& self.seen.wf()
        &&& self.pending.wf()
        &&& self.subscriptions.wf()
        &&& self.rates.wf()
    }

    /// A layer that has seen nothing and knows of no peer.
    pub fn new(topics: GossipsubTopics, limits: GossipLimits) -> (layer: GossipLayer)
        requires
            topics.wf(),
        ensures
            layer.wf(),
            layer@ == (GossipView {
                topics: topics@,
                limits,
                seen: Map::empty(),
                pending: Map::empty(),
                subscriptions: Map::empty(),
                rates: Map::empty(),
            }),
    {
        let layer = GossipLayer {
            topics,
            limits,
            seen: Table::new(),
            pending: Table::new(),
            subscriptions: Table::new(),
            rates: Table::new(),
        };
        assert(layer@.pending =~= Map::<MessageId, PendingView>::empty());
        layer
    }

    /// The node's topics.
    pub fn topics(&self) -> (topics: &GossipsubTopics)
        requires
            self.wf(),
        ensures
            topics.wf(),
            topics@ == self@.topics,
    {
        &self.topics
    }

    /// The numbers that govern gossip.
    pub fn limits(&self) -> (limits: GossipLimits)
        ensures
            limits == self@.limits,
    {
        self.limits
    }

    /// Whether the message `id` counts as seen at `now`.
    pub fn is_seen(&self, id: &MessageId, now: u64) -> (b: bool)
        requires
            self.wf(),
        ensures
            b == self@.is_seen(*id, now),
    {
        match self.seen.get(id) {
            Some(until) => now < *until,
            None => false,
        }
    }

    /// How many messages await the embedder's verdict.
    pub fn pending_len(&self) -> (n: usize)
        requires
            self.wf(),
        ensures
            n == self@.pending.dom().len(),
    {
        proof {
            assert(self@.pending.dom() =~= self.pending@.dom());
        }
        self.pending.len()
    }

    /// Whether `peer` subscribes to the topic of `tag`.
    pub fn is_subscribed(&self, peer: &PeerId, tag: GossipTopicTag) -> (b: bool)
        requires
            self.wf(),
        ensures
            b == self@.subscribed(*peer, tag),
    {
        match self.subscriptions.get(peer) {
            Some(set) => set.has(tag),
            None => false,
        }
    }

    /// Publishes what `request` holds: the payload goes out under the
    /// topic of its kind and counts as seen from `now` on. Every message
    /// of a topic that the node does not subscribe to is refused; a
    /// payload that counts as seen already is refused as a duplicate; and
    /// any other is refused where the transport has no `room` for it.
    pub fn publish(&mut self, request: &GossipsubBroadcastRequest, room: bool, now: u64) -> (r:
        Result<Publication, PublishError>)
        requires
            old(self).wf(),
        ensures
            final(self).wf(),
            match r {
                Ok(publication) => {
                    &&& old(self)@.publish_refusal_with(
                        request.spec_tag(),
                        request.spec_payload(),
                        now,
                        room,
                    ) is None
                    &&& publication.tag == request.spec_tag()
                    &&& publication.topic_hash@ == old(self)@.topics.hash_of(request.spec_tag())
                    &&& publication.message_id == MessageId::spec_of(request.spec_payload())
                    &&& publication.payload@ == request.spec_payload()
                    &&& final(self)@ == old(self)@.saw(publication.message_id, now)
                },
                Err(e) => old(self)@.publish_refusal_with(
                    request.spec_tag(),
                    request.spec_payload(),
                    now,
                    room,
                ) == Some(e) && final(self)@ == old(self)@,
            },
    {
        let tag = request.tag();
        if !self.topics.subscribes_to(tag) {
            return Err(PublishError::NotSubscribed);
        }
        let payload = request.payload();
        let message_id = MessageId::of(&payload);
        if self.is_seen(&message_id, now) {
            return Err(PublishError::Duplicate);
        }
        if !room {
            return Err(PublishError::Full);
        }
        let until = add_saturating_u64(now, self.limits.seen_window_ms);
        let _ = self.seen.insert(message_id, until);
        let topic_hash = self.topics.get_gossipsub_topic_hash(tag);
        Ok(Publication { tag, topic_hash, message_id, payload })
    }

    /// The window of `peer` once it has sent one more message at `now`.
    fn rate_after(&self, peer: &PeerId, now: u64) -> (window: RateWindow)
        requires
            self.wf(),
        ensures
            window == self@.rate_after(*peer, now),
    {
        match self.rates.get(peer) {
            Some(running) => {
                if running.started <= now && now - running.started < self.limits.rate_window_ms {
                    RateWindow {
                        started: running.started,
                        count: if running.count == u32::MAX {
                            u32::MAX
                        } else {
                            running.count + 1
                        },
                    }
                } else {
                    RateWindow { started: now, count: 1 }
                }
            },
            None => RateWindow { started: now, count: 1 },
        }
    }

    /// Takes a message with `payload` that `peer` sent under the topic
    /// `topic_hash` at `now`. A message of a topic that the node does not
    /// subscribe to is dropped, and so is one of a peer that is not
    /// eligible, one beyond the peer's rate, and one whose payload counts
    /// as seen. Any other message is handed out for the embedder, counts
    /// as seen from now on and awaits the embedder's verdict.
    pub fn on_inbound_message(
        &mut self,
        peer: PeerId,
        source_eligible: bool,
        topic_hash: &String,
        payload: Vec<u8>,
        now: u64,
    ) -> (outcome: InboundOutcome)
        requires
            old(self).wf(),
        ensures
            final(self).wf(),
            final(self)@ == old(self)@.received(peer, source_eligible, topic_hash@, payload@, now),
            match outcome {
                InboundOutcome::UnknownTopic => old(self)@.inbound_verdict(
                    peer,
                    source_eligible,
                    topic_hash@,
                    payload@,
                    now,
                ) is UnknownTopic,
                InboundOutcome::SourceNotEligible => old(self)@.inbound_verdict(
                    peer,
                    source_eligible,
                    topic_hash@,
                    payload@,
                    now,
                ) is SourceNotEligible,
                InboundOutcome::RateLimited { penalty } => old(self)@.inbound_verdict(
                    peer,
                    source_eligible,
                    topic_hash@,
                    payload@,
                    now,
                ) is RateLimited && penalty == old(self)@.limits.rate_penalty,
                InboundOutcome::Duplicate => old(self)@.inbound_verdict(
                    peer,
                    source_eligible,
                    topic_hash@,
                    payload@,
                    now,
                ) is Duplicate,
                InboundOutcome::Deliver(gossip) => {
                    &&& old(self)@.inbound_verdict(peer, source_eligible, topic_hash@, payload@, now)
                        == InboundVerdict::Deliver(gossip.message.spec_tag())
                    &&& gossip.message_id == MessageId::spec_of(payload@)
                    &&& gossip.peer == peer
                    &&& gossip.topic_hash@ == topic_hash@
                    &&& gossip.message.spec_payload() == payload@
                },
            },
    {
        let tag = match self.topics.get_subscribed_tag(topic_hash) {
            None => {
                return InboundOutcome::UnknownTopic;
            },
            Some(tag) => tag,
        };
        if !source_eligible {
            return InboundOutcome::SourceNotEligible;
        }
        let window = self.rate_after(&peer, now);
        let message_id = MessageId::of(&payload);
        let seen = self.is_seen(&message_id, now);
        let _ = self.rates.insert(peer, window);
        if window.count > self.limits.max_messages_per_window {
            return InboundOutcome::RateLimited { penalty: self.limits.rate_penalty };
        }
        if seen {
            return InboundOutcome::Duplicate;
        }
        let until = add_saturating_u64(now, self.limits.seen_window_ms);
        let _ = self.seen.insert(message_id, until);
        let message = GossipsubMessage::decode(tag, clone_bytes(&payload));
        let ghost held = PendingView { source: peer, tag, payload: payload@ };
        let _ = self.pending.insert(message_id, PendingMessage { source: peer, tag, payload });
        proof {
            assert(pending_views(self.pending@) =~= old(self)@.pending.insert(message_id, held));
        }
        InboundOutcome::Deliver(
            InboundGossip {
                message_id,
                peer,
                topic_hash: crate::bytes::clone_text(topic_hash),
                message,
            },
        )
    }

    /// Notes that `peer` subscribed to the topic `topic_hash`, and
    /// announces it where the topic is one of the two.
    pub fn on_subscription(&mut self, peer: PeerId, topic_hash: &String) -> (event: Option<
        NewSubscription,
    >)
        requires
            old(self).wf(),
        ensures
            final(self).wf(),
            final(self)@ == old(self)@.subscription_changed(peer, topic_hash@, true),
            event == match old(self)@.topics.tag_of(topic_hash@) {
                Some(tag) => Some(NewSubscription { peer, tag }),
                None => None,
            },
    {
        match self.topics.get_gossipsub_tag(topic_hash) {
            None => None,
            Some(tag) => {
                let current = match self.subscriptions.get(&peer) {
                    Some(set) => *set,
                    None => TopicSet { new_tx: false, tx_preconfirmations: false },
                };
                let _ = self.subscriptions.insert(peer, current.with(tag, true));
                Some(NewSubscription { peer, tag })
            },
        }
    }

    /// Notes that `peer` unsubscribed from the topic `topic_hash`.
    pub fn on_unsubscription(&mut self, peer: PeerId, topic_hash: &String)
        requires
            old(self).wf(),
        ensures
            final(self).wf(),
            final(self)@ == old(self)@.subscription_changed(peer, topic_hash@, false),
    {
        match self.topics.get_gossipsub_tag(topic_hash) {
            None => {},
            Some(tag) => {
                let current = match self.subscriptions.get(&peer) {
                    Some(set) => *set,
                    None => TopicSet { new_tx: false, tx_preconfirmations: false },
                };
                let _ = self.subscriptions.insert(peer, current.with(tag, false));
            },
        }
    }

    /// Forgets what `peer`, which has disconnected, subscribed to and how
    /// much it sent.
    pub fn on_peer_disconnected(&mut self, peer: &PeerId)
        requires
            old(self).wf(),
        ensures
            final(self).wf(),
            final(self)@ == old(self)@.peer_gone(*peer),
    {
        let _ = self.subscriptions.remove(peer);
        let _ = self.rates.remove(peer);
    }

    /// Takes the embedder's verdict on the message `message_id`. The
    /// message awaits its verdict no longer. An accepted message goes on
    /// to the mesh and earns its sender the reward; a rejected one goes
    /// nowhere and costs its sender the penalty; an ignored one goes
    /// nowhere and changes nothing. A verdict on a message that does not
    /// await one has no effect.
    pub fn report_validation(
        &mut self,
        message_id: &MessageId,
        acceptance: GossipsubMessageAcceptance,
    ) -> (outcome: ValidationOutcome)
        requires
            old(self).wf(),
        ensures
            final(self).wf(),
            final(self)@ == old(self)@.judged(*message_id),
            outcome.score_delta == old(self)@.verdict_delta(*message_id, acceptance),
            outcome.forward is Some == old(self)@.forwards(*message_id, acceptance),
            outcome.source == if old(self)@.pending.contains_key(*message_id) {
                Some(old(self)@.pending[*message_id].source)
            } else {
                None::<PeerId>
            },
            outcome.forward matches Some(publication) ==> {
                &&& publication.message_id == *message_id
                &&& publication.tag == old(self)@.pending[*message_id].tag
                &&& publication.topic_hash@ == old(self)@.topics.hash_of(publication.tag)
                &&& publication.payload@ == old(self)@.pending[*message_id].payload
            },
    {
        match self.pending.remove(message_id) {
            None => {
                proof {
                    assert(pending_views(self.pending@) =~= old(self)@.pending.remove(*message_id));
                }
                ValidationOutcome { forward: None, source: None, score_delta: 0 }
            },
            Some(message) => {
                proof {
                    assert(pending_views(self.pending@) =~= old(self)@.pending.remove(*message_id));
                    assert(old(self)@.pending[*message_id] == message@);
                }
                let source = Some(message.source);
                match acceptance {
                    GossipsubMessageAcceptance::Accept => {
                        let topic_hash = self.topics.get_gossipsub_topic_hash(message.tag);
                        ValidationOutcome {
                            forward: Some(
                                Publication {
                                    tag: message.tag,
                                    topic_hash,
                                    message_id: *message_id,
                                    payload: message.payload,
                                },
                            ),
                            source,
                            score_delta: self.limits.accept_delta,
                        }
                    },
                    GossipsubMessageAcceptance::Reject => ValidationOutcome {
                        forward: None,
                        source,
                        score_delta: self.limits.reject_delta,
                    },
                    GossipsubMessageAcceptance::Ignore => ValidationOutcome {
                        forward: None,
                        source,
                        score_delta: 0,
                    },
                }
            },
        }
    }

    /// The peers that a message of `tag` goes to: among `eligible`, the
    /// first subscribers of the topic in order, as many as the mesh holds,
    /// without the peer the message came from.
    pub fn mesh_targets(&self, eligible: &Vec<PeerId>, tag: GossipTopicTag, source: Option<PeerId>) -> (targets:
        Vec<PeerId>)
        requires
            self.wf(),
        ensures
            targets@ == self@.targets(eligible@, tag, source),
    {
        let mut mesh: Vec<PeerId> = Vec::new();
        let mut i: usize = 0;
        assert(eligible@.subrange(0, 0) =~= Seq::<PeerId>::empty());
        while i < eligible.len()
            invariant
                self.wf(),
                i <= eligible@.len(),
                mesh@ == self@.mesh_among(eligible@.subrange(0, i as int), tag),
            decreases eligible@.len() - i,
        {
            proof {
                let prefix = eligible@.subrange(0, i + 1);
                assert(prefix.drop_last() =~= eligible@.subrange(0, i as int));
                assert(prefix.last() == eligible@[i as int]);
            }
            if self.is_subscribed(&eligible[i], tag) && mesh.len() < self.limits.mesh_size as usize {
                mesh.push(eligible[i]);
            }
            i = i + 1;
        }
        assert(eligible@.subrange(0, i as int) =~= eligible@);
        let mut targets: Vec<PeerId> = Vec::new();
        let mut j: usize = 0;
        assert(mesh@.subrange(0, 0) =~= Seq::<PeerId>::empty());
        while j < mesh.len()
            invariant
                j <= mesh@.len(),
                targets@ == without(mesh@.subrange(0, j as int), source),
            decreases mesh@.len() - j,
        {
            proof {
                let prefix = mesh@.subrange(0, j + 1);
                assert(prefix.drop_last() =~= mesh@.subrange(0, j as int));
                assert(prefix.last() == mesh@[j as int]);
            }
            let excluded = match &source {
                Some(peer) => peer.same(&mesh[j]),
                None => false,
            };
            if !excluded {
                targets.push(mesh[j]);
            }
            j = j + 1;
        }
        assert(mesh@.subrange(0, j as int) =~= mesh@);
        targets
    }

    /// The position of the first message that is stale at `now`.
    fn first_stale(&self, now: u64) -> (r: Option<usize>)
        requires
            self.wf(),
        ensures
            match r {
                Some(i) => i < self.seen.key_seq().len() && self@.stale(now).contains(
                    self.seen.key_seq()[i as int],
                ),
                None => self@.stale(now) == Set::<MessageId>::empty(),
            },
    {
        let n = self.seen.len();
        let mut i: usize = 0;
        proof {
            self.seen.lemma_contents();
        }
        while i < n
            invariant
                self.wf(),
                n == self.seen.key_seq().len(),
                i <= n,
                forall|j: int|
                    0 <= j < i ==> !self@.stale(now).contains(#[trigger] self.seen.key_seq()[j]),
            decreases n - i,
        {
            proof {
                self.seen.lemma_contents();
            }
            if *self.seen.value_at(i) <= now {
                return Some(i);
            }
            i = i + 1;
        }
        proof {
            self.seen.lemma_contents();
            assert forall|id: MessageId| !self@.stale(now).contains(id) by {
                if self@.seen.contains_key(id) {
                    let j = self.seen.key_seq().index_of(id);
                    assert(self.seen.key_seq()[j] == id);
                }
            }
            assert(self@.stale(now) =~= Set::<MessageId>::empty());
        }
        None
    }

    /// Forgets the messages whose window has passed at `now`, together
    /// with what of them still awaited a verdict.
    pub fn prune(&mut self, now: u64)
        requires
            old(self).wf(),
        ensures
            final(self).wf(),
            final(self)@ == old(self)@.pruned(now),
    {
        let ghost before = self@;
        loop
            invariant_except_break
                self.wf(),
                self@.topics == before.topics,
                self@.limits == before.limits,
                self@.subscriptions == before.subscriptions,
                self@.rates == before.rates,
                forall|id: MessageId| #[trigger]
                    self@.seen.contains_key(id) ==> before.seen.contains_key(id) && self@.seen[id]
                        == before.seen[id],
                forall|id: MessageId| #[trigger]
                    before.seen.contains_key(id) ==> self@.seen.contains_key(id)
                        || before.stale(now).contains(id),
                forall|id: MessageId| #[trigger]
                    self@.pending.contains_key(id) ==> before.pending.contains_key(id)
                        && self@.pending[id] == before.pending[id] && !(before.stale(now).contains(
                        id,
                    ) && !self@.seen.contains_key(id)),
                forall|id: MessageId| #[trigger]
                    before.pending.contains_key(id) ==> self@.pending.contains_key(id)
                        || before.stale(now).contains(id),
            ensures
                self.wf(),
                self@ == before.pruned(now),
            decreases self@.seen.dom().len(),
        {
            match self.first_stale(now) {
                None => {
                    proof {
                        assert forall|id: MessageId|
                            self@.seen.contains_key(id) <==> before.seen.remove_keys(
                                before.stale(now),
                            ).contains_key(id) by {
                            if self@.seen.contains_key(id) {
                                assert(!self@.stale(now).contains(id));
                            }
                        }
                        assert(self@.seen =~= before.seen.remove_keys(before.stale(now)));
                        assert forall|id: MessageId|
                            self@.pending.contains_key(id) <==> before.pending.remove_keys(
                                before.stale(now),
                            ).contains_key(id) by {
                            if self@.pending.contains_key(id) && before.stale(now).contains(id) {
                                assert(self@.seen.contains_key(id));
                                assert(!self@.stale(now).contains(id));
                            }
                        }
                        assert(self@.pending =~= before.pending.remove_keys(before.stale(now)));
                    }
                    break ;
                },
                Some(i) => {
                    proof {
                        self.seen.lemma_contents();
                    }
                    let ghost held = self.pending@;
                    let ghost current = self@;
                    let (id, _) = self.seen.remove_at(i);
                    let _ = self.pending.remove(&id);
                    proof {
                        self.seen.lemma_contents();
                        assert(pending_views(self.pending@) =~= pending_views(held).remove(id));
                        assert(self@.pending == current.pending.remove(id));
                        assert(self@.seen == current.seen.remove(id));
                        assert forall|other: MessageId| #[trigger]
                            self@.pending.contains_key(other) implies before.pending.contains_key(
                            other,
                        ) && self@.pending[other] == before.pending[other] && !(before.stale(
                            now,
                        ).contains(other) && !self@.seen.contains_key(other)) by {
                            assert(current.pending.contains_key(other));
                            assert(other != id);
                        }
                    }
                },
            }
        }
    }
}

} // verus!
