//! The service as a mathematical state machine.
//!
//! A state is a [`ServiceView`]. Every report of the transport and every
//! command of the embedder takes it to the next state by a function of
//! this module, which also says what is queued for the transport and for
//! the embedder on the way.

use crate::config::Config;
use crate::gossipsub::layer::{GossipView, InboundVerdict, PublishError};
use crate::gossipsub::topics::{GossipTopicTag, GossipsubTopicsView};
use crate::ids::{MessageId, MultiaddrView, PeerId};
use crate::p2p_service::events::{
    dial_actions, dials_of, optional_dial, reply_actions, ActionView, EventView,
    IncomingConnectionError,
};
use crate::peer_manager::info::{address_views, BlockHeight};
use crate::peer_manager::manager::roster_of;
use crate::peer_manager::model::{Admission, PeerManagerView, RedialView};
use crate::request_response::inbound::{InboundRequestId, InboundView};
use crate::request_response::messages::{
    RequestKind, RequestResponseError, RequestView, ResponseError, ResponseMessage,
    ResponseSender, SendError,
};
use crate::request_response::outbound::{
    response_result, OutboundRequestId, OutboundView, ReplyDelivery,
};
use crate::types::GossipsubMessageAcceptance;
use vstd::prelude::*;

verus! {

/// The state of the service.
pub struct ServiceView {
    /// The digest that a peer must share to connect.
    pub checksum: Seq<u8>,
    pub enable_mdns: bool,
    /// The dials with which the service starts.
    pub startup_dials: Seq<RedialView>,
    pub peers: PeerManagerView,
    pub gossip: GossipView,
    pub outbound: OutboundView,
    pub inbound: InboundView,
    /// The actions that await the transport, oldest first.
    pub actions: Seq<ActionView>,
    /// The events that await the embedder, oldest first.
    pub events: Seq<EventView>,
    /// How many actions may wait when a command of the embedder adds one.
    pub queue_capacity: usize,
    /// This node's height.
    pub block_height: BlockHeight,
    pub heartbeat_interval: u64,
    /// When the last heartbeat was sent.
    pub last_heartbeat: Option<u64>,
    /// The change of score for a response of the wrong kind.
    pub mismatch_delta: i64,
}

impl ServiceView {
    /// The state with the actions `added` at the end of the queue.
    pub open spec fn with_actions(self, added: Seq<ActionView>) -> ServiceView {
        ServiceView { actions: self.actions + added, ..self }
    }

    /// The state with `event` at the end of the queue.
    pub open spec fn with_event(self, event: EventView) -> ServiceView {
        ServiceView { events: self.events.push(event), ..self }
    }

    /// The state after the service was started: the startup dials are
    /// queued, and local discovery where it is enabled.
    pub open spec fn started(self) -> ServiceView {
        self.with_actions(
            dial_actions(self.startup_dials) + if self.enable_mdns {
                seq![ActionView::StartDiscovery]
            } else {
                Seq::empty()
            },
        )
    }

    /// What the peer that connected is told: nothing where it is kept, or
    /// why it is not.
    pub open spec fn connection_verdict(self, peer: PeerId, remote_checksum: Seq<u8>, now: u64) -> Result<
        (),
        IncomingConnectionError,
    > {
        if remote_checksum != self.checksum {
            Err(IncomingConnectionError::Transport)
        } else {
            match self.peers.admission(peer, now) {
                Admission::Accept => Ok(()),
                Admission::Reject(reason) => Err(IncomingConnectionError::Denied(reason)),
            }
        }
    }

    /// The state after a connection with `peer` was established. A peer
    /// that is not kept is disconnected and the embedder hears nothing of
    /// it; a peer that is kept has a record, and the embedder hears of it
    /// where it was not connected before.
    pub open spec fn connection_established(
        self,
        peer: PeerId,
        addresses: Seq<MultiaddrView>,
        remote_checksum: Seq<u8>,
        now: u64,
    ) -> ServiceView {
        if self.connection_verdict(peer, remote_checksum, now) is Err {
            self.with_actions(seq![ActionView::Disconnect(peer)])
        } else {
            ServiceView {
                peers: self.peers.established(peer, addresses, now),
                events: if self.peers.peers.contains_key(peer) {
                    self.events
                } else {
                    self.events.push(EventView::PeerConnected(peer))
                },
                ..self
            }
        }
    }

    /// Whether the close of a connection with `peer`, after which
    /// `remaining_established` connections with it remain, ends the
    /// peer's stay: it was connected and no connection remains.
    pub open spec fn connection_ends(self, peer: PeerId, remaining_established: u32) -> bool {
        remaining_established == 0 && self.peers.peers.contains_key(peer)
    }

    /// The state after the last connection with `peer` was closed: the
    /// peer's record goes, what is known of its gossip goes, every request
    /// put to it ends with one of `deliveries`, the embedder hears of it,
    /// and a reserved peer is dialed again.
    pub open spec fn connection_closed(
        self,
        peer: PeerId,
        now: u64,
        deliveries: Seq<ReplyDelivery>,
    ) -> ServiceView {
        {
            ServiceView {
                peers: self.peers.closed(peer, now),
                gossip: self.gossip.peer_gone(peer),
                outbound: OutboundView {
                    pending: self.outbound.pending.remove_keys(
                        self.outbound.selected(Some(peer)),
                    ),
                    ..self.outbound
                },
                events: self.events.push(EventView::PeerDisconnected(peer)),
                actions: self.actions + reply_actions(deliveries) + optional_dial(
                    self.peers.redial_after_close(peer),
                ),
                ..self
            }
        }
    }

    /// The state after a dial of `peer` failed.
    pub open spec fn dial_failed(self, peer: PeerId) -> ServiceView {
        ServiceView {
            peers: self.peers.dial_failed(peer),
            actions: self.actions + optional_dial(self.peers.redial_after_failure(peer)),
            ..self
        }
    }

    /// The state after a heartbeat of `peer`.
    pub open spec fn heartbeat_received(
        self,
        peer: PeerId,
        block_height: BlockHeight,
        now: u64,
    ) -> ServiceView {
        ServiceView {
            peers: self.peers.heartbeat(peer, block_height, now),
            events: if self.peers.peers.contains_key(peer) {
                self.events.push(
                    EventView::PeerInfoUpdated { peer_id: peer, block_height: Some(block_height) },
                )
            } else {
                self.events
            },
            ..self
        }
    }

    /// The state after `peer` identified itself.
    pub open spec fn identified(
        self,
        peer: PeerId,
        client_version: Seq<char>,
        addresses: Seq<MultiaddrView>,
    ) -> ServiceView {
        ServiceView {
            peers: self.peers.identified(peer, client_version, addresses),
            events: if self.peers.peers.contains_key(peer) {
                self.events.push(
                    EventView::PeerInfoUpdated {
                        peer_id: peer,
                        block_height: match self.peers.peers[peer].heartbeat {
                            Some(heartbeat) => Some(heartbeat.block_height),
                            None => None,
                        },
                    },
                )
            } else {
                self.events
            },
            ..self
        }
    }

    /// The state after `peer` subscribed to the topic `topic_hash`.
    pub open spec fn subscribed(self, peer: PeerId, topic_hash: Seq<char>) -> ServiceView {
        ServiceView {
            gossip: self.gossip.subscription_changed(peer, topic_hash, true),
            events: match self.gossip.topics.tag_of(topic_hash) {
                Some(tag) => self.events.push(EventView::NewSubscription { peer_id: peer, tag }),
                None => self.events,
            },
            ..self
        }
    }

    /// The state after `peer` unsubscribed from the topic `topic_hash`.
    pub open spec fn unsubscribed(self, peer: PeerId, topic_hash: Seq<char>) -> ServiceView {
        ServiceView { gossip: self.gossip.subscription_changed(peer, topic_hash, false), ..self }
    }

    /// The state after a gossip message of `peer` came in. A message that
    /// is delivered goes to the embedder; one beyond the peer's rate costs
    /// the peer, and a peer that is banned for it is disconnected.
    pub open spec fn gossip_received(
        self,
        peer: PeerId,
        topic_hash: Seq<char>,
        payload: Seq<u8>,
        now: u64,
    ) -> ServiceView {
        let eligible = self.peers.is_eligible(peer);
        let gossip = self.gossip.received(peer, eligible, topic_hash, payload, now);
        match self.gossip.inbound_verdict(peer, eligible, topic_hash, payload, now) {
            InboundVerdict::Deliver(tag) => ServiceView {
                gossip,
                events: self.events.push(
                    EventView::GossipsubMessage {
                        peer_id: peer,
                        message_id: MessageId::spec_of(payload),
                        topic_hash,
                        tag,
                        payload,
                    },
                ),
                ..self
            },
            InboundVerdict::RateLimited => ServiceView {
                gossip,
                peers: self.peers.scored(peer, self.gossip.limits.rate_penalty),
                actions: if self.peers.score_outcome(peer, self.gossip.limits.rate_penalty)
                    is Banned {
                    self.actions.push(ActionView::Disconnect(peer))
                } else {
                    self.actions
                },
                ..self
            },
            _ => ServiceView { gossip, ..self },
        }
    }

    /// The state after `peer` sent the request `request_id`. The request
    /// of an eligible peer goes to the embedder, once.
    pub open spec fn request_received(
        self,
        request_id: InboundRequestId,
        peer: PeerId,
        message: RequestView,
        kind_of_message: RequestKind,
        now: u64,
    ) -> ServiceView {
        if !self.peers.is_eligible(peer) || self.inbound.pending.contains_key(request_id) {
            self
        } else {
            ServiceView {
                inbound: self.inbound.received(request_id, peer, kind_of_message, now),
                events: self.events.push(
                    EventView::InboundRequestMessage { request_id, request_message: message },
                ),
                ..self
            }
        }
    }

    /// The state after the response to the request `request_id` came in.
    /// A pending request ends with the response, or with a type mismatch,
    /// which costs the peer a little and never bans it.
    pub open spec fn response_received(
        self,
        request_id: OutboundRequestId,
        response: ResponseMessage,
    ) -> ServiceView {
        if !self.outbound.pending.contains_key(request_id) {
            self
        } else {
            let request = self.outbound.pending[request_id];
            let result = response_result(request, response);
            ServiceView {
                outbound: self.outbound.resolved(request_id),
                peers: if result is Err {
                    self.peers.penalized(request.peer, self.mismatch_delta)
                } else {
                    self.peers
                },
                actions: self.actions.push(
                    ActionView::DeliverReply(
                        ReplyDelivery { request_id, reply_slot: request.reply_slot, result },
                    ),
                ),
                ..self
            }
        }
    }

    /// The state after the response to the request `request_id` broke the
    /// rules of the wire: a pending request ends with a protocol
    /// violation.
    pub open spec fn response_violated(self, request_id: OutboundRequestId) -> ServiceView {
        if !self.outbound.pending.contains_key(request_id) {
            self
        } else {
            ServiceView {
                outbound: self.outbound.resolved(request_id),
                actions: self.actions.push(
                    ActionView::DeliverReply(
                        ReplyDelivery {
                            request_id,
                            reply_slot: self.outbound.pending[request_id].reply_slot,
                            result: Err(ResponseError::ProtocolViolation),
                        },
                    ),
                ),
                ..self
            }
        }
    }

    /// Why a message cannot be published now, if it cannot: the node does
    /// not subscribe to its topic, or its payload counts as seen, or, if
    /// neither, the queue of actions is full.
    pub open spec fn publish_refusal(self, tag: GossipTopicTag, payload: Seq<u8>, now: u64) -> Option<
        PublishError,
    > {
        self.gossip.publish_refusal_with(
            tag,
            payload,
            now,
            self.actions.len() < self.queue_capacity,
        )
    }

    /// The state after a message was published: it counts as seen and is
    /// queued for the mesh of its topic.
    pub open spec fn published(
        self,
        tag: GossipTopicTag,
        payload: Seq<u8>,
        now: u64,
    ) -> ServiceView {
        ServiceView {
            gossip: self.gossip.saw(MessageId::spec_of(payload), now),
            actions: self.actions.push(
                ActionView::Publish {
                    tag,
                    topic_hash: self.gossip.topics.hash_of(tag),
                    message_id: MessageId::spec_of(payload),
                    payload,
                    targets: self.gossip.targets(self.peers.eligible(), tag, None),
                },
            ),
            ..self
        }
    }

    /// Why a request cannot be sent now, if it cannot.
    pub open spec fn request_refusal(self, target: Option<PeerId>) -> Option<SendError> {
        if self.outbound.closed {
            Some(SendError::Closed)
        } else if match target {
            Some(peer) => !self.peers.is_eligible(peer),
            None => self.peers.eligible().len() == 0,
        } {
            Some(SendError::NoEligiblePeer)
        } else if self.actions.len() >= self.queue_capacity {
            Some(SendError::Full)
        } else {
            self.outbound.refusal()
        }
    }

    /// The peer that a request goes to: the target where one is named,
    /// else the eligible peer that `choice` picks.
    pub open spec fn request_peer(self, target: Option<PeerId>, choice: int) -> PeerId {
        match target {
            Some(peer) => peer,
            None => self.peers.eligible()[choice % (self.peers.eligible().len() as int)],
        }
    }

    /// The state after a request was sent: it is pending with its
    /// deadline and queued for the transport.
    pub open spec fn request_sent(
        self,
        peer: PeerId,
        message: RequestView,
        kind_of_message: RequestKind,
        reply_slot: ResponseSender,
        now: u64,
    ) -> ServiceView {
        ServiceView {
            outbound: self.outbound.registered(peer, kind_of_message, reply_slot, now),
            actions: self.actions.push(
                ActionView::SendRequest { request_id: self.outbound.next_id, peer, message },
            ),
            ..self
        }
    }

    /// Why the response to the request `request_id` cannot be sent now,
    /// if it cannot.
    pub open spec fn response_refusal(self, request_id: InboundRequestId) -> Option<SendError> {
        if self.actions.len() >= self.queue_capacity {
            Some(SendError::Full)
        } else if !self.inbound.pending.contains_key(request_id) {
            Some(SendError::Closed)
        } else {
            None
        }
    }

    /// The state after the response to the request `request_id` was
    /// sent: the request is answered and the response is queued.
    pub open spec fn response_sent(
        self,
        request_id: InboundRequestId,
        response: ResponseMessage,
    ) -> ServiceView {
        ServiceView {
            inbound: self.inbound.answered(request_id),
            actions: self.actions.push(
                ActionView::SendResponse {
                    request_id,
                    peer: self.inbound.pending[request_id].peer,
                    response,
                },
            ),
            ..self
        }
    }

    /// The actions that follow from the embedder's verdict on a message
    /// of `peer`: an accepted message goes on to the mesh of its topic
    /// without the peer it came from, and a peer that the verdict bans is
    /// disconnected.
    pub open spec fn verdict_actions(
        self,
        message_id: MessageId,
        peer: PeerId,
        acceptance: GossipsubMessageAcceptance,
    ) -> Seq<ActionView> {
        let delta = self.gossip.verdict_delta(message_id, acceptance);
        let forward = if self.gossip.forwards(message_id, acceptance) {
            let held = self.gossip.pending[message_id];
            seq![
                ActionView::Publish {
                    tag: held.tag,
                    topic_hash: self.gossip.topics.hash_of(held.tag),
                    message_id,
                    payload: held.payload,
                    targets: self.gossip.targets(
                        self.peers.eligible(),
                        held.tag,
                        Some(held.source),
                    ),
                },
            ]
        } else {
            Seq::empty()
        };
        let ban = if delta != 0 && self.peers.score_outcome(peer, delta) is Banned {
            seq![ActionView::Disconnect(peer)]
        } else {
            Seq::empty()
        };
        forward + ban
    }

    /// The state after the embedder gave its verdict on the message
    /// `message_id` of `peer`.
    pub open spec fn verdict_reported(
        self,
        message_id: MessageId,
        peer: PeerId,
        acceptance: GossipsubMessageAcceptance,
    ) -> ServiceView {
        let delta = self.gossip.verdict_delta(message_id, acceptance);
        ServiceView {
            gossip: self.gossip.judged(message_id),
            peers: if delta != 0 {
                self.peers.scored(peer, delta)
            } else {
                self.peers
            },
            actions: self.actions + self.verdict_actions(message_id, peer, acceptance),
            ..self
        }
    }

    /// Whether a heartbeat is due at `now`.
    pub open spec fn heartbeat_due(self, now: u64) -> bool {
        match self.last_heartbeat {
            None => true,
            Some(last) => now >= last && now - last >= self.heartbeat_interval,
        }
    }

    /// The actions of a tick: the due request that is first in line gets
    /// its timeout, and a heartbeat goes out where one is due.
    pub open spec fn tick_actions(self, now: u64) -> Seq<ActionView> {
        let timeout = match self.outbound.earliest_due(now) {
            Some(id) => seq![
                ActionView::DeliverReply(
                    ReplyDelivery {
                        request_id: id,
                        reply_slot: self.outbound.pending[id].reply_slot,
                        result: Err(ResponseError::P2P(RequestResponseError::Timeout)),
                    },
                ),
            ],
            None => Seq::empty(),
        };
        let heartbeat = if self.heartbeat_due(now) {
            seq![ActionView::SendHeartbeat { block_height: self.block_height }]
        } else {
            Seq::empty()
        };
        timeout + heartbeat
    }

    /// The state after a tick at `now`: besides what the actions show,
    /// inbound requests whose time has run out are dropped, and gossip and
    /// bans whose time has passed are forgotten.
    pub open spec fn ticked(self, now: u64) -> ServiceView {
        ServiceView {
            outbound: match self.outbound.earliest_due(now) {
                Some(id) => self.outbound.resolved(id),
                None => self.outbound,
            },
            inbound: self.inbound.expired(now),
            gossip: self.gossip.pruned(now),
            peers: self.peers.bans_pruned(now),
            last_heartbeat: if self.heartbeat_due(now) {
                Some(now)
            } else {
                self.last_heartbeat
            },
            actions: self.actions + self.tick_actions(now),
            ..self
        }
    }

    /// The state after the service was shut down: every pending request
    /// has ended, and no further request is taken.
    pub open spec fn shut_down(self, deliveries: Seq<ReplyDelivery>) -> ServiceView {
        ServiceView {
            outbound: OutboundView { pending: Map::empty(), closed: true, ..self.outbound },
            actions: self.actions + reply_actions(deliveries),
            ..self
        }
    }

    /// Whether the changes of score point the right way: up for an
    /// accepted message, down for a rejected one, for a response of the
    /// wrong kind and for a message beyond the rate.
    pub open spec fn scores_sound(self) -> bool {
        &&& self.gossip.limits.accept_delta > 0
        &&& self.gossip.limits.reject_delta < 0
        &&& self.gossip.limits.rate_penalty < 0
        &&& self.mismatch_delta < 0
    }

    /// What holds of the state at every moment.
    pub open spec fn inv(self) -> bool {
        &&& self.peers.inv()
        &&& self.outbound.inv()
        &&& self.scores_sound()
    }
}

/// The state in which a service with the options `config` begins.
pub open spec fn initial_view(config: Config) -> ServiceView {
    ServiceView {
        checksum: config.checksum@,
        enable_mdns: config.enable_mdns,
        startup_dials: dials_of(address_views(config.bootstrap_nodes@)) + dials_of(
            address_views(config.reserved_nodes@),
        ),
        peers: PeerManagerView::initial(
            config.keypair.peer_id,
            config.spec_peer_limits(),
            roster_of(address_views(config.reserved_nodes@)),
            roster_of(address_views(config.bootstrap_nodes@)),
        ),
        gossip: GossipView {
            topics: GossipsubTopicsView {
                network_name: config.network_name@,
                subscribe_to_new_tx: config.subscribe_to_new_tx,
                subscribe_to_pre_confirmations: config.subscribe_to_pre_confirmations,
            },
            limits: config.spec_gossip_limits(),
            seen: Map::empty(),
            pending: Map::empty(),
            subscriptions: Map::empty(),
            rates: Map::empty(),
        },
        outbound: OutboundView {
            pending: Map::empty(),
            next_id: 0,
            capacity: config.max_outbound_requests,
            timeout_ms: config.set_request_timeout,
            closed: false,
        },
        inbound: InboundView { pending: Map::empty(), timeout_ms: config.inbound_request_timeout },
        actions: Seq::empty(),
        events: Seq::empty(),
        queue_capacity: config.max_outbound_queue,
        block_height: 0,
        heartbeat_interval: config.heartbeat_interval,
        last_heartbeat: None,
        mismatch_delta: config.mismatch_score_delta,
    }
}

} // verus!
