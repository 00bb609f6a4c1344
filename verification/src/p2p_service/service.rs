//! The executable service. Each of its operations is proved to take the
//! model one step.

use crate::bytes::bytes32_eq;
use crate::config::{Config, ConfigError};
use crate::gossipsub::layer::{
    lemma_mesh_depends_on_subscriptions, GossipLayer, InboundOutcome, PublishError,
};
use crate::gossipsub::messages::GossipsubBroadcastRequest;
use crate::gossipsub::topics::GossipsubTopics;
use crate::ids::{MessageId, Multiaddr, MultiaddrView, PeerId};
use crate::p2p_service::events::{
    action_views, dial_actions, dials_of, event_views, redial_views, reply_actions, Action,
    ActionView, EventView, FuelP2PEvent, IncomingConnectionError, TransportEvent,
};
use crate::p2p_service::model::{initial_view, ServiceView};
use crate::peer_manager::info::{address_views, BlockHeight};
use crate::peer_manager::manager::{PeerManager, Redial};
use crate::peer_manager::model::{lemma_eligible_among, Admission, RedialView, ScoreOutcome};
use crate::random::random_below;
use crate::request_response::inbound::{InboundRequestId, InboundTable};
use crate::request_response::messages::{
    RequestMessage, RequestResponseError, ResponseMessage, ResponseSender, SendError,
};
use crate::request_response::outbound::{
    ends_requests, lemma_earliest_due, lemma_none_due, OutboundRequestId, OutboundTable,
    ReplyDelivery,
};
use crate::types::GossipsubMessageAcceptance;
use std::collections::VecDeque;
use vstd::arithmetic::div_mod::lemma_small_mod;
use vstd::prelude::*;

verus! {

/// Adds to `dials` the dials that `addresses` call for.
fn collect_dials(addresses: &Vec<Multiaddr>, dials: &mut Vec<Redial>)
    ensures
        redial_views(final(dials)@) == redial_views(old(dials)@) + dials_of(
            address_views(addresses@),
        ),
{
    let ghost start = redial_views(dials@);
    let ghost views = address_views(addresses@);
    let mut i: usize = 0;
    assert(views.subrange(0, 0) =~= Seq::<MultiaddrView>::empty());
    assert(redial_views(dials@) =~= start + dials_of(views.subrange(0, 0)));
    while i < addresses.len()
        invariant
            i <= addresses@.len(),
            views == address_views(addresses@),
            redial_views(dials@) == start + dials_of(views.subrange(0, i as int)),
        decreases addresses@.len() - i,
    {
        let ghost prefix = views.subrange(0, i + 1);
        let ghost before = redial_views(dials@);
        assert(prefix.drop_last() =~= views.subrange(0, i as int));
        assert(prefix.last() == addresses@[i as int]@);
        match addresses[i].peer {
            Some(peer) => {
                dials.push(Redial { peer, address: addresses[i].duplicate(), delay_ms: 0 });
                assert(redial_views(dials@) =~= before.push(
                    RedialView { peer, address: prefix.last(), delay_ms: 0 },
                ));
                assert(redial_views(dials@) =~= start + dials_of(prefix));
            },
            None => {
                assert(dials_of(prefix) == dials_of(prefix.drop_last()));
            },
        }
        i = i + 1;
    }
    assert(views.subrange(0, i as int) =~= views);
}

/// The service.
pub struct FuelP2PService {
    checksum: [u8; 32],
    enable_mdns: bool,
    startup_dials: Vec<Redial>,
    peer_manager: PeerManager,
    gossip: GossipLayer,
    outbound_requests_table: OutboundTable,
    inbound_requests_table: InboundTable,
    actions: VecDeque<Action>,
    events: VecDeque<FuelP2PEvent>,
    max_outbound_queue: usize,
    block_height: BlockHeight,
    heartbeat_interval: u64,
    last_heartbeat: Option<u64>,
    mismatch_score_delta: i64,
}

impl View for FuelP2PService {
    type V = ServiceView;

    closed spec fn view(&self) -> ServiceView {
        ServiceView {
            checksum: self.checksum@,
            enable_mdns: self.enable_mdns,
            startup_dials: redial_views(self.startup_dials@),
            peers: self.peer_manager@,
            gossip: self.gossip@,
            outbound: self.outbound_requests_table@,
            inbound: self.inbound_requests_table@,
            actions: action_views(self.actions@),
            events: event_views(self.events@),
            queue_capacity: self.max_outbound_queue,
            block_height: self.block_height,
            heartbeat_interval: self.heartbeat_interval,
            last_heartbeat: self.last_heartbeat,
            mismatch_delta: self.mismatch_score_delta,
        }
    }
}

impl FuelP2PService {
    /// The representation invariant. It implies the invariant of the model.
    pub closed spec fn wf(&self) -> bool {
        &&& self.peer_manager.wf()
        &&& self.gossip.wf()
        &&& self.outbound_requests_table.wf()
        &&& self.inbound_requests_table.wf()
        &&& self@.scores_sound()
    }

    /// A well-formed service is in a state that meets the model's invariant.
    pub proof fn lemma_wf(&self)
        requires
            self.wf(),
        ensures
            self@.inv(),
    {
        self.peer_manager.lemma_wf();
        self.outbound_requests_table.lemma_wf();
    }

    /// A service with the options `config`, or the reason why the options
    /// are refused.
    pub fn new(config: Config) -> (r: Result<FuelP2PService, ConfigError>)
        ensures
            match r {
                Ok(service) => config.fault() is None && service.wf() && service@ == initial_view(
                    config,
                ),
                Err(e) => config.fault() == Some(e),
            },
    {
        match config.validate() {
            Err(e) => {
                return Err(e);
            },
            Ok(_) => {},
        }
        let mut startup_dials: Vec<Redial> = Vec::new();
        assert(redial_views(startup_dials@) =~= Seq::<RedialView>::empty());
        collect_dials(&config.bootstrap_nodes, &mut startup_dials);
        collect_dials(&config.reserved_nodes, &mut startup_dials);
        let peer_manager = PeerManager::new(
            config.keypair.peer_id,
            config.peer_limits(),
            &config.reserved_nodes,
            &config.bootstrap_nodes,
        );
        let topics = GossipsubTopics::new(
            config.network_name.as_str(),
            config.subscribe_to_new_tx,
            config.subscribe_to_pre_confirmations,
        );
        let gossip = GossipLayer::new(topics, config.gossip_limits());
        let service = FuelP2PService {
            checksum: config.checksum,
            enable_mdns: config.enable_mdns,
            startup_dials,
            peer_manager,
            gossip,
            outbound_requests_table: OutboundTable::new(
                config.max_outbound_requests,
                config.set_request_timeout,
            ),
            inbound_requests_table: InboundTable::new(config.inbound_request_timeout),
            actions: VecDeque::new(),
            events: VecDeque::new(),
            max_outbound_queue: config.max_outbound_queue,
            block_height: 0,
            heartbeat_interval: config.heartbeat_interval,
            last_heartbeat: None,
            mismatch_score_delta: config.mismatch_score_delta,
        };
        proof {
            assert(service@.actions =~= Seq::<ActionView>::empty());
            assert(service@.events =~= Seq::<EventView>::empty());
            assert(service@.startup_dials =~= initial_view(config).startup_dials);
        }
        Ok(service)
    }

    /// This node's identity.
    pub fn local_peer_id(&self) -> (peer: PeerId)
        ensures
            peer == self@.peers.local,
    {
        self.peer_manager.local_peer_id()
    }

    /// The peer manager.
    pub fn peer_manager(&self) -> (manager: &PeerManager)
        requires
            self.wf(),
        ensures
            manager.wf(),
            manager@ == self@.peers,
    {
        &self.peer_manager
    }

    /// The table of outbound requests.
    pub fn outbound_requests_table(&self) -> (table: &OutboundTable)
        requires
            self.wf(),
        ensures
            table.wf(),
            table@ == self@.outbound,
    {
        &self.outbound_requests_table
    }

    /// The gossip layer.
    pub fn gossip(&self) -> (layer: &GossipLayer)
        requires
            self.wf(),
        ensures
            layer.wf(),
            layer@ == self@.gossip,
    {
        &self.gossip
    }

    /// The score of `peer`, if it is connected.
    pub fn get_peer_score(&self, peer: &PeerId) -> (score: Option<i64>)
        requires
            self.wf(),
        ensures
            score == if self@.peers.peers.contains_key(*peer) {
                Some(self@.peers.peers[*peer].score)
            } else {
                None::<i64>
            },
    {
        self.peer_manager.get_peer_score(peer)
    }

    /// How many actions await the transport.
    pub fn pending_actions(&self) -> (n: usize)
        ensures
            n == self@.actions.len(),
    {
        self.actions.len()
    }

    /// Puts `action` at the end of the queue of actions.
    fn enqueue(&mut self, action: Action)
        ensures
            final(self)@ == old(self)@.with_actions(seq![action@]),
            old(self).wf() ==> final(self).wf(),
    {
        self.actions.push_back(action);
        proof {
            assert(action_views(self.actions@) =~= action_views(old(self).actions@) + seq![
                action@,
            ]);
        }
    }

    /// Puts `event` at the end of the queue of events.
    fn emit(&mut self, event: FuelP2PEvent)
        ensures
            final(self)@ == old(self)@.with_event(event@),
            old(self).wf() ==> final(self).wf(),
    {
        self.events.push_back(event);
        proof {
            assert(event_views(self.events@) =~= event_views(old(self).events@).push(event@));
        }
    }

    /// Puts the deliveries at the end of the queue of actions, in order.
    fn enqueue_replies(&mut self, deliveries: Vec<ReplyDelivery>)
        ensures
            final(self)@ == old(self)@.with_actions(reply_actions(deliveries@)),
            old(self).wf() ==> final(self).wf(),
    {
        let ghost all = deliveries@;
        let ghost start = self@;
        assert(self@.actions =~= start.actions + reply_actions(all.subrange(0, 0)));
        for delivery in it: deliveries.into_iter()
            invariant
                it.seq() == all,
                self@ == start.with_actions(reply_actions(all.subrange(0, it.index() as int))),
                old(self).wf() ==> self.wf(),
                start == old(self)@,
        {
            let ghost k = it.index() as int;
            let ghost before = self@.actions;
            self.enqueue(Action::DeliverReply(delivery));
            proof {
                assert(reply_actions(all.subrange(0, k + 1)) =~= reply_actions(
                    all.subrange(0, k),
                ).push(ActionView::DeliverReply(all[k])));
                assert(self@.actions =~= start.actions + reply_actions(all.subrange(0, k + 1)));
            }
        }
        assert(all.subrange(0, all.len() as int) =~= all);
    }

    /// Takes the oldest event out of the queue.
    pub fn next_event(&mut self) -> (event: Option<FuelP2PEvent>)
        requires
            old(self).wf(),
        ensures
            final(self).wf(),
            match event {
                Some(e) => old(self)@.events.len() > 0 && e@ == old(self)@.events[0]
                    && final(self)@ == (ServiceView {
                    events: old(self)@.events.drop_first(),
                    ..old(self)@
                }),
                None => old(self)@.events.len() == 0 && final(self)@ == old(self)@,
            },
    {
        let event = self.events.pop_front();
        proof {
            if event is Some {
                assert(event_views(self.events@) =~= event_views(old(self).events@).drop_first());
            }
        }
        event
    }

    /// Takes the oldest action out of the queue.
    pub fn next_action(&mut self) -> (action: Option<Action>)
        requires
            old(self).wf(),
        ensures
            final(self).wf(),
            match action {
                Some(a) => old(self)@.actions.len() > 0 && a@ == old(self)@.actions[0]
                    && final(self)@ == (ServiceView {
                    actions: old(self)@.actions.drop_first(),
                    ..old(self)@
                }),
                None => old(self)@.actions.len() == 0 && final(self)@ == old(self)@,
            },
    {
        let action = self.actions.pop_front();
        proof {
            if action is Some {
                assert(action_views(self.actions@) =~= action_views(
                    old(self).actions@,
                ).drop_first());
            }
        }
        action
    }
}

impl FuelP2PService {
    /// Starts the service: every bootstrap peer and every reserved peer is
    /// to be dialed, and local discovery is to start where it is enabled.
    pub fn start(&mut self)
        requires
            old(self).wf(),
        ensures
            final(self).wf(),
            final(self)@ == old(self)@.started(),
    {
        let ghost start = self@;
        let ghost dials = redial_views(self.startup_dials@);
        let mut i: usize = 0;
        assert(self@.actions =~= start.actions + dial_actions(dials.subrange(0, 0)));
        while i < self.startup_dials.len()
            invariant
                self.wf(),
                i <= self.startup_dials@.len(),
                self.startup_dials@.len() == dials.len(),
                dials == redial_views(self.startup_dials@),
                self@ == start.with_actions(dial_actions(dials.subrange(0, i as int))),
            decreases self.startup_dials@.len() - i,
        {
            let dial = Redial {
                peer: self.startup_dials[i].peer,
                address: self.startup_dials[i].address.duplicate(),
                delay_ms: self.startup_dials[i].delay_ms,
            };
            assert(dial@ == dials[i as int]);
            self.enqueue(Action::Dial(dial));
            proof {
                assert(redial_views(self.startup_dials@) == dials);
                assert(self.startup_dials@.len() == dials.len());
                assert(dial_actions(dials.subrange(0, i + 1)) =~= dial_actions(
                    dials.subrange(0, i as int),
                ).push(ActionView::Dial(dials[i as int])));
                assert(self@.actions =~= start.actions + dial_actions(dials.subrange(0, i + 1)));
            }
            i = i + 1;
        }
        assert(dials.subrange(0, i as int) =~= dials);
        if self.enable_mdns {
            self.enqueue(Action::StartDiscovery);
        }
        proof {
            assert(self@.actions =~= start.started().actions);
        }
    }

    /// Takes a connection that was established with `peer`, whose
    /// handshake carried `remote_checksum`. A peer with another checksum
    /// is a transport error; a peer that the peer manager turns away is
    /// denied. Either is disconnected and the embedder hears nothing. A
    /// peer that is kept has a record from now on, and the embedder hears
    /// that it connected unless it was connected already.
    pub fn on_connection_established(
        &mut self,
        peer: PeerId,
        addresses: &Vec<Multiaddr>,
        remote_checksum: &[u8; 32],
        now: u64,
    ) -> (r: Result<(), IncomingConnectionError>)
        requires
            old(self).wf(),
        ensures
            final(self).wf(),
            r == old(self)@.connection_verdict(peer, remote_checksum@, now),
            final(self)@ == old(self)@.connection_established(
                peer,
                address_views(addresses@),
                remote_checksum@,
                now,
            ),
    {
        if !bytes32_eq(remote_checksum, &self.checksum) {
            assert(remote_checksum@ != self.checksum@) by {
                if remote_checksum@ == self.checksum@ {
                    assert(*remote_checksum =~= self.checksum);
                }
            }
            self.enqueue(Action::Disconnect(peer));
            return Err(IncomingConnectionError::Transport);
        }
        let known = self.peer_manager.is_connected(&peer);
        match self.peer_manager.on_connection_established(peer, addresses, now) {
            Admission::Reject(reason) => {
                self.enqueue(Action::Disconnect(peer));
                Err(IncomingConnectionError::Denied(reason))
            },
            Admission::Accept => {
                if !known {
                    self.emit(FuelP2PEvent::PeerConnected(peer));
                }
                Ok(())
            },
        }
    }

    /// Takes the end of a connection with `peer`, after which
    /// `remaining_established` connections with it remain. When the last
    /// one has ended, the peer's record is dropped, every request that was
    /// put to the peer ends with a disconnect, the embedder hears that the
    /// peer disconnected, and a reserved peer is to be dialed again.
    pub fn on_connection_closed(&mut self, peer: PeerId, remaining_established: u32, now: u64)
        requires
            old(self).wf(),
        ensures
            final(self).wf(),
            !old(self)@.connection_ends(peer, remaining_established) ==> final(self)@ == old(
                self,
            )@,
            old(self)@.connection_ends(peer, remaining_established) ==> exists|
                deliveries: Seq<ReplyDelivery>,
            |
                {
                    &&& #[trigger] ends_requests(
                        deliveries,
                        old(self)@.outbound,
                        old(self)@.outbound.selected(Some(peer)),
                        RequestResponseError::PeerDisconnected,
                    )
                    &&& final(self)@ == old(self)@.connection_closed(peer, now, deliveries)
                },
    {
        let ghost before = self@;
        if remaining_established > 0 || !self.peer_manager.is_connected(&peer) {
            return ;
        }
        let redial = self.peer_manager.on_connection_closed(&peer, now);
        self.gossip.on_peer_disconnected(&peer);
        let deliveries = self.outbound_requests_table.on_peer_disconnected(peer);
        let ghost delivered = deliveries@;
        self.emit(FuelP2PEvent::PeerDisconnected(peer));
        self.enqueue_replies(deliveries);
        match redial {
            Some(dial) => {
                self.enqueue(Action::Dial(dial));
            },
            None => {},
        }
        proof {
            let model = before.connection_closed(peer, now, delivered);
            assert(self@.actions =~= model.actions);
            assert(self@ == model);
        }
    }

    /// Takes a failure of the transport to carry something to `peer`. A
    /// peer that the transport cannot reach is a peer that has
    /// disconnected: what follows is what follows the end of its last
    /// connection.
    pub fn on_transport_failure(&mut self, peer: PeerId, now: u64)
        requires
            old(self).wf(),
        ensures
            final(self).wf(),
            !old(self)@.connection_ends(peer, 0) ==> final(self)@ == old(self)@,
            old(self)@.connection_ends(peer, 0) ==> exists|deliveries: Seq<ReplyDelivery>|
                {
                    &&& #[trigger] ends_requests(
                        deliveries,
                        old(self)@.outbound,
                        old(self)@.outbound.selected(Some(peer)),
                        RequestResponseError::PeerDisconnected,
                    )
                    &&& final(self)@ == old(self)@.connection_closed(peer, now, deliveries)
                },
    {
        self.on_connection_closed(peer, 0, now);
    }

    /// Takes the failure of a dial of `peer`. A reserved peer that is not
    /// connected is to be dialed again, later each time.
    pub fn on_dial_failure(&mut self, peer: PeerId)
        requires
            old(self).wf(),
        ensures
            final(self).wf(),
            final(self)@ == old(self)@.dial_failed(peer),
    {
        let ghost before = self@;
        match self.peer_manager.on_dial_failure(&peer) {
            Some(dial) => {
                self.enqueue(Action::Dial(dial));
            },
            None => {},
        }
        proof {
            assert(self@.actions =~= before.dial_failed(peer).actions);
        }
    }

    /// Takes a heartbeat of `peer`: the peer's record takes its height,
    /// and the embedder hears of it.
    pub fn on_heartbeat(&mut self, peer: PeerId, block_height: BlockHeight, now: u64)
        requires
            old(self).wf(),
        ensures
            final(self).wf(),
            final(self)@ == old(self)@.heartbeat_received(peer, block_height, now),
    {
        match self.peer_manager.update_heartbeat(&peer, block_height, now) {
            Some(update) => {
                self.emit(
                    FuelP2PEvent::PeerInfoUpdated {
                        peer_id: update.peer,
                        block_height: update.block_height,
                    },
                );
            },
            None => {},
        }
    }

    /// Takes what `peer` told of itself: the peer's record takes its
    /// client version and addresses, and the embedder hears of it.
    pub fn on_identify(&mut self, peer: PeerId, client_version: String, addresses: &Vec<Multiaddr>)
        requires
            old(self).wf(),
        ensures
            final(self).wf(),
            final(self)@ == old(self)@.identified(
                peer,
                client_version@,
                address_views(addresses@),
            ),
    {
        match self.peer_manager.update_identify(&peer, client_version, addresses) {
            Some(update) => {
                self.emit(
                    FuelP2PEvent::PeerInfoUpdated {
                        peer_id: update.peer,
                        block_height: update.block_height,
                    },
                );
            },
            None => {},
        }
    }

    /// Takes the subscription of `peer` to the topic `topic_hash`, and
    /// tells the embedder where the topic is one of the two.
    pub fn on_subscription(&mut self, peer: PeerId, topic_hash: &String)
        requires
            old(self).wf(),
        ensures
            final(self).wf(),
            final(self)@ == old(self)@.subscribed(peer, topic_hash@),
    {
        match self.gossip.on_subscription(peer, topic_hash) {
            Some(subscription) => {
                self.emit(
                    FuelP2PEvent::NewSubscription {
                        peer_id: subscription.peer,
                        tag: subscription.tag,
                    },
                );
            },
            None => {},
        }
    }

    /// Takes the end of the subscription of `peer` to the topic
    /// `topic_hash`.
    pub fn on_unsubscription(&mut self, peer: PeerId, topic_hash: &String)
        requires
            old(self).wf(),
        ensures
            final(self).wf(),
            final(self)@ == old(self)@.unsubscribed(peer, topic_hash@),
    {
        self.gossip.on_unsubscription(peer, topic_hash);
    }

    /// Takes a gossip message that `peer` sent under the topic
    /// `topic_hash`. The message goes to the embedder unless its topic is
    /// not subscribed to, its sender is not eligible or over its rate, or
    /// its payload was seen before. A sender over its rate pays for it,
    /// and is disconnected where that bans it.
    pub fn on_gossip_message(&mut self, peer: PeerId, topic_hash: &String, payload: Vec<u8>, now: u64)
        requires
            old(self).wf(),
        ensures
            final(self).wf(),
            final(self)@ == old(self)@.gossip_received(peer, topic_hash@, payload@, now),
    {
        let eligible = self.peer_manager.is_eligible(&peer);
        match self.gossip.on_inbound_message(peer, eligible, topic_hash, payload, now) {
            InboundOutcome::Deliver(gossip) => {
                self.emit(
                    FuelP2PEvent::GossipsubMessage {
                        peer_id: gossip.peer,
                        message_id: gossip.message_id,
                        topic_hash: gossip.topic_hash,
                        message: gossip.message,
                    },
                );
            },
            InboundOutcome::RateLimited { penalty } => {
                match self.peer_manager.apply_score_delta(&peer, penalty) {
                    ScoreOutcome::Banned(_) => {
                        self.enqueue(Action::Disconnect(peer));
                        proof {
                            assert(self@.actions =~= old(self)@.actions.push(
                                ActionView::Disconnect(peer),
                            ));
                        }
                    },
                    _ => {},
                }
            },
            _ => {},
        }
    }

    /// Takes the request `request_id` that `peer` sent. The request of an
    /// eligible peer goes to the embedder, which owes it one response; a
    /// request whose id already awaits its response is not taken again.
    pub fn on_inbound_request(
        &mut self,
        request_id: InboundRequestId,
        peer: PeerId,
        message: RequestMessage,
        now: u64,
    )
        requires
            old(self).wf(),
        ensures
            final(self).wf(),
            final(self)@ == old(self)@.request_received(
                request_id,
                peer,
                message@,
                message.spec_kind(),
                now,
            ),
    {
        if !self.peer_manager.is_eligible(&peer) {
            return ;
        }
        if self.inbound_requests_table.on_request(request_id, peer, message.kind(), now) {
            self.emit(
                FuelP2PEvent::InboundRequestMessage { request_id, request_message: message },
            );
        }
    }

    /// Takes the response to the request `request_id`. A pending request
    /// ends: its caller gets the response, or a type mismatch where the
    /// response is of another kind than was asked for, which costs the
    /// peer a little and never bans it. A response to a request that is
    /// not pending is discarded.
    pub fn on_response(&mut self, request_id: OutboundRequestId, response: ResponseMessage)
        requires
            old(self).wf(),
        ensures
            final(self).wf(),
            final(self)@ == old(self)@.response_received(request_id, response),
    {
        let request = self.outbound_requests_table.get(request_id);
        match self.outbound_requests_table.on_response(request_id, response) {
            None => {
                assert(self@.outbound.pending =~= old(self)@.outbound.pending);
            },
            Some(delivery) => {
                let mismatch = delivery.result.is_err();
                self.enqueue(Action::DeliverReply(delivery));
                proof {
                    assert(self@.actions =~= old(self)@.actions.push(
                        ActionView::DeliverReply(delivery),
                    ));
                }
                if mismatch {
                    match request {
                        Some(asked) => {
                            let _ = self.peer_manager.penalize(&asked.peer, self.mismatch_score_delta);
                        },
                        None => {},
                    }
                }
            },
        }
    }
}

impl FuelP2PService {
    /// Takes a response to the request `request_id` that broke the rules
    /// of the wire, as a frame longer than the largest block does. A
    /// pending request ends and its caller learns of the violation.
    pub fn on_protocol_violation(&mut self, request_id: OutboundRequestId)
        requires
            old(self).wf(),
        ensures
            final(self).wf(),
            final(self)@ == old(self)@.response_violated(request_id),
    {
        match self.outbound_requests_table.on_protocol_violation(request_id) {
            None => {
                assert(self@.outbound.pending =~= old(self)@.outbound.pending);
            },
            Some(delivery) => {
                self.enqueue(Action::DeliverReply(delivery));
                proof {
                    assert(self@.actions =~= old(self)@.actions.push(
                        ActionView::DeliverReply(delivery),
                    ));
                }
            },
        }
    }

    /// Publishes what `request` holds to the mesh of its topic. The
    /// message is refused where the node does not subscribe to the topic;
    /// where the payload counts as seen, which it does from the first time
    /// it is published or received until its window has passed; and, if
    /// neither holds, where the queue of actions is full.
    pub fn publish_message(&mut self, request: GossipsubBroadcastRequest, now: u64) -> (r: Result<
        (),
        PublishError,
    >)
        requires
            old(self).wf(),
        ensures
            final(self).wf(),
            match r {
                Ok(_) => old(self)@.publish_refusal(request.spec_tag(), request.spec_payload(), now)
                    is None && final(self)@ == old(self)@.published(
                    request.spec_tag(),
                    request.spec_payload(),
                    now,
                ),
                Err(e) => old(self)@.publish_refusal(
                    request.spec_tag(),
                    request.spec_payload(),
                    now,
                ) == Some(e) && final(self)@ == old(self)@,
            },
    {
        let room = self.actions.len() < self.max_outbound_queue;
        match self.gossip.publish(&request, room, now) {
            Err(e) => Err(e),
            Ok(publication) => {
                let eligible = self.peer_manager.eligible_peers();
                let targets = self.gossip.mesh_targets(&eligible, publication.tag, None);
                proof {
                    lemma_mesh_depends_on_subscriptions(
                        old(self)@.gossip,
                        self@.gossip,
                        eligible@,
                        publication.tag,
                    );
                }
                self.enqueue(Action::Publish { publication, targets });
                proof {
                    let model = old(self)@.published(
                        request.spec_tag(),
                        request.spec_payload(),
                        now,
                    );
                    assert(self@.actions =~= model.actions);
                }
                Ok(())
            },
        }
    }

    /// Sends `message` to the peer that `target` names or, where it names
    /// none, to the eligible peer that `choice` picks by its remainder.
    /// The request is refused after a shutdown, where no eligible peer is
    /// there to ask, and where the queue of actions or the table of
    /// pending requests is full. A request that is sent is pending until
    /// its deadline, `now` plus the request timeout.
    pub fn send_request_with_choice(
        &mut self,
        target: Option<PeerId>,
        choice: usize,
        message: RequestMessage,
        reply_slot: ResponseSender,
        now: u64,
    ) -> (r: Result<OutboundRequestId, SendError>)
        requires
            old(self).wf(),
        ensures
            final(self).wf(),
            match r {
                Ok(id) => old(self)@.request_refusal(target) is None && id == old(
                    self,
                )@.outbound.next_id && final(self)@ == old(self)@.request_sent(
                    old(self)@.request_peer(target, choice as int),
                    message@,
                    message.spec_kind(),
                    reply_slot,
                    now,
                ),
                Err(e) => old(self)@.request_refusal(target) == Some(e) && final(self)@ == old(
                    self,
                )@,
            },
    {
        if self.outbound_requests_table.is_closed() {
            return Err(SendError::Closed);
        }
        let peer = match target {
            Some(peer) => {
                if !self.peer_manager.is_eligible(&peer) {
                    return Err(SendError::NoEligiblePeer);
                }
                peer
            },
            None => {
                let eligible = self.peer_manager.eligible_peers();
                if eligible.len() == 0 {
                    return Err(SendError::NoEligiblePeer);
                }
                eligible[choice % eligible.len()]
            },
        };
        if self.actions.len() >= self.max_outbound_queue {
            return Err(SendError::Full);
        }
        match self.outbound_requests_table.register(peer, message.kind(), reply_slot, now) {
            Err(e) => Err(e),
            Ok(request_id) => {
                self.enqueue(Action::SendRequest { request_id, peer, message });
                proof {
                    let model = old(self)@.request_sent(
                        peer,
                        message@,
                        message.spec_kind(),
                        reply_slot,
                        now,
                    );
                    assert(self@.actions =~= model.actions);
                }
                Ok(request_id)
            },
        }
    }

    /// Sends `message` to the peer that `target` names or, where it names
    /// none, to an eligible peer drawn at random. What is said of
    /// [`Self::send_request_with_choice`] holds for the peer drawn: it is
    /// connected and not banned.
    pub fn send_request_msg(
        &mut self,
        target: Option<PeerId>,
        message: RequestMessage,
        reply_slot: ResponseSender,
        now: u64,
    ) -> (r: Result<OutboundRequestId, SendError>)
        requires
            old(self).wf(),
        ensures
            final(self).wf(),
            match r {
                Ok(id) => old(self)@.request_refusal(target) is None && id == old(
                    self,
                )@.outbound.next_id && exists|peer: PeerId|
                    {
                        &&& #[trigger] old(self)@.peers.is_eligible(peer)
                        &&& target is Some ==> target == Some(peer)
                        &&& final(self)@ == old(self)@.request_sent(
                            peer,
                            message@,
                            message.spec_kind(),
                            reply_slot,
                            now,
                        )
                    },
                Err(e) => old(self)@.request_refusal(target) == Some(e) && final(self)@ == old(
                    self,
                )@,
            },
    {
        let eligible = self.peer_manager.eligible_count();
        let choice: usize = if target.is_none() && eligible > 0 {
            random_below(eligible)
        } else {
            0
        };
        proof {
            self.peer_manager.lemma_wf();
            lemma_eligible_among(self@.peers, self@.peers.order);
            if target is None && eligible > 0 {
                let peer = self@.request_peer(target, choice as int);
                lemma_small_mod(choice as nat, eligible as nat);
                assert(peer == self@.peers.eligible()[choice as int]);
                assert(self@.peers.is_eligible(peer));
            }
        }
        self.send_request_with_choice(target, choice, message, reply_slot, now)
    }

    /// Sends `response` as the answer to the inbound request
    /// `request_id`. The response is refused where the queue of actions
    /// is full and where the request does not await an answer: it never
    /// came in, it was answered before, or its time ran out.
    pub fn send_response_msg(&mut self, request_id: InboundRequestId, response: ResponseMessage) -> (r:
        Result<(), SendError>)
        requires
            old(self).wf(),
        ensures
            final(self).wf(),
            match r {
                Ok(_) => old(self)@.response_refusal(request_id) is None && final(self)@ == old(
                    self,
                )@.response_sent(request_id, response),
                Err(e) => old(self)@.response_refusal(request_id) == Some(e) && final(self)@
                    == old(self)@,
            },
    {
        if self.actions.len() >= self.max_outbound_queue {
            return Err(SendError::Full);
        }
        match self.inbound_requests_table.take(request_id) {
            None => {
                assert(self@.inbound.pending =~= old(self)@.inbound.pending);
                Err(SendError::Closed)
            },
            Some(request) => {
                self.enqueue(Action::SendResponse { request_id, peer: request.peer, response });
                proof {
                    let model = old(self)@.response_sent(request_id, response);
                    assert(self@.actions =~= model.actions);
                }
                Ok(())
            },
        }
    }

    /// Takes the embedder's verdict on the gossip message `message_id`
    /// that `peer` sent. An accepted message goes on to the mesh of its
    /// topic, without the peer it came from, and earns `peer` the reward;
    /// a rejected one goes nowhere and costs `peer` the penalty; an
    /// ignored one goes nowhere and changes no score. A peer that the
    /// penalty bans is disconnected. A verdict on a message that awaits
    /// none has no effect.
    pub fn report_message_validation_result(
        &mut self,
        message_id: &MessageId,
        peer: PeerId,
        acceptance: GossipsubMessageAcceptance,
    )
        requires
            old(self).wf(),
        ensures
            final(self).wf(),
            final(self)@ == old(self)@.verdict_reported(*message_id, peer, acceptance),
    {
        let ghost before = self@;
        let eligible = self.peer_manager.eligible_peers();
        let outcome = self.gossip.report_validation(message_id, acceptance);
        let ghost forward = if before.gossip.forwards(*message_id, acceptance) {
            let held = before.gossip.pending[*message_id];
            seq![
                ActionView::Publish {
                    tag: held.tag,
                    topic_hash: before.gossip.topics.hash_of(held.tag),
                    message_id: *message_id,
                    payload: held.payload,
                    targets: before.gossip.targets(
                        before.peers.eligible(),
                        held.tag,
                        Some(held.source),
                    ),
                },
            ]
        } else {
            Seq::<ActionView>::empty()
        };
        match outcome.forward {
            Some(publication) => {
                let targets = self.gossip.mesh_targets(&eligible, publication.tag, outcome.source);
                proof {
                    lemma_mesh_depends_on_subscriptions(
                        before.gossip,
                        self@.gossip,
                        eligible@,
                        publication.tag,
                    );
                }
                self.enqueue(Action::Publish { publication, targets });
            },
            None => {},
        }
        assert(self@.actions =~= before.actions + forward);
        if outcome.score_delta != 0 {
            match self.peer_manager.apply_score_delta(&peer, outcome.score_delta) {
                ScoreOutcome::Banned(_) => {
                    self.enqueue(Action::Disconnect(peer));
                },
                _ => {},
            }
        }
        proof {
            let model = before.verdict_reported(*message_id, peer, acceptance);
            assert(self@.actions =~= model.actions);
        }
    }

    /// Notes this node's height, which the next heartbeat carries.
    pub fn update_block_height(&mut self, block_height: BlockHeight)
        requires
            old(self).wf(),
        ensures
            final(self).wf(),
            final(self)@ == (ServiceView { block_height, ..old(self)@ }),
    {
        self.block_height = block_height;
    }

    /// Lets time pass up to `now`. The due request that is first in line
    /// ends with a timeout; inbound requests whose time has run out are
    /// dropped; gossip whose window has passed and bans that have run out
    /// are forgotten; and a heartbeat is to go out where one is due.
    pub fn tick(&mut self, now: u64)
        requires
            old(self).wf(),
        ensures
            final(self).wf(),
            final(self)@ == old(self)@.ticked(now),
    {
        let ghost before = self@;
        match self.outbound_requests_table.expire_next(now) {
            Some(delivery) => {
                proof {
                    lemma_earliest_due(before.outbound, delivery.request_id, now);
                }
                self.enqueue(Action::DeliverReply(delivery));
            },
            None => {
                proof {
                    lemma_none_due(before.outbound, now);
                }
            },
        }
        let _ = self.inbound_requests_table.expire(now);
        self.gossip.prune(now);
        self.peer_manager.prune_bans(now);
        let due = match self.last_heartbeat {
            None => true,
            Some(last) => now >= last && now - last >= self.heartbeat_interval,
        };
        if due {
            self.last_heartbeat = Some(now);
            self.enqueue(Action::SendHeartbeat { block_height: self.block_height });
        }
        proof {
            let model = before.ticked(now);
            assert(self@.actions =~= model.actions);
        }
    }

    /// Shuts the service down: every pending request ends with a
    /// shutdown, and from now on every request is refused.
    pub fn shutdown(&mut self)
        requires
            old(self).wf(),
        ensures
            final(self).wf(),
            exists|deliveries: Seq<ReplyDelivery>|
                {
                    &&& #[trigger] ends_requests(
                        deliveries,
                        old(self)@.outbound,
                        old(self)@.outbound.pending.dom(),
                        RequestResponseError::Shutdown,
                    )
                    &&& final(self)@ == old(self)@.shut_down(deliveries)
                },
    {
        let ghost before = self@;
        let deliveries = self.outbound_requests_table.shutdown();
        let ghost delivered = deliveries@;
        self.enqueue_replies(deliveries);
        proof {
            assert(self@ == before.shut_down(delivered));
        }
    }
}

impl FuelP2PService {
    /// Takes whatever the transport reports at `now` and does with it what
    /// the operation for that kind of report does.
    pub fn on_transport_event(&mut self, event: TransportEvent, now: u64)
        requires
            old(self).wf(),
        ensures
            final(self).wf(),
            match event {
                TransportEvent::ConnectionEstablished { peer, addresses, checksum } => final(self)@
                    == old(self)@.connection_established(
                    peer,
                    address_views(addresses@),
                    checksum@,
                    now,
                ),
                TransportEvent::ConnectionClosed { peer, remaining_established } => {
                    &&& !old(self)@.connection_ends(peer, remaining_established) ==> final(self)@
                        == old(self)@
                    &&& old(self)@.connection_ends(peer, remaining_established) ==> exists|
                        deliveries: Seq<ReplyDelivery>,
                    |
                        {
                            &&& #[trigger] ends_requests(
                                deliveries,
                                old(self)@.outbound,
                                old(self)@.outbound.selected(Some(peer)),
                                RequestResponseError::PeerDisconnected,
                            )
                            &&& final(self)@ == old(self)@.connection_closed(peer, now, deliveries)
                        }
                },
                TransportEvent::DialFailure { peer } => final(self)@ == old(self)@.dial_failed(peer),
                TransportEvent::Identified { peer, client_version, addresses } => final(self)@
                    == old(self)@.identified(peer, client_version@, address_views(addresses@)),
                TransportEvent::Heartbeat { peer, block_height } => final(self)@
                    == old(self)@.heartbeat_received(peer, block_height, now),
                TransportEvent::Subscribed { peer, topic_hash } => final(self)@
                    == old(self)@.subscribed(peer, topic_hash@),
                TransportEvent::Unsubscribed { peer, topic_hash } => final(self)@
                    == old(self)@.unsubscribed(peer, topic_hash@),
                TransportEvent::GossipMessage { peer, topic_hash, payload } => final(self)@
                    == old(self)@.gossip_received(peer, topic_hash@, payload@, now),
                TransportEvent::InboundRequest { request_id, peer, message } => final(self)@
                    == old(self)@.request_received(
                    request_id,
                    peer,
                    message@,
                    message.spec_kind(),
                    now,
                ),
                TransportEvent::Response { request_id, response } => final(self)@
                    == old(self)@.response_received(request_id, response),
                TransportEvent::MalformedResponse { request_id } => final(self)@
                    == old(self)@.response_violated(request_id),
                TransportEvent::TransportFailure { peer } => {
                    &&& !old(self)@.connection_ends(peer, 0) ==> final(self)@ == old(self)@
                    &&& old(self)@.connection_ends(peer, 0) ==> exists|
                        deliveries: Seq<ReplyDelivery>,
                    |
                        {
                            &&& #[trigger] ends_requests(
                                deliveries,
                                old(self)@.outbound,
                                old(self)@.outbound.selected(Some(peer)),
                                RequestResponseError::PeerDisconnected,
                            )
                            &&& final(self)@ == old(self)@.connection_closed(peer, now, deliveries)
                        }
                },
            },
    {
        match event {
            TransportEvent::ConnectionEstablished { peer, addresses, checksum } => {
                let _ = self.on_connection_established(peer, &addresses, &checksum, now);
            },
            TransportEvent::ConnectionClosed { peer, remaining_established } => {
                self.on_connection_closed(peer, remaining_established, now);
            },
            TransportEvent::DialFailure { peer } => {
                self.on_dial_failure(peer);
            },
            TransportEvent::Identified { peer, client_version, addresses } => {
                self.on_identify(peer, client_version, &addresses);
            },
            TransportEvent::Heartbeat { peer, block_height } => {
                self.on_heartbeat(peer, block_height, now);
            },
            TransportEvent::Subscribed { peer, topic_hash } => {
                self.on_subscription(peer, &topic_hash);
            },
            TransportEvent::Unsubscribed { peer, topic_hash } => {
                self.on_unsubscription(peer, &topic_hash);
            },
            TransportEvent::GossipMessage { peer, topic_hash, payload } => {
                self.on_gossip_message(peer, &topic_hash, payload, now);
            },
            TransportEvent::InboundRequest { request_id, peer, message } => {
                self.on_inbound_request(request_id, peer, message, now);
            },
            TransportEvent::Response { request_id, response } => {
                self.on_response(request_id, response);
            },
            TransportEvent::MalformedResponse { request_id } => {
                self.on_protocol_violation(request_id);
            },
            TransportEvent::TransportFailure { peer } => {
                self.on_transport_failure(peer, now);
            },
        }
    }
}

} // verus!
