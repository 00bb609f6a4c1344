//! What the service says: events for the embedder and actions for the
//! transport.

use crate::gossipsub::layer::Publication;
use crate::gossipsub::messages::GossipsubMessage;
use crate::gossipsub::topics::GossipTopicTag;
use crate::ids::{MessageId, Multiaddr, MultiaddrView, PeerId};
use crate::peer_manager::info::BlockHeight;
use crate::peer_manager::manager::Redial;
use crate::peer_manager::model::{AdmissionReject, RedialView};
use crate::request_response::inbound::InboundRequestId;
use crate::request_response::messages::{RequestMessage, RequestView, ResponseMessage};
use crate::request_response::outbound::{OutboundRequestId, ReplyDelivery};
use vstd::prelude::*;

verus! {

/// What the service tells the embedder.
#[derive(Debug)]
pub enum FuelP2PEvent {
    GossipsubMessage {
        peer_id: PeerId,
        message_id: MessageId,
        topic_hash: String,
        message: GossipsubMessage,
    },
    NewSubscription { peer_id: PeerId, tag: GossipTopicTag },
    InboundRequestMessage { request_id: InboundRequestId, request_message: RequestMessage },
    PeerConnected(PeerId),
    PeerDisconnected(PeerId),
    PeerInfoUpdated { peer_id: PeerId, block_height: Option<BlockHeight> },
}

/// What a [`FuelP2PEvent`] stands for.
pub enum EventView {
    GossipsubMessage {
        peer_id: PeerId,
        message_id: MessageId,
        topic_hash: Seq<char>,
        tag: GossipTopicTag,
        payload: Seq<u8>,
    },
    NewSubscription { peer_id: PeerId, tag: GossipTopicTag },
    InboundRequestMessage { request_id: InboundRequestId, request_message: RequestView },
    PeerConnected(PeerId),
    PeerDisconnected(PeerId),
    PeerInfoUpdated { peer_id: PeerId, block_height: Option<BlockHeight> },
}

impl View for FuelP2PEvent {
    type V = EventView;

    open spec fn view(&self) -> EventView {
        match self {
            FuelP2PEvent::GossipsubMessage { peer_id, message_id, topic_hash, message } => {
                EventView::GossipsubMessage {
                    peer_id: *peer_id,
                    message_id: *message_id,
                    topic_hash: topic_hash@,
                    tag: message.spec_tag(),
                    payload: message.spec_payload(),
                }
            },
            FuelP2PEvent::NewSubscription { peer_id, tag } => EventView::NewSubscription {
                peer_id: *peer_id,
                tag: *tag,
            },
            FuelP2PEvent::InboundRequestMessage { request_id, request_message } => {
                EventView::InboundRequestMessage {
                    request_id: *request_id,
                    request_message: request_message@,
                }
            },
            FuelP2PEvent::PeerConnected(peer) => EventView::PeerConnected(*peer),
            FuelP2PEvent::PeerDisconnected(peer) => EventView::PeerDisconnected(*peer),
            FuelP2PEvent::PeerInfoUpdated { peer_id, block_height } => EventView::PeerInfoUpdated {
                peer_id: *peer_id,
                block_height: *block_height,
            },
        }
    }
}

/// What the service asks of the transport, and what it hands to the
/// callers of requests.
#[derive(Debug)]
pub enum Action {
    /// Dial a peer once the delay has passed.
    Dial(Redial),
    /// Close every connection with a peer.
    Disconnect(PeerId),
    /// Send a gossip message to the peers named.
    Publish { publication: Publication, targets: Vec<PeerId> },
    /// Send a request to a peer.
    SendRequest { request_id: OutboundRequestId, peer: PeerId, message: RequestMessage },
    /// Send the response to a peer's request.
    SendResponse { request_id: InboundRequestId, peer: PeerId, response: ResponseMessage },
    /// Tell every connected peer this node's height.
    SendHeartbeat { block_height: BlockHeight },
    /// Put the outcome of a request into its caller's slot.
    DeliverReply(ReplyDelivery),
    /// Start looking for peers on the local network.
    StartDiscovery,
}

/// What an [`Action`] stands for.
pub enum ActionView {
    Dial(RedialView),
    Disconnect(PeerId),
    Publish {
        tag: GossipTopicTag,
        topic_hash: Seq<char>,
        message_id: MessageId,
        payload: Seq<u8>,
        targets: Seq<PeerId>,
    },
    SendRequest { request_id: OutboundRequestId, peer: PeerId, message: RequestView },
    SendResponse { request_id: InboundRequestId, peer: PeerId, response: ResponseMessage },
    SendHeartbeat { block_height: BlockHeight },
    DeliverReply(ReplyDelivery),
    StartDiscovery,
}

impl View for Action {
    type V = ActionView;

    open spec fn view(&self) -> ActionView {
        match self {
            Action::Dial(redial) => ActionView::Dial(redial@),
            Action::Disconnect(peer) => ActionView::Disconnect(*peer),
            Action::Publish { publication, targets } => ActionView::Publish {
                tag: publication.tag,
                topic_hash: publication.topic_hash@,
                message_id: publication.message_id,
                payload: publication.payload@,
                targets: targets@,
            },
            Action::SendRequest { request_id, peer, message } => ActionView::SendRequest {
                request_id: *request_id,
                peer: *peer,
                message: message@,
            },
            Action::SendResponse { request_id, peer, response } => ActionView::SendResponse {
                request_id: *request_id,
                peer: *peer,
                response: *response,
            },
            Action::SendHeartbeat { block_height } => ActionView::SendHeartbeat {
                block_height: *block_height,
            },
            Action::DeliverReply(delivery) => ActionView::DeliverReply(*delivery),
            Action::StartDiscovery => ActionView::StartDiscovery,
        }
    }
}

/// What the transport reports to the service.
#[derive(Debug)]
pub enum TransportEvent {
    /// A connection with a peer stands; its handshake carried the
    /// checksum.
    ConnectionEstablished { peer: PeerId, addresses: Vec<Multiaddr>, checksum: [u8; 32] },
    /// A connection with a peer has ended; so many remain.
    ConnectionClosed { peer: PeerId, remaining_established: u32 },
    /// A dial of a peer has failed.
    DialFailure { peer: PeerId },
    /// A peer has told who it is.
    Identified { peer: PeerId, client_version: String, addresses: Vec<Multiaddr> },
    /// A peer has told its height.
    Heartbeat { peer: PeerId, block_height: BlockHeight },
    /// A peer has subscribed to a topic.
    Subscribed { peer: PeerId, topic_hash: String },
    /// A peer has unsubscribed from a topic.
    Unsubscribed { peer: PeerId, topic_hash: String },
    /// A peer has sent a gossip message.
    GossipMessage { peer: PeerId, topic_hash: String, payload: Vec<u8> },
    /// A peer has sent a request.
    InboundRequest { request_id: InboundRequestId, peer: PeerId, message: RequestMessage },
    /// The response to a request of this node has come.
    Response { request_id: OutboundRequestId, response: ResponseMessage },
    /// The response to a request of this node broke the rules of the wire.
    MalformedResponse { request_id: OutboundRequestId },
    /// The transport could not carry something to a peer: the peer is
    /// out of reach.
    TransportFailure { peer: PeerId },
}

/// Why a connection that came in was not kept.
#[derive(Clone, Copy, Debug, PartialEq, Eq, Structural)]
pub enum IncomingConnectionError {
    /// The handshake failed: the peer's checksum differs from this node's.
    Transport,
    /// The peer manager turned the peer away.
    Denied(AdmissionReject),
}

/// The abstract values of a queue of actions.
pub open spec fn action_views(actions: Seq<Action>) -> Seq<ActionView> {
    Seq::new(actions.len(), |i: int| actions[i]@)
}

/// The abstract values of a queue of events.
pub open spec fn event_views(events: Seq<FuelP2PEvent>) -> Seq<EventView> {
    Seq::new(events.len(), |i: int| events[i]@)
}

/// The abstract values of a list of dials.
pub open spec fn redial_views(dials: Seq<Redial>) -> Seq<RedialView> {
    Seq::new(dials.len(), |i: int| dials[i]@)
}

/// The dials that a list of addresses calls for: one for each address
/// that names a peer, in order and at once.
pub open spec fn dials_of(addresses: Seq<MultiaddrView>) -> Seq<RedialView>
    decreases addresses.len(),
{
    if addresses.len() == 0 {
        Seq::empty()
    } else {
        let rest = dials_of(addresses.drop_last());
        match addresses.last().peer {
            Some(peer) => rest.push(RedialView { peer, address: addresses.last(), delay_ms: 0 }),
            None => rest,
        }
    }
}

/// The actions that put `deliveries` into their slots, in order.
pub open spec fn reply_actions(deliveries: Seq<ReplyDelivery>) -> Seq<ActionView> {
    Seq::new(deliveries.len(), |i: int| ActionView::DeliverReply(deliveries[i]))
}

/// The actions that start the `dials`, in order.
pub open spec fn dial_actions(dials: Seq<RedialView>) -> Seq<ActionView> {
    Seq::new(dials.len(), |i: int| ActionView::Dial(dials[i]))
}

/// The dial to add, if there is one.
pub open spec fn optional_dial(redial: Option<RedialView>) -> Seq<ActionView> {
    match redial {
        Some(r) => seq![ActionView::Dial(r)],
        None => Seq::empty(),
    }
}

} // verus!
