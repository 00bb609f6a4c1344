//! The messages that are gossiped.

use crate::bytes::clone_bytes;
use crate::gossipsub::topics::GossipTopicTag;
use crate::types::{PreConfirmationMessage, Transaction};
use vstd::prelude::*;

verus! {

/// What the embedder asks to have gossiped.
#[derive(Debug, PartialEq, Eq)]
pub enum GossipsubBroadcastRequest {
    NewTx(Transaction),
    TxPreConfirmations(PreConfirmationMessage),
}

/// A message that was gossiped, as the embedder receives it.
#[derive(Debug, PartialEq, Eq)]
pub enum GossipsubMessage {
    NewTx(Transaction),
    TxPreConfirmations(PreConfirmationMessage),
}

impl GossipsubBroadcastRequest {
    /// The kind of gossip that this request is.
    pub open spec fn spec_tag(&self) -> GossipTopicTag {
        match self {
            GossipsubBroadcastRequest::NewTx(_) => GossipTopicTag::NewTx,
            GossipsubBroadcastRequest::TxPreConfirmations(_) => GossipTopicTag::TxPreconfirmations,
        }
    }

    /// The bytes that travel.
    pub open spec fn spec_payload(&self) -> Seq<u8> {
        match self {
            GossipsubBroadcastRequest::NewTx(tx) => tx@,
            GossipsubBroadcastRequest::TxPreConfirmations(message) => message@,
        }
    }

    /// The kind of gossip that this request is.
    pub fn tag(&self) -> (tag: GossipTopicTag)
        ensures
            tag == self.spec_tag(),
    {
        match self {
            GossipsubBroadcastRequest::NewTx(_) => GossipTopicTag::NewTx,
            GossipsubBroadcastRequest::TxPreConfirmations(_) => GossipTopicTag::TxPreconfirmations,
        }
    }

    /// The bytes that travel.
    pub fn payload(&self) -> (payload: Vec<u8>)
        ensures
            payload@ == self.spec_payload(),
    {
        match self {
            GossipsubBroadcastRequest::NewTx(tx) => clone_bytes(&tx.bytes),
            GossipsubBroadcastRequest::TxPreConfirmations(message) => clone_bytes(&message.bytes),
        }
    }

    /// A copy of this request.
    pub fn duplicate(&self) -> (copy: GossipsubBroadcastRequest)
        ensures
            copy.spec_tag() == self.spec_tag(),
            copy.spec_payload() == self.spec_payload(),
    {
        match self {
            GossipsubBroadcastRequest::NewTx(tx) => GossipsubBroadcastRequest::NewTx(
                tx.duplicate(),
            ),
            GossipsubBroadcastRequest::TxPreConfirmations(message) => {
                GossipsubBroadcastRequest::TxPreConfirmations(message.duplicate())
            },
        }
    }
}

impl GossipsubMessage {
    /// The kind of gossip that this message is.
    pub open spec fn spec_tag(&self) -> GossipTopicTag {
        match self {
            GossipsubMessage::NewTx(_) => GossipTopicTag::NewTx,
            GossipsubMessage::TxPreConfirmations(_) => GossipTopicTag::TxPreconfirmations,
        }
    }

    /// The bytes that travelled.
    pub open spec fn spec_payload(&self) -> Seq<u8> {
        match self {
            GossipsubMessage::NewTx(tx) => tx@,
            GossipsubMessage::TxPreConfirmations(message) => message@,
        }
    }

    /// The message of kind `tag` that `payload` carries.
    pub fn decode(tag: GossipTopicTag, payload: Vec<u8>) -> (message: GossipsubMessage)
        ensures
            message.spec_tag() == tag,
            message.spec_payload() == payload@,
    {
        match tag {
            GossipTopicTag::NewTx => GossipsubMessage::NewTx(Transaction::new(payload)),
            GossipTopicTag::TxPreconfirmations => GossipsubMessage::TxPreConfirmations(
                PreConfirmationMessage::new(payload),
            ),
        }
    }

    /// Whether this message is what `expected` asked to have gossiped: of
    /// the same kind and with the same bytes.
    pub fn matches_request(&self, expected: &GossipsubBroadcastRequest) -> (r: bool)
        ensures
            r == (self.spec_tag() == expected.spec_tag() && self.spec_payload()
                == expected.spec_payload()),
    {
        match (self, expected) {
            (GossipsubMessage::NewTx(received), GossipsubBroadcastRequest::NewTx(requested)) => {
                received.same(requested)
            },
            (
                GossipsubMessage::TxPreConfirmations(received),
                GossipsubBroadcastRequest::TxPreConfirmations(requested),
            ) => received.same(requested),
            _ => false,
        }
    }
}

/// Takes a message that is what `expected` asked to have gossiped: of
/// the same kind and with the same bytes. A message of another kind or
/// with other bytes is no input of this function.
pub fn check_message_matches_request(message: &GossipsubMessage, expected: &GossipsubBroadcastRequest)
    requires
        message.spec_tag() == expected.spec_tag(),
        message.spec_payload() == expected.spec_payload(),
{
    let same = message.matches_request(expected);
    assert(same);
}

} // verus!
