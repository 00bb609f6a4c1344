//! The topics of the overlay.
//!
//! A topic's name is a base name and the name of the network, so that
//! nodes of different networks never share a topic. On the wire a topic
//! goes by the hash of its name.

use crate::bytes::{clone_text, text_eq};
use vstd::prelude::*;
use vstd::string::StringExecFns;

verus! {

/// The base name of the topic on which new transactions are gossiped.
pub const NEW_TX_GOSSIP_TOPIC: &'static str = "new_tx";

/// The base name of the topic on which pre-confirmations are gossiped.
pub const TX_PRECONFIRMATIONS_GOSSIP_TOPIC: &'static str = "tx_preconfirmations";

/// The two kinds of gossip.
#[derive(Clone, Copy, Debug, PartialEq, Eq, Hash, Structural)]
pub enum GossipTopicTag {
    NewTx,
    TxPreconfirmations,
}

/// The hash of a topic's name as `libp2p` computes it for a
/// `Sha256Topic`: the base64 text of the SHA-256 digest of the name's
/// topic descriptor.
pub uninterp spec fn sha256_topic_hash(name: Seq<char>) -> Seq<char>;

/// Calls `libp2p::gossipsub::Sha256Topic::new` on the name, `hash` on the
/// topic and `into_string` on the hash. Trusted: the text is the hash
/// named [`sha256_topic_hash`], a function of the name alone.
#[verifier::external_body]
fn hash_topic_name(name: &str) -> (hash: String)
    ensures
        hash@ == sha256_topic_hash(name@),
{
    libp2p::gossipsub::Sha256Topic::new(name).hash().into_string()
}

/// The base name of a kind of gossip.
pub open spec fn base_topic(tag: GossipTopicTag) -> Seq<char> {
    match tag {
        GossipTopicTag::NewTx => NEW_TX_GOSSIP_TOPIC@,
        GossipTopicTag::TxPreconfirmations => TX_PRECONFIRMATIONS_GOSSIP_TOPIC@,
    }
}

/// The name of a topic: the base name, a slash, the network's name.
pub open spec fn spec_topic_name(tag: GossipTopicTag, network_name: Seq<char>) -> Seq<char> {
    base_topic(tag) + "/"@ + network_name
}

/// The hash of a topic on a network.
pub open spec fn spec_topic_hash(tag: GossipTopicTag, network_name: Seq<char>) -> Seq<char> {
    sha256_topic_hash(spec_topic_name(tag, network_name))
}

/// The name of the topic of `tag` on the network `network_name`.
pub fn topic_name(tag: GossipTopicTag, network_name: &str) -> (name: String)
    ensures
        name@ == spec_topic_name(tag, network_name@),
{
    let base = match tag {
        GossipTopicTag::NewTx => NEW_TX_GOSSIP_TOPIC,
        GossipTopicTag::TxPreconfirmations => TX_PRECONFIRMATIONS_GOSSIP_TOPIC,
    };
    let mut name = String::from_str(base);
    name.append("/");
    name.append(network_name);
    name
}

/// The hash of the topic of `tag` on the network `network_name`.
pub fn topic_hash(tag: GossipTopicTag, network_name: &str) -> (hash: String)
    ensures
        hash@ == spec_topic_hash(tag, network_name@),
{
    let name = topic_name(tag, network_name);
    hash_topic_name(name.as_str())
}

/// The topics of one node: their hashes on its network, and which of them
/// the node subscribes to.
#[derive(Debug)]
pub struct GossipsubTopics {
    new_tx_topic: String,
    tx_preconfirmations_topic: String,
    subscribe_to_new_tx: bool,
    subscribe_to_pre_confirmations: bool,
    network_name: String,
}

/// What a [`GossipsubTopics`] stands for.
pub struct GossipsubTopicsView {
    pub network_name: Seq<char>,
    pub subscribe_to_new_tx: bool,
    pub subscribe_to_pre_confirmations: bool,
}

impl GossipsubTopicsView {
    /// The hash under which the topic of `tag` goes.
    pub open spec fn hash_of(self, tag: GossipTopicTag) -> Seq<char> {
        spec_topic_hash(tag, self.network_name)
    }

    /// Whether the node subscribes to the topic of `tag`.
    pub open spec fn subscribes_to(self, tag: GossipTopicTag) -> bool {
        match tag {
            GossipTopicTag::NewTx => self.subscribe_to_new_tx,
            GossipTopicTag::TxPreconfirmations => self.subscribe_to_pre_confirmations,
        }
    }

    /// The kind of gossip that goes by `hash`, if it is one of the two.
    pub open spec fn tag_of(self, hash: Seq<char>) -> Option<GossipTopicTag> {
        if hash == self.hash_of(GossipTopicTag::NewTx) {
            Some(GossipTopicTag::NewTx)
        } else if hash == self.hash_of(GossipTopicTag::TxPreconfirmations) {
            Some(GossipTopicTag::TxPreconfirmations)
        } else {
            None
        }
    }

    /// The kind of gossip that goes by `hash`, if the node subscribes to
    /// it.
    pub open spec fn subscribed_tag_of(self, hash: Seq<char>) -> Option<GossipTopicTag> {
        match self.tag_of(hash) {
            Some(tag) => if self.subscribes_to(tag) {
                Some(tag)
            } else {
                None
            },
            None => None,
        }
    }
}

impl View for GossipsubTopics {
    type V = GossipsubTopicsView;

    closed spec fn view(&self) -> GossipsubTopicsView {
        GossipsubTopicsView {
            network_name: self.network_name@,
            subscribe_to_new_tx: self.subscribe_to_new_tx,
            subscribe_to_pre_confirmations: self.subscribe_to_pre_confirmations,
        }
    }
}

impl GossipsubTopics {
    /// The representation invariant: the hashes kept are those of the two
    /// topics on the node's network.
    pub closed spec fn wf(&self) -> bool {
        &&& self.new_tx_topic@ == self@.hash_of(GossipTopicTag::NewTx)
        &&& self.tx_preconfirmations_topic@ == self@.hash_of(GossipTopicTag::TxPreconfirmations)
    }

    /// The topics of a node on the network `network_name`.
    pub fn new(
        network_name: &str,
        subscribe_to_new_tx: bool,
        subscribe_to_pre_confirmations: bool,
    ) -> (topics: GossipsubTopics)
        ensures
            topics.wf(),
            topics@ == (GossipsubTopicsView {
                network_name: network_name@,
                subscribe_to_new_tx,
                subscribe_to_pre_confirmations,
            }),
    {
        GossipsubTopics {
            new_tx_topic: topic_hash(GossipTopicTag::NewTx, network_name),
            tx_preconfirmations_topic: topic_hash(GossipTopicTag::TxPreconfirmations, network_name),
            subscribe_to_new_tx,
            subscribe_to_pre_confirmations,
            network_name: String::from_str(network_name),
        }
    }

    /// Whether the node subscribes to the topic of `tag`.
    pub fn subscribes_to(&self, tag: GossipTopicTag) -> (b: bool)
        ensures
            b == self@.subscribes_to(tag),
    {
        match tag {
            GossipTopicTag::NewTx => self.subscribe_to_new_tx,
            GossipTopicTag::TxPreconfirmations => self.subscribe_to_pre_confirmations,
        }
    }

    /// The kind of gossip that goes by `topic_hash`, if it is one of the
    /// two.
    pub fn get_gossipsub_tag(&self, topic_hash: &String) -> (tag: Option<GossipTopicTag>)
        requires
            self.wf(),
        ensures
            tag == self@.tag_of(topic_hash@),
    {
        if text_eq(topic_hash, &self.new_tx_topic) {
            Some(GossipTopicTag::NewTx)
        } else if text_eq(topic_hash, &self.tx_preconfirmations_topic) {
            Some(GossipTopicTag::TxPreconfirmations)
        } else {
            None
        }
    }

    /// The kind of gossip that goes by `topic_hash`, if the node
    /// subscribes to it.
    pub fn get_subscribed_tag(&self, topic_hash: &String) -> (tag: Option<GossipTopicTag>)
        requires
            self.wf(),
        ensures
            tag == self@.subscribed_tag_of(topic_hash@),
    {
        match self.get_gossipsub_tag(topic_hash) {
            Some(tag) => if self.subscribes_to(tag) {
                Some(tag)
            } else {
                None
            },
            None => None,
        }
    }

    /// The hash under which the topic of `tag` goes.
    pub fn get_gossipsub_topic_hash(&self, tag: GossipTopicTag) -> (hash: String)
        requires
            self.wf(),
        ensures
            hash@ == self@.hash_of(tag),
    {
        match tag {
            GossipTopicTag::NewTx => clone_text(&self.new_tx_topic),
            GossipTopicTag::TxPreconfirmations => clone_text(&self.tx_preconfirmations_topic),
        }
    }
}

} // verus!
