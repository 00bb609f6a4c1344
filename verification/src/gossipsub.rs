//! Gossip: the topics, the messages, and the layer that publishes,
//! deduplicates, surfaces what comes in and feeds the embedder's verdicts
//! back.

pub mod layer;
pub mod messages;
pub mod topics;
