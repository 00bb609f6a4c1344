//! Requests and responses between two peers: the messages, the table that
//! correlates each outbound request with its one outcome, and the table of
//! inbound requests that await the embedder's answer.

pub mod codec;
pub mod inbound;
pub mod messages;
pub mod outbound;
