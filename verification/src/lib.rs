//! Core of a peer-to-peer overlay for a blockchain node: peer admission,
//! gossip dissemination with validation feedback, and correlated
//! request/response exchanges, written as plain state machines whose
//! behaviour is stated in contracts and proved.
//!
//! The library does no input or output and reads no clock. Whoever embeds
//! it hands it what the transport reports and what time it is, and carries
//! out what it asks for.
//!
//! - [`p2p_service`] is the service that ties the parts together.
//! - [`peer_manager`] decides who may connect and keeps a record of each
//!   connected peer.
//! - [`gossipsub`] publishes, deduplicates and forwards gossip.
//! - [`request_response`] correlates requests with their one outcome and
//!   puts requests and frames on the wire.
//! - [`config`] holds the options of a node.
//! - [`ports`] and [`subscriptions`] are what the transaction status
//!   manager sees of the overlay.
//! - [`schema`] and [`client`] hold the data of the node's query interface
//!   for transactions.
//! - [`ids`], [`types`], [`table`], [`bytes`], [`numbers`], [`digest`],
//!   [`canonical`] and [`random`] are what the others stand on.

pub mod bytes;
pub mod canonical;
pub mod client;
pub mod config;
pub mod digest;
pub mod gossipsub;
pub mod ids;
pub mod numbers;
pub mod p2p_service;
pub mod peer_manager;
pub mod ports;
pub mod random;
pub mod request_response;
pub mod schema;
pub mod subscriptions;
pub mod table;
pub mod types;
