//! The service: one state machine that owns the peer manager, the gossip
//! layer and the two tables of requests.
//!
//! The service does no input or output. What the transport reports is
//! handed to it event by event, what the embedder wants is handed to it
//! command by command, and each call leaves behind what is to happen next:
//! actions for the transport and events for the embedder, each in a queue
//! that is emptied in the order in which it was filled.
//!
//! [`model`] is the mathematical state machine, [`service`] the executable
//! one, [`events`] what the two say to the outside, and [`laws`] what
//! holds of every run.

pub mod events;
pub mod laws;
pub mod model;
pub mod service;

pub use events::{Action, FuelP2PEvent, IncomingConnectionError, TransportEvent};
pub use service::FuelP2PService;
