//! The peer manager: which peers are connected, of which class, and who may
//! come in.
//!
//! [`model`] is the mathematical state machine; [`manager`] is the
//! executable manager, each of whose operations is proved to take the model
//! one step.

pub mod info;
pub mod manager;
pub mod model;
