//! The data of the node's query interface: what a client sends and what
//! the node answers, as plain values.

pub mod primitives;
pub mod tx;
