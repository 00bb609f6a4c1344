//! The subscriptions that the transaction status manager holds.

use crate::ports::{MyReturner, P2PPreConfirmationGossipData};
use vstd::prelude::*;

verus! {

/// The sequences that the transaction status manager reads from.
pub struct Subscriptions {
    /// The gossiped pre-confirmations.
    pub new_tx_status: MyReturner<P2PPreConfirmationGossipData>,
}

} // verus!
