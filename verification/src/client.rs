//! Paging through results, and a transaction with its status as a client
//! receives it.

use crate::schema::tx::TransactionStatus;
use crate::types::Transaction;
use vstd::prelude::*;

verus! {

/// The direction in which a client pages.
#[derive(Clone, Copy, Debug, PartialEq, Eq, Structural)]
pub enum PageDirection {
    Forward,
    Backward,
}

/// A request for one page: where to start, how many results, which way.
#[derive(Clone, Debug)]
pub struct PaginationRequest<T> {
    pub cursor: Option<T>,
    pub results: i32,
    pub direction: PageDirection,
}

/// One page of results.
#[derive(Debug)]
pub struct PaginatedResult<T, C> {
    pub cursor: Option<C>,
    pub results: Vec<T>,
    pub has_next_page: bool,
    pub has_previous_page: bool,
}

/// A transaction with the status that the node reports for it.
#[derive(Debug)]
pub struct TransactionResponse {
    pub transaction: Transaction,
    pub status: TransactionStatus,
}

} // verus!
