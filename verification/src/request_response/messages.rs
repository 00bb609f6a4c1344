//! The messages of the request/response protocol and the errors around
//! them.

use crate::ids::PeerId;
use crate::types::{NetworkableTransactionPool, SealedBlockHeader, Transactions, TxId};
use core::ops::Range;
use vstd::prelude::*;

verus! {

/// What one peer asks of another.
#[derive(Debug, PartialEq, Eq)]
pub enum RequestMessage {
    /// The sealed headers of the blocks whose heights lie in the range.
    SealedHeaders(Range<u32>),
    /// The transactions of the blocks whose heights lie in the range.
    Transactions(Range<u32>),
    /// The ids of all transactions in the peer's pool.
    TxPoolAllTransactionsIds,
    /// The transactions with the given ids from the peer's pool.
    TxPoolFullTransactions(Vec<TxId>),
}

/// The four kinds of request, and of response.
#[derive(Clone, Copy, Debug, PartialEq, Eq, Structural)]
pub enum RequestKind {
    SealedHeaders,
    Transactions,
    TxPoolAllTransactionsIds,
    TxPoolFullTransactions,
}

/// Why a peer that was asked sends no payload.
#[derive(Clone, Copy, Debug, PartialEq, Eq, Structural)]
pub enum ResponseMessageErrorCode {
    /// The peer speaks an older protocol and sent an empty response.
    ProtocolV1EmptyResponse,
    RequestedRangeTooLarge,
    Timeout,
    SyncProcessorOutOfCapacity,
    Unknown,
}

/// What a peer answers: for each kind of request, the payload or the
/// reason why there is none.
#[derive(Debug, PartialEq, Eq)]
pub enum ResponseMessage {
    SealedHeaders(Result<Vec<SealedBlockHeader>, ResponseMessageErrorCode>),
    Transactions(Result<Vec<Transactions>, ResponseMessageErrorCode>),
    TxPoolAllTransactionsIds(Result<Vec<TxId>, ResponseMessageErrorCode>),
    TxPoolFullTransactions(Result<Vec<Option<NetworkableTransactionPool>>, ResponseMessageErrorCode>),
}

/// The response of the second version of the protocol, which carries the
/// reason where it carries no payload.
pub type V2ResponseMessage = ResponseMessage;

/// The slot in which the caller awaits the outcome of a request. A slot
/// takes responses of one kind.
#[derive(Clone, Copy, Debug, PartialEq, Eq, Structural)]
pub enum ResponseSender {
    SealedHeaders,
    Transactions,
    TxPoolAllTransactionsIds,
    TxPoolFullTransactions,
}

/// Why the overlay itself ended a request.
#[derive(Clone, Copy, Debug, PartialEq, Eq, Structural)]
pub enum RequestResponseError {
    /// No response came before the deadline.
    Timeout,
    /// The peer that was asked disconnected.
    PeerDisconnected,
    /// The service was shut down.
    Shutdown,
}

/// Why a request has no payload for its caller.
#[derive(Clone, Copy, Debug, PartialEq, Eq, Structural)]
pub enum ResponseError {
    /// The response is of another kind than the request.
    TypeMismatch,
    /// The overlay ended the request.
    P2P(RequestResponseError),
    /// The peer broke the rules of the wire.
    ProtocolViolation,
}

/// Why a request or a response could not be sent.
#[derive(Clone, Copy, Debug, PartialEq, Eq, Structural)]
pub enum SendError {
    /// No peer is connected that may be asked.
    NoEligiblePeer,
    /// The table of pending requests has no room.
    Full,
    /// The other end is gone: the service is shut down, or the request to
    /// answer is not pending.
    Closed,
}

/// What a [`RequestMessage`] stands for.
pub enum RequestView {
    SealedHeaders { start: u32, end: u32 },
    Transactions { start: u32, end: u32 },
    TxPoolAllTransactionsIds,
    TxPoolFullTransactions(Seq<TxId>),
}

impl View for RequestMessage {
    type V = RequestView;

    open spec fn view(&self) -> RequestView {
        match self {
            RequestMessage::SealedHeaders(range) => RequestView::SealedHeaders {
                start: range.start,
                end: range.end,
            },
            RequestMessage::Transactions(range) => RequestView::Transactions {
                start: range.start,
                end: range.end,
            },
            RequestMessage::TxPoolAllTransactionsIds => RequestView::TxPoolAllTransactionsIds,
            RequestMessage::TxPoolFullTransactions(ids) => RequestView::TxPoolFullTransactions(
                ids@,
            ),
        }
    }
}

impl Clone for RequestMessage {
    fn clone(&self) -> (copy: RequestMessage)
        ensures
            copy@ == self@,
    {
        match self {
            RequestMessage::SealedHeaders(range) => RequestMessage::SealedHeaders(
                Range { start: range.start, end: range.end },
            ),
            RequestMessage::Transactions(range) => RequestMessage::Transactions(
                Range { start: range.start, end: range.end },
            ),
            RequestMessage::TxPoolAllTransactionsIds => RequestMessage::TxPoolAllTransactionsIds,
            RequestMessage::TxPoolFullTransactions(ids) => {
                let mut copy: Vec<TxId> = Vec::new();
                let mut i: usize = 0;
                while i < ids.len()
                    invariant
                        i <= ids@.len(),
                        copy@ == ids@.subrange(0, i as int),
                    decreases ids@.len() - i,
                {
                    copy.push(ids[i]);
                    assert(copy@ =~= ids@.subrange(0, i + 1));
                    i = i + 1;
                }
                assert(copy@ =~= ids@);
                RequestMessage::TxPoolFullTransactions(copy)
            },
        }
    }
}

impl RequestMessage {
    /// The kind of this message.
    pub open spec fn spec_kind(&self) -> RequestKind {
        match self {
            RequestMessage::SealedHeaders(_) => RequestKind::SealedHeaders,
            RequestMessage::Transactions(_) => RequestKind::Transactions,
            RequestMessage::TxPoolAllTransactionsIds => RequestKind::TxPoolAllTransactionsIds,
            RequestMessage::TxPoolFullTransactions(_) => RequestKind::TxPoolFullTransactions,
        }
    }

    /// The kind of this request.
    pub fn kind(&self) -> (kind: RequestKind)
        ensures
            kind == self.spec_kind(),
    {
        match self {
            RequestMessage::SealedHeaders(_) => RequestKind::SealedHeaders,
            RequestMessage::Transactions(_) => RequestKind::Transactions,
            RequestMessage::TxPoolAllTransactionsIds => RequestKind::TxPoolAllTransactionsIds,
            RequestMessage::TxPoolFullTransactions(_) => RequestKind::TxPoolFullTransactions,
        }
    }
}

impl ResponseMessage {
    /// The kind of this message.
    pub open spec fn spec_kind(&self) -> RequestKind {
        match self {
            ResponseMessage::SealedHeaders(_) => RequestKind::SealedHeaders,
            ResponseMessage::Transactions(_) => RequestKind::Transactions,
            ResponseMessage::TxPoolAllTransactionsIds(_) => RequestKind::TxPoolAllTransactionsIds,
            ResponseMessage::TxPoolFullTransactions(_) => RequestKind::TxPoolFullTransactions,
        }
    }

    /// The kind of request that this response answers.
    pub fn kind(&self) -> (kind: RequestKind)
        ensures
            kind == self.spec_kind(),
    {
        match self {
            ResponseMessage::SealedHeaders(_) => RequestKind::SealedHeaders,
            ResponseMessage::Transactions(_) => RequestKind::Transactions,
            ResponseMessage::TxPoolAllTransactionsIds(_) => RequestKind::TxPoolAllTransactionsIds,
            ResponseMessage::TxPoolFullTransactions(_) => RequestKind::TxPoolFullTransactions,
        }
    }
}

impl ResponseSender {
    /// The kind of this message.
    pub open spec fn spec_kind(&self) -> RequestKind {
        match self {
            ResponseSender::SealedHeaders => RequestKind::SealedHeaders,
            ResponseSender::Transactions => RequestKind::Transactions,
            ResponseSender::TxPoolAllTransactionsIds => RequestKind::TxPoolAllTransactionsIds,
            ResponseSender::TxPoolFullTransactions => RequestKind::TxPoolFullTransactions,
        }
    }

    /// The kind of response that this slot takes.
    pub fn kind(&self) -> (kind: RequestKind)
        ensures
            kind == self.spec_kind(),
    {
        match self {
            ResponseSender::SealedHeaders => RequestKind::SealedHeaders,
            ResponseSender::Transactions => RequestKind::Transactions,
            ResponseSender::TxPoolAllTransactionsIds => RequestKind::TxPoolAllTransactionsIds,
            ResponseSender::TxPoolFullTransactions => RequestKind::TxPoolFullTransactions,
        }
    }
}

/// What the caller of a request finds in its slot: the peer that answered
/// with its response, or the reason why there is none.
pub type ResponseResult = Result<(PeerId, ResponseMessage), ResponseError>;

} // verus!
