//! Values of the chain that the overlay carries and the client decodes.
//!
//! The overlay routes these values and never looks inside a payload, so a
//! transaction is the bytes of its canonical form and a header holds its
//! parts as bytes.

use crate::bytes::{bytes_eq, clone_bytes};
use core::ops::Range;
use vstd::prelude::*;

verus! {

/// The identity of a transaction.
pub type TxId = [u8; 32];

/// A transaction in its canonical form.
#[derive(Debug, PartialEq, Eq)]
pub struct Transaction {
    pub bytes: Vec<u8>,
}

impl View for Transaction {
    type V = Seq<u8>;

    open spec fn view(&self) -> Seq<u8> {
        self.bytes@
    }
}

impl Transaction {
    /// The value whose canonical form is `bytes`.
    pub fn new(bytes: Vec<u8>) -> (tx: Transaction)
        ensures
            tx@ == bytes@,
    {
        Transaction { bytes }
    }

    /// Whether both have the same canonical form.
    pub fn same(&self, other: &Transaction) -> (r: bool)
        ensures
            r == (self@ == other@),
    {
        bytes_eq(&self.bytes, &other.bytes)
    }

    /// A copy of this value.
    pub fn duplicate(&self) -> (tx: Transaction)
        ensures
            tx@ == self@,
    {
        Transaction { bytes: clone_bytes(&self.bytes) }
    }
}

/// How a script ended.
#[derive(Clone, Copy, Debug, PartialEq, Eq)]
pub enum ProgramState {
    Return(u64),
    ReturnData([u8; 32]),
    Revert(u64),
}

/// A receipt in its canonical form.
#[derive(Debug, PartialEq, Eq)]
pub struct Receipt {
    pub bytes: Vec<u8>,
}

/// What executing a transaction came to.
#[derive(Debug)]
pub enum TransactionExecutionResult {
    Success { result: Option<ProgramState>, receipts: Vec<Receipt>, total_gas: u64, total_fee: u64 },
    Failed { result: Option<ProgramState>, receipts: Vec<Receipt>, total_gas: u64, total_fee: u64 },
}

/// A transaction's id with what executing it came to.
#[derive(Debug)]
pub struct TransactionExecutionStatus {
    pub id: TxId,
    pub result: TransactionExecutionResult,
}

/// A block header: the height, the part that the application reads, the
/// part that consensus reads, and metadata that a node derives locally and
/// that does not travel.
#[derive(Debug, PartialEq, Eq)]
pub struct BlockHeader {
    pub height: u32,
    pub application: Vec<u8>,
    pub consensus: Vec<u8>,
    pub metadata: Option<Vec<u8>>,
}

/// A block header with the seal that consensus put on it.
#[derive(Debug, PartialEq, Eq)]
pub struct SealedBlockHeader {
    pub entity: BlockHeader,
    pub consensus: Vec<u8>,
}

impl SealedBlockHeader {
    /// Whether two headers agree in everything that travels: the height,
    /// the application part and the consensus part.
    pub fn eq_except_metadata(&self, other: &SealedBlockHeader) -> (r: bool)
        ensures
            r == (self.entity.height == other.entity.height && self.entity.application@
                == other.entity.application@ && self.entity.consensus@
                == other.entity.consensus@),
    {
        self.entity.height == other.entity.height && bytes_eq(
            &self.entity.application,
            &other.entity.application,
        ) && bytes_eq(&self.entity.consensus, &other.entity.consensus)
    }
}

/// What the header for the height `height` looks like among the headers
/// made up for a range: nothing in its application part and its consensus
/// part, no metadata, and a seal of sixty-four zero bytes.
pub open spec fn is_arbitrary_header(header: SealedBlockHeader, height: int) -> bool {
    &&& header.entity.height == height
    &&& header.entity.application@ == Seq::<u8>::empty()
    &&& header.entity.consensus@ == Seq::<u8>::empty()
    &&& header.entity.metadata is None
    &&& header.consensus@ == Seq::new(64, |i: int| 0u8)
}

/// A seal of sixty-four zero bytes.
fn zero_seal() -> (seal: Vec<u8>)
    ensures
        seal@ == Seq::new(64, |i: int| 0u8),
{
    let mut seal: Vec<u8> = Vec::new();
    let mut filled: usize = 0;
    while filled < 64
        invariant
            filled <= 64,
            seal@.len() == filled,
            forall|j: int| 0 <= j < filled ==> seal@[j] == 0u8,
        decreases 64 - filled,
    {
        seal.push(0u8);
        filled = filled + 1;
    }
    assert(seal@ =~= Seq::new(64, |i: int| 0u8));
    seal
}

/// Makes up one sealed header for each height in `range`, in order. The
/// headers differ in their heights and in nothing else.
pub fn arbitrary_headers_for_range(range: Range<u32>) -> (headers: Vec<SealedBlockHeader>)
    ensures
        headers@.len() == (if range.start < range.end {
            range.end - range.start
        } else {
            0
        }),
        forall|i: int|
            0 <= i < headers@.len() ==> is_arbitrary_header(#[trigger] headers@[i], range.start + i),
{
    let mut headers: Vec<SealedBlockHeader> = Vec::new();
    if range.start >= range.end {
        return headers;
    }
    let mut height: u32 = range.start;
    while height < range.end
        invariant
            range.start <= height <= range.end,
            headers@.len() == height - range.start,
            forall|i: int|
                0 <= i < headers@.len() ==> is_arbitrary_header(
                    #[trigger] headers@[i],
                    range.start + i,
                ),
        decreases range.end - height,
    {
        headers.push(
            SealedBlockHeader {
                entity: BlockHeader {
                    height,
                    application: Vec::new(),
                    consensus: Vec::new(),
                    metadata: None,
                },
                consensus: zero_seal(),
            },
        );
        height = height + 1;
    }
    headers
}

/// The transactions of one block.
#[derive(Debug, PartialEq, Eq)]
pub struct Transactions(pub Vec<Transaction>);

/// A transaction as the pool hands it to a peer.
#[derive(Debug, PartialEq, Eq)]
pub enum NetworkableTransactionPool {
    Transaction(Transaction),
}

/// The verdict of the embedder on a gossip message.
#[derive(Clone, Copy, Debug, PartialEq, Eq, Structural)]
pub enum GossipsubMessageAcceptance {
    Accept,
    Reject,
    Ignore,
}

/// A pre-confirmation of transactions, signed by a delegate, in its
/// canonical form.
#[derive(Debug, PartialEq, Eq)]
pub struct PreConfirmationMessage {
    pub bytes: Vec<u8>,
}

impl View for PreConfirmationMessage {
    type V = Seq<u8>;

    open spec fn view(&self) -> Seq<u8> {
        self.bytes@
    }
}

impl PreConfirmationMessage {
    /// The value whose canonical form is `bytes`.
    pub fn new(bytes: Vec<u8>) -> (message: PreConfirmationMessage)
        ensures
            message@ == bytes@,
    {
        PreConfirmationMessage { bytes }
    }

    /// Whether both have the same canonical form.
    pub fn same(&self, other: &PreConfirmationMessage) -> (r: bool)
        ensures
            r == (self@ == other@),
    {
        bytes_eq(&self.bytes, &other.bytes)
    }

    /// A copy of this value.
    pub fn duplicate(&self) -> (message: PreConfirmationMessage)
        ensures
            message@ == self@,
    {
        PreConfirmationMessage { bytes: clone_bytes(&self.bytes) }
    }
}

} // verus!
