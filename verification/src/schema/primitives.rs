//! The scalar values of the query interface.

use vstd::prelude::*;

verus! {

/// A byte string.
#[derive(Clone, Debug, PartialEq, Eq)]
pub struct Bytes(pub Vec<u8>);

/// A byte string that travels as hexadecimal text.
#[derive(Clone, Debug, PartialEq, Eq)]
pub struct HexString(pub Bytes);

/// The id of a transaction.
#[derive(Clone, Copy, Debug, PartialEq, Eq)]
pub struct TransactionId(pub [u8; 32]);

/// The address of an owner.
#[derive(Clone, Copy, Debug, PartialEq, Eq)]
pub struct Address(pub [u8; 32]);

/// The id of an asset.
#[derive(Clone, Copy, Debug, PartialEq, Eq)]
pub struct AssetId(pub [u8; 32]);

/// The nonce of a message.
#[derive(Clone, Copy, Debug, PartialEq, Eq)]
pub struct Nonce(pub [u8; 32]);

/// A number of sixteen bits.
#[derive(Clone, Copy, Debug, PartialEq, Eq, Structural)]
pub struct U16(pub u16);

/// A number of thirty-two bits.
#[derive(Clone, Copy, Debug, PartialEq, Eq, Structural)]
pub struct U32(pub u32);

/// A number of sixty-four bits.
#[derive(Clone, Copy, Debug, PartialEq, Eq, Structural)]
pub struct U64(pub u64);

/// A point in time, in seconds of the TAI64 scale.
#[derive(Clone, Copy, Debug, PartialEq, Eq, Structural)]
pub struct Tai64Timestamp(pub u64);

/// An output of a transaction, by the transaction and the output's index.
#[derive(Clone, Copy, Debug, PartialEq, Eq)]
pub struct UtxoId {
    pub tx_id: [u8; 32],
    pub output_index: u16,
}

/// The place of a transaction in the chain.
#[derive(Clone, Copy, Debug, PartialEq, Eq, Structural)]
pub struct TxPointer {
    pub block_height: u32,
    pub tx_index: u16,
}

/// Where a page of results stands in the whole.
#[derive(Clone, Debug, PartialEq, Eq)]
pub struct PageInfo {
    pub end_cursor: Option<String>,
    pub has_next_page: bool,
    pub has_previous_page: bool,
    pub start_cursor: Option<String>,
}

/// The arguments that select a page.
#[derive(Clone, Debug, PartialEq, Eq)]
pub struct ConnectionArgs {
    pub after: Option<String>,
    pub before: Option<String>,
    pub first: Option<i32>,
    pub last: Option<i32>,
}

/// A receipt as the node reports it, in its canonical form.
#[derive(Clone, Debug, PartialEq, Eq)]
pub struct Receipt {
    pub raw: HexString,
}

/// An output as the node reports it, in its canonical form.
#[derive(Clone, Debug, PartialEq, Eq)]
pub struct Output {
    pub raw: HexString,
}

/// Inputs that an assembled transaction must not spend.
#[derive(Clone, Debug, PartialEq, Eq)]
pub struct ExcludeInput {
    pub utxos: Vec<UtxoId>,
    pub messages: Vec<Nonce>,
}

/// One read of the storage that a dry run recorded.
#[derive(Clone, Debug, PartialEq, Eq)]
pub struct StorageReadReplayEvent {
    pub column: U32,
    pub key: HexString,
    pub value: Option<HexString>,
}

/// Why a value of the query interface could not be turned into a value of
/// the chain.
#[derive(Clone, Debug, PartialEq, Eq)]
pub enum ConversionError {
    /// A field that the conversion needs is absent.
    MissingField(String),
    /// The node sent a variant that this client does not know.
    UnknownVariant(String),
    /// A byte string has not the length that its type has.
    BytesLength,
    /// The bytes are not a transaction.
    TransactionFromBytesError,
}

} // verus!
