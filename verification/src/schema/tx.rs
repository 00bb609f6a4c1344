//! Transactions in the query interface: the queries, their arguments, the
//! statuses the node reports, and how they turn into values of the chain.

use crate::canonical::{canonical_transaction, decode_transaction};
use crate::client::{PageDirection, PaginatedResult, PaginationRequest, TransactionResponse};
use crate::schema::primitives::{
    Address, AssetId, ConversionError, ExcludeInput, HexString, Output, PageInfo,
    Receipt, StorageReadReplayEvent, Tai64Timestamp, TransactionId, TxPointer, UtxoId, U16, U32,
    U64,
};
use crate::types;
use vstd::prelude::*;
use vstd::string::StringExecFns;

verus! {

/// The argument of a query for one transaction: its id.
#[derive(Debug)]
pub struct TxIdArgs {
    pub id: TransactionId,
}

/// Retrieves the transaction in opaque form
#[derive(Clone, Debug)]
pub struct TransactionQuery {
    pub transaction: Option<OpaqueTransactionWithStatus>,
}

/// Retrieves the status of the transaction
#[derive(Clone, Debug)]
pub struct TransactionStatusQuery {
    pub transaction: Option<OpaqueTransactionStatus>,
}

/// Retrieves a page of transactions
#[derive(Clone, Debug)]
pub struct TransactionsQuery {
    pub transactions: TransactionConnection,
}

/// A page of transactions with its place in the whole.
#[derive(Clone, Debug)]
pub struct TransactionConnection {
    pub edges: Vec<TransactionEdge>,
    pub page_info: PageInfo,
}

/// One transaction of a page, with the cursor that points at it.
#[derive(Clone, Debug)]
pub struct TransactionEdge {
    pub cursor: String,
    pub node: OpaqueTransactionWithStatus,
}

/// A transaction as the bytes of its canonical form.
#[derive(Clone, Debug)]
pub struct OpaqueTransaction {
    pub raw_payload: HexString,
}

/// A transaction as the bytes of its canonical form, with its status if it
/// has one.
#[derive(Clone, Debug)]
pub struct OpaqueTransactionWithStatus {
    pub raw_payload: HexString,
    pub status: Option<TransactionStatus>,
}

/// The status of a transaction without the transaction.
#[derive(Clone, Debug)]
pub struct OpaqueTransactionStatus {
    pub status: Option<TransactionStatus>,
}

/// The id of a transaction.
#[derive(Clone, Debug)]
pub struct TransactionIdFragment {
    pub id: TransactionId,
}

/// How a script ended.
#[derive(Clone, Copy, Debug, PartialEq, Eq, Structural)]
pub enum ReturnType {
    Return,
    ReturnData,
    Revert,
}

/// How a script ended, and the bytes it ended with.
#[derive(Clone, Debug)]
pub struct ProgramState {
    pub return_type: ReturnType,
    pub data: HexString,
}

/// The status of a transaction.
#[derive(Clone, Debug)]
pub enum TransactionStatus {
    SubmittedStatus(SubmittedStatus),
    SuccessStatus(SuccessStatus),
    PreconfirmationSuccessStatus(PreconfirmationSuccessStatus),
    SqueezedOutStatus(SqueezedOutStatus),
    FailureStatus(FailureStatus),
    PreconfirmationFailureStatus(PreconfirmationFailureStatus),
    Unknown,
}

/// The status of a transaction, with the transaction where the status knows
/// it.
#[derive(Clone, Debug)]
pub enum StatusWithTransaction {
    SubmittedStatus(SubmittedStatus),
    SuccessStatus(SuccessStatusWithTransaction),
    PreconfirmationSuccessStatus(PreconfirmationSuccessStatusWithTransaction),
    SqueezedOutStatus(SqueezedOutStatus),
    FailureStatus(FailureStatusWithTransaction),
    PreconfirmationFailureStatus(PreconfirmationFailureStatusWithTransaction),
    Unknown,
}

/// The transaction was taken into the pool.
#[derive(Clone, Debug)]
pub struct SubmittedStatus {
    pub time: Tai64Timestamp,
}

/// The transaction was executed in a block and succeeded.
#[derive(Clone, Debug)]
pub struct SuccessStatus {
    pub block_height: U32,
    pub time: Tai64Timestamp,
    pub program_state: Option<ProgramState>,
    pub receipts: Vec<Receipt>,
    pub total_gas: U64,
    pub total_fee: U64,
}

/// The transaction was executed in a block and succeeded; with the
/// transaction.
#[derive(Clone, Debug)]
pub struct SuccessStatusWithTransaction {
    pub transaction: OpaqueTransaction,
    pub block_height: U32,
    pub time: Tai64Timestamp,
    pub program_state: Option<ProgramState>,
    pub receipts: Vec<Receipt>,
    pub total_gas: U64,
    pub total_fee: U64,
}

/// An output whose value was known only after execution.
#[derive(Clone, Debug)]
pub struct ResolvedOutput {
    pub utxo_id: UtxoId,
    pub output: Output,
}

/// The transaction was executed ahead of its block and succeeded.
#[derive(Clone, Debug)]
pub struct PreconfirmationSuccessStatus {
    pub tx_pointer: TxPointer,
    pub transaction_id: TransactionId,
    pub total_fee: U64,
    pub total_gas: U64,
    pub receipts: Option<Vec<Receipt>>,
    pub resolved_outputs: Option<Vec<ResolvedOutput>>,
}

/// The transaction was executed ahead of its block and succeeded; with the
/// transaction.
#[derive(Clone, Debug)]
pub struct PreconfirmationSuccessStatusWithTransaction {
    pub tx_pointer: TxPointer,
    pub transaction_id: TransactionId,
    pub total_fee: U64,
    pub total_gas: U64,
    pub transaction: Option<OpaqueTransaction>,
    pub receipts: Option<Vec<Receipt>>,
    pub resolved_outputs: Option<Vec<ResolvedOutput>>,
}

/// The transaction was executed in a block and failed.
#[derive(Clone, Debug)]
pub struct FailureStatus {
    pub block_height: U32,
    pub time: Tai64Timestamp,
    pub reason: String,
    pub program_state: Option<ProgramState>,
    pub receipts: Vec<Receipt>,
    pub total_gas: U64,
    pub total_fee: U64,
}

/// The transaction was executed in a block and failed; with the transaction.
#[derive(Clone, Debug)]
pub struct FailureStatusWithTransaction {
    pub transaction: OpaqueTransaction,
    pub block_height: U32,
    pub time: Tai64Timestamp,
    pub reason: String,
    pub program_state: Option<ProgramState>,
    pub receipts: Vec<Receipt>,
    pub total_gas: U64,
    pub total_fee: U64,
}

/// The transaction was executed ahead of its block and failed.
#[derive(Clone, Debug)]
pub struct PreconfirmationFailureStatus {
    pub tx_pointer: TxPointer,
    pub transaction_id: TransactionId,
    pub total_fee: U64,
    pub total_gas: U64,
    pub receipts: Option<Vec<Receipt>>,
    pub resolved_outputs: Option<Vec<ResolvedOutput>>,
    pub reason: String,
}

/// The transaction was executed ahead of its block and failed; with the
/// transaction.
#[derive(Clone, Debug)]
pub struct PreconfirmationFailureStatusWithTransaction {
    pub tx_pointer: TxPointer,
    pub transaction_id: TransactionId,
    pub total_fee: U64,
    pub total_gas: U64,
    pub transaction: Option<OpaqueTransaction>,
    pub receipts: Option<Vec<Receipt>>,
    pub resolved_outputs: Option<Vec<ResolvedOutput>>,
    pub reason: String,
}

/// The transaction was thrown out of the pool.
#[derive(Clone, Debug)]
pub struct SqueezedOutStatus {
    pub reason: String,
}

/// What a dry run of a transaction came to.
#[derive(Clone, Debug)]
pub enum DryRunTransactionStatus {
    SuccessStatus(DryRunSuccessStatus),
    FailureStatus(DryRunFailureStatus),
    Unknown,
}

/// The dry run succeeded.
#[derive(Clone, Debug)]
pub struct DryRunSuccessStatus {
    pub program_state: Option<ProgramState>,
    pub receipts: Vec<Receipt>,
    pub total_gas: U64,
    pub total_fee: U64,
}

/// The dry run failed.
#[derive(Clone, Debug)]
pub struct DryRunFailureStatus {
    pub program_state: Option<ProgramState>,
    pub receipts: Vec<Receipt>,
    pub total_gas: U64,
    pub total_fee: U64,
}

/// A transaction of a dry run, by its id, with what the run came to.
#[derive(Clone, Debug)]
pub struct DryRunTransactionExecutionStatus {
    pub id: TransactionId,
    pub status: DryRunTransactionStatus,
}

/// The arguments of a query for one page of an owner's transactions.
#[derive(Debug)]
pub struct TransactionsByOwnerConnectionArgs {
    /// Select transactions based on related `owner`s
    pub owner: Address,
    /// Skip until cursor (forward pagination)
    pub after: Option<String>,
    /// Skip until cursor (backward pagination)
    pub before: Option<String>,
    /// Retrieve the first n transactions in order (forward pagination)
    pub first: Option<i32>,
    /// Retrieve the last n transactions in order (backward pagination).
    /// Can't be used at the same time as `first`.
    pub last: Option<i32>,
}

/// Retrieves a page of an owner's transactions
#[derive(Clone, Debug)]
pub struct TransactionsByOwnerQuery {
    pub transactions_by_owner: TransactionConnection,
}

/// The arguments of a subscription to the status of a transaction.
#[derive(Debug)]
pub struct StatusChangeSubscriptionArgs {
    pub id: TransactionId,
    pub include_preconfirmation: Option<bool>,
}

/// Follows the status of a transaction
#[derive(Clone, Debug)]
pub struct StatusChangeSubscription {
    pub status_change: TransactionStatus,
}

// mutations
/// The argument of an operation on one transaction.
pub struct TxArg {
    pub tx: HexString,
}

/// A transaction, and whether its predicates are to be estimated first.
pub struct TxWithEstimatedPredicatesArg {
    pub tx: HexString,
    pub estimate_predicates: Option<bool>,
}

/// A transaction to submit, and what to do and to report on the way.
pub struct SubmitAndAwaitStatusArg {
    pub tx: HexString,
    pub estimate_predicates: Option<bool>,
    pub include_preconfirmation: Option<bool>,
}

/// Estimates the predicates of a transaction
#[derive(Clone, Debug)]
pub struct EstimatePredicates {
    pub estimate_predicates: OpaqueTransaction,
}

/// A predicate with its data, and the address that it owns.
#[derive(Clone, Debug)]
pub struct Predicate {
    pub predicate_address: Address,
    pub predicate: HexString,
    pub predicate_data: HexString,
}

/// Who pays: an address, or a predicate.
#[derive(Clone, Debug)]
pub struct Account {
    pub address: Option<Address>,
    pub predicate: Option<Predicate>,
}

/// What becomes of the change: it goes to an address, or it is destroyed.
#[derive(Clone, Debug)]
pub struct ChangePolicy {
    pub change: Option<Address>,
    pub destroy: Option<Destroy>,
}

/// The change is destroyed.
#[derive(Clone, Debug)]
pub enum Destroy {
    Destroy,
}

/// An amount of an asset that an account must provide, and what becomes of
/// the change.
#[derive(Clone, Debug)]
pub struct RequiredBalance {
    pub asset_id: AssetId,
    pub amount: U64,
    pub account: Account,
    pub change_policy: ChangePolicy,
}

/// The arguments for assembling a transaction.
pub struct AssembleTxArg {
    pub tx: HexString,
    pub block_horizon: U32,
    pub required_balances: Vec<RequiredBalance>,
    pub fee_address_index: U16,
    pub exclude_input: Option<ExcludeInput>,
    pub estimate_predicates: bool,
    pub reserve_gas: Option<U64>,
}

/// Assembles a transaction
#[derive(Clone, Debug)]
pub struct AssembleTx {
    pub assemble_tx: AssembleTransactionResult,
}

/// The assembled transaction, what its dry run came to, and the gas price
/// used.
#[derive(Clone, Debug)]
pub struct AssembleTransactionResult {
    pub transaction: OpaqueTransaction,
    pub status: DryRunTransactionStatus,
    pub gas_price: U64,
}

/// The arguments of a dry run.
pub struct DryRunArg {
    pub txs: Vec<HexString>,
    pub utxo_validation: Option<bool>,
    pub gas_price: Option<U64>,
    pub block_height: Option<U32>,
}

/// Runs transactions without committing them
#[derive(Clone, Debug)]
pub struct DryRun {
    pub dry_run: Vec<DryRunTransactionExecutionStatus>,
}

/// What a dry run came to, with the reads of the storage it made.
#[derive(Clone, Debug)]
pub struct DryRunStorageReads {
    pub tx_statuses: Vec<DryRunTransactionExecutionStatus>,
    pub storage_reads: Vec<StorageReadReplayEvent>,
}

/// Runs transactions without committing them and records their reads of the
/// storage
#[derive(Clone, Debug)]
pub struct DryRunRecordStorageReads {
    pub dry_run_record_storage_reads: DryRunStorageReads,
}

/// Submits a transaction
#[derive(Clone, Debug)]
pub struct Submit {
    pub submit: TransactionIdFragment,
}

/// Submits a transaction and follows its status
#[derive(Clone, Debug)]
pub struct SubmitAndAwaitSubscription {
    pub submit_and_await: TransactionStatus,
}

/// Submits a transaction and follows its status, with the transaction
#[derive(Clone, Debug)]
pub struct SubmitAndAwaitSubscriptionWithTransaction {
    pub submit_and_await: StatusWithTransaction,
}

/// Submits a transaction and follows every status it passes through
#[derive(Clone, Debug)]
pub struct SubmitAndAwaitStatusSubscription {
    pub submit_and_await_status: TransactionStatus,
}

/// The receipts of every kind.
#[derive(Clone, Debug)]
pub struct AllReceipts {
    pub all_receipts: Vec<Receipt>,
}

/// The number that eight bytes spell, the first byte weighing most.
pub open spec fn be_u64(bytes: Seq<u8>) -> int {
    bytes[0] * 0x0100_0000_0000_0000 + bytes[1] * 0x0001_0000_0000_0000 + bytes[2]
        * 0x0000_0100_0000_0000 + bytes[3] * 0x0000_0001_0000_0000 + bytes[4] * 0x0100_0000
        + bytes[5] * 0x0001_0000 + bytes[6] * 0x0100 + bytes[7]
}

/// Reads eight bytes as a number, the first byte weighing most; any other
/// length is an error.
pub fn u64_from_be_bytes(bytes: &Vec<u8>) -> (r: Result<u64, ConversionError>)
    ensures
        match r {
            Ok(value) => bytes@.len() == 8 && value == be_u64(bytes@),
            Err(e) => bytes@.len() != 8 && e == ConversionError::BytesLength,
        },
{
    if bytes.len() != 8 {
        return Err(ConversionError::BytesLength);
    }
    let b0: u64 = bytes[0] as u64;
    let b1: u64 = bytes[1] as u64;
    let b2: u64 = bytes[2] as u64;
    let b3: u64 = bytes[3] as u64;
    let b4: u64 = bytes[4] as u64;
    let b5: u64 = bytes[5] as u64;
    let b6: u64 = bytes[6] as u64;
    let b7: u64 = bytes[7] as u64;
    Ok(
        b0 * 0x0100_0000_0000_0000 + b1 * 0x0001_0000_0000_0000 + b2 * 0x0000_0100_0000_0000 + b3
            * 0x0000_0001_0000_0000 + b4 * 0x0100_0000 + b5 * 0x0001_0000 + b6 * 0x0100 + b7,
    )
}

/// Reads thirty-two bytes as an array; any other length is an error.
pub fn bytes32_from_slice(bytes: &Vec<u8>) -> (r: Result<[u8; 32], ConversionError>)
    ensures
        match r {
            Ok(array) => bytes@.len() == 32 && array@ == bytes@,
            Err(e) => bytes@.len() != 32 && e == ConversionError::BytesLength,
        },
{
    if bytes.len() != 32 {
        return Err(ConversionError::BytesLength);
    }
    let mut array: [u8; 32] = [0u8;32];
    let mut i: usize = 0;
    while i < 32
        invariant
            i <= 32,
            bytes@.len() == 32,
            forall|j: int| 0 <= j < i ==> array@[j] == bytes@[j],
        decreases 32 - i,
    {
        array[i] = bytes[i];
        i = i + 1;
    }
    assert(array@ =~= bytes@);
    Ok(array)
}

impl types::Transaction {
    /// What the answer of the chain's decoder comes to: the transaction
    /// whose canonical form the decoder gave, or an error where the
    /// decoder refused the payload.
    pub fn from_decoded(decoded: Option<Vec<u8>>) -> (r: Result<
        types::Transaction,
        ConversionError,
    >)
        ensures
            match decoded {
                Some(canonical) => r matches Ok(tx) && tx@ == canonical@,
                None => r == Err::<types::Transaction, ConversionError>(
                    ConversionError::TransactionFromBytesError,
                ),
            },
    {
        match decoded {
            Some(bytes) => Ok(types::Transaction { bytes }),
            None => Err(ConversionError::TransactionFromBytesError),
        }
    }

    /// Decodes the payload of an opaque transaction with the chain's
    /// decoder. A payload that the decoder refuses is an error.
    pub fn try_from(value: OpaqueTransaction) -> (r: Result<types::Transaction, ConversionError>)
        ensures
            match canonical_transaction(value.raw_payload.0.0@) {
                Some(canonical) => r matches Ok(tx) && tx@ == canonical,
                None => r == Err::<types::Transaction, ConversionError>(
                    ConversionError::TransactionFromBytesError,
                ),
            },
    {
        types::Transaction::from_decoded(decode_transaction(value.raw_payload.0.0.as_slice()))
    }
}

impl types::ProgramState {
    /// Decodes the final state of a script: a returned or reverted value is
    /// eight bytes read as a number, returned data is a digest of
    /// thirty-two bytes.
    pub fn try_from(state: ProgramState) -> (r: Result<types::ProgramState, ConversionError>)
        ensures
            match r {
                Ok(types::ProgramState::Return(value)) => state.return_type == ReturnType::Return
                    && state.data.0.0@.len() == 8 && value == be_u64(state.data.0.0@),
                Ok(types::ProgramState::ReturnData(digest)) => state.return_type
                    == ReturnType::ReturnData && digest@ == state.data.0.0@,
                Ok(types::ProgramState::Revert(value)) => state.return_type == ReturnType::Revert
                    && state.data.0.0@.len() == 8 && value == be_u64(state.data.0.0@),
                Err(e) => e == ConversionError::BytesLength && state.data.0.0@.len() != (
                if state.return_type == ReturnType::ReturnData {
                    32nat
                } else {
                    8nat
                }),
            },
    {
        match state.return_type {
            ReturnType::Return => {
                match u64_from_be_bytes(&state.data.0.0) {
                    Ok(value) => Ok(types::ProgramState::Return(value)),
                    Err(e) => Err(e),
                }
            },
            ReturnType::ReturnData => {
                match bytes32_from_slice(&state.data.0.0) {
                    Ok(digest) => Ok(types::ProgramState::ReturnData(digest)),
                    Err(e) => Err(e),
                }
            },
            ReturnType::Revert => {
                match u64_from_be_bytes(&state.data.0.0) {
                    Ok(value) => Ok(types::ProgramState::Revert(value)),
                    Err(e) => Err(e),
                }
            },
        }
    }
}

impl TransactionsByOwnerConnectionArgs {
    /// The arguments that ask for one page of an owner's transactions:
    /// paging forward, the cursor is the point to start after and the
    /// number counts from the first; paging backward, the cursor is the
    /// point to stop before and the number counts from the last.
    pub fn from(r: (Address, PaginationRequest<String>)) -> (args: TransactionsByOwnerConnectionArgs)
        ensures
            args.owner == r.0,
            r.1.direction == PageDirection::Forward ==> args.after == r.1.cursor && args.before
                == None::<String> && args.first == Some(r.1.results) && args.last == None::<i32>,
            r.1.direction == PageDirection::Backward ==> args.after == None::<String>
                && args.before == r.1.cursor && args.first == None::<i32> && args.last == Some(
                r.1.results,
            ),
    {
        match r.1.direction {
            PageDirection::Forward => TransactionsByOwnerConnectionArgs {
                owner: r.0,
                after: r.1.cursor,
                before: None,
                first: Some(r.1.results),
                last: None,
            },
            PageDirection::Backward => TransactionsByOwnerConnectionArgs {
                owner: r.0,
                after: None,
                before: r.1.cursor,
                first: None,
                last: Some(r.1.results),
            },
        }
    }
}

/// Whether `decoded` is what `state` spells.
pub open spec fn decodes_to(state: ProgramState, decoded: types::ProgramState) -> bool {
    match decoded {
        types::ProgramState::Return(value) => state.return_type == ReturnType::Return
            && state.data.0.0@.len() == 8 && value == be_u64(state.data.0.0@),
        types::ProgramState::ReturnData(digest) => state.return_type == ReturnType::ReturnData
            && digest@ == state.data.0.0@,
        types::ProgramState::Revert(value) => state.return_type == ReturnType::Revert
            && state.data.0.0@.len() == 8 && value == be_u64(state.data.0.0@),
    }
}

/// Whether the data of `state` has the length that its kind needs.
pub open spec fn well_sized(state: ProgramState) -> bool {
    state.data.0.0@.len() == if state.return_type == ReturnType::ReturnData {
        32nat
    } else {
        8nat
    }
}

/// Whether `decoded` is what the optional `state` spells.
pub open spec fn optional_decodes_to(
    state: Option<ProgramState>,
    decoded: Option<types::ProgramState>,
) -> bool {
    match (state, decoded) {
        (Some(s), Some(d)) => decodes_to(s, d),
        (None, None) => true,
        _ => false,
    }
}

/// Whether `converted` holds the receipts of `reported`, one for one.
pub open spec fn receipts_match(reported: Seq<Receipt>, converted: Seq<types::Receipt>) -> bool {
    &&& converted.len() == reported.len()
    &&& forall|i: int|
        0 <= i < reported.len() ==> (#[trigger] converted[i]).bytes@ == reported[i].raw.0.0@
}

/// Turns reported receipts into receipts of the chain, one for one.
pub fn convert_receipts(reported: Vec<Receipt>) -> (converted: Vec<types::Receipt>)
    ensures
        receipts_match(reported@, converted@),
{
    let ghost all = reported@;
    let mut converted: Vec<types::Receipt> = Vec::new();
    for receipt in it: reported.into_iter()
        invariant
            it.seq() == all,
            converted@.len() == it.index(),
            forall|i: int|
                0 <= i < it.index() ==> (#[trigger] converted@[i]).bytes@ == all[i].raw.0.0@,
    {
        converted.push(types::Receipt { bytes: receipt.raw.0.0 });
    }
    converted
}

/// Decodes an optional final state.
pub fn convert_program_state(state: Option<ProgramState>) -> (r: Result<
    Option<types::ProgramState>,
    ConversionError,
>)
    ensures
        match r {
            Ok(decoded) => optional_decodes_to(state, decoded),
            Err(e) => e == ConversionError::BytesLength && state is Some && !well_sized(
                state->Some_0,
            ),
        },
{
    match state {
        Some(s) => match types::ProgramState::try_from(s) {
            Ok(decoded) => Ok(Some(decoded)),
            Err(e) => Err(e),
        },
        None => Ok(None),
    }
}

/// Whether `result` is what the status of a dry run comes to: a success
/// or a failure as the status says, with the receipts one for one, the
/// final state decoded and the totals as they are.
pub open spec fn converts_to(
    status: DryRunTransactionStatus,
    result: types::TransactionExecutionResult,
) -> bool {
    match result {
        types::TransactionExecutionResult::Success { result, receipts, total_gas, total_fee } => {
            &&& status matches DryRunTransactionStatus::SuccessStatus(s)
            &&& optional_decodes_to(s.program_state, result)
            &&& receipts_match(s.receipts@, receipts@)
            &&& total_gas == s.total_gas.0
            &&& total_fee == s.total_fee.0
        },
        types::TransactionExecutionResult::Failed { result, receipts, total_gas, total_fee } => {
            &&& status matches DryRunTransactionStatus::FailureStatus(s)
            &&& optional_decodes_to(s.program_state, result)
            &&& receipts_match(s.receipts@, receipts@)
            &&& total_gas == s.total_gas.0
            &&& total_fee == s.total_fee.0
        },
    }
}

/// Whether `error` is what keeps the status of a dry run from being
/// converted: that its kind is unknown, or that the data of its final
/// state has the wrong length.
pub open spec fn conversion_fault(status: DryRunTransactionStatus, error: ConversionError) -> bool {
    match error {
        ConversionError::UnknownVariant(name) => status is Unknown && name@ == "DryRunTxStatus"@,
        ConversionError::BytesLength => match status {
            DryRunTransactionStatus::SuccessStatus(s) => s.program_state is Some && !well_sized(
                s.program_state->Some_0,
            ),
            DryRunTransactionStatus::FailureStatus(s) => s.program_state is Some && !well_sized(
                s.program_state->Some_0,
            ),
            DryRunTransactionStatus::Unknown => false,
        },
        _ => false,
    }
}

impl types::TransactionExecutionResult {
    /// Turns the status of a dry run into the result of an execution: the
    /// receipts one for one, the final state decoded, the totals as they
    /// are. A status of an unknown kind is an error, and so is a final
    /// state whose data has the wrong length.
    pub fn try_from(status: DryRunTransactionStatus) -> (r: Result<
        types::TransactionExecutionResult,
        ConversionError,
    >)
        ensures
            match r {
                Ok(result) => converts_to(status, result),
                Err(e) => conversion_fault(status, e),
            },
    {
        match status {
            DryRunTransactionStatus::SuccessStatus(s) => {
                let receipts = convert_receipts(s.receipts);
                match convert_program_state(s.program_state) {
                    Ok(result) => Ok(
                        types::TransactionExecutionResult::Success {
                            result,
                            receipts,
                            total_gas: s.total_gas.0,
                            total_fee: s.total_fee.0,
                        },
                    ),
                    Err(e) => Err(e),
                }
            },
            DryRunTransactionStatus::FailureStatus(s) => {
                let receipts = convert_receipts(s.receipts);
                match convert_program_state(s.program_state) {
                    Ok(result) => Ok(
                        types::TransactionExecutionResult::Failed {
                            result,
                            receipts,
                            total_gas: s.total_gas.0,
                            total_fee: s.total_fee.0,
                        },
                    ),
                    Err(e) => Err(e),
                }
            },
            DryRunTransactionStatus::Unknown => Err(
                ConversionError::UnknownVariant(String::from_str("DryRunTxStatus")),
            ),
        }
    }
}

impl types::TransactionExecutionStatus {
    /// Turns the reported outcome of one transaction of a dry run into the
    /// status of an execution: the id as it is, the result converted.
    pub fn try_from(schema: DryRunTransactionExecutionStatus) -> (r: Result<
        types::TransactionExecutionStatus,
        ConversionError,
    >)
        ensures
            match r {
                Ok(status) => status.id == schema.id.0 && converts_to(schema.status, status.result),
                Err(e) => conversion_fault(schema.status, e),
            },
    {
        let id = schema.id.0;
        match types::TransactionExecutionResult::try_from(schema.status) {
            Ok(result) => Ok(types::TransactionExecutionStatus { id, result }),
            Err(e) => Err(e),
        }
    }
}

/// What keeps a reported transaction from being a response: nothing (0),
/// that it has no status (1), or that its status is of an unknown kind (2).
pub open spec fn response_fault(node: OpaqueTransactionWithStatus) -> int {
    match node.status {
        None => 1,
        Some(TransactionStatus::Unknown) => 2,
        Some(_) => 0,
    }
}

/// Whether `error` is the error that the fault of `node` calls for.
pub open spec fn reports_fault(node: OpaqueTransactionWithStatus, error: ConversionError) -> bool {
    match error {
        ConversionError::MissingField(name) => response_fault(node) == 1 && name@ == "status"@,
        ConversionError::UnknownVariant(name) => response_fault(node) == 2 && name@
            == "TransactionStatus"@,
        _ => false,
    }
}

/// Whether `response` is the reported transaction `node` with its status.
pub open spec fn responds_to(
    node: OpaqueTransactionWithStatus,
    response: TransactionResponse,
) -> bool {
    &&& response_fault(node) == 0
    &&& response.transaction@ == node.raw_payload.0.0@
    &&& Some(response.status) == node.status
}

impl TransactionResponse {
    /// Takes a reported transaction with its status. A transaction without
    /// a status is an error, and so is a status of an unknown kind.
    pub fn try_from(node: OpaqueTransactionWithStatus) -> (r: Result<
        TransactionResponse,
        ConversionError,
    >)
        ensures
            match r {
                Ok(response) => responds_to(node, response),
                Err(e) => reports_fault(node, e),
            },
    {
        let transaction = types::Transaction { bytes: node.raw_payload.0.0 };
        match node.status {
            None => Err(ConversionError::MissingField(String::from_str("status"))),
            Some(TransactionStatus::Unknown) => Err(
                ConversionError::UnknownVariant(String::from_str("TransactionStatus")),
            ),
            Some(status) => Ok(TransactionResponse { transaction, status }),
        }
    }
}

impl PaginatedResult<TransactionResponse, String> {
    /// Turns a page of reported transactions into a page of responses, in
    /// order, with the page's end cursor and its flags. The first
    /// transaction that cannot be taken makes the whole page an error.
    pub fn try_from(conn: TransactionConnection) -> (r: Result<
        PaginatedResult<TransactionResponse, String>,
        ConversionError,
    >)
        ensures
            match r {
                Ok(page) => {
                    &&& page.cursor == conn.page_info.end_cursor
                    &&& page.has_next_page == conn.page_info.has_next_page
                    &&& page.has_previous_page == conn.page_info.has_previous_page
                    &&& page.results@.len() == conn.edges@.len()
                    &&& forall|i: int|
                        0 <= i < conn.edges@.len() ==> responds_to(
                            conn.edges@[i].node,
                            #[trigger] page.results@[i],
                        )
                },
                Err(e) => exists|k: int|
                    {
                        &&& 0 <= k < conn.edges@.len()
                        &&& forall|i: int|
                            0 <= i < k ==> response_fault((#[trigger] conn.edges@[i]).node) == 0
                        &&& reports_fault(conn.edges@[k].node, e)
                    },
            },
    {
        let ghost edges = conn.edges@;
        let mut results: Vec<TransactionResponse> = Vec::new();
        for edge in it: conn.edges.into_iter()
            invariant
                it.seq() == edges,
                results@.len() == it.index(),
                forall|i: int|
                    0 <= i < it.index() ==> responds_to(edges[i].node, #[trigger] results@[i]),
        {
            let ghost k = it.index() as int;
            match TransactionResponse::try_from(edge.node) {
                Ok(response) => {
                    results.push(response);
                },
                Err(e) => {
                    assert(reports_fault(edges[k].node, e));
                    assert forall|i: int| 0 <= i < k implies response_fault(
                        (#[trigger] edges[i]).node,
                    ) == 0 by {
                        assert(responds_to(edges[i].node, results@[i]));
                    }
                    return Err(e);
                },
            }
        }
        Ok(
            PaginatedResult {
                cursor: conn.page_info.end_cursor,
                has_next_page: conn.page_info.has_next_page,
                has_previous_page: conn.page_info.has_previous_page,
                results,
            },
        )
    }
}

} // verus!
