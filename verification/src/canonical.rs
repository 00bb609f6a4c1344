//! The chain's decoder of transactions.

use fuel_types::canonical::{Deserialize, Serialize};
use vstd::prelude::*;

verus! {

/// What the chain's decoder makes of `bytes`: the canonical form of the
/// transaction that `fuel_tx::Transaction::from_bytes` reads from them, as
/// `to_bytes` writes it; or nothing where the decoder refuses the bytes.
pub uninterp spec fn canonical_transaction(bytes: Seq<u8>) -> Option<Seq<u8>>;

/// Calls `fuel_tx::Transaction::from_bytes`, a method of the trait
/// `fuel_types::canonical::Deserialize`, on `bytes` and, where it yields a
/// transaction, `to_bytes` of the trait `fuel_types::canonical::Serialize`
/// on that transaction. Trusted: the result is what
/// [`canonical_transaction`] names, a function of the bytes alone. The
/// decoder answers bytes that are no transaction with an error, and holds
/// what it allocates within a limit; writing a transaction into a vector
/// does not fail.
#[verifier::external_body]
pub(crate) fn decode_transaction(bytes: &[u8]) -> (decoded: Option<Vec<u8>>)
    ensures
        match decoded {
            Some(canonical) => canonical_transaction(bytes@) == Some(canonical@),
            None => canonical_transaction(bytes@) is None,
        },
{
    match fuel_tx::Transaction::from_bytes(bytes) {
        Ok(transaction) => Some(transaction.to_bytes()),
        Err(_) => None,
    }
}

} // verus!
