use vstd::prelude::*;

use crate::client::ClientId;
use crate::transaction::{TransactionId, TransactionState};

verus! {

/// Errors that can occur within the engine.
///
/// `InternalError` is the only hard error: it signals a bug in the ledger's
/// own bookkeeping and must terminate processing. Every other variant is a
/// soft, data-dependent rejection of one event; the engine discards the
/// offending event and continues.
#[derive(Debug, Clone, Copy, PartialEq, Eq, Structural)]
pub enum EngineError {
    /// The only hard error in the engine.
    InternalError,
    /// The client is locked and can no longer be interacted with.
    ClientLocked(ClientId),
    /// The client was not found during an operation that requires an
    /// existing client.
    ClientNotFound(ClientId),
    /// Insufficient funds for a withdrawal.
    InsufficientFunds,
    /// The transaction is not in the state the operation expects.
    TxNotInState { txid: TransactionId, expected: TransactionState, actual: TransactionState },
    /// The transaction was not found.
    TxNotFound(TransactionId),
    /// Only deposit transactions can be disputed.
    TxCannotBeDisputed(TransactionId),
    /// The transaction id has already been seen.
    TxAlreadySeen(TransactionId),
}

impl EngineError {
    /// A hard error aborts the whole run; a soft one only discards the
    /// offending event.
    pub fn is_hard(&self) -> (r: bool)
        ensures
            r == (*self == EngineError::InternalError),
    {
        matches!(self, EngineError::InternalError)
    }
}

} // verus!
