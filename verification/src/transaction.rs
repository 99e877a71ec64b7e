use vstd::prelude::*;

use std::collections::HashSet;

use crate::engine_error::EngineError;
use crate::Amount;

verus! {

broadcast use vstd::std_specs::hash::group_hash_axioms;

/// Transaction ids are unique process-wide, across all clients.
pub type TransactionId = u32;

/// What a ledger entry records: a deposit or a withdrawal of a fixed amount.
#[derive(Debug, Clone, Copy, PartialEq, Eq, Structural)]
pub enum TransactionKind {
    Deposit { amount: Amount },
    Withdrawal { amount: Amount },
}

impl TransactionKind {
    pub open spec fn spec_amount(self) -> int {
        match self {
            TransactionKind::Deposit { amount } => amount as int,
            TransactionKind::Withdrawal { amount } => amount as int,
        }
    }

    pub open spec fn spec_is_deposit(self) -> bool {
        self is Deposit
    }
}

/// Where an entry stands in its dispute lifecycle.
///
/// `Normal` entries can be disputed, `Disputed` ones resolved or charged
/// back; `ChargedBack` is terminal.
#[derive(Debug, Clone, Copy, PartialEq, Eq, Structural)]
pub enum TransactionState {
    Normal,
    Disputed,
    ChargedBack,
}

/// The ghost image of a ledger entry: its amount, whether it is a deposit,
/// and where it stands in the dispute lifecycle.
#[verifier::ext_equal]
pub struct TxView {
    pub txid: TransactionId,
    pub amount: int,
    pub is_deposit: bool,
    pub state: TransactionState,
}

/// One recorded deposit or withdrawal together with its dispute lifecycle
/// state. Entries are never deleted: they are retained so that later
/// dispute, resolve and chargeback events can refer to them.
#[derive(Debug, Clone, Copy)]
pub struct Transaction {
    txid: TransactionId,
    kind: TransactionKind,
    state: TransactionState,
}

impl View for Transaction {
    type V = TxView;

    closed spec fn view(&self) -> TxView {
        TxView {
            txid: self.txid,
            amount: self.kind.spec_amount(),
            is_deposit: self.kind.spec_is_deposit(),
            state: self.state,
        }
    }
}

impl Transaction {
    /// Registers `txid` in the global seen-set and returns a fresh entry in
    /// state `Normal`; a txid that was ever seen before is rejected, whoever
    /// used it first.
    pub fn new(
        seen_txids: &mut HashSet<TransactionId>,
        txid: TransactionId,
        kind: TransactionKind,
    ) -> (r: Result<Self, EngineError>)
        ensures
            final(seen_txids)@ == old(seen_txids)@.insert(txid),
            (match r {
                Ok(t) => {
                    &&& !old(seen_txids)@.contains(txid)
                    &&& t@ == (TxView {
                        txid: txid,
                        amount: kind.spec_amount(),
                        is_deposit: kind.spec_is_deposit(),
                        state: TransactionState::Normal,
                    })
                },
                Err(e) => {
                    &&& old(seen_txids)@.contains(txid)
                    &&& e == EngineError::TxAlreadySeen(txid)
                },
            }),
    {
        let is_new = seen_txids.insert(txid);
        if !is_new {
            Err(EngineError::TxAlreadySeen(txid))
        } else {
            Ok(Self { txid, kind, state: TransactionState::Normal })
        }
    }

    pub fn txid(&self) -> (r: TransactionId)
        ensures
            r == self@.txid,
    {
        self.txid
    }

    pub fn kind(&self) -> (r: &TransactionKind)
        ensures
            r.spec_is_deposit() == self@.is_deposit,
            r.spec_amount() == self@.amount,
    {
        &self.kind
    }

    pub fn state(&self) -> (r: TransactionState)
        ensures
            r == self@.state,
    {
        self.state
    }

    pub fn amount(&self) -> (r: Amount)
        ensures
            r as int == self@.amount,
    {
        match &self.kind {
            TransactionKind::Deposit { amount } => *amount,
            TransactionKind::Withdrawal { amount } => *amount,
        }
    }

    /// `Normal -> Disputed`; any other starting state is rejected and the
    /// entry is left unchanged.
    pub fn mark_disputed(&mut self) -> (r: Result<(), EngineError>)
        ensures
            old(self)@.state == TransactionState::Normal ==> r == Ok::<(), EngineError>(())
                && final(self)@ == (TxView { state: TransactionState::Disputed, ..old(self)@ }),
            old(self)@.state != TransactionState::Normal ==> r == Err::<(), EngineError>(
                EngineError::TxNotInState {
                    txid: old(self)@.txid,
                    expected: TransactionState::Normal,
                    actual: old(self)@.state,
                },
            ) && *final(self) == *old(self),
            final(self)@.txid == old(self)@.txid,
    {
        self.check_state_is(TransactionState::Normal)?;
        self.state = TransactionState::Disputed;
        Ok(())
    }

    /// `Disputed -> Normal`; any other starting state is rejected and the
    /// entry is left unchanged.
    pub fn mark_resolved(&mut self) -> (r: Result<(), EngineError>)
        ensures
            old(self)@.state == TransactionState::Disputed ==> r == Ok::<(), EngineError>(())
                && final(self)@ == (TxView { state: TransactionState::Normal, ..old(self)@ }),
            old(self)@.state != TransactionState::Disputed ==> r == Err::<(), EngineError>(
                EngineError::TxNotInState {
                    txid: old(self)@.txid,
                    expected: TransactionState::Disputed,
                    actual: old(self)@.state,
                },
            ) && *final(self) == *old(self),
            final(self)@.txid == old(self)@.txid,
    {
        self.check_state_is(TransactionState::Disputed)?;
        self.state = TransactionState::Normal;
        Ok(())
    }

    /// `Disputed -> ChargedBack` (terminal); any other starting state is
    /// rejected and the entry is left unchanged.
    pub fn mark_chargedback(&mut self) -> (r: Result<(), EngineError>)
        ensures
            old(self)@.state == TransactionState::Disputed ==> r == Ok::<(), EngineError>(())
                && final(self)@ == (TxView {
                state: TransactionState::ChargedBack,
                ..old(self)@
            }),
            old(self)@.state != TransactionState::Disputed ==> r == Err::<(), EngineError>(
                EngineError::TxNotInState {
                    txid: old(self)@.txid,
                    expected: TransactionState::Disputed,
                    actual: old(self)@.state,
                },
            ) && *final(self) == *old(self),
            final(self)@.txid == old(self)@.txid,
    {
        self.check_state_is(TransactionState::Disputed)?;
        self.state = TransactionState::ChargedBack;
        Ok(())
    }

    fn check_state_is(&self, state: TransactionState) -> (r: Result<(), EngineError>)
        ensures
            self@.state == state ==> r == Ok::<(), EngineError>(()),
            self@.state != state ==> r == Err::<(), EngineError>(
                EngineError::TxNotInState {
                    txid: self@.txid,
                    expected: state,
                    actual: self@.state,
                },
            ),
    {
        if self.state != state {
            return Err(
                EngineError::TxNotInState { txid: self.txid, expected: state, actual: self.state },
            );
        }
        Ok(())
    }
}

} // verus!
