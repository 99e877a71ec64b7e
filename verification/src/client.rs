use vstd::prelude::*;

use std::collections::HashMap;

use crate::engine_error::EngineError;
use crate::transaction::{Transaction, TransactionId, TransactionKind, TransactionState, TxView};
use crate::Amount;

verus! {

broadcast use vstd::std_specs::hash::group_hash_axioms;

pub type ClientId = u16;

/// Ghost image of one client account: its balances, its lock flag, and the
/// ledger entries it owns, keyed by transaction id.
#[verifier::ext_equal]
pub struct ClientView {
    pub available: int,
    pub held: int,
    pub locked: bool,
    pub txs: Map<TransactionId, TxView>,
}

impl ClientView {
    /// The account a first deposit or withdrawal creates.
    pub open spec fn empty() -> ClientView {
        ClientView { available: 0, held: 0, locked: false, txs: Map::empty() }
    }

    /// Total funds are derived, never stored: available plus held.
    pub open spec fn total(self) -> int {
        self.available + self.held
    }

    /// Every entry an account owns records a non-negative amount and
    /// remembers the transaction id it is keyed under.
    pub open spec fn wf(self) -> bool {
        forall|t: TransactionId|
            self.txs.contains_key(t) ==> (#[trigger] self.txs[t]).amount >= 0
                && self.txs[t].txid == t
    }

    /// What disputing `txid` does to an account: the entry must exist, be in
    /// state `Normal` and be a deposit; then its amount moves from available
    /// to held (available may go negative) and the entry becomes `Disputed`.
    /// On any failure the account is unchanged.
    pub open spec fn spec_dispute(self, txid: TransactionId) -> (ClientView, Result<
        (),
        EngineError,
    >) {
        if !self.txs.contains_key(txid) {
            (self, Err(EngineError::TxNotFound(txid)))
        } else {
            let e = self.txs[txid];
            if e.state != TransactionState::Normal {
                (
                    self,
                    Err(
                        EngineError::TxNotInState {
                            txid,
                            expected: TransactionState::Normal,
                            actual: e.state,
                        },
                    ),
                )
            } else if !e.is_deposit {
                (self, Err(EngineError::TxCannotBeDisputed(txid)))
            } else {
                (
                    ClientView {
                        available: self.available - e.amount,
                        held: self.held + e.amount,
                        txs: self.txs.insert(
                            txid,
                            TxView { state: TransactionState::Disputed, ..e },
                        ),
                        ..self
                    },
                    Ok(()),
                )
            }
        }
    }

    /// What resolving `txid` does: the entry must exist, be `Disputed` and be
    /// a deposit, and the held balance must cover its amount (anything less
    /// is an internal inconsistency); then the amount moves back from held to
    /// available and the entry returns to `Normal`.
    pub open spec fn spec_resolve(self, txid: TransactionId) -> (ClientView, Result<
        (),
        EngineError,
    >) {
        if !self.txs.contains_key(txid) {
            (self, Err(EngineError::TxNotFound(txid)))
        } else {
            let e = self.txs[txid];
            if e.state != TransactionState::Disputed {
                (
                    self,
                    Err(
                        EngineError::TxNotInState {
                            txid,
                            expected: TransactionState::Disputed,
                            actual: e.state,
                        },
                    ),
                )
            } else if !e.is_deposit {
                (self, Err(EngineError::TxCannotBeDisputed(txid)))
            } else if self.held < e.amount {
                (self, Err(EngineError::InternalError))
            } else {
                (
                    ClientView {
                        available: self.available + e.amount,
                        held: self.held - e.amount,
                        txs: self.txs.insert(txid, TxView { state: TransactionState::Normal, ..e }),
                        ..self
                    },
                    Ok(()),
                )
            }
        }
    }

    /// What charging back `txid` does: under the same conditions as a
    /// resolve, the amount leaves the held balance for good, the entry
    /// becomes `ChargedBack`, and the account is locked.
    pub open spec fn spec_chargeback(self, txid: TransactionId) -> (ClientView, Result<
        (),
        EngineError,
    >) {
        if !self.txs.contains_key(txid) {
            (self, Err(EngineError::TxNotFound(txid)))
        } else {
            let e = self.txs[txid];
            if e.state != TransactionState::Disputed {
                (
                    self,
                    Err(
                        EngineError::TxNotInState {
                            txid,
                            expected: TransactionState::Disputed,
                            actual: e.state,
                        },
                    ),
                )
            } else if !e.is_deposit {
                (self, Err(EngineError::TxCannotBeDisputed(txid)))
            } else if self.held < e.amount {
                (self, Err(EngineError::InternalError))
            } else {
                (
                    ClientView {
                        held: self.held - e.amount,
                        locked: true,
                        txs: self.txs.insert(
                            txid,
                            TxView { state: TransactionState::ChargedBack, ..e },
                        ),
                        ..self
                    },
                    Ok(()),
                )
            }
        }
    }

    /// The balance updates of a successful dispute stay within the machine
    /// range of an amount.
    pub open spec fn dispute_fits(self, txid: TransactionId) -> bool {
        (self.txs.contains_key(txid) && self.txs[txid].state == TransactionState::Normal
            && self.txs[txid].is_deposit) ==> (i64::MIN <= self.available - self.txs[txid].amount
            && self.held + self.txs[txid].amount <= i64::MAX)
    }

    /// The balance updates of a successful resolve stay within the machine
    /// range of an amount.
    pub open spec fn resolve_fits(self, txid: TransactionId) -> bool {
        (self.txs.contains_key(txid) && self.txs[txid].state == TransactionState::Disputed
            && self.txs[txid].is_deposit && self.held >= self.txs[txid].amount) ==> (
        self.available + self.txs[txid].amount <= i64::MAX)
    }
}

/// State of a single client in the system.
pub struct ClientState {
    available: Amount,
    held: Amount,
    locked: bool,
    tx_lookup: HashMap<TransactionId, Transaction>,
}

impl View for ClientState {
    type V = ClientView;

    closed spec fn view(&self) -> ClientView {
        ClientView {
            available: self.available as int,
            held: self.held as int,
            locked: self.locked,
            txs: Map::new(
                |t: TransactionId| self.tx_lookup@.contains_key(t),
                |t: TransactionId| self.tx_lookup@[t]@,
            ),
        }
    }
}

impl ClientState {
    /// A fresh account: zero balances, unlocked, no entries.
    pub fn new() -> (r: ClientState)
        ensures
            r@ == ClientView::empty(),
    {
        let r = ClientState {
            available: 0,
            held: 0,
            locked: false,
            tx_lookup: HashMap::new(),
        };
        proof {
            assert(r@ =~= ClientView::empty());
        }
        r
    }

    pub fn available(&self) -> (r: Amount)
        ensures
            r as int == self@.available,
    {
        self.available
    }

    pub fn held(&self) -> (r: Amount)
        ensures
            r as int == self@.held,
    {
        self.held
    }

    /// Available plus held; computed wide so it can never overflow.
    pub fn total(&self) -> (r: i128)
        ensures
            r as int == self@.total(),
    {
        (self.held as i128) + (self.available as i128)
    }

    pub fn locked(&self) -> (r: bool)
        ensures
            r == self@.locked,
    {
        self.locked
    }

    /// Read access to one of the account's entries.
    pub fn find_transaction(&self, txid: TransactionId) -> (r: Option<&Transaction>)
        ensures
            (match r {
                Some(t) => self@.txs.contains_key(txid) && t@ == self@.txs[txid],
                None => !self@.txs.contains_key(txid),
            }),
    {
        self.tx_lookup.get(&txid)
    }

    /// Credits the entry's amount to the available balance and records the
    /// entry. Always succeeds; the engine boundary keeps negative amounts
    /// out.
    pub fn deposit(&mut self, tx: Transaction)
        requires
            tx@.amount >= 0,
            old(self)@.available + tx@.amount <= i64::MAX,
        ensures
            final(self)@ == (ClientView {
                available: old(self)@.available + tx@.amount,
                txs: old(self)@.txs.insert(tx@.txid, tx@),
                ..old(self)@
            }),
    {
        self.available = self.available + tx.amount();
        let txid = tx.txid();
        self.tx_lookup.insert(txid, tx);
        proof {
            assert(self@.txs =~= old(self)@.txs.insert(tx@.txid, tx@));
            assert(self@ =~= (ClientView {
                available: old(self)@.available + tx@.amount,
                txs: old(self)@.txs.insert(tx@.txid, tx@),
                ..old(self)@
            }));
        }
    }

    /// Debits the entry's amount if the available balance covers it, and
    /// records the entry; fails atomically with `InsufficientFunds`
    /// otherwise. A failed withdrawal records nothing here, though its
    /// transaction id stays consumed at the engine boundary.
    pub fn withdraw(&mut self, tx: Transaction) -> (r: Result<(), EngineError>)
        requires
            tx@.amount >= 0,
        ensures
            old(self)@.available < tx@.amount ==> r == Err::<(), EngineError>(
                EngineError::InsufficientFunds,
            ) && final(self)@ == old(self)@,
            old(self)@.available >= tx@.amount ==> r == Ok::<(), EngineError>(())
                && final(self)@ == (ClientView {
                available: old(self)@.available - tx@.amount,
                txs: old(self)@.txs.insert(tx@.txid, tx@),
                ..old(self)@
            }),
    {
        if self.available < tx.amount() {
            return Err(EngineError::InsufficientFunds);
        }
        self.available = self.available - tx.amount();
        let txid = tx.txid();
        self.tx_lookup.insert(txid, tx);
        proof {
            assert(self@.txs =~= old(self)@.txs.insert(tx@.txid, tx@));
            assert(self@ =~= (ClientView {
                available: old(self)@.available - tx@.amount,
                txs: old(self)@.txs.insert(tx@.txid, tx@),
                ..old(self)@
            }));
        }
        Ok(())
    }

    /// Opens a dispute on one of this account's entries, freezing the
    /// entry's amount: available -= amount, held += amount, with no floor at
    /// zero. Only deposit entries in state `Normal` can be disputed.
    pub fn dispute_transaction(&mut self, txid: TransactionId) -> (r: Result<(), EngineError>)
        requires
            old(self)@.wf(),
            old(self)@.dispute_fits(txid),
        ensures
            final(self)@ == old(self)@.spec_dispute(txid).0,
            r == old(self)@.spec_dispute(txid).1,
    {
        let mut tx = match self.tx_lookup.get(&txid) {
            Some(t) => *t,
            None => {
                return Err(EngineError::TxNotFound(txid));
            },
        };
        proof {
            assert(old(self)@.txs.contains_key(txid) && old(self)@.txs[txid] == tx@);
        }
        tx.mark_disputed()?;
        match tx.kind() {
            TransactionKind::Deposit { amount } => {
                let amount = *amount;
                self.available = self.available - amount;
                self.held = self.held + amount;
                self.tx_lookup.insert(txid, tx);
                proof {
                    assert(self@.txs =~= old(self)@.spec_dispute(txid).0.txs);
                    assert(self@ =~= old(self)@.spec_dispute(txid).0);
                }
                Ok(())
            },
            TransactionKind::Withdrawal { .. } => {
                // The copied entry is discarded: a withdrawal must never be
                // left marked as disputed.
                Err(EngineError::TxCannotBeDisputed(txid))
            },
        }
    }

    /// Closes a dispute in the client's favour: the held amount returns to
    /// available and the entry becomes `Normal` again. Held funds smaller
    /// than the disputed amount signal a bookkeeping bug, reported as the
    /// hard `InternalError` with the account left unchanged.
    pub fn resolve_transaction(&mut self, txid: TransactionId) -> (r: Result<(), EngineError>)
        requires
            old(self)@.wf(),
            old(self)@.resolve_fits(txid),
        ensures
            final(self)@ == old(self)@.spec_resolve(txid).0,
            r == old(self)@.spec_resolve(txid).1,
    {
        let mut tx = match self.tx_lookup.get(&txid) {
            Some(t) => *t,
            None => {
                return Err(EngineError::TxNotFound(txid));
            },
        };
        proof {
            assert(old(self)@.txs.contains_key(txid) && old(self)@.txs[txid] == tx@);
        }
        tx.mark_resolved()?;
        match tx.kind() {
            TransactionKind::Deposit { amount } => {
                let amount = *amount;
                if self.held < amount {
                    return Err(EngineError::InternalError);
                }
                self.held = self.held - amount;
                self.available = self.available + amount;
                self.tx_lookup.insert(txid, tx);
                proof {
                    assert(self@.txs =~= old(self)@.spec_resolve(txid).0.txs);
                    assert(self@ =~= old(self)@.spec_resolve(txid).0);
                }
                Ok(())
            },
            TransactionKind::Withdrawal { .. } => Err(EngineError::TxCannotBeDisputed(txid)),
        }
    }

    /// Closes a dispute against the client: the held amount leaves the
    /// account for good, the entry becomes `ChargedBack`, and the account is
    /// locked against all further mutation.
    pub fn chargeback_transaction(&mut self, txid: TransactionId) -> (r: Result<(), EngineError>)
        requires
            old(self)@.wf(),
        ensures
            final(self)@ == old(self)@.spec_chargeback(txid).0,
            r == old(self)@.spec_chargeback(txid).1,
    {
        let mut tx = match self.tx_lookup.get(&txid) {
            Some(t) => *t,
            None => {
                return Err(EngineError::TxNotFound(txid));
            },
        };
        proof {
            assert(old(self)@.txs.contains_key(txid) && old(self)@.txs[txid] == tx@);
        }
        tx.mark_chargedback()?;
        match tx.kind() {
            TransactionKind::Deposit { amount } => {
                let amount = *amount;
                if self.held < amount {
                    return Err(EngineError::InternalError);
                }
                self.held = self.held - amount;
                self.tx_lookup.insert(txid, tx);
                self.locked = true;
                proof {
                    assert(self@.txs =~= old(self)@.spec_chargeback(txid).0.txs);
                    assert(self@ =~= old(self)@.spec_chargeback(txid).0);
                }
                Ok(())
            },
            TransactionKind::Withdrawal { .. } => Err(EngineError::TxCannotBeDisputed(txid)),
        }
    }
}

/// State of all clients in the system. Accounts are created lazily by the
/// first deposit or withdrawal that names their client id, and the creation
/// order is kept so the final snapshot can be reported deterministically.
pub struct AllClientsState {
    clients: HashMap<ClientId, ClientState>,
    order: Vec<ClientId>,
}

impl AllClientsState {
    /// The accounts as they are stored, keyed by client id.
    pub closed spec fn spec_map(self) -> Map<ClientId, ClientState> {
        self.clients@
    }

    /// The client ids in account-creation order.
    pub closed spec fn spec_order(self) -> Seq<ClientId> {
        self.order@
    }

    /// The ghost image of every account, keyed by client id.
    pub open spec fn spec_clients(self) -> Map<ClientId, ClientView> {
        Map::new(
            |c: ClientId| self.spec_map().contains_key(c),
            |c: ClientId| self.spec_map()[c]@,
        )
    }

    pub fn new() -> (r: AllClientsState)
        ensures
            r.spec_map() == Map::<ClientId, ClientState>::empty(),
            r.spec_order() == Seq::<ClientId>::empty(),
    {
        let r = AllClientsState { clients: HashMap::new(), order: Vec::new() };
        proof {
            assert(r.spec_order() =~= Seq::<ClientId>::empty());
        }
        r
    }

    /// Return the client if unlocked, creating the account if it is missing.
    /// A locked client is rejected with `ClientLocked` before any other
    /// check.
    pub fn get_unlocked_client_mut_or_create(&mut self, client_id: ClientId) -> (r: Result<
        &mut ClientState,
        EngineError,
    >)
        ensures
            (match r {
                Ok(c) => {
                    &&& !(old(self).spec_map().contains_key(client_id)
                        && old(self).spec_map()[client_id]@.locked)
                    &&& c@ == (if old(self).spec_map().contains_key(client_id) {
                        old(self).spec_map()[client_id]@
                    } else {
                        ClientView::empty()
                    })
                    &&& final(self).spec_map() == old(self).spec_map().insert(
                        client_id,
                        *final(c),
                    )
                    &&& final(self).spec_order() == (if old(self).spec_map().contains_key(
                        client_id,
                    ) {
                        old(self).spec_order()
                    } else {
                        old(self).spec_order().push(client_id)
                    })
                },
                Err(e) => {
                    &&& old(self).spec_map().contains_key(client_id)
                    &&& old(self).spec_map()[client_id]@.locked
                    &&& e == EngineError::ClientLocked(client_id)
                    &&& final(self).spec_map() == old(self).spec_map()
                    &&& final(self).spec_order() == old(self).spec_order()
                },
            }),
    {
        match self.clients.get(&client_id) {
            Some(c) => {
                if c.locked() {
                    return Err(EngineError::ClientLocked(client_id));
                }
            },
            None => {
                self.order.push(client_id);
            },
        }
        let c = self.clients.entry(client_id).or_insert(ClientState::new());
        Ok(c)
    }

    /// Return the client if it exists and is unlocked; `Ok(None)` if the
    /// account does not exist, `ClientLocked` if it does but is locked.
    pub fn get_unlocked_client_mut(&mut self, client_id: ClientId) -> (r: Result<
        Option<&mut ClientState>,
        EngineError,
    >)
        ensures
            (match r {
                Ok(Some(c)) => {
                    &&& old(self).spec_map().contains_key(client_id)
                    &&& !old(self).spec_map()[client_id]@.locked
                    &&& *c == old(self).spec_map()[client_id]
                    &&& final(self).spec_map() == old(self).spec_map().insert(
                        client_id,
                        *final(c),
                    )
                    &&& final(self).spec_order() == old(self).spec_order()
                },
                Ok(None) => {
                    &&& !old(self).spec_map().contains_key(client_id)
                    &&& final(self).spec_map() == old(self).spec_map()
                    &&& final(self).spec_order() == old(self).spec_order()
                },
                Err(e) => {
                    &&& old(self).spec_map().contains_key(client_id)
                    &&& old(self).spec_map()[client_id]@.locked
                    &&& e == EngineError::ClientLocked(client_id)
                    &&& final(self).spec_map() == old(self).spec_map()
                    &&& final(self).spec_order() == old(self).spec_order()
                },
            }),
    {
        match self.clients.get(&client_id) {
            None => {
                return Ok(None);
            },
            Some(c) => {
                if c.locked() {
                    return Err(EngineError::ClientLocked(client_id));
                }
            },
        }
        let c = self.clients.entry(client_id).or_insert(ClientState::new());
        Ok(Some(c))
    }

    /// The client ids every account was created under, oldest first.
    pub fn client_ids(&self) -> (r: &Vec<ClientId>)
        ensures
            r@ == self.spec_order(),
    {
        &self.order
    }

    /// Read access to one account.
    pub fn get(&self, client_id: ClientId) -> (r: Option<&ClientState>)
        ensures
            (match r {
                Some(c) => self.spec_map().contains_key(client_id) && *c
                    == self.spec_map()[client_id],
                None => !self.spec_map().contains_key(client_id),
            }),
    {
        self.clients.get(&client_id)
    }
}

} // verus!
