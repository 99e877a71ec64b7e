use vstd::prelude::*;

use std::collections::HashSet;

use crate::client::{AllClientsState, ClientId, ClientView};
use crate::engine_error::EngineError;
use crate::transaction::{Transaction, TransactionId, TransactionKind, TransactionState, TxView};
use crate::Amount;

verus! {

broadcast use vstd::std_specs::hash::group_hash_axioms;

/// One event submitted to the ledger engine. Deposits and withdrawals carry
/// a fresh transaction id and a non-negative amount; the dispute lifecycle
/// events refer back to an earlier transaction id. `Exit` stops intake.
#[derive(Debug, Clone, Copy, PartialEq, Eq, Structural)]
pub enum EngineEvent {
    Deposit { txid: TransactionId, client_id: ClientId, amount: Amount },
    Withdrawal { txid: TransactionId, client_id: ClientId, amount: Amount },
    Dispute { txid: TransactionId, client_id: ClientId },
    Resolve { txid: TransactionId, client_id: ClientId },
    Chargeback { txid: TransactionId, client_id: ClientId },
    Exit,
}

impl EngineEvent {
    /// Negative deposit or withdrawal amounts must never reach the core:
    /// filtering them is the record reader's responsibility.
    pub open spec fn amount_nonneg(self) -> bool {
        match self {
            EngineEvent::Deposit { amount, .. } => amount >= 0,
            EngineEvent::Withdrawal { amount, .. } => amount >= 0,
            _ => true,
        }
    }

    /// Whether this event addresses the given client's account.
    pub open spec fn targets(self, client_id: ClientId) -> bool {
        match self {
            EngineEvent::Deposit { client_id: c, .. } => c == client_id,
            EngineEvent::Withdrawal { client_id: c, .. } => c == client_id,
            EngineEvent::Dispute { client_id: c, .. } => c == client_id,
            EngineEvent::Resolve { client_id: c, .. } => c == client_id,
            EngineEvent::Chargeback { client_id: c, .. } => c == client_id,
            EngineEvent::Exit => false,
        }
    }
}

/// Whether processing should go on after an event.
#[derive(Debug, Clone, Copy, PartialEq, Eq, Structural)]
pub enum EventOutput {
    Continue,
    Exit,
}

/// Ghost image of the whole ledger: every client account, the order the
/// accounts were created in, and every transaction id ever seen.
#[verifier::ext_equal]
pub struct LedgerView {
    pub clients: Map<ClientId, ClientView>,
    pub order: Seq<ClientId>,
    pub seen: Set<TransactionId>,
}

impl LedgerView {
    /// The ledger before any event: no accounts, no ids seen.
    pub open spec fn init() -> LedgerView {
        LedgerView {
            clients: Map::empty(),
            order: Seq::empty(),
            seen: Set::empty(),
        }
    }

    /// The ledger's invariants: every account is well formed, every entry's
    /// id is registered in the seen-set (ids are never removed from either
    /// side), and the creation order lists exactly the existing accounts,
    /// each once.
    pub open spec fn wf(self) -> bool {
        &&& forall|c: ClientId| self.clients.contains_key(c) ==> (#[trigger] self.clients[c]).wf()
        &&& forall|c: ClientId, t: TransactionId|
            #![trigger self.clients[c].txs.contains_key(t)]
            self.clients.contains_key(c) && self.clients[c].txs.contains_key(t)
                ==> self.seen.contains(t)
        &&& forall|c: ClientId| #[trigger] self.clients.contains_key(c) ==> self.order.contains(c)
        &&& forall|c: ClientId| #[trigger] self.order.contains(c) ==> self.clients.contains_key(c)
        &&& self.order.no_duplicates()
    }

    /// The account the event addresses, the empty account if it does not
    /// exist yet.
    pub open spec fn client_or_empty(self, client_id: ClientId) -> ClientView {
        if self.clients.contains_key(client_id) {
            self.clients[client_id]
        } else {
            ClientView::empty()
        }
    }

    /// The creation order after an event that creates the account if needed.
    pub open spec fn order_after_create(self, client_id: ClientId) -> Seq<ClientId> {
        if self.clients.contains_key(client_id) {
            self.order
        } else {
            self.order.push(client_id)
        }
    }

    /// What one event does to the ledger: the state afterwards, and either
    /// the processing verdict or the error the event is rejected with.
    ///
    /// This is the whole event semantics in one place; the executable engine
    /// is proved to implement it exactly.
    pub open spec fn step(self, ev: EngineEvent) -> (LedgerView, Result<EventOutput, EngineError>) {
        match ev {
            EngineEvent::Deposit { txid, client_id, amount } => {
                if self.seen.contains(txid) {
                    (self, Err(EngineError::TxAlreadySeen(txid)))
                } else {
                    let s1 = LedgerView { seen: self.seen.insert(txid), ..self };
                    if self.clients.contains_key(client_id) && self.clients[client_id].locked {
                        (s1, Err(EngineError::ClientLocked(client_id)))
                    } else {
                        let c = self.client_or_empty(client_id);
                        let entry = TxView {
                            txid,
                            amount: amount as int,
                            is_deposit: true,
                            state: TransactionState::Normal,
                        };
                        let c1 = ClientView {
                            available: c.available + amount as int,
                            txs: c.txs.insert(txid, entry),
                            ..c
                        };
                        (
                            LedgerView {
                                clients: s1.clients.insert(client_id, c1),
                                order: self.order_after_create(client_id),
                                seen: s1.seen,
                            },
                            Ok(EventOutput::Continue),
                        )
                    }
                }
            },
            EngineEvent::Withdrawal { txid, client_id, amount } => {
                if self.seen.contains(txid) {
                    (self, Err(EngineError::TxAlreadySeen(txid)))
                } else {
                    let s1 = LedgerView { seen: self.seen.insert(txid), ..self };
                    if self.clients.contains_key(client_id) && self.clients[client_id].locked {
                        (s1, Err(EngineError::ClientLocked(client_id)))
                    } else {
                        let c = self.client_or_empty(client_id);
                        let order1 = self.order_after_create(client_id);
                        if c.available < amount as int {
                            // A failed withdrawal records no entry, but its
                            // id stays consumed and the account it may have
                            // just created stays.
                            (
                                LedgerView {
                                    clients: s1.clients.insert(client_id, c),
                                    order: order1,
                                    seen: s1.seen,
                                },
                                Err(EngineError::InsufficientFunds),
                            )
                        } else {
                            let entry = TxView {
                                txid,
                                amount: amount as int,
                                is_deposit: false,
                                state: TransactionState::Normal,
                            };
                            let c1 = ClientView {
                                available: c.available - amount as int,
                                txs: c.txs.insert(txid, entry),
                                ..c
                            };
                            (
                                LedgerView {
                                    clients: s1.clients.insert(client_id, c1),
                                    order: order1,
                                    seen: s1.seen,
                                },
                                Ok(EventOutput::Continue),
                            )
                        }
                    }
                }
            },
            EngineEvent::Dispute { txid, client_id } => self.step_lifecycle(
                txid,
                client_id,
                true,
                false,
            ),
            EngineEvent::Resolve { txid, client_id } => self.step_lifecycle(
                txid,
                client_id,
                false,
                false,
            ),
            EngineEvent::Chargeback { txid, client_id } => self.step_lifecycle(
                txid,
                client_id,
                false,
                true,
            ),
            EngineEvent::Exit => (self, Ok(EventOutput::Exit)),
        }
    }

    /// Shared shape of the three lifecycle events: the client must already
    /// exist and be unlocked; the per-account outcome is then one of
    /// `spec_dispute`, `spec_resolve` or `spec_chargeback`.
    pub open spec fn step_lifecycle(
        self,
        txid: TransactionId,
        client_id: ClientId,
        is_dispute: bool,
        is_chargeback: bool,
    ) -> (LedgerView, Result<EventOutput, EngineError>) {
        if !self.clients.contains_key(client_id) {
            (self, Err(EngineError::ClientNotFound(client_id)))
        } else if self.clients[client_id].locked {
            (self, Err(EngineError::ClientLocked(client_id)))
        } else {
            let out = if is_dispute {
                self.clients[client_id].spec_dispute(txid)
            } else if is_chargeback {
                self.clients[client_id].spec_chargeback(txid)
            } else {
                self.clients[client_id].spec_resolve(txid)
            };
            match out.1 {
                Ok(u) => (
                    LedgerView { clients: self.clients.insert(client_id, out.0), ..self },
                    Ok(EventOutput::Continue),
                ),
                Err(e) => (self, Err(e)),
            }
        }
    }

    /// The balance arithmetic the event triggers stays within the machine
    /// range of an amount. This is the only restriction the machine imposes
    /// beyond the event semantics themselves.
    pub open spec fn event_fits(self, ev: EngineEvent) -> bool {
        match ev {
            EngineEvent::Deposit { txid, client_id, amount } => (!self.seen.contains(txid)
                && self.clients.contains_key(client_id) && !self.clients[client_id].locked) ==> (
            self.clients[client_id].available + amount as int <= i64::MAX),
            EngineEvent::Withdrawal { .. } => true,
            EngineEvent::Dispute { txid, client_id } => (self.clients.contains_key(client_id)
                && !self.clients[client_id].locked) ==> self.clients[client_id].dispute_fits(txid),
            EngineEvent::Resolve { txid, client_id } => (self.clients.contains_key(client_id)
                && !self.clients[client_id].locked) ==> self.clients[client_id].resolve_fits(txid),
            EngineEvent::Chargeback { .. } => true,
            EngineEvent::Exit => true,
        }
    }
}

/// Every event preserves the ledger's invariants: accounts stay well
/// formed, entry ids stay registered in the seen-set, and the creation
/// order stays in sync with the account map.
pub proof fn lemma_step_preserves_wf(s: LedgerView, ev: EngineEvent)
    requires
        s.wf(),
        ev.amount_nonneg(),
    ensures
        s.step(ev).0.wf(),
{
    let s1 = s.step(ev).0;
    match ev {
        EngineEvent::Deposit { txid, client_id, amount } => {
            lemma_create_update_wf(s, txid, client_id, ev);
        },
        EngineEvent::Withdrawal { txid, client_id, amount } => {
            lemma_create_update_wf(s, txid, client_id, ev);
        },
        EngineEvent::Dispute { txid, client_id } => {
            lemma_lifecycle_wf(s, txid, client_id, ev);
        },
        EngineEvent::Resolve { txid, client_id } => {
            lemma_lifecycle_wf(s, txid, client_id, ev);
        },
        EngineEvent::Chargeback { txid, client_id } => {
            lemma_lifecycle_wf(s, txid, client_id, ev);
        },
        EngineEvent::Exit => {},
    }
}

/// Invariant preservation for deposits and withdrawals, which may create
/// the account and always consume the transaction id.
proof fn lemma_create_update_wf(s: LedgerView, txid: TransactionId, client_id: ClientId, ev: EngineEvent)
    requires
        s.wf(),
        ev.amount_nonneg(),
        (match ev {
            EngineEvent::Deposit { txid: t, client_id: c, .. } => t == txid && c == client_id,
            EngineEvent::Withdrawal { txid: t, client_id: c, .. } => t == txid && c == client_id,
            _ => false,
        }),
    ensures
        s.step(ev).0.wf(),
{
    let s1 = s.step(ev).0;
    if s.seen.contains(txid) {
        return ;
    }
    if s.clients.contains_key(client_id) && s.clients[client_id].locked {
        return ;
    }
    let c = s.client_or_empty(client_id);
    // Account well-formedness and seen-set membership, per account.
    assert forall|cc: ClientId| s1.clients.contains_key(cc) implies (#[trigger] s1.clients[cc]).wf()
        && (forall|t: TransactionId|
        s1.clients[cc].txs.contains_key(t) ==> s1.seen.contains(t)) by {
        if cc == client_id {
            let c1 = s1.clients[cc];
            assert forall|t: TransactionId| c1.txs.contains_key(t) implies (#[trigger] c1.txs[t]).amount
                >= 0 && c1.txs[t].txid == t && s1.seen.contains(t) by {
                if t != txid {
                    assert(c.txs.contains_key(t) && c.txs[t] == c1.txs[t]);
                    assert(s.clients.contains_key(cc) && s.clients[cc].txs.contains_key(t));
                }
            }
        } else {
            assert(s.clients.contains_key(cc) && s1.clients[cc] == s.clients[cc]);
        }
    }
    // Creation order stays in sync with the account map.
    if s.clients.contains_key(client_id) {
        assert(s1.order == s.order);
        assert forall|cc: ClientId| #[trigger] s1.clients.contains_key(cc) implies s1.order.contains(
            cc,
        ) by {
            assert(s.clients.contains_key(cc));
        }
    } else {
        assert(s1.order == s.order.push(client_id));
        assert(!s.order.contains(client_id));
        assert forall|cc: ClientId| #[trigger] s1.clients.contains_key(cc) implies s1.order.contains(
            cc,
        ) by {
            if cc == client_id {
                assert(s1.order[s.order.len() as int] == client_id);
            } else {
                assert(s.clients.contains_key(cc) && s.order.contains(cc));
                let i = choose|i: int| 0 <= i < s.order.len() && s.order[i] == cc;
                assert(s1.order[i] == cc);
            }
        }
        assert forall|cc: ClientId| #[trigger] s1.order.contains(cc) implies s1.clients.contains_key(
            cc,
        ) by {
            let i = choose|i: int| 0 <= i < s1.order.len() && s1.order[i] == cc;
            if i < s.order.len() {
                assert(s.order.contains(cc));
            }
        }
        assert forall|i: int, j: int|
            0 <= i < s1.order.len() && 0 <= j < s1.order.len() && i != j implies s1.order[i]
            != s1.order[j] by {
            if i < s.order.len() && j < s.order.len() {
            } else if i < s.order.len() {
                assert(s.order.contains(s.order[i]));
            } else if j < s.order.len() {
                assert(s.order.contains(s.order[j]));
            }
        }
    }
}

/// Invariant preservation for disputes, resolves and chargebacks, which
/// only ever rewrite one existing entry of one existing account.
proof fn lemma_lifecycle_wf(s: LedgerView, txid: TransactionId, client_id: ClientId, ev: EngineEvent)
    requires
        s.wf(),
        ev == (EngineEvent::Dispute { txid, client_id }) || ev
            == (EngineEvent::Resolve { txid, client_id }) || ev
            == (EngineEvent::Chargeback { txid, client_id }),
    ensures
        s.step(ev).0.wf(),
{
    let s1 = s.step(ev).0;
    if !s.clients.contains_key(client_id) || s.clients[client_id].locked {
        return ;
    }
    let c = s.clients[client_id];
    assert forall|cc: ClientId| s1.clients.contains_key(cc) implies (
    #[trigger] s1.clients[cc]).wf() by {
        assert(s.clients.contains_key(cc));
        if cc == client_id {
            let c1 = s1.clients[cc];
            assert forall|t: TransactionId| c1.txs.contains_key(t) implies (#[trigger] c1.txs[t]).amount
                >= 0 && c1.txs[t].txid == t by {
                assert(c.txs.contains_key(t));
                if c1.txs[t] != c.txs[t] {
                    assert(t == txid);
                }
            }
        }
    }
    assert forall|cc: ClientId, t: TransactionId|
        #![trigger s1.clients[cc].txs.contains_key(t)]
        s1.clients.contains_key(cc) && s1.clients[cc].txs.contains_key(t) implies s1.seen.contains(
        t,
    ) by {
        assert(s.clients.contains_key(cc));
        assert(s.clients[cc].txs.contains_key(t));
    }
    assert forall|cc: ClientId| #[trigger] s1.clients.contains_key(cc) implies s1.order.contains(cc) by {
        assert(s.clients.contains_key(cc));
    }
    assert forall|cc: ClientId| #[trigger] s1.order.contains(cc) implies s1.clients.contains_key(
        cc,
    ) by {
        assert(s.clients.contains_key(cc));
    }
}

/// The ledger engine's state: every client account plus the global registry
/// of transaction ids ever seen, used for the duplicate check independently
/// of which account owns an entry.
pub struct EngineState {
    all_clients_state: AllClientsState,
    seen_txids: HashSet<TransactionId>,
}

impl View for EngineState {
    type V = LedgerView;

    closed spec fn view(&self) -> LedgerView {
        LedgerView {
            clients: self.all_clients_state.spec_clients(),
            order: self.all_clients_state.spec_order(),
            seen: self.seen_txids@,
        }
    }
}

impl EngineState {
    /// A fresh engine: no accounts, no transaction ids seen.
    pub fn new() -> (r: EngineState)
        ensures
            r@ == LedgerView::init(),
            r@.wf(),
    {
        let r = EngineState {
            all_clients_state: AllClientsState::new(),
            seen_txids: HashSet::new(),
        };
        proof {
            assert(r@ =~~= LedgerView::init());
        }
        r
    }

    /// Read-only access to all client accounts, for the final snapshot.
    pub fn all_clients_state(&self) -> (r: &AllClientsState)
        ensures
            r.spec_clients() == self@.clients,
            r.spec_order() == self@.order,
    {
        &self.all_clients_state
    }

    /// Whether this event is inside the engine's contract: amounts are
    /// non-negative and the balance arithmetic the event triggers stays in
    /// the machine range of an amount. The record reader checks this before
    /// submitting an event.
    pub fn accepts(&self, event: &EngineEvent) -> (r: bool)
        ensures
            r == (event.amount_nonneg() && self@.event_fits(*event)),
    {
        match *event {
            EngineEvent::Deposit { txid, client_id, amount } => {
                if amount < 0 {
                    return false;
                }
                if self.seen_txids.contains(&txid) {
                    return true;
                }
                match self.all_clients_state.get(client_id) {
                    None => true,
                    Some(c) => {
                        if c.locked() {
                            true
                        } else {
                            (c.available() as i128) + (amount as i128) <= (i64::MAX as i128)
                        }
                    },
                }
            },
            EngineEvent::Withdrawal { amount, .. } => amount >= 0,
            EngineEvent::Dispute { txid, client_id } => {
                match self.all_clients_state.get(client_id) {
                    None => true,
                    Some(c) => {
                        if c.locked() {
                            return true;
                        }
                        match c.find_transaction(txid) {
                            None => true,
                            Some(t) => {
                                let is_normal_deposit = t.state() == TransactionState::Normal
                                    && matches!(t.kind(), TransactionKind::Deposit { .. });
                                if !is_normal_deposit {
                                    true
                                } else {
                                    let a = t.amount();
                                    (i64::MIN as i128) <= (c.available() as i128) - (a as i128)
                                        && (c.held() as i128) + (a as i128) <= (i64::MAX as i128)
                                }
                            },
                        }
                    },
                }
            },
            EngineEvent::Resolve { txid, client_id } => {
                match self.all_clients_state.get(client_id) {
                    None => true,
                    Some(c) => {
                        if c.locked() {
                            return true;
                        }
                        match c.find_transaction(txid) {
                            None => true,
                            Some(t) => {
                                let covered_deposit = t.state() == TransactionState::Disputed
                                    && matches!(t.kind(), TransactionKind::Deposit { .. })
                                    && c.held() >= t.amount();
                                if !covered_deposit {
                                    true
                                } else {
                                    (c.available() as i128) + (t.amount() as i128) <= (
                                    i64::MAX as i128)
                                }
                            },
                        }
                    },
                }
            },
            EngineEvent::Chargeback { .. } => true,
            EngineEvent::Exit => true,
        }
    }
}

/// Applies one event to the engine, exactly as `LedgerView::step` says:
/// deposits and withdrawals first consume their transaction id and create
/// the account if needed; dispute, resolve and chargeback address an
/// existing, unlocked account; a locked account rejects everything. Every
/// error is reported to the caller and leaves the ledger as `step` states —
/// soft errors discard only the offending event.
pub fn handle_engine_event(engine: &mut EngineState, event: EngineEvent) -> (r: Result<
    EventOutput,
    EngineError,
>)
    requires
        old(engine)@.wf(),
        event.amount_nonneg(),
        old(engine)@.event_fits(event),
    ensures
        final(engine)@ == old(engine)@.step(event).0,
        r == old(engine)@.step(event).1,
        final(engine)@.wf(),
{
    proof {
        lemma_step_preserves_wf(old(engine)@, event);
    }
    match event {
        EngineEvent::Deposit { txid, client_id, amount } => {
            let tx = match Transaction::new(
                &mut engine.seen_txids,
                txid,
                TransactionKind::Deposit { amount },
            ) {
                Ok(t) => t,
                Err(e) => {
                    proof {
                        assert(engine@ =~~= old(engine)@);
                    }
                    return Err(e);
                },
            };
            let client = match engine.all_clients_state.get_unlocked_client_mut_or_create(
                client_id,
            ) {
                Ok(c) => c,
                Err(e) => {
                    proof {
                        assert(engine@ =~~= old(engine)@.step(event).0);
                    }
                    return Err(e);
                },
            };
            client.deposit(tx);
            proof {
                assert(engine@ =~~= old(engine)@.step(event).0);
            }
            Ok(EventOutput::Continue)
        },
        EngineEvent::Withdrawal { txid, client_id, amount } => {
            let tx = match Transaction::new(
                &mut engine.seen_txids,
                txid,
                TransactionKind::Withdrawal { amount },
            ) {
                Ok(t) => t,
                Err(e) => {
                    proof {
                        assert(engine@ =~~= old(engine)@);
                    }
                    return Err(e);
                },
            };
            let client = match engine.all_clients_state.get_unlocked_client_mut_or_create(
                client_id,
            ) {
                Ok(c) => c,
                Err(e) => {
                    proof {
                        assert(engine@ =~~= old(engine)@.step(event).0);
                    }
                    return Err(e);
                },
            };
            let wr = client.withdraw(tx);
            proof {
                assert(engine@ =~~= old(engine)@.step(event).0);
            }
            match wr {
                Ok(()) => Ok(EventOutput::Continue),
                Err(e) => Err(e),
            }
        },
        EngineEvent::Dispute { txid, client_id } => {
            let client = match engine.all_clients_state.get_unlocked_client_mut(client_id) {
                Err(e) => {
                    proof {
                        assert(engine@ =~~= old(engine)@);
                    }
                    return Err(e);
                },
                Ok(None) => {
                    proof {
                        assert(engine@ =~~= old(engine)@);
                    }
                    return Err(EngineError::ClientNotFound(client_id));
                },
                Ok(Some(c)) => c,
            };
            let dr = client.dispute_transaction(txid);
            proof {
                assert(engine@ =~~= old(engine)@.step(event).0);
            }
            match dr {
                Ok(()) => Ok(EventOutput::Continue),
                Err(e) => Err(e),
            }
        },
        EngineEvent::Resolve { txid, client_id } => {
            let client = match engine.all_clients_state.get_unlocked_client_mut(client_id) {
                Err(e) => {
                    proof {
                        assert(engine@ =~~= old(engine)@);
                    }
                    return Err(e);
                },
                Ok(None) => {
                    proof {
                        assert(engine@ =~~= old(engine)@);
                    }
                    return Err(EngineError::ClientNotFound(client_id));
                },
                Ok(Some(c)) => c,
            };
            let rr = client.resolve_transaction(txid);
            proof {
                assert(engine@ =~~= old(engine)@.step(event).0);
            }
            match rr {
                Ok(()) => Ok(EventOutput::Continue),
                Err(e) => Err(e),
            }
        },
        EngineEvent::Chargeback { txid, client_id } => {
            let client = match engine.all_clients_state.get_unlocked_client_mut(client_id) {
                Err(e) => {
                    proof {
                        assert(engine@ =~~= old(engine)@);
                    }
                    return Err(e);
                },
                Ok(None) => {
                    proof {
                        assert(engine@ =~~= old(engine)@);
                    }
                    return Err(EngineError::ClientNotFound(client_id));
                },
                Ok(Some(c)) => c,
            };
            let cr = client.chargeback_transaction(txid);
            proof {
                assert(engine@ =~~= old(engine)@.step(event).0);
            }
            match cr {
                Ok(()) => Ok(EventOutput::Continue),
                Err(e) => Err(e),
            }
        },
        EngineEvent::Exit => Ok(EventOutput::Exit),
    }
}

} // verus!
