use vstd::prelude::*;

use crate::client::{ClientId, ClientView};
use crate::csv::record_of;
use crate::engine::{EngineEvent, EventOutput, LedgerView};
use crate::engine_error::EngineError;
use crate::transaction::{TransactionId, TransactionState};

verus! {

/// Every snapshot row reports total == available + held: total funds are
/// derived from the two balances, never tracked separately, so the three
/// columns can never disagree.
pub proof fn lemma_record_total_consistent(client_id: ClientId, c: ClientView)
    requires
        i64::MIN <= c.available <= i64::MAX,
        i64::MIN <= c.held <= i64::MAX,
    ensures
        record_of(client_id, c).total as int == record_of(client_id, c).available as int
            + record_of(client_id, c).held as int,
{
}

/// A deposit or withdrawal consumes its transaction id: after the event,
/// accepted or not, the id is registered in the seen-set.
pub proof fn lemma_deposit_withdrawal_consumes_txid(
    s: LedgerView,
    ev: EngineEvent,
    txid: TransactionId,
)
    requires
        (match ev {
            EngineEvent::Deposit { txid: t, .. } => t == txid,
            EngineEvent::Withdrawal { txid: t, .. } => t == txid,
            _ => false,
        }),
    ensures
        s.step(ev).0.seen.contains(txid),
{
}

/// Transaction ids are never forgotten: whatever the event, the seen-set
/// only ever grows.
pub proof fn lemma_seen_never_shrinks(s: LedgerView, ev: EngineEvent, txid: TransactionId)
    requires
        s.seen.contains(txid),
    ensures
        s.step(ev).0.seen.contains(txid),
{
}

/// A transaction id that was ever used by a deposit or withdrawal can never
/// be used again, by any client: the later attempt is rejected as
/// `TxAlreadySeen` and has no effect at all on the ledger. Together with
/// the two lemmas above this makes ids unique across the whole run.
pub proof fn lemma_duplicate_txid_rejected(s: LedgerView, ev: EngineEvent, txid: TransactionId)
    requires
        s.seen.contains(txid),
        (match ev {
            EngineEvent::Deposit { txid: t, .. } => t == txid,
            EngineEvent::Withdrawal { txid: t, .. } => t == txid,
            _ => false,
        }),
    ensures
        s.step(ev).0 == s,
        s.step(ev).1 == Err::<EventOutput, EngineError>(
            EngineError::TxAlreadySeen(txid),
        ),
{
}

/// Disputing a withdrawal-kind entry always fails, and neither balances nor
/// any entry's state change.
pub proof fn lemma_withdrawal_not_disputable(
    s: LedgerView,
    txid: TransactionId,
    client_id: ClientId,
)
    requires
        s.clients.contains_key(client_id),
        s.clients[client_id].txs.contains_key(txid),
        !s.clients[client_id].txs[txid].is_deposit,
    ensures
        s.step(EngineEvent::Dispute { txid, client_id }).0 == s,
        s.step(EngineEvent::Dispute { txid, client_id }).1 is Err,
{
}

/// A resolve or chargeback whose entry is not currently `Disputed` — or
/// does not exist at all under that client — always fails and changes
/// nothing.
pub proof fn lemma_resolve_chargeback_need_dispute(
    s: LedgerView,
    ev: EngineEvent,
    txid: TransactionId,
    client_id: ClientId,
)
    requires
        ev == (EngineEvent::Resolve { txid, client_id }) || ev
            == (EngineEvent::Chargeback { txid, client_id }),
        (s.clients.contains_key(client_id) && s.clients[client_id].txs.contains_key(txid))
            ==> s.clients[client_id].txs[txid].state != TransactionState::Disputed,
    ensures
        s.step(ev).0 == s,
        s.step(ev).1 is Err,
{
}

/// A chargeback locks the account exactly when it succeeds: on success the
/// account ends locked, and on failure the ledger — the lock flag included —
/// is left exactly as it was.
pub proof fn lemma_chargeback_locks_exactly_on_success(
    s: LedgerView,
    txid: TransactionId,
    client_id: ClientId,
)
    ensures
        s.step(EngineEvent::Chargeback { txid, client_id }).1 is Ok ==> {
            let s1 = s.step(EngineEvent::Chargeback { txid, client_id }).0;
            s1.clients.contains_key(client_id) && s1.clients[client_id].locked
        },
        s.step(EngineEvent::Chargeback { txid, client_id }).1 is Err ==> s.step(
            EngineEvent::Chargeback { txid, client_id },
        ).0 == s,
{
}

/// Once an account is locked, every deposit, withdrawal, dispute, resolve
/// and chargeback addressed to it fails; no account changes — at most the
/// event's transaction id is consumed.
pub proof fn lemma_locked_account_rejects_everything(
    s: LedgerView,
    ev: EngineEvent,
    client_id: ClientId,
)
    requires
        s.clients.contains_key(client_id),
        s.clients[client_id].locked,
        ev.targets(client_id),
    ensures
        s.step(ev).1 is Err,
        s.step(ev).0.clients == s.clients,
        s.step(ev).0.order == s.order,
{
}

/// Failures are deterministic: an event that was rejected and discarded
/// without any effect is rejected with the very same error when it is
/// submitted again. (A rejection that still consumed its transaction id —
/// a deposit to a locked account under a fresh id, say — is outside this
/// statement: the resubmission is rejected too, but as `TxAlreadySeen`.)
pub proof fn lemma_rejection_deterministic(s: LedgerView, ev: EngineEvent)
    requires
        s.step(ev).0 == s,
        s.step(ev).1 is Err,
    ensures
        s.step(ev).0.step(ev).0 == s,
        s.step(ev).0.step(ev).1 == s.step(ev).1,
{
}

} // verus!
