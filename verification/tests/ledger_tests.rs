use payments_engine::client::ClientState;
use payments_engine::csv::{classify_row, snapshot_records, CsvOutputRecord, RowAction};
use payments_engine::engine::{handle_engine_event, EngineEvent, EngineState, EventOutput};
use payments_engine::engine_error::EngineError;
use payments_engine::transaction::{Transaction, TransactionKind, TransactionState};
use payments_engine::app_error::AppError;

use std::collections::HashSet;

/// 10.0000 currency units in fixed-point representation.
const TEN: i64 = 100_000;
/// 5.0000 currency units in fixed-point representation.
const FIVE: i64 = 50_000;

fn deposit(txid: u32, client_id: u16, amount: i64) -> EngineEvent {
    EngineEvent::Deposit { txid, client_id, amount }
}

fn withdrawal(txid: u32, client_id: u16, amount: i64) -> EngineEvent {
    EngineEvent::Withdrawal { txid, client_id, amount }
}

fn dispute(txid: u32, client_id: u16) -> EngineEvent {
    EngineEvent::Dispute { txid, client_id }
}

fn resolve(txid: u32, client_id: u16) -> EngineEvent {
    EngineEvent::Resolve { txid, client_id }
}

fn chargeback(txid: u32, client_id: u16) -> EngineEvent {
    EngineEvent::Chargeback { txid, client_id }
}

fn run(events: &[EngineEvent]) -> (EngineState, Vec<Result<EventOutput, EngineError>>) {
    let mut engine = EngineState::new();
    let mut results = Vec::new();
    for ev in events {
        assert!(engine.accepts(ev), "event outside the engine contract");
        results.push(handle_engine_event(&mut engine, *ev));
    }
    (engine, results)
}

fn snapshot(engine: &EngineState) -> Vec<CsvOutputRecord> {
    snapshot_records(engine.all_clients_state())
}

#[test]
fn deposit_shows_up_in_snapshot() {
    let (engine, results) = run(&[deposit(1, 1, TEN)]);
    assert_eq!(results, vec![Ok(EventOutput::Continue)]);
    let records = snapshot(&engine);
    assert_eq!(records.len(), 1);
    let r = records[0];
    assert_eq!(r.client_id(), 1);
    assert_eq!(r.available, TEN);
    assert_eq!(r.held, 0);
    assert_eq!(r.total, TEN as i128);
    assert!(!r.locked);
}

#[test]
fn withdrawal_debits_available() {
    let (engine, results) = run(&[deposit(1, 1, TEN), withdrawal(2, 1, FIVE)]);
    assert!(results.iter().all(|r| r.is_ok()));
    let records = snapshot(&engine);
    assert_eq!(records[0].available, FIVE);
    assert_eq!(records[0].total, FIVE as i128);
}

#[test]
fn dispute_holds_funds() {
    let (engine, results) = run(&[deposit(1, 1, TEN), dispute(1, 1)]);
    assert!(results.iter().all(|r| r.is_ok()));
    let r = snapshot(&engine)[0];
    assert_eq!(r.available, 0);
    assert_eq!(r.held, TEN);
    assert_eq!(r.total, TEN as i128);
    assert!(!r.locked);
}

#[test]
fn resolve_releases_funds() {
    let (engine, results) = run(&[deposit(1, 1, TEN), dispute(1, 1), resolve(1, 1)]);
    assert!(results.iter().all(|r| r.is_ok()));
    let r = snapshot(&engine)[0];
    assert_eq!(r.available, TEN);
    assert_eq!(r.held, 0);
    assert!(!r.locked);
}

#[test]
fn chargeback_removes_funds_and_locks() {
    let (engine, results) = run(&[deposit(1, 1, TEN), dispute(1, 1), chargeback(1, 1)]);
    assert!(results.iter().all(|r| r.is_ok()));
    let r = snapshot(&engine)[0];
    assert_eq!(r.available, 0);
    assert_eq!(r.held, 0);
    assert_eq!(r.total, 0);
    assert!(r.locked);
}

#[test]
fn withdrawal_without_funds_rejected_but_creates_account() {
    let (engine, results) = run(&[withdrawal(1, 1, FIVE)]);
    assert_eq!(results, vec![Err(EngineError::InsufficientFunds)]);
    let records = snapshot(&engine);
    assert_eq!(records.len(), 1);
    let r = records[0];
    assert_eq!(r.client_id(), 1);
    assert_eq!(r.available, 0);
    assert_eq!(r.held, 0);
    assert_eq!(r.total, 0);
    assert!(!r.locked);
}

#[test]
fn duplicate_txid_rejected_same_client() {
    let (engine, results) = run(&[deposit(1, 1, TEN), deposit(1, 1, FIVE)]);
    assert_eq!(results[1], Err(EngineError::TxAlreadySeen(1)));
    assert_eq!(snapshot(&engine)[0].available, TEN);
}

#[test]
fn duplicate_txid_rejected_other_client() {
    let (engine, results) = run(&[deposit(1, 1, TEN), withdrawal(1, 2, FIVE)]);
    assert_eq!(results[1], Err(EngineError::TxAlreadySeen(1)));
    let records = snapshot(&engine);
    assert_eq!(records.len(), 1);
    assert_eq!(records[0].client_id(), 1);
}

#[test]
fn duplicate_rejection_is_deterministic() {
    let (_, results) = run(&[deposit(1, 1, TEN), deposit(1, 1, FIVE), deposit(1, 1, FIVE)]);
    assert_eq!(results[1], Err(EngineError::TxAlreadySeen(1)));
    assert_eq!(results[2], Err(EngineError::TxAlreadySeen(1)));
}

#[test]
fn failed_withdrawal_still_consumes_txid() {
    let (_, results) = run(&[withdrawal(7, 1, FIVE), deposit(7, 1, TEN)]);
    assert_eq!(results[0], Err(EngineError::InsufficientFunds));
    assert_eq!(results[1], Err(EngineError::TxAlreadySeen(7)));
}

#[test]
fn withdrawal_cannot_be_disputed() {
    let (engine, results) = run(&[deposit(1, 1, TEN), withdrawal(2, 1, FIVE), dispute(2, 1)]);
    assert_eq!(results[2], Err(EngineError::TxCannotBeDisputed(2)));
    let r = snapshot(&engine)[0];
    assert_eq!(r.available, FIVE);
    assert_eq!(r.held, 0);
}

#[test]
fn dispute_unknown_transaction_rejected() {
    let (engine, results) = run(&[deposit(1, 1, TEN), dispute(9, 1)]);
    assert_eq!(results[1], Err(EngineError::TxNotFound(9)));
    assert_eq!(snapshot(&engine)[0].available, TEN);
}

#[test]
fn dispute_unknown_client_rejected() {
    let (engine, results) = run(&[deposit(1, 1, TEN), dispute(1, 2)]);
    assert_eq!(results[1], Err(EngineError::ClientNotFound(2)));
    assert_eq!(snapshot(&engine).len(), 1);
}

#[test]
fn resolve_without_dispute_rejected() {
    let (engine, results) = run(&[deposit(1, 1, TEN), resolve(1, 1)]);
    assert_eq!(
        results[1],
        Err(EngineError::TxNotInState {
            txid: 1,
            expected: TransactionState::Disputed,
            actual: TransactionState::Normal,
        })
    );
    assert_eq!(snapshot(&engine)[0].available, TEN);
}

#[test]
fn chargeback_without_dispute_rejected() {
    let (engine, results) = run(&[deposit(1, 1, TEN), chargeback(1, 1)]);
    assert_eq!(
        results[1],
        Err(EngineError::TxNotInState {
            txid: 1,
            expected: TransactionState::Disputed,
            actual: TransactionState::Normal,
        })
    );
    let r = snapshot(&engine)[0];
    assert_eq!(r.available, TEN);
    assert!(!r.locked);
}

#[test]
fn double_dispute_rejected() {
    let (engine, results) = run(&[deposit(1, 1, TEN), dispute(1, 1), dispute(1, 1)]);
    assert_eq!(
        results[2],
        Err(EngineError::TxNotInState {
            txid: 1,
            expected: TransactionState::Normal,
            actual: TransactionState::Disputed,
        })
    );
    assert_eq!(snapshot(&engine)[0].held, TEN);
}

#[test]
fn redispute_after_resolution_allowed() {
    let (engine, results) =
        run(&[deposit(1, 1, TEN), dispute(1, 1), resolve(1, 1), dispute(1, 1)]);
    assert!(results.iter().all(|r| r.is_ok()));
    let r = snapshot(&engine)[0];
    assert_eq!(r.available, 0);
    assert_eq!(r.held, TEN);
}

#[test]
fn chargedback_entry_is_terminal() {
    let (_, results) = run(&[
        deposit(1, 1, TEN),
        dispute(1, 1),
        chargeback(1, 1),
        dispute(1, 1),
    ]);
    // The account is locked after the chargeback, so the lock check fires
    // before the entry state is even looked at.
    assert_eq!(results[3], Err(EngineError::ClientLocked(1)));
}

#[test]
fn locked_account_rejects_all_events() {
    let (engine, results) = run(&[
        deposit(1, 1, TEN),
        deposit(2, 1, TEN),
        dispute(1, 1),
        chargeback(1, 1),
        deposit(3, 1, FIVE),
        withdrawal(4, 1, FIVE),
        dispute(2, 1),
        resolve(2, 1),
        chargeback(2, 1),
    ]);
    assert_eq!(results[4], Err(EngineError::ClientLocked(1)));
    assert_eq!(results[5], Err(EngineError::ClientLocked(1)));
    assert_eq!(results[6], Err(EngineError::ClientLocked(1)));
    assert_eq!(results[7], Err(EngineError::ClientLocked(1)));
    assert_eq!(results[8], Err(EngineError::ClientLocked(1)));
    let r = snapshot(&engine)[0];
    assert_eq!(r.available, TEN);
    assert_eq!(r.held, 0);
    assert!(r.locked);
}

#[test]
fn dispute_can_drive_available_negative() {
    let (engine, results) = run(&[
        deposit(1, 1, TEN),
        withdrawal(2, 1, FIVE),
        dispute(1, 1),
    ]);
    assert!(results.iter().all(|r| r.is_ok()));
    let r = snapshot(&engine)[0];
    assert_eq!(r.available, FIVE - TEN);
    assert_eq!(r.held, TEN);
    assert_eq!(r.total, FIVE as i128);
}

#[test]
fn zero_amount_events_consume_ids() {
    let (engine, results) = run(&[deposit(1, 1, 0), withdrawal(2, 1, 0), deposit(1, 1, TEN)]);
    assert_eq!(results[0], Ok(EventOutput::Continue));
    assert_eq!(results[1], Ok(EventOutput::Continue));
    assert_eq!(results[2], Err(EngineError::TxAlreadySeen(1)));
    assert_eq!(snapshot(&engine)[0].available, 0);
}

#[test]
fn exit_stops_processing() {
    let (_, results) = run(&[deposit(1, 1, TEN), EngineEvent::Exit]);
    assert_eq!(results[1], Ok(EventOutput::Exit));
}

#[test]
fn snapshot_lists_clients_in_creation_order() {
    let (engine, _) = run(&[
        deposit(1, 5, TEN),
        deposit(2, 3, FIVE),
        withdrawal(3, 9, FIVE),
        deposit(4, 3, FIVE),
    ]);
    let records = snapshot(&engine);
    let ids: Vec<u16> = records.iter().map(|r| r.client_id()).collect();
    assert_eq!(ids, vec![5, 3, 9]);
    assert_eq!(records[1].available, 2 * FIVE);
}

#[test]
fn total_is_available_plus_held_throughout() {
    let events = [
        deposit(1, 1, TEN),
        deposit(2, 1, FIVE),
        withdrawal(3, 1, FIVE),
        dispute(1, 1),
        resolve(1, 1),
        dispute(2, 1),
        chargeback(2, 1),
    ];
    let mut engine = EngineState::new();
    for ev in &events {
        let _ = handle_engine_event(&mut engine, *ev);
        for r in snapshot(&engine) {
            assert_eq!(r.total, r.available as i128 + r.held as i128);
        }
    }
}

#[test]
fn engine_accepts_flags_negative_amounts() {
    let engine = EngineState::new();
    assert!(!engine.accepts(&deposit(1, 1, -1)));
    assert!(!engine.accepts(&withdrawal(1, 1, -1)));
    assert!(engine.accepts(&deposit(1, 1, 0)));
}

#[test]
fn engine_accepts_flags_overflowing_deposit() {
    let (engine, results) = run(&[deposit(1, 1, i64::MAX)]);
    assert!(results[0].is_ok());
    assert!(!engine.accepts(&deposit(2, 1, 1)));
    assert!(engine.accepts(&deposit(1, 1, 1)));
}

#[test]
fn engine_accepts_flags_overflowing_dispute_and_resolve() {
    let (engine, results) = run(&[deposit(1, 1, i64::MAX), dispute(1, 1), deposit(2, 1, 1)]);
    assert!(results.iter().all(|r| r.is_ok()));
    // Disputing the second deposit would push held past the amount range;
    // resolving the first would push available past it. A chargeback only
    // ever lowers held, so it stays fine.
    assert!(!engine.accepts(&dispute(2, 1)));
    assert!(!engine.accepts(&resolve(1, 1)));
    assert!(engine.accepts(&chargeback(1, 1)));
}

#[test]
fn hard_and_soft_errors_are_told_apart() {
    assert!(EngineError::InternalError.is_hard());
    assert!(!EngineError::InsufficientFunds.is_hard());
    assert!(!EngineError::TxAlreadySeen(1).is_hard());
    assert!(!EngineError::ClientLocked(1).is_hard());
}

#[test]
fn transaction_registry_rejects_reuse() {
    let mut seen: HashSet<u32> = HashSet::new();
    let t = Transaction::new(&mut seen, 1, TransactionKind::Deposit { amount: TEN }).unwrap();
    assert_eq!(t.txid(), 1);
    assert_eq!(t.amount(), TEN);
    assert_eq!(t.state(), TransactionState::Normal);
    assert!(matches!(t.kind(), TransactionKind::Deposit { .. }));
    let dup = Transaction::new(&mut seen, 1, TransactionKind::Withdrawal { amount: FIVE });
    assert_eq!(dup.unwrap_err(), EngineError::TxAlreadySeen(1));
}

#[test]
fn transaction_lifecycle_transitions() {
    let mut seen: HashSet<u32> = HashSet::new();
    let mut t = Transaction::new(&mut seen, 1, TransactionKind::Deposit { amount: TEN }).unwrap();
    assert_eq!(
        t.mark_resolved(),
        Err(EngineError::TxNotInState {
            txid: 1,
            expected: TransactionState::Disputed,
            actual: TransactionState::Normal,
        })
    );
    assert_eq!(t.mark_disputed(), Ok(()));
    assert_eq!(t.state(), TransactionState::Disputed);
    assert_eq!(t.mark_resolved(), Ok(()));
    assert_eq!(t.mark_disputed(), Ok(()));
    assert_eq!(t.mark_chargedback(), Ok(()));
    assert_eq!(t.state(), TransactionState::ChargedBack);
    assert!(t.mark_disputed().is_err());
    assert!(t.mark_resolved().is_err());
}

#[test]
fn client_state_reports_internal_inconsistency() {
    // Exercise the defensive held-funds check directly: hand the account an
    // entry that is already disputed, so no held funds back it.
    let mut seen: HashSet<u32> = HashSet::new();
    let mut t = Transaction::new(&mut seen, 1, TransactionKind::Deposit { amount: TEN }).unwrap();
    t.mark_disputed().unwrap();
    let mut c = ClientState::new();
    c.deposit(t);
    assert_eq!(c.resolve_transaction(1), Err(EngineError::InternalError));
    assert_eq!(c.chargeback_transaction(1), Err(EngineError::InternalError));
    assert_eq!(c.available(), TEN);
    assert_eq!(c.held(), 0);
    assert!(!c.locked());
}

#[test]
fn classify_row_builds_events() {
    assert_eq!(
        classify_row(b"deposit", 1, 2, Some(TEN)),
        Ok(RowAction::Submit(EngineEvent::Deposit { txid: 1, client_id: 2, amount: TEN }))
    );
    assert_eq!(
        classify_row(b"withdrawal", 3, 4, Some(FIVE)),
        Ok(RowAction::Submit(EngineEvent::Withdrawal { txid: 3, client_id: 4, amount: FIVE }))
    );
    assert_eq!(
        classify_row(b"dispute", 5, 6, None),
        Ok(RowAction::Submit(EngineEvent::Dispute { txid: 5, client_id: 6 }))
    );
    assert_eq!(
        classify_row(b"resolve", 7, 8, Some(TEN)),
        Ok(RowAction::Submit(EngineEvent::Resolve { txid: 7, client_id: 8 }))
    );
    assert_eq!(
        classify_row(b"chargeback", 9, 10, None),
        Ok(RowAction::Submit(EngineEvent::Chargeback { txid: 9, client_id: 10 }))
    );
}

#[test]
fn classify_row_is_case_insensitive() {
    assert_eq!(
        classify_row(b"DePoSiT", 1, 2, Some(TEN)),
        Ok(RowAction::Submit(EngineEvent::Deposit { txid: 1, client_id: 2, amount: TEN }))
    );
    assert_eq!(
        classify_row(b"CHARGEBACK", 9, 10, None),
        Ok(RowAction::Submit(EngineEvent::Chargeback { txid: 9, client_id: 10 }))
    );
}

#[test]
fn classify_row_skips_bad_rows() {
    assert_eq!(classify_row(b"transfer", 1, 2, Some(TEN)), Ok(RowAction::SkipUnknownType));
    assert_eq!(classify_row(b"", 1, 2, None), Ok(RowAction::SkipUnknownType));
    assert_eq!(classify_row(b"deposit", 1, 2, Some(-1)), Ok(RowAction::SkipNegativeAmount));
    assert_eq!(classify_row(b"withdrawal", 1, 2, Some(-TEN)), Ok(RowAction::SkipNegativeAmount));
}

#[test]
fn classify_row_requires_amount_for_money_movement() {
    assert_eq!(classify_row(b"deposit", 1, 2, None), Err(AppError));
    assert_eq!(classify_row(b"withdrawal", 1, 2, None), Err(AppError));
}
