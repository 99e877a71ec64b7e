use vstd::prelude::*;

use crate::app_error::AppError;
use crate::client::{AllClientsState, ClientId, ClientView};
use crate::engine::EngineEvent;
use crate::transaction::TransactionId;
use crate::Amount;

verus! {

/// One row of the final snapshot: a client's balances at shutdown, with the
/// total derived from available and held, and the lock flag.
#[derive(Debug, Clone, Copy, PartialEq, Eq, Structural)]
pub struct CsvOutputRecord {
    pub client_id: ClientId,
    pub available: Amount,
    pub held: Amount,
    pub total: i128,
    pub locked: bool,
}

/// The snapshot row a client account is reported as.
pub open spec fn record_of(client_id: ClientId, c: ClientView) -> CsvOutputRecord {
    CsvOutputRecord {
        client_id,
        available: c.available as i64,
        held: c.held as i64,
        total: (c.available + c.held) as i128,
        locked: c.locked,
    }
}

impl CsvOutputRecord {
    pub fn client_id(&self) -> (r: ClientId)
        ensures
            r == self.client_id,
    {
        self.client_id
    }
}

/// The final snapshot: one record per client account ever created, in
/// creation order, each total being exactly available plus held.
pub fn snapshot_records(all_clients_state: &AllClientsState) -> (v: Vec<CsvOutputRecord>)
    requires
        forall|i: int|
            0 <= i < all_clients_state.spec_order().len()
                ==> all_clients_state.spec_clients().contains_key(
                #[trigger] all_clients_state.spec_order()[i],
            ),
    ensures
        v@.len() == all_clients_state.spec_order().len(),
        forall|i: int|
            0 <= i < v@.len() ==> #[trigger] v@[i] == record_of(
                all_clients_state.spec_order()[i],
                all_clients_state.spec_clients()[all_clients_state.spec_order()[i]],
            ),
{
    let ids = all_clients_state.client_ids();
    let n: usize = ids.len();
    let mut v: Vec<CsvOutputRecord> = Vec::new();
    let mut i: usize = 0;
    while i < n
        invariant
            n == all_clients_state.spec_order().len(),
            ids@ == all_clients_state.spec_order(),
            forall|k: int|
                0 <= k < all_clients_state.spec_order().len()
                    ==> all_clients_state.spec_clients().contains_key(
                    #[trigger] all_clients_state.spec_order()[k],
                ),
            i <= n,
            v@.len() == i as int,
            forall|j: int|
                0 <= j < i as int ==> #[trigger] v@[j] == record_of(
                    all_clients_state.spec_order()[j],
                    all_clients_state.spec_clients()[all_clients_state.spec_order()[j]],
                ),
        decreases n - i,
    {
        let cid = ids[i];
        let c = all_clients_state.get(cid).unwrap();
        let rec = CsvOutputRecord {
            client_id: cid,
            available: c.available(),
            held: c.held(),
            total: c.total(),
            locked: c.locked(),
        };
        v.push(rec);
        i = i + 1;
    }
    v
}

/// ASCII upper-case letters fold to lower case; every other byte is kept.
pub open spec fn ascii_lower(b: u8) -> u8 {
    if 'A' as u8 <= b && b <= 'Z' as u8 {
        (b + 32) as u8
    } else {
        b
    }
}

/// A byte sequence folded to ASCII lower case, so record types match
/// case-insensitively.
pub open spec fn lower_seq(s: Seq<u8>) -> Seq<u8> {
    Seq::new(s.len(), |i: int| ascii_lower(s[i]))
}

pub open spec fn deposit_kw() -> Seq<u8> {
    seq!['d' as u8, 'e' as u8, 'p' as u8, 'o' as u8, 's' as u8, 'i' as u8, 't' as u8]
}

pub open spec fn withdrawal_kw() -> Seq<u8> {
    seq![
        'w' as u8,
        'i' as u8,
        't' as u8,
        'h' as u8,
        'd' as u8,
        'r' as u8,
        'a' as u8,
        'w' as u8,
        'a' as u8,
        'l' as u8,
    ]
}

pub open spec fn dispute_kw() -> Seq<u8> {
    seq!['d' as u8, 'i' as u8, 's' as u8, 'p' as u8, 'u' as u8, 't' as u8, 'e' as u8]
}

pub open spec fn resolve_kw() -> Seq<u8> {
    seq!['r' as u8, 'e' as u8, 's' as u8, 'o' as u8, 'l' as u8, 'v' as u8, 'e' as u8]
}

pub open spec fn chargeback_kw() -> Seq<u8> {
    seq![
        'c' as u8,
        'h' as u8,
        'a' as u8,
        'r' as u8,
        'g' as u8,
        'e' as u8,
        'b' as u8,
        'a' as u8,
        'c' as u8,
        'k' as u8,
    ]
}

/// Whether the record type, folded to lower case, is exactly this keyword.
fn matches_kw(s: &[u8], kw: &[u8]) -> (r: bool)
    ensures
        r == (lower_seq(s@) == kw@),
{
    if s.len() != kw.len() {
        proof {
            assert(lower_seq(s@).len() == s@.len());
        }
        return false;
    }
    let n: usize = s.len();
    let mut i: usize = 0;
    while i < n
        invariant
            n == s@.len(),
            n == kw@.len(),
            i <= n,
            forall|j: int| 0 <= j < i as int ==> lower_seq(s@)[j] == kw@[j],
        decreases n - i,
    {
        let b = s[i];
        let lb = if b >= ('A' as u8) && b <= ('Z' as u8) {
            b + 32
        } else {
            b
        };
        if lb != kw[i] {
            proof {
                assert(lower_seq(s@)[i as int] != kw@[i as int]);
            }
            return false;
        }
        i = i + 1;
    }
    proof {
        assert(lower_seq(s@) =~= kw@);
    }
    true
}

/// What the record reader should do with one row.
#[derive(Debug, Clone, Copy, PartialEq, Eq, Structural)]
pub enum RowAction {
    /// A well-formed row: submit this event to the engine.
    Submit(EngineEvent),
    /// A deposit or withdrawal with a negative amount: skip the row.
    SkipNegativeAmount,
    /// An unrecognised record type: skip the row.
    SkipUnknownType,
}

/// The meaning of one input row.
pub open spec fn spec_classify_row(
    record_type: Seq<u8>,
    txid: TransactionId,
    client_id: ClientId,
    amount: Option<Amount>,
) -> Result<RowAction, AppError> {
    let l = lower_seq(record_type);
    if l == deposit_kw() || l == withdrawal_kw() {
        match amount {
            None => Err(AppError),
            Some(a) => if a < 0 {
                Ok(RowAction::SkipNegativeAmount)
            } else if l == deposit_kw() {
                Ok(RowAction::Submit(EngineEvent::Deposit { txid, client_id, amount: a }))
            } else {
                Ok(RowAction::Submit(EngineEvent::Withdrawal { txid, client_id, amount: a }))
            },
        }
    } else if l == dispute_kw() {
        Ok(RowAction::Submit(EngineEvent::Dispute { txid, client_id }))
    } else if l == resolve_kw() {
        Ok(RowAction::Submit(EngineEvent::Resolve { txid, client_id }))
    } else if l == chargeback_kw() {
        Ok(RowAction::Submit(EngineEvent::Chargeback { txid, client_id }))
    } else {
        Ok(RowAction::SkipUnknownType)
    }
}

/// Decides what one row of the tabular input means. The record type matches
/// case-insensitively. Deposits and withdrawals need an amount — a missing
/// one aborts the run — and negative amounts are skipped before they reach
/// the engine. Dispute, resolve and chargeback rows ignore the amount
/// column, and rows with an unknown record type are skipped.
pub fn classify_row(
    record_type: &[u8],
    txid: TransactionId,
    client_id: ClientId,
    amount: Option<Amount>,
) -> (r: Result<RowAction, AppError>)
    ensures
        r == spec_classify_row(record_type@, txid, client_id, amount),
{
    let kw_deposit: Vec<u8> = vec![
        'd' as u8,
        'e' as u8,
        'p' as u8,
        'o' as u8,
        's' as u8,
        'i' as u8,
        't' as u8,
    ];
    let kw_withdrawal: Vec<u8> = vec![
        'w' as u8,
        'i' as u8,
        't' as u8,
        'h' as u8,
        'd' as u8,
        'r' as u8,
        'a' as u8,
        'w' as u8,
        'a' as u8,
        'l' as u8,
    ];
    let is_deposit = matches_kw(record_type, kw_deposit.as_slice());
    let is_withdrawal = matches_kw(record_type, kw_withdrawal.as_slice());
    if is_deposit || is_withdrawal {
        match amount {
            None => Err(AppError),
            Some(a) => {
                if a < 0 {
                    Ok(RowAction::SkipNegativeAmount)
                } else if is_deposit {
                    Ok(RowAction::Submit(EngineEvent::Deposit { txid, client_id, amount: a }))
                } else {
                    Ok(RowAction::Submit(EngineEvent::Withdrawal { txid, client_id, amount: a }))
                }
            },
        }
    } else {
        let kw_dispute: Vec<u8> = vec![
            'd' as u8,
            'i' as u8,
            's' as u8,
            'p' as u8,
            'u' as u8,
            't' as u8,
            'e' as u8,
        ];
        let kw_resolve: Vec<u8> = vec![
            'r' as u8,
            'e' as u8,
            's' as u8,
            'o' as u8,
            'l' as u8,
            'v' as u8,
            'e' as u8,
        ];
        let kw_chargeback: Vec<u8> = vec![
            'c' as u8,
            'h' as u8,
            'a' as u8,
            'r' as u8,
            'g' as u8,
            'e' as u8,
            'b' as u8,
            'a' as u8,
            'c' as u8,
            'k' as u8,
        ];
        if matches_kw(record_type, kw_dispute.as_slice()) {
            Ok(RowAction::Submit(EngineEvent::Dispute { txid, client_id }))
        } else if matches_kw(record_type, kw_resolve.as_slice()) {
            Ok(RowAction::Submit(EngineEvent::Resolve { txid, client_id }))
        } else if matches_kw(record_type, kw_chargeback.as_slice()) {
            Ok(RowAction::Submit(EngineEvent::Chargeback { txid, client_id }))
        } else {
            Ok(RowAction::SkipUnknownType)
        }
    }
}

} // verus!
