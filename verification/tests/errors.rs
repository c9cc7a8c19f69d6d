//! Fatal faults: duplicate deposit ids and out-of-range balances stop
//! processing with the ledger as it stood before the offending
//! transaction.

use ledger::ledger::{Ledger, LedgerError};
use ledger::transaction::{Transaction, TransactionBody, TransactionBodyWithAmount};

fn deposit(id: u32, client: u16, amount: u64) -> Transaction {
    Transaction::Deposit(TransactionBodyWithAmount { id, client_id: client, amount })
}

fn withdraw(id: u32, client: u16, amount: u64) -> Transaction {
    Transaction::Withdraw(TransactionBodyWithAmount { id, client_id: client, amount })
}

fn dispute(id: u32, client: u16) -> Transaction {
    Transaction::Dispute(TransactionBody { id, client_id: client })
}

fn chargeback(id: u32, client: u16) -> Transaction {
    Transaction::Chargeback(TransactionBody { id, client_id: client })
}

#[test]
fn duplicate_deposit_id_is_fatal() {
    let mut l = Ledger::new();
    let r = l.process_txs(vec![
        deposit(1, 1, 100_000),
        deposit(1, 2, 50_000),
        deposit(2, 1, 10_000),
    ]);
    assert_eq!(r, Err(LedgerError::DuplicateTransaction));
    // the run stopped before the duplicate: only the first deposit took
    let a = l.state.get(&1).expect("account should exist");
    assert_eq!(a.available, 100_000);
    assert!(l.state.get(&2).is_none());
    assert_eq!(l.history.len(), 1);
}

#[test]
fn deposit_overflowing_total_is_fatal() {
    let mut l = Ledger::new();
    let r = l.process_txs(vec![deposit(1, 1, u64::MAX)]);
    assert_eq!(r, Err(LedgerError::AmountOverflow));
    assert!(l.state.get(&1).is_none());
    assert_eq!(l.history.len(), 0);
}

#[test]
fn second_deposit_overflowing_total_is_fatal() {
    let q: u64 = 1 << 62;
    let mut l = Ledger::new();
    let r = l.process_txs(vec![deposit(1, 1, q), deposit(2, 1, q - 1), deposit(3, 1, q)]);
    assert_eq!(r, Err(LedgerError::AmountOverflow));
    // the first two deposits reach i64::MAX exactly; the third cannot fit
    let a = l.state.get(&1).expect("account should exist");
    assert_eq!(a.available, i64::MAX);
    assert_eq!(l.history.len(), 2);
}

#[test]
fn dispute_overflowing_held_is_fatal() {
    let q: u64 = 1 << 62;
    let mut l = Ledger::new();
    let r = l.process_txs(vec![
        deposit(1, 1, q),
        withdraw(2, 1, q - 1),
        dispute(1, 1),
        chargeback(1, 1),
        deposit(3, 1, q),
        dispute(3, 1),
        deposit(4, 1, q),
        dispute(4, 1),
    ]);
    assert_eq!(r, Err(LedgerError::AmountOverflow));
    // the run stopped before the last dispute
    let a = l.state.get(&1).expect("account should exist");
    assert_eq!(a.held, q as i64);
    assert_eq!(a.available, 1);
    assert!(a.locked);
}
