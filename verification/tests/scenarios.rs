//! End-to-end scenarios over the ledger engine. Amounts are in
//! fixed-point units: 10_000 units per currency unit.

use ledger::account::Account;
use ledger::ledger::Ledger;
use ledger::transaction::{Transaction, TransactionBody, TransactionBodyWithAmount};

fn deposit(id: u32, client: u16, amount: u64) -> Transaction {
    Transaction::Deposit(TransactionBodyWithAmount { id, client_id: client, amount })
}

fn withdraw(id: u32, client: u16, amount: u64) -> Transaction {
    Transaction::Withdraw(TransactionBodyWithAmount { id, client_id: client, amount })
}

fn dispute(id: u32, client: u16) -> Transaction {
    Transaction::Dispute(TransactionBody { id, client_id: client })
}

fn resolve(id: u32, client: u16) -> Transaction {
    Transaction::Resolve(TransactionBody { id, client_id: client })
}

fn chargeback(id: u32, client: u16) -> Transaction {
    Transaction::Chargeback(TransactionBody { id, client_id: client })
}

fn account(l: &Ledger, client: u16) -> Account {
    *l.state.get(&client).expect("account should exist")
}

#[test]
fn single_deposit() {
    let mut l = Ledger::new();
    let r = l.process_txs(vec![deposit(1, 1, 100_000)]);
    assert!(r.is_ok());
    let a = account(&l, 1);
    assert_eq!(a.available, 100_000);
    assert_eq!(a.held, 0);
    assert_eq!(a.total, 100_000);
    assert!(!a.locked);
}

#[test]
fn deposit_then_withdraw() {
    let mut l = Ledger::new();
    let r = l.process_txs(vec![deposit(1, 1, 100_000), withdraw(2, 1, 30_000)]);
    assert!(r.is_ok());
    let a = account(&l, 1);
    assert_eq!(a.available, 70_000);
    assert_eq!(a.held, 0);
    assert_eq!(a.total, 70_000);
    assert!(!a.locked);
}

#[test]
fn withdraw_from_unknown_client_creates_no_account() {
    let mut l = Ledger::new();
    let r = l.process_txs(vec![withdraw(5, 9, 1_000_000)]);
    assert!(r.is_ok());
    assert!(l.state.get(&9).is_none());
    assert_eq!(l.state.len(), 0);
}

#[test]
fn dispute_then_chargeback() {
    let mut l = Ledger::new();
    let r = l.process_txs(vec![deposit(1, 1, 100_000), dispute(1, 1)]);
    assert!(r.is_ok());
    let a = account(&l, 1);
    assert_eq!(a.available, 0);
    assert_eq!(a.held, 100_000);
    assert_eq!(a.total, 100_000);
    assert!(!a.locked);

    let r = l.process_txs(vec![chargeback(1, 1)]);
    assert!(r.is_ok());
    let a = account(&l, 1);
    assert_eq!(a.available, 0);
    assert_eq!(a.held, 0);
    assert_eq!(a.total, 0);
    assert!(a.locked);
}

#[test]
fn dispute_then_resolve_restores_pre_dispute_state() {
    let mut l = Ledger::new();
    let r = l.process_txs(vec![deposit(1, 1, 100_000), dispute(1, 1), resolve(1, 1)]);
    assert!(r.is_ok());
    let a = account(&l, 1);
    assert_eq!(a.available, 100_000);
    assert_eq!(a.held, 0);
    assert_eq!(a.total, 100_000);
    assert!(!a.locked);
}

#[test]
fn withdrawal_beyond_available_is_ignored() {
    let mut l = Ledger::new();
    let r = l.process_txs(vec![deposit(1, 1, 50_000), withdraw(2, 1, 100_000)]);
    assert!(r.is_ok());
    let a = account(&l, 1);
    assert_eq!(a.available, 50_000);
    assert_eq!(a.held, 0);
    assert_eq!(a.total, 50_000);
    assert!(!a.locked);
}

#[test]
fn dispute_of_unknown_tx_leaves_ledger_unchanged() {
    let mut l = Ledger::new();
    let r = l.process_txs(vec![deposit(1, 1, 100_000)]);
    assert!(r.is_ok());
    let state_before = l.state.clone();
    let history_before = l.history.clone();
    let r = l.process_txs(vec![dispute(999, 1)]);
    assert!(r.is_ok());
    assert_eq!(l.state, state_before);
    assert_eq!(l.history, history_before);
}

#[test]
fn second_dispute_of_same_tx_is_ignored() {
    let mut l = Ledger::new();
    let r = l.process_txs(vec![deposit(1, 1, 100_000), dispute(1, 1), dispute(1, 1)]);
    assert!(r.is_ok());
    let a = account(&l, 1);
    assert_eq!(a.available, 0);
    assert_eq!(a.held, 100_000);
    assert_eq!(a.total, 100_000);
}

#[test]
fn resolve_without_dispute_is_ignored() {
    let mut l = Ledger::new();
    let r = l.process_txs(vec![deposit(1, 1, 100_000), resolve(1, 1)]);
    assert!(r.is_ok());
    let a = account(&l, 1);
    assert_eq!(a.available, 100_000);
    assert_eq!(a.held, 0);
    assert_eq!(a.total, 100_000);
}

#[test]
fn chargeback_without_dispute_is_ignored() {
    let mut l = Ledger::new();
    let r = l.process_txs(vec![deposit(1, 1, 100_000), chargeback(1, 1)]);
    assert!(r.is_ok());
    let a = account(&l, 1);
    assert_eq!(a.available, 100_000);
    assert_eq!(a.held, 0);
    assert_eq!(a.total, 100_000);
    assert!(!a.locked);
}

#[test]
fn dispute_by_wrong_client_is_ignored() {
    let mut l = Ledger::new();
    let r = l.process_txs(vec![
        deposit(1, 1, 100_000),
        deposit(2, 2, 40_000),
        dispute(1, 2),
    ]);
    assert!(r.is_ok());
    let a1 = account(&l, 1);
    assert_eq!(a1.available, 100_000);
    assert_eq!(a1.held, 0);
    let a2 = account(&l, 2);
    assert_eq!(a2.available, 40_000);
    assert_eq!(a2.held, 0);
}

#[test]
fn deposit_after_lock_is_still_accepted() {
    let mut l = Ledger::new();
    let r = l.process_txs(vec![
        deposit(1, 1, 100_000),
        dispute(1, 1),
        chargeback(1, 1),
        deposit(2, 1, 20_000),
    ]);
    assert!(r.is_ok());
    let a = account(&l, 1);
    assert_eq!(a.available, 20_000);
    assert_eq!(a.held, 0);
    assert_eq!(a.total, 20_000);
    assert!(a.locked);
}

#[test]
fn dispute_can_drive_available_negative() {
    let mut l = Ledger::new();
    let r = l.process_txs(vec![
        deposit(1, 1, 100_000),
        withdraw(2, 1, 90_000),
        dispute(1, 1),
    ]);
    assert!(r.is_ok());
    let a = account(&l, 1);
    assert_eq!(a.available, -90_000);
    assert_eq!(a.held, 100_000);
    assert_eq!(a.total, 10_000);
}

#[test]
fn dispute_family_for_unknown_client_is_ignored() {
    let mut l = Ledger::new();
    let r = l.process_txs(vec![
        deposit(1, 1, 100_000),
        dispute(1, 7),
        resolve(1, 7),
        chargeback(1, 7),
    ]);
    assert!(r.is_ok());
    let a = account(&l, 1);
    assert_eq!(a.available, 100_000);
    assert_eq!(a.held, 0);
    assert!(l.state.get(&7).is_none());
}

#[test]
fn resolve_and_chargeback_of_unknown_tx_are_ignored() {
    let mut l = Ledger::new();
    let r = l.process_txs(vec![deposit(1, 1, 100_000), resolve(42, 1), chargeback(42, 1)]);
    assert!(r.is_ok());
    let a = account(&l, 1);
    assert_eq!(a.available, 100_000);
    assert_eq!(a.held, 0);
    assert!(!a.locked);
}

#[test]
fn total_is_available_plus_held_throughout() {
    let mut l = Ledger::new();
    let txs = vec![
        deposit(1, 1, 100_000),
        deposit(2, 2, 50_000),
        withdraw(3, 1, 20_000),
        dispute(1, 1),
        resolve(1, 1),
        dispute(2, 2),
        chargeback(2, 2),
    ];
    for tx in txs {
        let r = l.process_txs(vec![tx]);
        assert!(r.is_ok());
        for (_, a) in l.state.iter() {
            assert_eq!(a.total, a.available + a.held);
            assert!(a.held >= 0);
        }
    }
}
