//! The transaction normalizer: one typed variant per known action,
//! an error for each kind of malformed record.

use ledger::transaction::{
    Amount, ClientAndId, NormalizeError, RawRecord, Transaction, TransactionBody,
    TransactionBodyWithAmount,
};

fn record(action: &str, client: u16, tx: u32, amount: Option<i64>) -> RawRecord {
    RawRecord { action: String::from(action), client, tx, amount }
}

#[test]
fn deposit_record_normalizes() {
    let r = Transaction::from_record(&record("deposit", 7, 3, Some(25_000)));
    assert_eq!(
        r,
        Ok(Transaction::Deposit(TransactionBodyWithAmount {
            id: 3,
            client_id: 7,
            amount: 25_000,
        }))
    );
}

#[test]
fn withdrawal_record_normalizes() {
    let r = Transaction::from_record(&record("withdrawal", 2, 9, Some(1)));
    assert_eq!(
        r,
        Ok(Transaction::Withdraw(TransactionBodyWithAmount { id: 9, client_id: 2, amount: 1 }))
    );
}

#[test]
fn dispute_record_normalizes_and_ignores_amount() {
    let r = Transaction::from_record(&record("dispute", 4, 11, Some(99)));
    assert_eq!(r, Ok(Transaction::Dispute(TransactionBody { id: 11, client_id: 4 })));
    let r = Transaction::from_record(&record("dispute", 4, 11, None));
    assert_eq!(r, Ok(Transaction::Dispute(TransactionBody { id: 11, client_id: 4 })));
}

#[test]
fn resolve_record_normalizes() {
    let r = Transaction::from_record(&record("resolve", 4, 11, None));
    assert_eq!(r, Ok(Transaction::Resolve(TransactionBody { id: 11, client_id: 4 })));
}

#[test]
fn chargeback_record_normalizes() {
    let r = Transaction::from_record(&record("chargeback", 4, 11, None));
    assert_eq!(r, Ok(Transaction::Chargeback(TransactionBody { id: 11, client_id: 4 })));
}

#[test]
fn unknown_action_is_rejected() {
    let r = Transaction::from_record(&record("transfer", 1, 1, Some(10)));
    assert_eq!(r, Err(NormalizeError::UnknownAction));
    let r = Transaction::from_record(&record("Deposit", 1, 1, Some(10)));
    assert_eq!(r, Err(NormalizeError::UnknownAction));
    let r = Transaction::from_record(&record("", 1, 1, None));
    assert_eq!(r, Err(NormalizeError::UnknownAction));
}

#[test]
fn missing_amount_is_rejected() {
    let r = Transaction::from_record(&record("deposit", 1, 1, None));
    assert_eq!(r, Err(NormalizeError::MissingAmount));
    let r = Transaction::from_record(&record("withdrawal", 1, 1, None));
    assert_eq!(r, Err(NormalizeError::MissingAmount));
}

#[test]
fn body_getters_return_the_fields() {
    let b = TransactionBody { id: 11, client_id: 4 };
    assert_eq!(b.id(), 11);
    assert_eq!(b.client_id(), 4);
    let b = TransactionBodyWithAmount { id: 3, client_id: 7, amount: 25_000 };
    assert_eq!(b.id(), 3);
    assert_eq!(b.client_id(), 7);
    assert_eq!(b.amount(), 25_000);
}

#[test]
fn non_positive_amount_is_rejected() {
    let r = Transaction::from_record(&record("deposit", 1, 1, Some(0)));
    assert_eq!(r, Err(NormalizeError::NonPositiveAmount));
    let r = Transaction::from_record(&record("withdrawal", 1, 1, Some(-5)));
    assert_eq!(r, Err(NormalizeError::NonPositiveAmount));
}
