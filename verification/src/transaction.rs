//! Raw input records and their normalization into typed transactions.

use vstd::prelude::*;
use vstd::string::StringExecFns;

verus! {

/// One raw input row, with the source format already stripped away:
/// an action name, a client id, a transaction id, and an optional
/// amount in fixed-point units (1/10000 of a currency unit).
///
/// The amount is signed so that a non-positive figure in the input can
/// be carried here and rejected by the normalizer rather than upstream.
pub struct RawRecord {
    pub action: String,
    pub client: u16,
    pub tx: u32,
    pub amount: Option<i64>,
}

/// Why a raw record could not be normalized.
#[derive(Clone, Copy, Debug, PartialEq, Eq, Structural)]
pub enum NormalizeError {
    /// The action name is none of the five known ones.
    UnknownAction,
    /// A deposit or withdrawal came without an amount.
    MissingAmount,
    /// A deposit or withdrawal came with a zero or negative amount.
    NonPositiveAmount,
}

/// Read access to the ids every transaction body carries.
pub trait ClientAndId {
    /// The transaction id, as a spec-level value.
    spec fn spec_id(&self) -> u32;

    /// The client id, as a spec-level value.
    spec fn spec_client_id(&self) -> u16;

    /// The transaction id.
    fn id(&self) -> (r: u32)
        ensures
            r == self.spec_id(),
    ;

    /// The client id.
    fn client_id(&self) -> (r: u16)
        ensures
            r == self.spec_client_id(),
    ;
}

/// Read access to the amount a deposit or withdrawal carries.
pub trait Amount {
    /// The amount, as a spec-level value.
    spec fn spec_amount(&self) -> u64;

    /// The amount, in fixed-point units.
    fn amount(&self) -> (r: u64)
        ensures
            r == self.spec_amount(),
    ;
}

/// Client and transaction id of a dispute, resolve or chargeback;
/// the id names the deposit the record is about, not a fresh id.
#[derive(Clone, Copy, Debug, PartialEq, Eq, Structural)]
pub struct TransactionBody {
    pub id: u32,
    pub client_id: u16,
}

/// Client, transaction id and (positive) amount of a deposit
/// or withdrawal.
#[derive(Clone, Copy, Debug, PartialEq, Eq, Structural)]
pub struct TransactionBodyWithAmount {
    pub id: u32,
    pub client_id: u16,
    pub amount: u64,
}

impl ClientAndId for TransactionBody {
    open spec fn spec_id(&self) -> u32 {
        self.id
    }

    open spec fn spec_client_id(&self) -> u16 {
        self.client_id
    }

    fn id(&self) -> u32 {
        self.id
    }

    fn client_id(&self) -> u16 {
        self.client_id
    }
}

impl ClientAndId for TransactionBodyWithAmount {
    open spec fn spec_id(&self) -> u32 {
        self.id
    }

    open spec fn spec_client_id(&self) -> u16 {
        self.client_id
    }

    fn id(&self) -> u32 {
        self.id
    }

    fn client_id(&self) -> u16 {
        self.client_id
    }
}

impl Amount for TransactionBodyWithAmount {
    open spec fn spec_amount(&self) -> u64 {
        self.amount
    }

    fn amount(&self) -> u64 {
        self.amount
    }
}

/// A fully typed transaction: one variant per action, each carrying
/// exactly the fields that action uses.
#[derive(Clone, Copy, Debug, PartialEq, Eq, Structural)]
pub enum Transaction {
    Deposit(TransactionBodyWithAmount),
    Withdraw(TransactionBodyWithAmount),
    Dispute(TransactionBody),
    Resolve(TransactionBody),
    Chargeback(TransactionBody),
}

/// What normalizing a raw record yields: the typed transaction for the
/// five known action names, an error for anything malformed. The
/// amount is required, and required positive, exactly for deposits and
/// withdrawals; the other actions ignore it even when present.
pub open spec fn spec_normalize(
    action: Seq<char>,
    client: u16,
    tx: u32,
    amount: Option<i64>,
) -> Result<Transaction, NormalizeError> {
    if action == "deposit"@ || action == "withdrawal"@ {
        match amount {
            Option::None => Err(NormalizeError::MissingAmount),
            Option::Some(a) => if a <= 0 {
                Err(NormalizeError::NonPositiveAmount)
            } else {
                let body = TransactionBodyWithAmount {
                    id: tx,
                    client_id: client,
                    amount: a as u64,
                };
                if action == "deposit"@ {
                    Ok(Transaction::Deposit(body))
                } else {
                    Ok(Transaction::Withdraw(body))
                }
            },
        }
    } else if action == "dispute"@ {
        Ok(Transaction::Dispute(TransactionBody { id: tx, client_id: client }))
    } else if action == "resolve"@ {
        Ok(Transaction::Resolve(TransactionBody { id: tx, client_id: client }))
    } else if action == "chargeback"@ {
        Ok(Transaction::Chargeback(TransactionBody { id: tx, client_id: client }))
    } else {
        Err(NormalizeError::UnknownAction)
    }
}

impl Transaction {
    /// Normalizes one raw record, matching the action name
    /// case-sensitively against the five known actions.
    pub fn from_record(rec: &RawRecord) -> (r: Result<Transaction, NormalizeError>)
        ensures
            r == spec_normalize(rec.action@, rec.client, rec.tx, rec.amount),
    {
        let deposit_name: String = String::from_str("deposit");
        let withdrawal_name: String = String::from_str("withdrawal");
        if rec.action == deposit_name || rec.action == withdrawal_name {
            match rec.amount {
                Option::None => Err(NormalizeError::MissingAmount),
                Option::Some(a) => {
                    if a <= 0 {
                        Err(NormalizeError::NonPositiveAmount)
                    } else {
                        let body = TransactionBodyWithAmount {
                            id: rec.tx,
                            client_id: rec.client,
                            amount: a as u64,
                        };
                        if rec.action == deposit_name {
                            Ok(Transaction::Deposit(body))
                        } else {
                            Ok(Transaction::Withdraw(body))
                        }
                    }
                },
            }
        } else if rec.action == String::from_str("dispute") {
            Ok(Transaction::Dispute(TransactionBody { id: rec.tx, client_id: rec.client }))
        } else if rec.action == String::from_str("resolve") {
            Ok(Transaction::Resolve(TransactionBody { id: rec.tx, client_id: rec.client }))
        } else if rec.action == String::from_str("chargeback") {
            Ok(Transaction::Chargeback(TransactionBody { id: rec.tx, client_id: rec.client }))
        } else {
            Err(NormalizeError::UnknownAction)
        }
    }
}

} // verus!
