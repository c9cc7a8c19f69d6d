//! The ledger engine: per-client accounts, the deposit history, and
//! the rules for applying each transaction kind in input order.

use vstd::prelude::*;
use std::collections::HashMap;
use crate::account::Account;
use crate::transaction::{Transaction, TransactionBody, TransactionBodyWithAmount};

verus! {

broadcast use vstd::std_specs::hash::group_hash_axioms;

/// Where a history entry stands in its dispute lifecycle. A dispute
/// is accepted only on an open entry, a resolve or chargeback only on
/// a disputed one, so the same funds cannot be moved twice.
#[derive(Clone, Copy, Debug, PartialEq, Eq, Structural)]
pub enum DisputeStatus {
    /// Not under dispute; a dispute may open one.
    Open,
    /// Under dispute; a resolve returns it to open, a chargeback ends it.
    Disputed,
    /// Charged back; terminal.
    ChargedBack,
}

/// What the ledger remembers of one successfully applied deposit:
/// whose it was, how much it moved, and its dispute status.
#[derive(Clone, Copy, Debug, PartialEq, Eq, Structural)]
pub struct HistoryEntry {
    pub client_id: u16,
    pub amount: u64,
    pub status: DisputeStatus,
}

/// A fatal fault while applying transactions; processing stops with
/// the ledger as it stood before the offending transaction.
#[derive(Clone, Copy, Debug, PartialEq, Eq, Structural)]
pub enum LedgerError {
    /// A deposit reused a transaction id already in the history;
    /// overwriting it would corrupt later dispute resolution.
    DuplicateTransaction,
    /// Applying the transaction would push a balance outside the
    /// fixed-point range.
    AmountOverflow,
}

/// The mathematical state of a ledger: the two maps behind the hash
/// tables.
#[verifier::ext_equal]
pub struct LedgerModel {
    pub accounts: Map<u16, Account>,
    pub history: Map<u32, HistoryEntry>,
}

impl LedgerModel {
    /// Every account on the books satisfies its balance invariants.
    pub open spec fn wf(self) -> bool {
        forall|c: u16| #[trigger] self.accounts.contains_key(c) ==> self.accounts[c].wf()
    }

    /// The empty ledger.
    pub open spec fn empty() -> LedgerModel {
        LedgerModel { accounts: Map::empty(), history: Map::empty() }
    }
}

/// The account a transaction for `client` works on: the one on the
/// books, or a fresh zero account for a first deposit.
pub open spec fn account_or_new(accounts: Map<u16, Account>, client: u16) -> Account {
    if accounts.contains_key(client) {
        accounts[client]
    } else {
        Account::spec_new()
    }
}

/// A deposit: credits the client's account (creating it if need be)
/// and records the transaction in the history as open. A reused
/// transaction id or an out-of-range balance is fatal.
pub open spec fn step_deposit(
    l: LedgerModel,
    e: TransactionBodyWithAmount,
) -> Result<LedgerModel, LedgerError> {
    if l.history.contains_key(e.id) {
        Err(LedgerError::DuplicateTransaction)
    } else {
        let a = account_or_new(l.accounts, e.client_id);
        if a.total + e.amount > i64::MAX {
            Err(LedgerError::AmountOverflow)
        } else {
            Ok(LedgerModel {
                accounts: l.accounts.insert(e.client_id, Account {
                    available: (a.available + e.amount) as i64,
                    held: a.held,
                    total: (a.total + e.amount) as i64,
                    locked: a.locked,
                }),
                history: l.history.insert(e.id, HistoryEntry {
                    client_id: e.client_id,
                    amount: e.amount,
                    status: DisputeStatus::Open,
                }),
            })
        }
    }
}

/// A withdrawal: debits the client's account, but only if the client
/// is on the books and the available balance covers the amount;
/// otherwise it changes nothing. Withdrawals never enter the history.
pub open spec fn step_withdraw(
    l: LedgerModel,
    e: TransactionBodyWithAmount,
) -> Result<LedgerModel, LedgerError> {
    if !l.accounts.contains_key(e.client_id) {
        Ok(l)
    } else {
        let a = l.accounts[e.client_id];
        if a.available < e.amount {
            Ok(l)
        } else {
            Ok(LedgerModel {
                accounts: l.accounts.insert(e.client_id, Account {
                    available: (a.available - e.amount) as i64,
                    held: a.held,
                    total: (a.total - e.amount) as i64,
                    locked: a.locked,
                }),
                history: l.history,
            })
        }
    }
}

/// Whether a dispute, resolve or chargeback names a live target: a
/// client on the books, a history entry under the named id, and that
/// entry belonging to that client. Anything else is silently ignored.
pub open spec fn targets_entry(l: LedgerModel, e: TransactionBody) -> bool {
    &&& l.accounts.contains_key(e.client_id)
    &&& l.history.contains_key(e.id)
    &&& l.history[e.id].client_id == e.client_id
}

/// A dispute: freezes the referenced deposit's amount, moving it from
/// available to held, and marks the entry disputed. Ignored unless it
/// targets a live entry that is open; an out-of-range balance is fatal.
pub open spec fn step_dispute(
    l: LedgerModel,
    e: TransactionBody,
) -> Result<LedgerModel, LedgerError> {
    if !targets_entry(l, e) || l.history[e.id].status != DisputeStatus::Open {
        Ok(l)
    } else {
        let h = l.history[e.id];
        let a = l.accounts[e.client_id];
        if a.available - h.amount < i64::MIN || a.held + h.amount > i64::MAX {
            Err(LedgerError::AmountOverflow)
        } else {
            Ok(LedgerModel {
                accounts: l.accounts.insert(e.client_id, Account {
                    available: (a.available - h.amount) as i64,
                    held: (a.held + h.amount) as i64,
                    total: a.total,
                    locked: a.locked,
                }),
                history: l.history.insert(e.id, HistoryEntry {
                    client_id: h.client_id,
                    amount: h.amount,
                    status: DisputeStatus::Disputed,
                }),
            })
        }
    }
}

/// A resolve: releases a disputed amount back to available and reopens
/// the entry. Ignored unless it targets a live entry that is disputed
/// and the held balance covers the amount.
pub open spec fn step_resolve(
    l: LedgerModel,
    e: TransactionBody,
) -> Result<LedgerModel, LedgerError> {
    if !targets_entry(l, e) || l.history[e.id].status != DisputeStatus::Disputed
        || l.history[e.id].amount > l.accounts[e.client_id].held {
        Ok(l)
    } else {
        let h = l.history[e.id];
        let a = l.accounts[e.client_id];
        Ok(LedgerModel {
            accounts: l.accounts.insert(e.client_id, Account {
                available: (a.available + h.amount) as i64,
                held: (a.held - h.amount) as i64,
                total: a.total,
                locked: a.locked,
            }),
            history: l.history.insert(e.id, HistoryEntry {
                client_id: h.client_id,
                amount: h.amount,
                status: DisputeStatus::Open,
            }),
        })
    }
}

/// A chargeback: removes a disputed amount for good, locks the account
/// permanently, and closes the entry. Ignored unless it targets a live
/// entry that is disputed and the held balance covers the amount.
pub open spec fn step_chargeback(
    l: LedgerModel,
    e: TransactionBody,
) -> Result<LedgerModel, LedgerError> {
    if !targets_entry(l, e) || l.history[e.id].status != DisputeStatus::Disputed
        || l.history[e.id].amount > l.accounts[e.client_id].held {
        Ok(l)
    } else {
        let h = l.history[e.id];
        let a = l.accounts[e.client_id];
        Ok(LedgerModel {
            accounts: l.accounts.insert(e.client_id, Account {
                available: a.available,
                held: (a.held - h.amount) as i64,
                total: (a.total - h.amount) as i64,
                locked: true,
            }),
            history: l.history.insert(e.id, HistoryEntry {
                client_id: h.client_id,
                amount: h.amount,
                status: DisputeStatus::ChargedBack,
            }),
        })
    }
}

/// One transaction applied to the ledger: the rule of its variant.
pub open spec fn step(l: LedgerModel, t: Transaction) -> Result<LedgerModel, LedgerError> {
    match t {
        Transaction::Deposit(e) => step_deposit(l, e),
        Transaction::Withdraw(e) => step_withdraw(l, e),
        Transaction::Dispute(e) => step_dispute(l, e),
        Transaction::Resolve(e) => step_resolve(l, e),
        Transaction::Chargeback(e) => step_chargeback(l, e),
    }
}

/// A whole sequence applied in order. The result is the final ledger
/// and, if a step was fatal, that error together with the ledger as it
/// stood just before the offending transaction.
pub open spec fn run(l: LedgerModel, ts: Seq<Transaction>) -> (LedgerModel, Option<LedgerError>)
    decreases ts.len(),
{
    if ts.len() == 0 {
        (l, None)
    } else {
        match step(l, ts[0]) {
            Ok(l2) => run(l2, ts.drop_first()),
            Err(e) => (l, Some(e)),
        }
    }
}

/// How an executable processing step must relate to its rule: on
/// success the ledger advances to exactly the state the rule gives; on
/// error the rule gives that error and the ledger is untouched.
pub open spec fn advances(
    pre: LedgerModel,
    post: LedgerModel,
    r: Result<(), LedgerError>,
    s: Result<LedgerModel, LedgerError>,
) -> bool {
    match r {
        Ok(_) => s == Ok::<LedgerModel, LedgerError>(post),
        Err(e) => s == Err::<LedgerModel, LedgerError>(e) && post == pre,
    }
}

/// The ledger itself: account state by client and deposit history by
/// transaction id. The history is append-only; entries change status
/// but are never removed.
pub struct Ledger {
    pub state: HashMap<u16, Account>,
    pub history: HashMap<u32, HistoryEntry>,
}

impl View for Ledger {
    type V = LedgerModel;

    open spec fn view(&self) -> LedgerModel {
        LedgerModel { accounts: self.state@, history: self.history@ }
    }
}

impl Default for Ledger {
    /// The empty ledger, same as `Ledger::new`.
    fn default() -> (l: Ledger)
        ensures
            l@ == LedgerModel::empty(),
    {
        Ledger::new()
    }
}

impl Ledger {
    /// An empty ledger: no accounts, no history.
    pub fn new() -> (l: Ledger)
        ensures
            l@ == LedgerModel::empty(),
    {
        let l = Ledger { state: HashMap::new(), history: HashMap::new() };
        proof {
            assert(l@ =~= LedgerModel::empty());
        }
        l
    }

    /// Applies the transactions strictly in input order. On success
    /// the ledger holds exactly the state `run` gives; a fatal fault
    /// (duplicate deposit id, out-of-range balance) stops processing
    /// with the ledger as it stood before the offending transaction.
    pub fn process_txs(&mut self, txs: Vec<Transaction>) -> (r: Result<(), LedgerError>)
        requires
            old(self)@.wf(),
        ensures
            final(self)@.wf(),
            final(self)@ == run(old(self)@, txs@).0,
            (match r {
                Ok(_) => run(old(self)@, txs@).1 is None,
                Err(e) => run(old(self)@, txs@).1 == Some(e),
            }),
    {
        let ghost l0 = self@;
        let n = txs.len();
        proof {
            assert(txs@.subrange(0, n as int) =~= txs@);
        }
        for i in 0..n
            invariant
                self@.wf(),
                n == txs@.len(),
                l0 == old(self)@,
                run(l0, txs@) == run(self@, txs@.subrange(i as int, n as int)),
        {
            let ghost pre = self@;
            let ghost rest = txs@.subrange(i as int, n as int);
            let tx = txs[i];
            let res = match tx {
                Transaction::Deposit(e) => self.process_deposit(e),
                Transaction::Withdraw(e) => self.process_withdrawal(e),
                Transaction::Dispute(e) => self.process_dispute(e),
                Transaction::Resolve(e) => self.process_resolve(e),
                Transaction::Chargeback(e) => self.process_chargeback(e),
            };
            proof {
                assert(advances(pre, self@, res, step(pre, tx)));
                assert(rest[0] == txs@[i as int]);
                assert(rest.drop_first() =~= txs@.subrange(i as int + 1, n as int));
                assert(run(pre, rest) == (match step(pre, rest[0]) {
                    Ok(l2) => run(l2, rest.drop_first()),
                    Err(e) => (pre, Some(e)),
                }));
            }
            if let Err(e) = res {
                proof {
                    assert(self@ == pre);
                    assert(run(l0, txs@) == (pre, Some(e)));
                }
                return Err(e);
            }
        }
        proof {
            assert(txs@.subrange(n as int, n as int) =~= Seq::<Transaction>::empty());
        }
        Ok(())
    }

    fn process_deposit(&mut self, tx: TransactionBodyWithAmount) -> (r: Result<(), LedgerError>)
        requires
            old(self)@.wf(),
        ensures
            final(self)@.wf(),
            advances(old(self)@, final(self)@, r, step_deposit(old(self)@, tx)),
    {
        if self.history.contains_key(&tx.id) {
            return Err(LedgerError::DuplicateTransaction);
        }
        let mut acct = match self.state.get(&tx.client_id) {
            Some(a) => *a,
            None => Account::new(),
        };
        if acct.total as i128 + tx.amount as i128 > i64::MAX as i128 {
            return Err(LedgerError::AmountOverflow);
        }
        acct.deposit(tx.amount);
        self.state.insert(tx.client_id, acct);
        self.history.insert(tx.id, HistoryEntry {
            client_id: tx.client_id,
            amount: tx.amount,
            status: DisputeStatus::Open,
        });
        proof {
            assert(self@ =~= (match step_deposit(old(self)@, tx) {
                Ok(l2) => l2,
                Err(_) => old(self)@,
            }));
        }
        Ok(())
    }

    fn process_withdrawal(&mut self, tx: TransactionBodyWithAmount) -> (r: Result<(), LedgerError>)
        requires
            old(self)@.wf(),
        ensures
            final(self)@.wf(),
            advances(old(self)@, final(self)@, r, step_withdraw(old(self)@, tx)),
    {
        let mut acct = match self.state.get(&tx.client_id) {
            Some(a) => *a,
            None => {
                return Ok(());
            },
        };
        if (acct.available as i128) < (tx.amount as i128) {
            return Ok(());
        }
        acct.withdrawal(tx.amount);
        self.state.insert(tx.client_id, acct);
        proof {
            assert(self@ =~= (match step_withdraw(old(self)@, tx) {
                Ok(l2) => l2,
                Err(_) => old(self)@,
            }));
        }
        Ok(())
    }

    fn process_dispute(&mut self, tx: TransactionBody) -> (r: Result<(), LedgerError>)
        requires
            old(self)@.wf(),
        ensures
            final(self)@.wf(),
            advances(old(self)@, final(self)@, r, step_dispute(old(self)@, tx)),
    {
        let h = match self.history.get(&tx.id) {
            Some(h) => *h,
            None => {
                return Ok(());
            },
        };
        let mut acct = match self.state.get(&tx.client_id) {
            Some(a) => *a,
            None => {
                return Ok(());
            },
        };
        if h.client_id != tx.client_id || h.status != DisputeStatus::Open {
            return Ok(());
        }
        if (acct.available as i128) - (h.amount as i128) < (i64::MIN as i128)
            || (acct.held as i128) + (h.amount as i128) > (i64::MAX as i128) {
            return Err(LedgerError::AmountOverflow);
        }
        acct.dispute(h.amount);
        self.state.insert(tx.client_id, acct);
        self.history.insert(tx.id, HistoryEntry {
            client_id: h.client_id,
            amount: h.amount,
            status: DisputeStatus::Disputed,
        });
        proof {
            assert(self@ =~= (match step_dispute(old(self)@, tx) {
                Ok(l2) => l2,
                Err(_) => old(self)@,
            }));
        }
        Ok(())
    }

    fn process_resolve(&mut self, tx: TransactionBody) -> (r: Result<(), LedgerError>)
        requires
            old(self)@.wf(),
        ensures
            final(self)@.wf(),
            advances(old(self)@, final(self)@, r, step_resolve(old(self)@, tx)),
    {
        let h = match self.history.get(&tx.id) {
            Some(h) => *h,
            None => {
                return Ok(());
            },
        };
        let mut acct = match self.state.get(&tx.client_id) {
            Some(a) => *a,
            None => {
                return Ok(());
            },
        };
        if h.client_id != tx.client_id || h.status != DisputeStatus::Disputed {
            return Ok(());
        }
        if (h.amount as i128) > (acct.held as i128) {
            return Ok(());
        }
        acct.resolve_dispute(h.amount);
        self.state.insert(tx.client_id, acct);
        self.history.insert(tx.id, HistoryEntry {
            client_id: h.client_id,
            amount: h.amount,
            status: DisputeStatus::Open,
        });
        proof {
            assert(self@ =~= (match step_resolve(old(self)@, tx) {
                Ok(l2) => l2,
                Err(_) => old(self)@,
            }));
        }
        Ok(())
    }

    fn process_chargeback(&mut self, tx: TransactionBody) -> (r: Result<(), LedgerError>)
        requires
            old(self)@.wf(),
        ensures
            final(self)@.wf(),
            advances(old(self)@, final(self)@, r, step_chargeback(old(self)@, tx)),
    {
        let h = match self.history.get(&tx.id) {
            Some(h) => *h,
            None => {
                return Ok(());
            },
        };
        let mut acct = match self.state.get(&tx.client_id) {
            Some(a) => *a,
            None => {
                return Ok(());
            },
        };
        if h.client_id != tx.client_id || h.status != DisputeStatus::Disputed {
            return Ok(());
        }
        if (h.amount as i128) > (acct.held as i128) {
            return Ok(());
        }
        acct.chargeback(h.amount);
        self.state.insert(tx.client_id, acct);
        self.history.insert(tx.id, HistoryEntry {
            client_id: h.client_id,
            amount: h.amount,
            status: DisputeStatus::ChargedBack,
        });
        proof {
            assert(self@ =~= (match step_chargeback(old(self)@, tx) {
                Ok(l2) => l2,
                Err(_) => old(self)@,
            }));
        }
        Ok(())
    }
}

} // verus!
