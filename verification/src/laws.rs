//! The standing guarantees of the ledger rules, proved once over any
//! transaction sequence.

use vstd::prelude::*;
use crate::ledger::{step, run, DisputeStatus, LedgerModel, LedgerError};
use crate::transaction::{Transaction, TransactionBody};

verus! {

/// One applied transaction keeps every account well formed: `total`
/// stays `available + held` and `held` stays non-negative.
pub proof fn lemma_step_preserves_wf(l: LedgerModel, t: Transaction)
    requires
        l.wf(),
    ensures
        (match step(l, t) {
            Ok(l2) => l2.wf(),
            Err(_) => true,
        }),
{
}

/// For every account at every point of a run from a well-formed
/// ledger, `total == available + held` and `held >= 0`: the balance
/// invariants hold of the final ledger of any transaction sequence,
/// and so, taking prefixes, after every applied transaction.
pub proof fn lemma_run_preserves_wf(l: LedgerModel, ts: Seq<Transaction>)
    requires
        l.wf(),
    ensures
        run(l, ts).0.wf(),
    decreases ts.len(),
{
    if ts.len() > 0 {
        match step(l, ts[0]) {
            Ok(l2) => {
                lemma_step_preserves_wf(l, ts[0]);
                lemma_run_preserves_wf(l2, ts.drop_first());
            },
            Err(_) => {},
        }
    }
}

/// One applied transaction never unlocks an account, and never
/// removes one from the books.
pub proof fn lemma_step_locked_monotone(l: LedgerModel, t: Transaction, c: u16)
    requires
        l.accounts.contains_key(c),
        l.accounts[c].locked,
    ensures
        (match step(l, t) {
            Ok(l2) => l2.accounts.contains_key(c) && l2.accounts[c].locked,
            Err(_) => true,
        }),
{
}

/// `locked` is monotone: an account locked at any point of a run stays
/// locked for the rest of it, whether the run ends cleanly or stops on
/// a fault.
pub proof fn lemma_run_locked_monotone(l: LedgerModel, ts: Seq<Transaction>, c: u16)
    requires
        l.accounts.contains_key(c),
        l.accounts[c].locked,
    ensures
        run(l, ts).0.accounts.contains_key(c),
        run(l, ts).0.accounts[c].locked,
    decreases ts.len(),
{
    if ts.len() > 0 {
        match step(l, ts[0]) {
            Ok(l2) => {
                lemma_step_locked_monotone(l, ts[0], c);
                lemma_run_locked_monotone(l2, ts.drop_first(), c);
            },
            Err(_) => {},
        }
    }
}

/// An account once on the books is never removed: it survives any
/// run, whether the run ends cleanly or stops on a fault.
pub proof fn lemma_run_keeps_accounts(l: LedgerModel, ts: Seq<Transaction>, c: u16)
    requires
        l.accounts.contains_key(c),
    ensures
        run(l, ts).0.accounts.contains_key(c),
    decreases ts.len(),
{
    if ts.len() > 0 {
        match step(l, ts[0]) {
            Ok(l2) => {
                lemma_run_keeps_accounts(l2, ts.drop_first(), c);
            },
            Err(_) => {},
        }
    }
}

/// The history is append-only: an entry, once written by a deposit,
/// is never removed, and its client and amount never change; only its
/// dispute status moves.
pub proof fn lemma_run_history_append_only(l: LedgerModel, ts: Seq<Transaction>, id: u32)
    requires
        l.history.contains_key(id),
    ensures
        run(l, ts).0.history.contains_key(id),
        run(l, ts).0.history[id].client_id == l.history[id].client_id,
        run(l, ts).0.history[id].amount == l.history[id].amount,
    decreases ts.len(),
{
    if ts.len() > 0 {
        match step(l, ts[0]) {
            Ok(l2) => {
                lemma_run_history_append_only(l2, ts.drop_first(), id);
            },
            Err(_) => {},
        }
    }
}

/// A charged-back entry is terminal: no later transaction touches it
/// again.
pub proof fn lemma_run_chargeback_terminal(l: LedgerModel, ts: Seq<Transaction>, id: u32)
    requires
        l.history.contains_key(id),
        l.history[id].status == DisputeStatus::ChargedBack,
    ensures
        run(l, ts).0.history.contains_key(id),
        run(l, ts).0.history[id] == l.history[id],
    decreases ts.len(),
{
    if ts.len() > 0 {
        match step(l, ts[0]) {
            Ok(l2) => {
                lemma_run_chargeback_terminal(l2, ts.drop_first(), id);
            },
            Err(_) => {},
        }
    }
}

/// Runs compose: after a clean run of one sequence, running a second
/// is the same as running their concatenation. So the ledger at any
/// intermediate point of a clean run is itself the result of running
/// the prefix up to that point.
pub proof fn lemma_run_append(l: LedgerModel, ts1: Seq<Transaction>, ts2: Seq<Transaction>)
    requires
        run(l, ts1).1 is None,
    ensures
        run(l, ts1 + ts2) == run(run(l, ts1).0, ts2),
    decreases ts1.len(),
{
    if ts1.len() == 0 {
        assert(ts1 + ts2 =~= ts2);
    } else {
        assert((ts1 + ts2)[0] == ts1[0]);
        match step(l, ts1[0]) {
            Ok(l2) => {
                assert((ts1 + ts2).drop_first() =~= ts1.drop_first() + ts2);
                lemma_run_append(l2, ts1.drop_first(), ts2);
            },
            Err(_) => {
                assert(false);
            },
        }
    }
}

/// Disputing a transaction id that is not in the history is a no-op:
/// the ledger that comes out is the very ledger that went in.
pub proof fn lemma_dispute_unknown_noop(l: LedgerModel, t: TransactionBody)
    requires
        !l.history.contains_key(t.id),
    ensures
        step(l, Transaction::Dispute(t)) == Ok::<LedgerModel, LedgerError>(l),
{
}

} // verus!
