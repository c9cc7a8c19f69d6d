//! A structural account of the held balance: at every point of a run,
//! what an account holds is exactly the sum of that client's currently
//! disputed deposits.

use vstd::prelude::*;
use vstd::set::fold::{is_fun_commutative, lemma_fold_empty, lemma_fold_insert};
use crate::ledger::{run, step, step_chargeback, step_deposit, step_dispute, step_resolve,
    step_withdraw, targets_entry, DisputeStatus, HistoryEntry, LedgerModel};
use crate::transaction::{Transaction, TransactionBody, TransactionBodyWithAmount};

verus! {

/// Whether a history pair belongs to client `c` and is currently
/// disputed.
pub open spec fn disputed_for(c: u16) -> spec_fn((u32, HistoryEntry)) -> bool {
    |p: (u32, HistoryEntry)| p.1.client_id == c && p.1.status == DisputeStatus::Disputed
}

/// The (id, entry) pairs of the history that client `c` has under
/// dispute.
pub open spec fn disputed_pairs(h: Map<u32, HistoryEntry>, c: u16) -> Set<(u32, HistoryEntry)> {
    h.kv_pairs().filter(disputed_for(c))
}

/// The fold step of `disputed_total`: add one pair's amount.
pub open spec fn sum_step() -> spec_fn(int, (u32, HistoryEntry)) -> int {
    |acc: int, p: (u32, HistoryEntry)| acc + p.1.amount
}

/// The sum of the amounts client `c` has under dispute.
pub open spec fn disputed_total(h: Map<u32, HistoryEntry>, c: u16) -> int {
    disputed_pairs(h, c).fold(0, sum_step())
}

proof fn lemma_disputed_pairs_finite(h: Map<u32, HistoryEntry>, c: u16)
    requires
        h.dom().finite(),
    ensures
        disputed_pairs(h, c).finite(),
{
    let to_pair = |k: u32| (k, h[k]);
    assert(h.kv_pairs() =~= h.dom().map(to_pair));
    h.dom().lemma_map_finite(to_pair);
    h.kv_pairs().lemma_len_filter(disputed_for(c));
}

proof fn lemma_sum_nonneg(s: Set<(u32, HistoryEntry)>)
    requires
        s.finite(),
    ensures
        s.fold(0, sum_step()) >= 0,
    decreases s.len(),
{
    assert(is_fun_commutative(sum_step()));
    if s.len() == 0 {
        assert(s =~= Set::empty());
        lemma_fold_empty(0int, sum_step());
    } else {
        let p = s.choose();
        lemma_sum_nonneg(s.remove(p));
        lemma_fold_insert(s.remove(p), 0int, sum_step(), p);
        assert(s.remove(p).insert(p) =~= s);
    }
}

/// The sum of a finite pair set splits off any one of its elements.
proof fn lemma_sum_split(s: Set<(u32, HistoryEntry)>, p: (u32, HistoryEntry))
    requires
        s.finite(),
        s.contains(p),
    ensures
        s.fold(0, sum_step()) == s.remove(p).fold(0, sum_step()) + p.1.amount,
{
    assert(is_fun_commutative(sum_step()));
    lemma_fold_insert(s.remove(p), 0int, sum_step(), p);
    assert(s.remove(p).insert(p) =~= s);
}

/// No single disputed amount exceeds the sum of them all.
proof fn lemma_element_le_sum(s: Set<(u32, HistoryEntry)>, p: (u32, HistoryEntry))
    requires
        s.finite(),
        s.contains(p),
    ensures
        p.1.amount <= s.fold(0, sum_step()),
{
    lemma_sum_split(s, p);
    lemma_sum_nonneg(s.remove(p));
}

/// Rewrites `disputed_pairs` under a history write that leaves client
/// `c`'s disputed entries alone.
proof fn lemma_pairs_unchanged(h: Map<u32, HistoryEntry>, id: u32, e: HistoryEntry, c: u16)
    requires
        !disputed_for(c)((id, e)),
        h.contains_key(id) ==> !disputed_for(c)((id, h[id])),
    ensures
        disputed_pairs(h.insert(id, e), c) == disputed_pairs(h, c),
{
    assert(disputed_pairs(h.insert(id, e), c) =~= disputed_pairs(h, c));
}

/// Rewrites `disputed_pairs` under a history write that opens a new
/// dispute for client `c`.
proof fn lemma_pairs_insert(h: Map<u32, HistoryEntry>, id: u32, e: HistoryEntry, c: u16)
    requires
        disputed_for(c)((id, e)),
        h.contains_key(id) ==> !disputed_for(c)((id, h[id])),
    ensures
        disputed_pairs(h.insert(id, e), c) == disputed_pairs(h, c).insert((id, e)),
        !disputed_pairs(h, c).contains((id, e)),
{
    assert(disputed_pairs(h.insert(id, e), c) =~= disputed_pairs(h, c).insert((id, e)));
}

/// Rewrites `disputed_pairs` under a history write that closes client
/// `c`'s dispute at `id`.
proof fn lemma_pairs_remove(h: Map<u32, HistoryEntry>, id: u32, e: HistoryEntry, c: u16)
    requires
        h.contains_key(id),
        disputed_for(c)((id, h[id])),
        !disputed_for(c)((id, e)),
    ensures
        disputed_pairs(h.insert(id, e), c) == disputed_pairs(h, c).remove((id, h[id])),
        disputed_pairs(h, c).contains((id, h[id])),
{
    assert(disputed_pairs(h.insert(id, e), c) =~= disputed_pairs(h, c).remove((id, h[id])));
}

/// The structural invariant: the history is finite, every account
/// holds exactly the sum of its disputed deposits, and every disputed
/// entry belongs to a client on the books.
pub open spec fn held_matches_disputes(l: LedgerModel) -> bool {
    &&& l.history.dom().finite()
    &&& (forall|c: u16| #[trigger] l.accounts.contains_key(c)
            ==> l.accounts[c].held == disputed_total(l.history, c))
    &&& (forall|id: u32| #[trigger] l.history.contains_key(id)
            ==> (l.history[id].status == DisputeStatus::Disputed
                ==> l.accounts.contains_key(l.history[id].client_id)))
}

/// The empty ledger satisfies the structural invariant.
pub proof fn lemma_empty_held_matches()
    ensures
        held_matches_disputes(LedgerModel::empty()),
{
}

proof fn lemma_deposit_preserves_held(l: LedgerModel, e: TransactionBodyWithAmount)
    requires
        held_matches_disputes(l),
    ensures
        (match step_deposit(l, e) {
            Ok(l2) => held_matches_disputes(l2),
            Err(_) => true,
        }),
{
    if let Ok(l2) = step_deposit(l, e) {
        let cid = e.client_id;
        let entry = HistoryEntry { client_id: cid, amount: e.amount, status: DisputeStatus::Open };
        assert forall|c: u16| #[trigger] l2.accounts.contains_key(c) implies
            l2.accounts[c].held == disputed_total(l2.history, c) by {
            lemma_pairs_unchanged(l.history, e.id, entry, c);
            if c == cid && !l.accounts.contains_key(cid) {
                assert forall|p: (u32, HistoryEntry)| !(#[trigger] disputed_pairs(l.history, cid).contains(p)) by {
                    if l.history.contains_key(p.0) {
                    }
                }
                assert(disputed_pairs(l.history, cid) =~= Set::empty());
                lemma_fold_empty(0int, sum_step());
            }
        }
    }
}

proof fn lemma_withdraw_preserves_held(l: LedgerModel, e: TransactionBodyWithAmount)
    requires
        held_matches_disputes(l),
    ensures
        (match step_withdraw(l, e) {
            Ok(l2) => held_matches_disputes(l2),
            Err(_) => true,
        }),
{
}

proof fn lemma_dispute_preserves_held(l: LedgerModel, e: TransactionBody)
    requires
        held_matches_disputes(l),
    ensures
        (match step_dispute(l, e) {
            Ok(l2) => held_matches_disputes(l2),
            Err(_) => true,
        }),
{
    if let Ok(l2) = step_dispute(l, e) {
        if targets_entry(l, e) && l.history[e.id].status == DisputeStatus::Open {
            let cid = e.client_id;
            let h = l.history[e.id];
            let entry = HistoryEntry {
                client_id: h.client_id,
                amount: h.amount,
                status: DisputeStatus::Disputed,
            };
            assert forall|c: u16| #[trigger] l2.accounts.contains_key(c) implies
                l2.accounts[c].held == disputed_total(l2.history, c) by {
                if c == cid {
                    lemma_pairs_insert(l.history, e.id, entry, cid);
                    lemma_disputed_pairs_finite(l.history, cid);
                    lemma_fold_insert(
                        disputed_pairs(l.history, cid),
                        0int,
                        sum_step(),
                        (e.id, entry),
                    );
                } else {
                    lemma_pairs_unchanged(l.history, e.id, entry, c);
                }
            }
        }
    }
}

proof fn lemma_resolve_preserves_held(l: LedgerModel, e: TransactionBody)
    requires
        held_matches_disputes(l),
    ensures
        (match step_resolve(l, e) {
            Ok(l2) => held_matches_disputes(l2),
            Err(_) => true,
        }),
{
    if let Ok(l2) = step_resolve(l, e) {
        if targets_entry(l, e) && l.history[e.id].status == DisputeStatus::Disputed
            && l.history[e.id].amount <= l.accounts[e.client_id].held {
            let cid = e.client_id;
            let h = l.history[e.id];
            let entry = HistoryEntry {
                client_id: h.client_id,
                amount: h.amount,
                status: DisputeStatus::Open,
            };
            assert forall|c: u16| #[trigger] l2.accounts.contains_key(c) implies
                l2.accounts[c].held == disputed_total(l2.history, c) by {
                if c == cid {
                    lemma_pairs_remove(l.history, e.id, entry, cid);
                    lemma_disputed_pairs_finite(l.history, cid);
                    lemma_sum_split(disputed_pairs(l.history, cid), (e.id, h));
                } else {
                    lemma_pairs_unchanged(l.history, e.id, entry, c);
                }
            }
        }
    }
}

proof fn lemma_chargeback_preserves_held(l: LedgerModel, e: TransactionBody)
    requires
        held_matches_disputes(l),
    ensures
        (match step_chargeback(l, e) {
            Ok(l2) => held_matches_disputes(l2),
            Err(_) => true,
        }),
{
    if let Ok(l2) = step_chargeback(l, e) {
        if targets_entry(l, e) && l.history[e.id].status == DisputeStatus::Disputed
            && l.history[e.id].amount <= l.accounts[e.client_id].held {
            let cid = e.client_id;
            let h = l.history[e.id];
            let entry = HistoryEntry {
                client_id: h.client_id,
                amount: h.amount,
                status: DisputeStatus::ChargedBack,
            };
            assert forall|c: u16| #[trigger] l2.accounts.contains_key(c) implies
                l2.accounts[c].held == disputed_total(l2.history, c) by {
                if c == cid {
                    lemma_pairs_remove(l.history, e.id, entry, cid);
                    lemma_disputed_pairs_finite(l.history, cid);
                    lemma_sum_split(disputed_pairs(l.history, cid), (e.id, h));
                } else {
                    lemma_pairs_unchanged(l.history, e.id, entry, c);
                }
            }
        }
    }
}

/// One applied transaction keeps every held balance equal to the sum
/// of that client's disputed deposits.
pub proof fn lemma_step_preserves_held(l: LedgerModel, t: Transaction)
    requires
        held_matches_disputes(l),
    ensures
        (match step(l, t) {
            Ok(l2) => held_matches_disputes(l2),
            Err(_) => true,
        }),
{
    match t {
        Transaction::Deposit(e) => lemma_deposit_preserves_held(l, e),
        Transaction::Withdraw(e) => lemma_withdraw_preserves_held(l, e),
        Transaction::Dispute(e) => lemma_dispute_preserves_held(l, e),
        Transaction::Resolve(e) => lemma_resolve_preserves_held(l, e),
        Transaction::Chargeback(e) => lemma_chargeback_preserves_held(l, e),
    }
}

/// `held` is, at every point of a run that starts from a ledger
/// satisfying the structural invariant, exactly the sum of the
/// client's currently disputed deposits.
pub proof fn lemma_run_preserves_held(l: LedgerModel, ts: Seq<Transaction>)
    requires
        held_matches_disputes(l),
    ensures
        held_matches_disputes(run(l, ts).0),
    decreases ts.len(),
{
    if ts.len() > 0 {
        match step(l, ts[0]) {
            Ok(l2) => {
                lemma_step_preserves_held(l, ts[0]);
                lemma_run_preserves_held(l2, ts.drop_first());
            },
            Err(_) => {},
        }
    }
}

/// Under the structural invariant, a disputed entry's amount is always
/// covered by its client's held balance: the ledger can honour any
/// resolve or chargeback of a dispute it has open.
pub proof fn lemma_disputed_amount_covered(l: LedgerModel, id: u32)
    requires
        held_matches_disputes(l),
        l.history.contains_key(id),
        l.history[id].status == DisputeStatus::Disputed,
    ensures
        l.accounts.contains_key(l.history[id].client_id),
        l.history[id].amount <= l.accounts[l.history[id].client_id].held,
{
    let cid = l.history[id].client_id;
    let p = (id, l.history[id]);
    assert(disputed_pairs(l.history, cid).contains(p));
    lemma_disputed_pairs_finite(l.history, cid);
    lemma_element_le_sum(disputed_pairs(l.history, cid), p);
}

} // verus!
