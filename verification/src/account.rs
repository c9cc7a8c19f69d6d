//! Per-client account state and the five balance mutations.

use vstd::prelude::*;

verus! {

/// Balances of one client, in fixed-point units (1/10000 of a currency
/// unit). `total` is kept equal to `available + held` at all times;
/// `available` may become negative through a dispute, `held` never does.
#[derive(Clone, Copy, Debug, PartialEq, Eq, Structural)]
pub struct Account {
    pub available: i64,
    pub held: i64,
    pub total: i64,
    pub locked: bool,
}

impl Account {
    /// Well-formedness: the standing balance invariants.
    pub open spec fn wf(self) -> bool {
        &&& self.total == self.available + self.held
        &&& self.held >= 0
    }

    /// A fresh account: zero balances, unlocked.
    pub open spec fn spec_new() -> Account {
        Account { available: 0, held: 0, total: 0, locked: false }
    }

    /// Creates the account a first deposit brings into being.
    pub fn new() -> (a: Account)
        ensures
            a == Account::spec_new(),
    {
        Account { available: 0, held: 0, total: 0, locked: false }
    }

    /// Credits a deposit: available and total both grow by the amount.
    pub fn deposit(&mut self, amount: u64)
        requires
            old(self).wf(),
            old(self).total + amount <= i64::MAX,
        ensures
            final(self).wf(),
            final(self).available == old(self).available + amount,
            final(self).held == old(self).held,
            final(self).total == old(self).total + amount,
            final(self).locked == old(self).locked,
    {
        self.available = (self.available as i128 + amount as i128) as i64;
        self.total = (self.total as i128 + amount as i128) as i64;
    }

    /// Debits a withdrawal: available and total both shrink by the amount.
    pub fn withdrawal(&mut self, amount: u64)
        requires
            old(self).wf(),
            old(self).available >= amount,
        ensures
            final(self).wf(),
            final(self).available == old(self).available - amount,
            final(self).held == old(self).held,
            final(self).total == old(self).total - amount,
            final(self).locked == old(self).locked,
    {
        self.available = (self.available as i128 - amount as i128) as i64;
        self.total = (self.total as i128 - amount as i128) as i64;
    }

    /// Freezes the disputed amount: it moves from available to held,
    /// leaving total unchanged.
    pub fn dispute(&mut self, amount: u64)
        requires
            old(self).wf(),
            old(self).available - amount >= i64::MIN,
            old(self).held + amount <= i64::MAX,
        ensures
            final(self).wf(),
            final(self).available == old(self).available - amount,
            final(self).held == old(self).held + amount,
            final(self).total == old(self).total,
            final(self).locked == old(self).locked,
    {
        self.available = (self.available as i128 - amount as i128) as i64;
        self.held = (self.held as i128 + amount as i128) as i64;
    }

    /// Releases a disputed amount back from held to available,
    /// leaving total unchanged.
    pub fn resolve_dispute(&mut self, amount: u64)
        requires
            old(self).wf(),
            amount <= old(self).held,
        ensures
            final(self).wf(),
            final(self).available == old(self).available + amount,
            final(self).held == old(self).held - amount,
            final(self).total == old(self).total,
            final(self).locked == old(self).locked,
    {
        self.available = (self.available as i128 + amount as i128) as i64;
        self.held = (self.held as i128 - amount as i128) as i64;
    }

    /// Withdraws a disputed amount for good: held and total shrink and
    /// the account is locked, permanently.
    pub fn chargeback(&mut self, amount: u64)
        requires
            old(self).wf(),
            amount <= old(self).held,
        ensures
            final(self).wf(),
            final(self).available == old(self).available,
            final(self).held == old(self).held - amount,
            final(self).total == old(self).total - amount,
            final(self).locked,
    {
        self.held = (self.held as i128 - amount as i128) as i64;
        self.total = (self.total as i128 - amount as i128) as i64;
        self.locked = true;
    }
}

impl Default for Account {
    /// Same value a first deposit starts from: zero balances, unlocked.
    fn default() -> (a: Account)
        ensures
            a == Account::spec_new(),
    {
        Account::new()
    }
}

} // verus!
