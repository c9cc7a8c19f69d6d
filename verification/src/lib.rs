//! A small payments ledger.
//!
//! Transaction records (deposits, withdrawals, disputes, resolves,
//! chargebacks) are folded, in order, into per-client account state.
//! Monetary amounts are fixed-point integers: one unit is one
//! ten-thousandth of the currency, so four fractional digits are exact.
//!
//! - [`transaction`]: raw input records and their normalization into
//!   typed transactions.
//! - [`account`]: per-client balances and the five balance mutations.
//! - [`ledger`]: the engine that folds transactions into account
//!   state, with its rules stated as spec functions.
//! - [`laws`]: the standing guarantees, proved over any transaction
//!   sequence.
//! - [`conservation`]: a held balance is exactly the sum of that
//!   client's open disputes.

pub mod account;
pub mod transaction;
pub mod ledger;
pub mod laws;
pub mod conservation;
