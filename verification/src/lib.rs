//! A ledger replay engine: it folds an ordered stream of deposits,
//! withdrawals, disputes, resolves and chargebacks into one account per
//! client, with every balance kept as an exact decimal.

pub mod amount;
pub mod types;
pub mod state;
pub mod engine;
