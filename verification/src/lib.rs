//! A trading-activity engine: trade validation, a bounded top-10
//! leaderboard ranked by average execution time, periodic and on-demand
//! token reward computation, and a simple stake ledger.
//!
//! The engine is pure state mutation. Everything ambient — the clock, the
//! price oracle, identities, and the ledger that moves token balances — is
//! handed in as plain values, and operations that owe transfers return
//! them as [`ops::RewardTransfer`] orders for the caller to execute
//! all-or-nothing.

pub mod errors;
pub mod laws;
pub mod leaderboard;
pub mod ops;
pub mod state;
