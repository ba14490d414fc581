use vstd::prelude::*;

verus! {

/// Failure taxonomy of the engine.
///
/// Every operation is an atomic transaction: on any of these errors the
/// operation leaves its records unchanged, with the one documented
/// exception of the failed-trade counter (see `record_failed_trade`).
#[derive(Clone, Copy, Debug, PartialEq, Eq, Structural)]
pub enum ErrorCode {
    /// Arithmetic on an unsigned counter would wrap.
    Overflow,
    /// The reward-distribution time gate has not elapsed.
    TooSoon,
    /// A withdrawal exceeds the staked balance.
    InsufficientStake,
    /// The per-trade rate limit has not elapsed.
    CooldownPeriod,
    /// The trade price lies outside the oracle tolerance band.
    InvalidTrade,
    /// The failure-streak lockout threshold was reached.
    TooManyFailedTrades,
    /// The trader has nothing to claim.
    NoEligibleRewards,
}

} // verus!
