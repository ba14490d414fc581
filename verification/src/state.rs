use vstd::prelude::*;

verus! {

/// One of the ten fixed ranking slots.
///
/// Trader identities are abstract nonzero integers handed in by the caller;
/// the identity `0` is the sentinel that marks an empty slot. The derived
/// ranking key is the average execution time `total_execution_time /
/// total_trades`, treated as infinite when `total_trades == 0`.
#[derive(Clone, Copy, Debug, PartialEq, Eq, Structural)]
pub struct LeaderboardEntry {
    pub trader: u64,
    pub total_trades: u64,
    pub total_execution_time: u64,
}

impl Default for LeaderboardEntry {
    /// The sentinel entry that fills an unused slot.
    fn default() -> (r: Self)
        ensures
            r.trader == 0,
            r.total_trades == 0,
            r.total_execution_time == 0,
    {
        LeaderboardEntry { trader: 0, total_trades: 0, total_execution_time: 0 }
    }
}

/// The singleton ranking state: admin identity, the timestamp of the last
/// bulk reward distribution, and the ten leaderboard slots.
///
/// The slot vector always holds exactly ten entries, sorted ascending by
/// average execution time with sentinel slots last; see
/// `crate::leaderboard::board_wf`.
pub struct GlobalState {
    pub admin: u64,
    pub last_reward_distribution: i64,
    pub leaderboard: Vec<LeaderboardEntry>,
}

/// Per-trader statistics, addressed by trader identity.
#[derive(Clone, Copy, Debug, PartialEq, Eq, Structural)]
pub struct TraderStats {
    pub trader: u64,
    pub total_trades: u64,
    pub total_execution_time: u64,
    pub last_updated: i64,
    pub last_reward_time: i64,
    pub failed_trades: u64,
}

/// Per-trader stake ledger record.
#[derive(Clone, Copy, Debug, PartialEq, Eq, Structural)]
pub struct StakeInfo {
    pub trader: u64,
    pub staked_amount: u64,
}

} // verus!
