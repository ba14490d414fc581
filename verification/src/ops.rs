use vstd::prelude::*;

use crate::errors::ErrorCode;
use crate::leaderboard::{board_step, board_wf, update_leaderboard};
use crate::state::{GlobalState, LeaderboardEntry, StakeInfo, TraderStats};

verus! {

/// Minimum seconds between two trades by the same trader.
pub const COOLDOWN_SECONDS: i64 = 30;

/// Minimum seconds between two bulk reward distributions.
pub const REWARD_INTERVAL_SECONDS: i64 = 3600;

/// Bulk reward paid per ranked trader before any scaling step, in
/// fixed-point token units with nine decimals (100 tokens).
pub const BASE_REWARD: u64 = 100 * 1_000_000_000;

/// Cumulative-trade threshold at which the bulk reward scales up.
pub const REWARD_STEP_TRADES: u64 = 500;

/// Token units paid per recorded trade when a trader claims.
pub const CLAIM_REWARD_PER_TRADE: u64 = 10_000_000;

/// Failure-streak count at which `record_failed_trade` locks out.
pub const FAILED_TRADE_LIMIT: u64 = 5;

/// One transfer the caller owes the ledger after a reward distribution:
/// `amount` token units from the treasury to the account of trader `to`,
/// authorized by the admin. The enclosing operation is atomic: if any
/// transfer fails, the caller must discard the state change as well.
#[derive(Clone, Copy, Debug, PartialEq, Eq, Structural)]
pub struct RewardTransfer {
    pub to: u64,
    pub amount: u64,
}

// ---------------------------------------------------------------------------
// Trade validation
// ---------------------------------------------------------------------------

/// The per-trade rate limit has not elapsed at `now`. Exactly
/// `COOLDOWN_SECONDS` elapsed is allowed.
pub open spec fn cooldown_blocked(s: TraderStats, now: i64) -> bool {
    now - s.last_updated < COOLDOWN_SECONDS
}

/// The trade price lies outside the oracle tolerance band:
/// `|latest_price - trade_price| > latest_price / 200` (a half-percent
/// band under integer floor division; the boundary value is accepted).
pub open spec fn price_out_of_band(latest_price: u64, trade_price: u64) -> bool {
    (if latest_price >= trade_price {
        latest_price - trade_price
    } else {
        trade_price - latest_price
    }) > latest_price / 200
}

/// All of `record_trade`'s checks pass: cooldown elapsed, price in band,
/// and both counters still have room.
pub open spec fn trade_accepted(
    s: TraderStats,
    execution_time: u64,
    trade_price: u64,
    latest_price: u64,
    now: i64,
) -> bool {
    &&& !cooldown_blocked(s, now)
    &&& !price_out_of_band(latest_price, trade_price)
    &&& s.total_trades + 1 <= u64::MAX
    &&& s.total_execution_time + execution_time <= u64::MAX
}

// ---------------------------------------------------------------------------
// Reward computation
// ---------------------------------------------------------------------------

/// Sum of `total_trades` over the leaderboard slots (sentinels carry 0).
pub open spec fn sum_total_trades(b: Seq<LeaderboardEntry>) -> int
    decreases b.len(),
{
    if b.len() == 0 {
        0
    } else {
        sum_total_trades(b.drop_last()) + b.last().total_trades
    }
}

/// Bulk reward per ranked trader for a given cumulative trade count:
/// the base reward below the first scaling step, then
/// `(total / REWARD_STEP_TRADES) * BASE_REWARD` in discrete steps.
pub open spec fn reward_per_trader(total: int) -> int {
    if total < REWARD_STEP_TRADES as int {
        BASE_REWARD as int
    } else {
        (total / (REWARD_STEP_TRADES as int)) * (BASE_REWARD as int)
    }
}

/// Both the cumulative trade count and the per-trader reward fit the
/// unsigned counters a transfer carries.
pub open spec fn rewards_fit(b: Seq<LeaderboardEntry>) -> bool {
    sum_total_trades(b) <= u64::MAX && reward_per_trader(sum_total_trades(b)) <= u64::MAX
}

/// The transfers a distribution owes: one per non-sentinel slot whose
/// trader has a matching candidate account, in slot order; traders with
/// no matching account are silently skipped.
pub open spec fn reward_transfers(
    b: Seq<LeaderboardEntry>,
    candidates: Seq<u64>,
    amount: u64,
) -> Seq<RewardTransfer>
    decreases b.len(),
{
    if b.len() == 0 {
        Seq::empty()
    } else {
        reward_transfers(b.drop_last(), candidates, amount) + (if b.last().trader != 0
            && candidates.contains(b.last().trader) {
            seq![RewardTransfer { to: b.last().trader, amount }]
        } else {
            Seq::empty()
        })
    }
}

// ---------------------------------------------------------------------------
// Operations
// ---------------------------------------------------------------------------

/// Creates the singleton ranking state: the caller becomes admin, the ten
/// slots start empty, and the distribution clock starts at `now`.
pub fn initialize(admin: u64, now: i64) -> (g: GlobalState)
    ensures
        g.admin == admin,
        g.last_reward_distribution == now,
        board_wf(g.leaderboard@),
        forall|i: int|
            0 <= i < g.leaderboard@.len() ==> (#[trigger] g.leaderboard@[i]) == (LeaderboardEntry {
                trader: 0,
                total_trades: 0,
                total_execution_time: 0,
            }),
{
    let mut board: Vec<LeaderboardEntry> = Vec::new();
    let mut i: usize = 0;
    while i < 10
        invariant
            i <= 10,
            board@.len() == i,
            forall|k: int|
                0 <= k < i ==> (#[trigger] board@[k]) == (LeaderboardEntry {
                    trader: 0,
                    total_trades: 0,
                    total_execution_time: 0,
                }),
        decreases 10 - i,
    {
        board.push(LeaderboardEntry::default());
        i += 1;
    }
    GlobalState { admin, last_reward_distribution: now, leaderboard: board }
}

/// Creates a fresh statistics record for a trader: all counters zero and
/// the cooldown clock started at `now`. The zero identity is the empty
/// sentinel and names no trader.
pub fn register_trader(trader: u64, now: i64) -> (t: TraderStats)
    requires
        trader != 0,
    ensures
        t == (TraderStats {
            trader,
            total_trades: 0,
            total_execution_time: 0,
            last_updated: now,
            last_reward_time: 0,
            failed_trades: 0,
        }),
{
    TraderStats {
        trader,
        total_trades: 0,
        total_execution_time: 0,
        last_updated: now,
        last_reward_time: 0,
        failed_trades: 0,
    }
}

/// Validates and records one trade: enforces the cooldown and the oracle
/// price band, adds the trade to the trader's counters with
/// overflow-checked arithmetic, stamps the cooldown clock, and applies the
/// update to the leaderboard. On any error nothing is changed.
///
/// `latest_price` is the reference price the caller read from the oracle
/// feed, and `now` the current time from the clock source.
pub fn record_trade(
    global_state: &mut GlobalState,
    trader_stats: &mut TraderStats,
    execution_time: u64,
    trade_price: u64,
    latest_price: u64,
    now: i64,
) -> (r: Result<(), ErrorCode>)
    requires
        board_wf(old(global_state).leaderboard@),
        old(trader_stats).trader != 0,
    ensures
        board_wf(final(global_state).leaderboard@),
        final(global_state).admin == old(global_state).admin,
        final(global_state).last_reward_distribution == old(global_state).last_reward_distribution,
        r == Err::<(), ErrorCode>(ErrorCode::CooldownPeriod) <==> cooldown_blocked(
            *old(trader_stats),
            now,
        ),
        r == Err::<(), ErrorCode>(ErrorCode::InvalidTrade) <==> !cooldown_blocked(
            *old(trader_stats),
            now,
        ) && price_out_of_band(latest_price, trade_price),
        r == Err::<(), ErrorCode>(ErrorCode::Overflow) <==> !cooldown_blocked(
            *old(trader_stats),
            now,
        ) && !price_out_of_band(latest_price, trade_price) && (old(trader_stats).total_trades + 1
            > u64::MAX || old(trader_stats).total_execution_time + execution_time > u64::MAX),
        r is Ok <==> trade_accepted(
            *old(trader_stats),
            execution_time,
            trade_price,
            latest_price,
            now,
        ),
        r is Err ==> *final(trader_stats) == *old(trader_stats) && final(global_state).leaderboard@ == old(global_state).leaderboard@,
        r is Ok ==> *final(trader_stats) == (TraderStats {
            trader: old(trader_stats).trader,
            total_trades: (old(trader_stats).total_trades + 1) as u64,
            total_execution_time: (old(trader_stats).total_execution_time + execution_time) as u64,
            last_updated: now,
            last_reward_time: old(trader_stats).last_reward_time,
            failed_trades: old(trader_stats).failed_trades,
        }),
        r is Ok ==> board_step(
            old(global_state).leaderboard@,
            *final(trader_stats),
            final(global_state).leaderboard@,
        ),
{
    let elapsed: i128 = (now as i128) - (trader_stats.last_updated as i128);
    if elapsed < COOLDOWN_SECONDS as i128 {
        return Err(ErrorCode::CooldownPeriod);
    }
    let band: u64 = latest_price / 200;
    let diff: u64 = if latest_price >= trade_price {
        latest_price - trade_price
    } else {
        trade_price - latest_price
    };
    if diff > band {
        return Err(ErrorCode::InvalidTrade);
    }
    if trader_stats.total_trades == u64::MAX {
        return Err(ErrorCode::Overflow);
    }
    if execution_time > u64::MAX - trader_stats.total_execution_time {
        return Err(ErrorCode::Overflow);
    }
    trader_stats.total_trades = trader_stats.total_trades + 1;
    trader_stats.total_execution_time = trader_stats.total_execution_time + execution_time;
    trader_stats.last_updated = now;
    update_leaderboard(&mut global_state.leaderboard, trader_stats);
    Ok(())
}

/// Counts one failed trade with overflow-checked arithmetic and raises the
/// lockout once the streak reaches `FAILED_TRADE_LIMIT`. The incremented
/// counter is reported together with the lockout error; the storage
/// substrate that owns the record discards the increment when it rolls the
/// rejected transaction back.
pub fn record_failed_trade(trader_stats: &mut TraderStats) -> (r: Result<(), ErrorCode>)
    ensures
        old(trader_stats).failed_trades == u64::MAX ==> r == Err::<(), ErrorCode>(
            ErrorCode::Overflow,
        ) && *final(trader_stats) == *old(trader_stats),
        old(trader_stats).failed_trades < u64::MAX ==> *final(trader_stats) == (TraderStats {
            failed_trades: (old(trader_stats).failed_trades + 1) as u64,
            trader: old(trader_stats).trader,
            total_trades: old(trader_stats).total_trades,
            total_execution_time: old(trader_stats).total_execution_time,
            last_updated: old(trader_stats).last_updated,
            last_reward_time: old(trader_stats).last_reward_time,
        }),
        old(trader_stats).failed_trades < u64::MAX ==> (r == Err::<(), ErrorCode>(
            ErrorCode::TooManyFailedTrades,
        ) <==> old(trader_stats).failed_trades + 1 >= FAILED_TRADE_LIMIT),
        old(trader_stats).failed_trades < u64::MAX ==> (r is Ok <==> old(trader_stats).failed_trades + 1 < FAILED_TRADE_LIMIT),
{
    if trader_stats.failed_trades == u64::MAX {
        return Err(ErrorCode::Overflow);
    }
    trader_stats.failed_trades = trader_stats.failed_trades + 1;
    if trader_stats.failed_trades >= FAILED_TRADE_LIMIT {
        return Err(ErrorCode::TooManyFailedTrades);
    }
    Ok(())
}

/// True when `accounts` holds `key`.
fn contains_account(accounts: &Vec<u64>, key: u64) -> (r: bool)
    ensures
        r == accounts@.contains(key),
{
    let mut k: usize = 0;
    while k < accounts.len()
        invariant
            k <= accounts@.len(),
            forall|m: int| 0 <= m < k ==> accounts@[m] != key,
        decreases accounts@.len() - k,
    {
        if accounts[k] == key {
            proof {
                assert(accounts@[k as int] == key);
            }
            return true;
        }
        k += 1;
    }
    false
}

/// Computes the bulk distribution: enforces the hourly time gate, sizes
/// the per-trader reward from the board's cumulative trades, stamps the
/// distribution clock, and returns one transfer order per ranked trader
/// with a matching candidate account (others are silently skipped). The
/// caller executes the orders against the ledger, treasury to trader,
/// authorized by the admin, and discards the state change if any transfer
/// fails. On an error nothing is changed.
pub fn distribute_rewards(
    global_state: &mut GlobalState,
    candidate_accounts: &Vec<u64>,
    now: i64,
) -> (r: Result<Vec<RewardTransfer>, ErrorCode>)
    requires
        board_wf(old(global_state).leaderboard@),
    ensures
        board_wf(final(global_state).leaderboard@),
        final(global_state).leaderboard@ == old(global_state).leaderboard@,
        final(global_state).admin == old(global_state).admin,
        r == Err::<Vec<RewardTransfer>, ErrorCode>(ErrorCode::TooSoon) <==> now - old(global_state).last_reward_distribution < REWARD_INTERVAL_SECONDS as int,
        r == Err::<Vec<RewardTransfer>, ErrorCode>(ErrorCode::Overflow) <==> !(now - old(global_state).last_reward_distribution < REWARD_INTERVAL_SECONDS as int) && !rewards_fit(
            old(global_state).leaderboard@,
        ),
        r is Ok <==> !(now - old(global_state).last_reward_distribution
            < REWARD_INTERVAL_SECONDS as int) && rewards_fit(old(global_state).leaderboard@),
        r is Err ==> final(global_state).last_reward_distribution == old(global_state).last_reward_distribution,
        r matches Ok(v) ==> final(global_state).last_reward_distribution == now && v@
            == reward_transfers(
            old(global_state).leaderboard@,
            candidate_accounts@,
            reward_per_trader(sum_total_trades(old(global_state).leaderboard@)) as u64,
        ),
{
    let ghost b = global_state.leaderboard@;
    let elapsed: i128 = (now as i128) - (global_state.last_reward_distribution as i128);
    if elapsed < REWARD_INTERVAL_SECONDS as i128 {
        return Err(ErrorCode::TooSoon);
    }
    let board_len: usize = global_state.leaderboard.len();
    let mut total: u128 = 0;
    let mut i: usize = 0;
    while i < board_len
        invariant
            i <= board_len,
            *global_state == *old(global_state),
            board_len == global_state.leaderboard@.len(),
            b == global_state.leaderboard@,
            total == sum_total_trades(b.take(i as int)),
            total <= (i as int) * (u64::MAX as int),
        decreases board_len - i,
    {
        let tt: u64 = global_state.leaderboard[i].total_trades;
        proof {
            assert(b.take(i as int + 1).drop_last() =~= b.take(i as int));
            assert(b.take(i as int + 1).last() == b[i as int]);
        }
        total = total + (tt as u128);
        i += 1;
    }
    proof {
        assert(b.take(board_len as int) =~= b);
    }
    if total > u64::MAX as u128 {
        return Err(ErrorCode::Overflow);
    }
    let total64: u64 = total as u64;
    let reward128: u128 = if total64 >= REWARD_STEP_TRADES {
        let quot: u64 = total64 / REWARD_STEP_TRADES;
        proof {
            assert((quot as int) * (BASE_REWARD as int) <= u128::MAX) by (nonlinear_arith)
                requires
                    0 <= quot as int <= u64::MAX,
            ;
        }
        (quot as u128) * (BASE_REWARD as u128)
    } else {
        BASE_REWARD as u128
    };
    if reward128 > u64::MAX as u128 {
        return Err(ErrorCode::Overflow);
    }
    let reward: u64 = reward128 as u64;
    proof {
        assert(reward == reward_per_trader(sum_total_trades(b)) as u64);
    }
    let mut transfers: Vec<RewardTransfer> = Vec::new();
    let mut j: usize = 0;
    while j < board_len
        invariant
            j <= board_len,
            *global_state == *old(global_state),
            board_len == global_state.leaderboard@.len(),
            b == global_state.leaderboard@,
            transfers@ == reward_transfers(b.take(j as int), candidate_accounts@, reward),
        decreases board_len - j,
    {
        let entry_trader: u64 = global_state.leaderboard[j].trader;
        proof {
            assert(b.take(j as int + 1).drop_last() =~= b.take(j as int));
            assert(b.take(j as int + 1).last() == b[j as int]);
        }
        if entry_trader != 0 && contains_account(candidate_accounts, entry_trader) {
            transfers.push(RewardTransfer { to: entry_trader, amount: reward });
        }
        proof {
            assert(transfers@ =~= reward_transfers(
                b.take(j as int + 1),
                candidate_accounts@,
                reward,
            ));
        }
        j += 1;
    }
    proof {
        assert(b.take(board_len as int) =~= b);
    }
    global_state.last_reward_distribution = now;
    Ok(transfers)
}

/// Adds `amount` to the trader's staked balance with overflow-checked
/// arithmetic. On success the caller owes the ledger a transfer of
/// `amount` from the trader's token account into the custodial pool,
/// authorized by the trader. On an error nothing is changed.
pub fn stake_tokens(stake_info: &mut StakeInfo, amount: u64) -> (r: Result<(), ErrorCode>)
    ensures
        r is Ok <==> old(stake_info).staked_amount + amount <= u64::MAX,
        r is Err ==> r == Err::<(), ErrorCode>(ErrorCode::Overflow) && *final(stake_info) == *old(stake_info),
        r is Ok ==> *final(stake_info) == (StakeInfo {
            trader: old(stake_info).trader,
            staked_amount: (old(stake_info).staked_amount + amount) as u64,
        }),
{
    if amount > u64::MAX - stake_info.staked_amount {
        return Err(ErrorCode::Overflow);
    }
    stake_info.staked_amount = stake_info.staked_amount + amount;
    Ok(())
}

/// Removes `amount` from the trader's staked balance; a withdrawal beyond
/// the balance fails with `InsufficientStake`. On success the caller owes
/// the ledger a transfer of `amount` from the custodial pool back to the
/// trader, authorized by the admin. On an error nothing is changed.
pub fn withdraw_stake(stake_info: &mut StakeInfo, amount: u64) -> (r: Result<(), ErrorCode>)
    ensures
        r == Err::<(), ErrorCode>(ErrorCode::InsufficientStake) <==> amount > old(stake_info).staked_amount,
        r is Ok <==> amount <= old(stake_info).staked_amount,
        r is Err ==> *final(stake_info) == *old(stake_info),
        r is Ok ==> *final(stake_info) == (StakeInfo {
            trader: old(stake_info).trader,
            staked_amount: (old(stake_info).staked_amount - amount) as u64,
        }),
{
    if stake_info.staked_amount < amount {
        return Err(ErrorCode::InsufficientStake);
    }
    stake_info.staked_amount = stake_info.staked_amount - amount;
    Ok(())
}

/// Computes and pays out one trader's accrued reward:
/// `total_trades * CLAIM_REWARD_PER_TRADE` with overflow-checked
/// arithmetic, with nothing to claim an error. On success all three
/// counters are reset and the returned amount is owed as a transfer from
/// the treasury to the trader's token account, authorized by the admin;
/// reset and transfer are one atomic unit. On an error nothing is changed.
pub fn claim_rewards(trader_stats: &mut TraderStats) -> (r: Result<u64, ErrorCode>)
    ensures
        r == Err::<u64, ErrorCode>(ErrorCode::NoEligibleRewards) <==> old(trader_stats).total_trades == 0,
        r == Err::<u64, ErrorCode>(ErrorCode::Overflow) <==> old(trader_stats).total_trades > 0
            && old(trader_stats).total_trades * CLAIM_REWARD_PER_TRADE > u64::MAX,
        r is Ok <==> old(trader_stats).total_trades > 0 && old(trader_stats).total_trades
            * CLAIM_REWARD_PER_TRADE <= u64::MAX,
        r is Err ==> *final(trader_stats) == *old(trader_stats),
        r matches Ok(amount) ==> amount == old(trader_stats).total_trades
            * CLAIM_REWARD_PER_TRADE && *final(trader_stats) == (TraderStats {
            trader: old(trader_stats).trader,
            total_trades: 0,
            total_execution_time: 0,
            last_updated: old(trader_stats).last_updated,
            last_reward_time: old(trader_stats).last_reward_time,
            failed_trades: 0,
        }),
{
    if trader_stats.total_trades == 0 {
        return Err(ErrorCode::NoEligibleRewards);
    }
    if trader_stats.total_trades > u64::MAX / CLAIM_REWARD_PER_TRADE {
        return Err(ErrorCode::Overflow);
    }
    let amount: u64 = trader_stats.total_trades * CLAIM_REWARD_PER_TRADE;
    trader_stats.total_trades = 0;
    trader_stats.total_execution_time = 0;
    trader_stats.failed_trades = 0;
    Ok(amount)
}

} // verus!
