use xspd_leaderboard::errors::ErrorCode;
use xspd_leaderboard::leaderboard::update_leaderboard;
use xspd_leaderboard::ops::{
    claim_rewards, distribute_rewards, initialize, record_failed_trade, record_trade,
    register_trader, stake_tokens, withdraw_stake, RewardTransfer,
};
use xspd_leaderboard::state::{StakeInfo, TraderStats};

fn stats(trader: u64, trades: u64, time: u64) -> TraderStats {
    TraderStats {
        trader,
        total_trades: trades,
        total_execution_time: time,
        last_updated: 0,
        last_reward_time: 0,
        failed_trades: 0,
    }
}

#[test]
fn initialize_creates_empty_board() {
    let g = initialize(42, 1000);
    assert_eq!(g.admin, 42);
    assert_eq!(g.last_reward_distribution, 1000);
    assert_eq!(g.leaderboard.len(), 10);
    for e in g.leaderboard.iter() {
        assert_eq!(e.trader, 0);
        assert_eq!(e.total_trades, 0);
        assert_eq!(e.total_execution_time, 0);
    }
}

#[test]
fn register_trader_zeroes_counters() {
    let s = register_trader(7, 555);
    assert_eq!(s.trader, 7);
    assert_eq!(s.total_trades, 0);
    assert_eq!(s.total_execution_time, 0);
    assert_eq!(s.last_updated, 555);
    assert_eq!(s.last_reward_time, 0);
    assert_eq!(s.failed_trades, 0);
}

#[test]
fn record_trade_updates_stats_and_board() {
    let mut g = initialize(1, 0);
    let mut s = register_trader(7, 0);
    let r = record_trade(&mut g, &mut s, 120, 1000, 1000, 30);
    assert_eq!(r, Ok(()));
    assert_eq!(s.total_trades, 1);
    assert_eq!(s.total_execution_time, 120);
    assert_eq!(s.last_updated, 30);
    assert!(g
        .leaderboard
        .iter()
        .any(|e| e.trader == 7 && e.total_trades == 1 && e.total_execution_time == 120));
}

#[test]
fn record_trade_cooldown_boundary() {
    let mut g = initialize(1, 0);
    let mut s = register_trader(7, 0);
    assert_eq!(record_trade(&mut g, &mut s, 10, 1000, 1000, 30), Ok(()));
    // 29 seconds after the recorded trade: rejected.
    assert_eq!(
        record_trade(&mut g, &mut s, 10, 1000, 1000, 59),
        Err(ErrorCode::CooldownPeriod)
    );
    assert_eq!(s.total_trades, 1);
    // Exactly 30 seconds after: allowed.
    assert_eq!(record_trade(&mut g, &mut s, 10, 1000, 1000, 60), Ok(()));
    assert_eq!(s.total_trades, 2);
}

#[test]
fn record_trade_price_band_boundary() {
    let mut g = initialize(1, 0);
    let mut s = register_trader(7, 0);
    // Oracle 1000 gives a band of 1000 / 200 = 5: deviation 5 is accepted.
    assert_eq!(record_trade(&mut g, &mut s, 10, 995, 1000, 30), Ok(()));
    // Deviation 6 is rejected.
    assert_eq!(
        record_trade(&mut g, &mut s, 10, 1006, 1000, 60),
        Err(ErrorCode::InvalidTrade)
    );
    assert_eq!(s.total_trades, 1);
    // Floor division: oracle 100 gives a zero band, only the exact price passes.
    let mut s2 = register_trader(8, 0);
    assert_eq!(
        record_trade(&mut g, &mut s2, 10, 101, 100, 30),
        Err(ErrorCode::InvalidTrade)
    );
    assert_eq!(record_trade(&mut g, &mut s2, 10, 100, 100, 30), Ok(()));
}

#[test]
fn record_trade_overflow_leaves_everything_unchanged() {
    let mut g = initialize(1, 0);
    let mut s = register_trader(7, 0);
    s.total_trades = u64::MAX;
    assert_eq!(
        record_trade(&mut g, &mut s, 10, 1000, 1000, 30),
        Err(ErrorCode::Overflow)
    );
    assert_eq!(s.total_trades, u64::MAX);
    assert_eq!(s.last_updated, 0);
    let mut s2 = register_trader(8, 0);
    s2.total_execution_time = u64::MAX - 5;
    assert_eq!(
        record_trade(&mut g, &mut s2, 6, 1000, 1000, 30),
        Err(ErrorCode::Overflow)
    );
    assert_eq!(s2.total_trades, 0);
    assert!(g.leaderboard.iter().all(|e| e.trader == 0));
}

#[test]
fn failed_trade_streak_locks_out_on_fifth() {
    let mut s = register_trader(7, 0);
    for expected in 1u64..=4 {
        assert_eq!(record_failed_trade(&mut s), Ok(()));
        assert_eq!(s.failed_trades, expected);
    }
    // The fifth call still increments the counter, then raises the lockout.
    assert_eq!(record_failed_trade(&mut s), Err(ErrorCode::TooManyFailedTrades));
    assert_eq!(s.failed_trades, 5);
}

#[test]
fn failed_trade_counter_overflow() {
    let mut s = register_trader(7, 0);
    s.failed_trades = u64::MAX;
    assert_eq!(record_failed_trade(&mut s), Err(ErrorCode::Overflow));
    assert_eq!(s.failed_trades, u64::MAX);
}

#[test]
fn distribute_rewards_time_gate_boundary() {
    let mut g = initialize(1, 0);
    assert_eq!(
        distribute_rewards(&mut g, &vec![], 3599),
        Err(ErrorCode::TooSoon)
    );
    assert_eq!(g.last_reward_distribution, 0);
    // Exactly 3600 seconds elapsed: accepted.
    let r = distribute_rewards(&mut g, &vec![], 3600);
    assert_eq!(r, Ok(vec![]));
    assert_eq!(g.last_reward_distribution, 3600);
}

fn reward_at_total(total: u64) -> u64 {
    let mut g = initialize(1, 0);
    let s = stats(9, total, 1);
    update_leaderboard(&mut g.leaderboard, &s);
    let transfers = distribute_rewards(&mut g, &vec![9], 3600).unwrap();
    assert_eq!(transfers.len(), 1);
    assert_eq!(transfers[0].to, 9);
    transfers[0].amount
}

#[test]
fn reward_scaling_steps() {
    let base: u64 = 100 * 1_000_000_000;
    // Below the step the base reward is paid.
    assert_eq!(reward_at_total(1), base);
    assert_eq!(reward_at_total(499), base);
    // From the step on the reward is (total / 500) multiples of the base.
    assert_eq!(reward_at_total(500), base);
    assert_eq!(reward_at_total(999), base);
    assert_eq!(reward_at_total(1000), 2 * base);
    assert_eq!(reward_at_total(2500), 5 * base);
}

#[test]
fn distribute_skips_traders_without_account() {
    let mut g = initialize(1, 0);
    update_leaderboard(&mut g.leaderboard, &stats(5, 2, 10));
    update_leaderboard(&mut g.leaderboard, &stats(6, 2, 30));
    let transfers = distribute_rewards(&mut g, &vec![6], 3600).unwrap();
    assert_eq!(
        transfers,
        vec![RewardTransfer { to: 6, amount: 100_000_000_000 }]
    );
}

#[test]
fn distribute_pays_ranked_traders_in_slot_order() {
    let mut g = initialize(1, 0);
    update_leaderboard(&mut g.leaderboard, &stats(5, 1, 50));
    update_leaderboard(&mut g.leaderboard, &stats(6, 1, 10));
    update_leaderboard(&mut g.leaderboard, &stats(7, 1, 30));
    let transfers = distribute_rewards(&mut g, &vec![5, 6, 7], 3600).unwrap();
    // Slot order is ascending by average: 6 (10), 7 (30), 5 (50).
    assert_eq!(
        transfers,
        vec![
            RewardTransfer { to: 6, amount: 100_000_000_000 },
            RewardTransfer { to: 7, amount: 100_000_000_000 },
            RewardTransfer { to: 5, amount: 100_000_000_000 },
        ]
    );
}

#[test]
fn stake_then_withdraw_boundary() {
    let mut info = StakeInfo { trader: 7, staked_amount: 0 };
    assert_eq!(stake_tokens(&mut info, 50), Ok(()));
    assert_eq!(info.staked_amount, 50);
    assert_eq!(withdraw_stake(&mut info, 51), Err(ErrorCode::InsufficientStake));
    assert_eq!(info.staked_amount, 50);
    assert_eq!(withdraw_stake(&mut info, 50), Ok(()));
    assert_eq!(info.staked_amount, 0);
}

#[test]
fn stake_overflow_is_rejected() {
    let mut info = StakeInfo { trader: 7, staked_amount: u64::MAX };
    assert_eq!(stake_tokens(&mut info, 1), Err(ErrorCode::Overflow));
    assert_eq!(info.staked_amount, u64::MAX);
    assert_eq!(stake_tokens(&mut info, 0), Ok(()));
    assert_eq!(info.staked_amount, u64::MAX);
}

#[test]
fn claim_rewards_pays_and_resets() {
    let mut s = register_trader(7, 0);
    assert_eq!(claim_rewards(&mut s), Err(ErrorCode::NoEligibleRewards));
    s.total_trades = 7;
    s.total_execution_time = 999;
    s.failed_trades = 3;
    assert_eq!(claim_rewards(&mut s), Ok(70_000_000));
    assert_eq!(s.total_trades, 0);
    assert_eq!(s.total_execution_time, 0);
    assert_eq!(s.failed_trades, 0);
}

#[test]
fn claim_rewards_overflow_is_rejected() {
    let mut s = register_trader(7, 0);
    s.total_trades = u64::MAX;
    assert_eq!(claim_rewards(&mut s), Err(ErrorCode::Overflow));
    assert_eq!(s.total_trades, u64::MAX);
}
