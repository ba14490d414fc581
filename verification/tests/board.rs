use xspd_leaderboard::leaderboard::update_leaderboard;
use xspd_leaderboard::ops::initialize;
use xspd_leaderboard::state::{LeaderboardEntry, TraderStats};

fn stats(trader: u64, trades: u64, time: u64) -> TraderStats {
    TraderStats {
        trader,
        total_trades: trades,
        total_execution_time: time,
        last_updated: 0,
        last_reward_time: 0,
        failed_trades: 0,
    }
}

/// Checks the board invariants at runtime: ten slots, no duplicate
/// non-sentinel identity, sorted ascending by average execution time
/// (compared exactly by cross-multiplication) with sentinels last.
fn check_invariants(board: &Vec<LeaderboardEntry>) {
    assert_eq!(board.len(), 10);
    for i in 0..10 {
        for j in (i + 1)..10 {
            let a = &board[i];
            let b = &board[j];
            if a.trader != 0 {
                assert_ne!(a.trader, b.trader);
            }
            if a.total_trades == 0 {
                assert_eq!(b.total_trades, 0, "sentinel slots must sort last");
            } else if b.total_trades != 0 {
                assert!(
                    (a.total_execution_time as u128) * (b.total_trades as u128)
                        <= (b.total_execution_time as u128) * (a.total_trades as u128),
                    "board not sorted ascending by average"
                );
            }
        }
    }
}

fn occupied(board: &Vec<LeaderboardEntry>) -> Vec<u64> {
    board.iter().filter(|e| e.trader != 0).map(|e| e.trader).collect()
}

#[test]
fn zero_trade_update_is_ignored() {
    let mut g = initialize(1, 0);
    let before = g.leaderboard.clone();
    update_leaderboard(&mut g.leaderboard, &stats(5, 0, 0));
    assert_eq!(g.leaderboard, before);
}

#[test]
fn updates_fill_free_slots_and_stay_sorted() {
    let mut g = initialize(1, 0);
    update_leaderboard(&mut g.leaderboard, &stats(5, 1, 50));
    update_leaderboard(&mut g.leaderboard, &stats(6, 1, 10));
    update_leaderboard(&mut g.leaderboard, &stats(7, 2, 60));
    check_invariants(&g.leaderboard);
    assert_eq!(occupied(&g.leaderboard), vec![6, 7, 5]);
}

#[test]
fn existing_trader_is_overwritten_in_place() {
    let mut g = initialize(1, 0);
    update_leaderboard(&mut g.leaderboard, &stats(5, 1, 50));
    update_leaderboard(&mut g.leaderboard, &stats(6, 1, 10));
    // Trader 5 trades again and the new totals replace the old slot.
    update_leaderboard(&mut g.leaderboard, &stats(5, 2, 55));
    check_invariants(&g.leaderboard);
    let entries: Vec<&LeaderboardEntry> =
        g.leaderboard.iter().filter(|e| e.trader == 5).collect();
    assert_eq!(entries.len(), 1);
    assert_eq!(entries[0].total_trades, 2);
    assert_eq!(entries[0].total_execution_time, 55);
    // The improved average (27.5) still ranks behind trader 6 (10).
    assert_eq!(occupied(&g.leaderboard), vec![6, 5]);
}

fn full_board() -> xspd_leaderboard::state::GlobalState {
    let mut g = initialize(1, 0);
    for t in 1..=10u64 {
        // Trader t has average execution time 10 * t.
        update_leaderboard(&mut g.leaderboard, &stats(t, 1, 10 * t));
    }
    check_invariants(&g.leaderboard);
    g
}

#[test]
fn full_board_rejects_equal_average_challenger() {
    let mut g = full_board();
    let before = g.leaderboard.clone();
    // The worst slot has average 100; an equal average does not enter.
    update_leaderboard(&mut g.leaderboard, &stats(11, 1, 100));
    assert_eq!(g.leaderboard, before);
    // A worse average does not enter either.
    update_leaderboard(&mut g.leaderboard, &stats(11, 1, 101));
    assert_eq!(g.leaderboard, before);
}

#[test]
fn full_board_evicts_worst_for_strictly_better_average() {
    let mut g = full_board();
    // Average 99.5 is strictly below the worst average 100.
    update_leaderboard(&mut g.leaderboard, &stats(11, 2, 199));
    check_invariants(&g.leaderboard);
    let ids = occupied(&g.leaderboard);
    assert!(ids.contains(&11));
    assert!(!ids.contains(&10), "the worst performer must be evicted");
    assert_eq!(ids.len(), 10);
    // The challenger's average puts it in the last slot.
    assert_eq!(ids[9], 11);
}

#[test]
fn invariants_hold_across_many_updates() {
    let mut g = initialize(1, 0);
    let mut seed: u64 = 12345;
    for _ in 0..200 {
        seed = seed
            .wrapping_mul(6364136223846793005)
            .wrapping_add(1442695040888963407);
        let trader = (seed >> 33) % 16 + 1;
        let trades = (seed >> 10) % 5;
        let time = (seed >> 20) % 1000;
        update_leaderboard(&mut g.leaderboard, &stats(trader, trades, time));
        check_invariants(&g.leaderboard);
    }
}

#[test]
fn eviction_ties_take_the_first_worst_slot() {
    let mut g = initialize(1, 0);
    // Two traders share the worst average 100; eight others are better.
    for t in 1..=8u64 {
        update_leaderboard(&mut g.leaderboard, &stats(t, 1, t));
    }
    update_leaderboard(&mut g.leaderboard, &stats(21, 1, 100));
    update_leaderboard(&mut g.leaderboard, &stats(22, 2, 200));
    check_invariants(&g.leaderboard);
    // Ties in average are ordered by identity, so 21 sits before 22; the
    // first worst slot is 21's, and a strictly better challenger takes it.
    update_leaderboard(&mut g.leaderboard, &stats(23, 1, 99));
    check_invariants(&g.leaderboard);
    let ids = occupied(&g.leaderboard);
    assert!(ids.contains(&23));
    assert!(!ids.contains(&21));
    assert!(ids.contains(&22));
}
