use vstd::prelude::*;

use crate::leaderboard::{
    avg_le, avg_lt, board_step, board_wf, has_trader, is_first_with_trader, is_first_worst,
    is_insertion_point, lemma_avg_le_total, lemma_first_with_trader_unique,
    lemma_first_worst_unique, lemma_insertion_point_unique, sorted_insert_rel, stats_entry,
};
use crate::ops::{
    cooldown_blocked, reward_per_trader, trade_accepted, BASE_REWARD, COOLDOWN_SECONDS,
    REWARD_STEP_TRADES,
};
use crate::state::{LeaderboardEntry, TraderStats};

verus! {

/// The leaderboard never exceeds its ten slots, and no non-sentinel
/// trader identity ever occupies two of them. Every operation that
/// touches the board keeps `board_wf`, so this holds in every state.
pub proof fn lemma_board_bounded_and_distinct(b: Seq<LeaderboardEntry>)
    requires
        board_wf(b),
    ensures
        b.len() == 10,
        forall|i: int, j: int|
            0 <= i < j < b.len() && (#[trigger] b[i]).trader != 0 ==> b[i].trader != (
            #[trigger] b[j]).trader,
{
}

/// In every well-formed state the board is sorted ascending by average
/// execution time, and the empty sentinel (zero-trade) slots all come
/// after the occupied ones.
pub proof fn lemma_board_sorted_with_sentinels_last(b: Seq<LeaderboardEntry>)
    requires
        board_wf(b),
    ensures
        forall|i: int, j: int| 0 <= i < j < b.len() ==> avg_le(#[trigger] b[i], #[trigger] b[j]),
        forall|i: int, j: int|
            0 <= i < j < b.len() && (#[trigger] b[i]).total_trades == 0 ==> (
            #[trigger] b[j]).total_trades == 0,
{
    assert forall|i: int, j: int| 0 <= i < j < b.len() implies avg_le(
        #[trigger] b[i],
        #[trigger] b[j],
    ) by {
        lemma_avg_le_total(b[i], b[j]);
    }
}

/// A challenger meets a full board: the trader enters the board if and
/// only if their average is strictly below the current worst average. An
/// equal-average (or worse) challenger is rejected and the board is
/// unchanged.
pub proof fn lemma_full_board_admission(
    b: Seq<LeaderboardEntry>,
    s: TraderStats,
    r: Seq<LeaderboardEntry>,
    w: int,
)
    requires
        board_wf(b),
        board_step(b, s, r),
        s.trader != 0,
        s.total_trades > 0,
        !has_trader(b, s.trader),
        !has_trader(b, 0),
        is_first_worst(b, w),
    ensures
        avg_lt(stats_entry(s), b[w]) ==> has_trader(r, s.trader),
        !avg_lt(stats_entry(s), b[w]) ==> r == b,
{
    let e = stats_entry(s);
    let w0 = choose|w0: int|
        #[trigger] is_first_worst(b, w0) && (if avg_lt(e, b[w0]) {
            sorted_insert_rel(b.remove(w0), e, r)
        } else {
            r == b
        });
    lemma_first_worst_unique(b, w0, w);
    if avg_lt(e, b[w]) {
        let rm = b.remove(w);
        let j = choose|j: int| #[trigger] is_insertion_point(rm, e, j) && r == rm.insert(j, e);
        rm.insert_ensures(j, e);
        assert(r[j] == e);
        assert(has_trader(r, s.trader));
    }
}

/// An update by a trader who is already ranked, or who arrives while a
/// slot is still free, always lands: afterwards some slot carries exactly
/// the trader's cumulative totals.
pub proof fn lemma_update_places_trader(
    b: Seq<LeaderboardEntry>,
    s: TraderStats,
    r: Seq<LeaderboardEntry>,
)
    requires
        board_wf(b),
        board_step(b, s, r),
        s.trader != 0,
        s.total_trades > 0,
        has_trader(b, s.trader) || has_trader(b, 0),
    ensures
        exists|k: int| 0 <= k < r.len() && #[trigger] r[k] == stats_entry(s),
{
    let e = stats_entry(s);
    let i = if has_trader(b, s.trader) {
        choose|i: int|
            #[trigger] is_first_with_trader(b, s.trader, i) && sorted_insert_rel(b.remove(i), e, r)
    } else {
        choose|i: int|
            #[trigger] is_first_with_trader(b, 0, i) && sorted_insert_rel(b.remove(i), e, r)
    };
    let rm = b.remove(i);
    let j = choose|j: int| #[trigger] is_insertion_point(rm, e, j) && r == rm.insert(j, e);
    rm.insert_ensures(j, e);
    assert(r[j] == e);
}

/// One update event has exactly one outcome: together with the board
/// invariant, the update relation `board_step` pins the resulting board —
/// the slot it overwrites, the slot it evicts, and the final sorted order
/// are all uniquely determined by the prior board and the event.
pub proof fn lemma_board_step_deterministic(
    b: Seq<LeaderboardEntry>,
    s: TraderStats,
    r1: Seq<LeaderboardEntry>,
    r2: Seq<LeaderboardEntry>,
)
    requires
        board_wf(b),
        s.trader != 0,
        board_step(b, s, r1),
        board_step(b, s, r2),
    ensures
        r1 == r2,
{
    let e = stats_entry(s);
    if s.total_trades == 0 {
    } else if has_trader(b, s.trader) {
        let i1 = choose|i: int|
            #[trigger] is_first_with_trader(b, s.trader, i) && sorted_insert_rel(
                b.remove(i),
                e,
                r1,
            );
        let i2 = choose|i: int|
            #[trigger] is_first_with_trader(b, s.trader, i) && sorted_insert_rel(
                b.remove(i),
                e,
                r2,
            );
        lemma_first_with_trader_unique(b, s.trader, i1, i2);
        lemma_sorted_insert_rel_deterministic(b.remove(i1), e, r1, r2);
    } else if has_trader(b, 0) {
        let i1 = choose|i: int|
            #[trigger] is_first_with_trader(b, 0, i) && sorted_insert_rel(b.remove(i), e, r1);
        let i2 = choose|i: int|
            #[trigger] is_first_with_trader(b, 0, i) && sorted_insert_rel(b.remove(i), e, r2);
        lemma_first_with_trader_unique(b, 0, i1, i2);
        lemma_sorted_insert_rel_deterministic(b.remove(i1), e, r1, r2);
    } else {
        let w1 = choose|w: int|
            #[trigger] is_first_worst(b, w) && (if avg_lt(e, b[w]) {
                sorted_insert_rel(b.remove(w), e, r1)
            } else {
                r1 == b
            });
        let w2 = choose|w: int|
            #[trigger] is_first_worst(b, w) && (if avg_lt(e, b[w]) {
                sorted_insert_rel(b.remove(w), e, r2)
            } else {
                r2 == b
            });
        lemma_first_worst_unique(b, w1, w2);
        if avg_lt(e, b[w1]) {
            lemma_sorted_insert_rel_deterministic(b.remove(w1), e, r1, r2);
        }
    }
}

/// Sorted insertion has exactly one outcome.
proof fn lemma_sorted_insert_rel_deterministic(
    b: Seq<LeaderboardEntry>,
    e: LeaderboardEntry,
    r1: Seq<LeaderboardEntry>,
    r2: Seq<LeaderboardEntry>,
)
    requires
        sorted_insert_rel(b, e, r1),
        sorted_insert_rel(b, e, r2),
    ensures
        r1 == r2,
{
    let j1 = choose|j: int| #[trigger] is_insertion_point(b, e, j) && r1 == b.insert(j, e);
    let j2 = choose|j: int| #[trigger] is_insertion_point(b, e, j) && r2 == b.insert(j, e);
    lemma_insertion_point_unique(b, e, j1, j2);
}

/// Two trades by one trader less than the cooldown apart cannot both be
/// recorded: a successful `record_trade` at `now1` stamps the trader's
/// `last_updated`, and any second attempt at `now2` with
/// `now2 - now1 < COOLDOWN_SECONDS` is then rejected, whatever its
/// execution time and prices.
pub proof fn lemma_cooldown_rejects_second_trade(
    s: TraderStats,
    now1: i64,
    now2: i64,
    execution_time: u64,
    trade_price: u64,
    latest_price: u64,
)
    requires
        s.last_updated == now1,
        now2 - now1 < COOLDOWN_SECONDS,
    ensures
        cooldown_blocked(s, now2),
        !trade_accepted(s, execution_time, trade_price, latest_price, now2),
{
}

/// Below the first scaling step every distribution pays the base reward
/// per ranked trader.
pub proof fn lemma_reward_base_below_step(total: int)
    requires
        0 <= total < REWARD_STEP_TRADES as int,
    ensures
        reward_per_trader(total) == BASE_REWARD as int,
{
}

/// From the first step on, the reward scales in discrete steps of
/// `REWARD_STEP_TRADES` cumulative trades: two totals within the same
/// step pay the same amount, a whole multiple of the base reward.
pub proof fn lemma_reward_steps(t1: int, t2: int)
    requires
        REWARD_STEP_TRADES as int <= t1 <= t2,
        t1 / (REWARD_STEP_TRADES as int) == t2 / (REWARD_STEP_TRADES as int),
    ensures
        reward_per_trader(t1) == reward_per_trader(t2),
        reward_per_trader(t1) == (t1 / (REWARD_STEP_TRADES as int)) * (BASE_REWARD as int),
{
}

} // verus!
