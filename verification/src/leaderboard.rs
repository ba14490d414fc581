use vstd::prelude::*;

use crate::state::{LeaderboardEntry, TraderStats};

verus! {

// ---------------------------------------------------------------------------
// Ranking order
//
// The ranking key of an occupied slot is the average execution time
// `total_execution_time / total_trades`; an empty (sentinel) slot ranks as
// infinitely slow. Averages are compared exactly, by cross-multiplication,
// so no rounding is involved. Ties in average are broken by trader
// identity, which makes the sorted order of a board with distinct traders
// unique.
// ---------------------------------------------------------------------------

/// The average execution time of `a` is at most that of `b`
/// (`a.total_execution_time / a.total_trades <= b.total_execution_time /
/// b.total_trades` over the rationals, with an empty slot counted as
/// infinitely slow).
pub open spec fn avg_le(a: LeaderboardEntry, b: LeaderboardEntry) -> bool {
    if b.total_trades == 0 {
        true
    } else if a.total_trades == 0 {
        false
    } else {
        a.total_execution_time * b.total_trades <= b.total_execution_time * a.total_trades
    }
}

/// The average of `a` is strictly below that of `b`.
pub open spec fn avg_lt(a: LeaderboardEntry, b: LeaderboardEntry) -> bool {
    !avg_le(b, a)
}

/// The averages of `a` and `b` are exactly equal (or both slots are empty).
pub open spec fn avg_eq(a: LeaderboardEntry, b: LeaderboardEntry) -> bool {
    avg_le(a, b) && avg_le(b, a)
}

/// The total order the board is kept sorted by: ascending average
/// execution time, ties broken by trader identity.
pub open spec fn entry_le(a: LeaderboardEntry, b: LeaderboardEntry) -> bool {
    avg_lt(a, b) || (avg_eq(a, b) && a.trader <= b.trader)
}

/// Any two averages compare one way or the other.
pub proof fn lemma_avg_le_total(a: LeaderboardEntry, b: LeaderboardEntry)
    ensures
        avg_le(a, b) || avg_le(b, a),
{
}

/// The average comparison is transitive.
pub proof fn lemma_avg_le_trans(a: LeaderboardEntry, b: LeaderboardEntry, c: LeaderboardEntry)
    requires
        avg_le(a, b),
        avg_le(b, c),
    ensures
        avg_le(a, c),
{
    if c.total_trades > 0 {
        assert(b.total_trades > 0);
        assert(a.total_trades > 0);
        let xa = a.total_execution_time as int;
        let na = a.total_trades as int;
        let xb = b.total_execution_time as int;
        let nb = b.total_trades as int;
        let xc = c.total_execution_time as int;
        let nc = c.total_trades as int;
        assert(xa * nc <= xc * na) by (nonlinear_arith)
            requires
                na > 0,
                nb > 0,
                nc > 0,
                xa * nb <= xb * na,
                xb * nc <= xc * nb,
        ;
    }
}

/// Any two entries compare one way or the other under the board order.
pub proof fn lemma_entry_le_total(a: LeaderboardEntry, b: LeaderboardEntry)
    ensures
        entry_le(a, b) || entry_le(b, a),
{
    lemma_avg_le_total(a, b);
}

/// The board order is transitive.
pub proof fn lemma_entry_le_trans(a: LeaderboardEntry, b: LeaderboardEntry, c: LeaderboardEntry)
    requires
        entry_le(a, b),
        entry_le(b, c),
    ensures
        entry_le(a, c),
{
    if avg_le(a, b) && avg_le(b, c) {
        lemma_avg_le_trans(a, b, c);
    }
    if avg_le(c, b) && avg_le(b, a) {
        lemma_avg_le_trans(c, b, a);
    }
    if avg_le(c, a) && avg_le(a, b) {
        lemma_avg_le_trans(c, a, b);
    }
    if avg_le(b, c) && avg_le(c, a) {
        lemma_avg_le_trans(b, c, a);
    }
    if avg_le(b, a) && avg_le(a, c) {
        lemma_avg_le_trans(b, a, c);
    }
    if avg_le(a, c) && avg_le(c, b) {
        lemma_avg_le_trans(a, c, b);
    }
    lemma_avg_le_total(a, b);
    lemma_avg_le_total(b, c);
    lemma_avg_le_total(a, c);
}

// ---------------------------------------------------------------------------
// Board well-formedness
// ---------------------------------------------------------------------------

/// A slot is empty exactly when its trader identity is the zero sentinel,
/// and an empty slot carries no counters.
pub open spec fn entry_well_formed(e: LeaderboardEntry) -> bool {
    &&& e.trader == 0 <==> e.total_trades == 0
    &&& e.trader == 0 ==> e.total_execution_time == 0
}

/// Slots are sorted ascending by average (sentinels last), no non-sentinel
/// trader occupies two slots, and every slot is well formed.
pub open spec fn board_ordered(b: Seq<LeaderboardEntry>) -> bool {
    &&& forall|i: int, j: int| 0 <= i < j < b.len() ==> entry_le(#[trigger] b[i], #[trigger] b[j])
    &&& forall|i: int, j: int|
        0 <= i < j < b.len() && (#[trigger] b[i]).trader == (#[trigger] b[j]).trader
            ==> b[i].trader == 0
    &&& forall|i: int| 0 <= i < b.len() ==> entry_well_formed(#[trigger] b[i])
}

/// The leaderboard invariant: exactly ten slots, ordered as above.
pub open spec fn board_wf(b: Seq<LeaderboardEntry>) -> bool {
    b.len() == 10 && board_ordered(b)
}

/// Some slot of `b` carries the trader identity `t`.
pub open spec fn has_trader(b: Seq<LeaderboardEntry>, t: u64) -> bool {
    exists|i: int| 0 <= i < b.len() && (#[trigger] b[i]).trader == t
}

/// `i` is the first slot of `b` carrying the trader identity `t`.
pub open spec fn is_first_with_trader(b: Seq<LeaderboardEntry>, t: u64, i: int) -> bool {
    &&& 0 <= i < b.len()
    &&& b[i].trader == t
    &&& forall|k: int| 0 <= k < i ==> (#[trigger] b[k]).trader != t
}

/// `w` is the first slot of `b` holding the maximum (worst) average.
pub open spec fn is_first_worst(b: Seq<LeaderboardEntry>, w: int) -> bool {
    &&& 0 <= w < b.len()
    &&& forall|j: int| 0 <= j < b.len() ==> avg_le(#[trigger] b[j], b[w])
    &&& forall|k: int| 0 <= k < w ==> avg_lt(#[trigger] b[k], b[w])
}

/// `j` is where `e` belongs in the sorted sequence `b`: everything before
/// `j` is strictly below `e` in the board order, and the slot at `j` (if
/// any) is not.
pub open spec fn is_insertion_point(b: Seq<LeaderboardEntry>, e: LeaderboardEntry, j: int) -> bool {
    &&& 0 <= j <= b.len()
    &&& forall|k: int| 0 <= k < j ==> !entry_le(e, #[trigger] b[k])
    &&& j < b.len() ==> entry_le(e, b[j])
}

/// `r` is `b` with `e` inserted at its insertion point.
pub open spec fn sorted_insert_rel(
    b: Seq<LeaderboardEntry>,
    e: LeaderboardEntry,
    r: Seq<LeaderboardEntry>,
) -> bool {
    exists|j: int| #[trigger] is_insertion_point(b, e, j) && r == b.insert(j, e)
}

/// The leaderboard entry carrying a trader's cumulative totals.
pub open spec fn stats_entry(s: TraderStats) -> LeaderboardEntry {
    LeaderboardEntry {
        trader: s.trader,
        total_trades: s.total_trades,
        total_execution_time: s.total_execution_time,
    }
}

/// Exactly how one update event turns the board `b` into `r`:
/// a trader with no trades is ignored; a trader already on the board has
/// their slot overwritten; otherwise a sentinel slot is taken if one is
/// free; otherwise the first worst slot is evicted, but only for a
/// strictly better average. In every case the surviving slots are re-sorted
/// into the board order.
pub open spec fn board_step(
    b: Seq<LeaderboardEntry>,
    s: TraderStats,
    r: Seq<LeaderboardEntry>,
) -> bool {
    if s.total_trades == 0 {
        r == b
    } else if has_trader(b, s.trader) {
        exists|i: int|
            #[trigger] is_first_with_trader(b, s.trader, i)
                && sorted_insert_rel(b.remove(i), stats_entry(s), r)
    } else if has_trader(b, 0) {
        exists|i: int|
            #[trigger] is_first_with_trader(b, 0, i)
                && sorted_insert_rel(b.remove(i), stats_entry(s), r)
    } else {
        exists|w: int|
            #[trigger] is_first_worst(b, w)
                && (if avg_lt(stats_entry(s), b[w]) {
                    sorted_insert_rel(b.remove(w), stats_entry(s), r)
                } else {
                    r == b
                })
    }
}

// ---------------------------------------------------------------------------
// Uniqueness of the characterized slots
//
// Each of the slots `board_step` speaks of — the first slot of a trader,
// the first worst slot, the insertion point — is unique, so the relation
// pins the resulting board exactly (see
// `crate::laws::lemma_board_step_deterministic`).
// ---------------------------------------------------------------------------

/// A sequence has at most one first slot for a given identity.
pub proof fn lemma_first_with_trader_unique(b: Seq<LeaderboardEntry>, t: u64, i1: int, i2: int)
    requires
        is_first_with_trader(b, t, i1),
        is_first_with_trader(b, t, i2),
    ensures
        i1 == i2,
{
    if i1 < i2 {
        assert(b[i1].trader == t);
        assert(false);
    }
    if i2 < i1 {
        assert(b[i2].trader == t);
        assert(false);
    }
}

/// A sequence has at most one first worst slot.
pub proof fn lemma_first_worst_unique(b: Seq<LeaderboardEntry>, w1: int, w2: int)
    requires
        is_first_worst(b, w1),
        is_first_worst(b, w2),
    ensures
        w1 == w2,
{
    if w1 < w2 {
        assert(avg_lt(b[w1], b[w2]));
        assert(avg_le(b[w2], b[w1]));
        assert(false);
    }
    if w2 < w1 {
        assert(avg_lt(b[w2], b[w1]));
        assert(avg_le(b[w1], b[w2]));
        assert(false);
    }
}

/// A sequence has at most one insertion point for a given entry.
pub proof fn lemma_insertion_point_unique(
    b: Seq<LeaderboardEntry>,
    e: LeaderboardEntry,
    j1: int,
    j2: int,
)
    requires
        is_insertion_point(b, e, j1),
        is_insertion_point(b, e, j2),
    ensures
        j1 == j2,
{
    if j1 < j2 {
        assert(entry_le(e, b[j1]));
        assert(false);
    }
    if j2 < j1 {
        assert(entry_le(e, b[j2]));
        assert(false);
    }
}

// ---------------------------------------------------------------------------
// Executable comparison
// ---------------------------------------------------------------------------

proof fn lemma_u64_mul_fits(x: int, y: int)
    requires
        0 <= x <= u64::MAX,
        0 <= y <= u64::MAX,
    ensures
        x * y <= u128::MAX,
{
    assert(x * y <= u64::MAX * u64::MAX) by (nonlinear_arith)
        requires
            0 <= x <= u64::MAX,
            0 <= y <= u64::MAX,
    ;
}

/// Decides `avg_le` exactly, widening the cross-products to `u128`.
pub fn avg_le_exec(a: &LeaderboardEntry, b: &LeaderboardEntry) -> (r: bool)
    ensures
        r == avg_le(*a, *b),
{
    if b.total_trades == 0 {
        true
    } else if a.total_trades == 0 {
        false
    } else {
        proof {
            lemma_u64_mul_fits(a.total_execution_time as int, b.total_trades as int);
            lemma_u64_mul_fits(b.total_execution_time as int, a.total_trades as int);
        }
        (a.total_execution_time as u128) * (b.total_trades as u128) <= (b.total_execution_time
            as u128) * (a.total_trades as u128)
    }
}

/// Decides `avg_lt` exactly.
pub fn avg_lt_exec(a: &LeaderboardEntry, b: &LeaderboardEntry) -> (r: bool)
    ensures
        r == avg_lt(*a, *b),
{
    !avg_le_exec(b, a)
}

/// Decides the board order `entry_le` exactly.
pub fn entry_le_exec(a: &LeaderboardEntry, b: &LeaderboardEntry) -> (r: bool)
    ensures
        r == entry_le(*a, *b),
{
    let ab = avg_le_exec(a, b);
    let ba = avg_le_exec(b, a);
    if !ba {
        true
    } else {
        ab && a.trader <= b.trader
    }
}

// ---------------------------------------------------------------------------
// The update algorithm
// ---------------------------------------------------------------------------

/// First slot carrying the identity `t`, if any.
fn find_slot_of_trader(board: &Vec<LeaderboardEntry>, t: u64) -> (r: Option<usize>)
    ensures
        r matches Some(i) ==> is_first_with_trader(board@, t, i as int),
        r is None ==> !has_trader(board@, t),
{
    let mut k: usize = 0;
    while k < board.len()
        invariant
            k <= board@.len(),
            forall|m: int| 0 <= m < k ==> (#[trigger] board@[m]).trader != t,
        decreases board@.len() - k,
    {
        if board[k].trader == t {
            return Some(k);
        }
        k += 1;
    }
    None
}

/// First slot holding the worst (maximum) average: the eviction victim of
/// a full board. Scans in slot order, moving only for a strictly worse
/// average, so ties keep the first occurrence.
fn find_worst_slot(board: &Vec<LeaderboardEntry>) -> (w: usize)
    requires
        board@.len() > 0,
    ensures
        is_first_worst(board@, w as int),
{
    let mut w: usize = 0;
    let mut k: usize = 1;
    while k < board.len()
        invariant
            w < k <= board@.len(),
            forall|j: int| 0 <= j < k ==> avg_le(#[trigger] board@[j], board@[w as int]),
            forall|m: int| 0 <= m < w ==> avg_lt(#[trigger] board@[m], board@[w as int]),
        decreases board@.len() - k,
    {
        if avg_lt_exec(&board[w], &board[k]) {
            proof {
                assert forall|m: int| 0 <= m < k implies avg_lt(#[trigger] board@[m], board@[k as int])
                    && avg_le(board@[m], board@[k as int]) by {
                    lemma_avg_le_total(board@[m], board@[k as int]);
                    if avg_le(board@[k as int], board@[m]) {
                        lemma_avg_le_trans(board@[k as int], board@[m], board@[w as int]);
                        assert(false);
                    }
                }
            }
            w = k;
        }
        k += 1;
    }
    w
}

/// Where `e` belongs in the sorted slot sequence.
fn insertion_point(board: &Vec<LeaderboardEntry>, e: &LeaderboardEntry) -> (j: usize)
    ensures
        is_insertion_point(board@, *e, j as int),
{
    let mut j: usize = 0;
    while j < board.len()
        invariant
            j <= board@.len(),
            forall|k: int| 0 <= k < j ==> !entry_le(*e, #[trigger] board@[k]),
        decreases board@.len() - j,
    {
        if entry_le_exec(e, &board[j]) {
            return j;
        }
        j += 1;
    }
    j
}

/// Removing a slot keeps the board ordered.
proof fn lemma_remove_keeps_ordered(b: Seq<LeaderboardEntry>, i: int)
    requires
        board_ordered(b),
        0 <= i < b.len(),
    ensures
        board_ordered(b.remove(i)),
{
    b.remove_ensures(i);
    let r = b.remove(i);
    assert forall|x: int, y: int| 0 <= x < y < r.len() implies entry_le(#[trigger] r[x], #[trigger] r[y]) by {
        let xo = if x < i { x } else { x + 1 };
        let yo = if y < i { y } else { y + 1 };
        assert(r[x] == b[xo]);
        assert(r[y] == b[yo]);
    }
    assert forall|x: int, y: int|
        0 <= x < y < r.len() && (#[trigger] r[x]).trader == (#[trigger] r[y]).trader implies r[x].trader
        == 0 by {
        let xo = if x < i { x } else { x + 1 };
        let yo = if y < i { y } else { y + 1 };
        assert(r[x] == b[xo]);
        assert(r[y] == b[yo]);
    }
    assert forall|x: int| 0 <= x < r.len() implies entry_well_formed(#[trigger] r[x]) by {
        let xo = if x < i { x } else { x + 1 };
        assert(r[x] == b[xo]);
    }
}

/// Inserts `e` at its insertion point, keeping the board ordered.
fn insert_sorted(board: &mut Vec<LeaderboardEntry>, e: LeaderboardEntry)
    requires
        board_ordered(old(board)@),
        old(board)@.len() < 100,
        entry_well_formed(e),
        e.trader != 0,
        forall|k: int|
            0 <= k < old(board)@.len() ==> (#[trigger] old(board)@[k]).trader != e.trader,
    ensures
        final(board)@.len() == old(board)@.len() + 1,
        board_ordered(final(board)@),
        sorted_insert_rel(old(board)@, e, final(board)@),
{
    let ghost b0 = board@;
    let j = insertion_point(board, &e);
    let ghost ji = j as int;
    board.insert(j, e);
    proof {
        b0.insert_ensures(ji, e);
        let r = board@;
        assert(r == b0.insert(ji, e));
        assert forall|x: int, y: int| 0 <= x < y < r.len() implies entry_le(
            #[trigger] r[x],
            #[trigger] r[y],
        ) by {
            if y < ji {
                assert(r[x] == b0[x]);
                assert(r[y] == b0[y]);
            } else if x < ji && y == ji {
                assert(r[x] == b0[x]);
                assert(r[y] == e);
                lemma_entry_le_total(e, b0[x]);
            } else if x < ji && y > ji {
                assert(r[x] == b0[x]);
                assert(r[y] == b0[y - 1]);
            } else if x == ji {
                assert(r[x] == e);
                assert(r[y] == b0[y - 1]);
                assert(entry_le(e, b0[ji]));
                if y - 1 > ji {
                    lemma_entry_le_trans(e, b0[ji], b0[y - 1]);
                }
            } else {
                assert(r[x] == b0[x - 1]);
                assert(r[y] == b0[y - 1]);
            }
        }
        assert forall|x: int, y: int|
            0 <= x < y < r.len() && (#[trigger] r[x]).trader == (#[trigger] r[y]).trader implies r[x].trader
            == 0 by {
            if x != ji && y != ji {
                let xo = if x < ji { x } else { x - 1 };
                let yo = if y < ji { y } else { y - 1 };
                assert(r[x] == b0[xo]);
                assert(r[y] == b0[yo]);
            } else if x == ji {
                let yo = y - 1;
                assert(r[x] == e);
                assert(r[y] == b0[yo]);
            } else {
                assert(r[y] == e);
                assert(r[x] == b0[x]);
            }
        }
        assert forall|x: int| 0 <= x < r.len() implies entry_well_formed(#[trigger] r[x]) by {
            if x != ji {
                let xo = if x < ji { x } else { x - 1 };
                assert(r[x] == b0[xo]);
            } else {
                assert(r[x] == e);
            }
        }
        assert(is_insertion_point(b0, e, ji) && r == b0.insert(ji, e));
    }
}

/// Applies one update event to the board: overwrite the trader's own
/// slot, else take a free sentinel slot, else evict the first worst slot
/// for a strictly better average; then keep the slots in the board order.
pub fn update_leaderboard(leaderboard: &mut Vec<LeaderboardEntry>, trader_stats: &TraderStats)
    requires
        board_wf(old(leaderboard)@),
        trader_stats.trader != 0,
    ensures
        board_wf(final(leaderboard)@),
        board_step(old(leaderboard)@, *trader_stats, final(leaderboard)@),
{
    let ghost b0 = leaderboard@;
    if trader_stats.total_trades == 0 {
        return ;
    }
    let e = LeaderboardEntry {
        trader: trader_stats.trader,
        total_trades: trader_stats.total_trades,
        total_execution_time: trader_stats.total_execution_time,
    };
    let slot: usize;
    match find_slot_of_trader(leaderboard, trader_stats.trader) {
        Some(i) => {
            slot = i;
            proof {
                assert(b0[slot as int].trader == trader_stats.trader);
                assert(has_trader(b0, trader_stats.trader));
            }
        },
        None => {
            match find_slot_of_trader(leaderboard, 0) {
                Some(i) => {
                    slot = i;
                    proof {
                        assert(b0[slot as int].trader == 0);
                        assert(has_trader(b0, 0));
                    }
                },
                None => {
                    let w = find_worst_slot(leaderboard);
                    if avg_lt_exec(&e, &leaderboard[w]) {
                        slot = w;
                    } else {
                        proof {
                            assert(is_first_worst(b0, w as int));
                        }
                        return ;
                    }
                },
            }
        },
    }
    let ghost si = slot as int;
    proof {
        lemma_remove_keeps_ordered(b0, si);
        b0.remove_ensures(si);
        assert forall|k: int|
            0 <= k < b0.remove(si).len() implies (#[trigger] b0.remove(si)[k]).trader != e.trader by {
            let ko = if k < si { k } else { k + 1 };
            assert(b0.remove(si)[k] == b0[ko]);
            if b0[ko].trader == e.trader {
                // Either the trader held slot `si` and no other slot (else two
                // non-sentinel slots would share an identity), or the trader
                // was absent from the board altogether.
                if b0[si as int].trader == e.trader {
                    if ko < si {
                        assert(b0[ko].trader == b0[si].trader);
                    } else {
                        assert(b0[si].trader == b0[ko].trader);
                    }
                    assert(b0[ko].trader == 0);
                    assert(false);
                } else {
                    assert(has_trader(b0, e.trader));
                    assert(false);
                }
            }
        }
    }
    leaderboard.remove(slot);
    insert_sorted(leaderboard, e);
    proof {
        assert(sorted_insert_rel(b0.remove(si), e, leaderboard@));
        assert(e == stats_entry(*trader_stats));
    }
}

} // verus!
