//! Reading a board for the computer player: counting aligned coins,
//! listing the playable columns, scoring a board.

use vstd::prelude::*;

use crate::puissance4::game_p4::{
    board_is_standard, board_ok, check, columns_in_play, drop_height, lemma_drop_height, place_coin_nodraw, spec_check, spec_check_from, EMPTY_CELL,
    MAX_HEIGHT_SIZE, MAX_PLAYERS, MAX_WIDTH_SIZE,
};
use crate::puissance4::table::{board_cell, board_clone, board_column_len, board_view, moves_get, moves_len, moves_new, moves_push, moves_view};

verus! {

/// A line of cells of the board: first cell `(.0, .1)`, step `(.2, .3)`, `.4` cells.
pub open spec fn line_x(l: (int, int, int, int, int), t: int) -> int {
    l.0 + t * l.2
}

pub open spec fn line_y(l: (int, int, int, int, int), t: int) -> int {
    l.1 + t * l.3
}

/// Cell `t` of a line.
pub open spec fn line_cell(v: Seq<Seq<u8>>, l: (int, int, int, int, int), t: int) -> u8 {
    v[line_x(l, t)][line_y(l, t)]
}

/// The run counter after one more cell: one more coin of the player, or a
/// restart; reaching `n` counts an alignment and restarts the counter.
pub open spec fn next_count(c: int, cell: u8, player: u8, n: u8) -> int {
    let c2 = if cell == player { c + 1 } else { 0 };
    if c2 == n { 0 } else { c2 }
}

/// Whether the cell completes an alignment of `n`.
pub open spec fn is_hit(c: int, cell: u8, player: u8, n: u8) -> bool {
    (if cell == player { c + 1 } else { 0 }) == n
}

/// The run counter after the first `t` cells of a line.
pub open spec fn run_count(v: Seq<Seq<u8>>, l: (int, int, int, int, int), player: u8, n: u8, t: nat) -> int
    decreases t,
{
    if t == 0 {
        0
    } else {
        next_count(run_count(v, l, player, n, (t - 1) as nat), line_cell(v, l, t - 1), player, n)
    }
}

/// The two ends of the alignment completed at cell `t` of a line.
pub open spec fn hit_ends(l: (int, int, int, int, int), t: int, n: u8) -> ((int, int), (int, int)) {
    ((line_x(l, t) - (n - 1) * l.2, line_y(l, t) - (n - 1) * l.3), (line_x(l, t), line_y(l, t)))
}

/// The count of alignments and the ends of the first one, after the first
/// `t` cells of a line, starting from state `st`.
pub open spec fn scan_prefix(v: Seq<Seq<u8>>, l: (int, int, int, int, int), player: u8, n: u8, t: nat, st: (int, Option<((int, int), (int, int))>)) -> (int, Option<((int, int), (int, int))>)
    decreases t,
{
    if t == 0 {
        st
    } else {
        let s = scan_prefix(v, l, player, n, (t - 1) as nat, st);
        if is_hit(run_count(v, l, player, n, (t - 1) as nat), line_cell(v, l, t - 1), player, n) {
            (s.0 + 1, if s.1 is Some { s.1 } else { Some(hit_ends(l, t - 1, n)) })
        } else {
            s
        }
    }
}

/// The count of alignments and the ends of the first one, over lines scanned in order.
pub open spec fn scan_lines(v: Seq<Seq<u8>>, ls: Seq<(int, int, int, int, int)>, player: u8, n: u8) -> (int, Option<((int, int), (int, int))>)
    decreases ls.len(),
{
    if ls.len() == 0 {
        (0, None)
    } else {
        scan_prefix(v, ls.last(), player, n, ls.last().4 as nat, scan_lines(v, ls.drop_last(), player, n))
    }
}

/// The lines looked at, in order: the first `max_width` columns upwards,
/// the rows across those columns, then the down-right diagonals that start
/// on the top row at columns 1 to 7.
pub open spec fn all_lines(max_width: int) -> Seq<(int, int, int, int, int)> {
    Seq::new(max_width as nat, |x: int| (x, 0, 0, 1, 6)) + Seq::new(6, |y: int| (0, y, 1, 0, max_width)) + Seq::new(
        7,
        |i: int| (i + 1, 5, 1, -1, if 7 - i < 6 { 7 - i } else { 6 }),
    )
}

/// The state of a scan as the function returns it: the count, and the ends
/// of the first alignment once there is one.
pub open spec fn enc(r: (u8, (u16, u16), (u16, u16))) -> (int, Option<((int, int), (int, int))>) {
    (r.0 as int, if r.0 == 0 { None } else { Some(((r.1.0 as int, r.1.1 as int), (r.2.0 as int, r.2.1 as int))) })
}

proof fn lemma_run_count_bound(v: Seq<Seq<u8>>, l: (int, int, int, int, int), player: u8, n: u8, t: nat)
    ensures
        0 <= run_count(v, l, player, n, t) <= t,
    decreases t,
{
    if t > 0 {
        lemma_run_count_bound(v, l, player, n, (t - 1) as nat);
    }
}

/// The cells of a line lie on a full-size board.
pub open spec fn line_in_board(l: (int, int, int, int, int)) -> bool {
    forall|t: int| 0 <= t < l.4 ==> 0 <= #[trigger] line_x(l, t) < MAX_WIDTH_SIZE && 0 <= line_y(l, t) < MAX_HEIGHT_SIZE
}

proof fn lemma_scan_step(v: Seq<Seq<u8>>, l: (int, int, int, int, int), player: u8, n: u8, t: nat, st: (int, Option<((int, int), (int, int))>))
    ensures
        run_count(v, l, player, n, t + 1) == next_count(run_count(v, l, player, n, t), line_cell(v, l, t as int), player, n),
        scan_prefix(v, l, player, n, t + 1, st) == (if is_hit(run_count(v, l, player, n, t), line_cell(v, l, t as int), player, n) {
            (scan_prefix(v, l, player, n, t, st).0 + 1, if scan_prefix(v, l, player, n, t, st).1 is Some {
                scan_prefix(v, l, player, n, t, st).1
            } else {
                Some(hit_ends(l, t as int, n))
            })
        } else {
            scan_prefix(v, l, player, n, t, st)
        }),
{
    assert((t + 1 - 1) as nat == t);
}

#[verifier::rlimit(40)]
fn scan_line(table: &heapless::Vec<heapless::Vec<u8, 6>, 8>, player: u8, n: u8, sx: usize, sy: usize, dx: usize, dy: i8, len: usize, st: (u8, (u16, u16), (u16, u16))) -> (r: (u8, (u16, u16), (u16, u16)))
    requires
        board_ok(board_view(*table)),
        dx <= 1,
        -1 <= dy <= 1,
        len <= 8,
        n >= 1,
        st.0 + len <= 255,
        line_in_board((sx as int, sy as int, dx as int, dy as int, len as int)),
    ensures
        enc(r) == scan_prefix(board_view(*table), (sx as int, sy as int, dx as int, dy as int, len as int), player, n, len as nat, enc(st)),
        r.0 <= st.0 + len,
        r.0 >= st.0,
        r.0 == 0 ==> r.1 == st.1 && r.2 == st.2,
{
    let ghost v = board_view(*table);
    let ghost l = (sx as int, sy as int, dx as int, dy as int, len as int);
    let mut result: u8 = st.0;
    let mut first: (u16, u16) = st.1;
    let mut last: (u16, u16) = st.2;
    let mut count: u8 = 0;
    let mut t: usize = 0;
    while t < len
        invariant
            v == board_view(*table),
            board_ok(v),
            l == (sx as int, sy as int, dx as int, dy as int, len as int),
            dx <= 1,
            -1 <= dy <= 1,
            len <= 8,
            n >= 1,
            st.0 + len <= 255,
            line_in_board(l),
            t <= len,
            count == run_count(v, l, player, n, t as nat),
            enc((result, first, last)) == scan_prefix(v, l, player, n, t as nat, enc(st)),
            result <= st.0 + t,
            result >= st.0,
            result == 0 ==> first == st.1 && last == st.2,
        decreases len - t,
    {
        proof {
            lemma_run_count_bound(v, l, player, n, t as nat);
            lemma_scan_step(v, l, player, n, t as nat, enc(st));
        }
        assert(0 <= line_x(l, t as int) < 8 && 0 <= line_y(l, t as int) < 6);
        assert((t as int) * (dx as int) == (if dx == 1 { t as int } else { 0 })) by (nonlinear_arith)
            requires
                dx <= 1,
        ;
        assert((t as int) * (dy as int) == (if dy == 1 { t as int } else if dy == -1 { -t } else { 0 })) by (nonlinear_arith)
            requires
                -1 <= dy <= 1,
        ;
        let x: usize = if dx == 1 { sx + t } else { sx };
        let y: usize = if dy == 1 {
            sy + t
        } else if dy == -1 {
            sy - t
        } else {
            sy
        };
        assert(x == line_x(l, t as int));
        assert(y == line_y(l, t as int));
        let cell = board_cell(table, x, y);
        let c2: u8 = if cell == player { count + 1 } else { 0 };
        if c2 == n {
            if result == 0 {
                let fx: u16 = if dx == 1 { x as u16 + 1 - n as u16 } else { x as u16 };
                let fy: u16 = if dy == 1 {
                    y as u16 + 1 - n as u16
                } else if dy == -1 {
                    y as u16 + n as u16 - 1
                } else {
                    y as u16
                };
                first = (fx, fy);
                last = (x as u16, y as u16);
            }
            result = result + 1;
            count = 0;
        } else {
            count = c2;
        }
        t += 1;
    }
    (result, first, last)
}

/// A run counter of `c` means the last `c` cells scanned are the player's.
proof fn lemma_run_cells(v: Seq<Seq<u8>>, l: (int, int, int, int, int), player: u8, n: u8, t: nat)
    requires
        n >= 1,
    ensures
        forall|k: int| 1 <= k <= run_count(v, l, player, n, t) ==> #[trigger] line_cell(v, l, t - k) == player,
    decreases t,
{
    if t > 0 {
        lemma_run_cells(v, l, player, n, (t - 1) as nat);
        let c = run_count(v, l, player, n, t);
        assert forall|k: int| 1 <= k <= c implies #[trigger] line_cell(v, l, t - k) == player by {
            if k > 1 {
                assert(line_cell(v, l, (t - 1) - (k - 1)) == player);
            }
        }
    }
}

/// The cells of an alignment found at cell `t` of a line are the player's:
/// cell `t` and the `n - 1` before it.
pub proof fn lemma_hit_cells(v: Seq<Seq<u8>>, l: (int, int, int, int, int), player: u8, n: u8, t: nat)
    requires
        n >= 1,
        is_hit(run_count(v, l, player, n, t), line_cell(v, l, t as int), player, n),
    ensures
        forall|k: int| 0 <= k < n ==> #[trigger] line_cell(v, l, t - k) == player,
{
    lemma_run_cells(v, l, player, n, t);
    assert forall|k: int| 0 <= k < n implies #[trigger] line_cell(v, l, t - k) == player by {
        if k == 0 {
            assert(line_cell(v, l, t - 0) == line_cell(v, l, t as int));
        }
    }
}

/// The cell `k` steps of `(dx, dy)` back from `p`.
pub open spec fn step_back(p: (int, int), k: int, dx: int, dy: int) -> (int, int) {
    (p.0 - k * dx, p.1 - k * dy)
}

/// `n` coins of `player` in a straight line ending at `last`, each step
/// going back by the same `(dx, dy)`, starting at `first`.
pub open spec fn straight_run(v: Seq<Seq<u8>>, player: u8, n: int, first: (int, int), last: (int, int)) -> bool {
    exists|dx: int, dy: int|
        first == #[trigger] step_back(last, n - 1, dx, dy) && forall|k: int|
            0 <= k < n ==> v[step_back(last, k, dx, dy).0][#[trigger] step_back(last, k, dx, dy).1] == player
}

/// The alignment with ends `o`, if any, is a straight run of `n` coins of `player`.
pub open spec fn opt_straight(v: Seq<Seq<u8>>, player: u8, n: int, o: Option<((int, int), (int, int))>) -> bool {
    match o {
        Some(e) => straight_run(v, player, n, e.0, e.1),
        None => true,
    }
}

proof fn lemma_hit_straight(v: Seq<Seq<u8>>, l: (int, int, int, int, int), player: u8, n: u8, t: nat)
    requires
        n >= 1,
        is_hit(run_count(v, l, player, n, t), line_cell(v, l, t as int), player, n),
    ensures
        straight_run(v, player, n as int, hit_ends(l, t as int, n).0, hit_ends(l, t as int, n).1),
{
    lemma_hit_cells(v, l, player, n, t);
    let e = hit_ends(l, t as int, n);
    let last = e.1;
    let first = e.0;
    assert forall|k: int| 0 <= k < n implies v[step_back(last, k, l.2, l.3).0][#[trigger] step_back(last, k, l.2, l.3).1] == player by {
        assert(line_cell(v, l, t - k) == player);
        assert(line_x(l, t - k) == line_x(l, t as int) - k * l.2) by (nonlinear_arith);
        assert(line_y(l, t - k) == line_y(l, t as int) - k * l.3) by (nonlinear_arith);
    }
    assert(first == step_back(last, n - 1, l.2, l.3));
}

proof fn lemma_scan_prefix_first(v: Seq<Seq<u8>>, l: (int, int, int, int, int), player: u8, n: u8, t: nat, st: (int, Option<((int, int), (int, int))>))
    requires
        n >= 1,
        opt_straight(v, player, n as int, st.1),
    ensures
        opt_straight(v, player, n as int, scan_prefix(v, l, player, n, t, st).1),
    decreases t,
{
    if t > 0 {
        lemma_scan_prefix_first(v, l, player, n, (t - 1) as nat, st);
        if is_hit(run_count(v, l, player, n, (t - 1) as nat), line_cell(v, l, t - 1), player, n) {
            lemma_hit_straight(v, l, player, n, (t - 1) as nat);
        }
    }
}

proof fn lemma_scan_lines_first(v: Seq<Seq<u8>>, ls: Seq<(int, int, int, int, int)>, player: u8, n: u8)
    requires
        n >= 1,
    ensures
        opt_straight(v, player, n as int, scan_lines(v, ls, player, n).1),
    decreases ls.len(),
{
    if ls.len() > 0 {
        lemma_scan_lines_first(v, ls.drop_last(), player, n);
        lemma_scan_prefix_first(v, ls.last(), player, n, ls.last().4 as nat, scan_lines(v, ls.drop_last(), player, n));
    }
}

/// The first alignment reported is made of `n` coins of the player, in a
/// straight line from its first end to its last.
pub proof fn lemma_alignment_is_coins(v: Seq<Seq<u8>>, player: u8, n: u8, max_width: int)
    requires
        n >= 1,
    ensures
        opt_straight(v, player, n as int, spec_aligned(v, player, n, max_width).1),
{
    lemma_scan_lines_first(v, all_lines(max_width), player, n);
}

proof fn lemma_scan_prefix_some(v: Seq<Seq<u8>>, l: (int, int, int, int, int), player: u8, n: u8, t: nat, st: (int, Option<((int, int), (int, int))>))
    requires
        st.0 >= 0,
        st.0 == 0 <==> st.1 is None,
    ensures
        scan_prefix(v, l, player, n, t, st).0 >= 0,
        scan_prefix(v, l, player, n, t, st).0 == 0 <==> scan_prefix(v, l, player, n, t, st).1 is None,
    decreases t,
{
    if t > 0 {
        lemma_scan_prefix_some(v, l, player, n, (t - 1) as nat, st);
    }
}

proof fn lemma_scan_lines_some(v: Seq<Seq<u8>>, ls: Seq<(int, int, int, int, int)>, player: u8, n: u8)
    ensures
        scan_lines(v, ls, player, n).0 >= 0,
        scan_lines(v, ls, player, n).0 == 0 <==> scan_lines(v, ls, player, n).1 is None,
    decreases ls.len(),
{
    if ls.len() > 0 {
        lemma_scan_lines_some(v, ls.drop_last(), player, n);
        lemma_scan_prefix_some(v, ls.last(), player, n, ls.last().4 as nat, scan_lines(v, ls.drop_last(), player, n));
    }
}

/// Some alignment is counted exactly when a first one is reported.
pub proof fn lemma_aligned_some(v: Seq<Seq<u8>>, player: u8, n: u8, max_width: int)
    ensures
        spec_aligned(v, player, n, max_width).0 >= 0,
        spec_aligned(v, player, n, max_width).0 == 0 <==> spec_aligned(v, player, n, max_width).1 is None,
{
    lemma_scan_lines_some(v, all_lines(max_width), player, n);
}

/// Number of times `n` coins of `player` are seen aligned, with the ends
/// of the first alignment found ((0, 0) twice when none).
pub open spec fn spec_aligned(v: Seq<Seq<u8>>, player: u8, n: u8, max_width: int) -> (int, Option<((int, int), (int, int))>) {
    scan_lines(v, all_lines(max_width), player, n)
}

proof fn lemma_run_count_below(v: Seq<Seq<u8>>, l: (int, int, int, int, int), player: u8, n: u8, t: nat)
    requires
        n >= 1,
    ensures
        0 <= run_count(v, l, player, n, t) < n,
    decreases t,
{
    if t > 0 {
        lemma_run_count_below(v, l, player, n, (t - 1) as nat);
    }
}

proof fn lemma_run_grows(v: Seq<Seq<u8>>, l: (int, int, int, int, int), player: u8, n: u8, t0: nat, m: nat)
    requires
        n >= 1,
        forall|i: int| 0 <= i < m ==> #[trigger] line_cell(v, l, t0 + i) == player,
        forall|i: int| 0 <= i < m ==> !#[trigger] is_hit(run_count(v, l, player, n, (t0 + i) as nat), line_cell(v, l, t0 + i), player, n),
    ensures
        run_count(v, l, player, n, t0 + m) == run_count(v, l, player, n, t0) + m,
    decreases m,
{
    if m > 0 {
        let m1 = (m - 1) as nat;
        lemma_run_grows(v, l, player, n, t0, m1);
        let t = (t0 + m1) as nat;
        let i: int = m1 as int;
        assert(line_cell(v, l, t0 + i) == player);
        assert(!is_hit(run_count(v, l, player, n, (t0 + i) as nat), line_cell(v, l, t0 + i), player, n));
        lemma_scan_step(v, l, player, n, t, (0, None));
        assert((t0 + m) as nat == t + 1);
    }
}

/// `n` coins of the player in a row along a line complete an alignment at
/// one of them.
proof fn lemma_run_hits(v: Seq<Seq<u8>>, l: (int, int, int, int, int), player: u8, n: u8, t0: nat)
    requires
        n >= 1,
        forall|i: int| 0 <= i < n ==> #[trigger] line_cell(v, l, t0 + i) == player,
    ensures
        exists|t: nat| t0 <= t < t0 + n && #[trigger] is_hit(run_count(v, l, player, n, t), line_cell(v, l, t as int), player, n),
{
    if !exists|t: nat| t0 <= t < t0 + n && #[trigger] is_hit(run_count(v, l, player, n, t), line_cell(v, l, t as int), player, n) {
        assert forall|i: int| 0 <= i < n implies !#[trigger] is_hit(run_count(v, l, player, n, (t0 + i) as nat), line_cell(v, l, t0 + i), player, n) by {
            let t = (t0 + i) as nat;
            assert(!is_hit(run_count(v, l, player, n, t), line_cell(v, l, t as int), player, n));
        }
        lemma_run_grows(v, l, player, n, t0, n as nat);
        lemma_run_count_below(v, l, player, n, t0);
        lemma_run_count_below(v, l, player, n, (t0 + n) as nat);
    }
}

proof fn lemma_scan_prefix_mono(v: Seq<Seq<u8>>, l: (int, int, int, int, int), player: u8, n: u8, t: nat, st: (int, Option<((int, int), (int, int))>))
    ensures
        scan_prefix(v, l, player, n, t, st).0 >= st.0,
    decreases t,
{
    if t > 0 {
        lemma_scan_prefix_mono(v, l, player, n, (t - 1) as nat, st);
    }
}

proof fn lemma_scan_prefix_hit(v: Seq<Seq<u8>>, l: (int, int, int, int, int), player: u8, n: u8, th: nat, t: nat, st: (int, Option<((int, int), (int, int))>))
    requires
        th < t,
        is_hit(run_count(v, l, player, n, th), line_cell(v, l, th as int), player, n),
    ensures
        scan_prefix(v, l, player, n, t, st).0 >= st.0 + 1,
    decreases t,
{
    if t == th + 1 {
        lemma_scan_prefix_mono(v, l, player, n, th, st);
        lemma_scan_step(v, l, player, n, th, st);
    } else {
        lemma_scan_prefix_hit(v, l, player, n, th, (t - 1) as nat, st);
        lemma_scan_step(v, l, player, n, (t - 1) as nat, st);
    }
}

proof fn lemma_scan_lines_mono(v: Seq<Seq<u8>>, ls: Seq<(int, int, int, int, int)>, player: u8, n: u8, k: int)
    requires
        0 <= k <= ls.len(),
    ensures
        scan_lines(v, ls, player, n).0 >= scan_lines(v, ls.take(k), player, n).0,
    decreases ls.len() - k,
{
    if k == ls.len() {
        assert(ls.take(k) =~= ls);
    } else {
        let d = ls.drop_last();
        lemma_scan_lines_mono(v, d, player, n, k);
        assert(d.take(k) =~= ls.take(k));
        lemma_scan_prefix_mono(v, ls.last(), player, n, ls.last().4 as nat, scan_lines(v, d, player, n));
    }
}

/// A line of the scan holding `n` coins of the player in a row makes the
/// count at least one.
proof fn lemma_line_found(v: Seq<Seq<u8>>, ls: Seq<(int, int, int, int, int)>, i: int, player: u8, n: u8, t0: nat)
    requires
        0 <= i < ls.len(),
        n >= 1,
        t0 + n <= ls[i].4,
        forall|j: int| 0 <= j < n ==> #[trigger] line_cell(v, ls[i], t0 + j) == player,
    ensures
        scan_lines(v, ls, player, n).0 >= 1,
{
    lemma_run_hits(v, ls[i], player, n, t0);
    let th = choose|t: nat| t0 <= t < t0 + n && #[trigger] is_hit(run_count(v, ls[i], player, n, t), line_cell(v, ls[i], t as int), player, n);
    let pre = ls.take(i + 1);
    assert(pre.last() == ls[i]);
    assert(pre.drop_last() =~= ls.take(i));
    lemma_scan_lines_mono(v, ls.take(i), player, n, 0);
    assert(ls.take(i).take(0) =~= Seq::<(int, int, int, int, int)>::empty());
    lemma_scan_prefix_hit(v, ls[i], player, n, th, ls[i].4 as nat, scan_lines(v, ls.take(i), player, n));
    lemma_scan_lines_mono(v, ls, player, n, i + 1);
}

/// Coins of the player stacked `n` high anywhere in a column in play, at
/// any height, are found: the count of alignments is at least one.
pub proof fn lemma_vertical_found(v: Seq<Seq<u8>>, player: u8, n: u8, max_width: int, x: int, y: int)
    requires
        n >= 1,
        0 <= x < max_width,
        0 <= y,
        y + n <= MAX_HEIGHT_SIZE,
        forall|j: int| 0 <= j < n ==> #[trigger] v[x][y + j] == player,
    ensures
        spec_aligned(v, player, n, max_width).0 >= 1,
{
    let ls = all_lines(max_width);
    let l = (x, 0int, 0int, 1int, 6int);
    assert(ls[x] == l);
    assert forall|j: int| 0 <= j < n implies #[trigger] line_cell(v, ls[x], y + j) == player by {
        assert(line_x(l, y + j) == x);
        assert(line_y(l, y + j) == y + j);
    }
    lemma_line_found(v, ls, x, player, n, y as nat);
}

/// Coins of the player side by side `n` long in a row, within the columns
/// in play, are found: the count of alignments is at least one.
pub proof fn lemma_horizontal_found(v: Seq<Seq<u8>>, player: u8, n: u8, max_width: int, x: int, y: int)
    requires
        n >= 1,
        0 <= y < MAX_HEIGHT_SIZE,
        0 <= x,
        x + n <= max_width,
        forall|j: int| 0 <= j < n ==> #[trigger] v[x + j][y] == player,
    ensures
        spec_aligned(v, player, n, max_width).0 >= 1,
{
    let ls = all_lines(max_width);
    let l = (0int, y, 1int, 0int, max_width);
    assert(ls[max_width + y] == l);
    assert forall|j: int| 0 <= j < n implies #[trigger] line_cell(v, ls[max_width + y], x + j) == player by {
        assert(line_x(l, x + j) == x + j);
        assert(line_y(l, x + j) == y);
    }
    lemma_line_found(v, ls, max_width + y, player, n, x as nat);
}

/// Coins of the player `n` long on one of the down-right diagonals the
/// search looks at (those starting on the top row at columns 1 to 7) are
/// found: the count of alignments is at least one.
pub proof fn lemma_diagonal_found(v: Seq<Seq<u8>>, player: u8, n: u8, max_width: int, c: int, t0: int)
    requires
        n >= 1,
        0 <= max_width,
        1 <= c <= 7,
        0 <= t0,
        t0 + n <= (if 8 - c < 6 { 8 - c } else { 6 }),
        forall|j: int| 0 <= j < n ==> #[trigger] v[c + t0 + j][5 - t0 - j] == player,
    ensures
        spec_aligned(v, player, n, max_width).0 >= 1,
{
    let ls = all_lines(max_width);
    let i = c - 1;
    let l = (i + 1, 5int, 1int, -1int, if 7 - i < 6 { 7 - i } else { 6 });
    assert(ls[max_width + 6 + i] == l);
    assert forall|j: int| 0 <= j < n implies #[trigger] line_cell(v, ls[max_width + 6 + i], t0 + j) == player by {
        assert(line_x(l, t0 + j) == c + t0 + j);
        assert(line_y(l, t0 + j) == 5 - t0 - j) by (nonlinear_arith)
            requires
                line_y(l, t0 + j) == 5 + (t0 + j) * -1,
        ;
    }
    lemma_line_found(v, ls, max_width + 6 + i, player, n, t0 as nat);
}

proof fn lemma_scan_lines_push(v: Seq<Seq<u8>>, done: Seq<(int, int, int, int, int)>, l: (int, int, int, int, int), player: u8, n: u8)
    ensures
        scan_lines(v, done.push(l), player, n) == scan_prefix(v, l, player, n, l.4 as nat, scan_lines(v, done, player, n)),
{
    assert(done.push(l).drop_last() =~= done);
}

/// Counts the times `number_of_coins` coins of `player` are aligned (a run
/// counts once per `number_of_coins` coins in it) in the first `max_width`
/// columns, the rows across them, and the down-right diagonals; gives the
/// ends of the first alignment found, columns first, then rows, then
/// diagonals.
pub fn look_for_aligned_coins(table: &heapless::Vec<heapless::Vec<u8, 6>, 8>, player: u8, number_of_coins: u8, max_width: usize) -> (r: (u8, (u16, u16), (u16, u16)))
    requires
        board_ok(board_view(*table)),
        max_width <= MAX_WIDTH_SIZE,
        number_of_coins >= 1,
    ensures
        enc(r) == spec_aligned(board_view(*table), player, number_of_coins, max_width as int),
        r.0 == 0 ==> r.1 == (0u16, 0u16) && r.2 == (0u16, 0u16),
{
    let ghost v = board_view(*table);
    let mut st: (u8, (u16, u16), (u16, u16)) = (0, (0, 0), (0, 0));
    let ghost mut done: Seq<(int, int, int, int, int)> = Seq::empty();
    let ghost cols = Seq::new(max_width as nat, |x: int| (x, 0int, 0int, 1int, 6int));
    let ghost rows = Seq::new(6, |y: int| (0int, y, 1int, 0int, max_width as int));
    let ghost diags = Seq::new(7, |i: int| (i + 1, 5int, 1int, -1int, if 7 - i < 6 { 7 - i } else { 6int }));
    let mut x: usize = 0;
    while x < max_width
        invariant
            v == board_view(*table),
            board_ok(v),
            max_width <= MAX_WIDTH_SIZE,
            number_of_coins >= 1,
            x <= max_width,
            cols == Seq::new(max_width as nat, |x: int| (x, 0int, 0int, 1int, 6int)),
            done =~= cols.take(x as int),
            enc(st) == scan_lines(v, done, player, number_of_coins),
            st.0 <= 6 * x,
            st.0 == 0 ==> st.1 == (0u16, 0u16) && st.2 == (0u16, 0u16),
        decreases max_width - x,
    {
        let ghost l = (x as int, 0int, 0int, 1int, 6int);
        assert(line_in_board(l)) by {
            assert forall|t: int| 0 <= t < l.4 implies 0 <= #[trigger] line_x(l, t) < MAX_WIDTH_SIZE && 0 <= line_y(l, t) < MAX_HEIGHT_SIZE by {
                assert(line_x(l, t) == x);
                assert(line_y(l, t) == t);
            }
        }
        proof {
            lemma_scan_lines_push(v, done, l, player, number_of_coins);
        }
        st = scan_line(table, player, number_of_coins, x, 0, 0, 1, 6, st);
        proof {
            done = done.push(l);
        }
        assert(done =~= cols.take(x + 1));
        x += 1;
    }
    let mut y: usize = 0;
    while y < MAX_HEIGHT_SIZE
        invariant
            v == board_view(*table),
            board_ok(v),
            max_width <= MAX_WIDTH_SIZE,
            number_of_coins >= 1,
            y <= MAX_HEIGHT_SIZE,
            rows == Seq::new(6, |y: int| (0int, y, 1int, 0int, max_width as int)),
            cols.len() == max_width,
            done =~= cols + rows.take(y as int),
            enc(st) == scan_lines(v, done, player, number_of_coins),
            st.0 <= 48 + 8 * y,
            st.0 == 0 ==> st.1 == (0u16, 0u16) && st.2 == (0u16, 0u16),
        decreases MAX_HEIGHT_SIZE - y,
    {
        let ghost l = (0int, y as int, 1int, 0int, max_width as int);
        assert(line_in_board(l)) by {
            assert forall|t: int| 0 <= t < l.4 implies 0 <= #[trigger] line_x(l, t) < MAX_WIDTH_SIZE && 0 <= line_y(l, t) < MAX_HEIGHT_SIZE by {
                assert(line_x(l, t) == t);
                assert(line_y(l, t) == y);
            }
        }
        proof {
            lemma_scan_lines_push(v, done, l, player, number_of_coins);
        }
        st = scan_line(table, player, number_of_coins, 0, y, 1, 0, max_width, st);
        proof {
            done = done.push(l);
        }
        assert(done =~= cols + rows.take(y + 1));
        y += 1;
    }
    let mut sx: usize = 1;
    while sx < MAX_WIDTH_SIZE
        invariant
            v == board_view(*table),
            board_ok(v),
            max_width <= MAX_WIDTH_SIZE,
            number_of_coins >= 1,
            1 <= sx <= MAX_WIDTH_SIZE,
            diags == Seq::new(7, |i: int| (i + 1, 5int, 1int, -1int, if 7 - i < 6 { 7 - i } else { 6int })),
            rows.len() == 6,
            done =~= cols + rows + diags.take(sx - 1),
            enc(st) == scan_lines(v, done, player, number_of_coins),
            st.0 <= 96 + 6 * sx,
            st.0 == 0 ==> st.1 == (0u16, 0u16) && st.2 == (0u16, 0u16),
        decreases MAX_WIDTH_SIZE - sx,
    {
        let len: usize = if MAX_WIDTH_SIZE - sx < MAX_HEIGHT_SIZE { MAX_WIDTH_SIZE - sx } else { MAX_HEIGHT_SIZE };
        let ghost l = (sx as int, 5int, 1int, -1int, len as int);
        assert(line_in_board(l)) by {
            assert forall|t: int| 0 <= t < l.4 implies 0 <= #[trigger] line_x(l, t) < MAX_WIDTH_SIZE && 0 <= line_y(l, t) < MAX_HEIGHT_SIZE by {
                assert(line_x(l, t) == sx + t);
                assert(line_y(l, t) == 5 - t);
            }
        }
        assert(l == diags[sx - 1]);
        proof {
            lemma_scan_lines_push(v, done, l, player, number_of_coins);
        }
        st = scan_line(table, player, number_of_coins, sx, 5, 1, -1, len, st);
        proof {
            done = done.push(l);
        }
        assert(done =~= cols + rows + diags.take(sx as int));
        sx += 1;
    }
    assert(done =~= all_lines(max_width as int));
    st
}

/// Whether a column has an empty cell.
pub open spec fn column_open(col: Seq<u8>) -> bool {
    exists|y: int| 0 <= y < col.len() && col[y] == EMPTY_CELL
}

/// The open columns among the first `k`, in order.
pub open spec fn valid_moves_prefix(v: Seq<Seq<u8>>, k: int) -> Seq<u8>
    decreases k,
{
    if k <= 0 {
        Seq::empty()
    } else if column_open(v[k - 1]) {
        valid_moves_prefix(v, k - 1).push((k - 1) as u8)
    } else {
        valid_moves_prefix(v, k - 1)
    }
}

proof fn lemma_valid_moves_prefix(v: Seq<Seq<u8>>, k: int)
    requires
        0 <= k <= 256,
    ensures
        valid_moves_prefix(v, k).len() <= k,
        forall|j: int| 0 <= j < valid_moves_prefix(v, k).len() ==> {
            let c = #[trigger] valid_moves_prefix(v, k)[j];
            &&& 0 <= c < k
            &&& column_open(v[c as int])
        },
    decreases k,
{
    if k > 0 {
        lemma_valid_moves_prefix(v, k - 1);
        let s = valid_moves_prefix(v, k);
        assert forall|j: int| 0 <= j < s.len() implies {
            let c = #[trigger] s[j];
            &&& 0 <= c < k
            &&& column_open(v[c as int])
        } by {
            if j < valid_moves_prefix(v, k - 1).len() {
                assert(s[j] == valid_moves_prefix(v, k - 1)[j]);
            }
        }
    }
}

/// Lists the columns that are not full, left first.
pub fn get_valid_moves(table: &heapless::Vec<heapless::Vec<u8, 6>, 8>) -> (m: heapless::Vec<u8, 8>)
    requires
        board_ok(board_view(*table)),
    ensures
        moves_view(m) == valid_moves_prefix(board_view(*table), MAX_WIDTH_SIZE as int),
{
    let ghost v = board_view(*table);
    let mut result_vec = moves_new();
    let mut i: usize = 0;
    while i < MAX_WIDTH_SIZE
        invariant
            v == board_view(*table),
            board_ok(v),
            i <= MAX_WIDTH_SIZE,
            moves_view(result_vec) == valid_moves_prefix(v, i as int),
        decreases MAX_WIDTH_SIZE - i,
    {
        proof {
            lemma_valid_moves_prefix(v, i as int);
        }
        let n = board_column_len(table, i);
        let mut open = false;
        let mut y: usize = 0;
        while y < n
            invariant
                v == board_view(*table),
                board_ok(v),
                i < MAX_WIDTH_SIZE,
                n == v[i as int].len(),
                y <= n,
                open == (exists|k: int| 0 <= k < y && v[i as int][k] == EMPTY_CELL),
            decreases n - y,
        {
            if board_cell(table, i, y) == EMPTY_CELL {
                open = true;
            }
            y += 1;
        }
        if open {
            let _ = moves_push(&mut result_vec, i as u8);
        }
        i += 1;
    }
    result_vec
}

/// `a + b` saturated to the range of `i16`.
pub open spec fn sat16(x: int) -> int {
    if x > i16::MAX { i16::MAX as int } else if x < i16::MIN { i16::MIN as int } else { x }
}

/// Weights of the computer's own alignments of 2, 3 and 4 coins.
pub open spec fn own_weight(n: int) -> int {
    if n == 2 { 50 } else if n == 3 { 100 } else { 5000 }
}

/// Weights of an opponent's alignments of 2, 3 and 4 coins.
pub open spec fn enemy_weight(n: int) -> int {
    if n == 2 { 10 } else if n == 3 { 70 } else { 5000 }
}

/// The score after adding the weighted alignments of `player` of 2, 3 and 4 coins to `acc`.
pub open spec fn own_score(v: Seq<Seq<u8>>, player: u8, mw: int, acc: int) -> int {
    let a2 = sat16(acc + own_weight(2) * spec_aligned(v, player, 2, mw).0);
    let a3 = sat16(a2 + own_weight(3) * spec_aligned(v, player, 3, mw).0);
    sat16(a3 + own_weight(4) * spec_aligned(v, player, 4, mw).0)
}

/// The score after taking off the weighted alignments of `d` of 2, 3 and 4 coins.
pub open spec fn enemy_score(v: Seq<Seq<u8>>, d: u8, mw: int, acc: int) -> int {
    let a2 = sat16(acc - enemy_weight(2) * spec_aligned(v, d, 2, mw).0);
    let a3 = sat16(a2 - enemy_weight(3) * spec_aligned(v, d, 3, mw).0);
    sat16(a3 - enemy_weight(4) * spec_aligned(v, d, 4, mw).0)
}

/// The score after taking off the alignments of the opponents `d..nb_players` of `player`.
pub open spec fn enemies_score(v: Seq<Seq<u8>>, player: u8, nb_players: u8, d: int, acc: int) -> int
    decreases nb_players - d,
{
    if d >= nb_players {
        acc
    } else if d == player {
        enemies_score(v, player, nb_players, d + 1, acc)
    } else {
        enemies_score(v, player, nb_players, d + 1, enemy_score(v, d as u8, columns_in_play(nb_players), acc))
    }
}

/// The score of a board for `player`: its alignments of 2, 3 and 4 coins
/// count for it, its opponents' count against it, with saturation.
pub open spec fn spec_evaluate(v: Seq<Seq<u8>>, player: u8, nb_players: u8) -> int {
    enemies_score(v, player, nb_players, 0, own_score(v, player, columns_in_play(nb_players), 0))
}

/// The weighted counts of four aligned coins fit in 16 bits for everyone.
pub open spec fn evaluate_ok(v: Seq<Seq<u8>>, nb_players: u8) -> bool {
    forall|d: u8| d < nb_players ==> #[trigger] spec_aligned(v, d, 4, columns_in_play(nb_players)).0 * 5000 <= i16::MAX
}

/// `a + b` saturated to the range of `i16`, as `i16::saturating_add`.
fn saturating_add_i16(a: i16, b: i16) -> (r: i16)
    ensures
        r == sat16(a + b),
{
    let s: i32 = a as i32 + b as i32;
    if s > i16::MAX as i32 {
        i16::MAX
    } else if s < i16::MIN as i32 {
        i16::MIN
    } else {
        s as i16
    }
}

/// `a - b` saturated to the range of `i16`, as `i16::saturating_sub`.
fn saturating_sub_i16(a: i16, b: i16) -> (r: i16)
    ensures
        r == sat16(a - b),
{
    let s: i32 = a as i32 - b as i32;
    if s > i16::MAX as i32 {
        i16::MAX
    } else if s < i16::MIN as i32 {
        i16::MIN
    } else {
        s as i16
    }
}

fn weighted(weight: i16, count: u8) -> (w: i16)
    requires
        0 <= weight,
        weight * count <= i16::MAX,
    ensures
        w == weight * count,
{
    weight * count as i16
}

/// Gives a value to a board: bonuses for the player's alignments (2, 3 and
/// 4 coins), penalties for the other players' ones.
pub fn evaluate_table(table: &heapless::Vec<heapless::Vec<u8, 6>, 8>, player: u8, nb_players: u8) -> (value: i16)
    requires
        board_ok(board_view(*table)),
        nb_players as int <= MAX_PLAYERS,
        player < nb_players,
        evaluate_ok(board_view(*table), nb_players),
    ensures
        value == spec_evaluate(board_view(*table), player, nb_players),
{
    let ghost v = board_view(*table);
    let mw: usize = MAX_WIDTH_SIZE - MAX_PLAYERS + nb_players as usize;
    assert(spec_aligned(v, player, 4, columns_in_play(nb_players)).0 * 5000 <= i16::MAX);
    let c2 = look_for_aligned_coins(table, player, 2, mw).0;
    let c3 = look_for_aligned_coins(table, player, 3, mw).0;
    let c4 = look_for_aligned_coins(table, player, 4, mw).0;
    let mut value: i16 = 0;
    value = saturating_add_i16(value, weighted(50, c2));
    value = saturating_add_i16(value, weighted(100, c3));
    value = saturating_add_i16(value, weighted(5000, c4));
    let mut d: u8 = 0;
    while d < nb_players
        invariant
            v == board_view(*table),
            board_ok(v),
            nb_players as int <= MAX_PLAYERS,
            mw == columns_in_play(nb_players),
            evaluate_ok(v, nb_players),
            d <= nb_players,
            enemies_score(v, player, nb_players, 0, own_score(v, player, mw as int, 0))
                == enemies_score(v, player, nb_players, d as int, value as int),
        decreases nb_players - d,
    {
        if d != player {
            assert(spec_aligned(v, d, 4, columns_in_play(nb_players)).0 * 5000 <= i16::MAX);
            let e2 = look_for_aligned_coins(table, d, 2, mw).0;
            let e3 = look_for_aligned_coins(table, d, 3, mw).0;
            let e4 = look_for_aligned_coins(table, d, 4, mw).0;
            value = saturating_sub_i16(value, weighted(10, e2));
            value = saturating_sub_i16(value, weighted(70, e3));
            value = saturating_sub_i16(value, weighted(5000, e4));
        }
        d += 1;
    }
    value
}

/// The player who has won a board, if any.
pub open spec fn winner_of(v: Seq<Seq<u8>>, nb_players: u8) -> Option<int> {
    match spec_check(v, nb_players) {
        Some(a) => Some(a.0),
        None => None,
    }
}

proof fn lemma_check_from_some(v: Seq<Seq<u8>>, nb_players: u8, i: int, p: int)
    requires
        0 <= i <= p < nb_players,
        spec_aligned(v, p as u8, 4, columns_in_play(nb_players)).0 >= 1,
    ensures
        spec_check_from(v, nb_players, i) matches Some(a) && a.0 <= p,
    decreases nb_players - i,
{
    if i < p && spec_aligned(v, i as u8, 4, columns_in_play(nb_players)).0 < 1 {
        lemma_check_from_some(v, nb_players, i + 1, p);
    }
}

/// A player with four coins stacked anywhere in a column in play, or side
/// by side in a row within the columns in play, wins the board: there is a
/// winner, that player or one checked before it.
pub proof fn lemma_four_wins(v: Seq<Seq<u8>>, nb_players: u8, p: u8, x: int, y: int, vertical: bool)
    requires
        p < nb_players,
        nb_players <= MAX_PLAYERS,
        vertical ==> {
            &&& 0 <= x < columns_in_play(nb_players)
            &&& 0 <= y && y + 4 <= MAX_HEIGHT_SIZE
            &&& forall|j: int| 0 <= j < 4 ==> #[trigger] v[x][y + j] == p
        },
        !vertical ==> {
            &&& 0 <= y < MAX_HEIGHT_SIZE
            &&& 0 <= x && x + 4 <= columns_in_play(nb_players)
            &&& forall|j: int| 0 <= j < 4 ==> #[trigger] v[x + j][y] == p
        },
    ensures
        spec_check(v, nb_players) matches Some(a) && a.0 <= p,
        winner_of(v, nb_players) is Some,
{
    if vertical {
        lemma_vertical_found(v, p, 4, columns_in_play(nb_players), x, y);
    } else {
        lemma_horizontal_found(v, p, 4, columns_in_play(nb_players), x, y);
    }
    lemma_check_from_some(v, nb_players, 0, p as int);
}

/// The board after player `player` drops a coin in column `c` (unchanged when it is full).
pub open spec fn spec_place(v: Seq<Seq<u8>>, c: int, player: u8) -> Seq<Seq<u8>> {
    if drop_height(v[c]) < v[c].len() {
        v.update(c, v[c].update(drop_height(v[c]), player))
    } else {
        v
    }
}

/// No board that the search evaluates overflows the score: at depth 0, on
/// a full board, and below every playable column, unless the player to move
/// has already won.
pub open spec fn search_ok(v: Seq<Seq<u8>>, player: u8, nb_players: u8, depth: u8) -> bool
    decreases depth, 1int,
{
    if depth == 0 {
        evaluate_ok(v, nb_players)
    } else if valid_moves_prefix(v, MAX_WIDTH_SIZE as int).len() == 0 {
        evaluate_ok(v, nb_players)
    } else if winner_of(v, nb_players) == Some(player as int) {
        true
    } else {
        &&& child_ok(v, player, nb_players, depth, 0)
        &&& child_ok(v, player, nb_players, depth, 1)
        &&& child_ok(v, player, nb_players, depth, 2)
        &&& child_ok(v, player, nb_players, depth, 3)
        &&& child_ok(v, player, nb_players, depth, 4)
        &&& child_ok(v, player, nb_players, depth, 5)
        &&& child_ok(v, player, nb_players, depth, 6)
        &&& child_ok(v, player, nb_players, depth, 7)
    }
}

/// The search is safe below the `j`-th playable column, if there is one.
pub open spec fn child_ok(v: Seq<Seq<u8>>, player: u8, nb_players: u8, depth: u8, j: int) -> bool
    decreases depth, 0int,
{
    if depth == 0 || j >= valid_moves_prefix(v, MAX_WIDTH_SIZE as int).len() {
        true
    } else {
        search_ok(
            spec_place(v, valid_moves_prefix(v, MAX_WIDTH_SIZE as int)[j] as int, player),
            ((player + 1) % (nb_players as int)) as u8,
            nb_players,
            (depth - 1) as u8,
        )
    }
}

/// Number of entries not yet tried among the first `k`.
pub open spec fn untried(done: Seq<bool>, k: int) -> int
    decreases k,
{
    if k <= 0 {
        0
    } else {
        untried(done, k - 1) + if done[k - 1] { 0int } else { 1int }
    }
}

proof fn lemma_untried_mark(done: Seq<bool>, k: int, j: int)
    requires
        0 <= j < k <= done.len(),
        !done[j],
    ensures
        untried(done.update(j, true), k) == untried(done, k) - 1,
    decreases k,
{
    if k - 1 > j {
        lemma_untried_mark(done, k - 1, j);
    } else {
        assert forall|i: int| 0 <= i < j implies done.update(j, true)[i] == done[i] by {}
        lemma_untried_same(done, done.update(j, true), j);
    }
}

proof fn lemma_untried_same(a: Seq<bool>, b: Seq<bool>, k: int)
    requires
        0 <= k <= a.len(),
        k <= b.len(),
        forall|i: int| 0 <= i < k ==> a[i] == b[i],
    ensures
        untried(a, k) == untried(b, k),
    decreases k,
{
    if k > 0 {
        lemma_untried_same(a, b, k - 1);
    }
}

proof fn lemma_untried_zero(done: Seq<bool>, k: int)
    requires
        0 <= k <= done.len(),
        untried(done, k) == 0,
    ensures
        forall|i: int| 0 <= i < k ==> done[i],
    decreases k,
{
    if k > 0 {
        lemma_untried_bound(done, k - 1);
        lemma_untried_zero(done, k - 1);
    }
}

/// The value for `orig` of the board `v` with `player` to move, searched
/// `depth` moves ahead: the score of the board when the search stops (no
/// depth left or no playable column), the best or worst score when the
/// player to move has already won (best when it is `orig`), else the best
/// (for `orig`) or the worst (for the other players) value over the
/// playable columns.
pub open spec fn spec_minimax(v: Seq<Seq<u8>>, orig: u8, player: u8, nb_players: u8, depth: u8) -> i16
    decreases depth, 1int, 0int,
{
    let vm = valid_moves_prefix(v, MAX_WIDTH_SIZE as int);
    if depth == 0 || vm.len() == 0 {
        spec_evaluate(v, orig, nb_players) as i16
    } else if winner_of(v, nb_players) == Some(player as int) {
        if player % nb_players == orig { i16::MAX } else { i16::MIN }
    } else {
        children_value(v, orig, player, nb_players, depth, vm.len() as int)
    }
}

/// The best (for `orig`) or worst (for the other players) value over the
/// first `n` playable columns of `v`; the lowest or highest score when
/// there is none.
pub open spec fn children_value(v: Seq<Seq<u8>>, orig: u8, player: u8, nb_players: u8, depth: u8, n: int) -> i16
    decreases depth, 0int, n,
{
    if depth == 0 || n <= 0 {
        if player % nb_players == orig { i16::MIN } else { i16::MAX }
    } else {
        let rest = children_value(v, orig, player, nb_players, depth, n - 1);
        let vm = valid_moves_prefix(v, MAX_WIDTH_SIZE as int);
        let cv = spec_minimax(
            spec_place(v, vm[n - 1] as int, player),
            orig,
            ((player + 1) % (nb_players as int)) as u8,
            nb_players,
            (depth - 1) as u8,
        );
        if player % nb_players == orig {
            if cv > rest { cv } else { rest }
        } else {
            if cv < rest { cv } else { rest }
        }
    }
}

/// The value of `player` dropping a coin in column `c`: the value of the
/// board it leaves, the next player to move, one move less ahead.
pub open spec fn move_value(v: Seq<Seq<u8>>, orig: u8, player: u8, nb_players: u8, depth: u8, c: int) -> i16 {
    spec_minimax(spec_place(v, c, player), orig, ((player + 1) % (nb_players as int)) as u8, nb_players, (depth - 1) as u8)
}

/// The value over the first `n` playable columns is the best (or worst)
/// of their move values, and is one of them.
proof fn lemma_children_value(v: Seq<Seq<u8>>, orig: u8, player: u8, nb_players: u8, depth: u8, n: int)
    requires
        depth >= 1,
        0 <= n <= valid_moves_prefix(v, MAX_WIDTH_SIZE as int).len(),
    ensures
        ({
            let vm = valid_moves_prefix(v, MAX_WIDTH_SIZE as int);
            let cv = children_value(v, orig, player, nb_players, depth, n);
            &&& player % nb_players == orig ==> forall|j: int| 0 <= j < n ==> #[trigger] move_value(v, orig, player, nb_players, depth, vm[j] as int) <= cv
            &&& player % nb_players != orig ==> forall|j: int| 0 <= j < n ==> #[trigger] move_value(v, orig, player, nb_players, depth, vm[j] as int) >= cv
            &&& n > 0 ==> exists|j: int| 0 <= j < n && #[trigger] move_value(v, orig, player, nb_players, depth, vm[j] as int) == cv
        }),
    decreases n,
{
    if n > 0 {
        lemma_children_value(v, orig, player, nb_players, depth, n - 1);
        let vm = valid_moves_prefix(v, MAX_WIDTH_SIZE as int);
        let last = move_value(v, orig, player, nb_players, depth, vm[n - 1] as int);
        let rest = children_value(v, orig, player, nb_players, depth, n - 1);
        assert(children_value(v, orig, player, nb_players, depth, n) == if player % nb_players == orig {
            if last > rest { last } else { rest }
        } else {
            if last < rest { last } else { rest }
        });
        if n - 1 > 0 {
            let i = choose|i: int| 0 <= i < n - 1 && #[trigger] move_value(v, orig, player, nb_players, depth, vm[i] as int) == rest;
            assert(move_value(v, orig, player, nb_players, depth, vm[i] as int) == rest);
        }
    }
}

proof fn lemma_untried_none(done: Seq<bool>, k: int)
    requires
        0 <= k <= done.len(),
        forall|i: int| 0 <= i < k ==> !done[i],
    ensures
        untried(done, k) == k,
    decreases k,
{
    if k > 0 {
        lemma_untried_none(done, k - 1);
    }
}

proof fn lemma_untried_bound(done: Seq<bool>, k: int)
    requires
        0 <= k <= done.len(),
    ensures
        0 <= untried(done, k) <= k,
    decreases k,
{
    if k > 0 {
        lemma_untried_bound(done, k - 1);
    }
}

/// Looks ahead `depth` moves, every player after the computer trying to
/// keep its score low, with alpha-beta cuts; gives the column chosen and the
/// score. The score is the value of the game tree (`spec_minimax`) when
/// that value lies strictly inside the window `(alpha, beta)`, and on the
/// same side of the window otherwise; with the whole `i16` range as window
/// it is the value itself, and the column chosen for the computer has that
/// value. The playable columns are tried in an order drawn from `random`:
/// each time, one of the columns not tried yet, chosen by the next number
/// modulo their count.
pub fn minimax<F: Fn() -> u32>(table: &heapless::Vec<heapless::Vec<u8, 6>, 8>, original_player: u8, player: u8, nb_players: u8, alpha: i16, beta: i16, depth: u8, random: &F) -> (r: (Option<u8>, i16))
    requires
        board_ok(board_view(*table)),
        1 <= nb_players <= MAX_PLAYERS,
        original_player < nb_players,
        player < nb_players,
        search_ok(board_view(*table), player, nb_players, depth),
        forall|u: ()| call_requires(*random, u),
        alpha < beta,
    ensures
        depth == 0 ==> r == (None::<u8>, spec_evaluate(board_view(*table), original_player, nb_players) as i16),
        depth > 0 && valid_moves_prefix(board_view(*table), MAX_WIDTH_SIZE as int).len() == 0 ==> r == (None::<u8>, spec_evaluate(board_view(*table), original_player, nb_players) as i16),
        depth > 0 && valid_moves_prefix(board_view(*table), MAX_WIDTH_SIZE as int).len() > 0 && !(winner_of(board_view(*table), nb_players) == Some(player as int)) ==> r.0 is Some,
        r.0 is Some ==> r.0->0 == 0 || valid_moves_prefix(board_view(*table), MAX_WIDTH_SIZE as int).contains(r.0->0),
        ({
            let v = board_view(*table);
            let vm = valid_moves_prefix(v, MAX_WIDTH_SIZE as int);
            depth > 0 && vm.len() > 0 && winner_of(v, nb_players) != Some(player as int) && player % nb_players == original_player ==> {
                &&& r.1 > i16::MIN ==> r.0 is Some && vm.contains(r.0->0)
                &&& r.1 == i16::MIN ==> r.0 == Some(0u8)
                &&& alpha == i16::MIN && beta == i16::MAX && r.1 > i16::MIN ==> move_value(
                    v,
                    original_player,
                    player,
                    nb_players,
                    depth,
                    r.0->0 as int,
                ) == r.1
            }
        }),
        ({
            let value = spec_minimax(board_view(*table), original_player, player, nb_players, depth);
            &&& alpha < value < beta ==> r.1 == value
            &&& value <= alpha ==> r.1 <= alpha
            &&& value >= beta ==> r.1 >= beta
        }),
    decreases depth,
{
    let ghost v = board_view(*table);
    if depth == 0 {
        return (None, evaluate_table(table, original_player, nb_players));
    }
    let maximizing = (player % nb_players) == original_player;
    let ghost alpha0 = alpha;
    let ghost beta0 = beta;
    let mut value: i16 = if maximizing { i16::MIN } else { i16::MAX };
    let mut alpha = alpha;
    let mut beta = beta;
    let mut best_move: u8 = 0;
    let valid_moves = get_valid_moves(table);
    let ghost valid = moves_view(valid_moves);
    proof {
        lemma_valid_moves_prefix(v, MAX_WIDTH_SIZE as int);
    }
    let k = moves_len(&valid_moves);
    if k == 0 {
        return (None, evaluate_table(table, original_player, nb_players));
    }
    let winner = check(table, nb_players);
    if let Some(x) = winner {
        if x.0 == player {
            return (None, if maximizing { i16::MAX } else { i16::MIN });
        }
    }
    let mut done: [bool; 8] = [false; 8];
    proof {
        lemma_untried_none(done@, k as int);
    }
    let mut remaining: usize = k;
    let next_player: u8 = (player + 1) % nb_players;
    while remaining > 0
        invariant_except_break
            alpha < beta,
        invariant
            v == board_view(*table),
            board_ok(v),
            1 <= nb_players <= MAX_PLAYERS,
            original_player < nb_players,
            player < nb_players,
            next_player == (player + 1) % (nb_players as int),
            depth > 0,
            valid == moves_view(valid_moves),
            valid == valid_moves_prefix(v, MAX_WIDTH_SIZE as int),
            k == valid.len(),
            0 < k <= 8,
            forall|j: int| 0 <= j < valid.len() ==> {
                let c = #[trigger] valid[j];
                &&& 0 <= c < 8
                &&& super::ia_p4::column_open(v[c as int])
            },
            !(winner_of(v, nb_players) == Some(player as int)),
            search_ok(v, player, nb_players, depth),
            forall|u: ()| call_requires(*random, u),
            remaining == untried(done@, k as int),
            remaining <= k,
            best_move == 0 || valid.contains(best_move),
            maximizing == (player % nb_players == original_player),
            maximizing ==> value > i16::MIN ==> valid.contains(best_move),
            maximizing ==> value == i16::MIN ==> best_move == 0,
            alpha0 < beta0,
            maximizing ==> beta == beta0 && alpha >= value && alpha >= alpha0 && (alpha == alpha0 || alpha == value),
            !maximizing ==> alpha == alpha0 && beta <= value && beta <= beta0 && (beta == beta0 || beta == value),
            maximizing && (forall|i: int| 0 <= i < k && #[trigger] done@[i] ==> move_value(v, original_player, player, nb_players, depth, valid[i] as int) <= alpha0) ==> value <= alpha0,
            maximizing && alpha < beta && (exists|i: int| 0 <= i < k && #[trigger] done@[i] && move_value(v, original_player, player, nb_players, depth, valid[i] as int) > alpha0) ==> {
                &&& forall|i: int| 0 <= i < k && #[trigger] done@[i] ==> move_value(v, original_player, player, nb_players, depth, valid[i] as int) <= value
                &&& exists|i: int| 0 <= i < k && #[trigger] done@[i] && move_value(v, original_player, player, nb_players, depth, valid[i] as int) == value
            },
            maximizing && alpha >= beta ==> value >= beta0 && exists|i: int| 0 <= i < k && #[trigger] done@[i] && move_value(v, original_player, player, nb_players, depth, valid[i] as int) >= beta0,
            maximizing && alpha0 == i16::MIN && beta0 == i16::MAX && value > i16::MIN ==> move_value(v, original_player, player, nb_players, depth, best_move as int) == value,
            !maximizing && (forall|i: int| 0 <= i < k && #[trigger] done@[i] ==> move_value(v, original_player, player, nb_players, depth, valid[i] as int) >= beta0) ==> value >= beta0,
            !maximizing && alpha < beta && (exists|i: int| 0 <= i < k && #[trigger] done@[i] && move_value(v, original_player, player, nb_players, depth, valid[i] as int) < beta0) ==> {
                &&& forall|i: int| 0 <= i < k && #[trigger] done@[i] ==> move_value(v, original_player, player, nb_players, depth, valid[i] as int) >= value
                &&& exists|i: int| 0 <= i < k && #[trigger] done@[i] && move_value(v, original_player, player, nb_players, depth, valid[i] as int) == value
            },
            !maximizing && alpha >= beta ==> value <= alpha0 && exists|i: int| 0 <= i < k && #[trigger] done@[i] && move_value(v, original_player, player, nb_players, depth, valid[i] as int) <= alpha0,
        ensures
            remaining == 0 || alpha >= beta,
        decreases remaining,
    {
        let rnd: u32 = random();
        let pick: usize = (rnd % (remaining as u32)) as usize;
        let mut j: usize = 0;
        let mut seen: usize = 0;
        while j < k
            invariant
                j <= k,
                k <= 8,
                seen == untried(done@, j as int),
                seen <= pick,
                pick < remaining,
                remaining == untried(done@, k as int),
            ensures
                j < k ==> !done@[j as int],
                j == k ==> seen == untried(done@, k as int),
            decreases k - j,
        {
            proof {
                lemma_untried_bound(done@, j as int);
            }
            if !done[j] {
                if seen == pick {
                    break;
                }
                seen += 1;
            }
            j += 1;
        }
        if j >= k {
            assert(false);
            break;
        }
        proof {
            lemma_untried_mark(done@, k as int, j as int);
        }
        let ghost done0 = done@;
        let ghost value0 = value;
        let ghost a = alpha;
        let ghost b = beta;
        done[j] = true;
        remaining -= 1;
        let col = moves_get(&valid_moves, j);
        assert(valid[j as int] == col);
        let mut copy = board_clone(table);
        proof {
            lemma_drop_height(v[col as int]);
        }
        let _ = place_coin_nodraw(col, player, &mut copy);
        assert(board_view(copy) == spec_place(v, col as int, player));
        assert(board_ok(board_view(copy)));
        proof {
            let vm = valid_moves_prefix(v, MAX_WIDTH_SIZE as int);
            assert(vm.len() > 0);
            assert(depth != 0);
            assert(winner_of(v, nb_players) != Some(player as int));
            assert(0 <= j < vm.len());
            assert(search_ok(v, player, nb_players, depth));
            assert(vm.len() <= 8);
            assert(child_ok(v, player, nb_players, depth, j as int));
            assert(search_ok(spec_place(v, vm[j as int] as int, player), ((player + 1) % (nb_players as int)) as u8, nb_players, (depth - 1) as u8));
        }
        assert(search_ok(board_view(copy), next_player, nb_players, (depth - 1) as u8));
        let (_, down_eval) = minimax(&copy, original_player, next_player, nb_players, alpha, beta, depth - 1, random);
        let ghost cv = move_value(v, original_player, player, nb_players, depth, col as int);
        proof {
            assert(cv == spec_minimax(board_view(copy), original_player, next_player, nb_players, (depth - 1) as u8));
            assert(cv == move_value(v, original_player, player, nb_players, depth, valid[j as int] as int));
            assert(forall|i: int| 0 <= i < k ==> #[trigger] done@[i] == (done0[i] || i == j));
        }
        if maximizing {
            if down_eval > value {
                value = down_eval;
                best_move = col;
            }
            if alpha < value {
                alpha = value;
            }
            if alpha >= beta {
                proof {
                    assert(cv >= beta0);
                    assert(done@[j as int] && move_value(v, original_player, player, nb_players, depth, valid[j as int] as int) >= beta0);
                }
                break;
            }
        } else {
            if value == i16::MIN || down_eval < value {
                value = down_eval;
                best_move = col;
            }
            if beta > value {
                beta = value;
            }
            if beta <= alpha {
                proof {
                    assert(cv <= alpha0);
                    assert(done@[j as int] && move_value(v, original_player, player, nb_players, depth, valid[j as int] as int) <= alpha0);
                }
                break;
            }
        }
        proof {
            let r = down_eval;
            if maximizing {
                if forall|i: int| 0 <= i < k && #[trigger] done@[i] ==> move_value(v, original_player, player, nb_players, depth, valid[i] as int) <= alpha0 {
                    assert forall|i: int| 0 <= i < k && #[trigger] done0[i] implies move_value(v, original_player, player, nb_players, depth, valid[i] as int) <= alpha0 by {
                        assert(done@[i]);
                    }
                    assert(value0 <= alpha0);
                    assert(done@[j as int]);
                    assert(cv <= alpha0);
                    assert(value <= alpha0);
                }
                if exists|i: int| 0 <= i < k && #[trigger] done@[i] && move_value(v, original_player, player, nb_players, depth, valid[i] as int) > alpha0 {
                    if exists|i: int| 0 <= i < k && #[trigger] done0[i] && move_value(v, original_player, player, nb_players, depth, valid[i] as int) > alpha0 {
                        let w = choose|i: int| 0 <= i < k && #[trigger] done0[i] && move_value(v, original_player, player, nb_players, depth, valid[i] as int) > alpha0;
                        assert(done@[w]);
                        let m = choose|i: int| 0 <= i < k && #[trigger] done0[i] && move_value(v, original_player, player, nb_players, depth, valid[i] as int) == value0;
                        assert(move_value(v, original_player, player, nb_players, depth, valid[w] as int) <= value0);
                        assert(value0 > alpha0);
                        assert(a == value0);
                        assert(done@[m]);
                        assert forall|i: int| 0 <= i < k && #[trigger] done@[i] implies move_value(v, original_player, player, nb_players, depth, valid[i] as int) <= value by {
                            if i != j {
                                assert(done0[i]);
                            }
                        }
                        if r > value0 {
                            assert(done@[j as int] && move_value(v, original_player, player, nb_players, depth, valid[j as int] as int) == value);
                        } else {
                            assert(done@[m] && move_value(v, original_player, player, nb_players, depth, valid[m] as int) == value);
                        }
                    } else {
                        assert forall|i: int| 0 <= i < k && #[trigger] done0[i] implies move_value(v, original_player, player, nb_players, depth, valid[i] as int) <= alpha0 by {
                            assert(done@[i]);
                        }
                        assert(value0 <= alpha0);
                        assert(a == alpha0);
                        let w = choose|i: int| 0 <= i < k && #[trigger] done@[i] && move_value(v, original_player, player, nb_players, depth, valid[i] as int) > alpha0;
                        if w != j {
                            assert(done0[w]);
                        }
                        assert(cv > alpha0);
                        assert(r == cv);
                        assert(value == cv);
                        assert forall|i: int| 0 <= i < k && #[trigger] done@[i] implies move_value(v, original_player, player, nb_players, depth, valid[i] as int) <= value by {
                            if i != j {
                                assert(done0[i]);
                            }
                        }
                        assert(done@[j as int] && move_value(v, original_player, player, nb_players, depth, valid[j as int] as int) == value);
                    }
                }
            } else {
                if forall|i: int| 0 <= i < k && #[trigger] done@[i] ==> move_value(v, original_player, player, nb_players, depth, valid[i] as int) >= beta0 {
                    assert forall|i: int| 0 <= i < k && #[trigger] done0[i] implies move_value(v, original_player, player, nb_players, depth, valid[i] as int) >= beta0 by {
                        assert(done@[i]);
                    }
                    assert(value0 >= beta0);
                    assert(done@[j as int]);
                    assert(cv >= beta0);
                    assert(value >= beta0);
                }
                if exists|i: int| 0 <= i < k && #[trigger] done@[i] && move_value(v, original_player, player, nb_players, depth, valid[i] as int) < beta0 {
                    if exists|i: int| 0 <= i < k && #[trigger] done0[i] && move_value(v, original_player, player, nb_players, depth, valid[i] as int) < beta0 {
                        let w = choose|i: int| 0 <= i < k && #[trigger] done0[i] && move_value(v, original_player, player, nb_players, depth, valid[i] as int) < beta0;
                        assert(done@[w]);
                        let m = choose|i: int| 0 <= i < k && #[trigger] done0[i] && move_value(v, original_player, player, nb_players, depth, valid[i] as int) == value0;
                        assert(move_value(v, original_player, player, nb_players, depth, valid[w] as int) >= value0);
                        assert(value0 < beta0);
                        assert(b == value0);
                        assert(done@[m]);
                        assert forall|i: int| 0 <= i < k && #[trigger] done@[i] implies move_value(v, original_player, player, nb_players, depth, valid[i] as int) >= value by {
                            if i != j {
                                assert(done0[i]);
                            }
                        }
                        if r < value0 {
                            assert(done@[j as int] && move_value(v, original_player, player, nb_players, depth, valid[j as int] as int) == value);
                        } else {
                            assert(done@[m] && move_value(v, original_player, player, nb_players, depth, valid[m] as int) == value);
                        }
                    } else {
                        assert forall|i: int| 0 <= i < k && #[trigger] done0[i] implies move_value(v, original_player, player, nb_players, depth, valid[i] as int) >= beta0 by {
                            assert(done@[i]);
                        }
                        assert(value0 >= beta0);
                        assert(b == beta0);
                        let w = choose|i: int| 0 <= i < k && #[trigger] done@[i] && move_value(v, original_player, player, nb_players, depth, valid[i] as int) < beta0;
                        if w != j {
                            assert(done0[w]);
                        }
                        assert(cv < beta0);
                        assert(r == cv);
                        assert(value == cv);
                        assert forall|i: int| 0 <= i < k && #[trigger] done@[i] implies move_value(v, original_player, player, nb_players, depth, valid[i] as int) >= value by {
                            if i != j {
                                assert(done0[i]);
                            }
                        }
                        assert(done@[j as int] && move_value(v, original_player, player, nb_players, depth, valid[j as int] as int) == value);
                    }
                }
            }
        }
    }
    proof {
        lemma_children_value(v, original_player, player, nb_players, depth, k as int);
        if remaining == 0 {
            lemma_untried_zero(done@, k as int);
        }
        let sv = spec_minimax(v, original_player, player, nb_players, depth);
        assert(sv == children_value(v, original_player, player, nb_players, depth, k as int));
        let n = choose|i: int| 0 <= i < k && #[trigger] move_value(v, original_player, player, nb_players, depth, valid[i] as int) == sv;
        if maximizing {
            if alpha >= beta {
                let w = choose|i: int| 0 <= i < k && #[trigger] done@[i] && move_value(v, original_player, player, nb_players, depth, valid[i] as int) >= beta0;
                assert(move_value(v, original_player, player, nb_players, depth, valid[w] as int) <= sv);
            } else {
                assert(remaining == 0);
                assert(done@[n]);
                if exists|i: int| 0 <= i < k && #[trigger] done@[i] && move_value(v, original_player, player, nb_players, depth, valid[i] as int) > alpha0 {
                    let m = choose|i: int| 0 <= i < k && #[trigger] done@[i] && move_value(v, original_player, player, nb_players, depth, valid[i] as int) == value;
                    assert(move_value(v, original_player, player, nb_players, depth, valid[m] as int) <= sv);
                    assert(sv <= value);
                } else {
                    assert(sv <= alpha0);
                }
            }
        } else {
            if alpha >= beta {
                let w = choose|i: int| 0 <= i < k && #[trigger] done@[i] && move_value(v, original_player, player, nb_players, depth, valid[i] as int) <= alpha0;
                assert(move_value(v, original_player, player, nb_players, depth, valid[w] as int) >= sv);
            } else {
                assert(remaining == 0);
                assert(done@[n]);
                if exists|i: int| 0 <= i < k && #[trigger] done@[i] && move_value(v, original_player, player, nb_players, depth, valid[i] as int) < beta0 {
                    let m = choose|i: int| 0 <= i < k && #[trigger] done@[i] && move_value(v, original_player, player, nb_players, depth, valid[i] as int) == value;
                    assert(move_value(v, original_player, player, nb_players, depth, valid[m] as int) >= sv);
                    assert(sv >= value);
                } else {
                    assert(sv >= beta0);
                }
            }
        }
    }
    (Some(best_move), value)
}

/// The column `c` is a best move for `player` looking `depth` moves ahead:
/// a playable column whose move value is the value of the board (the draws
/// only settle ties), or column 0 when that value is the lowest score.
pub open spec fn best_move_ok(v: Seq<Seq<u8>>, player: u8, nb_players: u8, depth: u8, c: u8) -> bool {
    let value = spec_minimax(v, player, player, nb_players, depth);
    &&& value == i16::MIN ==> c == 0
    &&& value > i16::MIN ==> valid_moves_prefix(v, MAX_WIDTH_SIZE as int).contains(c) && move_value(
        v,
        player,
        player,
        nb_players,
        depth,
        c as int,
    ) == value
}

/// The column the computer plays, looking `depth` moves ahead: a best
/// move (see `best_move_ok`), in particular 0 or a playable column.
pub fn find_best_move<F: Fn() -> u32>(table: &heapless::Vec<heapless::Vec<u8, 6>, 8>, player: u8, nb_players: u8, depth: u8, random: &F) -> (c: u8)
    requires
        board_ok(board_view(*table)),
        1 <= nb_players <= MAX_PLAYERS,
        player < nb_players,
        depth >= 1,
        valid_moves_prefix(board_view(*table), MAX_WIDTH_SIZE as int).len() > 0,
        winner_of(board_view(*table), nb_players) != Some(player as int),
        search_ok(board_view(*table), player, nb_players, depth),
        forall|u: ()| call_requires(*random, u),
    ensures
        c == 0 || valid_moves_prefix(board_view(*table), MAX_WIDTH_SIZE as int).contains(c),
        best_move_ok(board_view(*table), player, nb_players, depth, c),
{
    let (col, value) = minimax(table, player, player, nb_players, i16::MIN, i16::MAX, depth, random);
    proof {
        vstd::arithmetic::div_mod::lemma_small_mod(player as nat, nb_players as nat);
        assert(player % nb_players == player);
    }
    col.unwrap()
}

/// Whether the weighted counts of four aligned coins fit in 16 bits for every player.
pub fn evaluate_in_range(table: &heapless::Vec<heapless::Vec<u8, 6>, 8>, nb_players: u8) -> (b: bool)
    requires
        board_ok(board_view(*table)),
        nb_players as int <= MAX_PLAYERS,
    ensures
        b == evaluate_ok(board_view(*table), nb_players),
{
    let ghost v = board_view(*table);
    let mw: usize = MAX_WIDTH_SIZE - MAX_PLAYERS + nb_players as usize;
    let mut d: u8 = 0;
    while d < nb_players
        invariant
            v == board_view(*table),
            board_ok(v),
            nb_players as int <= MAX_PLAYERS,
            mw == columns_in_play(nb_players),
            d <= nb_players,
            forall|e: u8| e < d ==> #[trigger] spec_aligned(v, e, 4, columns_in_play(nb_players)).0 * 5000 <= i16::MAX,
        decreases nb_players - d,
    {
        let c = look_for_aligned_coins(table, d, 4, mw).0;
        if c as u32 * 5000 > i16::MAX as u32 {
            assert(!evaluate_ok(v, nb_players)) by {
                assert(spec_aligned(v, d, 4, columns_in_play(nb_players)).0 * 5000 > i16::MAX);
            }
            return false;
        }
        d += 1;
    }
    true
}

/// Whether no board that a search of `depth` moves evaluates overflows the
/// score (see `search_ok`); it walks the same boards as the search.
pub fn search_is_safe(table: &heapless::Vec<heapless::Vec<u8, 6>, 8>, player: u8, nb_players: u8, depth: u8) -> (b: bool)
    requires
        board_ok(board_view(*table)),
        1 <= nb_players <= MAX_PLAYERS,
        player < nb_players,
    ensures
        b == search_ok(board_view(*table), player, nb_players, depth),
    decreases depth,
{
    let ghost v = board_view(*table);
    if depth == 0 {
        return evaluate_in_range(table, nb_players);
    }
    let valid_moves = get_valid_moves(table);
    let ghost valid = moves_view(valid_moves);
    proof {
        lemma_valid_moves_prefix(v, MAX_WIDTH_SIZE as int);
    }
    let k = moves_len(&valid_moves);
    if k == 0 {
        return evaluate_in_range(table, nb_players);
    }
    if let Some(a) = check(table, nb_players) {
        if a.0 == player {
            return true;
        }
    }
    assert(winner_of(v, nb_players) != Some(player as int));
    let next_player: u8 = (player + 1) % nb_players;
    let mut j: usize = 0;
    while j < k
        invariant
            v == board_view(*table),
            board_ok(v),
            1 <= nb_players <= MAX_PLAYERS,
            player < nb_players,
            next_player == (player + 1) % (nb_players as int),
            depth > 0,
            valid == moves_view(valid_moves),
            valid == valid_moves_prefix(v, MAX_WIDTH_SIZE as int),
            k == valid.len(),
            0 < k <= 8,
            j <= k,
            forall|i: int| 0 <= i < valid.len() ==> {
                let c = #[trigger] valid[i];
                &&& 0 <= c < 8
                &&& column_open(v[c as int])
            },
            forall|i: int| 0 <= i < j ==> #[trigger] child_ok(v, player, nb_players, depth, i),
            winner_of(v, nb_players) != Some(player as int),
        decreases k - j,
    {
        let col = moves_get(&valid_moves, j);
        assert(valid[j as int] == col);
        let mut copy = board_clone(table);
        proof {
            lemma_drop_height(v[col as int]);
        }
        let _ = place_coin_nodraw(col, player, &mut copy);
        assert(board_view(copy) == spec_place(v, col as int, player));
        let ok = search_is_safe(&copy, next_player, nb_players, depth - 1);
        if !ok {
            assert(!child_ok(v, player, nb_players, depth, j as int));
            assert(!search_ok(v, player, nb_players, depth)) by {
                let jj = j as int;
                if jj == 0 {
                } else if jj == 1 {
                } else if jj == 2 {
                } else if jj == 3 {
                } else if jj == 4 {
                } else if jj == 5 {
                } else if jj == 6 {
                } else {
                    assert(jj == 7);
                }
            }
            return false;
        }
        assert(child_ok(v, player, nb_players, depth, j as int));
        j += 1;
    }
    assert forall|i: int| 0 <= i < 8 implies #[trigger] child_ok(v, player, nb_players, depth, i) by {}
    assert(child_ok(v, player, nb_players, depth, 0));
    assert(child_ok(v, player, nb_players, depth, 1));
    assert(child_ok(v, player, nb_players, depth, 2));
    assert(child_ok(v, player, nb_players, depth, 3));
    assert(child_ok(v, player, nb_players, depth, 4));
    assert(child_ok(v, player, nb_players, depth, 5));
    assert(child_ok(v, player, nb_players, depth, 6));
    assert(child_ok(v, player, nb_players, depth, 7));
    true
}

/// The computer's move, checked: `None` when the board is not of full
/// size, the numbers of players or the depth are out of range, no column is
/// playable, the computer has already won, or some board of the search
/// would overflow its score; else the column that `find_best_move` gives.
pub fn computer_move<F: Fn() -> u32>(table: &heapless::Vec<heapless::Vec<u8, 6>, 8>, player: u8, nb_players: u8, depth: u8, random: &F) -> (r: Option<u8>)
    requires
        forall|u: ()| call_requires(*random, u),
    ensures
        r is Some <==> (board_ok(board_view(*table)) && 1 <= nb_players <= MAX_PLAYERS && player < nb_players && depth >= 1
            && valid_moves_prefix(board_view(*table), MAX_WIDTH_SIZE as int).len() > 0
            && winner_of(board_view(*table), nb_players) != Some(player as int)
            && search_ok(board_view(*table), player, nb_players, depth)),
        r matches Some(c) ==> c == 0 || valid_moves_prefix(board_view(*table), MAX_WIDTH_SIZE as int).contains(c),
        r matches Some(c) ==> best_move_ok(board_view(*table), player, nb_players, depth, c),
{
    if !board_is_standard(table) || nb_players < 1 || nb_players as usize > MAX_PLAYERS || player >= nb_players || depth == 0 {
        return None;
    }
    let valid_moves = get_valid_moves(table);
    if moves_len(&valid_moves) == 0 {
        return None;
    }
    if let Some(a) = check(table, nb_players) {
        if a.0 == player {
            return None;
        }
    }
    if !search_is_safe(table, player, nb_players, depth) {
        return None;
    }
    Some(find_best_move(table, player, nb_players, depth, random))
}

} // verus!
