//! Connect Four rules: dropping a coin in a column, finding aligned coins,
//! telling the winner, and telling a full board.

use vstd::prelude::*;

use crate::eadk::{key, key_bit, State};

use crate::puissance4::ia_p4::{enc, lemma_aligned_some, lemma_alignment_is_coins, look_for_aligned_coins, spec_aligned, straight_run};
use crate::puissance4::table::{board_cell, board_column_len, board_len, board_new, board_push, board_set, board_view, column_new, column_push, column_view};

verus! {

/// Most columns a board has (with three players).
pub const MAX_WIDTH_SIZE: usize = 8;

/// Rows of a board.
pub const MAX_HEIGHT_SIZE: usize = 6;

/// Most players in a game.
pub const MAX_PLAYERS: usize = 3;

/// The value of an empty cell; a coin is its player's number.
pub const EMPTY_CELL: u8 = 255;

/// A full-size board: 8 columns of 6 cells.
pub open spec fn board_ok(v: Seq<Seq<u8>>) -> bool {
    &&& v.len() == MAX_WIDTH_SIZE
    &&& forall|x: int| 0 <= x < MAX_WIDTH_SIZE ==> (#[trigger] v[x]).len() == MAX_HEIGHT_SIZE
}

/// An empty board, 8 columns of 6 empty cells.
pub open spec fn empty_board() -> Seq<Seq<u8>> {
    Seq::new(8, |x: int| Seq::new(6, |y: int| EMPTY_CELL))
}

/// Builds an empty board.
pub fn new_board() -> (b: heapless::Vec<heapless::Vec<u8, 6>, 8>)
    ensures
        board_view(b) == empty_board(),
        board_ok(board_view(b)),
{
    let mut table = board_new();
    let mut i: usize = 0;
    while i < MAX_WIDTH_SIZE
        invariant
            i <= MAX_WIDTH_SIZE,
            board_view(table) =~= empty_board().take(i as int),
        decreases MAX_WIDTH_SIZE - i,
    {
        let mut column = column_new();
        let mut j: usize = 0;
        while j < MAX_HEIGHT_SIZE
            invariant
                j <= MAX_HEIGHT_SIZE,
                column_view(column) =~= Seq::new(j as nat, |y: int| EMPTY_CELL),
            decreases MAX_HEIGHT_SIZE - j,
        {
            let _ = column_push(&mut column, EMPTY_CELL);
            j += 1;
        }
        let _ = board_push(&mut table, column);
        assert(column_view(column) =~= Seq::new(6, |y: int| EMPTY_CELL));
        i += 1;
    }
    assert(board_view(table) =~= empty_board());
    table
}

/// The height at which a coin dropped in a column stops: the first empty
/// cell from the bottom, or the column's length when it is full.
pub open spec fn drop_height(col: Seq<u8>) -> int
    decreases col.len(),
{
    if col.len() == 0 {
        0
    } else if col[0] == EMPTY_CELL {
        0
    } else {
        1 + drop_height(col.drop_first())
    }
}

/// The drop height is within the column, at an empty cell above filled ones.
pub proof fn lemma_drop_height(col: Seq<u8>)
    ensures
        0 <= drop_height(col) <= col.len(),
        drop_height(col) < col.len() ==> col[drop_height(col)] == EMPTY_CELL,
        forall|y: int| 0 <= y < drop_height(col) ==> col[y] != EMPTY_CELL,
    decreases col.len(),
{
    if col.len() > 0 && col[0] != EMPTY_CELL {
        lemma_drop_height(col.drop_first());
        assert forall|y: int| 0 <= y < drop_height(col) implies col[y] != EMPTY_CELL by {
            if y > 0 {
                assert(col[y] == col.drop_first()[y - 1]);
            }
        }
    }
}

/// Drops coin `number` in column `x` without drawing it; returns the
/// height where it lands (the column's length, with nothing written, when full).
pub fn place_coin_nodraw(x: u8, number: u8, table: &mut heapless::Vec<heapless::Vec<u8, 6>, 8>) -> (y: u16)
    requires
        (x as int) < board_view(*old(table)).len(),
        board_view(*old(table))[x as int].len() <= 6,
    ensures
        y == drop_height(board_view(*old(table))[x as int]),
        board_view(*final(table)) == (if y < board_view(*old(table))[x as int].len() {
            board_view(*old(table)).update(x as int, board_view(*old(table))[x as int].update(y as int, number))
        } else {
            board_view(*old(table))
        }),
{
    let ghost col = board_view(*table)[x as int];
    proof {
        lemma_drop_height(col);
    }
    let len = board_column_len(table, x as usize);
    let mut y: usize = 0;
    while y < len
        invariant
            len == col.len(),
            len <= 6,
            y <= len,
            col == board_view(*table)[x as int],
            board_view(*table) == board_view(*old(table)),
            (x as int) < board_view(*table).len(),
            forall|k: int| 0 <= k < y ==> col[k] != EMPTY_CELL,
            0 <= drop_height(col) <= col.len(),
            drop_height(col) < col.len() ==> col[drop_height(col)] == EMPTY_CELL,
            forall|k: int| 0 <= k < drop_height(col) ==> col[k] != EMPTY_CELL,
        decreases len - y,
    {
        if board_cell(table, x as usize, y) == EMPTY_CELL {
            board_set(table, x as usize, y, number);
            return y as u16;
        }
        y += 1;
    }
    y as u16
}

/// Whether every cell of the first `columns` columns holds a coin.
pub open spec fn spec_full(v: Seq<Seq<u8>>, columns: int) -> bool {
    forall|x: int, y: int| 0 <= x < columns && 0 <= y < v[x].len() ==> #[trigger] v[x][y] != EMPTY_CELL
}

/// Whether the board is full (the game ends in a tie): the columns in play
/// (8 with three players, one fewer per missing player) hold no empty cell.
pub fn table_is_full(table: &heapless::Vec<heapless::Vec<u8, 6>, 8>, players: u8) -> (full: bool)
    requires
        players as int <= MAX_PLAYERS,
        board_view(*table).len() >= MAX_PLAYERS - players,
    ensures
        full == spec_full(board_view(*table), board_view(*table).len() - (MAX_PLAYERS - players)),
{
    let ghost v = board_view(*table);
    let range_x: usize = board_len(table) - (MAX_PLAYERS - players as usize);
    let mut i: usize = 0;
    while i < range_x
        invariant
            v == board_view(*table),
            range_x == v.len() - (MAX_PLAYERS - players),
            players as int <= MAX_PLAYERS,
            i <= range_x,
            spec_full(v, i as int),
        decreases range_x - i,
    {
        let n = board_column_len(table, i);
        let mut j: usize = 0;
        while j < n
            invariant
                v == board_view(*table),
                i < range_x,
                range_x <= v.len(),
                range_x == v.len() - (MAX_PLAYERS - players),
                n == v[i as int].len(),
                j <= n,
                spec_full(v, i as int),
                forall|k: int| 0 <= k < j ==> v[i as int][k] != EMPTY_CELL,
            decreases n - j,
        {
            if board_cell(table, i, j) == EMPTY_CELL {
                assert(v[i as int][j as int] == EMPTY_CELL);
                return false;
            }
            j += 1;
        }
        assert(spec_full(v, i + 1)) by {
            assert forall|x: int, y: int| 0 <= x < i + 1 && 0 <= y < v[x].len() implies #[trigger] v[x][y] != EMPTY_CELL by {
                if x < i {
                } else {
                    assert(v[i as int][y] != EMPTY_CELL);
                }
            }
        }
        i += 1;
    }
    true
}

/// An alignment of coins of player `.0`, from `.1` to `.2` (column, row).
#[derive(Clone, Copy, Debug)]
pub struct Alignment(pub u8, pub (u16, u16), pub (u16, u16));

/// Columns in play with `nb_players` players: 8 with three, one fewer per missing player.
pub open spec fn columns_in_play(nb_players: u8) -> int {
    MAX_WIDTH_SIZE - MAX_PLAYERS + nb_players
}

/// The ends of the longest alignment of `i` found by lengthening from
/// `p` on (up to 7), starting from ends `cur`: the search stops at the
/// first length with no alignment.
pub open spec fn spec_extend(v: Seq<Seq<u8>>, i: u8, mw: int, p: int, cur: ((int, int), (int, int))) -> ((int, int), (int, int))
    decreases 8 - p,
{
    if p >= 8 {
        cur
    } else if spec_aligned(v, i, p as u8, mw).0 >= 1 {
        spec_extend(v, i, mw, p + 1, spec_aligned(v, i, p as u8, mw).1->0)
    } else {
        cur
    }
}

/// The first player, from `i` on, with four aligned coins, and the ends of
/// its longest alignment.
pub open spec fn spec_check_from(v: Seq<Seq<u8>>, nb_players: u8, i: int) -> Option<(int, ((int, int), (int, int)))>
    decreases nb_players - i,
{
    if i >= nb_players {
        None
    } else if spec_aligned(v, i as u8, 4, columns_in_play(nb_players)).0 >= 1 {
        Some((i, spec_extend(v, i as u8, columns_in_play(nb_players), 5, spec_aligned(v, i as u8, 4, columns_in_play(nb_players)).1->0)))
    } else {
        spec_check_from(v, nb_players, i + 1)
    }
}

/// The winner of a board and its line, as numbers.
pub open spec fn spec_check(v: Seq<Seq<u8>>, nb_players: u8) -> Option<(int, ((int, int), (int, int)))> {
    spec_check_from(v, nb_players, 0)
}

/// An alignment as numbers.
pub open spec fn alignment_view(a: Alignment) -> (int, ((int, int), (int, int))) {
    (a.0 as int, ((a.1.0 as int, a.1.1 as int), (a.2.0 as int, a.2.1 as int)))
}

/// Finds the winner: the first player with four aligned coins, with the
/// two ends of its alignment, lengthened as far as it goes (up to 7 coins).
pub fn check(table: &heapless::Vec<heapless::Vec<u8, 6>, 8>, nb_players: u8) -> (r: Option<Alignment>)
    requires
        board_ok(board_view(*table)),
        nb_players as int <= MAX_PLAYERS,
    ensures
        r is None <==> spec_check(board_view(*table), nb_players) is None,
        r is Some ==> alignment_view(r->0) == spec_check(board_view(*table), nb_players)->0,
{
    let ghost v = board_view(*table);
    let mw: usize = MAX_WIDTH_SIZE - MAX_PLAYERS + nb_players as usize;
    let mut i: u8 = 0;
    while i < nb_players
        invariant
            v == board_view(*table),
            board_ok(v),
            nb_players as int <= MAX_PLAYERS,
            mw == columns_in_play(nb_players),
            i <= nb_players,
            spec_check(v, nb_players) == spec_check_from(v, nb_players, i as int),
        decreases nb_players - i,
    {
        let (count, first0, last0) = look_for_aligned_coins(table, i, 4, mw);
        if count >= 1 {
            let mut first = first0;
            let mut last = last0;
            let mut p: u8 = 5;
            while p < 8
                invariant
                    v == board_view(*table),
                    board_ok(v),
                    mw == columns_in_play(nb_players),
                    mw <= MAX_WIDTH_SIZE,
                    5 <= p <= 8,
                    spec_extend(v, i, mw as int, p as int, ((first.0 as int, first.1 as int), (last.0 as int, last.1 as int)))
                        == spec_extend(v, i, mw as int, 5, spec_aligned(v, i, 4, mw as int).1->0),
                ensures
                    ((first.0 as int, first.1 as int), (last.0 as int, last.1 as int)) == spec_extend(v, i, mw as int, 5, spec_aligned(v, i, 4, mw as int).1->0),
                decreases 8 - p,
            {
                let (count_more, first_more, last_more) = look_for_aligned_coins(table, i, p, mw);
                if count_more >= 1 {
                    first = first_more;
                    last = last_more;
                } else {
                    break;
                }
                p += 1;
            }
            return Some(Alignment(i, first, last));
        }
        i += 1;
    }
    None
}

proof fn lemma_extend_straight(v: Seq<Seq<u8>>, i: u8, mw: int, p: int, cur: ((int, int), (int, int)), m: int)
    requires
        4 <= p,
        m >= 4,
        straight_run(v, i, m, cur.0, cur.1),
    ensures
        exists|m2: int| m2 >= 4 && #[trigger] straight_run(v, i, m2, spec_extend(v, i, mw, p, cur).0, spec_extend(v, i, mw, p, cur).1),
    decreases 8 - p,
{
    let r = spec_extend(v, i, mw, p, cur);
    if p >= 8 {
        assert(straight_run(v, i, m, r.0, r.1));
    } else if spec_aligned(v, i, p as u8, mw).0 >= 1 {
        lemma_aligned_some(v, i, p as u8, mw);
        lemma_alignment_is_coins(v, i, p as u8, mw);
        let e = spec_aligned(v, i, p as u8, mw).1->0;
        assert(((p as u8) as int) == p);
        assert(straight_run(v, i, p, e.0, e.1));
        lemma_extend_straight(v, i, mw, p + 1, e, p);
        assert(r == spec_extend(v, i, mw, p + 1, e));
    } else {
        assert(straight_run(v, i, m, r.0, r.1));
    }
}

proof fn lemma_check_from_line(v: Seq<Seq<u8>>, nb_players: u8, i: int)
    requires
        0 <= i,
    ensures
        spec_check_from(v, nb_players, i) is Some ==> {
            let w = spec_check_from(v, nb_players, i)->0;
            &&& i <= w.0 < nb_players
            &&& exists|m: int| m >= 4 && #[trigger] straight_run(v, w.0 as u8, m, (w.1).0, (w.1).1)
        },
    decreases nb_players - i,
{
    if i >= nb_players {
    } else if spec_aligned(v, i as u8, 4, columns_in_play(nb_players)).0 >= 1 {
        let mw = columns_in_play(nb_players);
        lemma_aligned_some(v, i as u8, 4, mw);
        lemma_alignment_is_coins(v, i as u8, 4, mw);
        let e = spec_aligned(v, i as u8, 4, mw).1->0;
        assert(straight_run(v, i as u8, 4, e.0, e.1));
        lemma_extend_straight(v, i as u8, mw, 5, e, 4);
        assert(((i as u8) as int) == i);
        let x = spec_extend(v, i as u8, mw, 5, e);
        let m2 = choose|m2: int| m2 >= 4 && #[trigger] straight_run(v, i as u8, m2, x.0, x.1);
        let w = spec_check_from(v, nb_players, i)->0;
        assert(w == (i, x));
        assert(straight_run(v, w.0 as u8, m2, (w.1).0, (w.1).1));
    } else {
        lemma_check_from_line(v, nb_players, i + 1);
    }
}

/// The winner reported by `check` is a player of the game, and the line
/// between the two ends reported holds at least four of its coins, in a
/// straight line.
pub proof fn lemma_winner_line(v: Seq<Seq<u8>>, nb_players: u8)
    ensures
        spec_check(v, nb_players) is Some ==> {
            let w = spec_check(v, nb_players)->0;
            &&& 0 <= w.0 < nb_players
            &&& exists|m: int| m >= 4 && #[trigger] straight_run(v, w.0 as u8, m, (w.1).0, (w.1).1)
        },
{
    lemma_check_from_line(v, nb_players, 0);
}

/// How far the computer looks ahead: the turn number at the start of the
/// game, to play faster, then its strength.
pub fn ai_depth(count_turns: u8, ia_strength: u8) -> (d: u8)
    ensures
        d == (if count_turns < ia_strength { count_turns } else { ia_strength }),
{
    if count_turns < ia_strength {
        count_turns
    } else {
        ia_strength
    }
}

/// Whether a coin can go in column `pos`: its top cell is empty.
pub fn column_playable(table: &heapless::Vec<heapless::Vec<u8, 6>, 8>, pos: u16) -> (b: bool)
    requires
        (pos as int) < board_view(*table).len(),
    ensures
        b == (board_view(*table)[pos as int].len() > 0 && board_view(*table)[pos as int].last() == EMPTY_CELL),
{
    let n = board_column_len(table, pos as usize);
    if n == 0 {
        false
    } else {
        board_cell(table, pos as usize, n - 1) == EMPTY_CELL
    }
}

/// The pause between two moves of the cursor while a key is held, in ms.
pub const REPETITION_SPEED: u64 = 250;

/// The cursor above the grid: its column, the time of its last move and
/// the key that moved it.
#[derive(Clone, Copy, Debug, PartialEq, Eq, Structural)]
pub struct Selection {
    pub pos: u16,
    pub last_action: u64,
    pub last_action_key: u32,
}

/// What the cursor did in one step.
#[derive(Clone, Copy, Debug, PartialEq, Eq, Structural)]
pub enum SelectionEvent {
    /// It moved from column `from` (redraw it).
    Moved { from: u16 },
    /// Nothing to redraw.
    Idle,
    /// The player chose the current column.
    Confirmed,
}

/// The last column the cursor can reach with `nb_players` players.
pub open spec fn last_column(nb_players: u8) -> int {
    MAX_WIDTH_SIZE - 1 - MAX_PLAYERS + nb_players
}

impl Selection {
    /// A cursor over column `initial_pos` at time `now`, moved by no key yet.
    pub fn new(initial_pos: u16, now: u64) -> (s: Self)
        ensures
            s == (Selection { pos: initial_pos, last_action: now, last_action_key: key::ALPHA }),
    {
        Selection { pos: initial_pos, last_action: now, last_action_key: key::ALPHA }
    }

    /// One step of the cursor at time `now` with the keys held: Left and
    /// Right move it (at most every 250 ms while held, within the columns
    /// in play), OK or Down choose the column, releasing the key that
    /// moved it allows an immediate new move.
    pub fn step(&mut self, keys: &State, now: u64, nb_players: u8) -> (e: SelectionEvent)
        requires
            old(self).last_action + REPETITION_SPEED <= u64::MAX,
            now >= REPETITION_SPEED,
            nb_players as int <= MAX_PLAYERS,
        ensures
            ({
                let k = keys@;
                let o = *old(self);
                let moving = (key_bit(k, key::LEFT) || key_bit(k, key::RIGHT)) && now >= o.last_action + REPETITION_SPEED;
                if moving {
                    let new_pos = if key_bit(k, key::LEFT) {
                        if o.pos >= 1 { o.pos - 1 } else { 0 }
                    } else if o.pos < last_column(nb_players) {
                        o.pos + 1
                    } else {
                        o.pos as int
                    };
                    &&& final(self).pos == new_pos
                    &&& final(self).last_action == now
                    &&& final(self).last_action_key == (if key_bit(k, key::LEFT) { key::LEFT } else { key::RIGHT })
                    &&& e == (if new_pos != o.pos { SelectionEvent::Moved { from: o.pos } } else { SelectionEvent::Idle })
                } else if key_bit(k, key::OK) || key_bit(k, key::DOWN) {
                    *final(self) == o && e == SelectionEvent::Confirmed
                } else if !key_bit(k, o.last_action_key) {
                    *final(self) == (Selection { last_action: (now - REPETITION_SPEED) as u64, ..o }) && e == SelectionEvent::Idle
                } else {
                    *final(self) == o && e == SelectionEvent::Idle
                }
            }),
    {
        if (keys.key_down(key::LEFT) || keys.key_down(key::RIGHT)) && now >= self.last_action + REPETITION_SPEED {
            let old_pos = self.pos;
            if keys.key_down(key::LEFT) {
                self.last_action_key = key::LEFT;
                self.pos = self.pos.saturating_sub(1);
            } else {
                self.last_action_key = key::RIGHT;
                if self.pos < MAX_WIDTH_SIZE as u16 - 1 - (MAX_PLAYERS as u16) + (nb_players as u16) {
                    self.pos = self.pos + 1;
                }
            }
            self.last_action = now;
            if old_pos != self.pos {
                SelectionEvent::Moved { from: old_pos }
            } else {
                SelectionEvent::Idle
            }
        } else if keys.key_down(key::OK) || keys.key_down(key::DOWN) {
            SelectionEvent::Confirmed
        } else {
            if !keys.key_down(self.last_action_key) {
                self.last_action = now - REPETITION_SPEED;
            }
            SelectionEvent::Idle
        }
    }
}

/// Whether a board has the full size: 8 columns of 6 cells.
pub fn board_is_standard(table: &heapless::Vec<heapless::Vec<u8, 6>, 8>) -> (b: bool)
    ensures
        b == board_ok(board_view(*table)),
{
    if board_len(table) != MAX_WIDTH_SIZE {
        return false;
    }
    let mut x: usize = 0;
    while x < MAX_WIDTH_SIZE
        invariant
            board_view(*table).len() == MAX_WIDTH_SIZE,
            x <= MAX_WIDTH_SIZE,
            forall|i: int| 0 <= i < x ==> (#[trigger] board_view(*table)[i]).len() == MAX_HEIGHT_SIZE,
        decreases MAX_WIDTH_SIZE - x,
    {
        if board_column_len(table, x) != MAX_HEIGHT_SIZE {
            return false;
        }
        x += 1;
    }
    true
}

/// The outcome of a coin dropped by a player.
#[derive(Clone, Copy, Debug)]
pub enum Turn {
    /// The coin landed at this height and nobody won; `full` tells a tie.
    Placed { y: u16, full: bool },
    /// The coin landed at this height and made this alignment.
    Won { y: u16, alignment: Alignment },
}

/// One turn of a player: drops its coin in column `x`, then looks for a
/// winner and for a full board. `None` when the board is not of full size,
/// the number of players is not 1 to 3, or the column is not playable.
pub fn play_column(table: &mut heapless::Vec<heapless::Vec<u8, 6>, 8>, x: u8, player: u8, nb_players: u8) -> (r: Option<Turn>)
    ensures
        r is None <==> !(board_ok(board_view(*old(table))) && 1 <= nb_players <= MAX_PLAYERS && (x as int) < MAX_WIDTH_SIZE
            && board_view(*old(table))[x as int].last() == EMPTY_CELL),
        r is None ==> board_view(*final(table)) == board_view(*old(table)),
        r is Some ==> ({
            let col = board_view(*old(table))[x as int];
            let y = drop_height(col);
            let v = board_view(*old(table)).update(x as int, col.update(y, player));
            &&& board_view(*final(table)) == v
            &&& match r->0 {
                Turn::Placed { y: yy, full } => yy == y && spec_check(v, nb_players) is None && full == spec_full(v, v.len() - (MAX_PLAYERS - nb_players)),
                Turn::Won { y: yy, alignment } => yy == y && spec_check(v, nb_players) is Some && alignment_view(alignment) == spec_check(v, nb_players)->0,
            }
        }),
{
    if !board_is_standard(table) || nb_players < 1 || nb_players as usize > MAX_PLAYERS || x as usize >= MAX_WIDTH_SIZE {
        return None;
    }
    if !column_playable(table, x as u16) {
        return None;
    }
    proof {
        lemma_drop_height(board_view(*table)[x as int]);
    }
    let y = place_coin_nodraw(x, player, table);
    assert(board_ok(board_view(*table)));
    match check(table, nb_players) {
        Some(a) => Some(Turn::Won { y, alignment: a }),
        None => Some(Turn::Placed { y, full: table_is_full(table, nb_players) }),
    }
}

} // verus!
