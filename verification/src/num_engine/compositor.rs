//! Interlacing patterns and the compositor's dirty-span scheduling.

use vstd::prelude::*;

use crate::eadk::Color;
use crate::num_engine::bits::{bit_set, lemma_and_not_bit, low_mask};
use crate::num_engine::dirty_grid::DirtyGrid;

verus! {

/// Interlacing patterns used to skip half of the cell work on heavy frames.
#[derive(Clone, Copy, Debug, PartialEq, Eq, Structural)]
pub enum InterlaceMode {
    /// Every cell every frame.
    Off,
    /// Odd and even columns on alternate frames.
    Columns,
    /// Odd and even rows on alternate frames.
    Rows,
    /// A checkerboard of cells on alternate frames.
    Checkerboard,
}

impl InterlaceMode {
    pub open spec fn spec_allows_column(self, cx: int, phase: int) -> bool {
        match self {
            InterlaceMode::Columns => cx % 2 == phase,
            _ => true,
        }
    }

    pub open spec fn spec_allows_cell(self, cx: int, cy: int, phase: int) -> bool {
        match self {
            InterlaceMode::Off | InterlaceMode::Columns => true,
            InterlaceMode::Rows => cy % 2 == phase,
            InterlaceMode::Checkerboard => (cx + cy) % 2 == phase,
        }
    }

    /// Whether column `cx` is drawn in this frame phase.
    pub fn allows_column(self, cx: usize, phase: usize) -> (r: bool)
        ensures
            r == self.spec_allows_column(cx as int, phase as int),
    {
        match self {
            InterlaceMode::Columns => (cx % 2) == phase,
            _ => true,
        }
    }

    /// Whether cell `(cx, cy)` is drawn in this frame phase.
    pub fn allows_cell(self, cx: usize, cy: usize, phase: usize) -> (r: bool)
        requires
            cx + cy <= usize::MAX,
        ensures
            r == self.spec_allows_cell(cx as int, cy as int, phase as int),
    {
        match self {
            InterlaceMode::Off | InterlaceMode::Columns => true,
            InterlaceMode::Rows => (cy % 2) == phase,
            InterlaceMode::Checkerboard => ((cx + cy) % 2) == phase,
        }
    }
}

/// Rows and checkerboard interlacing draw each cell in exactly one of two
/// consecutive frames (phases 0 and 1); without interlacing, or by columns,
/// every cell passes the cell test in both.
pub proof fn lemma_interlace_alternates(mode: InterlaceMode, cx: int, cy: int)
    requires
        cx >= 0,
        cy >= 0,
    ensures
        (mode is Rows || mode is Checkerboard) ==> mode.spec_allows_cell(cx, cy, 0) != mode.spec_allows_cell(cx, cy, 1),
        (mode is Off || mode is Columns) ==> mode.spec_allows_cell(cx, cy, 0) && mode.spec_allows_cell(cx, cy, 1),
{
}

/// Where the walk over the dirty spans stands: the columns below `col`
/// are still to visit, from the rightmost, and the column `col - 1` from
/// row `y`.
#[derive(Clone, Copy, Debug, PartialEq, Eq, Structural)]
pub struct SpanCursor {
    pub col: usize,
    pub y: usize,
}

/// The cell filter of the discrete rendering path: alternate rows, or a checkerboard.
#[derive(Clone, Copy, Debug)]
pub enum FilterKind {
    Rows(usize),
    Checkerboard(usize),
}

impl FilterKind {
    /// Whether cell `(cx, cy)` passes the filter.
    pub fn should_draw(&self, cx: usize, cy: usize) -> (r: bool)
        requires
            cx + cy <= usize::MAX,
        ensures
            r == match *self {
                FilterKind::Rows(phase) => cy % 2 == phase,
                FilterKind::Checkerboard(phase) => (cx + cy) % 2 == phase,
            },
    {
        match *self {
            FilterKind::Rows(phase) => {
                assert(cy & 1 == cy % 2) by (bit_vector);
                (cy & 1) == phase
            },
            FilterKind::Checkerboard(phase) => {
                let s: usize = cx + cy;
                assert(s & 1 == s % 2) by (bit_vector);
                (s & 1) == phase
            },
        }
    }
}

/// Holds the dirty grid, the clear color and the frame counter used for
/// interlacing phases.
pub struct Compositor<const TILE_SIZE: usize, const CELL_AREA: usize, const SCREEN_COLS: usize, const SCREEN_ROWS: usize, const R_CAP: usize> {
    pub grid: DirtyGrid<TILE_SIZE, SCREEN_COLS, SCREEN_ROWS>,
    pub clear_color: Color,
    pub frame: u32,
}

impl<const TILE_SIZE: usize, const CELL_AREA: usize, const SCREEN_COLS: usize, const SCREEN_ROWS: usize, const R_CAP: usize> Compositor<TILE_SIZE, CELL_AREA, SCREEN_COLS, SCREEN_ROWS, R_CAP> {
    /// Whether row `r` of column `cx` is dirty and allowed by the interlacing pattern.
    pub open spec fn span_cell(self, cx: int, r: int, col_mask: u32, interlace: InterlaceMode, phase: int) -> bool {
        (self.grid.curr@[r] & col_mask) != 0 && interlace.spec_allows_cell(cx, r, phase)
    }

    /// A compositor whose whole grid is dirty, so that the first frame is drawn entirely.
    pub fn new(clear_color: Color) -> (c: Self)
        requires
            DirtyGrid::<TILE_SIZE, SCREEN_COLS, SCREEN_ROWS>::params_ok(),
        ensures
            c.clear_color == clear_color,
            c.frame == 0,
            forall|r: int| 0 <= r < SCREEN_ROWS ==> #[trigger] c.grid.curr@[r] == low_mask(SCREEN_COLS as int)
                && c.grid.prev@[r] == 0,
    {
        let mut comp = Self { grid: DirtyGrid::new(), clear_color, frame: 0 };
        comp.grid.mark_all();
        comp
    }

    pub fn set_frame(&mut self, frame: u32)
        ensures
            *final(self) == (Compositor { frame, ..*old(self) }),
    {
        self.frame = frame;
    }

    /// The next vertical run `[start, end)` of rows, at or after `y`, whose
    /// cells in column `cx` are dirty and allowed by the interlacing pattern;
    /// the run is maximal, and `None` means no such row remains.
    pub fn find_next_dirty_span(&self, cx: usize, y: usize, col_mask: u32, interlace: InterlaceMode, phase: usize) -> (r: Option<(usize, usize)>)
        requires
            cx <= 32,
            SCREEN_ROWS <= u16::MAX,
        ensures
            r is None <==> forall|k: int| y <= k < SCREEN_ROWS ==> !#[trigger] self.span_cell(cx as int, k, col_mask, interlace, phase as int),
            r matches Some((s, e)) ==> {
                &&& y <= s < e <= SCREEN_ROWS
                &&& forall|k: int| y <= k < s ==> !#[trigger] self.span_cell(cx as int, k, col_mask, interlace, phase as int)
                &&& forall|k: int| s <= k < e ==> #[trigger] self.span_cell(cx as int, k, col_mask, interlace, phase as int)
                &&& e < SCREEN_ROWS ==> !self.span_cell(cx as int, e as int, col_mask, interlace, phase as int)
            },
    {
        let mut y = y;
        let y0 = y;
        while y < SCREEN_ROWS
            invariant
                y0 <= y,
                cx <= 32,
                SCREEN_ROWS <= u16::MAX,
                forall|k: int| y0 <= k < y && k < SCREEN_ROWS ==> !#[trigger] self.span_cell(cx as int, k, col_mask, interlace, phase as int),
            ensures
                y0 <= y,
                forall|k: int| y0 <= k < y && k < SCREEN_ROWS ==> !#[trigger] self.span_cell(cx as int, k, col_mask, interlace, phase as int),
                y < SCREEN_ROWS ==> self.span_cell(cx as int, y as int, col_mask, interlace, phase as int),
            decreases SCREEN_ROWS - y,
        {
            let is_dirty = (self.grid.curr[y] & col_mask) != 0;
            if is_dirty && interlace.allows_cell(cx, y, phase) {
                break;
            }
            y += 1;
        }
        if y >= SCREEN_ROWS {
            return None;
        }
        let span_start = y;
        assert(self.span_cell(cx as int, span_start as int, col_mask, interlace, phase as int));
        while y < SCREEN_ROWS
            invariant
                span_start <= y <= SCREEN_ROWS,
                span_start < SCREEN_ROWS,
                cx <= 32,
                SCREEN_ROWS <= u16::MAX,
                self.span_cell(cx as int, span_start as int, col_mask, interlace, phase as int),
                forall|k: int| span_start <= k < y ==> #[trigger] self.span_cell(cx as int, k, col_mask, interlace, phase as int),
            ensures
                span_start < y <= SCREEN_ROWS,
                forall|k: int| span_start <= k < y ==> #[trigger] self.span_cell(cx as int, k, col_mask, interlace, phase as int),
                y < SCREEN_ROWS ==> !self.span_cell(cx as int, y as int, col_mask, interlace, phase as int),
            decreases SCREEN_ROWS - y,
        {
            let is_dirty = (self.grid.curr[y] & col_mask) != 0;
            if !is_dirty || !interlace.allows_cell(cx, y, phase) {
                break;
            }
            y += 1;
        }
        Some((span_start, y))
    }

    /// Whether column `c` has nothing left to draw from row `from`: the
    /// pattern skips it, or none of its rows from there is a span cell.
    pub open spec fn column_done(self, c: int, from: int, interlace: InterlaceMode, phase: int) -> bool {
        !interlace.spec_allows_column(c, phase) || forall|k: int|
            from <= k < SCREEN_ROWS ==> !#[trigger] self.span_cell(c, k, (1u32 << (c as u32)) as u32, interlace, phase)
    }

    /// Whether column `c` is done for a walk that started at column
    /// `col - 1`, row `y`: that column from row `y`, the others whole.
    pub open spec fn walked(self, c: int, col: int, y: int, interlace: InterlaceMode, phase: int) -> bool {
        self.column_done(c, if c == col - 1 { y } else { 0 }, interlace, phase)
    }

    /// Clears the dirty bits of rows `[start, end)` of column `cx`.
    pub fn clear_span(&mut self, cx: usize, start: usize, end: usize)
        requires
            cx < 32,
            start <= end <= SCREEN_ROWS,
        ensures
            final(self).grid.prev == old(self).grid.prev,
            final(self).clear_color == old(self).clear_color,
            final(self).frame == old(self).frame,
            forall|r: int, c: int|
                0 <= r < SCREEN_ROWS && 0 <= c < 32 ==> #[trigger] bit_set(final(self).grid.curr@[r], c) == (bit_set(
                    old(self).grid.curr@[r],
                    c,
                ) && !(c == cx && start <= r < end)),
    {
        let mut r: usize = start;
        while r < end
            invariant
                cx < 32,
                start <= r <= end <= SCREEN_ROWS,
                self.grid.prev == old(self).grid.prev,
                self.clear_color == old(self).clear_color,
                self.frame == old(self).frame,
                forall|rr: int, c: int|
                    0 <= rr < SCREEN_ROWS && 0 <= c < 32 ==> #[trigger] bit_set(self.grid.curr@[rr], c) == (bit_set(
                        old(self).grid.curr@[rr],
                        c,
                    ) && !(c == cx && start <= rr < r)),
            decreases end - r,
        {
            let ghost before = self.grid.curr@;
            let v: u32 = self.grid.curr[r];
            self.grid.curr[r] = v & !(1u32 << (cx as u32));
            assert forall|rr: int, c: int| 0 <= rr < SCREEN_ROWS && 0 <= c < 32 implies #[trigger] bit_set(self.grid.curr@[rr], c) == (bit_set(
                old(self).grid.curr@[rr],
                c,
            ) && !(c == cx && start <= rr < r + 1)) by {
                if rr == r {
                    lemma_and_not_bit(v, cx as u32, c as u32);
                } else {
                    assert(self.grid.curr@[rr] == before[rr]);
                }
            }
            r += 1;
        }
    }

    /// One step of the walk over the dirty spans of a frame: the next run
    /// of rows to draw, as `(column, start, end)`, going through the columns
    /// from the right and down each column, the columns the pattern skips
    /// left out; its dirty bits are cleared and the cursor moves past it.
    /// `None` when no span is left, the grid then unchanged.
    pub fn next_span(&mut self, cursor: &mut SpanCursor, interlace: InterlaceMode, phase: usize) -> (r: Option<(usize, usize, usize)>)
        requires
            old(cursor).col <= SCREEN_COLS <= 32,
            old(cursor).y <= SCREEN_ROWS,
            SCREEN_ROWS <= u16::MAX,
        ensures
            final(self).clear_color == old(self).clear_color,
            final(self).frame == old(self).frame,
            final(self).grid.prev == old(self).grid.prev,
            r is None ==> {
                &&& *final(self) == *old(self)
                &&& final(cursor).col == 0
                &&& forall|c: int| 0 <= c < old(cursor).col ==> #[trigger] old(self).walked(c, old(cursor).col as int, old(cursor).y as int, interlace, phase as int)
            },
            r matches Some((cx, s, e)) ==> {
                let mask = (1u32 << (cx as u32)) as u32;
                &&& cx < old(cursor).col
                &&& interlace.spec_allows_column(cx as int, phase as int)
                &&& forall|c: int| cx < c < old(cursor).col ==> #[trigger] old(self).walked(c, old(cursor).col as int, old(cursor).y as int, interlace, phase as int)
                &&& ({
                    let from = if cx == old(cursor).col - 1 { old(cursor).y as int } else { 0 };
                    &&& from <= s < e <= SCREEN_ROWS
                    &&& forall|k: int| from <= k < s ==> !#[trigger] old(self).span_cell(cx as int, k, mask, interlace, phase as int)
                })
                &&& forall|k: int| s <= k < e ==> #[trigger] old(self).span_cell(cx as int, k, mask, interlace, phase as int)
                &&& e < SCREEN_ROWS ==> !old(self).span_cell(cx as int, e as int, mask, interlace, phase as int)
                &&& forall|rr: int, c: int|
                    0 <= rr < SCREEN_ROWS && 0 <= c < 32 ==> #[trigger] bit_set(final(self).grid.curr@[rr], c) == (bit_set(
                        old(self).grid.curr@[rr],
                        c,
                    ) && !(c == cx && s <= rr < e))
                &&& *final(cursor) == (SpanCursor { col: (cx + 1) as usize, y: e })
            },
    {
        let ghost c0 = cursor.col;
        let ghost y0 = cursor.y;
        while cursor.col > 0
            invariant
                *self == *old(self),
                cursor.col <= c0 <= SCREEN_COLS <= 32,
                cursor.y <= SCREEN_ROWS,
                SCREEN_ROWS <= u16::MAX,
                c0 == old(cursor).col,
                y0 == old(cursor).y,
                cursor.col < c0 ==> cursor.y == 0,
                cursor.col == c0 ==> cursor.y == y0,
                forall|c: int| cursor.col <= c < c0 ==> #[trigger] old(self).walked(c, c0 as int, y0 as int, interlace, phase as int),
            decreases cursor.col,
        {
            let cx: usize = cursor.col - 1;
            if interlace.allows_column(cx, phase) {
                let col_mask: u32 = 1u32 << (cx as u32);
                match self.find_next_dirty_span(cx, cursor.y, col_mask, interlace, phase) {
                    Some((s, e)) => {
                        self.clear_span(cx, s, e);
                        *cursor = SpanCursor { col: cx + 1, y: e };
                        return Some((cx, s, e));
                    },
                    None => {},
                }
            }
            cursor.col = cx;
            cursor.y = 0;
        }
        None
    }
}

} // verus!
