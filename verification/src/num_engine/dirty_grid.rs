//! Bitset-based dirty cell tracking for partial screen updates.

use vstd::prelude::*;

use crate::eadk::Rect;
use crate::num_engine::bits::{bit_set, lemma_low_mask_bits, lemma_or_bit, low_mask};

verus! {

/// Invalidation state of a grid of `COLS` x `ROWS` cells of `TILE_SIZE`
/// pixels, one `u32` mask per row (bit `c` of row `r` is cell `(c, r)`).
pub struct DirtyGrid<const TILE_SIZE: usize, const COLS: usize, const ROWS: usize> {
    /// Cells marked dirty during the current frame.
    pub curr: [u32; ROWS],
    /// Cells that were dirty during the previous frame.
    pub prev: [u32; ROWS],
}

/// First cell index covered by pixel coordinate `p`, clamped to the last of `n` cells.
pub open spec fn first_cell(p: int, tile: int, n: int) -> int {
    if p / tile < n - 1 {
        p / tile
    } else {
        n - 1
    }
}

/// Last cell index covered by the pixel span `[p, p + len)`, clamped to the last of `n` cells.
pub open spec fn last_cell(p: int, len: int, tile: int, n: int) -> int {
    let last_px = if p + len >= 1 {
        p + len - 1
    } else {
        0
    };
    if last_px / tile < n - 1 {
        last_px / tile
    } else {
        n - 1
    }
}

impl<const TILE_SIZE: usize, const COLS: usize, const ROWS: usize> DirtyGrid<TILE_SIZE, COLS, ROWS> {
    /// The grid geometry the engine supports: non-empty tiles, at most 32
    /// columns, and a pixel size that fits the screen coordinates.
    pub open spec fn params_ok() -> bool {
        &&& TILE_SIZE > 0
        &&& COLS <= 32
        &&& COLS * TILE_SIZE <= u16::MAX
        &&& ROWS * TILE_SIZE <= u16::MAX
    }

    /// Whether cell `(c, r)` is marked dirty in the current frame.
    pub open spec fn is_dirty(self, c: int, r: int) -> bool {
        0 <= r < ROWS && bit_set(self.curr@[r], c)
    }

    /// Whether cell `(c, r)` was dirty in the previous frame.
    pub open spec fn was_dirty(self, c: int, r: int) -> bool {
        0 <= r < ROWS && bit_set(self.prev@[r], c)
    }

    /// Whether the pixel rectangle is not empty and starts inside the grid
    /// (else it meets no cell, and marking it has no effect).
    pub open spec fn rect_in_grid(rect: Rect) -> bool {
        rect.width > 0 && rect.height > 0 && rect.x < COLS * TILE_SIZE && rect.y < ROWS * TILE_SIZE
    }

    /// Whether cell `(c, r)` intersects the pixel rectangle, with the span
    /// ends clamped to the last row and column.
    pub open spec fn rect_covers(rect: Rect, c: int, r: int) -> bool {
        &&& first_cell(rect.x as int, TILE_SIZE as int, COLS as int) <= c
        &&& c <= last_cell(rect.x as int, rect.width as int, TILE_SIZE as int, COLS as int)
        &&& first_cell(rect.y as int, TILE_SIZE as int, ROWS as int) <= r
        &&& r <= last_cell(rect.y as int, rect.height as int, TILE_SIZE as int, ROWS as int)
    }

    /// `next` is this grid with the cells of the pixel rectangle marked
    /// dirty in the current frame (unchanged when the rectangle is empty or
    /// starts outside the grid).
    pub open spec fn marks_rect(self, next: Self, rect: Rect) -> bool {
        &&& next.prev == self.prev
        &&& !Self::rect_in_grid(rect) ==> next == self
        &&& Self::rect_in_grid(rect) ==> forall|r: int, c: int|
            0 <= r < ROWS && 0 <= c < 32 ==> #[trigger] bit_set(next.curr@[r], c) == (bit_set(
                self.curr@[r],
                c,
            ) || Self::rect_covers(rect, c, r))
    }

    /// Creates an empty dirty grid with all bits set to 0.
    pub fn new() -> (g: Self)
        ensures
            forall|r: int| 0 <= r < ROWS ==> g.curr@[r] == 0 && g.prev@[r] == 0,
    {
        Self { curr: [0u32; ROWS], prev: [0u32; ROWS] }
    }

    /// Marks all cells intersecting a given pixel rectangle as dirty in the current frame.
    pub fn mark_rect(&mut self, rect: Rect)
        requires
            Self::params_ok(),
        ensures
            old(self).marks_rect(*final(self), rect),
    {
        if rect.width == 0 || rect.height == 0 || rect.x as usize >= COLS * TILE_SIZE || rect.y as usize >= ROWS * TILE_SIZE {
            return;
        }
        assert(COLS > 0 && ROWS > 0) by (nonlinear_arith)
            requires
                (rect.x as int) < COLS * TILE_SIZE,
                (rect.y as int) < ROWS * TILE_SIZE,
        ;
        let col_start: usize = if (rect.x as usize) / TILE_SIZE < COLS - 1 {
            (rect.x as usize) / TILE_SIZE
        } else {
            COLS - 1
        };
        let x_last: usize = (rect.x as usize + rect.width as usize).saturating_sub(1);
        let col_end: usize = if x_last / TILE_SIZE < COLS - 1 {
            x_last / TILE_SIZE
        } else {
            COLS - 1
        };
        let row_start: usize = if (rect.y as usize) / TILE_SIZE < ROWS - 1 {
            (rect.y as usize) / TILE_SIZE
        } else {
            ROWS - 1
        };
        let y_last: usize = (rect.y as usize + rect.height as usize).saturating_sub(1);
        let row_end: usize = if y_last / TILE_SIZE < ROWS - 1 {
            y_last / TILE_SIZE
        } else {
            ROWS - 1
        };
        assert(col_start == first_cell(rect.x as int, TILE_SIZE as int, COLS as int));
        assert(col_end == last_cell(rect.x as int, rect.width as int, TILE_SIZE as int, COLS as int));
        assert(row_start == first_cell(rect.y as int, TILE_SIZE as int, ROWS as int));
        assert(row_end == last_cell(rect.y as int, rect.height as int, TILE_SIZE as int, ROWS as int));
        let ghost old_curr = self.curr;
        let mut r: usize = row_start;
        while r <= row_end
            invariant
                Self::params_ok(),
                row_start <= r,
                r <= row_end + 1 || r == row_start,
                row_end < ROWS,
                col_end < COLS,
                self.prev == old(self).prev,
                old_curr == old(self).curr,
                forall|rr: int, c: int|
                    0 <= rr < ROWS && 0 <= c < 32 ==> #[trigger] bit_set(self.curr@[rr], c) == (
                    bit_set(old_curr@[rr], c) || (row_start <= rr < r && col_start <= c
                        <= col_end)),
            decreases row_end + 1 - r,
        {
            let mut c: usize = col_start;
            while c <= col_end
                invariant
                    Self::params_ok(),
                    row_start <= r <= row_end,
                    col_start <= c,
                    c <= col_end + 1 || c == col_start,
                    row_end < ROWS,
                    col_end < COLS,
                    self.prev == old(self).prev,
                    forall|rr: int, cc: int|
                        0 <= rr < ROWS && 0 <= cc < 32 ==> #[trigger] bit_set(self.curr@[rr], cc)
                            == (bit_set(old_curr@[rr], cc) || (row_start <= rr < r && col_start
                            <= cc <= col_end) || (rr == r && col_start <= cc < c)),
                decreases col_end + 1 - c,
            {
                let ghost before = self.curr;
                let old_row: u32 = self.curr[r];
                self.curr[r] = old_row | (1u32 << (c as u32));
                proof {
                    assert forall|rr: int, cc: int| 0 <= rr < ROWS && 0 <= cc < 32 implies
                        #[trigger] bit_set(self.curr@[rr], cc) == (bit_set(old_curr@[rr], cc) || (
                        row_start <= rr < r && col_start <= cc <= col_end) || (rr == r
                            && col_start <= cc < c + 1)) by {
                        if rr == r {
                            lemma_or_bit(old_row, c as u32, cc as u32);
                            assert(bit_set(before@[rr], cc) == bit_set(old_row, cc));
                        } else {
                            assert(self.curr@[rr] == before@[rr]);
                        }
                    }
                }
                c = c + 1;
            }
            r = r + 1;
        }
    }

    /// Flags a single cell coordinate `(cx, cy)` as dirty (no effect outside the grid).
    pub fn mark_cell(&mut self, cx: usize, cy: usize)
        requires
            Self::params_ok(),
        ensures
            final(self).prev == old(self).prev,
            forall|r: int, c: int|
                0 <= r < ROWS && 0 <= c < 32 ==> #[trigger] bit_set(final(self).curr@[r], c) == (
                bit_set(old(self).curr@[r], c) || (r == cy && c == cx && cx < COLS)),
    {
        if cx < COLS && cy < ROWS {
            let ghost before = self.curr;
            let old_row: u32 = self.curr[cy];
            self.curr[cy] = old_row | (1u32 << (cx as u32));
            proof {
                assert forall|r: int, c: int| 0 <= r < ROWS && 0 <= c < 32 implies #[trigger] bit_set(
                    self.curr@[r],
                    c,
                ) == (bit_set(before@[r], c) || (r == cy && c == cx)) by {
                    if r == cy {
                        lemma_or_bit(old_row, cx as u32, c as u32);
                    } else {
                        assert(self.curr@[r] == before@[r]);
                    }
                }
            }
        }
    }

    /// Sets all cells of all rows dirty, forcing a complete screen redraw.
    pub fn mark_all(&mut self)
        requires
            Self::params_ok(),
        ensures
            final(self).prev == old(self).prev,
            forall|r: int| 0 <= r < ROWS ==> #[trigger] final(self).curr@[r] == low_mask(COLS as int),
            forall|r: int, c: int|
                0 <= r < ROWS && 0 <= c < 32 ==> #[trigger] bit_set(final(self).curr@[r], c) == (c
                    < COLS),
    {
        let full_row_mask: u32 = if COLS >= 32 {
            u32::MAX
        } else {
            let n: u32 = COLS as u32;
            assert((1u32 << n) >= 1) by (bit_vector)
                requires
                    n < 32,
            ;
            (1u32 << n) - 1
        };
        assert(full_row_mask == low_mask(COLS as int));
        let mut cy: usize = 0;
        while cy < ROWS
            invariant
                cy <= ROWS,
                full_row_mask == low_mask(COLS as int),
                self.prev == old(self).prev,
                forall|r: int| 0 <= r < cy ==> #[trigger] self.curr@[r] == full_row_mask,
            decreases ROWS - cy,
        {
            self.curr[cy] = full_row_mask;
            cy = cy + 1;
        }
        proof {
            assert forall|r: int, c: int| 0 <= r < ROWS && 0 <= c < 32 implies #[trigger] bit_set(
                self.curr@[r],
                c,
            ) == (c < COLS) by {
                lemma_low_mask_bits(COLS as int, c);
            }
        }
    }

    /// Rotates the buffers at the end of a frame: `curr` moves into `prev` and `curr` is cleared.
    pub fn swap_and_clear(&mut self)
        ensures
            final(self).prev == old(self).curr,
            forall|r: int| 0 <= r < ROWS ==> #[trigger] final(self).curr@[r] == 0,
    {
        self.prev = self.curr;
        self.curr = [0u32; ROWS];
    }
}

} // verus!
