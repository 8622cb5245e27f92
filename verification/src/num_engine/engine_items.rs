//! What the frame scheduler decides about the sprites it draws: whether
//! they are worth drawing at all, and which screen cells they invalidate.

use vstd::prelude::*;

use crate::num_engine::engine::Engine;
use crate::num_engine::sprite::Sprite;
use crate::num_engine::viewport::{in_i32, Viewport};
use crate::num_engine::layers::point_fits;

verus! {

/// Whether the box at `(x, y)` of size `w` x `h` overlaps the window `[x0, x1) x [y0, y1)`.
pub open spec fn box_overlaps(x: int, y: int, w: int, h: int, x0: int, y0: int, x1: int, y1: int) -> bool {
    x + w > x0 && x < x1 && y + h > y0 && y < y1
}

/// Screen position (narrowed to `i16`) of world point `p` seen through `v`.
pub open spec fn screen_pos(v: Viewport, p: [i16; 2]) -> (i16, i16) {
    (v.screen_x_of(p[0] as int) as i16, v.screen_y_of(p[1] as int) as i16)
}

/// World point `p` can be converted to screen coordinates through `v`.
pub open spec fn convertible(v: Viewport, p: [i16; 2]) -> bool {
    &&& in_i32(v.screen_x_of(p[0] as int))
    &&& in_i32(p[0] - v.x)
    &&& in_i32(v.screen_y_of(p[1] as int))
    &&& in_i32(p[1] - v.y)
}

/// A box of size `w` x `h` at `(x, y)` can be tested against a window without overflow.
pub open spec fn box_fits(x: int, y: int, w: int, h: int) -> bool {
    i16::MIN <= x + w <= i16::MAX && i16::MIN <= y + h <= i16::MAX
}

impl<const TILE_SIZE: usize, const CELL_AREA: usize, const SCREEN_COLS: usize, const SCREEN_ROWS: usize, const R_CAP: usize, const DEBUG: bool> Engine<
    TILE_SIZE,
    CELL_AREA,
    SCREEN_COLS,
    SCREEN_ROWS,
    R_CAP,
    DEBUG,
> {
    /// Whether a world sprite must be drawn in the window `[x0, x1) x [y0, y1)`:
    /// its box overlaps the window, or it moved and its previous box did.
    pub fn is_sprite_visible<'a>(&self, s: &Sprite<'a, TILE_SIZE, CELL_AREA>, win_x0: i16, win_y0: i16, win_x1: i16, win_y1: i16) -> (v: bool)
        requires
            s.wf(),
            convertible(self.viewport, s.position),
            box_fits(screen_pos(self.viewport, s.position).0 as int, screen_pos(self.viewport, s.position).1 as int, s.spec_width(), s.spec_height()),
            s.moved ==> convertible(self.viewport, s.prev_position),
            s.moved ==> box_fits(
                screen_pos(self.viewport, s.prev_position).0 as int,
                screen_pos(self.viewport, s.prev_position).1 as int,
                s.spec_width(),
                s.spec_height(),
            ),
        ensures
            v == (box_overlaps(
                screen_pos(self.viewport, s.position).0 as int,
                screen_pos(self.viewport, s.position).1 as int,
                s.spec_width(),
                s.spec_height(),
                win_x0 as int,
                win_y0 as int,
                win_x1 as int,
                win_y1 as int,
            ) || (s.moved && box_overlaps(
                screen_pos(self.viewport, s.prev_position).0 as int,
                screen_pos(self.viewport, s.prev_position).1 as int,
                s.spec_width(),
                s.spec_height(),
                win_x0 as int,
                win_y0 as int,
                win_x1 as int,
                win_y1 as int,
            ))),
    {
        let w: i16 = s.pixel_width() as i16;
        let h: i16 = s.pixel_height() as i16;
        let (cx, cy) = self.viewport.world_to_screen(s.position[0] as i32, s.position[1] as i32);
        let curr_visible = cx + w > win_x0 && cx < win_x1 && cy + h > win_y0 && cy < win_y1;
        if curr_visible {
            return true;
        }
        if s.moved {
            let (px, py) = self.viewport.world_to_screen(s.prev_position[0] as i32, s.prev_position[1] as i32);
            px + w > win_x0 && px < win_x1 && py + h > win_y0 && py < win_y1
        } else {
            false
        }
    }

    /// Whether a sprite placed in window coordinates must be drawn in a
    /// window spanning `[x0, x1) x [y0, y1)` on screen: its box overlaps the
    /// window's extent, or it moved and its previous box did.
    pub fn is_ui_sprite_visible<'a>(&self, s: &Sprite<'a, TILE_SIZE, CELL_AREA>, win_x0: i16, win_y0: i16, win_x1: i16, win_y1: i16) -> (v: bool)
        requires
            s.wf(),
            i16::MIN <= win_x1 - win_x0 <= i16::MAX,
            i16::MIN <= win_y1 - win_y0 <= i16::MAX,
            box_fits(s.position[0] as int, s.position[1] as int, s.spec_width(), s.spec_height()),
            s.moved ==> box_fits(s.prev_position[0] as int, s.prev_position[1] as int, s.spec_width(), s.spec_height()),
        ensures
            v == (box_overlaps(
                s.position[0] as int,
                s.position[1] as int,
                s.spec_width(),
                s.spec_height(),
                0,
                0,
                win_x1 - win_x0,
                win_y1 - win_y0,
            ) || (s.moved && box_overlaps(
                s.prev_position[0] as int,
                s.prev_position[1] as int,
                s.spec_width(),
                s.spec_height(),
                0,
                0,
                win_x1 - win_x0,
                win_y1 - win_y0,
            ))),
    {
        let w: i16 = s.pixel_width() as i16;
        let h: i16 = s.pixel_height() as i16;
        let local_w: i16 = win_x1 - win_x0;
        let local_h: i16 = win_y1 - win_y0;
        let cx = s.position[0];
        let cy = s.position[1];
        let curr_visible = cx + w > 0 && cx < local_w && cy + h > 0 && cy < local_h;
        if curr_visible {
            return true;
        }
        if s.moved {
            let px = s.prev_position[0];
            let py = s.prev_position[1];
            px + w > 0 && px < local_w && py + h > 0 && py < local_h
        } else {
            false
        }
    }

    /// Invalidates the cells a moved world sprite leaves and enters: its
    /// previous and its current box, in screen coordinates. A sprite that
    /// did not move invalidates nothing.
    pub fn mark_sprite<'a>(&mut self, s: &Sprite<'a, TILE_SIZE, CELL_AREA>)
        requires
            Self::params_ok(),
            s.wf(),
            old(self).viewport.screen_x + old(self).viewport.screen_w <= i16::MAX,
            old(self).viewport.screen_y + old(self).viewport.screen_h <= i16::MAX,
            s.moved ==> {
                &&& convertible(old(self).viewport, s.position)
                &&& convertible(old(self).viewport, s.prev_position)
                &&& box_fits(
                    screen_pos(old(self).viewport, s.position).0 as int,
                    screen_pos(old(self).viewport, s.position).1 as int,
                    s.spec_width(),
                    s.spec_height(),
                )
                &&& box_fits(
                    screen_pos(old(self).viewport, s.prev_position).0 as int,
                    screen_pos(old(self).viewport, s.prev_position).1 as int,
                    s.spec_width(),
                    s.spec_height(),
                )
            },
        ensures
            !s.moved ==> *final(self) == *old(self),
            s.moved ==> exists|mid: Self|
                #![trigger mid.compositor.grid]
                Self::screen_rect_marked(
                    old(self).viewport,
                    old(self).compositor.grid,
                    mid.compositor.grid,
                    screen_pos(old(self).viewport, s.prev_position).0,
                    screen_pos(old(self).viewport, s.prev_position).1,
                    s.spec_width() as u16,
                    s.spec_height() as u16,
                ) && Self::screen_rect_marked(
                    old(self).viewport,
                    mid.compositor.grid,
                    final(self).compositor.grid,
                    screen_pos(old(self).viewport, s.position).0,
                    screen_pos(old(self).viewport, s.position).1,
                    s.spec_width() as u16,
                    s.spec_height() as u16,
                ),
            final(self).viewport == old(self).viewport,
            final(self).frame == old(self).frame,
    {
        if s.moved {
            let (px, py) = self.viewport.world_to_screen(s.prev_position[0] as i32, s.prev_position[1] as i32);
            let (cx, cy) = self.viewport.world_to_screen(s.position[0] as i32, s.position[1] as i32);
            let w = s.pixel_width();
            let h = s.pixel_height();
            self.mark_screen_rect(px, py, w, h);
            let ghost mid = *self;
            self.mark_screen_rect(cx, cy, w, h);
            assert(Self::screen_rect_marked(old(self).viewport, old(self).compositor.grid, mid.compositor.grid, px, py, w, h));
        }
    }

    /// Invalidates the cells a moved window-placed sprite leaves and enters:
    /// its previous and its current box. A sprite that did not move
    /// invalidates nothing.
    pub fn mark_ui_sprite<'a>(&mut self, s: &Sprite<'a, TILE_SIZE, CELL_AREA>)
        requires
            Self::params_ok(),
            s.wf(),
            old(self).viewport.screen_x + old(self).viewport.screen_w <= i16::MAX,
            old(self).viewport.screen_y + old(self).viewport.screen_h <= i16::MAX,
            s.moved ==> {
                &&& box_fits(s.position[0] as int, s.position[1] as int, s.spec_width(), s.spec_height())
                &&& box_fits(s.prev_position[0] as int, s.prev_position[1] as int, s.spec_width(), s.spec_height())
            },
        ensures
            !s.moved ==> *final(self) == *old(self),
            s.moved ==> exists|mid: Self|
                #![trigger mid.compositor.grid]
                Self::screen_rect_marked(
                    old(self).viewport,
                    old(self).compositor.grid,
                    mid.compositor.grid,
                    s.prev_position[0],
                    s.prev_position[1],
                    s.spec_width() as u16,
                    s.spec_height() as u16,
                ) && Self::screen_rect_marked(
                    old(self).viewport,
                    mid.compositor.grid,
                    final(self).compositor.grid,
                    s.position[0],
                    s.position[1],
                    s.spec_width() as u16,
                    s.spec_height() as u16,
                ),
            final(self).viewport == old(self).viewport,
            final(self).frame == old(self).frame,
    {
        if s.moved {
            let w = s.pixel_width();
            let h = s.pixel_height();
            self.mark_screen_rect(s.prev_position[0], s.prev_position[1], w, h);
            let ghost mid = *self;
            self.mark_screen_rect(s.position[0], s.position[1], w, h);
            assert(Self::screen_rect_marked(
                old(self).viewport,
                old(self).compositor.grid,
                mid.compositor.grid,
                s.prev_position[0],
                s.prev_position[1],
                w,
                h,
            ));
        }
    }
}

} // verus!

verus! {

impl<const TILE_SIZE: usize, const CELL_AREA: usize, const SCREEN_COLS: usize, const SCREEN_ROWS: usize, const R_CAP: usize, const DEBUG: bool> Engine<
    TILE_SIZE,
    CELL_AREA,
    SCREEN_COLS,
    SCREEN_ROWS,
    R_CAP,
    DEBUG,
> {
    /// Whether the grid geometry is supported and the window's far edges fit `i16`.
    pub fn window_checked(&self) -> (b: bool)
        ensures
            b == (Self::params_ok() && self.viewport.screen_x + self.viewport.screen_w <= i16::MAX && self.viewport.screen_y
                + self.viewport.screen_h <= i16::MAX),
    {
        if TILE_SIZE == 0 || SCREEN_COLS > 32 {
            return false;
        }
        match SCREEN_COLS.checked_mul(TILE_SIZE) {
            Some(c) => if c > 0xffff {
                return false;
            },
            None => return false,
        }
        match SCREEN_ROWS.checked_mul(TILE_SIZE) {
            Some(r) => if r > 0xffff {
                return false;
            },
            None => return false,
        }
        self.viewport.screen_x as u32 + self.viewport.screen_w as u32 <= 0x7fff && self.viewport.screen_y as u32
            + self.viewport.screen_h as u32 <= 0x7fff
    }

    /// Whether a world sprite can be tested for visibility and marked this
    /// frame: it is well formed, and its box, now and (if it moved) before,
    /// converts to the screen within 16 bits.
    pub fn sprite_checked<'a>(&self, s: &Sprite<'a, TILE_SIZE, CELL_AREA>) -> (b: bool)
        ensures
            b == (s.wf() && convertible(self.viewport, s.position) && box_fits(
                screen_pos(self.viewport, s.position).0 as int,
                screen_pos(self.viewport, s.position).1 as int,
                s.spec_width(),
                s.spec_height(),
            ) && (s.moved ==> convertible(self.viewport, s.prev_position) && box_fits(
                screen_pos(self.viewport, s.prev_position).0 as int,
                screen_pos(self.viewport, s.prev_position).1 as int,
                s.spec_width(),
                s.spec_height(),
            ))),
    {
        if !s.is_wf() {
            return false;
        }
        let w = s.pixel_width();
        let h = s.pixel_height();
        point_fits(&self.viewport, s.position, w, h) && (!s.moved || point_fits(&self.viewport, s.prev_position, w, h))
    }

    /// Whether a window sprite can be tested for visibility and marked this
    /// frame: it is well formed and its box, now and (if it moved) before,
    /// stays within 16 bits.
    pub fn ui_sprite_checked<'a>(&self, s: &Sprite<'a, TILE_SIZE, CELL_AREA>) -> (b: bool)
        ensures
            b == (s.wf() && box_fits(s.position[0] as int, s.position[1] as int, s.spec_width(), s.spec_height()) && (s.moved
                ==> box_fits(s.prev_position[0] as int, s.prev_position[1] as int, s.spec_width(), s.spec_height()))),
    {
        if !s.is_wf() {
            return false;
        }
        let w: i32 = s.pixel_width() as i32;
        let h: i32 = s.pixel_height() as i32;
        let now: bool = s.position[0] as i32 + w <= 0x7fff && s.position[1] as i32 + h <= 0x7fff;
        let before: bool = s.prev_position[0] as i32 + w <= 0x7fff && s.prev_position[1] as i32 + h <= 0x7fff;
        now && (!s.moved || before)
    }
}

} // verus!
