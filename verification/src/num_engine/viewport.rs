//! Camera tracking, sub-screen window constraints, and coordinate space transformations.

use vstd::prelude::*;

use crate::eadk::{SCREEN_HEIGHT, SCREEN_WIDTH};

verus! {

/// Whether an integer fits an `i32`.
pub open spec fn in_i32(v: int) -> bool {
    i32::MIN <= v <= i32::MAX
}

/// Controls which region of the world is projected onto the display,
/// through a window of the screen.
#[derive(Clone, Copy, Debug)]
pub struct Viewport {
    /// World X position of the camera's top-left corner.
    pub x: i32,
    /// World Y position of the camera's top-left corner.
    pub y: i32,
    /// World X position during the previous frame.
    pub prev_x: i32,
    /// World Y position during the previous frame.
    pub prev_y: i32,
    /// Screen X origin of the window, in pixels.
    pub screen_x: u16,
    /// Screen Y origin of the window, in pixels.
    pub screen_y: u16,
    /// Pixel width of the window.
    pub screen_w: u16,
    /// Pixel height of the window.
    pub screen_h: u16,
}

/// New camera coordinate on one axis after following `target` with an
/// inner margin: the camera moves only when the target leaves
/// `[pos + margin, pos + size - margin]`, just enough to bring it back to the edge.
pub open spec fn deadzone_axis(pos: int, target: int, size: int, margin: int) -> int {
    if target < pos + margin {
        target - margin
    } else if target > pos + size - margin {
        target - size + margin
    } else {
        pos
    }
}

/// Whether following on one axis stays within `i32` arithmetic.
pub open spec fn deadzone_fits(pos: int, target: int, size: int, margin: int) -> bool {
    &&& in_i32(pos + margin)
    &&& in_i32(pos + size)
    &&& in_i32(pos + size - margin)
    &&& in_i32(target - margin)
    &&& in_i32(target - size)
    &&& in_i32(target - size + margin)
}

/// Camera coordinate on one axis after clamping to `[min, max - size]`
/// (or `min` when the world is smaller than the window).
pub open spec fn clamp_axis(pos: int, min: int, max: int, size: int) -> int {
    let hi = if max - size > min {
        max - size
    } else {
        min
    };
    if pos < min {
        min
    } else if pos > hi {
        hi
    } else {
        pos
    }
}

impl Viewport {
    /// World-to-screen X for a world abscissa, before narrowing to `i16`.
    pub open spec fn screen_x_of(self, wx: int) -> int {
        wx - self.x + self.screen_x
    }

    /// World-to-screen Y for a world ordinate, before narrowing to `i16`.
    pub open spec fn screen_y_of(self, wy: int) -> int {
        wy - self.y + self.screen_y
    }

    /// Whether a world box intersects the window.
    pub open spec fn spec_is_visible(self, wx: int, wy: int, w: int, h: int) -> bool {
        let sx = wx - self.x;
        let sy = wy - self.y;
        sx + w > 0 && sx < self.screen_w && sy + h > 0 && sy < self.screen_h
    }

    /// Creates a stationary viewport filling the entire screen at world origin.
    pub fn fixed() -> (v: Self)
        ensures
            v.x == 0 && v.y == 0 && v.prev_x == 0 && v.prev_y == 0,
            v.screen_x == 0 && v.screen_y == 0,
            v.screen_w == SCREEN_WIDTH && v.screen_h == SCREEN_HEIGHT,
    {
        Self {
            x: 0,
            y: 0,
            prev_x: 0,
            prev_y: 0,
            screen_x: 0,
            screen_y: 0,
            screen_w: SCREEN_WIDTH,
            screen_h: SCREEN_HEIGHT,
        }
    }

    /// Creates a full-screen viewport anchored at world coordinates `(x, y)`.
    pub fn new(x: i32, y: i32) -> (v: Self)
        ensures
            v.x == x && v.y == y && v.prev_x == x && v.prev_y == y,
            v.screen_x == 0 && v.screen_y == 0,
            v.screen_w == SCREEN_WIDTH && v.screen_h == SCREEN_HEIGHT,
    {
        Self {
            x,
            y,
            prev_x: x,
            prev_y: y,
            screen_x: 0,
            screen_y: 0,
            screen_w: SCREEN_WIDTH,
            screen_h: SCREEN_HEIGHT,
        }
    }

    /// Creates a viewport occupying a sub-window of the display.
    pub fn new_window(x: i32, y: i32, screen_x: u16, screen_y: u16, screen_w: u16, screen_h: u16) -> (v: Self)
        ensures
            v.x == x && v.y == y && v.prev_x == x && v.prev_y == y,
            v.screen_x == screen_x && v.screen_y == screen_y,
            v.screen_w == screen_w && v.screen_h == screen_h,
    {
        Self { x, y, prev_x: x, prev_y: y, screen_x, screen_y, screen_w, screen_h }
    }

    /// Whether the camera moved since the last [`commit_frame`](Self::commit_frame).
    pub fn moved(&self) -> (m: bool)
        ensures
            m == (self.x != self.prev_x || self.y != self.prev_y),
    {
        self.x != self.prev_x || self.y != self.prev_y
    }

    /// Latches the current camera coordinates into `(prev_x, prev_y)`.
    pub fn commit_frame(&mut self)
        ensures
            *final(self) == (Viewport { prev_x: old(self).x, prev_y: old(self).y, ..*old(self) }),
    {
        self.prev_x = self.x;
        self.prev_y = self.y;
    }

    /// Translates the camera by `(dx, dy)`.
    pub fn move_by(&mut self, dx: i32, dy: i32)
        requires
            in_i32(old(self).x + dx),
            in_i32(old(self).y + dy),
        ensures
            *final(self) == (Viewport {
                x: (old(self).x + dx) as i32,
                y: (old(self).y + dy) as i32,
                ..*old(self)
            }),
    {
        self.x = self.x + dx;
        self.y = self.y + dy;
    }

    /// Sets the camera world coordinates.
    pub fn set_position(&mut self, x: i32, y: i32)
        ensures
            *final(self) == (Viewport { x, y, ..*old(self) }),
    {
        self.x = x;
        self.y = y;
    }

    /// Centers the window on a world coordinate.
    pub fn look_at(&mut self, target_x: i32, target_y: i32)
        requires
            in_i32(target_x - old(self).screen_w / 2),
            in_i32(target_y - old(self).screen_h / 2),
        ensures
            *final(self) == (Viewport {
                x: (target_x - old(self).screen_w / 2) as i32,
                y: (target_y - old(self).screen_h / 2) as i32,
                ..*old(self)
            }),
    {
        self.x = target_x - (self.screen_w as i32 / 2);
        self.y = target_y - (self.screen_h as i32 / 2);
    }

    /// Pans the camera only when the target leaves the inner margin box.
    pub fn follow_deadzone(&mut self, target_x: i32, target_y: i32, margin_x: i32, margin_y: i32)
        requires
            deadzone_fits(old(self).x as int, target_x as int, old(self).screen_w as int, margin_x as int),
            deadzone_fits(old(self).y as int, target_y as int, old(self).screen_h as int, margin_y as int),
        ensures
            *final(self) == (Viewport {
                x: deadzone_axis(old(self).x as int, target_x as int, old(self).screen_w as int, margin_x as int) as i32,
                y: deadzone_axis(old(self).y as int, target_y as int, old(self).screen_h as int, margin_y as int) as i32,
                ..*old(self)
            }),
    {
        let left_edge = self.x + margin_x;
        let right_edge = self.x + self.screen_w as i32 - margin_x;
        let top_edge = self.y + margin_y;
        let bottom_edge = self.y + self.screen_h as i32 - margin_y;

        if target_x < left_edge {
            self.x = target_x - margin_x;
        } else if target_x > right_edge {
            self.x = target_x - self.screen_w as i32 + margin_x;
        }
        if target_y < top_edge {
            self.y = target_y - margin_y;
        } else if target_y > bottom_edge {
            self.y = target_y - self.screen_h as i32 + margin_y;
        }
    }

    /// Clamps the camera to stay within world limits `[min_x..max_x, min_y..max_y]`.
    pub fn clamp(&mut self, min_x: i32, max_x: i32, min_y: i32, max_y: i32)
        requires
            in_i32(max_x - old(self).screen_w),
            in_i32(max_y - old(self).screen_h),
        ensures
            *final(self) == (Viewport {
                x: clamp_axis(old(self).x as int, min_x as int, max_x as int, old(self).screen_w as int) as i32,
                y: clamp_axis(old(self).y as int, min_y as int, max_y as int, old(self).screen_h as int) as i32,
                ..*old(self)
            }),
    {
        let bound_max_x: i32 = max_x - self.screen_w as i32;
        let bound_max_y: i32 = max_y - self.screen_h as i32;
        let hi_x: i32 = if bound_max_x > min_x { bound_max_x } else { min_x };
        let hi_y: i32 = if bound_max_y > min_y { bound_max_y } else { min_y };
        self.x = if self.x < min_x {
            min_x
        } else if self.x > hi_x {
            hi_x
        } else {
            self.x
        };
        self.y = if self.y < min_y {
            min_y
        } else if self.y > hi_y {
            hi_y
        } else {
            self.y
        };
    }

    /// Converts world coordinates to screen coordinates (narrowed to `i16`).
    pub fn world_to_screen(&self, wx: i32, wy: i32) -> (p: (i16, i16))
        requires
            in_i32(self.screen_x_of(wx as int)),
            in_i32(wx - self.x),
            in_i32(self.screen_y_of(wy as int)),
            in_i32(wy - self.y),
        ensures
            p.0 == self.screen_x_of(wx as int) as i16,
            p.1 == self.screen_y_of(wy as int) as i16,
    {
        (
            (wx - self.x + self.screen_x as i32) as i16,
            (wy - self.y + self.screen_y as i32) as i16,
        )
    }

    /// Whether a world-space box intersects the window.
    pub fn is_visible(&self, wx: i32, wy: i32, w: u16, h: u16) -> (v: bool)
        requires
            in_i32(wx - self.x),
            in_i32(wy - self.y),
            in_i32(wx - self.x + w),
            in_i32(wy - self.y + h),
        ensures
            v == self.spec_is_visible(wx as int, wy as int, w as int, h as int),
    {
        let sx = wx - self.x;
        let sy = wy - self.y;
        sx + (w as i32) > 0 && sx < self.screen_w as i32 && sy + (h as i32) > 0 && sy < self.screen_h as i32
    }
}

/// After a camera has been centered on a target, that target sits at the
/// middle of the window (rounding down for odd sizes).
pub proof fn lemma_look_at_centers(v: Viewport, tx: i32, ty: i32)
    requires
        in_i32(tx - v.screen_w / 2),
        in_i32(ty - v.screen_h / 2),
    ensures
        ({
            let c = Viewport { x: (tx - v.screen_w / 2) as i32, y: (ty - v.screen_h / 2) as i32, ..v };
            c.screen_x_of(tx as int) == v.screen_x + v.screen_w / 2 && c.screen_y_of(ty as int)
                == v.screen_y + v.screen_h / 2
        }),
{
}

/// Following a target with margins that leave room inside the window puts
/// the target inside the margin box, and a target already inside it does
/// not move the camera.
pub proof fn lemma_deadzone_contains_target(pos: int, target: int, size: int, margin: int)
    requires
        0 <= margin,
        2 * margin <= size,
    ensures
        ({
            let p = deadzone_axis(pos, target, size, margin);
            p + margin <= target <= p + size - margin
        }),
        pos + margin <= target <= pos + size - margin ==> deadzone_axis(pos, target, size, margin)
            == pos,
{
}

/// Clamping keeps the camera between the low bound and the high bound, and
/// clamping twice changes nothing more.
pub proof fn lemma_clamp_bounds(pos: int, min: int, max: int, size: int)
    ensures
        min <= clamp_axis(pos, min, max, size),
        max - size >= min ==> clamp_axis(pos, min, max, size) <= max - size,
        clamp_axis(clamp_axis(pos, min, max, size), min, max, size) == clamp_axis(pos, min, max, size),
{
}

/// Moving by a delta and then by its opposite restores the camera.
pub proof fn lemma_move_by_inverse(v: Viewport, dx: i32, dy: i32)
    requires
        in_i32(v.x + dx),
        in_i32(v.y + dy),
        in_i32(-dx),
        in_i32(-dy),
    ensures
        ({
            let m = Viewport { x: (v.x + dx) as i32, y: (v.y + dy) as i32, ..v };
            (Viewport { x: (m.x - dx) as i32, y: (m.y - dy) as i32, ..m }) == v
        }),
{
}

} // verus!
