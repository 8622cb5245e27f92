//! Axis-aligned bounding box queries and collision resolution.

use vstd::prelude::*;

verus! {

/// Whether an integer fits an `i16`.
pub open spec fn in_i16(v: int) -> bool {
    i16::MIN <= v <= i16::MAX
}

/// An axis-aligned box placed relative to an anchor point.
#[derive(Clone, Copy, Debug, PartialEq, Eq, Structural)]
pub struct Hitbox {
    pub offset_x: i16,
    pub offset_y: i16,
    pub width: u16,
    pub height: u16,
    pub active: bool,
}

impl Hitbox {
    /// Left edge of the box placed at `anchor`.
    pub open spec fn x0(self, anchor: [i16; 2]) -> int {
        anchor[0] + self.offset_x
    }

    /// Top edge of the box placed at `anchor`.
    pub open spec fn y0(self, anchor: [i16; 2]) -> int {
        anchor[1] + self.offset_y
    }

    /// Right edge (exclusive); the width is read as an `i16`, as the code does.
    pub open spec fn x1(self, anchor: [i16; 2]) -> int {
        self.x0(anchor) + (self.width as i16)
    }

    /// Bottom edge (exclusive); the height is read as an `i16`, as the code does.
    pub open spec fn y1(self, anchor: [i16; 2]) -> int {
        self.y0(anchor) + (self.height as i16)
    }

    /// The bounds at `anchor` can be computed in `i16` without overflow.
    pub open spec fn fits(self, anchor: [i16; 2]) -> bool {
        in_i16(self.x0(anchor)) && in_i16(self.y0(anchor)) && in_i16(self.x1(anchor)) && in_i16(
            self.y1(anchor),
        )
    }

    /// Whether two boxes, both active, overlap with positive area.
    pub open spec fn spec_intersects(self, pos: [i16; 2], other: Hitbox, other_pos: [i16; 2]) -> bool {
        &&& self.active
        &&& other.active
        &&& self.x0(pos) < other.x1(other_pos)
        &&& self.x1(pos) > other.x0(other_pos)
        &&& self.y0(pos) < other.y1(other_pos)
        &&& self.y1(pos) > other.y0(other_pos)
    }

    /// Whether the point is inside the active box (right and bottom edges excluded).
    pub open spec fn spec_contains(self, pos: [i16; 2], px: int, py: int) -> bool {
        self.active && self.x0(pos) <= px < self.x1(pos) && self.y0(pos) <= py < self.y1(pos)
    }

    pub fn new(offset_x: i16, offset_y: i16, width: u16, height: u16) -> (h: Self)
        ensures
            h == (Hitbox { offset_x, offset_y, width, height, active: true }),
    {
        Self { offset_x, offset_y, width, height, active: true }
    }

    /// A box centered on its anchor.
    pub fn new_centered(width: u16, height: u16) -> (h: Self)
        ensures
            h.offset_x == -(width / 2),
            h.offset_y == -(height / 2),
            h.width == width && h.height == height && h.active,
    {
        Self {
            offset_x: -((width / 2) as i16),
            offset_y: -((height / 2) as i16),
            width,
            height,
            active: true,
        }
    }

    /// A box inset by a padding on each side of a `width` x `height` footprint.
    pub fn new_inset(width: u16, height: u16, pad_x: u16, pad_y: u16) -> (h: Self)
        requires
            pad_x * 2 <= u16::MAX,
            pad_y * 2 <= u16::MAX,
        ensures
            h.offset_x == pad_x as i16,
            h.offset_y == pad_y as i16,
            h.width == (if width >= pad_x * 2 { width - pad_x * 2 } else { 0 }),
            h.height == (if height >= pad_y * 2 { height - pad_y * 2 } else { 0 }),
            h.active,
    {
        Self {
            offset_x: pad_x as i16,
            offset_y: pad_y as i16,
            width: width.saturating_sub(pad_x * 2),
            height: height.saturating_sub(pad_y * 2),
            active: true,
        }
    }

    /// World-space bounds `[x0, y0, x1, y1]` of the box placed at `anchor`.
    pub fn world_bounds(&self, anchor: [i16; 2]) -> (b: [i16; 4])
        requires
            self.fits(anchor),
        ensures
            b[0] == self.x0(anchor),
            b[1] == self.y0(anchor),
            b[2] == self.x1(anchor),
            b[3] == self.y1(anchor),
    {
        let x0 = anchor[0] + self.offset_x;
        let y0 = anchor[1] + self.offset_y;
        [x0, y0, x0 + self.width as i16, y0 + self.height as i16]
    }

    /// Center `[cx, cy]` of the box placed at `anchor`.
    pub fn center(&self, anchor: [i16; 2]) -> (c: [i16; 2])
        requires
            in_i16(self.x0(anchor)),
            in_i16(self.y0(anchor)),
            in_i16(self.x0(anchor) + self.width / 2),
            in_i16(self.y0(anchor) + self.height / 2),
        ensures
            c[0] == self.x0(anchor) + self.width / 2,
            c[1] == self.y0(anchor) + self.height / 2,
    {
        [
            anchor[0] + self.offset_x + (self.width / 2) as i16,
            anchor[1] + self.offset_y + (self.height / 2) as i16,
        ]
    }

    /// Range of tiles `(col_start, row_start, col_end, row_end)` covered by
    /// the box, the end bounds exclusive; negative coordinates count as 0.
    pub fn tile_bounds<const TILE_SIZE: usize>(&self, anchor: [i16; 2]) -> (t: (usize, usize, usize, usize))
        requires
            self.fits(anchor),
            0 < TILE_SIZE <= i16::MAX,
            in_i16(self.x1(anchor) + TILE_SIZE),
            in_i16(self.y1(anchor) + TILE_SIZE),
        ensures
            t.0 == (if self.x0(anchor) > 0 { self.x0(anchor) } else { 0 }) / (TILE_SIZE as int),
            t.1 == (if self.y0(anchor) > 0 { self.y0(anchor) } else { 0 }) / (TILE_SIZE as int),
            t.2 == ((if self.x1(anchor) > 0 { self.x1(anchor) } else { 0 }) + TILE_SIZE - 1) / (
            TILE_SIZE as int),
            t.3 == ((if self.y1(anchor) > 0 { self.y1(anchor) } else { 0 }) + TILE_SIZE - 1) / (
            TILE_SIZE as int),
    {
        let b = self.world_bounds(anchor);
        let ts: i16 = TILE_SIZE as i16;
        let x0: i16 = if b[0] > 0 { b[0] } else { 0 };
        let y0: i16 = if b[1] > 0 { b[1] } else { 0 };
        let x1: i16 = if b[2] > 0 { b[2] } else { 0 };
        let y1: i16 = if b[3] > 0 { b[3] } else { 0 };
        ((x0 / ts) as usize, (y0 / ts) as usize, ((x1 + ts - 1) / ts) as usize, ((y1 + ts - 1) / ts) as usize)
    }

    /// Whether both boxes are active and overlap with positive area.
    pub fn intersects(&self, pos: [i16; 2], other: &Self, other_pos: [i16; 2]) -> (r: bool)
        requires
            self.fits(pos),
            other.fits(other_pos),
        ensures
            r == self.spec_intersects(pos, *other, other_pos),
    {
        if !self.active || !other.active {
            return false;
        }
        let a = self.world_bounds(pos);
        let b = other.world_bounds(other_pos);
        a[0] < b[2] && a[2] > b[0] && a[1] < b[3] && a[3] > b[1]
    }

    /// The overlapping rectangle `[x0, y0, x1, y1]` when the boxes intersect.
    pub fn overlap_rect(&self, pos: [i16; 2], other: &Self, other_pos: [i16; 2]) -> (r: Option<[i16; 4]>)
        requires
            self.fits(pos),
            other.fits(other_pos),
        ensures
            r is Some <==> self.spec_intersects(pos, *other, other_pos),
            r matches Some(o) ==> {
                &&& o[0] == (if self.x0(pos) > other.x0(other_pos) { self.x0(pos) } else { other.x0(other_pos) })
                &&& o[1] == (if self.y0(pos) > other.y0(other_pos) { self.y0(pos) } else { other.y0(other_pos) })
                &&& o[2] == (if self.x1(pos) < other.x1(other_pos) { self.x1(pos) } else { other.x1(other_pos) })
                &&& o[3] == (if self.y1(pos) < other.y1(other_pos) { self.y1(pos) } else { other.y1(other_pos) })
            },
    {
        if !self.intersects(pos, other, other_pos) {
            return None;
        }
        let a = self.world_bounds(pos);
        let b = other.world_bounds(other_pos);
        Some(
            [
                if a[0] > b[0] { a[0] } else { b[0] },
                if a[1] > b[1] { a[1] } else { b[1] },
                if a[2] < b[2] { a[2] } else { b[2] },
                if a[3] < b[3] { a[3] } else { b[3] },
            ],
        )
    }

    /// Minimum translation `[dx, dy]` that pushes `self` out of `other`,
    /// along the axis of smaller overlap (vertical on ties).
    pub fn penetration_depth(&self, pos: [i16; 2], other: &Self, other_pos: [i16; 2]) -> (r: Option<[i16; 2]>)
        requires
            self.fits(pos),
            other.fits(other_pos),
        ensures
            r is Some <==> self.spec_intersects(pos, *other, other_pos),
            r matches Some(d) ==> {
                let ow = (if self.x1(pos) < other.x1(other_pos) { self.x1(pos) } else { other.x1(other_pos) })
                    - (if self.x0(pos) > other.x0(other_pos) { self.x0(pos) } else { other.x0(other_pos) });
                let oh = (if self.y1(pos) < other.y1(other_pos) { self.y1(pos) } else { other.y1(other_pos) })
                    - (if self.y0(pos) > other.y0(other_pos) { self.y0(pos) } else { other.y0(other_pos) });
                if ow < oh {
                    d[0] == (if self.x0(pos) < other.x0(other_pos) { -ow } else { ow }) && d[1] == 0
                } else {
                    d[0] == 0 && d[1] == (if self.y0(pos) < other.y0(other_pos) { -oh } else { oh })
                }
            },
    {
        let o = match self.overlap_rect(pos, other, other_pos) {
            Some(o) => o,
            None => return None,
        };
        let overlap_w: i16 = o[2] - o[0];
        let overlap_h: i16 = o[3] - o[1];
        let a = self.world_bounds(pos);
        let b = other.world_bounds(other_pos);
        if overlap_w < overlap_h {
            let push_x: i16 = if a[0] < b[0] { -overlap_w } else { overlap_w };
            Some([push_x, 0])
        } else {
            let push_y: i16 = if a[1] < b[1] { -overlap_h } else { overlap_h };
            Some([0, push_y])
        }
    }

    /// Whether the point lies inside the active box.
    pub fn contains_point(&self, pos: [i16; 2], px: i16, py: i16) -> (r: bool)
        requires
            self.fits(pos),
        ensures
            r == self.spec_contains(pos, px as int, py as int),
    {
        if !self.active {
            return false;
        }
        let b = self.world_bounds(pos);
        px >= b[0] && px < b[2] && py >= b[1] && py < b[3]
    }

    pub fn resize(&mut self, width: u16, height: u16)
        ensures
            *final(self) == (Hitbox { width, height, ..*old(self) }),
    {
        self.width = width;
        self.height = height;
    }

    pub fn set_offset(&mut self, ox: i16, oy: i16)
        ensures
            *final(self) == (Hitbox { offset_x: ox, offset_y: oy, ..*old(self) }),
    {
        self.offset_x = ox;
        self.offset_y = oy;
    }
}

/// Intersection does not depend on which box asks.
pub proof fn lemma_intersects_symmetric(a: Hitbox, pa: [i16; 2], b: Hitbox, pb: [i16; 2])
    ensures
        a.spec_intersects(pa, b, pb) == b.spec_intersects(pb, a, pa),
{
}

/// Two active boxes that contain a common point intersect.
pub proof fn lemma_common_point_intersects(a: Hitbox, pa: [i16; 2], b: Hitbox, pb: [i16; 2], px: int, py: int)
    requires
        a.spec_contains(pa, px, py),
        b.spec_contains(pb, px, py),
    ensures
        a.spec_intersects(pa, b, pb),
{
}

} // verus!
