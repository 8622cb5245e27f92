//! Tile layers: wrapping, parallax, tile lookup, collision and sparse invalidation.

use vstd::prelude::*;

use crate::num_engine::bits::{bit_set, lemma_or_bit};
use crate::num_engine::dirty_grid::DirtyGrid;
use crate::num_engine::euclid::{div_euclid_i32, rem_euclid_i32};
use crate::num_engine::texture::Animation;
use crate::num_engine::viewport::{in_i32, Viewport};
use crate::num_engine::hitbox::in_i16;
use crate::graphical::tiling::Tileset;

verus! {

/// Rust's signed division, which rounds toward zero.
pub open spec fn trunc_div(a: int, b: int) -> int {
    if a >= 0 && b > 0 {
        a / b
    } else if a < 0 && b > 0 {
        -((-a) / b)
    } else if a >= 0 && b < 0 {
        -(a / (-b))
    } else {
        (-a) / (-b)
    }
}

/// Per-axis infinite tiling configuration.
#[derive(Clone, Copy, Debug, PartialEq, Eq, Structural)]
pub enum WrapMode {
    NoWrap,
    Horizontal,
    Vertical,
    Both,
}

impl WrapMode {
    pub open spec fn spec_wraps_x(self) -> bool {
        self is Horizontal || self is Both
    }

    pub open spec fn spec_wraps_y(self) -> bool {
        self is Vertical || self is Both
    }

    /// Whether the layer repeats horizontally.
    pub fn wraps_x(self) -> (r: bool)
        ensures
            r == self.spec_wraps_x(),
    {
        match self {
            WrapMode::Horizontal | WrapMode::Both => true,
            _ => false,
        }
    }

    /// Whether the layer repeats vertically.
    pub fn wraps_y(self) -> (r: bool)
        ensures
            r == self.spec_wraps_y(),
    {
        match self {
            WrapMode::Vertical | WrapMode::Both => true,
            _ => false,
        }
    }
}

/// Values that stand for a wrap mode: a mode itself, or a flag that asks
/// for wrapping on both axes or on none.
pub trait IntoWrapMode {
    fn into_wrap_mode(self) -> WrapMode;
}

impl IntoWrapMode for WrapMode {
    fn into_wrap_mode(self) -> (m: WrapMode)
        ensures
            m == self,
    {
        self
    }
}

impl IntoWrapMode for bool {
    fn into_wrap_mode(self) -> (m: WrapMode)
        ensures
            m == (if self { WrapMode::Both } else { WrapMode::NoWrap }),
    {
        if self {
            WrapMode::Both
        } else {
            WrapMode::NoWrap
        }
    }
}

/// Parallax scroll rate `factor_num / factor_den` of the camera.
#[derive(Clone, Copy, Debug, PartialEq, Eq, Structural)]
pub struct Parallax {
    pub factor_num: i16,
    pub factor_den: i16,
}

impl Parallax {
    /// The scroll of a layer for a camera at `cam`.
    pub open spec fn spec_apply(self, cam: int) -> int {
        if self.factor_num == 0 {
            0
        } else if self.factor_num == self.factor_den {
            cam
        } else {
            trunc_div(cam * self.factor_num, self.factor_den as int)
        }
    }

    /// Applying the ratio to `cam` stays within `i32` and does not divide
    /// by zero (nor `i32::MIN` by -1).
    pub open spec fn apply_ok(self, cam: int) -> bool {
        (self.factor_num != 0 && self.factor_num != self.factor_den) ==> {
            &&& self.factor_den != 0
            &&& i32::MIN <= cam * self.factor_num <= i32::MAX
            &&& !(cam * self.factor_num == i32::MIN && self.factor_den == -1)
        }
    }

    /// A layer that does not scroll.
    pub fn fixed() -> (p: Self)
        ensures
            p == (Parallax { factor_num: 0, factor_den: 1 }),
    {
        Self { factor_num: 0, factor_den: 1 }
    }

    /// A layer that scrolls with the camera.
    pub fn foreground() -> (p: Self)
        ensures
            p == (Parallax { factor_num: 1, factor_den: 1 }),
    {
        Self { factor_num: 1, factor_den: 1 }
    }

    /// A layer `dist` times farther than the foreground (`0` counts as 1).
    pub fn from_distance(dist: u16) -> (p: Self)
        ensures
            p.factor_num == 1,
            p.factor_den == (if dist == 0 { 1 } else { dist as i16 }),
    {
        Self { factor_num: 1, factor_den: if dist == 0 { 1 } else { dist as i16 } }
    }

    /// The ratio `num / den` (a zero denominator counts as 1).
    pub fn ratio(num: i16, den: i16) -> (p: Self)
        ensures
            p.factor_num == num,
            p.factor_den == (if den == 0 { 1 } else { den }),
    {
        Self { factor_num: num, factor_den: if den == 0 { 1 } else { den } }
    }

    /// Whether the ratio can be applied to `cam` (see `apply_ok`).
    pub fn can_apply(&self, cam: i32) -> (b: bool)
        ensures
            b == self.apply_ok(cam as int),
    {
        let num: i64 = self.factor_num as i64;
        let den: i64 = self.factor_den as i64;
        if num == 0 || num == den {
            return true;
        }
        if den == 0 {
            return false;
        }
        assert(-0x8000_0000 * 0x8000 <= cam as i64 * num <= 0x8000_0000 * 0x8000) by (nonlinear_arith)
            requires
                -0x8000_0000 <= cam <= 0x7fff_ffff,
                -0x8000 <= num <= 0x7fff,
        ;
        let prod: i64 = cam as i64 * num;
        prod >= -0x8000_0000 && prod <= 0x7fff_ffff && !(prod == -0x8000_0000 && den == -1)
    }

    /// The scroll of the layer for a camera at `cam`.
    pub fn apply(&self, cam: i32) -> (r: i32)
        requires
            self.apply_ok(cam as int),
        ensures
            r == self.spec_apply(cam as int),
    {
        if self.factor_num == 0 {
            0
        } else if self.factor_num == self.factor_den {
            cam
        } else {
            let p: i32 = cam * self.factor_num as i32;
            let d: i32 = self.factor_den as i32;
            if d > 0 {
                p / d
            } else {
                let q: i32 = p / (-d);
                assert(q == trunc_div(p as int, (-d) as int));
                assert(q > i32::MIN) by (nonlinear_arith)
                    requires
                        q == trunc_div(p as int, (-d) as int),
                        -d >= 1,
                        i32::MIN <= p <= i32::MAX,
                        !(p == i32::MIN && d == -1),
                ;
                -q
            }
        }
    }
}


/// Index along one axis of a layer of `n` tiles: wrapped around when the
/// axis repeats, `None` outside the layer otherwise.
pub open spec fn axis_index(t: int, n: int, wraps: bool) -> Option<int> {
    if wraps {
        Some(t % n)
    } else if 0 <= t < n {
        Some(t)
    } else {
        None
    }
}

/// Whether bit `i` of a 16-bit mask is set.
pub open spec fn bit16(mask: u16, i: int) -> bool {
    0 <= i < 16 && (mask >> (i as u16)) & 1u16 == 1u16
}

/// Whether tile `t` names an animation slot (among the first 16) whose bit is set in `mask`.
pub open spec fn mask_hit(t: Option<[u8; 2]>, mask: u16) -> bool {
    match t {
        Some(c) => c[0] >= 128 && c[0] - 128 < 16 && bit16(mask, c[0] - 128),
        None => false,
    }
}

/// Setting bit `i0` of a 16-bit mask sets that bit and leaves the others.
pub proof fn lemma_or_bit16(x: u16, i0: u16, i: u16)
    requires
        i0 < 16,
        i < 16,
    ensures
        bit16(x | (1u16 << i0), i as int) == (bit16(x, i as int) || i == i0),
        x | (1u16 << i0) != 0,
{
    assert(((x | (1u16 << i0)) >> i) & 1u16 == 1u16 <==> ((x >> i) & 1u16 == 1u16 || i == i0))
        by (bit_vector)
        requires
            i0 < 16,
            i < 16,
    ;
    assert(x | (1u16 << i0) != 0) by (bit_vector)
        requires
            i0 < 16,
    ;
}

/// Row-major index of cell `(x, y)` in a grid of `cols` columns lies within the grid.
pub proof fn lemma_grid_index(x: int, y: int, cols: int, rows: int)
    requires
        0 <= x < cols,
        0 <= y < rows,
    ensures
        0 <= y * cols + x < cols * rows,
{
    assert(y * cols + x < cols * rows) by (nonlinear_arith)
        requires
            0 <= x < cols,
            0 <= y < rows,
    ;
    assert(0 <= y * cols) by (nonlinear_arith)
        requires
            0 <= y,
            0 <= cols,
    ;
}

/// A non-zero remainder means the divisor is at least 2, so the quotient
/// can be incremented without leaving `i32`.
pub proof fn lemma_quotient_room(a: int, ts: int)
    requires
        1 <= ts,
        a <= i32::MAX,
        a % ts != 0,
    ensures
        a / ts < i32::MAX,
{
    if ts == 1 {
        assert(a % 1 == 0);
    } else {
        assert(a / ts <= a / 2 || a < 0) by (nonlinear_arith)
            requires
                ts >= 2,
        ;
        assert(a / ts < i32::MAX) by (nonlinear_arith)
            requires
                ts >= 2,
                a <= i32::MAX,
        ;
    }
}

/// A grid of optional tile coordinates drawn from a tileset, placed at an
/// offset in the world, scrolled by an origin and a parallax ratio, and
/// optionally repeating. Tile coordinates whose first byte is 128 or more
/// name an animation slot (`first byte - 128`).
pub struct Tilemap<'a, const TILE_SIZE: usize, const CELL_AREA: usize> {
    pub tileset: &'a Tileset,
    /// Row-major tiles, `cols * rows` of them.
    pub data: Vec<Option<[u8; 2]>>,
    pub cols: usize,
    pub rows: usize,
    pub anim_slots: &'a [&'a Animation<'a>],
    pub z: u8,
    pub transparent: bool,
    pub parallax: Parallax,
    pub wrap: WrapMode,
    /// Scrolling translation in world pixels.
    pub origin_x: i32,
    pub origin_y: i32,
    pub prev_origin_x: i32,
    pub prev_origin_y: i32,
    /// Placement of the layer in the world.
    pub offset: [i16; 2],
    pub moved: bool,
}

impl<'a, const TILE_SIZE: usize, const CELL_AREA: usize> Tilemap<'a, TILE_SIZE, CELL_AREA> {
    /// The data covers the grid, the sizes fit `i32`, repeating axes are
    /// non-empty, and animations with frames advance.
    pub open spec fn wf(self) -> bool {
        &&& 0 < TILE_SIZE <= u16::MAX
        &&& self.data@.len() == self.cols * self.rows
        &&& self.cols <= i32::MAX && self.rows <= i32::MAX
        &&& self.wrap.spec_wraps_x() ==> self.cols > 0
        &&& self.wrap.spec_wraps_y() ==> self.rows > 0
        &&& forall|i: int|
            0 <= i < self.anim_slots@.len() ==> (#[trigger] self.anim_slots@[i]).frames@.len() > 0 ==> self.anim_slots@[i].speed > 0
    }

    /// The tile at tile coordinates `(tx, ty)`, following wrapping.
    pub open spec fn spec_tile_coord(self, tx: int, ty: int) -> Option<[u8; 2]> {
        match (axis_index(tx, self.cols as int, self.wrap.spec_wraps_x()), axis_index(ty, self.rows as int, self.wrap.spec_wraps_y())) {
            (Some(x), Some(y)) => self.data@[y * self.cols + x],
            _ => None,
        }
    }

    pub open spec fn spec_has_tile(self, tx: int, ty: int) -> bool {
        self.spec_tile_coord(tx, ty) is Some
    }

    /// Whether `p` holds of a tile overlapping a tile-sized cell at
    /// layer-relative pixel `(rel_x, rel_y)` (up to four tiles when the cell
    /// straddles tile borders).
    pub open spec fn cell_any(self, rel_x: int, rel_y: int, p: spec_fn(Option<[u8; 2]>) -> bool) -> bool {
        let ts = TILE_SIZE as int;
        let bx = rel_x / ts;
        let by = rel_y / ts;
        let mx = rel_x % ts != 0;
        let my = rel_y % ts != 0;
        ||| p(self.spec_tile_coord(bx, by))
        ||| mx && p(self.spec_tile_coord(bx + 1, by))
        ||| my && p(self.spec_tile_coord(bx, by + 1))
        ||| mx && my && p(self.spec_tile_coord(bx + 1, by + 1))
    }

    /// Whether a tile-sized cell at layer-relative pixel `(rel_x, rel_y)` overlaps any tile.
    pub open spec fn spec_cell_has_tiles(self, rel_x: int, rel_y: int) -> bool {
        self.cell_any(rel_x, rel_y, |t: Option<[u8; 2]>| t is Some)
    }

    /// Whether animation slot `i` advances at frame `frame`.
    pub open spec fn slot_active(self, i: int, frame: u32) -> bool {
        0 <= i < self.anim_slots@.len() && self.anim_slots@[i].speed > 0 && (frame as int) % (self.anim_slots@[i].speed as int) == 0
    }

    /// Whether tile `t` shows an animation (among the first 16 slots) that advances at `frame`.
    pub open spec fn tile_anim_active(self, t: Option<[u8; 2]>, frame: u32) -> bool {
        match t {
            Some(c) => c[0] >= 128 && c[0] - 128 < 16 && self.slot_active(c[0] - 128, frame),
            None => false,
        }
    }

    /// Whether a tile-sized cell at layer-relative pixel `(rel_x, rel_y)`
    /// overlaps a tile whose animation advances at `frame`.
    pub open spec fn spec_cell_has_anim(self, rel_x: int, rel_y: int, frame: u32) -> bool {
        self.cell_any(rel_x, rel_y, |t: Option<[u8; 2]>| self.tile_anim_active(t, frame))
    }

    /// Whether some animation slot advances at `frame`.
    pub open spec fn any_slot_active(self, frame: u32) -> bool {
        exists|i: int| 0 <= i < 16 && #[trigger] self.slot_active(i, frame)
    }

    /// Effective scroll of the layer on one axis: parallax camera, origin and offset.
    pub open spec fn eff(self, cam: int, origin: int, offset: int) -> int {
        self.parallax.spec_apply(cam) + origin + offset
    }

    /// The scroll computations of one axis fit `i32`, and so do the cell
    /// coordinates relative to the layer on a screen of at most 65535 pixels.
    pub open spec fn eff_ok(self, cam: int, origin: int, offset: int) -> bool {
        &&& self.parallax.apply_ok(cam)
        &&& in_i32(self.parallax.spec_apply(cam) + origin)
        &&& u16::MAX - i32::MAX <= self.eff(cam, origin, offset) <= i32::MAX
    }

    /// Whether `mask` has, among its 16 bits, exactly the bits of the slots active at `frame`.
    pub open spec fn mask_of(self, mask: u16, frame: u32) -> bool {
        forall|i: int| 0 <= i < 16 ==> #[trigger] bit16(mask, i) == self.slot_active(i, frame)
    }

    /// Whether screen cell `(cx, cy)` must be redrawn this frame: the layer
    /// moved and a tile overlaps the cell at the current or the previous
    /// position, or an animation that advances overlaps it.
    pub open spec fn cell_marked(self, cx: int, cy: int, frame: u32, cam_x: int, cam_y: int) -> bool {
        let ts = TILE_SIZE as int;
        let ex = self.eff(cam_x, self.origin_x as int, self.offset[0] as int);
        let ey = self.eff(cam_y, self.origin_y as int, self.offset[1] as int);
        let pex = self.eff(cam_x, self.prev_origin_x as int, self.offset[0] as int);
        let pey = self.eff(cam_y, self.prev_origin_y as int, self.offset[1] as int);
        ||| self.moved && self.spec_cell_has_tiles(cx * ts - ex, cy * ts - ey)
        ||| self.moved && self.spec_cell_has_tiles(cx * ts - pex, cy * ts - pey)
        ||| self.spec_cell_has_anim(cx * ts - ex, cy * ts - ey, frame)
    }

    /// A layer at the world origin, not scrolled and not yet moved.
    pub fn new(
        tileset: &'a Tileset,
        data: Vec<Option<[u8; 2]>>,
        cols: usize,
        rows: usize,
        anim_slots: &'a [&'a Animation<'a>],
        z: u8,
        transparent: bool,
        parallax: Parallax,
        wrap: WrapMode,
    ) -> (m: Self)
        ensures
            m.tileset == tileset && m.data == data && m.cols == cols && m.rows == rows,
            m.anim_slots == anim_slots && m.z == z && m.transparent == transparent,
            m.parallax == parallax && m.wrap == wrap,
            m.origin_x == 0 && m.origin_y == 0 && m.prev_origin_x == 0 && m.prev_origin_y == 0,
            m.offset == [0i16, 0i16],
            !m.moved,
    {
        Self {
            tileset,
            data,
            cols,
            rows,
            anim_slots,
            z,
            transparent,
            parallax,
            wrap,
            origin_x: 0,
            origin_y: 0,
            prev_origin_x: 0,
            prev_origin_y: 0,
            offset: [0, 0],
            moved: false,
        }
    }

    /// The same layer placed at `offset` in the world.
    pub fn with_offset(self, offset: [i16; 2]) -> (m: Self)
        ensures
            m == (Tilemap { offset, ..self }),
    {
        let mut m = self;
        m.offset = offset;
        m
    }

    /// Places the layer at `offset` in the world.
    pub fn set_offset(&mut self, offset: [i16; 2])
        ensures
            *final(self) == (Tilemap { offset, moved: true, ..*old(self) }),
    {
        self.offset = offset;
        self.moved = true;
    }

    /// Sets the scrolling translation; the layer counts as moved only when it changes.
    pub fn set_origin(&mut self, x: i32, y: i32)
        ensures
            *final(self) == if old(self).origin_x != x || old(self).origin_y != y {
                Tilemap { origin_x: x, origin_y: y, moved: true, ..*old(self) }
            } else {
                *old(self)
            },
    {
        if self.origin_x != x || self.origin_y != y {
            self.origin_x = x;
            self.origin_y = y;
            self.moved = true;
        }
    }

    /// Latches the origin as the previous one and clears the moved flag.
    pub fn commit_frame(&mut self)
        ensures
            *final(self) == (Tilemap {
                prev_origin_x: old(self).origin_x,
                prev_origin_y: old(self).origin_y,
                moved: false,
                ..*old(self)
            }),
    {
        self.prev_origin_x = self.origin_x;
        self.prev_origin_y = self.origin_y;
        self.moved = false;
    }

    /// The tile at `(x, y)`, `None` outside the grid (no wrapping).
    pub fn get_tile(&self, x: usize, y: usize) -> (t: Option<[u8; 2]>)
        requires
            self.wf(),
        ensures
            t == (if x < self.cols && y < self.rows { self.data@[y * self.cols + x] } else { None }),
    {
        if x < self.cols && y < self.rows {
            let _len = self.data.len();
            proof {
                lemma_grid_index(x as int, y as int, self.cols as int, self.rows as int);
            }
            self.data[y * self.cols + x]
        } else {
            None
        }
    }

    /// Sets the tile at `(x, y)` and marks the layer moved (no effect outside the grid).
    pub fn set_tile(&mut self, x: usize, y: usize, tile: Option<[u8; 2]>)
        requires
            old(self).wf(),
        ensures
            final(self).wf(),
            *final(self) == if x < old(self).cols && y < old(self).rows {
                Tilemap {
                    data: final(self).data,
                    moved: true,
                    ..*old(self)
                }
            } else {
                *old(self)
            },
            x < old(self).cols && y < old(self).rows ==> final(self).data@ == old(self).data@.update(
                y * old(self).cols + x,
                tile,
            ),
    {
        if x < self.cols && y < self.rows {
            let _len = self.data.len();
            proof {
                lemma_grid_index(x as int, y as int, self.cols as int, self.rows as int);
            }
            let i = y * self.cols + x;
            self.data.set(i, tile);
            self.moved = true;
        }
    }

    /// The tile at tile coordinates `(tx, ty)`, following wrapping.
    pub fn get_tile_coord(&self, tx: i32, ty: i32) -> (t: Option<[u8; 2]>)
        requires
            self.wf(),
        ensures
            t == self.spec_tile_coord(tx as int, ty as int),
    {
        let rtx: usize = if self.wrap.wraps_x() {
            rem_euclid_i32(tx, self.cols as i32) as usize
        } else if tx >= 0 && tx < self.cols as i32 {
            tx as usize
        } else {
            return None;
        };
        let rty: usize = if self.wrap.wraps_y() {
            rem_euclid_i32(ty, self.rows as i32) as usize
        } else if ty >= 0 && ty < self.rows as i32 {
            ty as usize
        } else {
            return None;
        };
        let _len = self.data.len();
        proof {
            lemma_grid_index(rtx as int, rty as int, self.cols as int, self.rows as int);
        }
        self.data[rty * self.cols + rtx]
    }

    /// Whether a tile is present at tile coordinates `(tx, ty)`.
    pub fn has_tile(&self, tx: i32, ty: i32) -> (r: bool)
        requires
            self.wf(),
        ensures
            r == self.spec_has_tile(tx as int, ty as int),
    {
        self.get_tile_coord(tx, ty).is_some()
    }

    /// Whether a cell at layer-relative pixel `(rel_x, rel_y)` overlaps any tile.
    pub fn cell_has_tiles(&self, rel_x: i32, rel_y: i32) -> (r: bool)
        requires
            self.wf(),
        ensures
            r == self.spec_cell_has_tiles(rel_x as int, rel_y as int),
    {
        let ts: i32 = TILE_SIZE as i32;
        let base_tx = div_euclid_i32(rel_x, ts);
        let base_ty = div_euclid_i32(rel_y, ts);
        let mx: bool = rem_euclid_i32(rel_x, ts) != 0;
        let my: bool = rem_euclid_i32(rel_y, ts) != 0;
        if mx {
            proof {
                lemma_quotient_room(rel_x as int, ts as int);
            }
        }
        if my {
            proof {
                lemma_quotient_room(rel_y as int, ts as int);
            }
        }
        if self.has_tile(base_tx, base_ty) {
            return true;
        }
        if mx && self.has_tile(base_tx + 1, base_ty) {
            return true;
        }
        if my && self.has_tile(base_tx, base_ty + 1) {
            return true;
        }
        if mx && my && self.has_tile(base_tx + 1, base_ty + 1) {
            return true;
        }
        false
    }

    /// Whether tile coordinates `(tx, ty)` hold a tile of an animation slot set in `mask`.
    fn anim_at(&self, tx: i32, ty: i32, mask: u16) -> (r: bool)
        requires
            self.wf(),
        ensures
            r == mask_hit(self.spec_tile_coord(tx as int, ty as int), mask),
    {
        match self.get_tile_coord(tx, ty) {
            Some(coord) => {
                if coord[0] >= 128 {
                    let slot: u8 = coord[0] - 128;
                    slot < 16 && (mask >> (slot as u16)) & 1u16 == 1u16
                } else {
                    false
                }
            },
            None => false,
        }
    }

    /// Whether a cell at layer-relative pixel `(rel_x, rel_y)` overlaps a
    /// tile of an animation slot whose bit is set in `mask`.
    pub fn cell_has_anim(&self, rel_x: i32, rel_y: i32, mask: u16) -> (r: bool)
        requires
            self.wf(),
        ensures
            r == self.cell_any(rel_x as int, rel_y as int, |t: Option<[u8; 2]>| mask_hit(t, mask)),
    {
        let ts: i32 = TILE_SIZE as i32;
        let base_tx = div_euclid_i32(rel_x, ts);
        let base_ty = div_euclid_i32(rel_y, ts);
        let mx: bool = rem_euclid_i32(rel_x, ts) != 0;
        let my: bool = rem_euclid_i32(rel_y, ts) != 0;
        if mx {
            proof {
                lemma_quotient_room(rel_x as int, ts as int);
            }
        }
        if my {
            proof {
                lemma_quotient_room(rel_y as int, ts as int);
            }
        }
        if self.anim_at(base_tx, base_ty, mask) {
            return true;
        }
        if mx && self.anim_at(base_tx + 1, base_ty, mask) {
            return true;
        }
        if my && self.anim_at(base_tx, base_ty + 1, mask) {
            return true;
        }
        if mx && my && self.anim_at(base_tx + 1, base_ty + 1, mask) {
            return true;
        }
        false
    }

    /// The mask of the animation slots (among at most 16) that advance at `frame_counter`.
    pub fn active_anim_mask(&self, frame_counter: u32) -> (mask: u16)
        requires
            self.anim_slots@.len() <= 16,
        ensures
            self.mask_of(mask, frame_counter),
            (mask == 0) == !self.any_slot_active(frame_counter),
    {
        let mut mask: u16 = 0;
        let mut any: bool = false;
        let mut i: usize = 0;
        assert forall|j: int| 0 <= j < 16 implies !#[trigger] bit16(0u16, j) by {
            let jj: u16 = j as u16;
            assert((0u16 >> jj) & 1u16 == 0u16) by (bit_vector);
        }
        while i < self.anim_slots.len()
            invariant
                i <= self.anim_slots@.len() <= 16,
                forall|j: int| 0 <= j < 16 ==> #[trigger] bit16(mask, j) == (j < i && self.slot_active(j, frame_counter)),
                (mask == 0) == !any,
                any == exists|j: int| 0 <= j < i && #[trigger] self.slot_active(j, frame_counter),
            decreases self.anim_slots@.len() - i,
        {
            let anim = self.anim_slots[i];
            if anim.speed > 0 && frame_counter % (anim.speed as u32) == 0 {
                let ghost before = mask;
                mask = mask | (1u16 << (i as u16));
                any = true;
                proof {
                    assert forall|j: int| 0 <= j < 16 implies #[trigger] bit16(mask, j) == (j < i + 1 && self.slot_active(j, frame_counter)) by {
                        lemma_or_bit16(before, i as u16, j as u16);
                    }
                    lemma_or_bit16(before, i as u16, 0);
                    assert(self.slot_active(i as int, frame_counter));
                }
            } else {
                proof {
                    assert(!self.slot_active(i as int, frame_counter));
                    assert forall|j: int| 0 <= j < i + 1 && #[trigger] self.slot_active(j, frame_counter) implies j < i by {}
                }
            }
            i += 1;
        }
        proof {
            if any {
                let j = choose|j: int| 0 <= j < i && #[trigger] self.slot_active(j, frame_counter);
                assert(0 <= j < 16 && self.slot_active(j, frame_counter));
            } else {
                assert forall|j: int| 0 <= j < 16 implies !#[trigger] self.slot_active(j, frame_counter) by {
                    if j < i {
                    } else {
                        assert(j >= self.anim_slots@.len());
                    }
                }
            }
        }
        mask
    }

    /// With the mask of the active slots, checking the mask is checking the slots.
    pub proof fn lemma_mask_anim(self, mask: u16, frame: u32, rel_x: int, rel_y: int)
        requires
            self.mask_of(mask, frame),
        ensures
            self.cell_any(rel_x, rel_y, |t: Option<[u8; 2]>| mask_hit(t, mask)) == self.spec_cell_has_anim(rel_x, rel_y, frame),
    {
        let f1 = |t: Option<[u8; 2]>| mask_hit(t, mask);
        let f2 = |t: Option<[u8; 2]>| self.tile_anim_active(t, frame);
        assert forall|t: Option<[u8; 2]>| #[trigger] mask_hit(t, mask) == self.tile_anim_active(t, frame) by {
            match t {
                Some(c) => {
                    if c[0] >= 128 && c[0] - 128 < 16 {
                        assert(bit16(mask, c[0] - 128) == self.slot_active(c[0] - 128, frame));
                    }
                },
                None => {},
            }
        }
        assert(f1 =~= f2);
    }

    /// With no active slot, no cell shows an advancing animation.
    pub proof fn lemma_no_anim(self, frame: u32, rel_x: int, rel_y: int)
        requires
            !self.any_slot_active(frame),
        ensures
            !self.spec_cell_has_anim(rel_x, rel_y, frame),
    {
        let f2 = |t: Option<[u8; 2]>| self.tile_anim_active(t, frame);
        assert forall|t: Option<[u8; 2]>| !#[trigger] self.tile_anim_active(t, frame) by {
            match t {
                Some(c) => {
                    if c[0] >= 128 && c[0] - 128 < 16 {
                        assert(!self.slot_active(c[0] - 128, frame));
                    }
                },
                None => {},
            }
        }
    }

    /// Marks dirty the screen cells that this layer changes this frame: when
    /// the layer moved, every cell overlapping one of its tiles at the
    /// current or the previous position; and every cell overlapping a tile
    /// whose animation advances at `frame_counter`.
    pub fn mark_sparse_dirty<const SCREEN_COLS: usize, const SCREEN_ROWS: usize>(
        &self,
        frame_counter: u32,
        grid: &mut DirtyGrid<TILE_SIZE, SCREEN_COLS, SCREEN_ROWS>,
        cam_x: i32,
        cam_y: i32,
    )
        requires
            self.wf(),
            DirtyGrid::<TILE_SIZE, SCREEN_COLS, SCREEN_ROWS>::params_ok(),
            self.anim_slots@.len() <= 16,
            self.moved || self.any_slot_active(frame_counter) ==> {
                &&& self.eff_ok(cam_x as int, self.origin_x as int, self.offset[0] as int)
                &&& self.eff_ok(cam_y as int, self.origin_y as int, self.offset[1] as int)
                &&& self.eff_ok(cam_x as int, self.prev_origin_x as int, self.offset[0] as int)
                &&& self.eff_ok(cam_y as int, self.prev_origin_y as int, self.offset[1] as int)
            },
        ensures
            final(grid).prev == old(grid).prev,
            forall|r: int, c: int|
                0 <= r < SCREEN_ROWS && 0 <= c < 32 ==> #[trigger] bit_set(final(grid).curr@[r], c) == (bit_set(
                    old(grid).curr@[r],
                    c,
                ) || (c < SCREEN_COLS && self.cell_marked(c, r, frame_counter, cam_x as int, cam_y as int))),
    {
        let active_anim_mask: u16 = self.active_anim_mask(frame_counter);
        if !self.moved && active_anim_mask == 0 {
            proof {
                assert forall|r: int, c: int| 0 <= r < SCREEN_ROWS && 0 <= c < 32 implies !self.cell_marked(c, r, frame_counter, cam_x as int, cam_y as int) by {
                    let ts = TILE_SIZE as int;
                    let ex = self.eff(cam_x as int, self.origin_x as int, self.offset[0] as int);
                    let ey = self.eff(cam_y as int, self.origin_y as int, self.offset[1] as int);
                    self.lemma_no_anim(frame_counter, c * ts - ex, r * ts - ey);
                }
            }
            return;
        }
        let ax: i32 = self.parallax.apply(cam_x);
        let ay: i32 = self.parallax.apply(cam_y);
        let eff_x: i32 = ax + self.origin_x + self.offset[0] as i32;
        let eff_y: i32 = ay + self.origin_y + self.offset[1] as i32;
        let prev_eff_x: i32 = ax + self.prev_origin_x + self.offset[0] as i32;
        let prev_eff_y: i32 = ay + self.prev_origin_y + self.offset[1] as i32;
        let ghost old_curr = grid.curr;
        let mut cy: usize = 0;
        while cy < SCREEN_ROWS
            invariant
                self.wf(),
                DirtyGrid::<TILE_SIZE, SCREEN_COLS, SCREEN_ROWS>::params_ok(),
                cy <= SCREEN_ROWS,
                self.mask_of(active_anim_mask, frame_counter),
                (active_anim_mask == 0) == !self.any_slot_active(frame_counter),
                eff_x == self.eff(cam_x as int, self.origin_x as int, self.offset[0] as int),
                eff_y == self.eff(cam_y as int, self.origin_y as int, self.offset[1] as int),
                prev_eff_x == self.eff(cam_x as int, self.prev_origin_x as int, self.offset[0] as int),
                prev_eff_y == self.eff(cam_y as int, self.prev_origin_y as int, self.offset[1] as int),
                u16::MAX - i32::MAX <= eff_x && u16::MAX - i32::MAX <= eff_y,
                u16::MAX - i32::MAX <= prev_eff_x && u16::MAX - i32::MAX <= prev_eff_y,
                grid.prev == old(grid).prev,
                old_curr == old(grid).curr,
                forall|r: int, c: int|
                    0 <= r < SCREEN_ROWS && 0 <= c < 32 ==> #[trigger] bit_set(grid.curr@[r], c) == (bit_set(old_curr@[r], c) || (c
                        < SCREEN_COLS && r < cy && self.cell_marked(c, r, frame_counter, cam_x as int, cam_y as int))),
            decreases SCREEN_ROWS - cy,
        {
            assert(cy * TILE_SIZE <= u16::MAX) by (nonlinear_arith)
                requires
                    cy < SCREEN_ROWS,
                    SCREEN_ROWS * TILE_SIZE <= u16::MAX,
            ;
            let py: i32 = (cy * TILE_SIZE) as i32;
            let rel_y: i32 = py - eff_y;
            let prev_rel_y: i32 = py - prev_eff_y;
            let mut cx: usize = 0;
            while cx < SCREEN_COLS
                invariant
                    self.wf(),
                    DirtyGrid::<TILE_SIZE, SCREEN_COLS, SCREEN_ROWS>::params_ok(),
                    cy < SCREEN_ROWS,
                    cx <= SCREEN_COLS,
                    self.mask_of(active_anim_mask, frame_counter),
                    (active_anim_mask == 0) == !self.any_slot_active(frame_counter),
                    eff_x == self.eff(cam_x as int, self.origin_x as int, self.offset[0] as int),
                    eff_y == self.eff(cam_y as int, self.origin_y as int, self.offset[1] as int),
                    prev_eff_x == self.eff(cam_x as int, self.prev_origin_x as int, self.offset[0] as int),
                    prev_eff_y == self.eff(cam_y as int, self.prev_origin_y as int, self.offset[1] as int),
                    u16::MAX - i32::MAX <= eff_x && u16::MAX - i32::MAX <= prev_eff_x,
                    rel_y == cy * TILE_SIZE - eff_y,
                    prev_rel_y == cy * TILE_SIZE - prev_eff_y,
                    grid.prev == old(grid).prev,
                    forall|r: int, c: int|
                        0 <= r < SCREEN_ROWS && 0 <= c < 32 ==> #[trigger] bit_set(grid.curr@[r], c) == (bit_set(old_curr@[r], c) || (c
                            < SCREEN_COLS && (r < cy || (r == cy && c < cx)) && self.cell_marked(c, r, frame_counter, cam_x as int, cam_y as int))),
                decreases SCREEN_COLS - cx,
            {
                assert(cx * TILE_SIZE <= u16::MAX) by (nonlinear_arith)
                    requires
                        cx < SCREEN_COLS,
                        SCREEN_COLS * TILE_SIZE <= u16::MAX,
                ;
                let px: i32 = (cx * TILE_SIZE) as i32;
                let rel_x: i32 = px - eff_x;
                let prev_rel_x: i32 = px - prev_eff_x;
                let mut mark: bool = false;
                if self.moved {
                    mark = self.cell_has_tiles(rel_x, rel_y) || self.cell_has_tiles(prev_rel_x, prev_rel_y);
                }
                if !mark && active_anim_mask != 0 {
                    mark = self.cell_has_anim(rel_x, rel_y, active_anim_mask);
                }
                proof {
                    self.lemma_mask_anim(active_anim_mask, frame_counter, rel_x as int, rel_y as int);
                    if active_anim_mask == 0 {
                        self.lemma_no_anim(frame_counter, rel_x as int, rel_y as int);
                    }
                    assert(mark == self.cell_marked(cx as int, cy as int, frame_counter, cam_x as int, cam_y as int));
                }
                if mark {
                    grid.mark_cell(cx, cy);
                }
                cx += 1;
            }
            cy += 1;
        }
    }

    /// Whether some tile lies in the tile rectangle `[cs, ce] x [rs, re]`.
    pub open spec fn spec_tiles_in(self, cs: int, ce: int, rs: int, re: int) -> bool {
        exists|c: int, r: int| cs <= c <= ce && rs <= r <= re && #[trigger] self.spec_has_tile(c, r)
    }

    /// Whether a world rectangle overlaps a tile of the layer: its position
    /// relative to the layer's placement and scroll, its covered tiles, and
    /// any tile among them.
    pub open spec fn spec_collides(self, x: int, y: int, width: int, height: int) -> bool {
        let ts = TILE_SIZE as int;
        let lx = (x - self.offset[0]) - self.origin_x;
        let ly = (y - self.offset[1]) - self.origin_y;
        width != 0 && height != 0 && self.spec_tiles_in(lx / ts, (lx + width - 1) / ts, ly / ts, (ly + height - 1) / ts)
    }

    /// The arithmetic of a collision query fits the integer types.
    pub open spec fn collide_ok(self, x: int, y: int, width: int, height: int) -> bool {
        &&& in_i16(x - self.offset[0])
        &&& in_i16(y - self.offset[1])
        &&& in_i32((x - self.offset[0]) - self.origin_x)
        &&& in_i32((y - self.offset[1]) - self.origin_y)
        &&& in_i32((x - self.offset[0]) - self.origin_x + width)
        &&& in_i32((y - self.offset[1]) - self.origin_y + height)
    }

    /// Whether the world rectangle `(x, y, width, height)` overlaps a tile (an empty rectangle overlaps none).
    pub fn collides_with_rect(&self, x: i16, y: i16, width: u16, height: u16) -> (r: bool)
        requires
            self.wf(),
            self.collide_ok(x as int, y as int, width as int, height as int),
        ensures
            r == self.spec_collides(x as int, y as int, width as int, height as int),
    {
        if width == 0 || height == 0 {
            return false;
        }
        let local_x: i32 = (x - self.offset[0]) as i32 - self.origin_x;
        let local_y: i32 = (y - self.offset[1]) as i32 - self.origin_y;
        let x1: i32 = local_x + width as i32;
        let y1: i32 = local_y + height as i32;
        let ts: i32 = TILE_SIZE as i32;
        let c_start = div_euclid_i32(local_x, ts);
        let r_start = div_euclid_i32(local_y, ts);
        let c_end = div_euclid_i32(x1 - 1, ts);
        let r_end = div_euclid_i32(y1 - 1, ts);
        assert(c_start <= c_end) by (nonlinear_arith)
            requires
                ts >= 1,
                local_x <= x1 - 1,
                c_start == local_x as int / ts as int,
                c_end == (x1 - 1) as int / ts as int,
        ;
        assert(r_start <= r_end) by (nonlinear_arith)
            requires
                ts >= 1,
                local_y <= y1 - 1,
                r_start == local_y as int / ts as int,
                r_end == (y1 - 1) as int / ts as int,
        ;
        self.any_tile_in(c_start, c_end, r_start, r_end)
    }

    /// Whether some tile lies in the tile rectangle `[cs, ce] x [rs, re]`, scanned row by row.
    fn any_tile_in(&self, cs: i32, ce: i32, rs: i32, re: i32) -> (b: bool)
        requires
            self.wf(),
            cs <= ce,
            rs <= re,
        ensures
            b == self.spec_tiles_in(cs as int, ce as int, rs as int, re as int),
    {
        let mut r: i32 = rs;
        loop
            invariant
                self.wf(),
                rs <= r <= re,
                cs <= ce,
                forall|cc: int, rr: int| cs <= cc <= ce && rs <= rr < r ==> !#[trigger] self.spec_has_tile(cc, rr),
            decreases re - r,
        {
            let mut c: i32 = cs;
            loop
                invariant
                    self.wf(),
                    rs <= r <= re,
                    cs <= c <= ce,
                    forall|cc: int, rr: int| cs <= cc <= ce && rs <= rr < r ==> !#[trigger] self.spec_has_tile(cc, rr),
                    forall|cc: int| cs <= cc < c ==> !#[trigger] self.spec_has_tile(cc, r as int),
                ensures
                    forall|cc: int| cs <= cc <= ce ==> !#[trigger] self.spec_has_tile(cc, r as int),
                decreases ce - c,
            {
                if self.has_tile(c, r) {
                    assert(self.spec_has_tile(c as int, r as int));
                    return true;
                }
                if c == ce {
                    break;
                }
                c += 1;
            }
            if r == re {
                assert(forall|cc: int, rr: int| cs <= cc <= ce && rs <= rr <= re ==> !#[trigger] self.spec_has_tile(cc, rr));
                return false;
            }
            r += 1;
        }
    }
}

} // verus!
