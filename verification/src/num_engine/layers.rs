//! The layers a frame is made of, and how one screen cell is composed from
//! them: nearest layer first, each drawing only where nearer ones left
//! pixels uncovered, the clear color filling what remains.

use vstd::prelude::*;

use crate::eadk::Color;
use crate::num_engine::cellbuf::{count_true, cov_fn, coverage_ok, lands_pred, lemma_count_none, src_lands};
use crate::num_engine::compositor::Compositor;
use crate::num_engine::hitbox::in_i16;
use crate::num_engine::sprite::Sprite;
use crate::num_engine::tilemap::Tilemap;
use crate::num_engine::viewport::{in_i32, Viewport};
use crate::num_engine::engine_items::{convertible, screen_pos};

verus! {

broadcast use vstd::array::group_array_axioms;

/// A layer of a frame, drawn in order of its `z`.
#[derive(Clone, Copy)]
pub enum Renderable<'r, 'a, const TILE_SIZE: usize, const CELL_AREA: usize> {
    Tilemap(&'r Tilemap<'a, TILE_SIZE, CELL_AREA>),
    /// A sprite placed in the world, seen through the camera.
    Sprite(&'r Sprite<'a, TILE_SIZE, CELL_AREA>),
    /// A sprite placed in window coordinates.
    UiSprite(&'r Sprite<'a, TILE_SIZE, CELL_AREA>),
}

impl<'r, 'a, const TILE_SIZE: usize, const CELL_AREA: usize> Renderable<'r, 'a, TILE_SIZE, CELL_AREA> {
    pub open spec fn spec_z(self) -> u8 {
        match self {
            Renderable::Tilemap(tm) => tm.z,
            Renderable::Sprite(s) => s.z,
            Renderable::UiSprite(s) => s.z,
        }
    }

    /// Depth of the layer: larger is nearer.
    pub fn z(&self) -> (z: u8)
        ensures
            z == self.spec_z(),
    {
        match self {
            Renderable::Tilemap(tm) => tm.z,
            Renderable::Sprite(s) => s.z,
            Renderable::UiSprite(s) => s.z,
        }
    }

    /// Whether the layer hides everything behind it: an opaque tilemap.
    pub fn is_opaque(&self) -> (o: bool)
        ensures
            o == (match self {
                Renderable::Tilemap(tm) => !tm.transparent,
                _ => false,
            }),
    {
        match self {
            Renderable::Tilemap(tm) => !tm.transparent,
            _ => false,
        }
    }
}

/// The screen box, clipped to the window, that a layer spanning
/// Where a layer of depth `z` goes in the layers `s` sorted by depth:
/// after every layer not deeper than it.
pub open spec fn z_insert_pos<'r, 'a, const TILE_SIZE: usize, const CELL_AREA: usize>(s: Seq<Renderable<'r, 'a, TILE_SIZE, CELL_AREA>>, z: u8) -> int
    decreases s.len(),
{
    if s.len() == 0 {
        0
    } else if s.last().spec_z() <= z {
        s.len() as int
    } else {
        z_insert_pos(s.drop_last(), z)
    }
}

/// The layers sorted by depth, farthest first, layers of equal depth in
/// their given order.
pub open spec fn sorted_by_z<'r, 'a, const TILE_SIZE: usize, const CELL_AREA: usize>(s: Seq<Renderable<'r, 'a, TILE_SIZE, CELL_AREA>>) -> Seq<Renderable<'r, 'a, TILE_SIZE, CELL_AREA>>
    decreases s.len(),
{
    if s.len() == 0 {
        Seq::empty()
    } else {
        let r = sorted_by_z(s.drop_last());
        r.insert(z_insert_pos(r, s.last().spec_z()), s.last())
    }
}

proof fn lemma_z_insert_pos_bound<'r, 'a, const TILE_SIZE: usize, const CELL_AREA: usize>(s: Seq<Renderable<'r, 'a, TILE_SIZE, CELL_AREA>>, z: u8)
    ensures
        0 <= z_insert_pos(s, z) <= s.len(),
    decreases s.len(),
{
    if s.len() > 0 {
        lemma_z_insert_pos_bound(s.drop_last(), z);
    }
}

proof fn lemma_z_insert_pos_prefix<'r, 'a, const TILE_SIZE: usize, const CELL_AREA: usize>(s: Seq<Renderable<'r, 'a, TILE_SIZE, CELL_AREA>>, z: u8, j: int)
    requires
        0 <= j <= s.len(),
        forall|k: int| j <= k < s.len() ==> (#[trigger] s[k]).spec_z() > z,
    ensures
        z_insert_pos(s, z) == z_insert_pos(s.take(j), z),
    decreases s.len() - j,
{
    if j < s.len() {
        assert(s.drop_last() =~= s.take(s.len() - 1));
        lemma_z_insert_pos_prefix(s.drop_last(), z, j);
        assert(s.drop_last().take(j) =~= s.take(j));
    } else {
        assert(s.take(j) =~= s);
    }
}

/// The layers of a frame in drawing order, farthest first (layers of equal
/// depth in their given order), keeping the `cap` farthest.
pub fn order_layers<'r, 'a, const TILE_SIZE: usize, const CELL_AREA: usize>(items: &[Renderable<'r, 'a, TILE_SIZE, CELL_AREA>], cap: usize) -> (v: Vec<Renderable<'r, 'a, TILE_SIZE, CELL_AREA>>)
    ensures
        v@ == sorted_by_z(items@).take(if items@.len() < cap { items@.len() as int } else { cap as int }),
{
    let mut v: Vec<Renderable<'r, 'a, TILE_SIZE, CELL_AREA>> = Vec::new();
    let mut i: usize = 0;
    while i < items.len()
        invariant
            i <= items@.len(),
            v@ == sorted_by_z(items@.take(i as int)),
            v@.len() == i,
        decreases items@.len() - i,
    {
        let item = items[i];
        let z = item.z();
        let mut j: usize = v.len();
        while j > 0 && v[j - 1].z() > z
            invariant
                j <= v@.len(),
                forall|k: int| j <= k < v@.len() ==> (#[trigger] v@[k]).spec_z() > z,
            decreases j,
        {
            j -= 1;
        }
        proof {
            lemma_z_insert_pos_prefix(v@, z, j as int);
            if j > 0 {
                assert(v@.take(j as int).last() == v@[j - 1]);
                assert(v@.take(j as int).len() == j);
            } else {
                assert(v@.take(0) =~= Seq::<Renderable<'r, 'a, TILE_SIZE, CELL_AREA>>::empty());
            }
            assert(z_insert_pos(v@, z) == j);
            let t = items@.take(i + 1);
            assert(t.drop_last() =~= items@.take(i as int));
            assert(t.last() == item);
        }
        v.insert(j, item);
        i += 1;
    }
    assert(items@.take(items@.len() as int) =~= items@);
    if cap < v.len() {
        v.truncate(cap);
    }
    proof {
        let n = if items@.len() < cap { items@.len() as int } else { cap as int };
        assert(v@ =~= sorted_by_z(items@).take(n));
    }
    v
}

/// `[sx0, sx1) x [sy0, sy1)` occupies; `None` when it misses the window.
pub open spec fn clip_box(v: Viewport, sx0: int, sy0: int, sx1: int, sy1: int) -> Option<(int, int, int, int)> {
    let wx0 = v.screen_x as int;
    let wy0 = v.screen_y as int;
    let wx1 = wx0 + v.screen_w;
    let wy1 = wy0 + v.screen_h;
    if sx0 >= wx1 || sx1 <= wx0 || sy0 >= wy1 || sy1 <= wy0 {
        None
    } else {
        Some((
            if sx0 > wx0 { sx0 } else { wx0 },
            if sy0 > wy0 { sy0 } else { wy0 },
            if sx1 < wx1 { sx1 } else { wx1 },
            if sy1 < wy1 { sy1 } else { wy1 },
        ))
    }
}

/// `r` is the box `b`, or `None` when `b` is.
pub open spec fn bounds_are(r: Option<[i16; 4]>, b: Option<(int, int, int, int)>) -> bool {
    match b {
        None => r is None,
        Some(t) => r matches Some(a) && a[0] == t.0 && a[1] == t.1 && a[2] == t.2 && a[3] == t.3,
    }
}

impl<'a, const TILE_SIZE: usize, const CELL_AREA: usize> Tilemap<'a, TILE_SIZE, CELL_AREA> {
    /// Left edge on screen of the layer's extent along x (the window's edge when it repeats).
    pub open spec fn screen_x0(self, v: Viewport) -> int {
        let wx0 = v.screen_x as int;
        if self.wrap.spec_wraps_x() {
            wx0
        } else {
            wx0 + (self.eff(v.x as int, self.origin_x as int, self.offset[0] as int) as i16)
        }
    }

    /// Top edge on screen of the layer's extent along y (the window's edge when it repeats).
    pub open spec fn screen_y0(self, v: Viewport) -> int {
        let wy0 = v.screen_y as int;
        if self.wrap.spec_wraps_y() {
            wy0
        } else {
            wy0 + (self.eff(v.y as int, self.origin_y as int, self.offset[1] as int) as i16)
        }
    }

    /// Right edge on screen of the layer's extent.
    pub open spec fn screen_x1(self, v: Viewport) -> int {
        if self.wrap.spec_wraps_x() {
            v.screen_x + v.screen_w
        } else {
            self.screen_x0(v) + ((self.cols * TILE_SIZE) as i16)
        }
    }

    /// Bottom edge on screen of the layer's extent.
    pub open spec fn screen_y1(self, v: Viewport) -> int {
        if self.wrap.spec_wraps_y() {
            v.screen_y + v.screen_h
        } else {
            self.screen_y0(v) + ((self.rows * TILE_SIZE) as i16)
        }
    }

    /// The screen box of the layer can be computed without overflow.
    pub open spec fn bounds_ok(self, v: Viewport) -> bool {
        &&& v.screen_x + v.screen_w <= i16::MAX
        &&& v.screen_y + v.screen_h <= i16::MAX
        &&& self.parallax.apply_ok(v.x as int)
        &&& self.parallax.apply_ok(v.y as int)
        &&& in_i32(self.parallax.spec_apply(v.x as int) + self.origin_x)
        &&& in_i32(self.parallax.spec_apply(v.y as int) + self.origin_y)
        &&& in_i32(self.eff(v.x as int, self.origin_x as int, self.offset[0] as int))
        &&& in_i32(self.eff(v.y as int, self.origin_y as int, self.offset[1] as int))
        &&& self.cols * TILE_SIZE <= usize::MAX
        &&& self.rows * TILE_SIZE <= usize::MAX
        &&& in_i16(self.screen_x0(v))
        &&& in_i16(self.screen_y0(v))
        &&& in_i16(self.screen_x1(v))
        &&& in_i16(self.screen_y1(v))
    }

    /// The box, clipped to the window, that the layer occupies on screen,
    /// following its placement and scroll; a repeating axis spans the
    /// whole window. `None` when the layer misses the window.
    pub fn screen_bounds(&self, viewport: &Viewport) -> (r: Option<[i16; 4]>)
        requires
            self.bounds_ok(*viewport),
        ensures
            bounds_are(
                r,
                clip_box(*viewport, self.screen_x0(*viewport), self.screen_y0(*viewport), self.screen_x1(*viewport), self.screen_y1(*viewport)),
            ),
    {
        let win_x0: i16 = viewport.screen_x as i16;
        let win_y0: i16 = viewport.screen_y as i16;
        let win_x1: i16 = win_x0 + viewport.screen_w as i16;
        let win_y1: i16 = win_y0 + viewport.screen_h as i16;
        let eff_x: i32 = self.parallax.apply(viewport.x) + self.origin_x + self.offset[0] as i32;
        let eff_y: i32 = self.parallax.apply(viewport.y) + self.origin_y + self.offset[1] as i32;
        let sx0: i16 = if self.wrap.wraps_x() { win_x0 } else { win_x0 + eff_x as i16 };
        let sy0: i16 = if self.wrap.wraps_y() { win_y0 } else { win_y0 + eff_y as i16 };
        let sx1: i16 = if self.wrap.wraps_x() { win_x1 } else { sx0 + (self.cols * TILE_SIZE) as i16 };
        let sy1: i16 = if self.wrap.wraps_y() { win_y1 } else { sy0 + (self.rows * TILE_SIZE) as i16 };
        if sx0 >= win_x1 || sx1 <= win_x0 || sy0 >= win_y1 || sy1 <= win_y0 {
            None
        } else {
            Some(
                [
                    if sx0 > win_x0 { sx0 } else { win_x0 },
                    if sy0 > win_y0 { sy0 } else { win_y0 },
                    if sx1 < win_x1 { sx1 } else { win_x1 },
                    if sy1 < win_y1 { sy1 } else { win_y1 },
                ],
            )
        }
    }
}

impl<'r, 'a, const TILE_SIZE: usize, const CELL_AREA: usize> Renderable<'r, 'a, TILE_SIZE, CELL_AREA> {
    /// The screen box of the layer can be computed without overflow.
    pub open spec fn bounds_ok(self, v: Viewport) -> bool {
        match self {
            Renderable::Tilemap(tm) => tm.bounds_ok(v),
            Renderable::Sprite(s) => {
                &&& s.wf()
                &&& convertible(v, s.position)
                &&& in_i16(screen_pos(v, s.position).0 + s.spec_width())
                &&& in_i16(screen_pos(v, s.position).1 + s.spec_height())
            },
            Renderable::UiSprite(s) => {
                &&& s.wf()
                &&& in_i16(s.position[0] + s.spec_width())
                &&& in_i16(s.position[1] + s.spec_height())
            },
        }
    }

    /// The screen box of the layer: the clipped extent of a tilemap, or the
    /// box of a sprite at its screen position.
    pub fn screen_bounds(&self, viewport: &Viewport) -> (r: Option<[i16; 4]>)
        requires
            self.bounds_ok(*viewport),
        ensures
            match self {
                Renderable::Tilemap(tm) => bounds_are(
                    r,
                    clip_box(*viewport, tm.screen_x0(*viewport), tm.screen_y0(*viewport), tm.screen_x1(*viewport), tm.screen_y1(*viewport)),
                ),
                Renderable::Sprite(s) => {
                    let p = screen_pos(*viewport, s.position);
                    bounds_are(r, Some((p.0 as int, p.1 as int, p.0 + s.spec_width(), p.1 + s.spec_height())))
                },
                Renderable::UiSprite(s) => bounds_are(
                    r,
                    Some((s.position[0] as int, s.position[1] as int, s.position[0] + s.spec_width(), s.position[1] + s.spec_height())),
                ),
            },
    {
        match self {
            Renderable::Tilemap(tm) => tm.screen_bounds(viewport),
            Renderable::Sprite(s) => {
                let (sx0, sy0) = viewport.world_to_screen(s.position[0] as i32, s.position[1] as i32);
                let sx1: i16 = sx0 + s.pixel_width() as i16;
                let sy1: i16 = sy0 + s.pixel_height() as i16;
                Some([sx0, sy0, sx1, sy1])
            },
            Renderable::UiSprite(s) => {
                let sx0 = s.position[0];
                let sy0 = s.position[1];
                let sx1: i16 = sx0 + s.pixel_width() as i16;
                let sy1: i16 = sy0 + s.pixel_height() as i16;
                Some([sx0, sy0, sx1, sy1])
            },
        }
    }
}

/// Pixels, coverage mask and count of covered pixels of a cell being composed.
pub type CellState = (Seq<Color>, Seq<bool>, int);

/// The cell after a tilemap drew into it (see `Tilemap::blit_to_cell_reverse_z`).
pub open spec fn tilemap_step<'a, const TILE_SIZE: usize, const CELL_AREA: usize>(
    tm: Tilemap<'a, TILE_SIZE, CELL_AREA>,
    cell: [usize; 2],
    cam: [i32; 2],
    frame: u32,
    st: CellState,
) -> CellState {
    let rx = tm.cell_rel_x(cell[0] as int, cam[0] as int);
    let ry = tm.cell_rel_y(cell[1] as int, cam[1] as int);
    let (buf, cov, pc) = st;
    if pc >= CELL_AREA {
        st
    } else if !tm.transparent && pc == 0 && tm.cell_full(rx, ry, frame) {
        (Seq::new(CELL_AREA as nat, |k: int| tm.cell_src(rx, ry, frame, k).unwrap()), cov, CELL_AREA as int)
    } else {
        (
            Seq::new(
                CELL_AREA as nat,
                |k: int|
                    if tm.lands_at(rx, ry, frame, cov, k) {
                        tm.cell_src(rx, ry, frame, k).unwrap()
                    } else {
                        buf[k]
                    },
            ),
            Seq::new(CELL_AREA as nat, |k: int| cov[k] || tm.lands_at(rx, ry, frame, cov, k)),
            pc + count_true(tm.lands_fn(rx, ry, frame, cov), 0, CELL_AREA as int),
        )
    }
}

/// The cell after a sprite drawn at screen position `spos` drew into it
/// (see `Sprite::blit_to_cell_reverse_z`).
pub open spec fn sprite_step<'a, const TILE_SIZE: usize, const CELL_AREA: usize>(
    s: Sprite<'a, TILE_SIZE, CELL_AREA>,
    cell_pos: [i16; 2],
    spos: [i16; 2],
    st: CellState,
) -> CellState {
    let (cx, cy, sx, sy) = (cell_pos[0] as int, cell_pos[1] as int, spos[0] as int, spos[1] as int);
    let src = s.src_fn(cx, cy, sx, sy);
    let tr = s.animation.desc.transparency;
    let (buf, cov, pc) = st;
    if pc >= CELL_AREA {
        st
    } else if !tr && pc == 0 && s.covers_cell(cx, cy, sx, sy) {
        (Seq::new(CELL_AREA as nat, |k: int| s.pixel(cx, cy, sx, sy, k).unwrap()), cov, CELL_AREA as int)
    } else {
        (
            Seq::new(
                CELL_AREA as nat,
                |k: int|
                    if src_lands(src, cov, tr, k) {
                        s.pixel(cx, cy, sx, sy, k).unwrap()
                    } else {
                        buf[k]
                    },
            ),
            Seq::new(CELL_AREA as nat, |k: int| cov[k] || src_lands(src, cov, tr, k)),
            pc + count_true(lands_pred(src, cov, tr), 0, CELL_AREA as int),
        )
    }
}

/// Whether a layer whose screen bounds are `bound` overlaps the cell
/// `[cell_x, cell_x1) x [cell_y, cell_y + TILE_SIZE)`.
pub open spec fn overlaps(bound: Option<[i16; 4]>, cell_pos: [i16; 2], cell_x1: i16, tile: int) -> bool {
    match bound {
        Some(b) => !(b[0] >= cell_x1 || b[2] <= cell_pos[0] || b[1] >= cell_pos[1] + tile || b[3] <= cell_pos[1]),
        None => false,
    }
}

/// The cell after layer `item`, with screen bounds `bound`, drew into it:
/// nothing when the layer misses the cell.
pub open spec fn layer_step<'r, 'a, const TILE_SIZE: usize, const CELL_AREA: usize>(
    item: Renderable<'r, 'a, TILE_SIZE, CELL_AREA>,
    bound: Option<[i16; 4]>,
    cell: [usize; 2],
    cell_pos: [i16; 2],
    cell_x1: i16,
    cam: [i32; 2],
    frame: u32,
    st: CellState,
) -> CellState {
    if !overlaps(bound, cell_pos, cell_x1, TILE_SIZE as int) {
        st
    } else {
        let b = bound.unwrap();
        match item {
            Renderable::Tilemap(tm) => tilemap_step(*tm, cell, cam, frame, st),
            Renderable::Sprite(s) => sprite_step(*s, cell_pos, [b[0], b[1]], st),
            Renderable::UiSprite(s) => sprite_step(*s, cell_pos, [b[0], b[1]], st),
        }
    }
}

/// The cell after the layers `[0, n)` drew into it, nearest (last) first,
/// stopping once it is full.
pub open spec fn compose<'r, 'a, const TILE_SIZE: usize, const CELL_AREA: usize>(
    items: Seq<Renderable<'r, 'a, TILE_SIZE, CELL_AREA>>,
    bounds: Seq<Option<[i16; 4]>>,
    n: int,
    cell: [usize; 2],
    cell_pos: [i16; 2],
    cell_x1: i16,
    cam: [i32; 2],
    frame: u32,
    st: CellState,
) -> CellState
    decreases n,
{
    if n <= 0 || st.2 >= CELL_AREA {
        st
    } else {
        compose(items, bounds, n - 1, cell, cell_pos, cell_x1, cam, frame, layer_step(items[n - 1], bounds[n - 1], cell, cell_pos, cell_x1, cam, frame, st))
    }
}

/// Layer `item` with screen bounds `bound` can be drawn into the cell.
pub open spec fn layer_ok<'r, 'a, const TILE_SIZE: usize, const CELL_AREA: usize>(
    item: Renderable<'r, 'a, TILE_SIZE, CELL_AREA>,
    bound: Option<[i16; 4]>,
    cell: [usize; 2],
    cell_pos: [i16; 2],
    cell_x1: i16,
    cam: [i32; 2],
    frame: u32,
) -> bool {
    overlaps(bound, cell_pos, cell_x1, TILE_SIZE as int) ==> match item {
        Renderable::Tilemap(tm) => {
            &&& tm.wf()
            &&& cell[0] * TILE_SIZE <= u16::MAX
            &&& cell[1] * TILE_SIZE <= u16::MAX
            &&& tm.eff_ok(cam[0] as int, tm.origin_x as int, tm.offset[0] as int)
            &&& tm.eff_ok(cam[1] as int, tm.origin_y as int, tm.offset[1] as int)
            &&& tm.cell_fits(tm.cell_rel_x(cell[0] as int, cam[0] as int), tm.cell_rel_y(cell[1] as int, cam[1] as int), frame)
        },
        Renderable::Sprite(s) | Renderable::UiSprite(s) => {
            let b = bound.unwrap();
            &&& s.wf()
            &&& in_i16(b[0] + s.spec_width())
            &&& in_i16(b[1] + s.spec_height())
            &&& s.cell_fits(cell_pos[0] as int, cell_pos[1] as int, b[0] as int, b[1] as int)
        },
    }
}

/// The nearest layer hides everything behind it in a cell it covers
/// entirely with opaque pixels: the composed cell is that layer's pixels.
pub proof fn lemma_nearest_opaque_hides<'r, 'a, const TILE_SIZE: usize, const CELL_AREA: usize>(
    items: Seq<Renderable<'r, 'a, TILE_SIZE, CELL_AREA>>,
    bounds: Seq<Option<[i16; 4]>>,
    cell: [usize; 2],
    cell_pos: [i16; 2],
    cell_x1: i16,
    cam: [i32; 2],
    frame: u32,
    buf: Seq<Color>,
    tm: &Tilemap<'a, TILE_SIZE, CELL_AREA>,
)
    requires
        CELL_AREA > 0,
        items.len() > 0,
        items.len() == bounds.len(),
        items.last() == Renderable::<'r, 'a, TILE_SIZE, CELL_AREA>::Tilemap(tm),
        overlaps(bounds.last(), cell_pos, cell_x1, TILE_SIZE as int),
        !tm.transparent,
        tm.cell_full(tm.cell_rel_x(cell[0] as int, cam[0] as int), tm.cell_rel_y(cell[1] as int, cam[1] as int), frame),
    ensures
        ({
            let st = compose(items, bounds, items.len() as int, cell, cell_pos, cell_x1, cam, frame, (buf, Seq::new(CELL_AREA as nat, |k: int| false), 0));
            let rx = tm.cell_rel_x(cell[0] as int, cam[0] as int);
            let ry = tm.cell_rel_y(cell[1] as int, cam[1] as int);
            &&& st.2 == CELL_AREA
            &&& forall|k: int| 0 <= k < CELL_AREA ==> #[trigger] st.0[k] == tm.cell_src(rx, ry, frame, k).unwrap()
        }),
{
    let n = items.len() as int;
    let init = (buf, Seq::new(CELL_AREA as nat, |k: int| false), 0int);
    let next = layer_step(items[n - 1], bounds[n - 1], cell, cell_pos, cell_x1, cam, frame, init);
    assert(next.2 == CELL_AREA);
    assert(compose(items, bounds, n - 1, cell, cell_pos, cell_x1, cam, frame, next) == next);
}

impl<const TILE_SIZE: usize, const CELL_AREA: usize, const SCREEN_COLS: usize, const SCREEN_ROWS: usize, const R_CAP: usize> Compositor<
    TILE_SIZE,
    CELL_AREA,
    SCREEN_COLS,
    SCREEN_ROWS,
    R_CAP,
> {
    /// Composes screen cell `(cx, cy)`, at screen position `cell_pos`, from
    /// the layers `items` sorted by depth, with their screen bounds: each
    /// layer, nearest first, draws only where nearer layers left pixels
    /// uncovered, and the clear color fills what no layer covered.
    pub fn composite_cell<'r, 'a>(
        &self,
        cx: usize,
        cy: usize,
        cell_pos: [i16; 2],
        cell_x1: i16,
        items: &[Renderable<'r, 'a, TILE_SIZE, CELL_AREA>],
        bounds: &[Option<[i16; 4]>],
        viewport: &Viewport,
        buffer: &mut [Color; CELL_AREA],
        covered: &mut [bool; CELL_AREA],
    )
        requires
            0 < TILE_SIZE <= i16::MAX,
            CELL_AREA == TILE_SIZE * TILE_SIZE,
            2 * CELL_AREA <= usize::MAX,
            in_i16(cell_pos[0] + TILE_SIZE),
            in_i16(cell_pos[1] + TILE_SIZE),
            items@.len() == bounds@.len(),
            forall|i: int|
                0 <= i < items@.len() ==> layer_ok(
                    #[trigger] items@[i],
                    bounds@[i],
                    [cx, cy],
                    cell_pos,
                    cell_x1,
                    [viewport.x, viewport.y],
                    self.frame,
                ),
        ensures
            ({
                let st = compose(
                    items@,
                    bounds@,
                    items@.len() as int,
                    [cx, cy],
                    cell_pos,
                    cell_x1,
                    [viewport.x, viewport.y],
                    self.frame,
                    (old(buffer)@, Seq::new(CELL_AREA as nat, |k: int| false), 0),
                );
                forall|k: int|
                    0 <= k < CELL_AREA ==> #[trigger] final(buffer)@[k] == if st.2 < CELL_AREA && !st.1[k] {
                        self.clear_color
                    } else {
                        st.0[k]
                    }
            }),
    {
        let ghost cell = [cx, cy];
        let ghost cam = [viewport.x, viewport.y];
        let ghost total = compose(
            items@,
            bounds@,
            items@.len() as int,
            cell,
            cell_pos,
            cell_x1,
            cam,
            self.frame,
            (buffer@, Seq::new(CELL_AREA as nat, |k: int| false), 0),
        );
        let mut i: usize = 0;
        while i < CELL_AREA
            invariant
                i <= CELL_AREA,
                buffer@ == old(buffer)@,
                forall|k: int| 0 <= k < i ==> !(#[trigger] covered@[k]),
            decreases CELL_AREA - i,
        {
            covered[i] = false;
            i += 1;
        }
        assert(covered@ =~= Seq::new(CELL_AREA as nat, |k: int| false));
        let mut pixels_covered: usize = 0;
        proof {
            lemma_count_none(cov_fn(covered@), 0, CELL_AREA as int);
        }
        let cell_x = cell_pos[0];
        let cell_y = cell_pos[1];
        let cell_y1: i16 = cell_y + TILE_SIZE as i16;
        let mut idx: usize = items.len();
        while idx > 0
            invariant
                0 < TILE_SIZE <= i16::MAX,
                CELL_AREA == TILE_SIZE * TILE_SIZE,
                2 * CELL_AREA <= usize::MAX,
                in_i16(cell_pos[0] + TILE_SIZE),
                in_i16(cell_pos[1] + TILE_SIZE),
                cell_x == cell_pos[0] && cell_y == cell_pos[1] && cell_y1 == cell_y + TILE_SIZE,
                cell == [cx, cy] && cam == [viewport.x, viewport.y],
                items@.len() == bounds@.len(),
                idx <= items@.len(),
                forall|i: int| 0 <= i < items@.len() ==> layer_ok(#[trigger] items@[i], bounds@[i], cell, cell_pos, cell_x1, cam, self.frame),
                coverage_ok(covered@, pixels_covered as int, CELL_AREA as int),
                compose(items@, bounds@, idx as int, cell, cell_pos, cell_x1, cam, self.frame, (buffer@, covered@, pixels_covered as int))
                    == total,
            ensures
                coverage_ok(covered@, pixels_covered as int, CELL_AREA as int),
                (buffer@, covered@, pixels_covered as int) == total,
            decreases idx,
        {
            if pixels_covered >= CELL_AREA {
                break;
            }
            let k = idx - 1;
            let ghost st = (buffer@, covered@, pixels_covered as int);
            assert(layer_ok(items@[k as int], bounds@[k as int], cell, cell_pos, cell_x1, cam, self.frame));
            match bounds[k] {
                None => {},
                Some(b) => {
                    if b[0] >= cell_x1 || b[2] <= cell_x || b[1] >= cell_y1 || b[3] <= cell_y {
                    } else {
                        match items[k] {
                            Renderable::Tilemap(tm) => {
                                tm.blit_to_cell_reverse_z([cx, cy], [viewport.x, viewport.y], buffer, covered, &mut pixels_covered, self.frame);
                            },
                            Renderable::Sprite(s) => {
                                s.blit_to_cell_reverse_z(buffer, covered, &mut pixels_covered, cell_pos, [b[0], b[1]]);
                            },
                            Renderable::UiSprite(s) => {
                                s.blit_to_cell_reverse_z(buffer, covered, &mut pixels_covered, cell_pos, [b[0], b[1]]);
                            },
                        }
                    }
                },
            }
            proof {
                let next = layer_step(items@[k as int], bounds@[k as int], cell, cell_pos, cell_x1, cam, self.frame, st);
                assert(buffer@ =~= next.0);
                assert(covered@ =~= next.1);
                assert(pixels_covered == next.2);
            }
            idx = k;
            if pixels_covered >= CELL_AREA {
                assert(compose(items@, bounds@, idx as int, cell, cell_pos, cell_x1, cam, self.frame, (buffer@, covered@, pixels_covered as int))
                    == (buffer@, covered@, pixels_covered as int));
                break;
            }
        }
        let ghost fin = (buffer@, covered@, pixels_covered as int);
        assert(fin == total);
        if pixels_covered < CELL_AREA {
            if pixels_covered == 0 {
                proof {
                    assert forall|k: int| 0 <= k < CELL_AREA implies !(#[trigger] covered@[k]) by {
                        if covered@[k] {
                            assert(cov_fn(covered@)(k));
                            crate::num_engine::cellbuf::lemma_count_split(cov_fn(covered@), 0, k, CELL_AREA as int);
                            crate::num_engine::cellbuf::lemma_count_split(cov_fn(covered@), k, k + 1, CELL_AREA as int);
                        }
                    }
                }
                let mut j: usize = 0;
                while j < CELL_AREA
                    invariant
                        j <= CELL_AREA,
                        forall|k: int| 0 <= k < j ==> #[trigger] buffer@[k] == self.clear_color,
                    decreases CELL_AREA - j,
                {
                    buffer[j] = self.clear_color;
                    j += 1;
                }
            } else {
                let ghost b0 = buffer@;
                let mut j: usize = 0;
                while j < CELL_AREA
                    invariant
                        j <= CELL_AREA,
                        forall|k: int| 0 <= k < CELL_AREA ==> #[trigger] buffer@[k] == if k < j && !covered@[k] {
                            self.clear_color
                        } else {
                            b0[k]
                        },
                    decreases CELL_AREA - j,
                {
                    if !covered[j] {
                        buffer[j] = self.clear_color;
                    }
                    j += 1;
                }
            }
        }
    }
}

} // verus!

verus! {

/// Whether layer `item` with screen bounds `bound` can be drawn into screen
/// cell `cell` at `cell_pos` (see `layer_ok`): a layer that misses the cell
/// always can.
pub fn layer_drawable<'r, 'a, const TILE_SIZE: usize, const CELL_AREA: usize>(
    item: &Renderable<'r, 'a, TILE_SIZE, CELL_AREA>,
    bound: Option<[i16; 4]>,
    cell: [usize; 2],
    cell_pos: [i16; 2],
    cell_x1: i16,
    cam: [i32; 2],
    frame: u32,
) -> (b: bool)
    requires
        0 < TILE_SIZE <= 0x7fff,
        CELL_AREA == TILE_SIZE * TILE_SIZE,
    ensures
        b == layer_ok(*item, bound, cell, cell_pos, cell_x1, cam, frame),
{
    let hit: bool = match bound {
        Some(bb) => !(bb[0] >= cell_x1 || bb[2] <= cell_pos[0] || bb[1] as i32 >= cell_pos[1] as i32 + TILE_SIZE as i32 || bb[3] <= cell_pos[1]),
        None => false,
    };
    if !hit {
        return true;
    }
    match item {
        Renderable::Tilemap(tm) => tm.cell_drawable(cell, cam, frame),
        Renderable::Sprite(s) => {
            let bb = bound.unwrap();
            s.cell_drawable(cell_pos[0], cell_pos[1], bb[0], bb[1])
        },
        Renderable::UiSprite(s) => {
            let bb = bound.unwrap();
            s.cell_drawable(cell_pos[0], cell_pos[1], bb[0], bb[1])
        },
    }
}

} // verus!

verus! {

impl<'a, const TILE_SIZE: usize, const CELL_AREA: usize> Tilemap<'a, TILE_SIZE, CELL_AREA> {
    /// Whether the screen box of the layer can be computed (see `bounds_ok`).
    pub fn bounds_checked(&self, v: &Viewport) -> (b: bool)
        ensures
            b == self.bounds_ok(*v),
    {
        if v.screen_x as i32 + v.screen_w as i32 > 0x7fff || v.screen_y as i32 + v.screen_h as i32 > 0x7fff {
            return false;
        }
        if !self.parallax.can_apply(v.x) || !self.parallax.can_apply(v.y) {
            return false;
        }
        let ax: i64 = self.parallax.apply(v.x) as i64 + self.origin_x as i64;
        let ay: i64 = self.parallax.apply(v.y) as i64 + self.origin_y as i64;
        if ax < -0x8000_0000 || ax > 0x7fff_ffff || ay < -0x8000_0000 || ay > 0x7fff_ffff {
            return false;
        }
        let ex: i64 = ax + self.offset[0] as i64;
        let ey: i64 = ay + self.offset[1] as i64;
        if ex < -0x8000_0000 || ex > 0x7fff_ffff || ey < -0x8000_0000 || ey > 0x7fff_ffff {
            return false;
        }
        let cw: usize = match self.cols.checked_mul(TILE_SIZE) {
            Some(c) => c,
            None => return false,
        };
        let rh: usize = match self.rows.checked_mul(TILE_SIZE) {
            Some(r) => r,
            None => return false,
        };
        let x0: i64 = if self.wrap.wraps_x() { v.screen_x as i64 } else { v.screen_x as i64 + (ex as i16) as i64 };
        let y0: i64 = if self.wrap.wraps_y() { v.screen_y as i64 } else { v.screen_y as i64 + (ey as i16) as i64 };
        if x0 < -0x8000 || x0 > 0x7fff || y0 < -0x8000 || y0 > 0x7fff {
            return false;
        }
        let x1: i64 = if self.wrap.wraps_x() { v.screen_x as i64 + v.screen_w as i64 } else { x0 + (cw as i16) as i64 };
        let y1: i64 = if self.wrap.wraps_y() { v.screen_y as i64 + v.screen_h as i64 } else { y0 + (rh as i16) as i64 };
        -0x8000 <= x1 && x1 <= 0x7fff && -0x8000 <= y1 && y1 <= 0x7fff
    }

    /// Whether the layer can mark its dirty cells for a camera at
    /// `(cam_x, cam_y)` at frame `frame` (see `mark_sparse_dirty`).
    pub fn mark_checked(&self, frame: u32, cam_x: i32, cam_y: i32) -> (b: bool)
        ensures
            b == (self.wf() && self.anim_slots@.len() <= 16 && ((self.moved || self.any_slot_active(frame)) ==> {
                &&& self.eff_ok(cam_x as int, self.origin_x as int, self.offset[0] as int)
                &&& self.eff_ok(cam_y as int, self.origin_y as int, self.offset[1] as int)
                &&& self.eff_ok(cam_x as int, self.prev_origin_x as int, self.offset[0] as int)
                &&& self.eff_ok(cam_y as int, self.prev_origin_y as int, self.offset[1] as int)
            })),
    {
        if !self.is_wf() || self.anim_slots.len() > 16 {
            return false;
        }
        if !self.moved && self.active_anim_mask(frame) == 0 {
            return true;
        }
        self.checked_eff(cam_x, self.origin_x, self.offset[0]).is_some() && self.checked_eff(cam_y, self.origin_y, self.offset[1]).is_some()
            && self.checked_eff(cam_x, self.prev_origin_x, self.offset[0]).is_some() && self.checked_eff(
            cam_y,
            self.prev_origin_y,
            self.offset[1],
        ).is_some()
    }
}

/// Whether world point `p`, seen through `v`, converts to the screen and a
/// box of `w` x `h` there stays in 16 bits.
pub fn point_fits(v: &Viewport, p: [i16; 2], w: u16, h: u16) -> (b: bool)
    ensures
        b == (convertible(*v, p) && in_i16(screen_pos(*v, p).0 + w) && in_i16(screen_pos(*v, p).1 + h)),
{
    let dx: i64 = p[0] as i64 - v.x as i64;
    let dy: i64 = p[1] as i64 - v.y as i64;
    let sx: i64 = dx + v.screen_x as i64;
    let sy: i64 = dy + v.screen_y as i64;
    if dx < -0x8000_0000 || dx > 0x7fff_ffff || dy < -0x8000_0000 || dy > 0x7fff_ffff {
        return false;
    }
    if sx < -0x8000_0000 || sx > 0x7fff_ffff || sy < -0x8000_0000 || sy > 0x7fff_ffff {
        return false;
    }
    let x: i64 = (sx as i16) as i64 + w as i64;
    let y: i64 = (sy as i16) as i64 + h as i64;
    -0x8000 <= x && x <= 0x7fff && -0x8000 <= y && y <= 0x7fff
}

impl<'r, 'a, const TILE_SIZE: usize, const CELL_AREA: usize> Renderable<'r, 'a, TILE_SIZE, CELL_AREA> {
    /// Whether the screen box of the layer can be computed (see `bounds_ok`).
    pub fn bounds_checked(&self, v: &Viewport) -> (b: bool)
        ensures
            b == self.bounds_ok(*v),
    {
        match self {
            Renderable::Tilemap(tm) => tm.bounds_checked(v),
            Renderable::Sprite(s) => s.is_wf() && point_fits(v, s.position, s.pixel_width(), s.pixel_height()),
            Renderable::UiSprite(s) => {
                if !s.is_wf() {
                    return false;
                }
                let x: i32 = s.position[0] as i32 + s.pixel_width() as i32;
                let y: i32 = s.position[1] as i32 + s.pixel_height() as i32;
                x <= 0x7fff && y <= 0x7fff
            },
        }
    }
}

} // verus!
