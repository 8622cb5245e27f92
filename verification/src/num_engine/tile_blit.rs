//! Drawing a tile layer into one screen cell, front to back.

use vstd::prelude::*;
use vstd::arithmetic::div_mod::{lemma_fundamental_div_mod, lemma_fundamental_div_mod_converse, lemma_mod_division_less_than_divisor};
use vstd::slice::*;

use crate::eadk::{Color, Point};
use crate::num_engine::cellbuf::{
    blit_span, count_true, coverage_ok, lands_pred, lemma_count_ext, lemma_count_le, lemma_count_none, lemma_count_split,
    lemma_coverage_step, lemma_count_zero, cov_fn, pixel_lands, src_lands,
};
use crate::num_engine::euclid::{div_euclid_i32, rem_euclid_i32};
use crate::num_engine::tilemap::{lemma_quotient_room, Tilemap};

verus! {

broadcast use vstd::array::group_array_axioms;

/// The tileset point named by a pair of tile coordinates.
pub open spec fn tile_point(t: (u8, u8)) -> Point {
    Point { x: t.0 as u16, y: t.1 as u16 }
}

/// Where the pixel at offset `i < ts` from `rel` falls: the tile index and
/// the position inside the tile.
pub proof fn lemma_axis(rel: int, ts: int, i: int)
    requires
        ts > 0,
        0 <= i < ts,
    ensures
        i < ts - rel % ts ==> (rel + i) / ts == rel / ts && (rel + i) % ts == rel % ts + i,
        i >= ts - rel % ts ==> (rel + i) / ts == rel / ts + 1 && (rel + i) % ts == i - (ts - rel % ts),
{
    lemma_fundamental_div_mod(rel, ts);
    lemma_mod_division_less_than_divisor(rel, ts);
    let b = rel / ts;
    let s = rel % ts;
    assert(ts * b == b * ts) by (nonlinear_arith);
    if i < ts - s {
        lemma_fundamental_div_mod_converse(rel + i, ts, b, s + i);
    } else {
        assert((b + 1) * ts == b * ts + ts) by (nonlinear_arith);
        lemma_fundamental_div_mod_converse(rel + i, ts, b + 1, i - (ts - s));
    }
}

/// Row and column of the cell pixel `row * ts + col`.
pub proof fn lemma_cell_index(row: int, col: int, ts: int)
    requires
        ts > 0,
        0 <= row < ts,
        0 <= col < ts,
    ensures
        (row * ts + col) / ts == row,
        (row * ts + col) % ts == col,
        0 <= row * ts + col < ts * ts,
        row * ts + ts <= ts * ts,
{
    lemma_fundamental_div_mod_converse(row * ts + col, ts, row, col);
    assert(0 <= row * ts && row * ts + ts <= ts * ts) by (nonlinear_arith)
        requires
            ts > 0,
            0 <= row < ts,
    ;
}

/// An index into a tile of `ts` rows of `ts` pixels stays below `ts * ts`.
pub proof fn lemma_tile_index(y: int, x: int, ts: int)
    requires
        ts > 0,
        0 <= y < ts,
        0 <= x < ts,
    ensures
        0 <= y * ts + x < ts * ts,
        0 <= y * ts,
{
    lemma_cell_index(y, x, ts);
}

/// Row and column of pixel `k` of a cell of `ts` rows of `ts` pixels.
pub proof fn lemma_split_index(k: int, ts: int)
    requires
        ts > 0,
        0 <= k < ts * ts,
    ensures
        0 <= k / ts < ts,
        0 <= k % ts < ts,
        k == (k / ts) * ts + k % ts,
{
    lemma_fundamental_div_mod(k, ts);
    lemma_mod_division_less_than_divisor(k, ts);
    let q = k / ts;
    assert(ts * q == q * ts) by (nonlinear_arith);
    assert(0 <= q < ts) by (nonlinear_arith)
        requires
            ts > 0,
            0 <= k < ts * ts,
            k == ts * q + k % ts,
            0 <= k % ts < ts,
    ;
}

impl<'a, const TILE_SIZE: usize, const CELL_AREA: usize> Tilemap<'a, TILE_SIZE, CELL_AREA> {
    /// Tile coordinates drawn for `coord` at frame `frame`: a coordinate
    /// naming an existing animation slot shows that animation's current frame.
    pub open spec fn spec_resolve(self, coord: [u8; 2], frame: u32) -> (u8, u8) {
        if coord[0] >= 128 && coord[0] - 128 < self.anim_slots@.len() {
            let anim = self.anim_slots@[coord[0] - 128];
            match anim.spec_get_frame(anim.spec_frame_index(frame)) {
                Some(f) => (f.tx, f.ty),
                None => (coord[0], coord[1]),
            }
        } else {
            (coord[0], coord[1])
        }
    }

    /// Index in the tileset image of the first pixel drawn for `coord`.
    pub open spec fn tile_start(self, coord: [u8; 2], frame: u32) -> int {
        self.tileset.tile_offset(tile_point(self.spec_resolve(coord, frame)))
    }

    /// The tile drawn for `coord` can be looked up and holds a whole cell of pixels.
    pub open spec fn slice_ok(self, coord: [u8; 2], frame: u32) -> bool {
        &&& self.tileset.tile_ok(tile_point(self.spec_resolve(coord, frame)))
        &&& self.tile_start(coord, frame) + CELL_AREA <= self.tileset.image@.len()
    }

    /// The tile at tile coordinates `(tx, ty)`, if any, can be drawn.
    pub open spec fn tile_fits(self, tx: int, ty: int, frame: u32) -> bool {
        match self.spec_tile_coord(tx, ty) {
            Some(c) => self.slice_ok(c, frame),
            None => true,
        }
    }

    /// Pixel `idx` (row-major within the tile) of the tile at `(tx, ty)`, if there is a tile.
    pub open spec fn quad_pixel(self, tx: int, ty: int, frame: u32, idx: int) -> Option<Color> {
        match self.spec_tile_coord(tx, ty) {
            Some(c) => Some(self.tileset.image@[self.tile_start(c, frame) + idx]),
            None => None,
        }
    }

    /// The layer's pixel at layer-relative pixel `(x, y)`, if a tile covers it.
    pub open spec fn spec_pixel(self, x: int, y: int, frame: u32) -> Option<Color> {
        let ts = TILE_SIZE as int;
        self.quad_pixel(x / ts, y / ts, frame, (y % ts) * ts + x % ts)
    }

    /// The layer's pixel for pixel `k` (row-major) of a cell at layer-relative pixel `(rx, ry)`.
    pub open spec fn cell_src(self, rx: int, ry: int, frame: u32, k: int) -> Option<Color> {
        let ts = TILE_SIZE as int;
        self.spec_pixel(rx + k % ts, ry + k / ts, frame)
    }

    /// Every tile that overlaps a cell at layer-relative pixel `(rx, ry)` can be drawn.
    pub open spec fn cell_fits(self, rx: int, ry: int, frame: u32) -> bool {
        let ts = TILE_SIZE as int;
        let bx = rx / ts;
        let by = ry / ts;
        let mx = rx % ts != 0;
        let my = ry % ts != 0;
        &&& self.tile_fits(bx, by, frame)
        &&& mx ==> self.tile_fits(bx + 1, by, frame)
        &&& my ==> self.tile_fits(bx, by + 1, frame)
        &&& mx && my ==> self.tile_fits(bx + 1, by + 1, frame)
    }

    /// The layer covers every pixel of the cell at `(rx, ry)`.
    pub open spec fn cell_full(self, rx: int, ry: int, frame: u32) -> bool {
        forall|k: int| 0 <= k < CELL_AREA ==> (#[trigger] self.cell_src(rx, ry, frame, k)) is Some
    }

    /// Whether the layer's pixel `k` lands on a cell whose coverage is `cov`.
    pub open spec fn lands_at(self, rx: int, ry: int, frame: u32, cov: Seq<bool>, k: int) -> bool {
        match self.cell_src(rx, ry, frame, k) {
            Some(p) => pixel_lands(cov[k], p, self.transparent),
            None => false,
        }
    }

    /// `lands_at` as a predicate on pixel indices.
    pub open spec fn lands_fn(self, rx: int, ry: int, frame: u32, cov: Seq<bool>) -> spec_fn(int) -> bool {
        |k: int| self.lands_at(rx, ry, frame, cov, k)
    }

    /// Layer-relative x of screen cell column `cx` for a camera at `cam_x`.
    pub open spec fn cell_rel_x(self, cx: int, cam_x: int) -> int {
        cx * TILE_SIZE - self.eff(cam_x, self.origin_x as int, self.offset[0] as int)
    }

    /// Layer-relative y of screen cell row `cy` for a camera at `cam_y`.
    pub open spec fn cell_rel_y(self, cy: int, cam_y: int) -> int {
        cy * TILE_SIZE - self.eff(cam_y, self.origin_y as int, self.offset[1] as int)
    }

    /// Pixel `(row, col)` of a cell at `(rx, ry)` is a pixel of one of the
    /// (up to four) tiles the cell overlaps.
    pub proof fn lemma_quadrant(self, rx: int, ry: int, frame: u32, row: int, col: int)
        requires
            TILE_SIZE > 0,
            0 <= row < TILE_SIZE,
            0 <= col < TILE_SIZE,
        ensures
            ({
                let ts = TILE_SIZE as int;
                let sx = rx % ts;
                let sy = ry % ts;
                let right = col >= ts - sx;
                let below = row >= ts - sy;
                let xx = if right { col - (ts - sx) } else { sx + col };
                let yy = if below { row - (ts - sy) } else { sy + row };
                &&& 0 <= xx < ts
                &&& 0 <= yy < ts
                &&& self.cell_src(rx, ry, frame, row * ts + col) == self.quad_pixel(
                    rx / ts + if right { 1int } else { 0int },
                    ry / ts + if below { 1int } else { 0int },
                    frame,
                    yy * ts + xx,
                )
            }),
    {
        let ts = TILE_SIZE as int;
        lemma_cell_index(row, col, ts);
        lemma_axis(rx, ts, col);
        lemma_axis(ry, ts, row);
        lemma_mod_division_less_than_divisor(rx, ts);
        lemma_mod_division_less_than_divisor(ry, ts);
    }

    /// `part` is the slice that `get_tile_slice` gives for tile coordinates `(tx, ty)`.
    pub open spec fn part_is(self, part: Option<&[Color]>, tx: int, ty: int, frame: u32) -> bool {
        &&& part is Some <==> self.spec_tile_coord(tx, ty) is Some
        &&& part matches Some(s) ==> ({
            let c = self.spec_tile_coord(tx, ty).unwrap();
            &&& s@ == self.tileset.image@.subrange(self.tile_start(c, frame), self.tileset.image@.len() as int)
            &&& self.tile_start(c, frame) + CELL_AREA <= self.tileset.image@.len()
        })
    }

    /// Pixels `[dst, dst + len)` of the cell at `(rx, ry)` are those of
    /// `part` from `src_start` on, and there are none where `part` is `None`.
    pub open spec fn span_src(self, rx: int, ry: int, frame: u32, dst: int, part: Option<&[Color]>, src_start: int, len: int) -> bool {
        &&& part matches Some(s) ==> src_start + len <= s@.len()
        &&& forall|k: int|
            dst <= k < dst + len ==> #[trigger] self.cell_src(rx, ry, frame, k) == match part {
                Some(s) => Some(s@[src_start + k - dst]),
                None => None,
            }
    }

    /// Row `row` of a straddling cell: its left part comes from the tile
    /// under its first pixel, its right part from the next tile to the right.
    pub proof fn lemma_row_sources(
        self,
        rx: int,
        ry: int,
        frame: u32,
        row: int,
        left: Option<&[Color]>,
        right: Option<&[Color]>,
        src_row: int,
    )
        requires
            TILE_SIZE > 0,
            CELL_AREA == TILE_SIZE * TILE_SIZE,
            0 <= row < TILE_SIZE,
            ({
                let ts = TILE_SIZE as int;
                let sx = rx % ts;
                let sy = ry % ts;
                let ty = ry / ts + if row < ts - sy { 0int } else { 1int };
                &&& self.part_is(left, rx / ts, ty, frame)
                &&& sx != 0 ==> self.part_is(right, rx / ts + 1, ty, frame)
                &&& sx == 0 ==> right is None
                &&& src_row == (if row < ts - sy { sy + row } else { row - (ts - sy) }) * ts
            }),
        ensures
            ({
                let ts = TILE_SIZE as int;
                let sx = rx % ts;
                &&& 0 <= src_row && src_row + ts <= CELL_AREA
                &&& self.span_src(rx, ry, frame, row * ts, left, src_row + sx, ts - sx)
                &&& self.span_src(rx, ry, frame, row * ts + ts - sx, right, src_row, sx)
            }),
    {
        let ts = TILE_SIZE as int;
        let sx = rx % ts;
        let sy = ry % ts;
        lemma_mod_division_less_than_divisor(rx, ts);
        lemma_mod_division_less_than_divisor(ry, ts);
        let yy = if row < ts - sy { sy + row } else { row - (ts - sy) };
        lemma_cell_index(yy, 0, ts);
        lemma_cell_index(row, 0, ts);
        assert forall|k: int| row * ts <= k < row * ts + ts - sx implies #[trigger] self.cell_src(rx, ry, frame, k) == match left {
            Some(s) => Some(s@[src_row + sx + k - row * ts]),
            None => None,
        } by {
            self.lemma_quadrant(rx, ry, frame, row, k - row * ts);
            lemma_tile_index(yy, sx + k - row * ts, ts);
        }
        assert forall|k: int| row * ts + ts - sx <= k < row * ts + ts - sx + sx implies #[trigger] self.cell_src(rx, ry, frame, k) == match right {
            Some(s) => Some(s@[src_row + k - (row * ts + ts - sx)]),
            None => None,
        } by {
            self.lemma_quadrant(rx, ry, frame, row, k - row * ts);
            lemma_tile_index(yy, k - (row * ts + ts - sx), ts);
        }
        assert(0 <= src_row && src_row + ts <= CELL_AREA);
        assert(left matches Some(s) ==> src_row + sx + (ts - sx) <= s@.len());
        assert(right matches Some(s) ==> src_row + sx <= s@.len());
        assert(self.span_src(rx, ry, frame, row * ts, left, src_row + sx, ts - sx));
    }

    /// Which of the (up to four) tiles overlapping a cell exist decides
    /// whether the layer covers the whole cell, and whether it covers any of it.
    pub proof fn lemma_cell_sources(self, rx: int, ry: int, frame: u32, tl: bool, tr: bool, bl: bool, br: bool)
        requires
            TILE_SIZE > 0,
            CELL_AREA == TILE_SIZE * TILE_SIZE,
            ({
                let ts = TILE_SIZE as int;
                let bx = rx / ts;
                let by = ry / ts;
                let sx = rx % ts;
                let sy = ry % ts;
                &&& tl == self.spec_tile_coord(bx, by) is Some
                &&& tr == (sx != 0 && self.spec_tile_coord(bx + 1, by) is Some)
                &&& bl == (sy != 0 && self.spec_tile_coord(bx, by + 1) is Some)
                &&& br == (sx != 0 && sy != 0 && self.spec_tile_coord(bx + 1, by + 1) is Some)
            }),
        ensures
            self.cell_full(rx, ry, frame) == (tl && (rx % (TILE_SIZE as int) == 0 || tr) && (ry % (TILE_SIZE as int) == 0
                || bl) && (rx % (TILE_SIZE as int) == 0 || ry % (TILE_SIZE as int) == 0 || br)),
            !tl && !tr && !bl && !br ==> forall|k: int| 0 <= k < CELL_AREA ==> (#[trigger] self.cell_src(rx, ry, frame, k)) is None,
    {
        let ts = TILE_SIZE as int;
        let sx = rx % ts;
        let sy = ry % ts;
        lemma_mod_division_less_than_divisor(rx, ts);
        lemma_mod_division_less_than_divisor(ry, ts);
        let all = tl && (sx == 0 || tr) && (sy == 0 || bl) && (sx == 0 || sy == 0 || br);
        assert forall|k: int| 0 <= k < CELL_AREA implies ((#[trigger] self.cell_src(rx, ry, frame, k)) is Some ==> (tl || tr || bl || br))
            && (all ==> self.cell_src(rx, ry, frame, k) is Some) by {
            lemma_split_index(k, ts);
            self.lemma_quadrant(rx, ry, frame, k / ts, k % ts);
        }
        if all {
        } else {
            let k: int = if !tl {
                0
            } else if sx != 0 && !tr {
                ts - sx
            } else if sy != 0 && !bl {
                (ts - sy) * ts
            } else {
                (ts - sy) * ts + ts - sx
            };
            let row: int = if !tl || (sx != 0 && !tr) { 0 } else { ts - sy };
            let col: int = if !tl || (sx == 0 || tr) && sy != 0 && !bl { 0 } else { ts - sx };
            assert(k == row * ts + col);
            lemma_cell_index(row, col, ts);
            self.lemma_quadrant(rx, ry, frame, row, col);
            assert(self.cell_src(rx, ry, frame, k) is None);
        }
    }

    /// The tile coordinates drawn for `coord` at frame `frame_counter`.
    pub fn resolve_tile_coord(&self, coord: [u8; 2], frame_counter: u32) -> (r: [u8; 2])
        requires
            self.wf(),
        ensures
            r[0] == self.spec_resolve(coord, frame_counter).0,
            r[1] == self.spec_resolve(coord, frame_counter).1,
    {
        let mut tx: u8 = coord[0];
        let mut ty: u8 = coord[1];
        if tx >= 128 {
            let slot: usize = (tx - 128) as usize;
            if slot < self.anim_slots.len() {
                let anim = self.anim_slots[slot];
                let frame_idx = anim.calculate_frame_index(frame_counter);
                if let Some(f) = anim.get_frame(frame_idx) {
                    tx = f.tx;
                    ty = f.ty;
                }
            }
        }
        [tx, ty]
    }

    /// The pixels of the tile drawn at tile coordinates `(tx, ty)` (from its
    /// first pixel to the end of the tileset image), if there is a tile.
    pub fn get_tile_slice(&self, tx: i32, ty: i32, frame_counter: u32) -> (r: Option<&'a [Color]>)
        requires
            self.wf(),
            self.tile_fits(tx as int, ty as int, frame_counter),
        ensures
            self.part_is(r, tx as int, ty as int, frame_counter),
    {
        match self.get_tile_coord(tx, ty) {
            Some(coord) => {
                let resolved = self.resolve_tile_coord(coord, frame_counter);
                let p = Point { x: resolved[0] as u16, y: resolved[1] as u16 };
                proof {
                    assert(p == tile_point(self.spec_resolve(coord, frame_counter)));
                }
                Some(self.tileset.get_tile(p))
            },
            None => None,
        }
    }

    /// Marking the layer's pixels that land keeps the count of covered pixels in step.
    pub proof fn lemma_blit_coverage(self, rx: int, ry: int, frame: u32, cov0: Seq<bool>, cov1: Seq<bool>, pc0: int)
        requires
            cov0.len() == CELL_AREA,
            cov1.len() == CELL_AREA,
            pc0 < CELL_AREA,
            coverage_ok(cov0, pc0, CELL_AREA as int),
            forall|k: int| 0 <= k < CELL_AREA ==> #[trigger] cov1[k] == (cov0[k] || self.lands_at(rx, ry, frame, cov0, k)),
        ensures
            coverage_ok(cov1, pc0 + count_true(self.lands_fn(rx, ry, frame, cov0), 0, CELL_AREA as int), CELL_AREA as int),
    {
        let src = |k: int| self.cell_src(rx, ry, frame, k);
        assert(self.lands_fn(rx, ry, frame, cov0) =~= lands_pred(src, cov0, self.transparent));
        assert forall|k: int| 0 <= k < CELL_AREA implies #[trigger] cov1[k] == (cov0[k] || src_lands(src, cov0, self.transparent, k)) by {
            assert(self.lands_at(rx, ry, frame, cov0, k) == src_lands(src, cov0, self.transparent, k));
        }
        lemma_coverage_step(src, cov0, cov1, self.transparent, pc0, CELL_AREA as int);
    }

    /// Draws this layer into screen cell `cell_coords` (in cells) for a
    /// camera at `cam`, behind what nearer layers already drew. Nothing
    /// happens once the cell is fully covered. When the layer is opaque, the
    /// cell still empty and every pixel of it covered by a tile, the cell is
    /// filled with the layer's pixels and counted as full, its coverage mask
    /// left alone. Otherwise each pixel of the layer that lands (see
    /// `pixel_lands`) is written, marked covered and counted.
    #[verifier::loop_isolation(false)]
    pub fn blit_to_cell_reverse_z(
        &self,
        cell_coords: [usize; 2],
        cam: [i32; 2],
        cell_buf: &mut [Color; CELL_AREA],
        covered: &mut [bool; CELL_AREA],
        pixels_covered: &mut usize,
        frame_counter: u32,
    )
        requires
            self.wf(),
            CELL_AREA == TILE_SIZE * TILE_SIZE,
            2 * CELL_AREA <= usize::MAX,
            *old(pixels_covered) < CELL_AREA ==> {
                &&& cell_coords[0] * TILE_SIZE <= u16::MAX
                &&& cell_coords[1] * TILE_SIZE <= u16::MAX
                &&& self.eff_ok(cam[0] as int, self.origin_x as int, self.offset[0] as int)
                &&& self.eff_ok(cam[1] as int, self.origin_y as int, self.offset[1] as int)
                &&& self.cell_fits(
                    self.cell_rel_x(cell_coords[0] as int, cam[0] as int),
                    self.cell_rel_y(cell_coords[1] as int, cam[1] as int),
                    frame_counter,
                )
            },
        ensures
            coverage_ok(old(covered)@, *old(pixels_covered) as int, CELL_AREA as int) ==> coverage_ok(
                final(covered)@,
                *final(pixels_covered) as int,
                CELL_AREA as int,
            ),
            coverage_ok(old(covered)@, *old(pixels_covered) as int, CELL_AREA as int) ==> forall|k: int|
                0 <= k < CELL_AREA && old(covered)@[k] ==> #[trigger] final(cell_buf)@[k] == old(cell_buf)@[k] && final(covered)@[k],
            *final(pixels_covered) >= *old(pixels_covered),
            *old(pixels_covered) >= CELL_AREA ==> {
                &&& final(cell_buf)@ == old(cell_buf)@
                &&& final(covered)@ == old(covered)@
                &&& *final(pixels_covered) == *old(pixels_covered)
            },
            *old(pixels_covered) < CELL_AREA ==> ({
                let rx = self.cell_rel_x(cell_coords[0] as int, cam[0] as int);
                let ry = self.cell_rel_y(cell_coords[1] as int, cam[1] as int);
                let fast = !self.transparent && *old(pixels_covered) == 0 && self.cell_full(rx, ry, frame_counter);
                &&& fast ==> {
                    &&& forall|k: int|
                        0 <= k < CELL_AREA ==> #[trigger] final(cell_buf)@[k] == self.cell_src(rx, ry, frame_counter, k).unwrap()
                    &&& final(covered)@ == old(covered)@
                    &&& *final(pixels_covered) == CELL_AREA
                }
                &&& !fast ==> {
                    &&& forall|k: int|
                        0 <= k < CELL_AREA ==> #[trigger] final(cell_buf)@[k] == if self.lands_at(rx, ry, frame_counter, old(covered)@, k) {
                            self.cell_src(rx, ry, frame_counter, k).unwrap()
                        } else {
                            old(cell_buf)@[k]
                        }
                    &&& forall|k: int|
                        0 <= k < CELL_AREA ==> #[trigger] final(covered)@[k] == (old(covered)@[k] || self.lands_at(
                            rx,
                            ry,
                            frame_counter,
                            old(covered)@,
                            k,
                        ))
                    &&& *final(pixels_covered) == *old(pixels_covered) + count_true(
                        self.lands_fn(rx, ry, frame_counter, old(covered)@),
                        0,
                        CELL_AREA as int,
                    )
                }
            }),
    {
        if *pixels_covered >= CELL_AREA {
            return;
        }
        let ghost buf0 = cell_buf@;
        let ghost cov0 = covered@;
        let ghost pc0 = *pixels_covered;
        let ax: i32 = self.parallax.apply(cam[0]);
        let ay: i32 = self.parallax.apply(cam[1]);
        let eff_x: i32 = ax + self.origin_x + self.offset[0] as i32;
        let eff_y: i32 = ay + self.origin_y + self.offset[1] as i32;
        let cell_world_x: usize = cell_coords[0] * TILE_SIZE;
        let cell_world_y: usize = cell_coords[1] * TILE_SIZE;
        let rel_x: i32 = cell_world_x as i32 - eff_x;
        let rel_y: i32 = cell_world_y as i32 - eff_y;
        let ghost rx = rel_x as int;
        let ghost ry = rel_y as int;
        let ghost lf = self.lands_fn(rx, ry, frame_counter, cov0);
        assert(rx == self.cell_rel_x(cell_coords[0] as int, cam[0] as int));
        assert(ry == self.cell_rel_y(cell_coords[1] as int, cam[1] as int));
        let ts: i32 = TILE_SIZE as i32;
        let base_tx: i32 = div_euclid_i32(rel_x, ts);
        let base_ty: i32 = div_euclid_i32(rel_y, ts);
        let sub_x: usize = rem_euclid_i32(rel_x, ts) as usize;
        let sub_y: usize = rem_euclid_i32(rel_y, ts) as usize;
        if sub_x != 0 {
            proof {
                lemma_quotient_room(rel_x as int, ts as int);
            }
        }
        if sub_y != 0 {
            proof {
                lemma_quotient_room(rel_y as int, ts as int);
            }
        }
        assert(TILE_SIZE * TILE_SIZE > 0) by (nonlinear_arith)
            requires
                TILE_SIZE > 0,
        ;
        // A cell aligned on the tile grid shows one tile.
        if sub_x == 0 && sub_y == 0 {
            let tile = self.get_tile_slice(base_tx, base_ty, frame_counter);
            proof {
                self.lemma_cell_sources(rx, ry, frame_counter, tile is Some, false, false, false);
            }
            if tile.is_some() {
                let fast_copy = !self.transparent && *pixels_covered == 0;
                proof {
                    assert forall|k: int| 0 <= k < CELL_AREA implies #[trigger] self.cell_src(rx, ry, frame_counter, k) == match tile {
                        Some(s) => Some(s@[0 + k - 0]),
                        None => None,
                    } by {
                        lemma_split_index(k, ts as int);
                        self.lemma_quadrant(rx, ry, frame_counter, k / (ts as int), k % (ts as int));
                    }
                }
                self.blit_part(
                    cell_buf,
                    covered,
                    pixels_covered,
                    0,
                    tile,
                    0,
                    CELL_AREA,
                    fast_copy,
                    Ghost(rx),
                    Ghost(ry),
                    Ghost(frame_counter),
                    Ghost(cov0),
                );
                if fast_copy {
                    *pixels_covered = CELL_AREA;
                    proof {
                        if coverage_ok(cov0, pc0 as int, CELL_AREA as int) {
                            lemma_count_zero(cov_fn(cov0), 0, CELL_AREA as int);
                            assert forall|k: int| 0 <= k < CELL_AREA implies !cov0[k] by {
                                assert(!cov_fn(cov0)(k));
                            }
                        }
                    }
                } else {
                    proof {
                        if coverage_ok(cov0, pc0 as int, CELL_AREA as int) {
                            self.lemma_blit_coverage(rx, ry, frame_counter, cov0, covered@, pc0 as int);
                        }
                    }
                }
            } else {
                proof {
                    assert forall|k: int| 0 <= k < CELL_AREA implies !#[trigger] lf(k) by {
                        assert(self.cell_src(rx, ry, frame_counter, k) is None);
                    }
                    lemma_count_none(lf, 0, CELL_AREA as int);
                    assert(self.cell_src(rx, ry, frame_counter, 0) is None);
                }
            }
            return;
        }
        // Otherwise the cell straddles up to four tiles.
        let t_tl = self.get_tile_slice(base_tx, base_ty, frame_counter);
        let t_tr = if sub_x != 0 {
            self.get_tile_slice(base_tx + 1, base_ty, frame_counter)
        } else {
            None
        };
        let t_bl = if sub_y != 0 {
            self.get_tile_slice(base_tx, base_ty + 1, frame_counter)
        } else {
            None
        };
        let t_br = if sub_x != 0 && sub_y != 0 {
            self.get_tile_slice(base_tx + 1, base_ty + 1, frame_counter)
        } else {
            None
        };
        proof {
            self.lemma_cell_sources(rx, ry, frame_counter, t_tl is Some, t_tr is Some, t_bl is Some, t_br is Some);
        }
        if t_tl.is_none() && t_tr.is_none() && t_bl.is_none() && t_br.is_none() {
            proof {
                assert forall|k: int| 0 <= k < CELL_AREA implies !#[trigger] lf(k) by {
                    assert(self.cell_src(rx, ry, frame_counter, k) is None);
                }
                lemma_count_none(lf, 0, CELL_AREA as int);
                assert(self.cell_src(rx, ry, frame_counter, 0) is None);
            }
            return;
        }
        let w_left: usize = TILE_SIZE - sub_x;
        let w_right: usize = sub_x;
        let h_top: usize = TILE_SIZE - sub_y;
        let all_quadrants_exist = t_tl.is_some() && (sub_x == 0 || t_tr.is_some()) && (sub_y == 0 || t_bl.is_some()) && (
        sub_x == 0 || sub_y == 0 || t_br.is_some());
        let fast_copy = !self.transparent && *pixels_covered == 0 && all_quadrants_exist;
        proof {
            assert(fast_copy == (!self.transparent && pc0 == 0 && self.cell_full(rx, ry, frame_counter)));
        }
        self.blit_straddled(
            cell_buf,
            covered,
            pixels_covered,
            t_tl,
            t_tr,
            t_bl,
            t_br,
            sub_x,
            sub_y,
            fast_copy,
            Ghost(rx),
            Ghost(ry),
            Ghost(frame_counter),
        );
        if fast_copy {
            *pixels_covered = CELL_AREA;
            proof {
                if coverage_ok(cov0, pc0 as int, CELL_AREA as int) {
                    lemma_count_zero(cov_fn(cov0), 0, CELL_AREA as int);
                    assert forall|k: int| 0 <= k < CELL_AREA implies !cov0[k] by {
                        assert(!cov_fn(cov0)(k));
                    }
                }
            }
        } else {
            proof {
                if coverage_ok(cov0, pc0 as int, CELL_AREA as int) {
                    self.lemma_blit_coverage(rx, ry, frame_counter, cov0, covered@, pc0 as int);
                }
            }
        }
    }

    /// Draws a cell that straddles up to four tiles, row by row: in each
    /// row the part from the left tiles, then the part from the right tiles.
    fn blit_straddled(
        &self,
        cell_buf: &mut [Color; CELL_AREA],
        covered: &mut [bool; CELL_AREA],
        pixels_covered: &mut usize,
        t_tl: Option<&'a [Color]>,
        t_tr: Option<&'a [Color]>,
        t_bl: Option<&'a [Color]>,
        t_br: Option<&'a [Color]>,
        sub_x: usize,
        sub_y: usize,
        fast_copy: bool,
        Ghost(rx): Ghost<int>,
        Ghost(ry): Ghost<int>,
        Ghost(frame): Ghost<u32>,
    )
        requires
            TILE_SIZE > 0,
            CELL_AREA == TILE_SIZE * TILE_SIZE,
            2 * CELL_AREA <= usize::MAX,
            *old(pixels_covered) < CELL_AREA,
            sub_x == rx % (TILE_SIZE as int),
            sub_y == ry % (TILE_SIZE as int),
            self.part_is(t_tl, rx / (TILE_SIZE as int), ry / (TILE_SIZE as int), frame),
            sub_x != 0 ==> self.part_is(t_tr, rx / (TILE_SIZE as int) + 1, ry / (TILE_SIZE as int), frame),
            sub_y != 0 ==> self.part_is(t_bl, rx / (TILE_SIZE as int), ry / (TILE_SIZE as int) + 1, frame),
            sub_x != 0 && sub_y != 0 ==> self.part_is(t_br, rx / (TILE_SIZE as int) + 1, ry / (TILE_SIZE as int) + 1, frame),
            sub_x == 0 ==> t_tr is None && t_br is None,
            fast_copy ==> self.cell_full(rx, ry, frame),
        ensures
            fast_copy ==> {
                &&& forall|k: int|
                    0 <= k < CELL_AREA ==> #[trigger] final(cell_buf)@[k] == self.cell_src(rx, ry, frame, k).unwrap()
                &&& final(covered)@ == old(covered)@
                &&& *final(pixels_covered) == *old(pixels_covered)
            },
            !fast_copy ==> {
                &&& forall|k: int|
                    0 <= k < CELL_AREA ==> #[trigger] final(cell_buf)@[k] == if self.lands_at(rx, ry, frame, old(covered)@, k) {
                        self.cell_src(rx, ry, frame, k).unwrap()
                    } else {
                        old(cell_buf)@[k]
                    }
                &&& forall|k: int|
                    0 <= k < CELL_AREA ==> #[trigger] final(covered)@[k] == (old(covered)@[k] || self.lands_at(rx, ry, frame, old(covered)@, k))
                &&& *final(pixels_covered) == *old(pixels_covered) + count_true(self.lands_fn(rx, ry, frame, old(covered)@), 0, CELL_AREA as int)
            },
    {
        let ghost buf0 = cell_buf@;
        let ghost cov0 = covered@;
        let ghost pc0 = *pixels_covered;
        let ghost lf = self.lands_fn(rx, ry, frame, cov0);
        let w_left: usize = TILE_SIZE - sub_x;
        let w_right: usize = sub_x;
        let h_top: usize = TILE_SIZE - sub_y;
        let mut row: usize = 0;
        while row < TILE_SIZE
            invariant
                TILE_SIZE > 0,
                CELL_AREA == TILE_SIZE * TILE_SIZE,
                2 * CELL_AREA <= usize::MAX,
                pc0 < CELL_AREA,
                row <= TILE_SIZE,
                w_left == TILE_SIZE - sub_x,
                w_right == sub_x,
                h_top == TILE_SIZE - sub_y,
                sub_x == rx % (TILE_SIZE as int),
                sub_y == ry % (TILE_SIZE as int),
                self.part_is(t_tl, rx / (TILE_SIZE as int), ry / (TILE_SIZE as int), frame),
                sub_x != 0 ==> self.part_is(t_tr, rx / (TILE_SIZE as int) + 1, ry / (TILE_SIZE as int), frame),
                sub_y != 0 ==> self.part_is(t_bl, rx / (TILE_SIZE as int), ry / (TILE_SIZE as int) + 1, frame),
                sub_x != 0 && sub_y != 0 ==> self.part_is(t_br, rx / (TILE_SIZE as int) + 1, ry / (TILE_SIZE as int) + 1, frame),
                sub_x == 0 ==> t_tr is None && t_br is None,
                fast_copy ==> self.cell_full(rx, ry, frame),
                lf == self.lands_fn(rx, ry, frame, cov0),
                fast_copy ==> {
                    &&& forall|k: int|
                        0 <= k < CELL_AREA ==> #[trigger] cell_buf@[k] == if k < row * TILE_SIZE {
                            self.cell_src(rx, ry, frame, k).unwrap()
                        } else {
                            buf0[k]
                        }
                    &&& covered@ == cov0
                    &&& *pixels_covered == pc0
                },
                !fast_copy ==> {
                    &&& forall|k: int|
                        0 <= k < CELL_AREA ==> #[trigger] cell_buf@[k] == if k < row * TILE_SIZE && lf(k) {
                            self.cell_src(rx, ry, frame, k).unwrap()
                        } else {
                            buf0[k]
                        }
                    &&& forall|k: int| 0 <= k < CELL_AREA ==> #[trigger] covered@[k] == (cov0[k] || (k < row * TILE_SIZE && lf(k)))
                    &&& *pixels_covered == pc0 + count_true(lf, 0, row * TILE_SIZE)
                },
            decreases TILE_SIZE - row,
        {
            proof {
                lemma_cell_index(row as int, 0, TILE_SIZE as int);
                lemma_count_le(lf, 0, row * TILE_SIZE);
                lemma_mod_division_less_than_divisor(rx, TILE_SIZE as int);
                lemma_mod_division_less_than_divisor(ry, TILE_SIZE as int);
            }
            let dst_row: usize = row * TILE_SIZE;
            let (left, right, src_row) = if row < h_top {
                proof {
                    lemma_cell_index((sub_y + row) as int, 0, TILE_SIZE as int);
                }
                (t_tl, t_tr, (sub_y + row) * TILE_SIZE)
            } else {
                proof {
                    lemma_cell_index((row - h_top) as int, 0, TILE_SIZE as int);
                }
                (t_bl, t_br, (row - h_top) * TILE_SIZE)
            };
            proof {
                self.lemma_row_sources(rx, ry, frame, row as int, left, right, src_row as int);
            }
            self.blit_part(cell_buf, covered, pixels_covered, dst_row, left, src_row + sub_x, w_left, fast_copy, Ghost(rx), Ghost(ry), Ghost(frame), Ghost(cov0));
            proof {
                lemma_count_le(lf, dst_row as int, dst_row + w_left);
            }
            self.blit_part(cell_buf, covered, pixels_covered, dst_row + w_left, right, src_row, w_right, fast_copy, Ghost(rx), Ghost(ry), Ghost(frame), Ghost(cov0));
            proof {
                lemma_count_split(lf, 0, dst_row as int, dst_row + w_left);
                lemma_count_split(lf, 0, dst_row + w_left, dst_row + TILE_SIZE);
                assert((row + 1) * TILE_SIZE == dst_row + TILE_SIZE) by (nonlinear_arith)
                    requires
                        dst_row == row * TILE_SIZE,
                ;
            }
            row += 1;
        }
    }

    /// Draws `len` pixels of `part` from `src_start` on into the cell from
    /// `dst` on (see `blit_span`), where they are the layer's pixels of the
    /// cell at `(rx, ry)`.
    fn blit_part(
        &self,
        cell_buf: &mut [Color; CELL_AREA],
        covered: &mut [bool; CELL_AREA],
        pixels_covered: &mut usize,
        dst: usize,
        part: Option<&'a [Color]>,
        src_start: usize,
        len: usize,
        fast_copy: bool,
        Ghost(rx): Ghost<int>,
        Ghost(ry): Ghost<int>,
        Ghost(frame): Ghost<u32>,
        Ghost(cov0): Ghost<Seq<bool>>,
    )
        requires
            dst + len <= CELL_AREA,
            *old(pixels_covered) + len <= usize::MAX,
            self.span_src(rx, ry, frame, dst as int, part, src_start as int, len as int),
            forall|k: int| dst <= k < dst + len ==> #[trigger] old(covered)@[k] == cov0[k],
        ensures
            fast_copy ==> {
                &&& forall|k: int|
                    0 <= k < CELL_AREA ==> #[trigger] final(cell_buf)@[k] == if dst <= k < dst + len && self.cell_src(
                        rx,
                        ry,
                        frame,
                        k,
                    ) is Some {
                        self.cell_src(rx, ry, frame, k).unwrap()
                    } else {
                        old(cell_buf)@[k]
                    }
                &&& final(covered)@ == old(covered)@
                &&& *final(pixels_covered) == *old(pixels_covered)
            },
            !fast_copy ==> {
                &&& forall|k: int|
                    0 <= k < CELL_AREA ==> #[trigger] final(cell_buf)@[k] == if dst <= k < dst + len && self.lands_at(
                        rx,
                        ry,
                        frame,
                        cov0,
                        k,
                    ) {
                        self.cell_src(rx, ry, frame, k).unwrap()
                    } else {
                        old(cell_buf)@[k]
                    }
                &&& forall|k: int|
                    0 <= k < CELL_AREA ==> #[trigger] final(covered)@[k] == (old(covered)@[k] || (dst <= k < dst + len
                        && self.lands_at(rx, ry, frame, cov0, k)))
                &&& *final(pixels_covered) == *old(pixels_covered) + count_true(self.lands_fn(rx, ry, frame, cov0), dst as int, dst + len)
            },
    {
        let ghost lf = self.lands_fn(rx, ry, frame, cov0);
        match part {
            Some(s) => {
                let _n: usize = s.len();
                let span = slice_subrange(s, src_start, src_start + len);
                let ghost cov1 = covered@;
                blit_span(cell_buf, covered, pixels_covered, dst, span, self.transparent, fast_copy);
                proof {
                    let g = |k: int| pixel_lands(cov1[k], span@[k - dst], self.transparent);
                    assert forall|k: int| dst <= k < dst + len implies #[trigger] g(k) == lf(k) by {
                        assert(self.cell_src(rx, ry, frame, k) == Some(span@[k - dst]));
                    }
                    lemma_count_ext(g, lf, dst as int, dst + len);
                    assert forall|k: int| dst <= k < dst + len implies self.cell_src(rx, ry, frame, k) is Some
                        && self.cell_src(rx, ry, frame, k).unwrap() == span@[k - dst] && #[trigger] g(k) == lf(k) by {
                        assert(self.cell_src(rx, ry, frame, k) == Some(span@[k - dst]));
                    }
                }
            },
            None => {
                proof {
                    assert forall|k: int| dst <= k < dst + len implies !#[trigger] lf(k) by {
                        assert(self.cell_src(rx, ry, frame, k) is None);
                    }
                    lemma_count_none(lf, dst as int, dst + len);
                }
            },
        }
    }
}

} // verus!

verus! {

impl<'a, const TILE_SIZE: usize, const CELL_AREA: usize> Tilemap<'a, TILE_SIZE, CELL_AREA> {
    /// Whether the layer is well formed.
    pub fn is_wf(&self) -> (b: bool)
        ensures
            b == self.wf(),
    {
        if TILE_SIZE == 0 || TILE_SIZE > 0xffff {
            return false;
        }
        if self.cols > 0x7fff_ffff || self.rows > 0x7fff_ffff {
            return false;
        }
        assert(self.cols as u64 * self.rows as u64 <= 0x7fff_ffff * 0x7fff_ffff) by (nonlinear_arith)
            requires
                self.cols <= 0x7fff_ffff,
                self.rows <= 0x7fff_ffff,
        ;
        if self.data.len() as u64 != self.cols as u64 * self.rows as u64 {
            return false;
        }
        if self.wrap.wraps_x() && self.cols == 0 {
            return false;
        }
        if self.wrap.wraps_y() && self.rows == 0 {
            return false;
        }
        let mut i: usize = 0;
        while i < self.anim_slots.len()
            invariant
                i <= self.anim_slots@.len(),
                forall|j: int| 0 <= j < i ==> (#[trigger] self.anim_slots@[j]).frames@.len() > 0 ==> self.anim_slots@[j].speed > 0,
            decreases self.anim_slots@.len() - i,
        {
            if self.anim_slots[i].frames.len() > 0 && self.anim_slots[i].speed == 0 {
                return false;
            }
            i += 1;
        }
        true
    }

    /// The scroll of one axis, `None` when `eff_ok` fails.
    pub fn checked_eff(&self, cam: i32, origin: i32, offset: i16) -> (r: Option<i64>)
        ensures
            r is Some <==> self.eff_ok(cam as int, origin as int, offset as int),
            r matches Some(e) ==> e == self.eff(cam as int, origin as int, offset as int),
    {
        if !self.parallax.can_apply(cam) {
            return None;
        }
        let applied: i64 = self.parallax.apply(cam) as i64;
        let s: i64 = applied + origin as i64;
        if s < -0x8000_0000 || s > 0x7fff_ffff {
            return None;
        }
        let e: i64 = s + offset as i64;
        if e < 0xffff - 0x7fff_ffff || e > 0x7fff_ffff {
            return None;
        }
        Some(e)
    }

    /// Whether the tile at `(tx, ty)`, if any, can be drawn.
    pub fn tile_drawable(&self, tx: i32, ty: i32, frame: u32) -> (b: bool)
        requires
            self.wf(),
        ensures
            b == self.tile_fits(tx as int, ty as int, frame),
    {
        match self.get_tile_coord(tx, ty) {
            None => true,
            Some(c) => {
                let r = self.resolve_tile_coord(c, frame);
                let p = Point { x: r[0] as u16, y: r[1] as u16 };
                assert(p == tile_point(self.spec_resolve(c, frame)));
                match self.tileset.checked_tile_offset(p) {
                    None => false,
                    Some(o) => CELL_AREA as u64 <= self.tileset.image.len() as u64 - o,
                }
            },
        }
    }

    /// Whether every tile that the cell at layer coordinates `(rx, ry)` overlaps can be drawn.
    pub fn cell_tiles_drawable(&self, rx: i32, ry: i32, frame: u32) -> (b: bool)
        requires
            self.wf(),
        ensures
            b == self.cell_fits(rx as int, ry as int, frame),
    {
        let ts: i32 = TILE_SIZE as i32;
        let bx = div_euclid_i32(rx, ts);
        let by = div_euclid_i32(ry, ts);
        let mx: bool = rem_euclid_i32(rx, ts) != 0;
        let my: bool = rem_euclid_i32(ry, ts) != 0;
        proof {
            lemma_fundamental_div_mod(rx as int, ts as int);
            lemma_fundamental_div_mod(ry as int, ts as int);
            if mx {
                assert(ts != 1);
                assert(bx < 0x7fff_ffff) by (nonlinear_arith)
                    requires
                        rx == ts * bx + rx % ts,
                        0 <= rx % ts < ts,
                        ts >= 2,
                        rx <= 0x7fff_ffff,
                ;
            }
            if my {
                assert(ts != 1);
                assert(by < 0x7fff_ffff) by (nonlinear_arith)
                    requires
                        ry == ts * by + ry % ts,
                        0 <= ry % ts < ts,
                        ts >= 2,
                        ry <= 0x7fff_ffff,
                ;
            }
        }
        if !self.tile_drawable(bx, by, frame) {
            return false;
        }
        if mx && !self.tile_drawable(bx + 1, by, frame) {
            return false;
        }
        if my && !self.tile_drawable(bx, by + 1, frame) {
            return false;
        }
        if mx && my && !self.tile_drawable(bx + 1, by + 1, frame) {
            return false;
        }
        true
    }

    /// Whether the layer can be drawn into screen cell `cell` for a camera
    /// at `cam`: it is well formed, the cell lies within 16-bit pixel
    /// coordinates, the scroll computations fit, and every tile the cell
    /// overlaps can be looked up.
    pub fn cell_drawable(&self, cell: [usize; 2], cam: [i32; 2], frame: u32) -> (b: bool)
        ensures
            b == (self.wf() && cell[0] * TILE_SIZE <= u16::MAX && cell[1] * TILE_SIZE <= u16::MAX
                && self.eff_ok(cam[0] as int, self.origin_x as int, self.offset[0] as int)
                && self.eff_ok(cam[1] as int, self.origin_y as int, self.offset[1] as int)
                && self.cell_fits(self.cell_rel_x(cell[0] as int, cam[0] as int), self.cell_rel_y(cell[1] as int, cam[1] as int), frame)),
    {
        if !self.is_wf() {
            return false;
        }
        if cell[0] > 0xffff || cell[1] > 0xffff {
            assert(cell[0] > 0xffff ==> cell[0] * TILE_SIZE > u16::MAX) by (nonlinear_arith)
                requires
                    TILE_SIZE >= 1,
            ;
            assert(cell[1] > 0xffff ==> cell[1] * TILE_SIZE > u16::MAX) by (nonlinear_arith)
                requires
                    TILE_SIZE >= 1,
            ;
            return false;
        }
        assert(cell[0] as u64 * TILE_SIZE as u64 <= 0xffff * 0xffff && cell[1] as u64 * TILE_SIZE as u64 <= 0xffff * 0xffff)
            by (nonlinear_arith)
            requires
                cell[0] <= 0xffff,
                cell[1] <= 0xffff,
                TILE_SIZE <= 0xffff,
        ;
        let x0: u64 = cell[0] as u64 * TILE_SIZE as u64;
        let y0: u64 = cell[1] as u64 * TILE_SIZE as u64;
        if x0 > 0xffff || y0 > 0xffff {
            return false;
        }
        let ex: i64 = match self.checked_eff(cam[0], self.origin_x, self.offset[0]) {
            Some(e) => e,
            None => return false,
        };
        let ey: i64 = match self.checked_eff(cam[1], self.origin_y, self.offset[1]) {
            Some(e) => e,
            None => return false,
        };
        let rx: i64 = x0 as i64 - ex;
        let ry: i64 = y0 as i64 - ey;
        self.cell_tiles_drawable(rx as i32, ry as i32, frame)
    }
}

} // verus!
