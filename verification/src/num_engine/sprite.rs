//! Animated sprite handles and their drawing into one screen cell.

use vstd::prelude::*;

use vstd::arithmetic::div_mod::{
    lemma_fundamental_div_mod, lemma_fundamental_div_mod_converse, lemma_mod_division_less_than_divisor, lemma_small_mod,
};
use vstd::slice::*;

use crate::eadk::{Color, Point};
use crate::num_engine::cellbuf::{
    blit_src_span, count_true, coverage_ok, lands_pred, lemma_count_le, lemma_count_none, lemma_count_split, lemma_coverage_step,
    lemma_rest_covered, src_lands,
};
use crate::num_engine::tile_blit::lemma_split_index;
use crate::num_engine::hitbox::in_i16;
use crate::num_engine::texture::{Animation, FrameCoord};
use crate::num_engine::tile_blit::lemma_cell_index;

verus! {

broadcast use vstd::array::group_array_axioms;

/// The larger of two integers.
pub open spec fn max_int(a: int, b: int) -> int {
    if a > b { a } else { b }
}

/// The smaller of two integers.
pub open spec fn min_int(a: int, b: int) -> int {
    if a < b { a } else { b }
}

/// Going from `a` to `a + 1` moves one pixel within a tile of `t` pixels,
/// or to the first pixel of the next tile.
pub proof fn lemma_next_pixel(a: int, t: int)
    requires
        t > 0,
        a >= 0,
    ensures
        a % t + 1 < t ==> (a + 1) / t == a / t && (a + 1) % t == a % t + 1,
        a % t + 1 >= t ==> (a + 1) / t == a / t + 1 && (a + 1) % t == 0,
{
    lemma_fundamental_div_mod(a, t);
    lemma_mod_division_less_than_divisor(a, t);
    let q = a / t;
    let r = a % t;
    assert(t * q == q * t) by (nonlinear_arith);
    if r + 1 < t {
        lemma_fundamental_div_mod_converse(a + 1, t, q, r + 1);
    } else {
        assert((q + 1) * t == q * t + t) by (nonlinear_arith);
        lemma_fundamental_div_mod_converse(a + 1, t, q + 1, 0);
    }
}

/// Counting modulo `m` from `q` to `q + 1` wraps to 0 after `m - 1`.
pub proof fn lemma_next_mod(q: int, m: int)
    requires
        m > 0,
        q >= 0,
    ensures
        (q + 1) % m == if q % m + 1 == m { 0 } else { q % m + 1 },
{
    lemma_next_pixel(q, m);
    lemma_mod_division_less_than_divisor(q, m);
}


/// A sprite: an animation shown at a world position, with the bookkeeping
/// that tells the renderer when it must be redrawn.
pub struct Sprite<'a, const TILE_SIZE: usize, const CELL_AREA: usize> {
    pub animation: &'a Animation<'a>,
    pub current_frame_index: usize,
    /// Absolute position in world pixels.
    pub position: [i16; 2],
    /// Displacement relative to the anchor the sprite follows.
    pub offset: [i16; 2],
    pub prev_position: [i16; 2],
    pub moved: bool,
    pub z: u8,
    pub active: bool,
}

impl<'a, const TILE_SIZE: usize, const CELL_AREA: usize> Sprite<'a, TILE_SIZE, CELL_AREA> {
    /// The sprite's size in pixels can be computed and fits `i16`, and its
    /// animation advances whenever it has frames.
    pub open spec fn wf(self) -> bool {
        let d = self.animation.desc;
        &&& d.width * d.tileset.tile_size <= u16::MAX
        &&& d.height * d.tileset.tile_size <= u16::MAX
        &&& d.spec_pixel_width() <= i16::MAX
        &&& d.spec_pixel_height() <= i16::MAX
        &&& self.animation.frames@.len() > 0 ==> self.animation.speed > 0
    }

    pub open spec fn spec_width(self) -> int {
        self.animation.desc.spec_pixel_width()
    }

    pub open spec fn spec_height(self) -> int {
        self.animation.desc.spec_pixel_height()
    }

    /// The frame currently shown, if the animation has frames.
    pub open spec fn spec_frame(self) -> Option<FrameCoord> {
        self.animation.spec_get_frame(self.current_frame_index as int)
    }

    /// A visible sprite at `position`, showing its first frame and due for drawing.
    pub fn new(animation: &'a Animation<'a>, position: [i16; 2], z: u8) -> (s: Self)
        ensures
            s == (Sprite::<'a, TILE_SIZE, CELL_AREA> {
                animation,
                current_frame_index: 0,
                position,
                offset: [0i16, 0i16],
                prev_position: position,
                moved: true,
                z,
                active: true,
            }),
    {
        Self { animation, current_frame_index: 0, position, offset: [0, 0], prev_position: position, moved: true, z, active: true }
    }

    /// The same sprite with displacement `offset` from its anchor.
    pub fn with_offset(self, offset: [i16; 2]) -> (s: Self)
        ensures
            s == (Sprite { offset, ..self }),
    {
        let mut s = self;
        s.offset = offset;
        s
    }

    /// An inactive placeholder sprite at the origin.
    pub fn empty(fallback_anim: &'a Animation<'a>) -> (s: Self)
        ensures
            s == (Sprite::<'a, TILE_SIZE, CELL_AREA> {
                animation: fallback_anim,
                current_frame_index: 0,
                position: [0i16, 0i16],
                offset: [0i16, 0i16],
                prev_position: [0i16, 0i16],
                moved: true,
                z: 0,
                active: false,
            }),
    {
        Self {
            animation: fallback_anim,
            current_frame_index: 0,
            position: [0, 0],
            offset: [0, 0],
            prev_position: [0, 0],
            moved: true,
            z: 0,
            active: false,
        }
    }

    /// Follows `anchor`: the position becomes the anchor plus the offset, and
    /// the sprite counts as moved when that changes its position.
    pub fn sync_to_anchor(&mut self, anchor: [i16; 2])
        requires
            in_i16(anchor[0] + old(self).offset[0]),
            in_i16(anchor[1] + old(self).offset[1]),
        ensures
            ({
                let p = [(anchor[0] + old(self).offset[0]) as i16, (anchor[1] + old(self).offset[1]) as i16];
                *final(self) == if old(self).position[0] != p[0] || old(self).position[1] != p[1] {
                    Sprite { position: p, moved: true, ..*old(self) }
                } else {
                    *old(self)
                }
            }),
    {
        let new_pos: [i16; 2] = [anchor[0] + self.offset[0], anchor[1] + self.offset[1]];
        if self.position[0] != new_pos[0] || self.position[1] != new_pos[1] {
            self.position = new_pos;
            self.moved = true;
        }
    }

    /// Moves the sprite to `pos`; it counts as moved when its position changes.
    pub fn set_position(&mut self, pos: [i16; 2])
        ensures
            *final(self) == if old(self).position[0] != pos[0] || old(self).position[1] != pos[1] {
                Sprite { position: pos, moved: true, ..*old(self) }
            } else {
                *old(self)
            },
    {
        if self.position[0] != pos[0] || self.position[1] != pos[1] {
            self.position = pos;
            self.moved = true;
        }
    }

    /// Shows `animation` from its first frame.
    pub fn set_animation(&mut self, animation: &'a Animation<'a>)
        ensures
            *final(self) == (Sprite { animation, current_frame_index: 0, moved: true, ..*old(self) }),
    {
        self.animation = animation;
        self.current_frame_index = 0;
        self.moved = true;
    }

    /// Advances the animation to the frame of tick `frame_counter`; the
    /// sprite counts as moved when the frame changes.
    pub fn update_animation(&mut self, frame_counter: u32)
        requires
            old(self).animation.frames@.len() > 0 ==> old(self).animation.speed > 0,
        ensures
            ({
                let i = old(self).animation.spec_frame_index(frame_counter);
                *final(self) == if i != old(self).current_frame_index {
                    Sprite { current_frame_index: i as usize, moved: true, ..*old(self) }
                } else {
                    *old(self)
                }
            }),
    {
        let next_idx = self.animation.calculate_frame_index(frame_counter);
        if next_idx != self.current_frame_index {
            self.current_frame_index = next_idx;
            self.moved = true;
        }
    }

    /// Width in pixels.
    pub fn pixel_width(&self) -> (w: u16)
        requires
            self.wf(),
        ensures
            w == self.spec_width(),
    {
        self.animation.desc.pixel_width()
    }

    /// Height in pixels.
    pub fn pixel_height(&self) -> (h: u16)
        requires
            self.wf(),
        ensures
            h == self.spec_height(),
    {
        self.animation.desc.pixel_height()
    }

    /// Latches the position as the previous one and clears the moved flag.
    pub fn commit_frame(&mut self)
        ensures
            *final(self) == (Sprite { prev_position: old(self).position, moved: false, ..*old(self) }),
    {
        self.prev_position = self.position;
        self.moved = false;
    }

    /// The frame currently shown, if the animation has frames.
    pub fn current_frame_coords(&self) -> (f: Option<FrameCoord>)
        ensures
            f == self.spec_frame(),
    {
        self.animation.get_frame(self.current_frame_index)
    }
}

impl<'a, const TILE_SIZE: usize, const CELL_AREA: usize> Sprite<'a, TILE_SIZE, CELL_AREA> {
    /// Tile size of the sprite's tileset.
    pub open spec fn tsz(self) -> int {
        self.animation.desc.tileset.tile_size as int
    }

    /// Width of the repeated source block in tiles (0 counts as 1).
    pub open spec fn sheet_w(self) -> int {
        let w = self.animation.desc.sheet_w;
        if w == 0 { 1 } else { w as int }
    }

    /// Height of the repeated source block in tiles (0 counts as 1).
    pub open spec fn sheet_h(self) -> int {
        let h = self.animation.desc.sheet_h;
        if h == 0 { 1 } else { h as int }
    }

    /// Whether screen pixel `(x, y)` lies in the sprite drawn at `(sx, sy)`.
    pub open spec fn in_sprite(self, sx: int, sy: int, x: int, y: int) -> bool {
        sx <= x < sx + self.spec_width() && sy <= y < sy + self.spec_height()
    }

    /// Length of the part of a cell row at `cx` drawn from the first source tile.
    pub open spec fn span1(self, cx: int, sx: int) -> int {
        let x_start = max_int(sx, cx);
        let x_end = min_int(sx + self.spec_width(), cx + TILE_SIZE);
        let x0 = x_start - sx;
        min_int(self.tsz() - x0 % self.tsz(), x_end - x_start)
    }

    /// Source tile column (within the block) drawn at screen column `x` of a cell at `cx`.
    pub open spec fn src_tile_x(self, cx: int, sx: int, x: int) -> int {
        let x0 = max_int(sx, cx) - sx;
        if x - max_int(sx, cx) < self.span1(cx, sx) {
            (x0 / self.tsz()) % self.sheet_w()
        } else {
            (x0 / self.tsz() + 1) % self.sheet_w()
        }
    }

    /// Source pixel column, inside its tile's row, drawn at screen column `x`
    /// of a cell at `cx`: the cell row is drawn as a run from the first
    /// source tile followed by a run from the next one.
    pub open spec fn src_px_x(self, cx: int, sx: int, x: int) -> int {
        let j = x - max_int(sx, cx);
        let x0 = max_int(sx, cx) - sx;
        if j < self.span1(cx, sx) {
            x0 % self.tsz() + j
        } else {
            j - self.span1(cx, sx)
        }
    }

    /// Tile of the tileset drawn at screen pixel `(x, y)` for frame `f`.
    pub open spec fn src_point(self, f: FrameCoord, cx: int, sx: int, sy: int, x: int, y: int) -> Point {
        Point {
            x: (f.tx + self.src_tile_x(cx, sx, x)) as u16,
            y: (f.ty + ((y - sy) / self.tsz()) % self.sheet_h()) as u16,
        }
    }

    /// Index in the tileset image of the pixel drawn at screen pixel `(x, y)` for frame `f`.
    pub open spec fn src_index(self, f: FrameCoord, cx: int, sx: int, sy: int, x: int, y: int) -> int {
        self.animation.desc.tileset.tile_offset(self.src_point(f, cx, sx, sy, x, y)) + ((y - sy) % self.tsz()) * self.tsz()
            + self.src_px_x(cx, sx, x)
    }

    /// The sprite's pixel for pixel `k` of the cell at `(cx, cy)`, the sprite being at `(sx, sy)`.
    pub open spec fn pixel(self, cx: int, cy: int, sx: int, sy: int, k: int) -> Option<Color> {
        let x = cx + k % (TILE_SIZE as int);
        let y = cy + k / (TILE_SIZE as int);
        match self.spec_frame() {
            Some(f) => if self.in_sprite(sx, sy, x, y) {
                Some(self.animation.desc.tileset.image@[self.src_index(f, cx, sx, sy, x, y)])
            } else {
                None
            },
            None => None,
        }
    }

    /// `pixel` as a function of the cell pixel index.
    pub open spec fn src_fn(self, cx: int, cy: int, sx: int, sy: int) -> spec_fn(int) -> Option<Color> {
        |k: int| self.pixel(cx, cy, sx, sy, k)
    }

    /// The tile drawn at cell pixel `k` can be looked up and holds the pixel drawn there.
    pub open spec fn pixel_fits(self, cx: int, cy: int, sx: int, sy: int, k: int) -> bool {
        let x = cx + k % (TILE_SIZE as int);
        let y = cy + k / (TILE_SIZE as int);
        match self.spec_frame() {
            Some(f) => self.in_sprite(sx, sy, x, y) ==> {
                &&& self.animation.desc.tileset.tile_ok(self.src_point(f, cx, sx, sy, x, y))
                &&& self.src_index(f, cx, sx, sy, x, y) < self.animation.desc.tileset.image@.len()
            },
            None => true,
        }
    }

    /// Every pixel the sprite draws into the cell can be looked up.
    pub open spec fn cell_fits(self, cx: int, cy: int, sx: int, sy: int) -> bool {
        forall|k: int| 0 <= k < CELL_AREA ==> #[trigger] self.pixel_fits(cx, cy, sx, sy, k)
    }

    /// Pixel `(row, col)` of the cell at `(cx, cy)` is pixel `row * TILE_SIZE + col`.
    pub proof fn lemma_pixel_at(self, cx: int, cy: int, sx: int, sy: int, row: int, col: int)
        requires
            TILE_SIZE > 0,
            0 <= row < TILE_SIZE,
            0 <= col < TILE_SIZE,
        ensures
            self.pixel(cx, cy, sx, sy, row * TILE_SIZE + col) == match self.spec_frame() {
                Some(f) => if self.in_sprite(sx, sy, cx + col, cy + row) {
                    Some(self.animation.desc.tileset.image@[self.src_index(f, cx, sx, sy, cx + col, cy + row)])
                } else {
                    None
                },
                None => None,
            },
            self.pixel_fits(cx, cy, sx, sy, row * TILE_SIZE + col) == match self.spec_frame() {
                Some(f) => self.in_sprite(sx, sy, cx + col, cy + row) ==> {
                    &&& self.animation.desc.tileset.tile_ok(self.src_point(f, cx, sx, sy, cx + col, cy + row))
                    &&& self.src_index(f, cx, sx, sy, cx + col, cy + row) < self.animation.desc.tileset.image@.len()
                },
                None => true,
            },
            0 <= row * TILE_SIZE + col < CELL_AREA || CELL_AREA != TILE_SIZE * TILE_SIZE,
    {
        lemma_cell_index(row, col, TILE_SIZE as int);
    }
}

impl<'a, const TILE_SIZE: usize, const CELL_AREA: usize> Sprite<'a, TILE_SIZE, CELL_AREA> {
    /// Draws screen row `cur_y` of the sprite at `(sx, sy)` into the cell at
    /// `(cx, cy)`: a run from the first source tile, then, if the row goes
    /// on, a run from the next one.
    #[verifier::rlimit(80)]
    #[verifier::spinoff_prover]
    fn blit_row(
        &self,
        cell_buf: &mut [Color; CELL_AREA],
        covered: &mut [bool; CELL_AREA],
        pixels_covered: &mut usize,
        frame: FrameCoord,
        cur_y: i16,
        cell_local_y: usize,
        row_in_t: usize,
        cur_ty: usize,
        tx0: usize,
        tx1: usize,
        col0: usize,
        span1_len: usize,
        span2_len: usize,
        cell_local_x0: usize,
        fast_copy: bool,
        Ghost(cx): Ghost<int>,
        Ghost(cy): Ghost<int>,
        Ghost(sx): Ghost<int>,
        Ghost(sy): Ghost<int>,
        Ghost(cov0): Ghost<Seq<bool>>,
    )
        requires
            self.wf(),
            0 < TILE_SIZE,
            CELL_AREA == TILE_SIZE * TILE_SIZE,
            2 * CELL_AREA <= usize::MAX,
            self.spec_frame() == Some(frame),
            self.cell_fits(cx, cy, sx, sy),
            ({
                let t = self.tsz();
                let x_start = max_int(sx, cx);
                let x_end = min_int(sx + self.spec_width(), cx + TILE_SIZE);
                let x0 = x_start - sx;
                &&& x_start < x_end
                &&& max_int(sy, cy) <= cur_y < min_int(sy + self.spec_height(), cy + TILE_SIZE)
                &&& cell_local_y == cur_y - cy
                &&& t > 0
                &&& row_in_t == (cur_y - sy) % t
                &&& cur_ty == ((cur_y - sy) / t) % self.sheet_h()
                &&& tx0 == (x0 / t) % self.sheet_w()
                &&& tx1 == (x0 / t + 1) % self.sheet_w()
                &&& col0 == x0 % t
                &&& span1_len == self.span1(cx, sx)
                &&& span2_len == x_end - x_start - span1_len
                &&& cell_local_x0 == x_start - cx
            }),
            fast_copy ==> forall|k: int| 0 <= k < CELL_AREA ==> (#[trigger] self.pixel(cx, cy, sx, sy, k)) is Some,
            *old(pixels_covered) + TILE_SIZE <= usize::MAX,
            forall|k: int|
                cell_local_y * TILE_SIZE <= k < cell_local_y * TILE_SIZE + TILE_SIZE ==> #[trigger] old(covered)@[k] == cov0[k],
        ensures
            fast_copy ==> forall|k: int|
                0 <= k < CELL_AREA ==> #[trigger] final(cell_buf)@[k] == if cell_local_y * TILE_SIZE <= k < cell_local_y * TILE_SIZE
                    + TILE_SIZE {
                    self.pixel(cx, cy, sx, sy, k).unwrap()
                } else {
                    old(cell_buf)@[k]
                },
            fast_copy ==> final(covered)@ == old(covered)@,
            fast_copy ==> *final(pixels_covered) == *old(pixels_covered),
            !fast_copy ==> forall|k: int|
                0 <= k < CELL_AREA ==> #[trigger] final(cell_buf)@[k] == if cell_local_y * TILE_SIZE <= k < cell_local_y * TILE_SIZE
                    + TILE_SIZE && src_lands(self.src_fn(cx, cy, sx, sy), cov0, self.animation.desc.transparency, k) {
                    self.pixel(cx, cy, sx, sy, k).unwrap()
                } else {
                    old(cell_buf)@[k]
                },
            !fast_copy ==> forall|k: int|
                0 <= k < CELL_AREA ==> #[trigger] final(covered)@[k] == (old(covered)@[k] || (cell_local_y * TILE_SIZE <= k
                    < cell_local_y * TILE_SIZE + TILE_SIZE && src_lands(self.src_fn(cx, cy, sx, sy), cov0, self.animation.desc.transparency, k))),
            !fast_copy ==> *final(pixels_covered) == *old(pixels_covered) + count_true(
                lands_pred(self.src_fn(cx, cy, sx, sy), cov0, self.animation.desc.transparency),
                cell_local_y * TILE_SIZE,
                cell_local_y * TILE_SIZE + TILE_SIZE,
            ),
    {
        let ghost src = self.src_fn(cx, cy, sx, sy);
        let ghost tr = self.animation.desc.transparency;
        let ghost lf = lands_pred(src, cov0, tr);
        let ghost t = self.tsz();
        let ghost x_start = max_int(sx, cx);
        let ghost x_end = min_int(sx + self.spec_width(), cx + TILE_SIZE);
        let ghost base = cell_local_y * TILE_SIZE;
        let ghost ly = cur_y - sy;
        let tileset = self.animation.desc.tileset;
        let tile_size: usize = tileset.tile_size as usize;
        proof {
            lemma_cell_index(cell_local_y as int, 0, TILE_SIZE as int);
            lemma_mod_division_less_than_divisor(ly, t);
            lemma_mod_division_less_than_divisor(x_start - sx, t);
            // every pixel of the row outside the two runs lies outside the sprite
            assert forall|k: int| base <= k < base + TILE_SIZE && !(base + cell_local_x0 <= k < base + cell_local_x0 + span1_len
                + span2_len) implies !#[trigger] lf(k) && self.pixel(cx, cy, sx, sy, k) is None by {
                self.lemma_pixel_at(cx, cy, sx, sy, cell_local_y as int, k - base);
            }
            // the first pixel and the last pixel of the left run fit
            self.lemma_pixel_at(cx, cy, sx, sy, cell_local_y as int, cell_local_x0 as int);
            self.lemma_pixel_at(cx, cy, sx, sy, cell_local_y as int, cell_local_x0 + span1_len - 1);
            assert(self.pixel_fits(cx, cy, sx, sy, base + cell_local_x0));
            assert(self.pixel_fits(cx, cy, sx, sy, base + cell_local_x0 + span1_len - 1));
        }
        let row_dst: usize = cell_local_y * TILE_SIZE + cell_local_x0;
        let pl = Point { x: frame.tx as u16 + tx0 as u16, y: frame.ty as u16 + cur_ty as u16 };
        assert(pl == self.src_point(frame, cx, sx, sy, x_start, cur_y as int));
        let t_left = tileset.get_tile(pl);
        proof {
            let ts = tileset.tile_size as int;
            let inner = (pl.y as int) * (tileset.width as int) + (pl.x as int) * ts;
            assert(0 <= inner) by (nonlinear_arith)
                requires
                    inner == (pl.y as int) * (tileset.width as int) + (pl.x as int) * ts,
                    0 <= pl.y,
                    0 <= pl.x,
                    0 <= tileset.width,
                    0 <= ts,
            ;
            assert(0 <= ts * inner) by (nonlinear_arith)
                requires
                    0 <= inner,
                    0 <= ts,
            ;
            assert(self.src_index(frame, cx, sx, sy, x_start + span1_len - 1, cur_y as int) == tileset.tile_offset(pl) + row_in_t * t + col0
                + span1_len - 1);
        }
        let _image_len: usize = tileset.image.len();
        assert(row_in_t * t + col0 + span1_len <= tileset.image@.len());
        let a: usize = row_in_t * tile_size + col0;
        let span = slice_subrange(t_left, a, a + span1_len);
        proof {
            assert forall|k: int| row_dst <= k < row_dst + span@.len() implies #[trigger] src(k) == Some(span@[k - row_dst]) by {
                self.lemma_pixel_at(cx, cy, sx, sy, cell_local_y as int, k - base);
            }
            lemma_count_le(lf, 0, 0);
        }
        let ghost pc_mid = *pixels_covered;
        blit_src_span(cell_buf, covered, pixels_covered, row_dst, span, tileset_transparency(self), fast_copy, Ghost(src), Ghost(cov0));
        proof {
            lemma_count_le(lf, row_dst as int, row_dst + span1_len);
        }
        if span2_len > 0 {
            proof {
                self.lemma_pixel_at(cx, cy, sx, sy, cell_local_y as int, cell_local_x0 + span1_len);
                self.lemma_pixel_at(cx, cy, sx, sy, cell_local_y as int, cell_local_x0 + span1_len + span2_len - 1);
                assert(self.pixel_fits(cx, cy, sx, sy, base + cell_local_x0 + span1_len));
                assert(self.pixel_fits(cx, cy, sx, sy, base + cell_local_x0 + span1_len + span2_len - 1));
            }
            let pr = Point { x: frame.tx as u16 + tx1 as u16, y: frame.ty as u16 + cur_ty as u16 };
            assert(pr == self.src_point(frame, cx, sx, sy, x_start + span1_len, cur_y as int));
            let t_right = tileset.get_tile(pr);
            proof {
                let ts = tileset.tile_size as int;
                let inner = (pr.y as int) * (tileset.width as int) + (pr.x as int) * ts;
                assert(0 <= inner) by (nonlinear_arith)
                    requires
                        inner == (pr.y as int) * (tileset.width as int) + (pr.x as int) * ts,
                        0 <= pr.y,
                        0 <= pr.x,
                        0 <= tileset.width,
                        0 <= ts,
                ;
                assert(0 <= ts * inner) by (nonlinear_arith)
                    requires
                        0 <= inner,
                        0 <= ts,
                ;
                assert(self.src_index(frame, cx, sx, sy, x_start + span1_len + span2_len - 1, cur_y as int) == tileset.tile_offset(pr)
                    + row_in_t * t + span2_len - 1);
            }
            let b: usize = row_in_t * tile_size;
            let span_r = slice_subrange(t_right, b, b + span2_len);
            proof {
                assert forall|k: int| row_dst + span1_len <= k < row_dst + span1_len + span_r@.len() implies #[trigger] src(k) == Some(
                    span_r@[k - (row_dst + span1_len)],
                ) by {
                    self.lemma_pixel_at(cx, cy, sx, sy, cell_local_y as int, k - base);
                }
            }
            blit_src_span(
                cell_buf,
                covered,
                pixels_covered,
                row_dst + span1_len,
                span_r,
                tileset_transparency(self),
                fast_copy,
                Ghost(src),
                Ghost(cov0),
            );
        }
        proof {
            let lo = base + cell_local_x0;
            let mid = lo + span1_len;
            let hi = mid + span2_len;
            lemma_count_none(lf, base, lo);
            lemma_count_none(lf, hi, base + TILE_SIZE);
            lemma_count_split(lf, base, lo, mid);
            lemma_count_split(lf, base, mid, hi);
            lemma_count_split(lf, base, hi, base + TILE_SIZE);
            if span2_len == 0 {
                assert(count_true(lf, mid, hi) == 0);
            }
            assert forall|k: int| 0 <= k < CELL_AREA && base <= k < base + TILE_SIZE && !(lo <= k < hi) implies !src_lands(
                src,
                cov0,
                tr,
                k,
            ) by {
                assert(!lf(k));
            }
        }
    }
}

impl<'a, const TILE_SIZE: usize, const CELL_AREA: usize> Sprite<'a, TILE_SIZE, CELL_AREA> {
    /// The sprite at `(sx, sy)` covers every pixel of the cell at `(cx, cy)`.
    pub open spec fn covers_cell(self, cx: int, cy: int, sx: int, sy: int) -> bool {
        forall|k: int| 0 <= k < CELL_AREA ==> (#[trigger] self.pixel(cx, cy, sx, sy, k)) is Some
    }

    /// The sprite is opaque, the cell still empty, and the sprite covers all of it.
    pub open spec fn fast_case(self, cell_pos: [i16; 2], screen_pos: [i16; 2], pixels_covered: usize) -> bool {
        &&& !self.animation.desc.transparency
        &&& pixels_covered == 0
        &&& self.covers_cell(cell_pos[0] as int, cell_pos[1] as int, screen_pos[0] as int, screen_pos[1] as int)
    }

    /// The sprite draws nothing into the cell at `(cx, cy)`.
    proof fn lemma_no_pixels(self, cx: int, cy: int, sx: int, sy: int)
        requires
            0 < TILE_SIZE,
            CELL_AREA == TILE_SIZE * TILE_SIZE,
            self.spec_frame() is None || max_int(sx, cx) >= min_int(sx + self.spec_width(), cx + TILE_SIZE) || max_int(sy, cy)
                >= min_int(sy + self.spec_height(), cy + TILE_SIZE),
        ensures
            forall|k: int| 0 <= k < CELL_AREA ==> (#[trigger] self.pixel(cx, cy, sx, sy, k)) is None,
    {
        assert forall|k: int| 0 <= k < CELL_AREA implies (#[trigger] self.pixel(cx, cy, sx, sy, k)) is None by {
            lemma_split_index(k, TILE_SIZE as int);
            self.lemma_pixel_at(cx, cy, sx, sy, k / (TILE_SIZE as int), k % (TILE_SIZE as int));
        }
    }

    /// Draws the sprite, placed at screen position `screen_pos`, into the
    /// cell at screen position `cell_pos`, behind what nearer layers already
    /// drew. Nothing happens once the cell is fully covered. When the
    /// texture is opaque, the cell still empty and the sprite covers all of
    /// it, the cell is filled with the sprite's pixels and counted as full,
    /// its coverage mask left alone. Otherwise each of the sprite's pixels
    /// that lands (see `pixel_lands`) is written, marked covered and counted.
    pub fn blit_to_cell_reverse_z(
        &self,
        cell_buf: &mut [Color; CELL_AREA],
        covered: &mut [bool; CELL_AREA],
        pixels_covered: &mut usize,
        cell_pos: [i16; 2],
        screen_pos: [i16; 2],
    )
        requires
            self.wf(),
            0 < TILE_SIZE <= i16::MAX,
            CELL_AREA == TILE_SIZE * TILE_SIZE,
            2 * CELL_AREA <= usize::MAX,
            in_i16(cell_pos[0] + TILE_SIZE),
            in_i16(cell_pos[1] + TILE_SIZE),
            in_i16(screen_pos[0] + self.spec_width()),
            in_i16(screen_pos[1] + self.spec_height()),
            coverage_ok(old(covered)@, *old(pixels_covered) as int, CELL_AREA as int),
            self.cell_fits(cell_pos[0] as int, cell_pos[1] as int, screen_pos[0] as int, screen_pos[1] as int),
        ensures
            coverage_ok(final(covered)@, *final(pixels_covered) as int, CELL_AREA as int),
            *old(pixels_covered) >= CELL_AREA ==> {
                &&& final(cell_buf)@ == old(cell_buf)@
                &&& final(covered)@ == old(covered)@
                &&& *final(pixels_covered) == *old(pixels_covered)
            },
            *old(pixels_covered) < CELL_AREA && self.fast_case(cell_pos, screen_pos, *old(pixels_covered)) ==> {
                &&& forall|k: int|
                    0 <= k < CELL_AREA ==> #[trigger] final(cell_buf)@[k] == self.pixel(
                        cell_pos[0] as int,
                        cell_pos[1] as int,
                        screen_pos[0] as int,
                        screen_pos[1] as int,
                        k,
                    ).unwrap()
                &&& final(covered)@ == old(covered)@
                &&& *final(pixels_covered) == CELL_AREA
            },
            *old(pixels_covered) < CELL_AREA && !self.fast_case(cell_pos, screen_pos, *old(pixels_covered)) ==> forall|k: int|
                0 <= k < CELL_AREA ==> #[trigger] final(cell_buf)@[k] == if src_lands(
                    self.src_fn(cell_pos[0] as int, cell_pos[1] as int, screen_pos[0] as int, screen_pos[1] as int),
                    old(covered)@,
                    self.animation.desc.transparency,
                    k,
                ) {
                    self.pixel(cell_pos[0] as int, cell_pos[1] as int, screen_pos[0] as int, screen_pos[1] as int, k).unwrap()
                } else {
                    old(cell_buf)@[k]
                },
            *old(pixels_covered) < CELL_AREA && !self.fast_case(cell_pos, screen_pos, *old(pixels_covered)) ==> forall|k: int|
                0 <= k < CELL_AREA ==> #[trigger] final(covered)@[k] == (old(covered)@[k] || src_lands(
                    self.src_fn(cell_pos[0] as int, cell_pos[1] as int, screen_pos[0] as int, screen_pos[1] as int),
                    old(covered)@,
                    self.animation.desc.transparency,
                    k,
                )),
            *old(pixels_covered) < CELL_AREA && !self.fast_case(cell_pos, screen_pos, *old(pixels_covered)) ==> *final(pixels_covered)
                == *old(pixels_covered) + count_true(
                lands_pred(
                    self.src_fn(cell_pos[0] as int, cell_pos[1] as int, screen_pos[0] as int, screen_pos[1] as int),
                    old(covered)@,
                    self.animation.desc.transparency,
                ),
                0,
                CELL_AREA as int,
            ),
    {
        let ghost cx = cell_pos[0] as int;
        let ghost cy = cell_pos[1] as int;
        let ghost sx = screen_pos[0] as int;
        let ghost sy = screen_pos[1] as int;
        let ghost src = self.src_fn(cx, cy, sx, sy);
        let ghost tr = self.animation.desc.transparency;
        let ghost cov0 = covered@;
        let ghost buf0 = cell_buf@;
        let ghost pc0 = *pixels_covered as int;
        let ghost lf = lands_pred(src, cov0, tr);
        let cell_x = cell_pos[0];
        let cell_y = cell_pos[1];
        let screen_x = screen_pos[0];
        let screen_y = screen_pos[1];
        let spr_w: i16 = self.pixel_width() as i16;
        let spr_h: i16 = self.pixel_height() as i16;
        let ts16: i16 = TILE_SIZE as i16;
        let x_start: i16 = if screen_x > cell_x { screen_x } else { cell_x };
        let x_end: i16 = if screen_x + spr_w < cell_x + ts16 { screen_x + spr_w } else { cell_x + ts16 };
        let y_start: i16 = if screen_y > cell_y { screen_y } else { cell_y };
        let y_end: i16 = if screen_y + spr_h < cell_y + ts16 { screen_y + spr_h } else { cell_y + ts16 };
        proof {
            assert(TILE_SIZE * TILE_SIZE > 0) by (nonlinear_arith)
                requires
                    TILE_SIZE > 0,
            ;
        }
        if x_start >= x_end || y_start >= y_end {
            proof {
                self.lemma_no_pixels(cx, cy, sx, sy);
                assert forall|k: int| 0 <= k < CELL_AREA implies !#[trigger] lf(k) by {
                    assert(self.pixel(cx, cy, sx, sy, k) is None);
                }
                lemma_count_none(lf, 0, CELL_AREA as int);
                assert(self.pixel(cx, cy, sx, sy, 0) is None);
                assert(cell_buf@ == buf0);
            }
            return;
        }
        let frame = match self.current_frame_coords() {
            Some(f) => f,
            None => {
                proof {
                    self.lemma_no_pixels(cx, cy, sx, sy);
                    assert forall|k: int| 0 <= k < CELL_AREA implies !#[trigger] lf(k) by {
                        assert(self.pixel(cx, cy, sx, sy, k) is None);
                    }
                    lemma_count_none(lf, 0, CELL_AREA as int);
                    assert(self.pixel(cx, cy, sx, sy, 0) is None);
                    assert(cell_buf@ == buf0);
                }
                return;
            },
        };
        let tileset = self.animation.desc.tileset;
        let tile_size: usize = tileset.tile_size as usize;
        proof {
            assert(tile_size > 0) by (nonlinear_arith)
                requires
                    self.animation.desc.spec_pixel_width() > 0,
                    self.animation.desc.spec_pixel_width() == self.animation.desc.width * tileset.tile_size * self.animation.desc.scaling,
                    tile_size == tileset.tile_size,
            ;
        }
        let sheet_w: usize = if self.animation.desc.sheet_w == 0 { 1 } else { self.animation.desc.sheet_w as usize };
        let sheet_h: usize = if self.animation.desc.sheet_h == 0 { 1 } else { self.animation.desc.sheet_h as usize };
        let fast_full_cell = !self.animation.desc.transparency && x_start == cell_x && y_start == cell_y && x_end == cell_x + ts16
            && y_end == cell_y + ts16 && *pixels_covered == 0;
        proof {
            if self.covers_cell(cx, cy, sx, sy) {
                lemma_cell_index(0, 0, TILE_SIZE as int);
                lemma_cell_index(TILE_SIZE - 1, TILE_SIZE - 1, TILE_SIZE as int);
                self.lemma_pixel_at(cx, cy, sx, sy, 0, 0);
                self.lemma_pixel_at(cx, cy, sx, sy, TILE_SIZE - 1, TILE_SIZE - 1);
                assert(self.pixel(cx, cy, sx, sy, 0) is Some);
                assert(self.pixel(cx, cy, sx, sy, (TILE_SIZE - 1) * TILE_SIZE + TILE_SIZE - 1) is Some);
            }
            if x_start == cell_x && y_start == cell_y && x_end == cell_x + ts16 && y_end == cell_y + ts16 {
                assert forall|k: int| 0 <= k < CELL_AREA implies (#[trigger] self.pixel(cx, cy, sx, sy, k)) is Some by {
                    lemma_split_index(k, TILE_SIZE as int);
                    self.lemma_pixel_at(cx, cy, sx, sy, k / (TILE_SIZE as int), k % (TILE_SIZE as int));
                }
            }
            assert(fast_full_cell == (!tr && pc0 == 0 && self.covers_cell(cx, cy, sx, sy)));
        }
        let start_spr_y: usize = (y_start - screen_y) as usize;
        let mut cur_ty: usize = (start_spr_y / tile_size) % sheet_h;
        let mut row_in_t: usize = start_spr_y % tile_size;
        let start_spr_x: usize = (x_start - screen_x) as usize;
        let tx0: usize = (start_spr_x / tile_size) % sheet_w;
        let col0: usize = start_spr_x % tile_size;
        let total_x_len: usize = (x_end - x_start) as usize;
        let span1_len: usize = if tile_size - col0 < total_x_len { tile_size - col0 } else { total_x_len };
        let tx1: usize = (tx0 + 1) % sheet_w;
        let span2_len: usize = total_x_len - span1_len;
        let cell_local_x0: usize = (x_start - cell_x) as usize;
        let ghost n0 = (y_start - cell_y) * TILE_SIZE;
        if *pixels_covered >= CELL_AREA {
            return;
        }
        proof {
            assert(cov0.len() == CELL_AREA);
            lemma_mod_division_less_than_divisor((x_start - screen_x) as int / (tile_size as int), sheet_w as int);
            lemma_next_mod((x_start - screen_x) as int / (tile_size as int), sheet_w as int);
            lemma_next_mod(tx0 as int, sheet_w as int);
            lemma_small_mod(tx0 as nat, sheet_w as nat);
        }
        proof {
            // rows above the sprite hold none of its pixels
            lemma_cell_index((y_start - cell_y) as int, 0, TILE_SIZE as int);
            assert forall|k: int| 0 <= k < n0 implies !#[trigger] lf(k) && self.pixel(cx, cy, sx, sy, k) is None by {
                lemma_split_index(k, TILE_SIZE as int);
                self.lemma_pixel_at(cx, cy, sx, sy, k / (TILE_SIZE as int), k % (TILE_SIZE as int));
                assert(k / (TILE_SIZE as int) < y_start - cell_y) by (nonlinear_arith)
                    requires
                        0 <= k < n0,
                        n0 == (y_start - cell_y) * TILE_SIZE,
                        k == (k / (TILE_SIZE as int)) * TILE_SIZE + k % (TILE_SIZE as int),
                        0 <= k % (TILE_SIZE as int),
                        TILE_SIZE > 0,
                ;
            }
            lemma_count_none(lf, 0, n0);
            if fast_full_cell {
                assert(n0 == 0);
            }
        }
        let mut cur_y: i16 = y_start;
        while cur_y < y_end
            invariant
                self.wf(),
                0 < TILE_SIZE <= i16::MAX,
                CELL_AREA == TILE_SIZE * TILE_SIZE,
                2 * CELL_AREA <= usize::MAX,
                self.cell_fits(cx, cy, sx, sy),
                self.spec_frame() == Some(frame),
                cx == cell_x && cy == cell_y && sx == screen_x && sy == screen_y,
                cx == cell_pos[0] && cy == cell_pos[1] && sx == screen_pos[0] && sy == screen_pos[1],
                src == self.src_fn(cx, cy, sx, sy),
                tr == self.animation.desc.transparency,
                lf == lands_pred(src, cov0, tr),
                tileset == self.animation.desc.tileset,
                tile_size == self.tsz(),
                sheet_w == self.sheet_w(),
                sheet_h == self.sheet_h(),
                x_start == max_int(sx, cx),
                x_end == min_int(sx + self.spec_width(), cx + TILE_SIZE),
                y_start == max_int(sy, cy),
                y_end == min_int(sy + self.spec_height(), cy + TILE_SIZE),
                x_start < x_end,
                tx0 == ((x_start - sx) / self.tsz()) % self.sheet_w(),
                tx1 == ((x_start - sx) / self.tsz() + 1) % self.sheet_w(),
                col0 == (x_start - sx) % self.tsz(),
                span1_len == self.span1(cx, sx),
                span2_len == x_end - x_start - span1_len,
                cell_local_x0 == x_start - cx,
                fast_full_cell == (!tr && pc0 == 0 && self.covers_cell(cx, cy, sx, sy)),
                self.tsz() > 0,
                pc0 < CELL_AREA,
                pc0 == *old(pixels_covered),
                cov0 == old(covered)@,
                buf0 == old(cell_buf)@,
                cov0.len() == CELL_AREA,
                coverage_ok(cov0, pc0, CELL_AREA as int),
                y_start <= cur_y <= y_end,
                row_in_t == (cur_y - sy) % self.tsz(),
                cur_ty == ((cur_y - sy) / self.tsz()) % self.sheet_h(),
                fast_full_cell ==> {
                    &&& forall|k: int|
                        0 <= k < CELL_AREA ==> #[trigger] cell_buf@[k] == if k < (cur_y - cy) * TILE_SIZE {
                            self.pixel(cx, cy, sx, sy, k).unwrap()
                        } else {
                            buf0[k]
                        }
                    &&& covered@ == cov0
                    &&& *pixels_covered == pc0
                },
                !fast_full_cell ==> {
                    &&& forall|k: int|
                        0 <= k < CELL_AREA ==> #[trigger] cell_buf@[k] == if k < (cur_y - cy) * TILE_SIZE && lf(k) {
                            self.pixel(cx, cy, sx, sy, k).unwrap()
                        } else {
                            buf0[k]
                        }
                    &&& forall|k: int| 0 <= k < CELL_AREA ==> #[trigger] covered@[k] == (cov0[k] || (k < (cur_y - cy) * TILE_SIZE && lf(k)))
                    &&& *pixels_covered == pc0 + count_true(lf, 0, (cur_y - cy) * TILE_SIZE)
                },
            decreases y_end - cur_y,
        {
            let ghost n = (cur_y - cy) * TILE_SIZE;
            proof {
                lemma_cell_index((cur_y - cy) as int, 0, TILE_SIZE as int);
                lemma_count_le(lf, 0, n);
            }
            if *pixels_covered >= CELL_AREA {
                proof {
                    assert forall|k: int| 0 <= k < CELL_AREA && #[trigger] lf(k) implies !cov0[k] by {}
                    lemma_rest_covered(cov0, lf, pc0, n, CELL_AREA as int);
                    assert forall|k: int| n <= k < CELL_AREA implies !#[trigger] lf(k) by {
                        assert(cov0[k]);
                    }
                    lemma_count_none(lf, n, CELL_AREA as int);
                    lemma_count_split(lf, 0, n, CELL_AREA as int);
                    lemma_coverage_step(src, cov0, covered@, tr, pc0, CELL_AREA as int);
                assert forall|k: int| 0 <= k < CELL_AREA implies #[trigger] cell_buf@[k] == (if src_lands(src, cov0, tr, k) {
                    self.pixel(cx, cy, sx, sy, k).unwrap()
                } else {
                    buf0[k]
                }) && covered@[k] == (cov0[k] || src_lands(src, cov0, tr, k)) by {
                    assert(lf(k) == src_lands(src, cov0, tr, k));
                    if k >= n {
                        assert(!lf(k));
                    }
                }
                }
                return;
            }
            let cell_local_y: usize = (cur_y - cell_y) as usize;
            self.blit_row(
                cell_buf,
                covered,
                pixels_covered,
                frame,
                cur_y,
                cell_local_y,
                row_in_t,
                cur_ty,
                tx0,
                tx1,
                col0,
                span1_len,
                span2_len,
                cell_local_x0,
                fast_full_cell,
                Ghost(cx),
                Ghost(cy),
                Ghost(sx),
                Ghost(sy),
                Ghost(cov0),
            );
            proof {
                lemma_count_split(lf, 0, n, n + TILE_SIZE);
                lemma_next_pixel(cur_y - sy, self.tsz());
                lemma_next_mod((cur_y - sy) / self.tsz(), self.sheet_h());
                assert((cur_y + 1 - cy) * TILE_SIZE == n + TILE_SIZE) by (nonlinear_arith)
                    requires
                        n == (cur_y - cy) * TILE_SIZE,
                ;
            }
            row_in_t += 1;
            if row_in_t == tile_size {
                row_in_t = 0;
                cur_ty += 1;
                if cur_ty == sheet_h {
                    cur_ty = 0;
                }
            }
            cur_y += 1;
        }
        proof {
            let n = (y_end - cy) * TILE_SIZE;
            lemma_cell_index((y_end - cy - 1) as int, 0, TILE_SIZE as int);
            assert(n == (y_end - cy - 1) * TILE_SIZE + TILE_SIZE) by (nonlinear_arith)
                requires
                    n == (y_end - cy) * TILE_SIZE,
            ;
            // rows below the sprite hold none of its pixels
            assert forall|k: int| n <= k < CELL_AREA implies !#[trigger] lf(k) && self.pixel(cx, cy, sx, sy, k) is None by {
                lemma_split_index(k, TILE_SIZE as int);
                self.lemma_pixel_at(cx, cy, sx, sy, k / (TILE_SIZE as int), k % (TILE_SIZE as int));
                assert(k / (TILE_SIZE as int) >= y_end - cell_y) by (nonlinear_arith)
                    requires
                        n <= k,
                        n == (y_end - cell_y) * TILE_SIZE,
                        k == (k / (TILE_SIZE as int)) * TILE_SIZE + k % (TILE_SIZE as int),
                        k % (TILE_SIZE as int) < TILE_SIZE,
                        TILE_SIZE > 0,
                ;
            }
            lemma_count_none(lf, n, CELL_AREA as int);
            lemma_count_split(lf, 0, n, CELL_AREA as int);
            if fast_full_cell {
                assert(n == CELL_AREA);
            } else {
                assert forall|k: int| 0 <= k < CELL_AREA implies #[trigger] covered@[k] == (cov0[k] || src_lands(src, cov0, tr, k)) by {
                    if k >= n {
                        assert(!lf(k));
                    }
                }
                lemma_coverage_step(src, cov0, covered@, tr, pc0, CELL_AREA as int);
                assert forall|k: int| 0 <= k < CELL_AREA implies #[trigger] cell_buf@[k] == (if src_lands(src, cov0, tr, k) {
                    self.pixel(cx, cy, sx, sy, k).unwrap()
                } else {
                    buf0[k]
                }) && covered@[k] == (cov0[k] || src_lands(src, cov0, tr, k)) by {
                    assert(lf(k) == src_lands(src, cov0, tr, k));
                    if k >= n {
                        assert(!lf(k));
                    }
                }
            }
        }
        if fast_full_cell {
            *pixels_covered = CELL_AREA;
        }
    }
}

/// Whether the sprite's texture is keyed on the transparent color.
fn tileset_transparency<'a, const TILE_SIZE: usize, const CELL_AREA: usize>(s: &Sprite<'a, TILE_SIZE, CELL_AREA>) -> (t: bool)
    ensures
        t == s.animation.desc.transparency,
{
    s.animation.desc.transparency
}

} // verus!

verus! {

impl<'a, const TILE_SIZE: usize, const CELL_AREA: usize> Sprite<'a, TILE_SIZE, CELL_AREA> {
    /// Whether the sprite is well formed.
    pub fn is_wf(&self) -> (b: bool)
        ensures
            b == self.wf(),
    {
        let ts: u64 = self.animation.desc.tileset.tile_size as u64;
        let scaling: u64 = self.animation.desc.scaling as u64;
        assert(self.animation.desc.width as u64 * ts <= 0xff * 0xffff && self.animation.desc.height as u64 * ts <= 0xff * 0xffff)
            by (nonlinear_arith)
            requires
                self.animation.desc.width <= 0xff,
                self.animation.desc.height <= 0xff,
                ts <= 0xffff,
        ;
        let w: u64 = self.animation.desc.width as u64 * ts;
        let h: u64 = self.animation.desc.height as u64 * ts;
        if w > 0xffff || h > 0xffff {
            return false;
        }
        assert(w * scaling <= 0xffff * 0xffff && h * scaling <= 0xffff * 0xffff) by (nonlinear_arith)
            requires
                w <= 0xffff,
                h <= 0xffff,
                scaling <= 0xffff,
        ;
        if w * scaling > 0x7fff || h * scaling > 0x7fff {
            return false;
        }
        !(self.animation.frames.len() > 0 && self.animation.speed == 0)
    }

    /// The tile, the column within its row and the row within the tile of
    /// the source pixel drawn at screen pixel `(x, y)` of a cell at `cx`.
    fn src_at(&self, f: FrameCoord, cx: i16, sx: i16, sy: i16, x: i64, y: i64) -> (r: (Point, i64, i64))
        requires
            self.wf(),
            0 < TILE_SIZE <= 0x7fff,
            cx <= x < cx + TILE_SIZE,
            self.in_sprite(sx as int, sy as int, x as int, y as int),
        ensures
            r.0 == self.src_point(f, cx as int, sx as int, sy as int, x as int, y as int),
            r.1 == self.src_px_x(cx as int, sx as int, x as int),
            r.2 == (y - sy) % self.tsz(),
            0 <= r.1 <= 0x10000 + 0x7fff,
            0 <= r.2 < self.tsz(),
            self.tsz() <= 0xffff,
    {
        let w: i64 = self.pixel_width() as i64;
        let tsz: i64 = self.animation.desc.tileset.tile_size as i64;
        proof {
            let d = self.animation.desc;
            assert(tsz > 0) by (nonlinear_arith)
                requires
                    w == d.width * d.tileset.tile_size * d.scaling,
                    w > 0,
                    tsz == d.tileset.tile_size,
            ;
        }
        let ts_cell: i64 = TILE_SIZE as i64;
        let sxx: i64 = sx as i64;
        let syy: i64 = sy as i64;
        let sw: i64 = if self.animation.desc.sheet_w == 0 { 1 } else { self.animation.desc.sheet_w as i64 };
        let sh: i64 = if self.animation.desc.sheet_h == 0 { 1 } else { self.animation.desc.sheet_h as i64 };
        let x_start: i64 = if sxx > cx as i64 { sxx } else { cx as i64 };
        let x_end: i64 = if sxx + w < cx as i64 + ts_cell { sxx + w } else { cx as i64 + ts_cell };
        let x0: i64 = x_start - sxx;
        let room: i64 = tsz - x0 % tsz;
        let span1: i64 = if room < x_end - x_start { room } else { x_end - x_start };
        let j: i64 = x - x_start;
        let tile_x: i64 = if j < span1 { (x0 / tsz) % sw } else { (x0 / tsz + 1) % sw };
        let px_x: i64 = if j < span1 { x0 % tsz + j } else { j - span1 };
        let py: i64 = f.ty as i64 + ((y - syy) / tsz) % sh;
        let p = Point { x: (f.tx as i64 + tile_x) as u16, y: py as u16 };
        (p, px_x, (y - syy) % tsz)
    }

    /// Whether pixel `k` of the cell at `(cx, cy)` can be looked up, the
    /// sprite being drawn at `(sx, sy)`.
    pub fn pixel_drawable(&self, cx: i16, cy: i16, sx: i16, sy: i16, k: usize) -> (b: bool)
        requires
            self.wf(),
            0 < TILE_SIZE <= 0x7fff,
            k < TILE_SIZE * TILE_SIZE,
        ensures
            b == self.pixel_fits(cx as int, cy as int, sx as int, sy as int, k as int),
    {
        let f = match self.animation.get_frame(self.current_frame_index) {
            None => return true,
            Some(f) => f,
        };
        proof {
            lemma_split_index(k as int, TILE_SIZE as int);
        }
        let x: i64 = cx as i64 + (k % TILE_SIZE) as i64;
        let y: i64 = cy as i64 + (k / TILE_SIZE) as i64;
        let w: i64 = self.pixel_width() as i64;
        let h: i64 = self.pixel_height() as i64;
        assert(self.spec_frame() == Some(f));
        if !(sx as i64 <= x && x < sx as i64 + w && sy as i64 <= y && y < sy as i64 + h) {
            return true;
        }
        let (p, px_x, row) = self.src_at(f, cx, sx, sy, x, y);
        let tsz: i64 = self.animation.desc.tileset.tile_size as i64;
        let o: u64 = match self.animation.desc.tileset.checked_tile_offset(p) {
            None => return false,
            Some(o) => o,
        };
        assert(row * tsz <= 0xffff * 0xffff) by (nonlinear_arith)
            requires
                0 <= row < tsz,
                tsz <= 0xffff,
        ;
        let idx: i64 = o as i64 + row * tsz + px_x;
        (idx as u64) < self.animation.desc.tileset.image.len() as u64
    }

    /// Whether the sprite, drawn at `(sx, sy)`, can be drawn into the cell
    /// at `(cx, cy)`: it is well formed, its far corner fits 16 bits, and
    /// every pixel it draws there can be looked up.
    pub fn cell_drawable(&self, cx: i16, cy: i16, sx: i16, sy: i16) -> (b: bool)
        requires
            0 < TILE_SIZE <= 0x7fff,
            CELL_AREA == TILE_SIZE * TILE_SIZE,
        ensures
            b == (self.wf() && in_i16(sx + self.spec_width()) && in_i16(sy + self.spec_height())
                && self.cell_fits(cx as int, cy as int, sx as int, sy as int)),
    {
        if !self.is_wf() {
            return false;
        }
        let w: i32 = self.pixel_width() as i32;
        let h: i32 = self.pixel_height() as i32;
        if sx as i32 + w > 0x7fff || sy as i32 + h > 0x7fff {
            return false;
        }
        let mut k: usize = 0;
        while k < CELL_AREA
            invariant
                self.wf(),
                0 < TILE_SIZE <= 0x7fff,
                CELL_AREA == TILE_SIZE * TILE_SIZE,
                k <= CELL_AREA,
                forall|i: int| 0 <= i < k ==> #[trigger] self.pixel_fits(cx as int, cy as int, sx as int, sy as int, i),
            decreases CELL_AREA - k,
        {
            if !self.pixel_drawable(cx, cy, sx, sy, k) {
                return false;
            }
            k += 1;
        }
        true
    }
}

} // verus!
