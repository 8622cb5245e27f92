//! Tilesets: images made of square tiles stacked in a column grid.

use vstd::prelude::*;
use vstd::slice::*;

use crate::eadk::{Color, Point, Rect};
use crate::graphical::{is_image, is_pixels, DrawOp};

verus! {

/// An image cut into square tiles of `tile_size` pixels, `width` pixels wide.
pub struct Tileset {
    pub image: &'static [Color],
    pub tile_size: u16,
    pub width: u16,
}

impl Tileset {
    /// Index in the image of the first pixel of tile `pos` (in tiles).
    pub open spec fn tile_offset(self, pos: Point) -> int {
        self.tile_size * (pos.y * self.width + pos.x * self.tile_size)
    }

    /// The tile offset is computed within `u16` and lies in the image.
    pub open spec fn tile_ok(self, pos: Point) -> bool {
        &&& pos.y * self.width <= u16::MAX
        &&& pos.x * self.tile_size <= u16::MAX
        &&& pos.y * self.width + pos.x * self.tile_size <= u16::MAX
        &&& self.tile_offset(pos) <= u16::MAX
        &&& self.tile_offset(pos) <= self.image@.len()
    }

    /// The pixels from the first pixel of tile `pos` to the end of the image.
    pub open spec fn tile_pixels(self, pos: Point) -> Seq<Color> {
        self.image@.subrange(self.tile_offset(pos), self.image@.len() as int)
    }

    /// A tileset of tiles of `tile_size` pixels, `width_in_tiles` tiles wide.
    pub fn new(tile_size: u16, width_in_tiles: u16, image: &'static [Color]) -> (t: Self)
        requires
            tile_size * width_in_tiles <= u16::MAX,
        ensures
            t.image == image,
            t.tile_size == tile_size,
            t.width == tile_size * width_in_tiles,
    {
        Self { image, tile_size, width: tile_size * width_in_tiles }
    }

    /// Where tile `pos` starts in the image, `None` when its offset leaves
    /// the 16-bit range or the image.
    pub fn checked_tile_offset(&self, pos: Point) -> (r: Option<u64>)
        ensures
            r is Some <==> self.tile_ok(pos),
            r matches Some(o) ==> o == self.tile_offset(pos),
    {
        let ts: u64 = self.tile_size as u64;
        assert(pos.y as u64 * self.width as u64 <= 0xffff * 0xffff && pos.x as u64 * ts <= 0xffff * 0xffff) by (nonlinear_arith)
            requires
                pos.y <= 0xffff,
                self.width <= 0xffff,
                pos.x <= 0xffff,
                ts <= 0xffff,
        ;
        let row: u64 = pos.y as u64 * self.width as u64;
        let col: u64 = pos.x as u64 * ts;
        if row > 0xffff || col > 0xffff || row + col > 0xffff {
            return None;
        }
        assert(ts * (row + col) <= 0xffff * 0xffff) by (nonlinear_arith)
            requires
                ts <= 0xffff,
                row + col <= 0xffff,
        ;
        let offset: u64 = ts * (row + col);
        if offset > 0xffff || offset > self.image.len() as u64 {
            None
        } else {
            Some(offset)
        }
    }

    /// The pixels of the image from the first pixel of tile `pos` on.
    pub fn get_tile(&self, pos: Point) -> (t: &[Color])
        requires
            self.tile_ok(pos),
        ensures
            t@ == self.image@.subrange(self.tile_offset(pos), self.image@.len() as int),
    {
        let offset: u16 = self.tile_size * (pos.y * self.width + pos.x * self.tile_size);
        slice_subrange(self.image, offset as usize, self.image.len())
    }

    /// Draws tile `tile` at `pos`.
    pub fn draw_tile<'a>(&'a self, pos: Point, tile: Point, scaling: u16, transparency: bool) -> (op: DrawOp<'a>)
        requires
            self.tile_ok(tile),
        ensures
            is_image(op, self.tile_pixels(tile), pos, (self.tile_size, self.tile_size), scaling, transparency),
    {
        DrawOp::Image {
            pixels: self.get_tile(tile),
            pos,
            size: (self.tile_size, self.tile_size),
            scaling,
            transparency,
        }
    }

    /// The pixels drawn by a half tile: the top half of tile `tile`, or its
    /// bottom half when `bottom`.
    pub open spec fn half_pixels(self, tile: Point, bottom: bool) -> Seq<Color> {
        if bottom {
            self.tile_pixels(tile).subrange(self.tile_size * (self.tile_size / 2), self.tile_pixels(tile).len() as int)
        } else {
            self.tile_pixels(tile)
        }
    }

    /// Covers `dimensions` tiles from `pos` with the top (or bottom) half of
    /// tile `tile`, each drawn at the top of its tile cell, column by column
    /// from the rightmost one (the right-hand rectangles go first).
    pub fn reverse_half_tiling<'a>(&'a self, pos: Point, dimensions: (u16, u16), tile: Point, bottom: bool) -> (ops: Vec<DrawOp<'a>>)
        requires
            self.tile_ok(tile),
            dimensions.0 > 0 ==> self.tile_size > 0,
            bottom ==> self.tile_size * (self.tile_size / 2) <= u16::MAX,
            bottom ==> self.tile_offset(tile) + self.tile_size * (self.tile_size / 2) <= self.image@.len(),
            dimensions.0 * self.tile_size + pos.x <= u16::MAX,
            dimensions.1 * self.tile_size + pos.y <= u16::MAX,
        ensures
            ops@.len() == dimensions.0 * dimensions.1,
            forall|x: int, y: int|
                0 <= x < dimensions.0 && 0 <= y < dimensions.1 ==> is_pixels(
                    #[trigger] ops@[x * dimensions.1 + y],
                    Rect {
                        x: ((dimensions.0 - 1 - x) * self.tile_size + pos.x) as u16,
                        y: (y * self.tile_size + pos.y) as u16,
                        width: self.tile_size,
                        height: self.tile_size / 2,
                    },
                    self.half_pixels(tile, bottom),
                ),
    {
        let mut t: &[Color] = self.get_tile(tile);
        if bottom {
            let skip: usize = (self.tile_size * (self.tile_size / 2)) as usize;
            t = slice_subrange(t, skip, t.len());
        }
        let mut ops: Vec<DrawOp<'a>> = Vec::new();
        let mut x: u16 = 0;
        while x < dimensions.0
            invariant
                x <= dimensions.0,
                dimensions.0 > 0 ==> self.tile_size > 0,
                dimensions.0 * self.tile_size + pos.x <= u16::MAX,
                dimensions.1 * self.tile_size + pos.y <= u16::MAX,
                t@ == self.half_pixels(tile, bottom),
                ops@.len() == x * dimensions.1,
                forall|xx: int, y: int|
                    0 <= xx < x && 0 <= y < dimensions.1 ==> is_pixels(
                        #[trigger] ops@[xx * dimensions.1 + y],
                        Rect {
                            x: ((dimensions.0 - 1 - xx) * self.tile_size + pos.x) as u16,
                            y: (y * self.tile_size + pos.y) as u16,
                            width: self.tile_size,
                            height: self.tile_size / 2,
                        },
                        t@,
                    ),
            decreases dimensions.0 - x,
        {
            let col: u16 = dimensions.0 - 1 - x;
            assert(col * self.tile_size + pos.x <= u16::MAX) by (nonlinear_arith)
                requires
                    col < dimensions.0,
                    dimensions.0 * self.tile_size + pos.x <= u16::MAX,
            ;
            let x_pos: u16 = col * self.tile_size + pos.x;
            let mut j: u16 = 0;
            while j < dimensions.1
                invariant
                    x < dimensions.0,
                    j <= dimensions.1,
                    x_pos == (dimensions.0 - 1 - x) * self.tile_size + pos.x,
                    dimensions.1 * self.tile_size + pos.y <= u16::MAX,
                    ops@.len() == x * dimensions.1 + j,
                    forall|xx: int, yy: int|
                        0 <= xx < x && 0 <= yy < dimensions.1 || xx == x && 0 <= yy < j ==> is_pixels(
                            #[trigger] ops@[xx * dimensions.1 + yy],
                            Rect {
                                x: ((dimensions.0 - 1 - xx) * self.tile_size + pos.x) as u16,
                                y: (yy * self.tile_size + pos.y) as u16,
                                width: self.tile_size,
                                height: self.tile_size / 2,
                            },
                            t@,
                        ),
                decreases dimensions.1 - j,
            {
                assert(j * self.tile_size + pos.y <= u16::MAX) by (nonlinear_arith)
                    requires
                        j < dimensions.1,
                        dimensions.1 * self.tile_size + pos.y <= u16::MAX,
                ;
                let y: u16 = j * self.tile_size + pos.y;
                ops.push(DrawOp::Pixels { rect: Rect { x: x_pos, y, width: self.tile_size, height: self.tile_size / 2 }, pixels: t });
                proof {
                    assert forall|xx: int, yy: int|
                        0 <= xx < x && 0 <= yy < dimensions.1 || xx == x && 0 <= yy < j + 1 implies is_pixels(
                            #[trigger] ops@[xx * dimensions.1 + yy],
                            Rect {
                                x: ((dimensions.0 - 1 - xx) * self.tile_size + pos.x) as u16,
                                y: (yy * self.tile_size + pos.y) as u16,
                                width: self.tile_size,
                                height: self.tile_size / 2,
                            },
                            t@,
                        ) by {
                        let i = xx * dimensions.1 + yy;
                        if xx < x {
                            assert(i < x * dimensions.1) by (nonlinear_arith)
                                requires
                                    xx < x,
                                    yy < dimensions.1,
                                    i == xx * dimensions.1 + yy,
                            ;
                        } else if yy < j {
                        }
                    }
                }
                j += 1;
            }
            assert((x + 1) * dimensions.1 == x * dimensions.1 + dimensions.1) by (nonlinear_arith);
            x += 1;
        }
        ops
    }

    /// Covers `dimensions` tiles from `pos` with copies of tile `tile`,
    /// column by column.
    pub fn tiling<'a>(&'a self, pos: Point, dimensions: (u16, u16), tile: Point, transparency: bool, scaling: u16) -> (ops: Vec<DrawOp<'a>>)
        requires
            self.tile_ok(tile),
            dimensions.0 * self.tile_size + pos.x <= u16::MAX,
            dimensions.1 * self.tile_size + pos.y <= u16::MAX,
        ensures
            ops@.len() == dimensions.0 * dimensions.1,
            forall|x: int, y: int|
                0 <= x < dimensions.0 && 0 <= y < dimensions.1 ==> is_image(#[trigger] ops@[x * dimensions.1 + y], self.tile_pixels(tile), Point { x: (x * self.tile_size + pos.x) as u16, y: (y * self.tile_size + pos.y) as u16 }, (self.tile_size, self.tile_size), scaling, transparency),
    {
        let t: &[Color] = self.get_tile(tile);
        let mut ops: Vec<DrawOp<'a>> = Vec::new();
        let mut x: u16 = 0;
        while x < dimensions.0
            invariant
                x <= dimensions.0,
                dimensions.0 * self.tile_size + pos.x <= u16::MAX,
                dimensions.1 * self.tile_size + pos.y <= u16::MAX,
                t@ == self.tile_pixels(tile),
                ops@.len() == x * dimensions.1,
                forall|xx: int, y: int|
                    0 <= xx < x && 0 <= y < dimensions.1 ==> is_image(#[trigger] ops@[xx * dimensions.1 + y], t@, Point { x: (xx * self.tile_size + pos.x) as u16, y: (y * self.tile_size + pos.y) as u16 }, (self.tile_size, self.tile_size), scaling, transparency),
            decreases dimensions.0 - x,
        {
            assert(x * self.tile_size + pos.x <= u16::MAX) by (nonlinear_arith)
                requires
                    x < dimensions.0,
                    dimensions.0 * self.tile_size + pos.x <= u16::MAX,
            ;
            let x_pos: u16 = x * self.tile_size + pos.x;
            let mut y: u16 = 0;
            while y < dimensions.1
                invariant
                    x < dimensions.0,
                    y <= dimensions.1,
                    x_pos == x * self.tile_size + pos.x,
                    dimensions.1 * self.tile_size + pos.y <= u16::MAX,
                    ops@.len() == x * dimensions.1 + y,
                    forall|xx: int, yy: int|
                        0 <= xx < x && 0 <= yy < dimensions.1 || xx == x && 0 <= yy < y ==> is_image(#[trigger] ops@[xx * dimensions.1 + yy], t@, Point { x: (xx * self.tile_size + pos.x) as u16, y: (yy * self.tile_size + pos.y) as u16 }, (self.tile_size, self.tile_size), scaling, transparency),
                decreases dimensions.1 - y,
            {
                assert(y * self.tile_size + pos.y <= u16::MAX) by (nonlinear_arith)
                    requires
                        y < dimensions.1,
                        dimensions.1 * self.tile_size + pos.y <= u16::MAX,
                ;
                let ghost before = ops@;
                ops.push(
                    DrawOp::Image {
                        pixels: t,
                        pos: Point { x: x_pos, y: y * self.tile_size + pos.y },
                        size: (self.tile_size, self.tile_size),
                        scaling,
                        transparency,
                    },
                );
                proof {
                    assert forall|xx: int, yy: int|
                        0 <= xx < x && 0 <= yy < dimensions.1 || xx == x && 0 <= yy < y + 1 implies is_image(#[trigger] ops@[xx * dimensions.1 + yy], t@, Point { x: (xx * self.tile_size + pos.x) as u16, y: (yy * self.tile_size + pos.y) as u16 }, (self.tile_size, self.tile_size), scaling, transparency) by {
                        let i = xx * dimensions.1 + yy;
                        if xx < x {
                            assert(i < x * dimensions.1) by (nonlinear_arith)
                                requires
                                    xx < x,
                                    0 <= yy < dimensions.1,
                                    i == xx * dimensions.1 + yy,
                            ;
                            assert(ops@[i] == before[i]);
                        } else if yy < y {
                            assert(ops@[i] == before[i]);
                        }
                    }
                }
                y = y + 1;
            }
            assert((x + 1) * dimensions.1 == x * dimensions.1 + dimensions.1) by (nonlinear_arith);
            x = x + 1;
        }
        ops
    }
}

} // verus!
