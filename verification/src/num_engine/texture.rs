//! Textures, animation sequences, and frame coordinates.

use vstd::prelude::*;

use crate::eadk::Point;
use crate::graphical::tiling::Tileset;
use crate::graphical::{is_image, DrawOp};

verus! {

/// Coordinates of a tile within a tileset.
#[derive(Clone, Copy, Debug, PartialEq, Eq, Structural)]
pub struct FrameCoord {
    pub tx: u8,
    pub ty: u8,
}

/// Layout of a texture: its footprint in tiles, the source block it repeats, scaling and keying.
#[derive(Clone, Copy)]
pub struct TextureDescriptor<'a> {
    pub tileset: &'a Tileset,
    /// Footprint width in tiles.
    pub width: u8,
    /// Footprint height in tiles.
    pub height: u8,
    /// Width in tiles of the source block that repeats across the footprint.
    pub sheet_w: u8,
    /// Height in tiles of the source block that repeats across the footprint.
    pub sheet_h: u8,
    pub scaling: u16,
    pub transparency: bool,
}

impl<'a> TextureDescriptor<'a> {
    pub open spec fn spec_pixel_width(self) -> int {
        self.width * self.tileset.tile_size * self.scaling
    }

    pub open spec fn spec_pixel_height(self) -> int {
        self.height * self.tileset.tile_size * self.scaling
    }

    /// A texture whose source block is its whole footprint.
    pub fn new(tileset: &'a Tileset, width: u8, height: u8, scaling: u16, transparency: bool) -> (d: Self)
        ensures
            d.tileset == tileset,
            d.width == width && d.height == height,
            d.sheet_w == width && d.sheet_h == height,
            d.scaling == scaling && d.transparency == transparency,
    {
        Self { tileset, width, height, sheet_w: width, sheet_h: height, scaling, transparency }
    }

    /// A texture repeating a `sheet_w` x `sheet_h` block (0 counts as 1) across its footprint.
    pub fn new_repeating(tileset: &'a Tileset, width: u8, height: u8, sheet_w: u8, sheet_h: u8, scaling: u16, transparency: bool) -> (d: Self)
        ensures
            d.tileset == tileset,
            d.width == width && d.height == height,
            d.sheet_w == (if sheet_w == 0 { 1 } else { sheet_w }),
            d.sheet_h == (if sheet_h == 0 { 1 } else { sheet_h }),
            d.scaling == scaling && d.transparency == transparency,
    {
        Self {
            tileset,
            width,
            height,
            sheet_w: if sheet_w == 0 { 1 } else { sheet_w },
            sheet_h: if sheet_h == 0 { 1 } else { sheet_h },
            scaling,
            transparency,
        }
    }

    /// Width in pixels: `width * tile_size * scaling`.
    pub fn pixel_width(&self) -> (w: u16)
        requires
            self.width * self.tileset.tile_size <= u16::MAX,
            self.spec_pixel_width() <= u16::MAX,
        ensures
            w == self.spec_pixel_width(),
    {
        (self.width as u16) * self.tileset.tile_size * self.scaling
    }

    /// Height in pixels: `height * tile_size * scaling`.
    pub fn pixel_height(&self) -> (h: u16)
        requires
            self.height * self.tileset.tile_size <= u16::MAX,
            self.spec_pixel_height() <= u16::MAX,
        ensures
            h == self.spec_pixel_height(),
    {
        (self.height as u16) * self.tileset.tile_size * self.scaling
    }
}

/// A sequence of frames shown `speed` ticks each.
pub struct Animation<'a> {
    pub desc: TextureDescriptor<'a>,
    pub frames: &'a [FrameCoord],
    /// Engine ticks per frame.
    pub speed: u8,
}

impl<'a> Animation<'a> {
    /// Frame at index `i`, `None` past the last frame.
    pub open spec fn spec_get_frame(self, i: int) -> Option<FrameCoord> {
        if 0 <= i < self.frames@.len() {
            Some(self.frames@[i])
        } else {
            None
        }
    }

    /// Index of the frame shown at tick `counter`.
    pub open spec fn spec_frame_index(self, counter: u32) -> int {
        if self.frames@.len() == 0 {
            0
        } else {
            (counter as int / (self.speed as int)) % (self.frames@.len() as int)
        }
    }

    /// An animation; a speed of 0 counts as 1.
    pub fn new(desc: TextureDescriptor<'a>, frames: &'a [FrameCoord], speed: u8) -> (a: Self)
        ensures
            a.desc == desc,
            a.frames == frames,
            a.speed == (if speed == 0 { 1 } else { speed }),
    {
        Self { desc, frames, speed: if speed == 0 { 1 } else { speed } }
    }

    /// The frame at an index, `None` when the index is out of bounds.
    pub fn get_frame(&self, frame_index: usize) -> (f: Option<FrameCoord>)
        ensures
            f == self.spec_get_frame(frame_index as int),
    {
        if frame_index < self.frames.len() {
            Some(self.frames[frame_index])
        } else {
            None
        }
    }

    /// The tile drawn at footprint tile `(tx, ty)` for frame `f`: the
    /// frame's tile shifted within the repeated source block.
    pub open spec fn footprint_tile(self, f: FrameCoord, tx: int, ty: int) -> Point {
        Point { x: (f.tx + tx % (self.desc.sheet_w as int)) as u16, y: (f.ty + ty % (self.desc.sheet_h as int)) as u16 }
    }

    /// The frame can be drawn at `pos`: every tile of its footprint exists
    /// and the footprint stays within the positive `i16` coordinates.
    pub open spec fn draw_ok(self, pos: Point, frame_index: usize) -> bool {
        let d = self.desc;
        let step = d.tileset.tile_size * d.scaling;
        &&& d.width > 0 ==> d.sheet_w > 0
        &&& d.height > 0 ==> d.sheet_h > 0
        &&& step <= u16::MAX
        &&& pos.x + d.width * step <= i16::MAX
        &&& pos.y + d.height * step <= i16::MAX
        &&& forall|f: FrameCoord, tx: int, ty: int|
            self.spec_get_frame(frame_index as int) == Some(f) && 0 <= tx < d.width && 0 <= ty < d.height ==> d.tileset.tile_ok(
                #[trigger] self.footprint_tile(f, tx, ty),
            )
    }

    /// Draws frame `frame_index` directly at screen position `pos`, tile by
    /// tile, row by row; nothing when the animation has no frames.
    pub fn draw_at(&self, pos: Point, frame_index: usize) -> (ops: Vec<DrawOp<'a>>)
        requires
            self.draw_ok(pos, frame_index),
        ensures
            match self.spec_get_frame(frame_index as int) {
                None => ops@.len() == 0,
                Some(f) => {
                    &&& ops@.len() == self.desc.height * self.desc.width
                    &&& forall|tx: int, ty: int|
                        0 <= tx < self.desc.width && 0 <= ty < self.desc.height ==> is_image(
                            #[trigger] ops@[ty * self.desc.width + tx],
                            self.desc.tileset.tile_pixels(self.footprint_tile(f, tx, ty)),
                            Point {
                                x: (pos.x + tx * (self.desc.tileset.tile_size * self.desc.scaling)) as u16,
                                y: (pos.y + ty * (self.desc.tileset.tile_size * self.desc.scaling)) as u16,
                            },
                            (self.desc.tileset.tile_size, self.desc.tileset.tile_size),
                            self.desc.scaling,
                            self.desc.transparency,
                        )
                },
            },
    {
        let mut ops: Vec<DrawOp<'a>> = Vec::new();
        if let Some(coord) = self.get_frame(frame_index) {
            let step: u16 = self.desc.tileset.tile_size * self.desc.scaling;
            let width: u16 = self.desc.width as u16;
            let height: u16 = self.desc.height as u16;
            let mut ty: u16 = 0;
            while ty < height
                invariant
                    self.draw_ok(pos, frame_index),
                    self.spec_get_frame(frame_index as int) == Some(coord),
                    step == self.desc.tileset.tile_size * self.desc.scaling,
                    width == self.desc.width && height == self.desc.height,
                    ty <= height,
                    ops@.len() == ty * width,
                    forall|tx: int, yy: int|
                        0 <= tx < width && 0 <= yy < ty ==> is_image(
                            #[trigger] ops@[yy * width + tx],
                            self.desc.tileset.tile_pixels(self.footprint_tile(coord, tx, yy)),
                            Point { x: (pos.x + tx * step) as u16, y: (pos.y + yy * step) as u16 },
                            (self.desc.tileset.tile_size, self.desc.tileset.tile_size),
                            self.desc.scaling,
                            self.desc.transparency,
                        ),
                decreases height - ty,
            {
                let sheet_ty: u16 = ty % (self.desc.sheet_h as u16);
                assert(ty * step <= height * step && pos.y + ty * step <= i16::MAX) by (nonlinear_arith)
                    requires
                        ty < height,
                        pos.y + height * step <= i16::MAX,
                ;
                let mut tx: u16 = 0;
                while tx < width
                    invariant
                        self.draw_ok(pos, frame_index),
                        self.spec_get_frame(frame_index as int) == Some(coord),
                        step == self.desc.tileset.tile_size * self.desc.scaling,
                        width == self.desc.width && height == self.desc.height,
                        ty < height,
                        pos.y + ty * step <= i16::MAX,
                        sheet_ty == (ty as int) % (self.desc.sheet_h as int),
                        tx <= width,
                        ops@.len() == ty * width + tx,
                        forall|xx: int, yy: int|
                            0 <= xx < width && 0 <= yy < ty || yy == ty && 0 <= xx < tx ==> is_image(
                                #[trigger] ops@[yy * width + xx],
                                self.desc.tileset.tile_pixels(self.footprint_tile(coord, xx, yy)),
                                Point { x: (pos.x + xx * step) as u16, y: (pos.y + yy * step) as u16 },
                                (self.desc.tileset.tile_size, self.desc.tileset.tile_size),
                                self.desc.scaling,
                                self.desc.transparency,
                            ),
                    decreases width - tx,
                {
                    let sheet_tx: u16 = tx % (self.desc.sheet_w as u16);
                    assert(tx * step <= width * step && pos.x + tx * step <= i16::MAX) by (nonlinear_arith)
                        requires
                            tx < width,
                            pos.x + width * step <= i16::MAX,
                    ;
                    let sx: i16 = pos.x as i16 + (tx * step) as i16;
                    let sy: i16 = pos.y as i16 + (ty * step) as i16;
                    let tile_x: i16 = (coord.tx as u16 + sheet_tx) as i16;
                    let tile_y: i16 = (coord.ty as u16 + sheet_ty) as i16;
                    let screen = Point {
                        x: (if sx > 0 { sx } else { 0 }) as u16,
                        y: (if sy > 0 { sy } else { 0 }) as u16,
                    };
                    let tile = Point {
                        x: (if tile_x > 0 { tile_x } else { 0 }) as u16,
                        y: (if tile_y > 0 { tile_y } else { 0 }) as u16,
                    };
                    assert(tile == self.footprint_tile(coord, tx as int, ty as int));
                    assert(self.desc.tileset.tile_ok(self.footprint_tile(coord, tx as int, ty as int)));
                    let op = self.desc.tileset.draw_tile(screen, tile, self.desc.scaling, self.desc.transparency);
                    let ghost before = ops@;
                    ops.push(op);
                    proof {
                        assert forall|xx: int, yy: int|
                            0 <= xx < width && 0 <= yy < ty || yy == ty && 0 <= xx < tx + 1 implies is_image(
                                #[trigger] ops@[yy * width + xx],
                                self.desc.tileset.tile_pixels(self.footprint_tile(coord, xx, yy)),
                                Point { x: (pos.x + xx * step) as u16, y: (pos.y + yy * step) as u16 },
                                (self.desc.tileset.tile_size, self.desc.tileset.tile_size),
                                self.desc.scaling,
                                self.desc.transparency,
                            ) by {
                            if yy < ty {
                                assert(yy * width + xx < ty * width) by (nonlinear_arith)
                                    requires
                                        yy < ty,
                                        xx < width,
                            ;
                            }
                        }
                    }
                    tx += 1;
                }
                assert((ty + 1) * width == ty * width + width) by (nonlinear_arith);
                ty += 1;
            }
        }
        ops
    }

    /// The frame index for a tick counter.
    pub fn calculate_frame_index(&self, frames_counter: u32) -> (i: usize)
        requires
            self.frames@.len() > 0 ==> self.speed > 0,
        ensures
            i == self.spec_frame_index(frames_counter),
            self.frames@.len() > 0 ==> i < self.frames@.len(),
    {
        if self.frames.len() == 0 {
            return 0;
        }
        let step: u32 = frames_counter / (self.speed as u32);
        (step as usize) % self.frames.len()
    }
}

} // verus!
