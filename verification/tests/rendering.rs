use numworks_games::eadk::{Color, Point, Rect};
use numworks_games::graphical::image::draw_image;
use numworks_games::graphical::tiling::Tileset;
use numworks_games::graphical::DrawOp;
use numworks_games::num_engine::compositor::Compositor;
use numworks_games::num_engine::engine::Engine;
use numworks_games::num_engine::layers::{layer_drawable, point_fits, Renderable};
use numworks_games::num_engine::sprite::Sprite;
use numworks_games::num_engine::texture::{Animation, FrameCoord, TextureDescriptor};
use numworks_games::num_engine::tilemap::{Parallax, Tilemap, WrapMode};
use numworks_games::num_engine::viewport::Viewport;

const fn c(v: u16) -> Color {
    Color { rgb565: v }
}

const KEY: u16 = 0xE01F;

/// Two rows of tiles of 2 x 2 pixels, two tiles per row.
static IMG: [Color; 16] = [
    c(1), c(2), c(3), c(4), // tile (0, 0)
    c(5), c(6), c(7), c(8), // tile (1, 0)
    c(9), c(KEY), c(11), c(12), // tile (0, 1)
    c(13), c(14), c(15), c(16), // tile (1, 1)
];

static TILES: Tileset = Tileset { image: &IMG, tile_size: 2, width: 4 };

fn layer(transparent: bool) -> Tilemap<'static, 2, 4> {
    let data = vec![Some([0u8, 0u8]), Some([1, 0]), None, Some([0, 1])];
    Tilemap::new(&TILES, data, 2, 2, &[], 0, transparent, Parallax::fixed(), WrapMode::NoWrap)
}

#[test]
fn aligned_opaque_cell_is_copied_whole() {
    let tm = layer(false);
    let mut buf = [c(0); 4];
    let mut covered = [false; 4];
    let mut pc: usize = 0;
    tm.blit_to_cell_reverse_z([1, 0], [0, 0], &mut buf, &mut covered, &mut pc, 0);
    assert_eq!(buf, [c(5), c(6), c(7), c(8)]);
    assert_eq!(pc, 4);
    assert_eq!(covered, [false; 4]);
}

#[test]
fn full_cell_is_left_alone() {
    let tm = layer(false);
    let mut buf = [c(0); 4];
    let mut covered = [false; 4];
    let mut pc: usize = 4;
    tm.blit_to_cell_reverse_z([0, 0], [0, 0], &mut buf, &mut covered, &mut pc, 0);
    assert_eq!(buf, [c(0); 4]);
    assert_eq!(pc, 4);
}

#[test]
fn keyed_tile_skips_transparent_and_covered_pixels() {
    let tm = layer(true);
    let mut buf = [c(0); 4];
    let mut covered = [true, false, false, false];
    let mut pc: usize = 1;
    tm.blit_to_cell_reverse_z([1, 1], [0, 0], &mut buf, &mut covered, &mut pc, 0);
    // grid cell (1, 1) shows tile (0, 1): 9, KEY, 11, 12; pixel 0 was
    // covered, pixel 1 is transparent
    assert_eq!(buf, [c(0), c(0), c(11), c(12)]);
    assert_eq!(covered, [true, false, true, true]);
    assert_eq!(pc, 3);
}

#[test]
fn straddling_cell_takes_pixels_from_the_next_tile() {
    let tm = layer(false).with_offset([1, 0]);
    let mut buf = [c(0); 4];
    let mut covered = [false; 4];
    let mut pc: usize = 0;
    tm.blit_to_cell_reverse_z([0, 0], [0, 0], &mut buf, &mut covered, &mut pc, 0);
    // the layer starts one pixel right: the cell's right column shows the
    // left column of tile (0, 0), the left column has no tile
    assert_eq!(buf, [c(0), c(1), c(0), c(3)]);
    assert_eq!(covered, [false, true, false, true]);
    assert_eq!(pc, 2);
}

#[test]
fn tile_slice_follows_the_grid() {
    let tm = layer(false);
    assert_eq!(tm.get_tile_slice(1, 1, 0).map(|s| s[0]), Some(c(9)));
    assert_eq!(tm.get_tile_slice(1, 0, 0).map(|s| s[0]), Some(c(5)));
    assert!(tm.get_tile_slice(0, 1, 0).is_none());
    assert!(tm.get_tile_slice(2, 0, 0).is_none());
    assert_eq!(tm.resolve_tile_coord([1, 0], 0), [1, 0]);
}

static FRAMES: [FrameCoord; 1] = [FrameCoord { tx: 1, ty: 0 }];

#[test]
fn sprite_corner_lands_in_cell() {
    let desc = TextureDescriptor::new(&TILES, 1, 1, 1, false);
    let anim = Animation::new(desc, &FRAMES, 1);
    let s: Sprite<'_, 2, 4> = Sprite::new(&anim, [0, 0], 0);
    assert_eq!(s.pixel_width(), 2);
    let mut buf = [c(0); 4];
    let mut covered = [false; 4];
    let mut pc: usize = 0;
    // the sprite's top-left pixel lands on the cell's bottom-right pixel
    s.blit_to_cell_reverse_z(&mut buf, &mut covered, &mut pc, [0, 0], [1, 1]);
    assert_eq!(buf, [c(0), c(0), c(0), c(5)]);
    assert_eq!(covered, [false, false, false, true]);
    assert_eq!(pc, 1);
}

#[test]
fn sprite_covering_the_cell_is_copied_whole() {
    let desc = TextureDescriptor::new(&TILES, 1, 1, 1, false);
    let anim = Animation::new(desc, &FRAMES, 1);
    let s: Sprite<'_, 2, 4> = Sprite::new(&anim, [0, 0], 0);
    let mut buf = [c(0); 4];
    let mut covered = [false; 4];
    let mut pc: usize = 0;
    s.blit_to_cell_reverse_z(&mut buf, &mut covered, &mut pc, [4, 6], [4, 6]);
    assert_eq!(buf, [c(5), c(6), c(7), c(8)]);
    assert_eq!(pc, 4);
}

#[test]
fn sprite_bookkeeping() {
    let desc = TextureDescriptor::new(&TILES, 1, 1, 1, false);
    let anim = Animation::new(desc, &FRAMES, 1);
    let mut s: Sprite<'_, 2, 4> = Sprite::new(&anim, [3, 4], 7).with_offset([1, 1]);
    assert!(s.moved);
    s.commit_frame();
    assert!(!s.moved);
    assert_eq!(s.prev_position, [3, 4]);
    s.sync_to_anchor([2, 3]);
    assert!(!s.moved);
    s.sync_to_anchor([5, 5]);
    assert!(s.moved);
    assert_eq!(s.position, [6, 6]);
    assert_eq!(s.current_frame_coords(), Some(FrameCoord { tx: 1, ty: 0 }));
}

#[test]
fn nearest_layer_wins_and_clear_color_fills() {
    let back = layer(false);
    let desc = TextureDescriptor::new(&TILES, 1, 1, 1, true);
    let anim = Animation::new(desc, &FRAMES, 1);
    let s: Sprite<'_, 2, 4> = Sprite::new(&anim, [1, 1], 1);
    let comp: Compositor<2, 4, 2, 2, 4> = Compositor::new(c(99));
    let viewport = Viewport::fixed();
    let items = [Renderable::Tilemap(&back), Renderable::UiSprite(&s)];
    let bounds = [Some([0i16, 0, 2, 2]), Some([1i16, 1, 3, 3])];
    let mut buf = [c(0); 4];
    let mut covered = [false; 4];
    comp.composite_cell(0, 0, [0, 0], 2, &items, &bounds, &viewport, &mut buf, &mut covered);
    // the sprite covers the bottom-right pixel, the tilemap the rest
    assert_eq!(buf, [c(1), c(2), c(3), c(5)]);
    // nothing at all: the clear color
    let empty: [Renderable<'_, '_, 2, 4>; 0] = [];
    let mut buf2 = [c(0); 4];
    comp.composite_cell(0, 0, [0, 0], 2, &empty, &[], &viewport, &mut buf2, &mut covered);
    assert_eq!(buf2, [c(99); 4]);
}

#[test]
fn layer_depth_and_bounds() {
    let tm = layer(false);
    let desc = TextureDescriptor::new(&TILES, 1, 1, 1, true);
    let anim = Animation::new(desc, &FRAMES, 1);
    let s: Sprite<'_, 2, 4> = Sprite::new(&anim, [10, 20], 3);
    let v = Viewport::fixed();
    assert_eq!(Renderable::Tilemap(&tm).z(), 0);
    assert!(Renderable::Tilemap(&tm).is_opaque());
    assert_eq!(Renderable::UiSprite(&s).z(), 3);
    assert!(!Renderable::UiSprite(&s).is_opaque());
    assert_eq!(Renderable::UiSprite(&s).screen_bounds(&v), Some([10, 20, 12, 22]));
    assert_eq!(tm.screen_bounds(&v), Some([0, 0, 4, 4]));
}

#[test]
fn moved_sprite_marks_old_and_new_cells() {
    let desc = TextureDescriptor::new(&TILES, 1, 1, 1, true);
    let anim = Animation::new(desc, &FRAMES, 1);
    let mut s: Sprite<'_, 2, 4> = Sprite::new(&anim, [0, 0], 0);
    let (mut e, _): (Engine<2, 4, 4, 4, 4, false>, _) = Engine::new(c(0), None);
    e.compositor.grid.swap_and_clear();
    e.compositor.grid.swap_and_clear();
    assert!(e.is_sprite_visible(&s, 0, 0, 8, 8));
    s.commit_frame();
    s.set_position([4, 4]);
    e.mark_sprite(&s);
    assert_eq!(e.compositor.grid.curr[0] & 1, 1);
    assert_eq!(e.compositor.grid.curr[2] & 4, 4);
    assert_eq!(e.compositor.grid.curr[1] & 2, 0);
    s.commit_frame();
    let before = e.compositor.grid.curr;
    e.mark_sprite(&s);
    assert_eq!(e.compositor.grid.curr, before);
}

static SMALL: [Color; 4] = [c(1), c(KEY), c(3), c(4)];

#[test]
fn scaled_image_draws_squares() {
    let ops = draw_image(&SMALL, Point { x: 10, y: 10 }, (2, 2), 3, true);
    assert_eq!(ops.len(), 3);
    match ops[0] {
        DrawOp::FillRect { rect, color } => {
            assert_eq!(rect, Rect { x: 10, y: 10, width: 3, height: 3 });
            assert_eq!(color, c(1));
        },
        _ => panic!("expected a square"),
    }
    match ops[2] {
        DrawOp::FillRect { rect, color } => {
            assert_eq!(rect, Rect { x: 13, y: 13, width: 3, height: 3 });
            assert_eq!(color, c(4));
        },
        _ => panic!("expected a square"),
    }
}

#[test]
fn keyed_image_draws_opaque_runs() {
    let ops = draw_image(&SMALL, Point { x: 10, y: 10 }, (2, 2), 1, true);
    // runs: [0, 1) and [2, 4) (a whole row)
    assert_eq!(ops.len(), 2);
    match ops[0] {
        DrawOp::Pixels { rect, pixels } => {
            assert_eq!(rect, Rect { x: 10, y: 10, width: 1, height: 1 });
            assert_eq!(pixels, &SMALL[0..1]);
        },
        _ => panic!("expected pixels"),
    }
    match ops[1] {
        DrawOp::Pixels { rect, pixels } => {
            assert_eq!(rect, Rect { x: 10, y: 11, width: 2, height: 1 });
            assert_eq!(pixels, &SMALL[2..4]);
        },
        _ => panic!("expected pixels"),
    }
}

#[test]
fn plain_image_is_one_block() {
    let ops = draw_image(&SMALL, Point { x: 0, y: 0 }, (2, 2), 1, false);
    assert_eq!(ops.len(), 1);
    match ops[0] {
        DrawOp::Pixels { rect, pixels } => {
            assert_eq!(rect, Rect { x: 0, y: 0, width: 2, height: 2 });
            assert_eq!(pixels.len(), 4);
        },
        _ => panic!("expected pixels"),
    }
}

/// Only the first tile of a tileset whose image stops after four pixels.
static SHORT_IMG: [Color; 4] = [c(1), c(2), c(3), c(4)];
static SHORT: Tileset = Tileset { image: &SHORT_IMG, tile_size: 2, width: 4 };

#[test]
fn tile_offsets_are_checked() {
    assert_eq!(TILES.checked_tile_offset(Point { x: 1, y: 1 }), Some(12));
    assert_eq!(TILES.checked_tile_offset(Point { x: 3, y: 1 }), None);
    assert_eq!(SHORT.checked_tile_offset(Point { x: 0, y: 0 }), Some(0));
}

#[test]
fn tilemap_cells_are_checked_before_drawing() {
    let tm = layer(false);
    assert!(tm.is_wf());
    assert!(tm.cell_drawable([1, 1], [0, 0], 0));
    assert!(tm.bounds_checked(&Viewport::fixed()));
    assert!(tm.mark_checked(0, 0, 0));
    // the same layer on a tileset that stops after its first tile
    let data = vec![Some([0u8, 0u8]), Some([1, 0]), None, Some([0, 1])];
    let short: Tilemap<'static, 2, 4> = Tilemap::new(&SHORT, data, 2, 2, &[], 0, false, Parallax::fixed(), WrapMode::NoWrap);
    assert!(short.cell_drawable([0, 0], [0, 0], 0));
    assert!(!short.cell_drawable([1, 0], [0, 0], 0));
    // a cell beyond the layer holds no tile
    assert!(short.cell_drawable([5, 5], [0, 0], 0));
}

#[test]
fn sprite_cells_are_checked_before_drawing() {
    let desc = TextureDescriptor::new(&TILES, 1, 1, 1, false);
    let anim = Animation::new(desc, &FRAMES, 1);
    let s: Sprite<'_, 2, 4> = Sprite::new(&anim, [0, 0], 0);
    assert!(s.is_wf());
    assert!(s.cell_drawable(0, 0, 1, 1));
    // frame (1, 0) on the short tileset lies past its image
    let short_desc = TextureDescriptor::new(&SHORT, 1, 1, 1, false);
    let short_anim = Animation::new(short_desc, &FRAMES, 1);
    let t: Sprite<'_, 2, 4> = Sprite::new(&short_anim, [0, 0], 0);
    assert!(!t.cell_drawable(0, 0, 1, 1));
    // a cell the sprite does not reach reads nothing
    assert!(t.cell_drawable(10, 10, 0, 0));
    let v = Viewport::fixed();
    let far = Renderable::Sprite(&t);
    assert!(layer_drawable(&far, Some([20, 20, 22, 22]), [0, 0], [0, 0], 2, [0, 0], 0));
    assert!(!layer_drawable(&far, Some([1, 1, 3, 3]), [0, 0], [0, 0], 2, [0, 0], 0));
    assert!(far.bounds_checked(&v));
    assert!(point_fits(&v, [10, 10], 2, 2));
    assert!(!point_fits(&v, [32767, 0], 2, 2));
}

#[test]
fn engine_checks_its_window_and_sprites() {
    let (e, _): (Engine<2, 4, 4, 4, 4, false>, _) = Engine::new(c(0), None);
    assert!(e.window_checked());
    let desc = TextureDescriptor::new(&TILES, 1, 1, 1, true);
    let anim = Animation::new(desc, &FRAMES, 1);
    let s: Sprite<'_, 2, 4> = Sprite::new(&anim, [3, 4], 0);
    assert!(e.sprite_checked(&s));
    assert!(e.ui_sprite_checked(&s));
    let edge: Sprite<'_, 2, 4> = Sprite::new(&anim, [32767, 4], 0);
    assert!(!e.ui_sprite_checked(&edge));
}
