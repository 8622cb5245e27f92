use numworks_games::eadk::{Color, Point, Rect};
use numworks_games::graphical::{fading, fading_fill, fading_levels};
use numworks_games::graphical::tiling::Tileset;
use numworks_games::graphical::image::draw_image;
use numworks_games::graphical::DrawOp;
use numworks_games::num_engine::compositor::{Compositor, InterlaceMode, SpanCursor};
use numworks_games::num_engine::layers::{order_layers, Renderable};
use numworks_games::num_engine::tilemap::{Tilemap, WrapMode};
use numworks_games::num_engine::dirty_grid::DirtyGrid;
use numworks_games::num_engine::engine::Engine;
use numworks_games::num_engine::texture::{Animation, FrameCoord, TextureDescriptor};
use numworks_games::num_engine::tilemap::Parallax;
use numworks_games::snake::game_snake::{add_wall, fruit_eaten, new_snake, Direction};
use numworks_games::snake::snake_ui::draw_snake_checked;

static IMG: [Color; 16] = [Color { rgb565: 3 }; 16];
static TILES: Tileset = Tileset { image: &IMG, tile_size: 2, width: 4 };
static TWO: [FrameCoord; 2] = [FrameCoord { tx: 0, ty: 0 }, FrameCoord { tx: 1, ty: 0 }];

#[test]
fn frame_past_the_last_is_none() {
    let desc = TextureDescriptor::new(&TILES, 1, 1, 1, false);
    let anim = Animation::new(desc, &TWO, 1);
    assert_eq!(anim.get_frame(1), Some(FrameCoord { tx: 1, ty: 0 }));
    assert_eq!(anim.get_frame(2), None);
}

#[test]
fn fade_restores_the_brightness_read() {
    let f = fading(480, 0);
    assert_eq!(f.start_brightness, 16);
    assert_eq!(f.step_ms, 30);
    assert_eq!(f.restore_brightness, 0);
    assert_eq!(fading(480, 12).restore_brightness, 12);
}

#[test]
fn empty_rectangle_marks_nothing() {
    let mut g: DirtyGrid<20, 16, 12> = DirtyGrid::new();
    g.mark_rect(Rect { x: 25, y: 5, width: 0, height: 0 });
    g.mark_rect(Rect { x: 25, y: 5, width: 3, height: 0 });
    assert!(g.curr.iter().all(|r| *r == 0));
    g.mark_rect(Rect { x: 25, y: 5, width: 1, height: 1 });
    assert_eq!(g.curr[0], 0b10);
}

#[test]
fn engine_clears_its_window() {
    let (e, clear): (Engine<2, 4, 4, 4, 4, false>, _) =
        Engine::new_with_window(Color { rgb565: 7 }, 10, 20, 8, 8, None);
    assert_eq!(e.get_frame(), 0);
    match clear {
        DrawOp::FillRect { rect, color } => {
            assert_eq!(rect, Rect { x: 10, y: 20, width: 8, height: 8 });
            assert_eq!(color, Color { rgb565: 7 });
        },
        _ => panic!("expected a fill"),
    }
}

#[test]
fn parallax_divides_the_lowest_camera() {
    assert_eq!(Parallax::from_distance(2).apply(i32::MIN), i32::MIN / 2);
    assert!(Parallax::from_distance(2).can_apply(i32::MIN));
    assert!(!Parallax::ratio(1, -1).can_apply(i32::MIN));
    assert!(Parallax::ratio(1, -2).can_apply(i32::MIN));
    assert_eq!(Parallax::ratio(1, -2).apply(i32::MIN), i32::MIN / -2);
}

#[test]
fn fruit_counts_and_walls_go_on_free_cells() {
    let mut score: u16 = 1;
    assert!(fruit_eaten(&mut score, true));
    assert_eq!(score, 2);
    assert!(!fruit_eaten(&mut score, true));
    assert!(!fruit_eaten(&mut score, false));
    let snake = new_snake();
    let mut walls: heapless::Vec<Point, 735> = heapless::Vec::new();
    let ahead = Point { x: 4, y: 1 };
    // on the snake, or just ahead of its head: refused
    assert!(!add_wall(&mut walls, Point { x: 2, y: 1 }, &snake, &ahead));
    assert!(!add_wall(&mut walls, ahead, &snake, &ahead));
    assert!(add_wall(&mut walls, Point { x: 7, y: 7 }, &snake, &ahead));
    // twice on the same cell: refused
    assert!(!add_wall(&mut walls, Point { x: 7, y: 7 }, &snake, &ahead));
    assert_eq!(walls.as_slice(), &[Point { x: 7, y: 7 }]);
}

#[test]
fn snake_is_drawn_only_when_it_fits() {
    let snake = new_snake();
    let ops = draw_snake_checked(&TILES, &snake, Direction::Right, true, (0, 0)).unwrap();
    assert_eq!(ops.len(), 3);
    let empty: heapless::Deque<Point, 735> = heapless::Deque::new();
    assert!(draw_snake_checked(&TILES, &empty, Direction::Right, true, (0, 0)).is_none());
    assert!(draw_snake_checked(&TILES, &snake, Direction::Right, true, (65535, 0)).is_none());
}

#[test]
fn opaque_image_is_drawn_in_one_block() {
    let img = [Color { rgb565: 5 }; 12];
    let ops = draw_image(&img, Point { x: 3, y: 4 }, (4, 3), 1, true);
    assert_eq!(ops.len(), 1);
    match ops[0] {
        DrawOp::Pixels { rect, pixels } => {
            assert_eq!(rect, Rect { x: 3, y: 4, width: 4, height: 3 });
            assert_eq!(pixels.len(), 12);
        },
        _ => panic!("expected pixels"),
    }
    // one transparent pixel in the middle of row 1 splits the image
    let mut holed = img;
    holed[5] = Color { rgb565: 0xE01F };
    let ops = draw_image(&holed, Point { x: 3, y: 4 }, (4, 3), 1, true);
    assert!(ops.len() > 1);
}

fn tilemap(z: u8) -> Tilemap<'static, 2, 4> {
    Tilemap::new(&TILES, vec![None; 4], 2, 2, &[], z, true, Parallax::fixed(), WrapMode::NoWrap)
}

#[test]
fn layers_go_farthest_first_up_to_the_cap() {
    let (a, b, c) = (tilemap(5), tilemap(1), tilemap(3));
    let items = [Renderable::Tilemap(&a), Renderable::Tilemap(&b), Renderable::Tilemap(&c)];
    let order = order_layers(&items, 8);
    assert_eq!(order.iter().map(|r| r.z()).collect::<Vec<u8>>(), vec![1, 3, 5]);
    let kept = order_layers(&items, 2);
    assert_eq!(kept.iter().map(|r| r.z()).collect::<Vec<u8>>(), vec![1, 3]);
}

#[test]
fn spans_are_walked_from_the_right_and_cleared() {
    let mut comp: Compositor<2, 4, 4, 4, 4> = Compositor::new(Color { rgb565: 0 });
    let mut cursor = SpanCursor { col: 4, y: 0 };
    assert_eq!(comp.next_span(&mut cursor, InterlaceMode::Rows, 0), Some((3, 0, 1)));
    assert_eq!(comp.next_span(&mut cursor, InterlaceMode::Rows, 0), Some((3, 2, 3)));
    assert_eq!(comp.next_span(&mut cursor, InterlaceMode::Rows, 0), Some((2, 0, 1)));
    assert_eq!(comp.grid.curr[0] & 0b1100, 0);
    assert_eq!(comp.grid.curr[1], 0b1111);
    let mut all = SpanCursor { col: 4, y: 0 };
    let mut count = 0;
    while comp.next_span(&mut all, InterlaceMode::Off, 0).is_some() {
        count += 1;
    }
    assert_eq!(count, 5);
    assert!(comp.grid.curr.iter().all(|r| *r == 0));
}

#[test]
fn interlacing_is_released_only_below_the_ceiling() {
    let (mut e, _): (Engine<2, 4, 4, 4, 4, false>, _) = Engine::new(Color { rgb565: 0 }, None);
    e.is_interlacing_engaged = true;
    // doubled frame time equal to 21.5 ms - 3.5 ms: not a fast frame
    e.adapt_interlacing(9_000);
    assert_eq!(e.fast_streak, 0);
    e.adapt_interlacing(8_999);
    assert_eq!(e.fast_streak, 1);
}

#[test]
fn fade_steps_down_to_zero_then_fills_black() {
    assert_eq!(fading_levels(&fading(480, 3)), vec![2, 1, 0]);
    assert_eq!(fading_levels(&fading(480, 0)).len(), 16);
    match fading_fill() {
        DrawOp::FillRect { rect, color } => {
            assert_eq!(rect, Rect { x: 0, y: 0, width: 320, height: 240 });
            assert_eq!(color, Color { rgb565: 0 });
        },
        _ => panic!("expected a fill"),
    }
}

#[test]
fn interlacing_engages_and_releases_after_streaks() {
    let (mut e, _): (Engine<2, 4, 4, 4, 4, false>, _) = Engine::new(Color { rgb565: 0 }, None);
    // one frame over 21.5 ms engages it (a trip-wire of one frame)
    e.adapt_interlacing(22_000);
    assert!(e.is_interlacing_engaged);
    // five fast frames in a row release it; a slow one in between resets the count
    for _ in 0..4 {
        e.adapt_interlacing(5_000);
    }
    e.adapt_interlacing(20_000);
    assert_eq!(e.fast_streak, 0);
    for _ in 0..4 {
        e.adapt_interlacing(5_000);
    }
    assert!(e.is_interlacing_engaged);
    e.adapt_interlacing(5_000);
    assert!(!e.is_interlacing_engaged);
}
