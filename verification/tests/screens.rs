use numworks_games::eadk::{Color, Point};
use numworks_games::graphical::tiling::Tileset;
use numworks_games::graphical::{ColorConfig, DrawOp};
use numworks_games::pacman::game::Space;
use numworks_games::pacman::maze::{cell_of, clear_moveable, draw_maze, maze_tile_cache, read_file};
use numworks_games::puissance4::game_p4::Alignment;
use numworks_games::puissance4::ui_p4::{players_colors, victory};
use numworks_games::num_engine::texture::{Animation, FrameCoord, TextureDescriptor};
use numworks_games::snake::game_snake::{new_snake, Direction};
use numworks_games::snake::snake_ui::{draw_snake, draw_terrain};
use numworks_games::snake::snake_ui::thumbnail as snake_thumbnail;
use numworks_games::pacman::pac_ui::thumbnail as pacman_thumbnail;
use numworks_games::snake::utils::{get_centered_text_left_coordo, get_string_size};
use numworks_games::eadk::Rect;

const fn c(v: u16) -> Color {
    Color { rgb565: v }
}

static WALL_IMG: [Color; 64] = [c(7); 64];
static WALLS: Tileset = Tileset { image: &WALL_IMG, tile_size: 1, width: 16 };

static COIN_IMG: [Color; 6] = [c(1), c(2), c(3), c(4), c(5), c(6)];
static COINS: Tileset = Tileset { image: &COIN_IMG, tile_size: 1, width: 2 };

fn image_pos(op: &DrawOp) -> Point {
    match op {
        DrawOp::Image { pos, .. } => *pos,
        _ => panic!("expected an image"),
    }
}

#[test]
fn maze_characters() {
    assert_eq!(cell_of('.'), Space::Point);
    assert_eq!(cell_of('°'), Space::Superball);
    assert_eq!(cell_of(' '), Space::Empty);
    assert_eq!(cell_of('a'), Space::Wall);
}

#[test]
fn maze_file_rows_skip_empty_lines() {
    let grid = read_file("#.°\n\n # \r\nabc");
    assert_eq!(&grid[0..4], &[Space::Wall, Space::Point, Space::Superball, Space::Empty]);
    assert_eq!(&grid[28..32], &[Space::Empty, Space::Wall, Space::Empty, Space::Empty]);
    assert_eq!(&grid[56..60], &[Space::Wall, Space::Wall, Space::Wall, Space::Empty]);
    assert!(grid[84..].iter().all(|s| *s == Space::Empty));
}

#[test]
fn maze_file_long_lines_are_cut() {
    let line = ".".repeat(40);
    let grid = read_file(&line);
    assert!(grid[0..28].iter().all(|s| *s == Space::Point));
    assert_eq!(grid[28], Space::Empty);
}

#[test]
fn maze_tiles_follow_the_file() {
    let cache = maze_tile_cache("0.\n x");
    assert_eq!(cache[0], Point { x: 0, y: 0 });
    assert_eq!(cache[1], Point { x: 13, y: 2 });
    assert_eq!(cache[2], Point { x: 12, y: 2 });
    assert_eq!(cache[3], Point { x: 1, y: 2 });
    assert_eq!(cache[4], Point { x: 12, y: 2 });
}

#[test]
fn maze_is_drawn_cell_by_cell() {
    let cache = maze_tile_cache("0.\n x");
    let ops = draw_maze(&WALLS, &cache);
    assert_eq!(ops.len(), 840);
    assert_eq!(image_pos(&ops[0]), Point { x: 48, y: 0 });
    assert_eq!(image_pos(&ops[29]), Point { x: 48 + 8, y: 8 });
}

#[test]
fn moveable_surroundings_are_restored() {
    let grid = read_file("#.°\n\n # \r\nabc");
    let cache = maze_tile_cache("#.°\n\n # \r\nabc");
    let ops = clear_moveable(&WALLS, Point { x: 0, y: 0 }, &grid, &cache);
    assert_eq!(ops.len(), 9);
    // the block is clamped to the maze: the first row of the block is row 0
    assert_eq!(image_pos(&ops[0]), Point { x: 48, y: 0 });
    assert_eq!(image_pos(&ops[4]), Point { x: 48, y: 0 });
    assert_eq!(image_pos(&ops[8]), Point { x: 48 + 8, y: 8 });
}

#[test]
fn player_colors() {
    assert_eq!(players_colors(0), c(0x001F));
    assert_eq!(players_colors(1), c(0xF800));
    assert_eq!(players_colors(2), Color::from_rgb888(250, 200, 0));
}

fn coin_cells(ops: &[DrawOp]) -> Vec<(u16, u16)> {
    ops.iter().map(|op| {
        let p = image_pos(op);
        ((p.x - 73) / 25, 5 - (p.y - 60) / 23)
    }).collect()
}

#[test]
fn winning_lines_are_highlighted() {
    let cfg = ColorConfig { text: c(0), bckgrd: c(0xFFFF), alt: c(1) };
    let (title, ops) = victory(&COINS, Alignment(2, (1, 0), (1, 3)), &cfg);
    match title {
        DrawOp::Text { text_color, .. } => assert_eq!(text_color, c(0xF800)),
        _ => panic!("expected the title"),
    }
    assert_eq!(coin_cells(&ops), vec![(1, 0), (1, 1), (1, 2), (1, 3)]);
    let (_, ops) = victory(&COINS, Alignment(1, (2, 4), (5, 4)), &cfg);
    assert_eq!(coin_cells(&ops), vec![(2, 4), (3, 4), (4, 4), (5, 4)]);
    let (_, ops) = victory(&COINS, Alignment(3, (0, 0), (3, 3)), &cfg);
    assert_eq!(coin_cells(&ops), vec![(0, 0), (1, 1), (2, 2), (3, 3)]);
    let (_, ops) = victory(&COINS, Alignment(3, (0, 3), (3, 0)), &cfg);
    assert_eq!(coin_cells(&ops), vec![(0, 3), (1, 2), (2, 1), (3, 0)]);
}

#[test]
fn half_tiles_cover_the_area_column_by_column() {
    let ops = WALLS.reverse_half_tiling(Point { x: 10, y: 20 }, (2, 3), Point { x: 1, y: 0 }, false);
    assert_eq!(ops.len(), 6);
    // the right-hand column goes first
    match ops[1] {
        DrawOp::Pixels { rect, pixels } => {
            assert_eq!(rect, numworks_games::eadk::Rect { x: 11, y: 21, width: 1, height: 0 });
            assert_eq!(pixels.len(), 63);
        },
        _ => panic!("expected pixels"),
    }
    match ops[4] {
        DrawOp::Pixels { rect, .. } => assert_eq!(rect, numworks_games::eadk::Rect { x: 10, y: 21, width: 1, height: 0 }),
        _ => panic!("expected pixels"),
    }
}

static F: [FrameCoord; 2] = [FrameCoord { tx: 0, ty: 0 }, FrameCoord { tx: 4, ty: 1 }];

#[test]
fn animation_frame_is_drawn_tile_by_tile() {
    let desc = TextureDescriptor::new_repeating(&WALLS, 3, 2, 2, 1, 2, false);
    let anim = Animation::new(desc, &F, 1);
    let ops = anim.draw_at(Point { x: 5, y: 7 }, 1);
    assert_eq!(ops.len(), 6);
    // second row, third tile: the block repeats every two tiles across
    assert_eq!(image_pos(&ops[5]), Point { x: 5 + 2 * 2, y: 7 + 2 });
    match ops[5] {
        DrawOp::Image { pixels, scaling, .. } => {
            assert_eq!(scaling, 2);
            assert_eq!(pixels.len(), 64 - (16 + 4));
        },
        _ => panic!("expected an image"),
    }
    let none = Animation::new(desc, &[], 1);
    assert_eq!(none.draw_at(Point { x: 0, y: 0 }, 0).len(), 0);
}

#[test]
fn snake_text_measures() {
    assert_eq!(get_string_size("abcd", true), 40);
    assert_eq!(get_string_size("abcd", false), 28);
    assert_eq!(get_centered_text_left_coordo("abcde", true), 135);
    assert_eq!(get_centered_text_left_coordo("abc", true), 145);
    assert_eq!(get_centered_text_left_coordo("abcd", true), 140);
    assert_eq!(get_centered_text_left_coordo(&"x".repeat(100), false), 0);
}

fn fill(op: &DrawOp) -> (Rect, u16) {
    match op {
        DrawOp::FillRect { rect, color } => (*rect, color.rgb565),
        _ => panic!("expected a box"),
    }
}

#[test]
fn terrain_is_a_checkerboard() {
    let ops = draw_terrain(true, 3, 2, (20, 3));
    // background, border, terrain, then gray cells (1,0) and (0,1), (2,1)
    assert_eq!(ops.len(), 6);
    assert_eq!(fill(&ops[0]).0, Rect { x: 0, y: 0, width: 320, height: 240 });
    assert_eq!(fill(&ops[1]), (Rect { x: 15, y: 0, width: 40, height: 30 }, Color::from_rgb888(255, 100, 0).rgb565));
    assert_eq!(fill(&ops[2]), (Rect { x: 20, y: 3, width: 30, height: 20 }, Color::from_rgb888(225, 225, 225).rgb565));
    let gray = Color::from_rgb888(175, 175, 175).rgb565;
    assert_eq!(fill(&ops[3]), (Rect { x: 30, y: 3, width: 10, height: 10 }, gray));
    assert_eq!(fill(&ops[4]), (Rect { x: 20, y: 13, width: 10, height: 10 }, gray));
    assert_eq!(fill(&ops[5]), (Rect { x: 40, y: 13, width: 10, height: 10 }, gray));
    let closed = draw_terrain(false, 3, 2, (20, 3));
    assert_eq!(fill(&closed[1]).1, 0);
}

#[test]
fn snake_is_drawn_head_first() {
    let snake = new_snake();
    let ops = draw_snake(&COINS, &snake, Direction::Right, true, (0, 0));
    assert_eq!(ops.len(), 3);
    assert_eq!(fill(&ops[0]), (Rect { x: 30, y: 10, width: 10, height: 10 }, Color::from_rgb888(40, 200, 120).rgb565));
    assert_eq!(fill(&ops[1]), (Rect { x: 20, y: 10, width: 10, height: 10 }, Color::from_rgb888(0, 120, 0).rgb565));
    assert_eq!(fill(&ops[2]), (Rect { x: 10, y: 10, width: 10, height: 10 }, Color::from_rgb888(0, 120, 0).rgb565));
    let sprites = draw_snake(&WALLS, &snake, Direction::Right, false, (0, 0));
    assert_eq!(image_pos(&sprites[0]), Point { x: 30, y: 10 });
}

static SPRITE_IMG: [Color; 256] = [c(3); 256];
static SPRITES: Tileset = Tileset { image: &SPRITE_IMG, tile_size: 1, width: 16 };

#[test]
fn snake_thumbnail_layout() {
    let ops = snake_thumbnail(&WALLS);
    assert_eq!(fill(&ops[0]), (Rect { x: 85, y: 15, width: 150, height: 100 }, 0));
    assert_eq!(fill(&ops[1]), (Rect { x: 88, y: 18, width: 144, height: 94 }, Color::from_rgb888(200, 200, 200).rgb565));
    assert_eq!(image_pos(&ops[2]), Point { x: 155, y: 55 });
    assert_eq!(fill(&ops[3]).0, Rect { x: 95, y: 55, width: 60, height: 20 });
    assert_eq!(image_pos(&ops[4]), Point { x: 195, y: 55 });
}

#[test]
fn pacman_thumbnail_layout() {
    let ops = pacman_thumbnail(&SPRITES, &WALLS);
    assert_eq!(fill(&ops[0]), (Rect { x: 85, y: 15, width: 150, height: 100 }, Color::BLUE_RGB565));
    assert_eq!(fill(&ops[1]), (Rect { x: 88, y: 18, width: 144, height: 94 }, 0));
    assert_eq!(image_pos(&ops[2]), Point { x: 13 * 8 + 48, y: 64 });
    assert_eq!(image_pos(&ops[7]), Point { x: 18 * 8 + 48, y: 64 });
    // the fruit is raised by half a cell
    assert_eq!(image_pos(&ops[10]), Point { x: 14 * 8 + 48, y: 60 });
}
