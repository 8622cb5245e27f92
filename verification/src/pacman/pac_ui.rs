//! What Pac-Man puts on the screen: sprites of Pac-Man, the ghosts and the
//! fruits, the maze cells, and the masks at the tunnel exits.

use vstd::prelude::*;

use crate::eadk::{Color, Point, Rect};
use crate::graphical::{is_image, op_within, DrawOp};
use crate::graphical::tiling::Tileset;
use crate::pacman::game::{Space, GRID_WIDTH, TILE_SIZE, X_GRID_OFFSET};
use crate::pacman::ghost::{GhostType, HouseState, MovementMode};
use crate::pacman::moveable::{spec_vector, Direction};
use crate::utils::{decimal, string6_view, string_from_u16};

verus! {

/// The screen position of a grid cell fits in 16 bits.
pub open spec fn abs_ok(pos: Point) -> bool {
    pos.x * TILE_SIZE + X_GRID_OFFSET <= u16::MAX && pos.y * TILE_SIZE <= u16::MAX
}

/// The screen position of the upper left pixel of a grid cell.
pub open spec fn spec_abs_from_pos(pos: Point) -> Point {
    Point { x: (pos.x * TILE_SIZE + X_GRID_OFFSET) as u16, y: (pos.y * TILE_SIZE) as u16 }
}

/// Gives the absolute pixel position of a position on the grid.
pub fn abs_from_pos(pos: Point) -> (p: Point)
    requires
        abs_ok(pos),
    ensures
        p == spec_abs_from_pos(pos),
{
    Point { x: pos.x * TILE_SIZE + X_GRID_OFFSET, y: pos.y * TILE_SIZE }
}

/// A sprite at this cell, shifted by up to 255 pixels, stays in the signed
/// 16-bit range of the sprite arithmetic.
pub open spec fn sprite_ok(pos: Point) -> bool {
    pos.x * TILE_SIZE + X_GRID_OFFSET + 255 <= i16::MAX && pos.y * TILE_SIZE + TILE_SIZE + 255 <= i16::MAX
}

/// One pixel lower for horizontal moves, so that sprites line up with the corridors.
pub open spec fn spec_row_offset(dir: Direction) -> int {
    if dir == Direction::Up || dir == Direction::Down { 0 } else { 1 }
}

/// Where a 16-pixel sprite is drawn: centered on the cell at `np`, moved
/// `steps` pixels along `dir`.
pub open spec fn spec_sprite_pos(np: Point, steps: u8, dir: Direction) -> Point {
    Point {
        x: (np.x - TILE_SIZE / 2 + steps * spec_vector(dir).0) as u16,
        y: (((np.y - TILE_SIZE / 2 + steps * spec_vector(dir).1) as u16) + spec_row_offset(dir)) as u16,
    }
}

fn sprite_pos(np: Point, steps: u8, dir: &Direction) -> (p: Point)
    requires
        np.x + 255 <= i16::MAX,
        np.y + 255 <= i16::MAX,
        np.y % 4 == 0,
    ensures
        p == spec_sprite_pos(np, steps, *dir),
{
    let v = dir.to_vector();
    let offset: u16 = match dir {
        Direction::Up | Direction::Down => 0,
        Direction::Right | Direction::Left => 1,
    };
    let half: i16 = (TILE_SIZE / 2) as i16;
    let vx: i16 = np.x as i16 - half + steps as i16 * v.0;
    let vy: i16 = np.y as i16 - half + steps as i16 * v.1;
    let ux: u16 = vx as u16;
    let uy: u16 = vy as u16;
    if offset == 1 {
        assert(v.1 == 0);
        assert(vy >= -4);
        assert(vy < 0 ==> vy == -4) by {
            assert(np.y % 4 == 0);
        }
        assert(vy == -4 ==> uy == 65532u16) by (bit_vector)
            requires
                uy == vy as u16,
        ;
    }
    Point { x: ux, y: uy + offset }
}

/// The tile of Pac-Man: mouth closed, half open, open, half open, every two frames.
pub open spec fn spec_player_tile(frames: u32, dir: Direction) -> Point {
    let frame = (frames / 2) % 4;
    Point {
        x: if frame == 0 { 2 } else { (frame % 2) as u16 },
        y: if frame == 0 {
            0
        } else {
            match dir {
                Direction::Up => 2,
                Direction::Down => 3,
                Direction::Right => 0,
                Direction::Left => 1,
            }
        },
    }
}

/// Draws Pac-Man at cell `pos`, `steps` pixels towards the next cell.
pub fn draw_player<'a>(sprites: &'a Tileset, pos: Point, steps: u8, dir: &Direction, frames: u32, wrapping: bool) -> (op: DrawOp<'a>)
    requires
        sprite_ok(pos),
        sprites.tile_ok(spec_player_tile(frames, *dir)),
    ensures
        is_image(op, sprites.tile_pixels(spec_player_tile(frames, *dir)), spec_sprite_pos(spec_abs_from_pos(pos), steps, *dir), (sprites.tile_size, sprites.tile_size), 1, true),
{
    let np = abs_from_pos(pos);
    let p = sprite_pos(np, steps, dir);
    let frame: u16 = ((frames / 2) % 4) as u16;
    let tile = Point {
        x: if frame == 0 { 2 } else { frame % 2 },
        y: if frame == 0 {
            0
        } else {
            match dir {
                Direction::Up => 2,
                Direction::Down => 3,
                Direction::Right => 0,
                Direction::Left => 1,
            }
        },
    };
    sprites.draw_tile(p, tile, 1, true)
}

/// Draws tile `tile` of the sprites where Pac-Man stands: at cell `pos`,
/// `steps` pixels towards the next cell (the frames of its death).
pub fn draw_pac_tile<'a>(sprites: &'a Tileset, pos: Point, steps: u8, dir: &Direction, tile: Point) -> (op: DrawOp<'a>)
    requires
        sprite_ok(pos),
        sprites.tile_ok(tile),
    ensures
        is_image(op, sprites.tile_pixels(tile), spec_sprite_pos(spec_abs_from_pos(pos), steps, *dir), (sprites.tile_size, sprites.tile_size), 1, true),
{
    let np = abs_from_pos(pos);
    let p = sprite_pos(np, steps, dir);
    sprites.draw_tile(p, tile, 1, true)
}

/// The tile of a ghost: blue (and blinking at the end) when frightened,
/// its own color looking its way when chasing or scattering, eyes when eaten;
/// two animation steps, every four frames.
pub open spec fn spec_ghost_tile(frames: u32, dir: Direction, gtype: GhostType, mode: MovementMode) -> Point {
    let wiggle = ((frames / 4) % 2) as int;
    match mode {
        MovementMode::Frightened => Point { x: (2 + wiggle) as u16, y: 2 },
        MovementMode::FrightenedBlinking => Point { x: (2 + wiggle + ((frames / 16) % 2) * 2) as u16, y: 2 },
        MovementMode::Scatter | MovementMode::Chase => Point {
            x: ((match dir {
                Direction::Up => 4int,
                Direction::Down => 6,
                Direction::Right => 0,
                Direction::Left => 2,
            }) + wiggle) as u16,
            y: match gtype {
                GhostType::Blinky => 4,
                GhostType::Pinky => 5,
                GhostType::Inky => 6,
                GhostType::Clyde => 7,
            },
        },
        MovementMode::Eaten => Point {
            x: match dir {
                Direction::Up => 4,
                Direction::Down => 5,
                Direction::Right => 2,
                Direction::Left => 3,
            },
            y: 3,
        },
    }
}

/// The cell corner of a ghost: half a cell lower inside the house.
pub open spec fn spec_ghost_corner(pos: Point, house_state: HouseState) -> Point {
    let np = spec_abs_from_pos(pos);
    if house_state == HouseState::Inside {
        Point { x: np.x, y: (np.y + TILE_SIZE / 2) as u16 }
    } else {
        np
    }
}

/// Draws a ghost at cell `pos`, `steps` pixels towards the next cell.
pub fn draw_ghost<'a>(sprites: &'a Tileset, pos: Point, steps: u8, dir: &Direction, frames: u32, wrapping: bool, gtype: &GhostType, house_state: HouseState, movement_mode: &MovementMode) -> (op: DrawOp<'a>)
    requires
        sprite_ok(pos),
        sprites.tile_ok(spec_ghost_tile(frames, *dir, *gtype, *movement_mode)),
    ensures
        is_image(op, sprites.tile_pixels(spec_ghost_tile(frames, *dir, *gtype, *movement_mode)), spec_sprite_pos(spec_ghost_corner(pos, house_state), steps, *dir), (sprites.tile_size, sprites.tile_size), 1, true),
{
    let mut np = abs_from_pos(pos);
    if house_state == HouseState::Inside {
        np.y = np.y + TILE_SIZE / 2;
    }
    let p = sprite_pos(np, steps, dir);
    let wiggle: u16 = ((frames / 4) % 2) as u16;
    let tile = match movement_mode {
        MovementMode::Frightened => Point { x: 2 + wiggle, y: 2 },
        MovementMode::FrightenedBlinking => Point { x: 2 + wiggle + ((frames / 16) % 2) as u16 * 2, y: 2 },
        MovementMode::Scatter | MovementMode::Chase => Point {
            x: match dir {
                Direction::Up => 4,
                Direction::Down => 6,
                Direction::Right => 0,
                Direction::Left => 2,
            } + wiggle,
            y: match gtype {
                GhostType::Blinky => 4,
                GhostType::Pinky => 5,
                GhostType::Inky => 6,
                GhostType::Clyde => 7,
            },
        },
        MovementMode::Eaten => Point {
            x: match dir {
                Direction::Up => 4,
                Direction::Down => 5,
                Direction::Right => 2,
                Direction::Left => 3,
            },
            y: 3,
        },
    };
    sprites.draw_tile(p, tile, 1, true)
}

/// The wall tileset tile drawn for a character of the maze file.
pub open spec fn spec_tile_position(c: char) -> Option<Point> {
    let n = c as u32;
    if c == '.' {
        Some(Point { x: 13, y: 2 })
    } else if c == '°' {
        Some(Point { x: 15, y: 2 })
    } else if c == ' ' {
        Some(Point { x: 12, y: 2 })
    } else if 48 <= n <= 57 {
        Some(Point { x: (n - 48) as u16, y: 0 })
    } else if 97 <= n <= 102 {
        Some(Point { x: (n - 97 + 10) as u16, y: 0 })
    } else if 103 <= n <= 118 {
        Some(Point { x: (n - 103) as u16, y: 1 })
    } else if 119 <= n <= 122 {
        Some(Point { x: (n - 119) as u16, y: 2 })
    } else if 65 <= n <= 76 {
        Some(Point { x: (n - 65 + 4) as u16, y: 2 })
    } else {
        None
    }
}

/// For the maze, gives the tile of a character of the maze file: dots,
/// superballs and spaces, then walls coded by digits and letters.
pub fn get_tile_position(c: char) -> (t: Option<Point>)
    ensures
        t == spec_tile_position(c),
{
    let n: u32 = c as u32;
    if c == '.' {
        Some(Point { x: 13, y: 2 })
    } else if c == '°' {
        Some(Point { x: 15, y: 2 })
    } else if c == ' ' {
        Some(Point { x: 12, y: 2 })
    } else if 48 <= n && n <= 57 {
        Some(Point { x: (n - 48) as u16, y: 0 })
    } else if 97 <= n && n <= 102 {
        Some(Point { x: (n - 97 + 10) as u16, y: 0 })
    } else if 103 <= n && n <= 118 {
        Some(Point { x: (n - 103) as u16, y: 1 })
    } else if 119 <= n && n <= 122 {
        Some(Point { x: (n - 119) as u16, y: 2 })
    } else if 65 <= n && n <= 76 {
        Some(Point { x: (n - 65 + 4) as u16, y: 2 })
    } else {
        None
    }
}

/// The tile of a cell without a wall: a dot, a superball, or the empty tile.
pub open spec fn spec_space_tile(space: Space) -> Point {
    match space {
        Space::Point => Point { x: 13, y: 2 },
        Space::Superball => Point { x: 15, y: 2 },
        _ => Point { x: 12, y: 2 },
    }
}

/// Draws a cell at screen position `pos`.
pub fn draw_space<'a>(walls: &'a Tileset, pos: Point, space: Space) -> (op: DrawOp<'a>)
    requires
        walls.tile_ok(spec_space_tile(space)),
    ensures
        is_image(op, walls.tile_pixels(spec_space_tile(space)), pos, (walls.tile_size, walls.tile_size), 1, false),
{
    let tile_pos = match space {
        Space::Point => get_tile_position('.'),
        Space::Superball => get_tile_position('°'),
        _ => get_tile_position(' '),
    };
    let t = match tile_pos {
        Some(t) => t,
        None => Point { x: 12, y: 2 },
    };
    walls.draw_tile(pos, t, 1, false)
}

/// Draws fruit `fruit_type` at cell `grid_pos`, raised by half a cell.
pub fn draw_fruit<'a>(sprites: &'a Tileset, grid_pos: Point, fruit_type: u8) -> (op: DrawOp<'a>)
    requires
        abs_ok(grid_pos),
        grid_pos.y >= 1,
        sprites.tile_ok(Point { x: fruit_type as u16, y: 8 }),
    ensures
        is_image(op, sprites.tile_pixels(Point { x: fruit_type as u16, y: 8 }), Point { x: spec_abs_from_pos(grid_pos).x, y: (spec_abs_from_pos(grid_pos).y - TILE_SIZE / 2) as u16 }, (sprites.tile_size, sprites.tile_size), 1, true),
{
    let tile_pos = Point { x: fruit_type as u16, y: 8 };
    let mut abs_pos = abs_from_pos(grid_pos);
    abs_pos.y = abs_pos.y - TILE_SIZE / 2;
    sprites.draw_tile(abs_pos, tile_pos, 1, true)
}

/// Black masks beside the maze at the height of the tunnel, which hide
/// sprites that wrap around.
pub fn clear_potential_wrapping_stuff<'a>() -> (ops: [DrawOp<'a>; 2])
    ensures
        ops[0] == (DrawOp::FillRect { rect: Rect { x: 32, y: 88, width: 16, height: 32 }, color: Color { rgb565: Color::BLACK_RGB565 } }),
        ops[1] == (DrawOp::FillRect { rect: Rect { x: 272, y: 88, width: 16, height: 32 }, color: Color { rgb565: Color::BLACK_RGB565 } }),
{
    [
        DrawOp::FillRect {
            rect: Rect { x: X_GRID_OFFSET - TILE_SIZE * 2, y: 11 * TILE_SIZE, width: TILE_SIZE * 2, height: TILE_SIZE * 4 },
            color: Color::black(),
        },
        DrawOp::FillRect {
            rect: Rect { x: X_GRID_OFFSET + GRID_WIDTH * TILE_SIZE, y: 11 * TILE_SIZE, width: TILE_SIZE * 2, height: TILE_SIZE * 4 },
            color: Color::black(),
        },
    ]
}

/// A text to write, held with its position and colors.
pub struct TextLabel {
    pub text: heapless::String<6>,
    pub pos: Point,
    pub large: bool,
    pub text_color: Color,
    pub background: Color,
}

/// The score, written small in white on black in the upper left corner.
pub fn draw_score(score: u16) -> (l: TextLabel)
    ensures
        string6_view(l.text) == decimal(score as nat).push('\0'),
        l.pos == (Point { x: 0, y: 0 }),
        !l.large,
        l.text_color.rgb565 == Color::WHITE_RGB565,
        l.background.rgb565 == Color::BLACK_RGB565,
{
    TextLabel { text: string_from_u16(score), pos: Point { x: 0, y: 0 }, large: false, text_color: Color::white(), background: Color::black() }
}

/// The picture of the launcher: a blue frame around black, a row of dots
/// ending with a superball, Blinky chasing Pac-Man, a cherry, and a
/// frightened Inky.
pub fn thumbnail<'a>(sprites: &'a Tileset, walls: &'a Tileset) -> (ops: [DrawOp<'a>; 12])
    requires
        sprites.tile_ok(Point { x: 0, y: 4 }),
        sprites.tile_ok(Point { x: 1, y: 0 }),
        sprites.tile_ok(Point { x: 0, y: 8 }),
        sprites.tile_ok(Point { x: 2, y: 2 }),
        walls.tile_ok(Point { x: 13, y: 2 }),
        walls.tile_ok(Point { x: 15, y: 2 }),
    ensures
        ops[0] == (DrawOp::FillRect { rect: Rect { x: 85, y: 15, width: 150, height: 100 }, color: Color { rgb565: Color::BLUE_RGB565 } }),
        ops[1] == (DrawOp::FillRect { rect: Rect { x: 88, y: 18, width: 144, height: 94 }, color: Color { rgb565: Color::BLACK_RGB565 } }),
        forall|k: int|
            0 <= k < 5 ==> is_image(
                #[trigger] ops[2 + k],
                walls.tile_pixels(Point { x: 13, y: 2 }),
                Point { x: ((13 + k) * TILE_SIZE + X_GRID_OFFSET) as u16, y: (8 * TILE_SIZE) as u16 },
                (walls.tile_size, walls.tile_size),
                1,
                false,
            ),
        is_image(ops[7], walls.tile_pixels(Point { x: 15, y: 2 }), Point { x: (18 * TILE_SIZE + X_GRID_OFFSET) as u16, y: (8 * TILE_SIZE) as u16 }, (walls.tile_size, walls.tile_size), 1, false),
        is_image(
            ops[8],
            sprites.tile_pixels(spec_ghost_tile(0, Direction::Right, GhostType::Blinky, MovementMode::Chase)),
            spec_sprite_pos(spec_ghost_corner(Point { x: 8, y: 8 }, HouseState::Outside), 0, Direction::Right),
            (sprites.tile_size, sprites.tile_size),
            1,
            true,
        ),
        is_image(
            ops[9],
            sprites.tile_pixels(spec_player_tile(2, Direction::Right)),
            spec_sprite_pos(spec_abs_from_pos(Point { x: 11, y: 8 }), 0, Direction::Right),
            (sprites.tile_size, sprites.tile_size),
            1,
            true,
        ),
        is_image(
            ops[10],
            sprites.tile_pixels(Point { x: 0, y: 8 }),
            Point { x: spec_abs_from_pos(Point { x: 14, y: 8 }).x, y: (spec_abs_from_pos(Point { x: 14, y: 8 }).y - TILE_SIZE / 2) as u16 },
            (sprites.tile_size, sprites.tile_size),
            1,
            true,
        ),
        is_image(
            ops[11],
            sprites.tile_pixels(spec_ghost_tile(0, Direction::Left, GhostType::Inky, MovementMode::Frightened)),
            spec_sprite_pos(spec_ghost_corner(Point { x: 19, y: 8 }, HouseState::Outside), 0, Direction::Left),
            (sprites.tile_size, sprites.tile_size),
            1,
            true,
        ),
        sprites.tile_size == 16 && walls.tile_size == 8 ==> forall|k: int| 0 <= k < 12 ==> op_within(
            #[trigger] ops[k],
            Rect { x: 85, y: 15, width: 150, height: 100 },
        ),
{
    let row: u16 = 8 * TILE_SIZE;
    let ops = [
        DrawOp::FillRect { rect: Rect { x: 85, y: 15, width: 150, height: 100 }, color: Color::blue() },
        DrawOp::FillRect { rect: Rect { x: 88, y: 18, width: 144, height: 94 }, color: Color::black() },
        draw_space(walls, Point { x: 13 * TILE_SIZE + X_GRID_OFFSET, y: row }, Space::Point),
        draw_space(walls, Point { x: 14 * TILE_SIZE + X_GRID_OFFSET, y: row }, Space::Point),
        draw_space(walls, Point { x: 15 * TILE_SIZE + X_GRID_OFFSET, y: row }, Space::Point),
        draw_space(walls, Point { x: 16 * TILE_SIZE + X_GRID_OFFSET, y: row }, Space::Point),
        draw_space(walls, Point { x: 17 * TILE_SIZE + X_GRID_OFFSET, y: row }, Space::Point),
        draw_space(walls, Point { x: 18 * TILE_SIZE + X_GRID_OFFSET, y: row }, Space::Superball),
        draw_ghost(sprites, Point { x: 8, y: 8 }, 0, &Direction::Right, 0, false, &GhostType::Blinky, HouseState::Outside, &MovementMode::Chase),
        draw_player(sprites, Point { x: 11, y: 8 }, 0, &Direction::Right, 2, false),
        draw_fruit(sprites, Point { x: 14, y: 8 }, 0),
        draw_ghost(sprites, Point { x: 19, y: 8 }, 0, &Direction::Left, 0, false, &GhostType::Inky, HouseState::Outside, &MovementMode::Frightened),
    ];
    proof {
        if sprites.tile_size == 16 && walls.tile_size == 8 {
            let frame = Rect { x: 85, y: 15, width: 150, height: 100 };
            assert(op_within(ops[0], frame));
            assert(op_within(ops[1], frame));
            assert(op_within(ops[2], frame));
            assert(op_within(ops[3], frame));
            assert(op_within(ops[4], frame));
            assert(op_within(ops[5], frame));
            assert(op_within(ops[6], frame));
            assert(op_within(ops[7], frame));
            assert(op_within(ops[8], frame));
            assert(op_within(ops[9], frame));
            assert(op_within(ops[10], frame));
            assert(op_within(ops[11], frame));
            assert forall|k: int| 0 <= k < 12 implies op_within(#[trigger] ops[k], frame) by {
                if k == 0 {} else if k == 1 {} else if k == 2 {} else if k == 3 {} else if k == 4 {} else if k == 5 {}
                else if k == 6 {} else if k == 7 {} else if k == 8 {} else if k == 9 {} else if k == 10 {} else {}
            }
        }
    }
    ops
}

} // verus!
