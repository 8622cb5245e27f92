//! The maze file: one text line per maze row, one character per cell.

use vstd::prelude::*;
use vstd::string::*;

use crate::eadk::Point;
use crate::graphical::tiling::Tileset;
use crate::graphical::{is_image, DrawOp};
use crate::pacman::game::{Grid, Space, TILE_SIZE, X_GRID_OFFSET};
use crate::pacman::pac_ui::{draw_space, get_tile_position, spec_space_tile, spec_tile_position};

verus! {

/// The cell a maze file character stands for: `.` a dot, `°` a superball,
/// a space an empty cell, anything else a wall.
pub open spec fn spec_cell_of(c: char) -> Space {
    if c == '.' {
        Space::Point
    } else if c == '°' {
        Space::Superball
    } else if c == ' ' {
        Space::Empty
    } else {
        Space::Wall
    }
}

/// The cell a maze file character stands for.
pub fn cell_of(c: char) -> (s: Space)
    ensures
        s == spec_cell_of(c),
{
    if c == '.' {
        Space::Point
    } else if c == '°' {
        Space::Superball
    } else if c == ' ' {
        Space::Empty
    } else {
        Space::Wall
    }
}

/// Index of the first character of the text line holding position `p`.
pub open spec fn line_start(s: Seq<char>, p: int) -> int
    decreases p,
{
    if p <= 0 {
        0
    } else if s[p - 1] == '\n' {
        p
    } else {
        line_start(s, p - 1)
    }
}

/// A carriage return ending a line (before a line feed or at the end of
/// the text) is not part of the line.
pub open spec fn dropped_cr(s: Seq<char>, p: int) -> bool {
    s[p] == '\r' && (p + 1 == s.len() || s[p + 1] == '\n')
}

/// Number of characters of the line ended by the line feed at `q`,
/// without a carriage return that ends it.
pub open spec fn kept_len(s: Seq<char>, q: int) -> int {
    let a = line_start(s, q);
    if q > a && s[q - 1] == '\r' {
        q - a - 1
    } else {
        q - a
    }
}

/// Number of non-empty lines ended before position `p`: the row of the
/// maze that the characters at `p` fill.
pub open spec fn rows_before(s: Seq<char>, p: int) -> int
    decreases p,
{
    if p <= 0 {
        0
    } else if s[p - 1] == '\n' && kept_len(s, p - 1) > 0 {
        rows_before(s, p - 1) + 1
    } else {
        rows_before(s, p - 1)
    }
}

/// The maze described by the first `n` characters of a maze file: every
/// character of a line (but line feeds and line-ending carriage returns)
/// sets the cell at its column in the row of its line, for the first 30
/// non-empty lines and 28 columns; other cells are empty.
pub open spec fn maze_of(s: Seq<char>, n: int) -> Seq<Space>
    decreases n,
{
    if n <= 0 {
        Seq::new(840, |i: int| Space::Empty)
    } else {
        let p = n - 1;
        let prev = maze_of(s, p);
        let row = rows_before(s, p);
        let col = p - line_start(s, p);
        if s[p] != '\n' && !dropped_cr(s, p) && row < 30 && col < 28 {
            prev.update(row * 28 + col, spec_cell_of(s[p]))
        } else {
            prev
        }
    }
}

/// The maze described by a maze file.
pub fn read_file(maze_file: &str) -> (grid: Grid)
    ensures
        grid@ == maze_of(maze_file@, maze_file@.len() as int),
{
    let n: usize = maze_file.unicode_len();
    let mut grid: Grid = [Space::Empty; 840];
    let mut line: usize = 0;
    let mut start: usize = 0;
    let mut i: usize = 0;
    assert(grid@ =~= maze_of(maze_file@, 0));
    while i < n
        invariant
            n == maze_file@.len(),
            i <= n,
            start <= i,
            start == line_start(maze_file@, i as int),
            line == rows_before(maze_file@, i as int),
            line <= i,
            grid@ == maze_of(maze_file@, i as int),
        decreases n - i,
    {
        let c = maze_file.get_char(i);
        if c == '\n' {
            let ends_with_cr: bool = i > start && maze_file.get_char(i - 1) == '\r';
            let kept: usize = if ends_with_cr { i - start - 1 } else { i - start };
            if kept > 0 {
                line += 1;
            }
            start = i + 1;
        } else if c == '\r' && (i + 1 == n || maze_file.get_char(i + 1) == '\n') {
        } else {
            let col: usize = i - start;
            if line < 30 && col < 28 {
                grid[line * 28 + col] = cell_of(c);
            }
        }
        i += 1;
    }
    grid
}

/// Whether the character at `p` of a maze file is a cell of the maze: part
/// of one of the first 30 non-empty lines, among its first 28 characters.
pub open spec fn placed(s: Seq<char>, p: int) -> bool {
    s[p] != '\n' && !dropped_cr(s, p) && rows_before(s, p) < 30 && p - line_start(s, p) < 28
}

/// Number of maze cells among the characters before `p`.
pub open spec fn placed_before(s: Seq<char>, p: int) -> int
    decreases p,
{
    if p <= 0 {
        0
    } else if placed(s, p - 1) {
        placed_before(s, p - 1) + 1
    } else {
        placed_before(s, p - 1)
    }
}

/// The wall tile drawn for a maze file character, the empty tile for an unknown one.
pub open spec fn tile_or_empty(c: char) -> Point {
    match spec_tile_position(c) {
        Some(t) => t,
        None => Point { x: 12, y: 2 },
    }
}

/// The wall tiles of the maze cells described by the first `n` characters
/// of a maze file, stored one after the other in the order of the file;
/// other entries hold the empty tile.
pub open spec fn tile_cache_of(s: Seq<char>, n: int) -> Seq<Point>
    decreases n,
{
    if n <= 0 {
        Seq::new(840, |i: int| Point { x: 12, y: 2 })
    } else {
        let p = n - 1;
        let prev = tile_cache_of(s, p);
        if placed(s, p) {
            prev.update(placed_before(s, p), tile_or_empty(s[p]))
        } else {
            prev
        }
    }
}

/// Number of characters of the current line before `p` that belong to the
/// line (a line-ending carriage return does not).
pub open spec fn kept_so_far(s: Seq<char>, p: int) -> int {
    let a = line_start(s, p);
    if p > a && dropped_cr(s, p - 1) {
        p - a - 1
    } else {
        p - a
    }
}

/// At most 28 cells of each of 30 rows are placed.
proof fn lemma_placed_bound(s: Seq<char>, p: int)
    requires
        0 <= p <= s.len(),
    ensures
        line_start(s, p) <= p,
        rows_before(s, p) < 30 ==> placed_before(s, p) <= 28 * rows_before(s, p) + if kept_so_far(s, p) < 28 {
            kept_so_far(s, p)
        } else {
            28
        },
        rows_before(s, p) >= 30 ==> placed_before(s, p) <= 840,
    decreases p,
{
    if p > 0 {
        lemma_placed_bound(s, p - 1);
        let q = p - 1;
        if q > line_start(s, q) && dropped_cr(s, q - 1) {
            assert(s[q] == '\n');
        }
    }
}

/// The wall tiles of the maze, computed once from the maze file: the tile of
/// each maze cell's character, in the order of the file.
pub fn maze_tile_cache(maze_file: &str) -> (cache: [Point; 840])
    ensures
        cache@ == tile_cache_of(maze_file@, maze_file@.len() as int),
{
    let n: usize = maze_file.unicode_len();
    let mut cache: [Point; 840] = [Point { x: 12, y: 2 }; 840];
    let mut index: usize = 0;
    let mut line: usize = 0;
    let mut start: usize = 0;
    let mut i: usize = 0;
    assert(cache@ =~= tile_cache_of(maze_file@, 0));
    while i < n
        invariant
            n == maze_file@.len(),
            i <= n,
            start <= i,
            start == line_start(maze_file@, i as int),
            line == rows_before(maze_file@, i as int),
            line <= i,
            index == placed_before(maze_file@, i as int),
            cache@ == tile_cache_of(maze_file@, i as int),
        decreases n - i,
    {
        proof {
            lemma_placed_bound(maze_file@, i as int);
        }
        let c = maze_file.get_char(i);
        if c == '\n' {
            let ends_with_cr: bool = i > start && maze_file.get_char(i - 1) == '\r';
            let kept: usize = if ends_with_cr { i - start - 1 } else { i - start };
            if kept > 0 {
                line += 1;
            }
            start = i + 1;
        } else if c == '\r' && (i + 1 == n || maze_file.get_char(i + 1) == '\n') {
        } else if line < 30 && i - start < 28 {
            let t = match get_tile_position(c) {
                Some(t) => t,
                None => Point { x: 12, y: 2 },
            };
            cache[index] = t;
            index += 1;
        }
        i += 1;
    }
    cache
}

/// Screen position of maze cell `(col, line)`.
pub open spec fn cell_screen_pos(col: int, line: int) -> Point {
    Point { x: (col * TILE_SIZE + X_GRID_OFFSET) as u16, y: (line * TILE_SIZE) as u16 }
}

/// Draws the walls of the whole maze from its tile cache, row by row.
pub fn draw_maze<'a>(walls: &'a Tileset, cache: &[Point; 840]) -> (ops: Vec<DrawOp<'a>>)
    requires
        forall|i: int| 0 <= i < 840 ==> walls.tile_ok(#[trigger] cache@[i]),
    ensures
        ops@.len() == 840,
        forall|i: int|
            0 <= i < 840 ==> is_image(
                #[trigger] ops@[i],
                walls.tile_pixels(cache@[i]),
                cell_screen_pos(i % 28, i / 28),
                (walls.tile_size, walls.tile_size),
                1,
                false,
            ),
{
    let mut ops: Vec<DrawOp<'a>> = Vec::new();
    let mut line: usize = 0;
    while line < 30
        invariant
            line <= 30,
            ops@.len() == line * 28,
            forall|i: int| 0 <= i < 840 ==> walls.tile_ok(#[trigger] cache@[i]),
            forall|i: int|
                0 <= i < line * 28 ==> is_image(
                    #[trigger] ops@[i],
                    walls.tile_pixels(cache@[i]),
                    cell_screen_pos(i % 28, i / 28),
                    (walls.tile_size, walls.tile_size),
                    1,
                    false,
                ),
        decreases 30 - line,
    {
        let mut col: usize = 0;
        while col < 28
            invariant
                line < 30,
                col <= 28,
                ops@.len() == line * 28 + col,
                forall|i: int| 0 <= i < 840 ==> walls.tile_ok(#[trigger] cache@[i]),
                forall|i: int|
                    0 <= i < line * 28 + col ==> is_image(
                        #[trigger] ops@[i],
                        walls.tile_pixels(cache@[i]),
                        cell_screen_pos(i % 28, i / 28),
                        (walls.tile_size, walls.tile_size),
                        1,
                        false,
                    ),
            decreases 28 - col,
        {
            let pos = Point { x: col as u16 * TILE_SIZE + X_GRID_OFFSET, y: line as u16 * TILE_SIZE };
            let tile_pos = cache[line * 28 + col];
            let op = walls.draw_tile(pos, tile_pos, 1, false);
            proof {
                let k = (line * 28 + col) as int;
                assert(k % 28 == col as int && k / 28 == line as int);
            }
            ops.push(op);
            col += 1;
        }
        line += 1;
    }
    ops
}

/// The maze cell at `v + d`, clamped to `[0, n)`.
pub open spec fn clamp_cell(v: int, d: int, n: int) -> int {
    if v + d < 0 {
        0
    } else if v + d > n - 1 {
        n - 1
    } else {
        v + d
    }
}

/// What is drawn to restore maze cell `idx` at screen position `pos`: its
/// wall tile, or the tile of what lies there.
pub open spec fn restores(op: DrawOp, walls: &Tileset, pos: Point, space: Space, wall_tile: Point) -> bool {
    if space == Space::Wall {
        is_image(op, walls.tile_pixels(wall_tile), pos, (walls.tile_size, walls.tile_size), 1, false)
    } else {
        is_image(op, walls.tile_pixels(spec_space_tile(space)), pos, (walls.tile_size, walls.tile_size), 1, false)
    }
}

/// Redraws the maze cells around a ghost or Pac-Man at cell `pos` (the
/// 3 x 3 block around it, clamped to the maze), row by row.
pub fn clear_moveable<'a>(walls: &'a Tileset, pos: Point, grid: &Grid, cache: &[Point; 840]) -> (ops: Vec<DrawOp<'a>>)
    requires
        pos.x < 28 && pos.y < 30,
        forall|i: int| 0 <= i < 840 ==> walls.tile_ok(#[trigger] cache@[i]),
        walls.tile_ok(Point { x: 12, y: 2 }),
        walls.tile_ok(Point { x: 13, y: 2 }),
        walls.tile_ok(Point { x: 15, y: 2 }),
    ensures
        ops@.len() == 9,
        forall|j: int|
            0 <= j < 9 ==> ({
                let cx = clamp_cell(pos.x as int, j % 3 - 1, 28);
                let cy = clamp_cell(pos.y as int, j / 3 - 1, 30);
                restores(#[trigger] ops@[j], walls, cell_screen_pos(cx, cy), grid@[cy * 28 + cx], cache@[cy * 28 + cx])
            }),
{
    let mut ops: Vec<DrawOp<'a>> = Vec::new();
    let mut dy: i16 = -1;
    while dy <= 1
        invariant
            -1 <= dy <= 2,
            pos.x < 28 && pos.y < 30,
            ops@.len() == (dy + 1) * 3,
            forall|i: int| 0 <= i < 840 ==> walls.tile_ok(#[trigger] cache@[i]),
            walls.tile_ok(Point { x: 12, y: 2 }),
            walls.tile_ok(Point { x: 13, y: 2 }),
            walls.tile_ok(Point { x: 15, y: 2 }),
            forall|j: int|
                0 <= j < (dy + 1) * 3 ==> ({
                    let cx = clamp_cell(pos.x as int, j % 3 - 1, 28);
                    let cy = clamp_cell(pos.y as int, j / 3 - 1, 30);
                    restores(#[trigger] ops@[j], walls, cell_screen_pos(cx, cy), grid@[cy * 28 + cx], cache@[cy * 28 + cx])
                }),
        decreases 2 - dy,
    {
        let mut dx: i16 = -1;
        while dx <= 1
            invariant
                -1 <= dy <= 1,
                -1 <= dx <= 2,
                pos.x < 28 && pos.y < 30,
                ops@.len() == (dy + 1) * 3 + dx + 1,
                forall|i: int| 0 <= i < 840 ==> walls.tile_ok(#[trigger] cache@[i]),
                walls.tile_ok(Point { x: 12, y: 2 }),
                walls.tile_ok(Point { x: 13, y: 2 }),
                walls.tile_ok(Point { x: 15, y: 2 }),
                forall|j: int|
                    0 <= j < (dy + 1) * 3 + dx + 1 ==> ({
                        let cx = clamp_cell(pos.x as int, j % 3 - 1, 28);
                        let cy = clamp_cell(pos.y as int, j / 3 - 1, 30);
                        restores(#[trigger] ops@[j], walls, cell_screen_pos(cx, cy), grid@[cy * 28 + cx], cache@[cy * 28 + cx])
                    }),
            decreases 2 - dx,
        {
            let x: i16 = pos.x as i16 + dx;
            let y: i16 = pos.y as i16 + dy;
            let tx: u16 = if x < 0 { 0 } else if x > 27 { 27 } else { x as u16 };
            let ty: u16 = if y < 0 { 0 } else if y > 29 { 29 } else { y as u16 };
            let tile_pixel_pos = Point { x: tx * TILE_SIZE + X_GRID_OFFSET, y: ty * TILE_SIZE };
            let idx: usize = (tx + ty * 28) as usize;
            let op = match grid[idx] {
                Space::Wall => walls.draw_tile(tile_pixel_pos, cache[idx], 1, false),
                space => draw_space(walls, tile_pixel_pos, space),
            };
            proof {
                let j = (dy + 1) * 3 + dx + 1;
                assert(j % 3 - 1 == dx && j / 3 - 1 == dy);
            }
            ops.push(op);
            dx += 1;
        }
        dy += 1;
    }
    ops
}

} // verus!
