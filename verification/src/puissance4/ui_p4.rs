//! What Connect Four puts on the screen: the grid, the coins, the coin
//! above the grid that the player moves, and the winning line.

use vstd::prelude::*;

use crate::eadk::{rgb565_of, Color, Point, Rect};
use crate::graphical::{draw_centered_string, fill_screen, is_image, screen_rect, DrawOp, ColorConfig};
use crate::utils::{centered_x, text_width};
use crate::graphical::tiling::Tileset;
use crate::puissance4::game_p4::{Alignment, MAX_HEIGHT_SIZE, MAX_PLAYERS, MAX_WIDTH_SIZE};

verus! {

/// Side of a coin, in pixels.
pub const COIN_SIZE: u16 = 21;

/// Left edge of the first column: the grid is centered for three players.
pub const LEFT_POS: u16 = 73;

/// Top edge of the grid.
pub const UP_POS: u16 = 60;

/// The screen position of the cell `(x, y)`, rows counted from the bottom.
pub open spec fn coin_pos(x: u16, y: u16) -> Point {
    Point { x: (LEFT_POS + (COIN_SIZE + 4) * x) as u16, y: (UP_POS + (COIN_SIZE + 2) * (5 - y)) as u16 }
}

/// Draws the coin of player `color` in cell `(x, y)`, highlighted when it belongs to the winning line.
pub fn draw_coin<'a>(coins: &'a Tileset, x: u16, y: u16, color: u16, c: &ColorConfig, vic: bool) -> (op: DrawOp<'a>)
    requires
        y <= 5,
        LEFT_POS + (COIN_SIZE + 4) * x <= u16::MAX,
        coins.tile_ok(Point { x: if vic { 1 } else { 0 }, y: color }),
    ensures
        is_image(op, coins.tile_pixels(Point { x: if vic { 1 } else { 0 }, y: color }), coin_pos(x, y), (coins.tile_size, coins.tile_size), 1, true),
{
    coins.draw_tile(
        Point { x: LEFT_POS + (COIN_SIZE + 4) * x, y: UP_POS + (COIN_SIZE + 2) * (5 - y) },
        Point { x: if vic { 1 } else { 0 }, y: color },
        1,
        true,
    )
}

/// Color of the empty cells: dark gray on a dark background, light gray on a light one.
pub open spec fn hole_color(c: ColorConfig) -> Color {
    if c.bckgrd.rgb565 < 0x7BEF {
        Color { rgb565: rgb565_of(50, 50, 50) as u16 }
    } else {
        Color { rgb565: rgb565_of(200, 200, 200) as u16 }
    }
}

/// Number of columns drawn with `players` players.
pub open spec fn grid_columns(players: u8) -> int {
    MAX_WIDTH_SIZE - (MAX_PLAYERS - players)
}

/// The frame of the grid, in the text color.
pub open spec fn frame_rect(players: u8) -> Rect {
    Rect { x: (LEFT_POS - 4) as u16, y: (UP_POS - 4) as u16, width: ((COIN_SIZE + 4) * grid_columns(players) + 4) as u16, height: ((COIN_SIZE + 2) * 6 + 6) as u16 }
}

/// The rectangle behind column `x`, in the background color.
pub open spec fn column_rect(x: int) -> Rect {
    Rect { x: (LEFT_POS + (COIN_SIZE + 4) * x - 1) as u16, y: (UP_POS - 4) as u16, width: (COIN_SIZE + 2) as u16, height: ((COIN_SIZE + 2) * 6 + 3) as u16 }
}

/// The empty cell `(x, y)`.
pub open spec fn hole_rect(x: int, y: int) -> Rect {
    Rect { x: (LEFT_POS + (COIN_SIZE + 4) * x) as u16, y: (UP_POS + (COIN_SIZE + 2) * (5 - y)) as u16, width: COIN_SIZE, height: COIN_SIZE }
}

/// Draws the empty grid: the background, the frame in the text color, and
/// for each column its background and its six empty cells.
pub fn draw_grid<'a>(players: u8, c: &ColorConfig) -> (ops: Vec<DrawOp<'a>>)
    requires
        players as int <= MAX_PLAYERS,
    ensures
        ops@.len() == 2 + 7 * grid_columns(players),
        ops@[0] == (DrawOp::FillRect { rect: screen_rect(), color: c.bckgrd }),
        ops@[1] == (DrawOp::FillRect {
            rect: frame_rect(players),
            color: c.text,
        }),
        forall|x: int| 0 <= x < grid_columns(players) ==> #[trigger] ops@[2 + 7 * x] == (DrawOp::FillRect { rect: column_rect(x), color: c.bckgrd }),
        forall|x: int, y: int| 0 <= x < grid_columns(players) && 0 <= y < 6 ==> #[trigger] ops@[2 + 7 * x + 1 + y] == (DrawOp::FillRect { rect: hole_rect(x, y), color: hole_color(*c) }),
{
    let columns: u16 = MAX_WIDTH_SIZE as u16 - (MAX_PLAYERS - players as usize) as u16;
    assert((COIN_SIZE + 4) * columns + 4 <= u16::MAX) by (nonlinear_arith)
        requires
            columns <= 8,
    ;
    let hole: Color = if c.bckgrd.rgb565 < 0x7BEF { Color::from_rgb888(50, 50, 50) } else { Color::from_rgb888(200, 200, 200) };
    let mut ops: Vec<DrawOp<'a>> = Vec::new();
    ops.push(fill_screen(c.bckgrd));
    ops.push(DrawOp::FillRect {
        rect: Rect { x: LEFT_POS - 4, y: UP_POS - 4, width: (COIN_SIZE + 4) * columns + 4, height: (COIN_SIZE + 2) * 6 + 6 },
        color: c.text,
    });
    let mut x: u16 = 0;
    while x < columns
        invariant
            columns == grid_columns(players),
            columns <= 8,
            x <= columns,
            hole == hole_color(*c),
            ops@.len() == 2 + 7 * x,
            ops@[0] == (DrawOp::FillRect { rect: screen_rect(), color: c.bckgrd }),
            ops@[1] == (DrawOp::FillRect {
                rect: frame_rect(players),
                color: c.text,
            }),
            forall|xx: int| 0 <= xx < x ==> #[trigger] ops@[2 + 7 * xx] == (DrawOp::FillRect { rect: column_rect(xx), color: c.bckgrd }),
            forall|xx: int, y: int| 0 <= xx < x && 0 <= y < 6 ==> #[trigger] ops@[2 + 7 * xx + 1 + y] == (DrawOp::FillRect { rect: hole_rect(xx, y), color: hole_color(*c) }),
        decreases columns - x,
    {
        let ghost before = ops@;
        let left: u16 = LEFT_POS + (COIN_SIZE + 4) * x;
        ops.push(DrawOp::FillRect {
            rect: Rect { x: left - 1, y: UP_POS - 4, width: COIN_SIZE + 2, height: (COIN_SIZE + 2) * 6 + 3 },
            color: c.bckgrd,
        });
        let mut y: u16 = 0;
        while y < 6
            invariant
                x < columns,
                columns <= 8,
                left == LEFT_POS + (COIN_SIZE + 4) * x,
                y <= 6,
                hole == hole_color(*c),
                ops@.len() == 2 + 7 * x + 1 + y,
                forall|i: int| 0 <= i < before.len() ==> ops@[i] == before[i],
                before.len() == 2 + 7 * x,
                ops@[2 + 7 * x] == (DrawOp::FillRect { rect: column_rect(x as int), color: c.bckgrd }),
                forall|yy: int| 0 <= yy < y ==> #[trigger] ops@[2 + 7 * x + 1 + yy] == (DrawOp::FillRect { rect: hole_rect(x as int, yy), color: hole_color(*c) }),
            decreases 6 - y,
        {
            let row: u16 = 5 - y;
            let top: u16 = UP_POS + (COIN_SIZE + 2) * row;
            ops.push(DrawOp::FillRect {
                rect: Rect { x: left, y: top, width: COIN_SIZE, height: COIN_SIZE },
                color: hole,
            });
            y += 1;
        }
        proof {
            assert forall|xx: int| 0 <= xx < x + 1 implies #[trigger] ops@[2 + 7 * xx] == (DrawOp::FillRect { rect: column_rect(xx), color: c.bckgrd }) by {
                if xx < x {
                    assert(2 + 7 * xx < before.len());
                    assert(ops@[2 + 7 * xx] == before[2 + 7 * xx]);
                }
            }
            assert forall|xx: int, yy: int| 0 <= xx < x + 1 && 0 <= yy < 6 implies #[trigger] ops@[2 + 7 * xx + 1 + yy] == (DrawOp::FillRect { rect: hole_rect(xx, yy), color: hole_color(*c) }) by {
                if xx < x {
                    assert(2 + 7 * xx + 1 + yy < before.len());
                    assert(ops@[2 + 7 * xx + 1 + yy] == before[2 + 7 * xx + 1 + yy]);
                }
            }
        }
        x += 1;
    }
    ops
}

/// Draws the coin of player `color` above column `x`, raised or lowered by `y_offset` pixels.
pub fn draw_selection_coin<'a>(coins: &'a Tileset, x: u16, color: u16, c: &ColorConfig, y_offset: i16) -> (op: DrawOp<'a>)
    requires
        LEFT_POS + (COIN_SIZE + 4) * x <= u16::MAX,
        y_offset <= i16::MAX - (UP_POS - COIN_SIZE - 4),
        coins.tile_ok(Point { x: 0, y: color }),
    ensures
        is_image(op, coins.tile_pixels(Point { x: 0, y: color }), Point { x: (LEFT_POS + (COIN_SIZE + 4) * x) as u16, y: ((UP_POS - COIN_SIZE - 4) + y_offset) as u16 }, (coins.tile_size, coins.tile_size), 1, true),
{
    let top: i16 = (UP_POS - COIN_SIZE - 4) as i16 + y_offset;
    coins.draw_tile(Point { x: LEFT_POS + (COIN_SIZE + 4) * x, y: top as u16 }, Point { x: 0, y: color }, 1, true)
}

/// Erases the coin above column `x`.
pub fn clear_selection_coin<'a>(x: u16, c: &ColorConfig) -> (op: DrawOp<'a>)
    requires
        LEFT_POS + (COIN_SIZE + 4) * x <= u16::MAX,
    ensures
        op == (DrawOp::FillRect {
            rect: Rect { x: (LEFT_POS + (COIN_SIZE + 4) * x) as u16, y: (UP_POS - COIN_SIZE - 4) as u16, width: COIN_SIZE, height: COIN_SIZE },
            color: c.bckgrd,
        }),
{
    DrawOp::FillRect {
        rect: Rect { x: LEFT_POS + (COIN_SIZE + 4) * x, y: UP_POS - COIN_SIZE - 4, width: COIN_SIZE, height: COIN_SIZE },
        color: c.bckgrd,
    }
}

/// Color of player `i` (counted from 0): blue, red, then amber.
pub open spec fn spec_players_color(i: int) -> Color {
    if i == 0 {
        Color { rgb565: Color::BLUE_RGB565 }
    } else if i == 1 {
        Color { rgb565: Color::RED_RGB565 }
    } else {
        Color { rgb565: rgb565_of(250, 200, 0) as u16 }
    }
}

/// Color of player `i` (counted from 0): blue, red, then amber.
pub fn players_colors(i: u8) -> (c: Color)
    requires
        i < 3,
    ensures
        c == spec_players_color(i as int),
{
    if i == 0 {
        Color { rgb565: Color::BLUE_RGB565 }
    } else if i == 1 {
        Color { rgb565: Color::RED_RGB565 }
    } else {
        Color::from_rgb888(250, 200, 0)
    }
}

/// First cell of an alignment.
pub open spec fn align_from(a: Alignment) -> (u16, u16) {
    a.1
}

/// Last cell of an alignment.
pub open spec fn align_to(a: Alignment) -> (u16, u16) {
    a.2
}

/// The cells of a winning line from its first cell to its last: a column,
/// a row, or a diagonal going up or down.
pub open spec fn victory_cells(a: Alignment) -> Seq<(u16, u16)> {
    let p1 = align_from(a);
    let p2 = align_to(a);
    let xl: int = if p2.0 >= p1.0 { p2.0 - p1.0 + 1 } else { 0 };
    let y_lo: int = if p1.1 <= p2.1 { p1.1 as int } else { p2.1 as int };
    let y_hi: int = if p1.1 <= p2.1 { p2.1 as int } else { p1.1 as int };
    let yl: int = y_hi - y_lo + 1;
    if xl == 1 {
        Seq::new(yl as nat, |i: int| (p1.0, (y_lo + i) as u16))
    } else if yl == 1 {
        Seq::new(xl as nat, |i: int| ((p1.0 + i) as u16, p1.1))
    } else {
        let n: int = if xl < yl { xl } else { yl };
        if p1.1 <= p2.1 {
            Seq::new(n as nat, |i: int| ((p1.0 + i) as u16, (y_lo + i) as u16))
        } else {
            Seq::new(n as nat, |i: int| ((p1.0 + i) as u16, (y_hi - i) as u16))
        }
    }
}

/// The winning line can be drawn: a player of the three, its cells on the grid.
pub open spec fn victory_ok(coins: &Tileset, a: Alignment) -> bool {
    &&& 1 <= a.0 <= 3
    &&& coins.tile_ok(Point { x: 1, y: (a.0 - 1) as u16 })
    &&& align_from(a).1 <= 5 && align_to(a).1 <= 5
    &&& align_from(a).0 <= 7 && align_to(a).0 <= 7
}

/// Announces the winner: the title in the winner's color, and the coins of
/// the winning line highlighted, from its first cell to its last.
pub fn victory<'a>(coins: &'a Tileset, check: Alignment, c: &ColorConfig) -> (r: (DrawOp<'a>, Vec<DrawOp<'a>>))
    requires
        victory_ok(coins, check),
    ensures
        r.0 == (DrawOp::Text {
            text: "PUISSANCE 4 !\0",
            pos: Point { x: centered_x(text_width(14, true)) as u16, y: 10 },
            large: true,
            text_color: spec_players_color(check.0 - 1),
            background: c.bckgrd,
        }),
        r.1@.len() == victory_cells(check).len(),
        forall|i: int|
            0 <= i < r.1@.len() ==> is_image(
                #[trigger] r.1@[i],
                coins.tile_pixels(Point { x: 1, y: (check.0 - 1) as u16 }),
                coin_pos(victory_cells(check)[i].0, victory_cells(check)[i].1),
                (coins.tile_size, coins.tile_size),
                1,
                true,
            ),
{
    let victor: u8 = check.0;
    let pos1: (u16, u16) = check.1;
    let pos2: (u16, u16) = check.2;
    let color = players_colors(victor - 1);
    let title = "PUISSANCE 4 !\0";
    proof {
        reveal_strlit("PUISSANCE 4 !\0");
        assert(title@.len() == 14);
        assert(text_width(title@.len() as int, true) <= u16::MAX);
    }
    let head = draw_centered_string(title, 10, true, &ColorConfig { text: c.text, bckgrd: c.bckgrd, alt: color }, true);
    let ghost cells = victory_cells(check);
    let x_len: u16 = if pos2.0 >= pos1.0 { pos2.0 - pos1.0 + 1 } else { 0 };
    let y_lo: u16 = if pos1.1 <= pos2.1 { pos1.1 } else { pos2.1 };
    let y_hi: u16 = if pos1.1 <= pos2.1 { pos2.1 } else { pos1.1 };
    let y_len: u16 = y_hi - y_lo + 1;
    let n: u16 = if x_len == 1 {
        y_len
    } else if y_len == 1 {
        x_len
    } else if x_len < y_len {
        x_len
    } else {
        y_len
    };
    let mut ops: Vec<DrawOp<'a>> = Vec::new();
    let mut i: u16 = 0;
    while i < n
        invariant
            victory_ok(coins, check),
            pos1 == align_from(check) && pos2 == align_to(check),
            cells == victory_cells(check),
            victor == check.0,
            n == cells.len(),
            x_len == (if pos2.0 >= pos1.0 { pos2.0 - pos1.0 + 1 } else { 0 }),
            y_lo == (if pos1.1 <= pos2.1 { pos1.1 } else { pos2.1 }),
            y_hi == (if pos1.1 <= pos2.1 { pos2.1 } else { pos1.1 }),
            y_len == y_hi - y_lo + 1,
            i <= n,
            ops@.len() == i,
            forall|j: int|
                0 <= j < i ==> is_image(
                    #[trigger] ops@[j],
                    coins.tile_pixels(Point { x: 1, y: (check.0 - 1) as u16 }),
                    coin_pos(cells[j].0, cells[j].1),
                    (coins.tile_size, coins.tile_size),
                    1,
                    true,
                ),
        decreases n - i,
    {
        let (x, y): (u16, u16) = if x_len == 1 {
            (pos1.0, y_lo + i)
        } else if y_len == 1 {
            (pos1.0 + i, pos1.1)
        } else if pos1.1 <= pos2.1 {
            (pos1.0 + i, y_lo + i)
        } else {
            (pos1.0 + i, y_hi - i)
        };
        assert(x == cells[i as int].0 && y == cells[i as int].1);
        let op = draw_coin(coins, x, y, victor as u16 - 1, c, true);
        ops.push(op);
        i += 1;
    }
    (head, ops)
}

} // verus!
