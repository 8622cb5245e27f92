//! What Snake puts on the screen: cells of the terrain, the snake's head,
//! fruits and walls, as boxes of color or sprites.

use vstd::prelude::*;

use crate::eadk::{rgb565_of, Color, Point, Rect};
use crate::graphical::{fill_screen, is_image, screen_rect, DrawOp};
use crate::snake::body::{snake_get, snake_len, snake_view};
use crate::graphical::tiling::Tileset;
use crate::snake::game_snake::Direction;
use crate::utils::CENTER_X;

verus! {

/// Side of a terrain cell, in pixels.
pub const CASE_SIZE: u16 = 10;

/// Top of the figure shown in the menu.
pub const MENU_FIGURE_Y: u16 = 70;

/// Dark gray, (60, 60, 80): around the terrain.
pub fn dark_gray() -> (c: Color)
    ensures
        c.rgb565 == rgb565_of(60, 60, 80),
{
    Color::from_rgb888(60, 60, 80)
}

/// Gray, (175, 175, 175): one of the two terrain cells.
pub fn gray() -> (c: Color)
    ensures
        c.rgb565 == rgb565_of(175, 175, 175),
{
    Color::from_rgb888(175, 175, 175)
}

/// Background gray of the menus, (200, 200, 200).
pub fn bckd_gray() -> (c: Color)
    ensures
        c.rgb565 == rgb565_of(200, 200, 200),
{
    Color::from_rgb888(200, 200, 200)
}

/// Light gray, (225, 225, 225): the other terrain cell.
pub fn light_gray() -> (c: Color)
    ensures
        c.rgb565 == rgb565_of(225, 225, 225),
{
    Color::from_rgb888(225, 225, 225)
}

/// Dark green, (0, 120, 0): the snake's body.
pub fn dark_green() -> (c: Color)
    ensures
        c.rgb565 == rgb565_of(0, 120, 0),
{
    Color::from_rgb888(0, 120, 0)
}

/// Light green, (40, 200, 120): the snake's head without sprites.
pub fn light_green() -> (c: Color)
    ensures
        c.rgb565 == rgb565_of(40, 200, 120),
{
    Color::from_rgb888(40, 200, 120)
}

/// The screen position of cell `(x, y)` of a terrain placed at `offset` fits in 16 bits.
pub open spec fn cell_ok(x: u16, y: u16, offset: (u16, u16)) -> bool {
    CASE_SIZE * x + offset.0 <= u16::MAX && CASE_SIZE * y + offset.1 <= u16::MAX
}

/// The screen position of cell `(x, y)`.
pub open spec fn cell_pos(x: u16, y: u16, offset: (u16, u16)) -> Point {
    Point { x: (CASE_SIZE * x + offset.0) as u16, y: (CASE_SIZE * y + offset.1) as u16 }
}

/// Fills cell `(x, y)` with color `c`.
pub fn draw_box<'a>(x: u16, y: u16, c: Color, offset: (u16, u16)) -> (op: DrawOp<'a>)
    requires
        cell_ok(x, y, offset),
    ensures
        op == (DrawOp::FillRect { rect: Rect { x: cell_pos(x, y, offset).x, y: cell_pos(x, y, offset).y, width: CASE_SIZE, height: CASE_SIZE }, color: c }),
{
    DrawOp::FillRect { rect: Rect { x: CASE_SIZE * x + offset.0, y: CASE_SIZE * y + offset.1, width: CASE_SIZE, height: CASE_SIZE }, color: c }
}

/// The color of a free terrain cell: a checkerboard of gray and light gray.
pub open spec fn terrain_color(x: u16, y: u16) -> u16 {
    if (x % 2 == 0 && y % 2 != 0) || (x % 2 != 0 && y % 2 == 0) {
        rgb565_of(175, 175, 175) as u16
    } else {
        rgb565_of(225, 225, 225) as u16
    }
}

/// Draws a free terrain cell in its checkerboard color.
pub fn draw_terrain_box<'a>(x: u16, y: u16, offset: (u16, u16)) -> (op: DrawOp<'a>)
    requires
        cell_ok(x, y, offset),
    ensures
        op == (DrawOp::FillRect {
            rect: Rect { x: cell_pos(x, y, offset).x, y: cell_pos(x, y, offset).y, width: CASE_SIZE, height: CASE_SIZE },
            color: Color { rgb565: terrain_color(x, y) },
        }),
{
    if (x % 2 == 0 && y % 2 != 0) || (x % 2 != 0 && y % 2 == 0) {
        draw_box(x, y, gray(), offset)
    } else {
        draw_box(x, y, light_gray(), offset)
    }
}

/// Draws the fruit: a red box, or the fruit sprite.
pub fn draw_fruit<'a>(sprites: &'a Tileset, x: u16, y: u16, original: bool, offset: (u16, u16)) -> (op: DrawOp<'a>)
    requires
        cell_ok(x, y, offset),
        sprites.tile_ok(Point { x: 0, y: 0 }),
    ensures
        original ==> op == (DrawOp::FillRect {
            rect: Rect { x: cell_pos(x, y, offset).x, y: cell_pos(x, y, offset).y, width: CASE_SIZE, height: CASE_SIZE },
            color: Color { rgb565: Color::RED_RGB565 },
        }),
        !original ==> is_image(op, sprites.tile_pixels(Point { x: 0, y: 0 }), cell_pos(x, y, offset), (sprites.tile_size, sprites.tile_size), 1, true),
{
    if original {
        draw_box(x, y, Color::red(), offset)
    } else {
        sprites.draw_tile(Point { x: x * CASE_SIZE + offset.0, y: y * CASE_SIZE + offset.1 }, Point { x: 0, y: 0 }, 1, true)
    }
}

/// The sprite of the head looking in a direction.
pub open spec fn head_tile(direction: Direction) -> Point {
    Point {
        x: match direction {
            Direction::Up => 1,
            Direction::Down => 2,
            Direction::Left => 4,
            Direction::Right => 3,
        },
        y: 0,
    }
}

/// The tile of the head looking `direction`.
fn head_tile_of(direction: Direction) -> (p: Point)
    ensures
        p == head_tile(direction),
{
    Point {
        x: match direction {
            Direction::Up => 1,
            Direction::Down => 2,
            Direction::Left => 4,
            Direction::Right => 3,
        },
        y: 0,
    }
}

/// Draws the snake's head: its sprite looking its way, or a light green box.
pub fn draw_snake_front<'a>(sprites: &'a Tileset, x: u16, y: u16, direction: Direction, original: bool, offset: (u16, u16)) -> (op: DrawOp<'a>)
    requires
        cell_ok(x, y, offset),
        sprites.tile_ok(head_tile(direction)),
    ensures
        original ==> op == (DrawOp::FillRect {
            rect: Rect { x: cell_pos(x, y, offset).x, y: cell_pos(x, y, offset).y, width: CASE_SIZE, height: CASE_SIZE },
            color: Color { rgb565: rgb565_of(40, 200, 120) as u16 },
        }),
        !original ==> is_image(op, sprites.tile_pixels(head_tile(direction)), cell_pos(x, y, offset), (sprites.tile_size, sprites.tile_size), 1, true),
{
    if !original {
        let tile = head_tile_of(direction);
        sprites.draw_tile(Point { x: x * CASE_SIZE + offset.0, y: y * CASE_SIZE + offset.1 }, tile, 1, true)
    } else {
        draw_box(x, y, light_green(), offset)
    }
}

/// Draws a wall: a black box, or the wall sprite.
pub fn draw_wall<'a>(sprites: &'a Tileset, x: u16, y: u16, original: bool, offset: (u16, u16)) -> (op: DrawOp<'a>)
    requires
        cell_ok(x, y, offset),
        sprites.tile_ok(Point { x: 5, y: 0 }),
    ensures
        original ==> op == (DrawOp::FillRect {
            rect: Rect { x: cell_pos(x, y, offset).x, y: cell_pos(x, y, offset).y, width: CASE_SIZE, height: CASE_SIZE },
            color: Color { rgb565: Color::BLACK_RGB565 },
        }),
        !original ==> is_image(op, sprites.tile_pixels(Point { x: 5, y: 0 }), cell_pos(x, y, offset), (sprites.tile_size, sprites.tile_size), 1, true),
{
    if original {
        draw_box(x, y, Color::black(), offset)
    } else {
        sprites.draw_tile(Point { x: x * CASE_SIZE + offset.0, y: y * CASE_SIZE + offset.1 }, Point { x: 5, y: 0 }, 1, true)
    }
}

/// The figure of the menu: a head sprite doubled, a green body to its
/// left, and a fruit to its right.
pub fn menu_vis_addon<'a>(sprites: &'a Tileset) -> (ops: [DrawOp<'a>; 3])
    requires
        sprites.tile_ok(Point { x: 3, y: 0 }),
        sprites.tile_ok(Point { x: 0, y: 0 }),
    ensures
        is_image(ops[0], sprites.tile_pixels(Point { x: 3, y: 0 }), Point { x: (CENTER_X - CASE_SIZE) as u16, y: MENU_FIGURE_Y }, (sprites.tile_size, sprites.tile_size), 2, false),
        ops[1] == (DrawOp::FillRect {
            rect: Rect { x: (CENTER_X - CASE_SIZE * 7) as u16, y: MENU_FIGURE_Y, width: (CASE_SIZE * 6) as u16, height: (CASE_SIZE * 2) as u16 },
            color: Color { rgb565: rgb565_of(0, 120, 0) as u16 },
        }),
        is_image(ops[2], sprites.tile_pixels(Point { x: 0, y: 0 }), Point { x: (CENTER_X + CASE_SIZE * 3) as u16, y: MENU_FIGURE_Y }, (sprites.tile_size, sprites.tile_size), 2, true),
{
    [
        sprites.draw_tile(Point { x: CENTER_X - CASE_SIZE, y: MENU_FIGURE_Y }, Point { x: 3, y: 0 }, 2, false),
        DrawOp::FillRect {
            rect: Rect { x: CENTER_X - CASE_SIZE * 7, y: MENU_FIGURE_Y, width: CASE_SIZE * 6, height: CASE_SIZE * 2 },
            color: dark_green(),
        },
        sprites.draw_tile(Point { x: CENTER_X + CASE_SIZE * 3, y: MENU_FIGURE_Y }, Point { x: 0, y: 0 }, 2, true),
    ]
}

/// The picture of the launcher: a black frame around the menu gray, the
/// head sprite doubled, a green body to its left and a fruit to its right.
pub fn thumbnail<'a>(sprites: &'a Tileset) -> (ops: [DrawOp<'a>; 5])
    requires
        sprites.tile_ok(Point { x: 3, y: 0 }),
        sprites.tile_ok(Point { x: 0, y: 0 }),
    ensures
        ops[0] == (DrawOp::FillRect { rect: Rect { x: (CENTER_X - 75) as u16, y: 15, width: 150, height: 100 }, color: Color { rgb565: Color::BLACK_RGB565 } }),
        ops[1] == (DrawOp::FillRect { rect: Rect { x: (CENTER_X - 72) as u16, y: 18, width: 144, height: 94 }, color: Color { rgb565: rgb565_of(200, 200, 200) as u16 } }),
        is_image(ops[2], sprites.tile_pixels(Point { x: 3, y: 0 }), Point { x: (CENTER_X - CASE_SIZE / 2) as u16, y: (65 - CASE_SIZE) as u16 }, (sprites.tile_size, sprites.tile_size), 2, false),
        ops[3] == (DrawOp::FillRect {
            rect: Rect { x: (CENTER_X - CASE_SIZE * 6 - CASE_SIZE / 2) as u16, y: (65 - CASE_SIZE) as u16, width: (CASE_SIZE * 6) as u16, height: (CASE_SIZE * 2) as u16 },
            color: Color { rgb565: rgb565_of(0, 120, 0) as u16 },
        }),
        is_image(ops[4], sprites.tile_pixels(Point { x: 0, y: 0 }), Point { x: (CENTER_X + CASE_SIZE * 3 + CASE_SIZE / 2) as u16, y: (65 - CASE_SIZE) as u16 }, (sprites.tile_size, sprites.tile_size), 2, true),
{
    [
        DrawOp::FillRect { rect: Rect { x: CENTER_X - 75, y: 15, width: 150, height: 100 }, color: Color::black() },
        DrawOp::FillRect { rect: Rect { x: CENTER_X - 72, y: 18, width: 144, height: 94 }, color: bckd_gray() },
        sprites.draw_tile(Point { x: CENTER_X - CASE_SIZE / 2, y: 15 + 50 - CASE_SIZE }, Point { x: 3, y: 0 }, 2, false),
        DrawOp::FillRect {
            rect: Rect { x: CENTER_X - CASE_SIZE * 6 - CASE_SIZE / 2, y: 15 + 50 - CASE_SIZE, width: CASE_SIZE * 6, height: CASE_SIZE * 2 },
            color: dark_green(),
        },
        sprites.draw_tile(Point { x: CENTER_X + CASE_SIZE * 3 + CASE_SIZE / 2, y: 15 + 50 - CASE_SIZE }, Point { x: 0, y: 0 }, 2, true),
    ]
}

/// A gray box at cell `(x, y)`.
pub open spec fn gray_box<'a>(x: int, y: int, offset: (u16, u16)) -> DrawOp<'a> {
    DrawOp::FillRect {
        rect: Rect { x: (CASE_SIZE * x + offset.0) as u16, y: (CASE_SIZE * y + offset.1) as u16, width: CASE_SIZE, height: CASE_SIZE },
        color: Color { rgb565: rgb565_of(175, 175, 175) as u16 },
    }
}

/// Draws the whole terrain: the background, the border (black, or orange
/// when the snake wraps around), the light gray terrain, then the gray cells
/// of the checkerboard, odd columns then even ones, column by column.
pub fn draw_terrain<'a>(wrapping: bool, width: u16, height: u16, offset: (u16, u16)) -> (ops: Vec<DrawOp<'a>>)
    requires
        (width + 1) * CASE_SIZE <= u16::MAX,
        (height + 1) * CASE_SIZE <= u16::MAX,
        CASE_SIZE * width + offset.0 <= u16::MAX,
        CASE_SIZE * height + offset.1 <= u16::MAX,
    ensures
        ({
            let ha = (height + 1) / 2;
            let hb = height / 2;
            let na = (width / 2) * ha;
            &&& ops@.len() == 3 + na + ((width + 1) / 2) * hb
            &&& ops@[0] == DrawOp::FillRect { rect: screen_rect(), color: Color { rgb565: rgb565_of(60, 60, 80) as u16 } }
            &&& ops@[1] == DrawOp::FillRect {
                rect: Rect {
                    x: if offset.0 >= CASE_SIZE / 2 { (offset.0 - CASE_SIZE / 2) as u16 } else { 0 },
                    y: if offset.1 >= CASE_SIZE / 2 { (offset.1 - CASE_SIZE / 2) as u16 } else { 0 },
                    width: ((width + 1) * CASE_SIZE) as u16,
                    height: ((height + 1) * CASE_SIZE) as u16,
                },
                color: if !wrapping { Color { rgb565: Color::BLACK_RGB565 } } else { Color { rgb565: rgb565_of(255, 100, 0) as u16 } },
            }
            &&& ops@[2] == DrawOp::FillRect {
                rect: Rect { x: offset.0, y: offset.1, width: (width * CASE_SIZE) as u16, height: (height * CASE_SIZE) as u16 },
                color: Color { rgb565: rgb565_of(225, 225, 225) as u16 },
            }
            &&& forall|i: int, j: int|
                0 <= i < width / 2 && 0 <= j < ha ==> #[trigger] ops@[3 + i * ha + j] == gray_box(2 * i + 1, 2 * j, offset)
            &&& forall|i: int, j: int|
                0 <= i < (width + 1) / 2 && 0 <= j < hb ==> #[trigger] ops@[3 + na + i * hb + j] == gray_box(2 * i, 2 * j + 1, offset)
        }),
{
    let ha: u16 = (height + 1) / 2;
    let hb: u16 = height / 2;
    let ghost na = (width / 2) * ha;
    let mut cells: Vec<DrawOp<'a>> = Vec::new();
    let mut i: u16 = 0;
    while i < width / 2
        invariant
            i <= width / 2,
            ha == (height + 1) / 2,
            CASE_SIZE * width + offset.0 <= u16::MAX,
            CASE_SIZE * height + offset.1 <= u16::MAX,
            cells@.len() == i * ha,
            forall|ii: int, j: int| 0 <= ii < i && 0 <= j < ha ==> #[trigger] cells@[ii * ha + j] == gray_box(2 * ii + 1, 2 * j, offset),
        decreases width / 2 - i,
    {
        let x: u16 = 2 * i + 1;
        let mut j: u16 = 0;
        while j < ha
            invariant
                i < width / 2,
                x == 2 * i + 1,
                j <= ha,
                ha == (height + 1) / 2,
                CASE_SIZE * width + offset.0 <= u16::MAX,
                CASE_SIZE * height + offset.1 <= u16::MAX,
                cells@.len() == i * ha + j,
                    forall|ii: int, jj: int|
                    (0 <= ii < i && 0 <= jj < ha) || (ii == i && 0 <= jj < j) ==> #[trigger] cells@[ii * ha + jj] == gray_box(2 * ii + 1, 2 * jj, offset),
            decreases ha - j,
        {
            let y: u16 = 2 * j;
            let ghost before = cells@;
            cells.push(draw_box(x, y, gray(), offset));
            proof {
                assert forall|ii: int, jj: int|
                    (0 <= ii < i && 0 <= jj < ha) || (ii == i && 0 <= jj < j + 1) implies #[trigger] cells@[ii * ha + jj] == gray_box(
                        2 * ii + 1,
                        2 * jj,
                        offset,
                    ) by {
                    if ii < i {
                        assert(ii * ha + jj < i * ha) by (nonlinear_arith)
                            requires
                                ii < i,
                                jj < ha,
                        ;
                        assert(cells@[ii * ha + jj] == before[ii * ha + jj]);
                    } else if jj < j {
                        assert(cells@[ii * ha + jj] == before[ii * ha + jj]);
                    }
                }
            }
            j += 1;
        }
        assert((i + 1) * ha == i * ha + ha) by (nonlinear_arith);
        i += 1;
    }
    let mut i: u16 = 0;
    while i < (width + 1) / 2
        invariant
            i <= (width + 1) / 2,
            ha == (height + 1) / 2,
            hb == height / 2,
            na == (width / 2) * ha,
            CASE_SIZE * width + offset.0 <= u16::MAX,
            CASE_SIZE * height + offset.1 <= u16::MAX,
            cells@.len() == na + i * hb,
            forall|ii: int, j: int| 0 <= ii < width / 2 && 0 <= j < ha ==> #[trigger] cells@[ii * ha + j] == gray_box(2 * ii + 1, 2 * j, offset),
            forall|ii: int, j: int| 0 <= ii < i && 0 <= j < hb ==> #[trigger] cells@[na + ii * hb + j] == gray_box(2 * ii, 2 * j + 1, offset),
        decreases (width + 1) / 2 - i,
    {
        let x: u16 = 2 * i;
        let mut j: u16 = 0;
        while j < hb
            invariant
                i < (width + 1) / 2,
                x == 2 * i,
                j <= hb,
                ha == (height + 1) / 2,
                hb == height / 2,
                na == (width / 2) * ha,
                CASE_SIZE * width + offset.0 <= u16::MAX,
                CASE_SIZE * height + offset.1 <= u16::MAX,
                cells@.len() == na + i * hb + j,
                    forall|ii: int, jj: int| 0 <= ii < width / 2 && 0 <= jj < ha ==> #[trigger] cells@[ii * ha + jj] == gray_box(2 * ii + 1, 2 * jj, offset),
                forall|ii: int, jj: int|
                    (0 <= ii < i && 0 <= jj < hb) || (ii == i && 0 <= jj < j) ==> #[trigger] cells@[na + ii * hb + jj] == gray_box(2 * ii, 2 * jj + 1, offset),
            decreases hb - j,
        {
            let y: u16 = 2 * j + 1;
            let ghost before = cells@;
            cells.push(draw_box(x, y, gray(), offset));
            proof {
                assert forall|ii: int, jj: int| 0 <= ii < width / 2 && 0 <= jj < ha implies #[trigger] cells@[ii * ha + jj] == gray_box(
                    2 * ii + 1,
                    2 * jj,
                    offset,
                ) by {
                    assert(ii * ha + jj < na) by (nonlinear_arith)
                        requires
                            ii < width / 2,
                            jj < ha,
                            na == (width / 2) * ha,
                    ;
                    assert(cells@[ii * ha + jj] == before[ii * ha + jj]);
                }
                assert forall|ii: int, jj: int|
                    (0 <= ii < i && 0 <= jj < hb) || (ii == i && 0 <= jj < j + 1) implies #[trigger] cells@[na + ii * hb + jj] == gray_box(
                        2 * ii,
                        2 * jj + 1,
                        offset,
                    ) by {
                    if ii < i {
                        assert(ii * hb + jj < i * hb) by (nonlinear_arith)
                            requires
                                ii < i,
                                jj < hb,
                        ;
                        assert(cells@[na + ii * hb + jj] == before[na + ii * hb + jj]);
                    } else if jj < j {
                        assert(cells@[na + ii * hb + jj] == before[na + ii * hb + jj]);
                    }
                }
            }
            j += 1;
        }
        assert((i + 1) * hb == i * hb + hb) by (nonlinear_arith);
        i += 1;
    }
    let mut ops: Vec<DrawOp<'a>> = Vec::new();
    ops.push(fill_screen(dark_gray()));
    let bx: u16 = match offset.0.checked_sub(CASE_SIZE / 2) {
        Some(x) => x,
        None => 0,
    };
    let by: u16 = match offset.1.checked_sub(CASE_SIZE / 2) {
        Some(y) => y,
        None => 0,
    };
    ops.push(
        DrawOp::FillRect {
            rect: Rect { x: bx, y: by, width: (width + 1) * CASE_SIZE, height: (height + 1) * CASE_SIZE },
            color: if !wrapping { Color::black() } else { Color::from_rgb888(255, 100, 0) },
        },
    );
    ops.push(DrawOp::FillRect { rect: Rect { x: offset.0, y: offset.1, width: width * CASE_SIZE, height: height * CASE_SIZE }, color: light_gray() });
    let ghost head = ops@;
    let ghost c = cells@;
    ops.append(&mut cells);
    assert(ops@ == head + c);
    assert forall|i: int, j: int| 0 <= i < width / 2 && 0 <= j < ha implies #[trigger] ops@[3 + i * ha + j] == gray_box(2 * i + 1, 2 * j, offset) by {
        assert(i * ha + j < na) by (nonlinear_arith)
            requires
                i < width / 2,
                j < ha,
                na == (width / 2) * ha,
        ;
        assert(ops@[3 + i * ha + j] == c[i * ha + j]);
    }
    assert forall|i: int, j: int| 0 <= i < (width + 1) / 2 && 0 <= j < hb implies #[trigger] ops@[3 + na + i * hb + j] == gray_box(2 * i, 2 * j + 1, offset) by {
        assert(i * hb + j < ((width + 1) / 2) * hb) by (nonlinear_arith)
            requires
                i < (width + 1) / 2,
                j < hb,
        ;
        assert(ops@[3 + na + i * hb + j] == c[na + i * hb + j]);
    }
    ops
}

/// `ops` draws the snake `body`: the head (the cells equal to the first
/// one) in its color or with the head tile looking `direction`, the other
/// cells in dark green, one op per cell in order.
pub open spec fn snake_ops<'a>(ops: Seq<DrawOp<'a>>, sprites: Tileset, body: Seq<Point>, direction: Direction, original: bool, offset: (u16, u16)) -> bool {
    &&& ops.len() == body.len()
    &&& forall|i: int|
        0 <= i < ops.len() ==> {
            let p = body[i];
            if p == body[0] {
                (original ==> #[trigger] ops[i] == DrawOp::FillRect {
                    rect: Rect { x: cell_pos(p.x, p.y, offset).x, y: cell_pos(p.x, p.y, offset).y, width: CASE_SIZE, height: CASE_SIZE },
                    color: Color { rgb565: rgb565_of(40, 200, 120) as u16 },
                }) && (!original ==> is_image(ops[i], sprites.tile_pixels(head_tile(direction)), cell_pos(p.x, p.y, offset), (sprites.tile_size, sprites.tile_size), 1, true))
            } else {
                ops[i] == DrawOp::FillRect {
                    rect: Rect { x: cell_pos(p.x, p.y, offset).x, y: cell_pos(p.x, p.y, offset).y, width: CASE_SIZE, height: CASE_SIZE },
                    color: Color { rgb565: rgb565_of(0, 120, 0) as u16 },
                }
            }
        }
}

/// Whether the snake can be drawn: it has a head, every cell's position
/// fits the screen coordinates, and the head tile lies in the sprites.
pub open spec fn snake_drawable(sprites: Tileset, body: Seq<Point>, direction: Direction, offset: (u16, u16)) -> bool {
    &&& body.len() > 0
    &&& forall|i: int| 0 <= i < body.len() ==> cell_ok(#[trigger] body[i].x, body[i].y, offset)
    &&& sprites.tile_ok(head_tile(direction))
}

/// The ops that draw a snake: its head, then a dark green box for every
/// other cell, from the head to the tail.
pub fn draw_snake<'a>(sprites: &'a Tileset, snake: &heapless::Deque<Point, 735>, direction: Direction, original: bool, offset: (u16, u16)) -> (ops: Vec<DrawOp<'a>>)
    requires
        snake_view(*snake).len() > 0,
        forall|i: int| 0 <= i < snake_view(*snake).len() ==> cell_ok(#[trigger] snake_view(*snake)[i].x, snake_view(*snake)[i].y, offset),
        sprites.tile_ok(head_tile(direction)),
    ensures
        snake_ops(ops@, *sprites, snake_view(*snake), direction, original, offset),
{
    let n = snake_len(snake);
    let front = snake_get(snake, 0);
    let mut ops: Vec<DrawOp<'a>> = Vec::new();
    let mut i: usize = 0;
    while i < n
        invariant
            n == snake_view(*snake).len(),
            front == snake_view(*snake)[0],
            i <= n,
            ops@.len() == i,
            forall|k: int| 0 <= k < snake_view(*snake).len() ==> cell_ok(#[trigger] snake_view(*snake)[k].x, snake_view(*snake)[k].y, offset),
            sprites.tile_ok(head_tile(direction)),
            forall|k: int|
                0 <= k < i ==> {
                    let p = snake_view(*snake)[k];
                    if p == snake_view(*snake)[0] {
                        (original ==> #[trigger] ops@[k] == DrawOp::FillRect {
                            rect: Rect { x: cell_pos(p.x, p.y, offset).x, y: cell_pos(p.x, p.y, offset).y, width: CASE_SIZE, height: CASE_SIZE },
                            color: Color { rgb565: rgb565_of(40, 200, 120) as u16 },
                        }) && (!original ==> is_image(ops@[k], sprites.tile_pixels(head_tile(direction)), cell_pos(p.x, p.y, offset), (sprites.tile_size, sprites.tile_size), 1, true))
                    } else {
                        ops@[k] == DrawOp::FillRect {
                            rect: Rect { x: cell_pos(p.x, p.y, offset).x, y: cell_pos(p.x, p.y, offset).y, width: CASE_SIZE, height: CASE_SIZE },
                            color: Color { rgb565: rgb565_of(0, 120, 0) as u16 },
                        }
                    }
                },
        decreases n - i,
    {
        let p = snake_get(snake, i);
        assert(cell_ok(snake_view(*snake)[i as int].x, snake_view(*snake)[i as int].y, offset));
        let op = if p.x == front.x && p.y == front.y {
            draw_snake_front(sprites, p.x, p.y, direction, original, offset)
        } else {
            draw_box(p.x, p.y, dark_green(), offset)
        };
        ops.push(op);
        i += 1;
    }
    ops
}

/// Draws the snake after checking that it can be drawn: `None` when it is
/// empty, a cell's position leaves the screen coordinates, or the head
/// tile is not in the sprites.
pub fn draw_snake_checked<'a>(sprites: &'a Tileset, snake: &heapless::Deque<Point, 735>, direction: Direction, original: bool, offset: (u16, u16)) -> (ops: Option<Vec<DrawOp<'a>>>)
    ensures
        ops is Some <==> snake_drawable(*sprites, snake_view(*snake), direction, offset),
        ops matches Some(v) ==> snake_ops(v@, *sprites, snake_view(*snake), direction, original, offset),
{
    let n = snake_len(snake);
    if n == 0 {
        return None;
    }
    let mut i: usize = 0;
    while i < n
        invariant
            n == snake_view(*snake).len(),
            i <= n,
            forall|k: int| 0 <= k < i ==> cell_ok(#[trigger] snake_view(*snake)[k].x, snake_view(*snake)[k].y, offset),
        decreases n - i,
    {
        let p = snake_get(snake, i);
        let cs: u64 = CASE_SIZE as u64;
        let px: u64 = p.x as u64;
        let py: u64 = p.y as u64;
        assert(cs * px <= 0xffff * 0xffff && cs * py <= 0xffff * 0xffff) by (nonlinear_arith)
            requires
                cs <= 0xffff,
                px <= 0xffff,
                py <= 0xffff,
        ;
        if cs * px + offset.0 as u64 > u16::MAX as u64 || cs * py + offset.1 as u64 > u16::MAX as u64 {
            return None;
        }
        i += 1;
    }
    let tile = head_tile_of(direction);
    if sprites.checked_tile_offset(tile).is_none() {
        return None;
    }
    Some(draw_snake(sprites, snake, direction, original, offset))
}

} // verus!
