//! Drawing decisions: what to put on the screen, as a list of operations
//! that the display layer carries out.

use vstd::prelude::*;

use crate::eadk::{Color, Point, Rect, SCREEN_HEIGHT, SCREEN_WIDTH};
use crate::utils::{centered_x, get_centered_text_x_coordo, text_width};

pub mod tiling;
pub mod image;

verus! {

/// RGB565 value used as the transparent color of images: e700ff, (231, 0, 255).
pub const TRANSPARENCY_COLOR: u16 = 0xE01F;

/// Colors of a text and its surroundings.
#[derive(Clone, Copy, Debug)]
pub struct ColorConfig {
    /// Color of the text.
    pub text: Color,
    /// Color of the background.
    pub bckgrd: Color,
    /// Other color, often used for the selected item.
    pub alt: Color,
}

/// One operation for the display.
#[derive(Clone, Copy, Debug)]
pub enum DrawOp<'a> {
    /// Fill a rectangle with one color.
    FillRect { rect: Rect, color: Color },
    /// Write a text at a position.
    Text { text: &'a str, pos: Point, large: bool, text_color: Color, background: Color },
    /// Draw an image of `size` pixels, scaled and keyed on the transparent color.
    Image { pixels: &'a [Color], pos: Point, size: (u16, u16), scaling: u16, transparency: bool },
    /// Copy pixels into a rectangle, row by row.
    Pixels { rect: Rect, pixels: &'a [Color] },
}

/// `op` draws an image with these pixels, position, size, scaling and keying.
pub open spec fn is_image(op: DrawOp, pixels: Seq<Color>, pos: Point, size: (u16, u16), scaling: u16, transparency: bool) -> bool {
    match op {
        DrawOp::Image { pixels: p, pos: q, size: z, scaling: s, transparency: t } => p@ == pixels && q == pos && z
            == size && s == scaling && t == transparency,
        _ => false,
    }
}

/// Whether rectangle `(x, y, w, h)` lies inside `r`.
pub open spec fn rect_inside(x: int, y: int, w: int, h: int, r: Rect) -> bool {
    r.x <= x && x + w <= r.x + r.width && r.y <= y && y + h <= r.y + r.height
}

/// Whether `op` draws only inside `r`: the rectangle of a fill or a copy,
/// or the scaled extent of an image (a text has no known extent).
pub open spec fn op_within(op: DrawOp, r: Rect) -> bool {
    match op {
        DrawOp::FillRect { rect, .. } => rect_inside(rect.x as int, rect.y as int, rect.width as int, rect.height as int, r),
        DrawOp::Pixels { rect, .. } => rect_inside(rect.x as int, rect.y as int, rect.width as int, rect.height as int, r),
        DrawOp::Image { pos, size, scaling, .. } => rect_inside(pos.x as int, pos.y as int, size.0 * scaling, size.1 * scaling, r),
        DrawOp::Text { .. } => false,
    }
}

/// `op` copies these pixels into this rectangle.
pub open spec fn is_pixels(op: DrawOp, rect: Rect, pixels: Seq<Color>) -> bool {
    match op {
        DrawOp::Pixels { rect: r, pixels: p } => r == rect && p@ == pixels,
        _ => false,
    }
}

/// The rectangle covering the whole screen.
pub open spec fn screen_rect() -> Rect {
    Rect { x: 0, y: 0, width: SCREEN_WIDTH, height: SCREEN_HEIGHT }
}

/// Fills the screen with the given color.
pub fn fill_screen<'a>(color: Color) -> (op: DrawOp<'a>)
    ensures
        op == (DrawOp::FillRect { rect: screen_rect(), color }),
{
    DrawOp::FillRect { rect: Rect { x: 0, y: 0, width: SCREEN_WIDTH, height: SCREEN_HEIGHT }, color }
}

/// The plan of a fade to black: the brightness to step down from, the
/// pause between two brightness steps, and the brightness to restore.
#[derive(Clone, Copy, Debug, PartialEq, Eq, Structural)]
pub struct Fading {
    pub start_brightness: u8,
    pub step_ms: u32,
    pub restore_brightness: u8,
}

/// Plans a fade of `dur` ms from the current brightness (stepping down
/// from 16 when the screen is off): one step down per brightness level,
/// evenly spaced, then back to the brightness that was read.
pub fn fading(dur: u32, brightness: u8) -> (f: Fading)
    ensures
        f.start_brightness == (if brightness == 0 { 16 } else { brightness }),
        f.step_ms == dur / (f.start_brightness as u32),
        f.restore_brightness == brightness,
{
    let start_brightness: u8 = if brightness == 0 { 16 } else { brightness };
    Fading { start_brightness, step_ms: dur / start_brightness as u32, restore_brightness: brightness }
}

/// The brightness levels a fade goes through, one per pause: from one
/// below its start level down to 0, each one lower than the one before.
pub fn fading_levels(f: &Fading) -> (levels: Vec<u8>)
    ensures
        levels@.len() == f.start_brightness,
        forall|i: int| 0 <= i < levels@.len() ==> #[trigger] levels@[i] == f.start_brightness - 1 - i,
        forall|i: int, j: int| 0 <= i < j < levels@.len() ==> levels@[i] > levels@[j],
        levels@.len() > 0 ==> levels@[levels@.len() - 1] == 0,
{
    let mut levels: Vec<u8> = Vec::new();
    let mut level: u8 = f.start_brightness;
    while level != 0
        invariant
            level <= f.start_brightness,
            levels@.len() == f.start_brightness - level,
            forall|i: int| 0 <= i < levels@.len() ==> #[trigger] levels@[i] == f.start_brightness - 1 - i,
        decreases level,
    {
        level -= 1;
        levels.push(level);
    }
    levels
}

/// What a fade draws once the screen is dark: the whole screen in black.
pub fn fading_fill<'a>() -> (op: DrawOp<'a>)
    ensures
        op == (DrawOp::FillRect { rect: screen_rect(), color: Color { rgb565: Color::BLACK_RGB565 } }),
{
    fill_screen(Color::black())
}

/// Writes a text with the colors of a configuration (the alternate text color when `alt`).
pub fn draw_string_cfg<'a>(string: &'a str, pos: Point, large: bool, cfg: &ColorConfig, alt: bool) -> (op: DrawOp<'a>)
    ensures
        op == (DrawOp::Text {
            text: string,
            pos,
            large,
            text_color: if alt { cfg.alt } else { cfg.text },
            background: cfg.bckgrd,
        }),
{
    DrawOp::Text { text: string, pos, large, text_color: if alt { cfg.alt } else { cfg.text }, background: cfg.bckgrd }
}

/// Writes a text centered horizontally at height `posy`.
pub fn draw_centered_string<'a>(string: &'a str, posy: u16, large: bool, cfg: &ColorConfig, alt: bool) -> (op: DrawOp<'a>)
    requires
        text_width(string@.len() as int, large) <= u16::MAX,
    ensures
        op == (DrawOp::Text {
            text: string,
            pos: Point { x: centered_x(text_width(string@.len() as int, large)) as u16, y: posy },
            large,
            text_color: if alt { cfg.alt } else { cfg.text },
            background: cfg.bckgrd,
        }),
{
    let x = get_centered_text_x_coordo(string, large);
    draw_string_cfg(string, Point { x, y: posy }, large, cfg, alt)
}

} // verus!
