//! Plain data types shared with the calculator firmware: colors, points,
//! rectangles and keyboard states, and the physical screen size.

use vstd::prelude::*;

pub mod key;

verus! {

/// Width of the physical screen, in pixels.
pub const SCREEN_WIDTH: u16 = 320;

/// Height of the physical screen, in pixels.
pub const SCREEN_HEIGHT: u16 = 240;

/// A color in the RGB565 format used by the display.
#[derive(Clone, Copy, Debug, PartialEq, Eq, Structural)]
pub struct Color {
    pub rgb565: u16,
}

/// Packs 8-bit channels into RGB565: 5 bits of red, 6 of green, 5 of blue.
pub open spec fn rgb565_of(r: u8, g: u8, b: u8) -> int {
    (r / 8) * 2048 + (g / 4) * 32 + b / 8
}

impl Color {
    pub const RED_RGB565: u16 = 0xF800;
    pub const GREEN_RGB565: u16 = 0x07E0;
    pub const BLUE_RGB565: u16 = 0x001F;
    pub const WHITE_RGB565: u16 = 0xFFFF;
    pub const BLACK_RGB565: u16 = 0x0000;

    pub fn red() -> (c: Self)
        ensures
            c.rgb565 == Self::RED_RGB565,
    {
        Self { rgb565: Self::RED_RGB565 }
    }

    pub fn green() -> (c: Self)
        ensures
            c.rgb565 == Self::GREEN_RGB565,
    {
        Self { rgb565: Self::GREEN_RGB565 }
    }

    pub fn blue() -> (c: Self)
        ensures
            c.rgb565 == Self::BLUE_RGB565,
    {
        Self { rgb565: Self::BLUE_RGB565 }
    }

    pub fn white() -> (c: Self)
        ensures
            c.rgb565 == Self::WHITE_RGB565,
    {
        Self { rgb565: Self::WHITE_RGB565 }
    }

    pub fn black() -> (c: Self)
        ensures
            c.rgb565 == Self::BLACK_RGB565,
    {
        Self { rgb565: Self::BLACK_RGB565 }
    }

    pub fn new(rgb565: u16) -> (c: Self)
        ensures
            c.rgb565 == rgb565,
    {
        Self { rgb565 }
    }

    /// Converts a 24-bit color to RGB565 by dropping the low bits of each channel.
    pub fn from_rgb888(r: u8, g: u8, b: u8) -> (c: Self)
        ensures
            c.rgb565 == rgb565_of(r, g, b),
    {
        let rr: u16 = r as u16;
        let gg: u16 = g as u16;
        let bb: u16 = b as u16;
        let v: u16 = ((rr & 0xF8) << 8) | ((gg & 0xFC) << 3) | (bb >> 3);
        assert(v == (rr / 8) * 2048 + (gg / 4) * 32 + bb / 8) by (bit_vector)
            requires
                rr < 256,
                gg < 256,
                bb < 256,
                v == ((rr & 0xF8) << 8) | ((gg & 0xFC) << 3) | (bb >> 3),
        ;
        Self { rgb565: v }
    }
}

/// A rectangle of the screen, in pixels.
#[derive(Clone, Copy, Debug, PartialEq, Eq, Structural)]
pub struct Rect {
    pub x: u16,
    pub y: u16,
    pub width: u16,
    pub height: u16,
}

/// A point of the screen or of a grid.
#[derive(Clone, Copy, Debug, PartialEq, Eq, Structural)]
pub struct Point {
    pub x: u16,
    pub y: u16,
}

impl Point {
    pub fn new(x: u16, y: u16) -> (p: Self)
        ensures
            p.x == x,
            p.y == y,
    {
        Self { x, y }
    }
}

/// The state of the keyboard: bit `k` is set when key `k` is held down.
#[derive(Clone, Copy, Debug)]
pub struct State(u64);

impl View for State {
    type V = u64;

    closed spec fn view(&self) -> u64 {
        self.0
    }
}

/// Whether key `k` is held in the keyboard bit set `bits` (the key number
/// is taken modulo 64, as a wrapping shift does).
pub open spec fn key_bit(bits: u64, k: u32) -> bool {
    (bits >> ((k % 64) as u64)) & 1 != 0
}

impl State {
    pub fn new(state: u64) -> (s: Self)
        ensures
            s@ == state,
    {
        Self(state)
    }

    pub fn key_down(&self, k: u32) -> (down: bool)
        ensures
            down == key_bit(self@, k),
    {
        let shifted: u64 = self.0.wrapping_shr(k);
        let bits: u64 = self.0;
        assert(shifted == bits >> ((k % 64) as u64)) by (bit_vector)
            requires
                shifted == bits >> (k % 64),
        ;
        shifted & 1 != 0
    }

    pub fn any_down(&self) -> (down: bool)
        ensures
            down == (self@ != 0),
    {
        self.0 != 0
    }
}

} // verus!
