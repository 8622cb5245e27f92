//! Text measures used by the Snake menus.

use vstd::prelude::*;
use vstd::string::*;

use crate::eadk::SCREEN_WIDTH;

verus! {

/// Width of a character of the large font, in these menus.
pub const LARGE_CHAR_WIDTH: u16 = 10;

/// Width of a character of the small font, in these menus.
pub const SMALL_CHAR_WIDTH: u16 = 7;

/// Width of a character of the small or the large font.
pub open spec fn font_width(large: bool) -> int {
    if large { LARGE_CHAR_WIDTH as int } else { SMALL_CHAR_WIDTH as int }
}

/// Left x coordinate of a text of `n` characters centered on the screen
/// (0 when it is wider than the screen).
pub open spec fn spec_left_coordo(n: int, large: bool) -> int {
    let w = n * font_width(large);
    if w <= SCREEN_WIDTH { (SCREEN_WIDTH - w) / 2 } else { 0 }
}

/// Returns the left x coordinate that centers the given string.
pub fn get_centered_text_left_coordo(string: &str, large: bool) -> (x: u16)
    requires
        string@.len() <= u16::MAX,
    ensures
        x == spec_left_coordo(string@.len() as int, large),
{
    let size: u32 = string.unicode_len() as u32;
    let w: u32 = if large { LARGE_CHAR_WIDTH as u32 } else { SMALL_CHAR_WIDTH as u32 };
    let total: u32 = size * w;
    if total <= SCREEN_WIDTH as u32 {
        ((SCREEN_WIDTH as u32 - total) / 2) as u16
    } else {
        0
    }
}

/// Returns the size in pixels of the given string.
pub fn get_string_size(string: &str, large: bool) -> (size: u16)
    requires
        string@.len() * font_width(large) <= u16::MAX,
    ensures
        size == string@.len() * font_width(large),
{
    let n: usize = string.unicode_len();
    let w: u16 = if large { LARGE_CHAR_WIDTH } else { SMALL_CHAR_WIDTH };
    assert(n as int <= u16::MAX) by (nonlinear_arith)
        requires
            n as int * w as int <= u16::MAX,
            w >= 1,
    ;
    (n as u16) * w
}

} // verus!
