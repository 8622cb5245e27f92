//! Typing a number between two bounds: digits, arrows and backspace.

use vstd::prelude::*;

use crate::eadk::{key, key_bit, Color, Point, Rect, State};
use crate::graphical::{ColorConfig, DrawOp};
use crate::utils::{LARGE_CHAR_HEIGHT, LARGE_CHAR_WIDTH, SMALL_CHAR_HEIGHT, SMALL_CHAR_WIDTH};

verus! {

/// `temp` with digit `digit` appended, when it stays within `max`.
pub open spec fn spec_push_digit(temp: u32, digit: u32, max: u32) -> u32 {
    if temp * 10 + digit <= max { (temp * 10 + digit) as u32 } else { temp }
}

/// Appends a digit to a number, unless the result would exceed `max` (or 32 bits).
pub fn try_push_digit(temp: u32, digit: u32, max: u32) -> (r: u32)
    ensures
        r == spec_push_digit(temp, digit, max),
{
    match temp.checked_mul(10) {
        None => temp,
        Some(v) => match v.checked_add(digit) {
            None => temp,
            Some(w) => if w <= max {
                w
            } else {
                temp
            },
        },
    }
}

/// The digit key held, the first of 0 to 9.
pub open spec fn digit_key(k: u64) -> Option<u32> {
    if key_bit(k, key::ZERO) {
        Some(0)
    } else if key_bit(k, key::ONE) {
        Some(1)
    } else if key_bit(k, key::TWO) {
        Some(2)
    } else if key_bit(k, key::THREE) {
        Some(3)
    } else if key_bit(k, key::FOUR) {
        Some(4)
    } else if key_bit(k, key::FIVE) {
        Some(5)
    } else if key_bit(k, key::SIX) {
        Some(6)
    } else if key_bit(k, key::SEVEN) {
        Some(7)
    } else if key_bit(k, key::EIGHT) {
        Some(8)
    } else if key_bit(k, key::NINE) {
        Some(9)
    } else {
        None
    }
}

fn read_digit(keys: &State) -> (d: Option<u32>)
    ensures
        d == digit_key(keys@),
{
    if keys.key_down(key::ZERO) {
        Some(0)
    } else if keys.key_down(key::ONE) {
        Some(1)
    } else if keys.key_down(key::TWO) {
        Some(2)
    } else if keys.key_down(key::THREE) {
        Some(3)
    } else if keys.key_down(key::FOUR) {
        Some(4)
    } else if keys.key_down(key::FIVE) {
        Some(5)
    } else if keys.key_down(key::SIX) {
        Some(6)
    } else if keys.key_down(key::SEVEN) {
        Some(7)
    } else if keys.key_down(key::EIGHT) {
        Some(8)
    } else if keys.key_down(key::NINE) {
        Some(9)
    } else {
        None
    }
}

/// What one step of the number input did.
#[derive(Clone, Copy, Debug, PartialEq, Eq, Structural)]
pub enum NumberInputStep {
    /// OK was pressed: the current number is the answer.
    Done,
    /// The number changed to this value (it is redrawn).
    Changed(u32),
    /// Nothing changed.
    Unchanged,
}

/// The number after the keys held: a digit is appended (within `max`),
/// Up adds one (within `max`), Down takes one off (within `min`), Backspace
/// drops the last digit (when what is left is still at least `min`).
pub open spec fn spec_next_value(current: u32, min: u32, max: u32, k: u64) -> u32 {
    match digit_key(k) {
        Some(d) => spec_push_digit(current, d, max),
        None => if key_bit(k, key::UP) {
            if current + 1 <= max { (current + 1) as u32 } else { current }
        } else if key_bit(k, key::DOWN) {
            if current >= 1 && current - 1 >= min { (current - 1) as u32 } else { current }
        } else if key_bit(k, key::BACKSPACE) {
            if current / 10 >= min { (current / 10) as u32 } else { current }
        } else {
            current
        },
    }
}

/// One step of typing a number between `min` and `max` with the keys held.
pub fn numberinput(current_value: u32, min: u32, max: u32, keys: &State) -> (s: NumberInputStep)
    ensures
        key_bit(keys@, key::OK) ==> s == NumberInputStep::Done,
        !key_bit(keys@, key::OK) ==> s == (if spec_next_value(current_value, min, max, keys@) != current_value {
            NumberInputStep::Changed(spec_next_value(current_value, min, max, keys@))
        } else {
            NumberInputStep::Unchanged
        }),
{
    if keys.key_down(key::OK) {
        return NumberInputStep::Done;
    }
    let temp: u32 = match read_digit(keys) {
        Some(d) => try_push_digit(current_value, d, max),
        None => if keys.key_down(key::UP) {
            match current_value.checked_add(1) {
                Some(v) => if v <= max {
                    v
                } else {
                    current_value
                },
                None => current_value,
            }
        } else if keys.key_down(key::DOWN) {
            match current_value.checked_sub(1) {
                Some(v) => if v >= min {
                    v
                } else {
                    current_value
                },
                None => current_value,
            }
        } else if keys.key_down(key::BACKSPACE) {
            if current_value / 10 >= min {
                current_value / 10
            } else {
                current_value
            }
        } else {
            current_value
        },
    };
    if temp != current_value {
        NumberInputStep::Changed(temp)
    } else {
        NumberInputStep::Unchanged
    }
}

/// A number typed in stays between `min` and `max` when it started between
/// them, whatever the keys.
pub proof fn lemma_next_value_bounded(current: u32, min: u32, max: u32, k: u64)
    requires
        min <= current <= max,
    ensures
        min <= spec_next_value(current, min, max, k) <= max,
{
}

/// What each key does to the number, when no digit is held: Up adds one
/// while that stays within `max`, Down takes one off while that stays at or
/// above `min`, Backspace drops the last decimal digit while what is left
/// stays at or above `min`; a digit `d` appends it (the number becomes
/// `10 * current + d`) while that stays within `max`. Otherwise the number
/// is kept.
pub proof fn lemma_number_keys(current: u32, min: u32, max: u32, k: u64)
    ensures
        ({
            let next = spec_next_value(current, min, max, k);
            &&& digit_key(k) matches Some(d) ==> next == (if 10 * current + d <= max { 10 * current + d } else { current as int })
            &&& digit_key(k) is None && key_bit(k, key::UP) ==> next == (if current + 1 <= max { current + 1 } else { current as int })
            &&& digit_key(k) is None && !key_bit(k, key::UP) && key_bit(k, key::DOWN) ==> next == (if current >= 1 && current - 1 >= min {
                current - 1
            } else {
                current as int
            })
            &&& digit_key(k) is None && !key_bit(k, key::UP) && !key_bit(k, key::DOWN) && key_bit(k, key::BACKSPACE) ==> next == (if current / 10 >= min {
                (current / 10) as int
            } else {
                current as int
            })
            &&& digit_key(k) is None && !key_bit(k, key::UP) && !key_bit(k, key::DOWN) && !key_bit(k, key::BACKSPACE) ==> next == current
            &&& digit_key(k) matches Some(d) ==> d <= 9
        }),
{
}

/// Down then Up gives the number back, and so does Up then Down, when
/// the first key could move it within the bounds.
pub proof fn lemma_down_up_inverse(current: u32, min: u32, max: u32, down: u64, up: u64)
    requires
        digit_key(down) is None,
        !key_bit(down, key::UP),
        key_bit(down, key::DOWN),
        digit_key(up) is None,
        key_bit(up, key::UP),
        min <= current <= max,
    ensures
        current >= 1 && current - 1 >= min ==> spec_next_value(spec_next_value(current, min, max, down), min, max, up) == current,
        current + 1 <= max ==> spec_next_value(spec_next_value(current, min, max, up), min, max, down) == current,
{
}

/// The box of the input: a frame in the alternate color and the inside in
/// the background color, ten characters wide.
pub fn numberinput_frame<'a>(large: bool, pos: Point, c: &ColorConfig) -> (ops: [DrawOp<'a>; 2])
    requires
        pos.x + 10 * LARGE_CHAR_WIDTH + 6 <= u16::MAX,
        pos.y + LARGE_CHAR_HEIGHT + 6 <= u16::MAX,
    ensures
        ({
            let w = if large { LARGE_CHAR_WIDTH } else { SMALL_CHAR_WIDTH };
            let h = if large { LARGE_CHAR_HEIGHT } else { SMALL_CHAR_HEIGHT };
            &&& ops[0] == (DrawOp::FillRect { rect: Rect { x: pos.x, y: pos.y, width: (10 * w + 6) as u16, height: (h + 6) as u16 }, color: c.alt })
            &&& ops[1] == (DrawOp::FillRect { rect: Rect { x: (pos.x + 3) as u16, y: (pos.y + 3) as u16, width: (10 * w) as u16, height: h }, color: c.bckgrd })
        }),
{
    let w: u16 = if large { LARGE_CHAR_WIDTH } else { SMALL_CHAR_WIDTH };
    let h: u16 = if large { LARGE_CHAR_HEIGHT } else { SMALL_CHAR_HEIGHT };
    [
        DrawOp::FillRect { rect: Rect { x: pos.x, y: pos.y, width: 10 * w + 6, height: h + 6 }, color: c.alt },
        DrawOp::FillRect { rect: Rect { x: pos.x + 3, y: pos.y + 3, width: 10 * w, height: h }, color: c.bckgrd },
    ]
}

} // verus!
