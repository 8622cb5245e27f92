//! Menus: a list of choices moved through with the arrow keys, the pause
//! menu, and where each choice is written.

use vstd::prelude::*;

use crate::eadk::{key, key_bit, Point, Rect, State, SCREEN_HEIGHT, SCREEN_WIDTH};
use crate::graphical::{ColorConfig, DrawOp};
use crate::utils::{centered_x, get_centered_text_x_coordo, get_string_pixel_size, text_width, CENTER_Y, LARGE_CHAR_HEIGHT};

pub mod settings;

verus! {

/// Pause between two moves of the cursor while a key is held, in ms.
pub const REPETITION_SPEED: u16 = 200;

/// Space between two lines of the settings list.
pub const SPACE_BETWEEN_LINES: u16 = LARGE_CHAR_HEIGHT;

/// Duration of the fades of the menus, in ms.
pub const FADING_TIME: u32 = 500;

/// The layout of a menu.
pub struct MenuConfig {
    /// The choices, in order.
    pub choices: &'static [&'static str],
    /// Space between the texts and the sides.
    pub rect_margins: (u16, u16),
    /// Width and height of the menu.
    pub dimensions: (u16, u16),
    /// Offset of the menu from the center of the screen.
    pub offset: (i16, i16),
    /// What the Back key returns.
    pub back_key_return: u8,
}

/// The pause menu: resume, back to the menu, or exit; Back resumes.
pub fn pause_menu(y_offset: i16) -> (m: MenuConfig)
    ensures
        m.choices@.len() == 3,
        m.rect_margins == (20u16, 10u16),
        m.dimensions == (128u16, 112u16),
        m.offset == (0i16, y_offset),
        m.back_key_return == 0,
{
    let choices: &'static [&'static str] = &["Resume\0", "Menu\0", "Exit\0"];
    MenuConfig {
        choices,
        rect_margins: (20, 10),
        dimensions: (SCREEN_WIDTH * 2 / 5, LARGE_CHAR_HEIGHT * 3 + SPACE_BETWEEN_LINES * 4),
        offset: (0, y_offset),
        back_key_return: 0,
    }
}

/// The cursor of a menu: the highlighted choice, the time of its last move
/// and the key that moved it.
#[derive(Clone, Copy, Debug, PartialEq, Eq, Structural)]
pub struct MenuCursor {
    pub cursor_pos: u8,
    pub last_action: u64,
    pub last_action_key: u32,
}

/// What a step of a menu did.
#[derive(Clone, Copy, Debug, PartialEq, Eq, Structural)]
pub enum MenuEvent {
    /// The cursor moved from choice `from` (both lines are redrawn).
    Moved { from: u8 },
    /// Nothing to do.
    Idle,
    /// OK was pressed: once it is released, the highlighted choice is the answer.
    Chosen,
    /// Back was pressed: the answer is the given value.
    Back(u8),
}

impl MenuCursor {
    /// A cursor on the first choice at time `now`, moved by no key yet.
    pub fn new(now: u64) -> (c: Self)
        ensures
            c == (MenuCursor { cursor_pos: 0, last_action: now, last_action_key: key::ALPHA }),
    {
        MenuCursor { cursor_pos: 0, last_action: now, last_action_key: key::ALPHA }
    }
}

/// Whether the keys move the cursor forward (Down, or Right in a horizontal menu).
pub open spec fn forward(k: u64, horizontal: bool) -> bool {
    (!horizontal && key_bit(k, key::DOWN)) || (horizontal && key_bit(k, key::RIGHT))
}

/// Whether the keys move the cursor backward (Up, or Left in a horizontal menu).
pub open spec fn backward(k: u64, horizontal: bool) -> bool {
    (!horizontal && key_bit(k, key::UP)) || (horizontal && key_bit(k, key::LEFT))
}

/// One step of a menu at time `now` with the keys held: the arrows move
/// the cursor (at most every 200 ms while held, wrapping around the ends),
/// OK chooses, Back answers the configured value, and releasing the key that
/// moved the cursor allows an immediate new move.
pub fn selection(cursor: &mut MenuCursor, config: &MenuConfig, horizontal: bool, keys: &State, now: u64) -> (e: MenuEvent)
    requires
        1 <= config.choices@.len() <= 255,
        old(cursor).cursor_pos < config.choices@.len(),
        old(cursor).last_action + REPETITION_SPEED <= u64::MAX,
    ensures
        final(cursor).cursor_pos < config.choices@.len(),
        ({
            let k = keys@;
            let o = *old(cursor);
            let n = config.choices@.len();
            let arrows = key_bit(k, key::DOWN) || key_bit(k, key::UP) || key_bit(k, key::LEFT) || key_bit(k, key::RIGHT);
            if arrows && now >= o.last_action + REPETITION_SPEED {
                &&& e == MenuEvent::Moved { from: o.cursor_pos }
                &&& final(cursor).last_action == now
                &&& if forward(k, horizontal) {
                    &&& final(cursor).cursor_pos == (if o.cursor_pos + 1 >= n { 0 } else { o.cursor_pos + 1 })
                    &&& final(cursor).last_action_key == (if key_bit(k, key::DOWN) { key::DOWN } else { key::RIGHT })
                } else if backward(k, horizontal) {
                    &&& final(cursor).cursor_pos == (if o.cursor_pos == 0 { n - 1 } else { o.cursor_pos - 1 })
                    &&& final(cursor).last_action_key == (if key_bit(k, key::UP) { key::UP } else { key::LEFT })
                } else {
                    &&& final(cursor).cursor_pos == o.cursor_pos
                    &&& final(cursor).last_action_key == o.last_action_key
                }
            } else if key_bit(k, key::OK) {
                e == MenuEvent::Chosen && *final(cursor) == o
            } else if key_bit(k, key::BACK) {
                e == MenuEvent::Back(config.back_key_return) && *final(cursor) == o
            } else if !key_bit(k, o.last_action_key) {
                e == MenuEvent::Idle && *final(cursor) == (MenuCursor { last_action: 0, ..o })
            } else {
                e == MenuEvent::Idle && *final(cursor) == o
            }
        }),
{
    let n: u8 = config.choices.len() as u8;
    if (keys.key_down(key::DOWN) || keys.key_down(key::UP) || keys.key_down(key::LEFT) || keys.key_down(key::RIGHT))
        && now >= cursor.last_action + REPETITION_SPEED as u64 {
        let from = cursor.cursor_pos;
        if (!horizontal && keys.key_down(key::DOWN)) || (horizontal && keys.key_down(key::RIGHT)) {
            cursor.cursor_pos = cursor.cursor_pos + 1;
            if cursor.cursor_pos >= n {
                cursor.cursor_pos = 0;
            }
            cursor.last_action_key = if keys.key_down(key::DOWN) { key::DOWN } else { key::RIGHT };
        } else if (!horizontal && keys.key_down(key::UP)) || (horizontal && keys.key_down(key::LEFT)) {
            if cursor.cursor_pos == 0 {
                cursor.cursor_pos = n - 1;
            } else {
                cursor.cursor_pos = cursor.cursor_pos - 1;
            }
            cursor.last_action_key = if keys.key_down(key::UP) { key::UP } else { key::LEFT };
        }
        cursor.last_action = now;
        MenuEvent::Moved { from }
    } else if keys.key_down(key::OK) {
        MenuEvent::Chosen
    } else if keys.key_down(key::BACK) {
        MenuEvent::Back(config.back_key_return)
    } else {
        if !keys.key_down(cursor.last_action_key) {
            cursor.last_action = 0;
        }
        MenuEvent::Idle
    }
}

/// Width in pixels of choice `i` written large.
pub open spec fn choice_width(config: MenuConfig, i: int) -> int {
    text_width(config.choices@[i]@.len() as int, true)
}

/// The unsigned height of line `cursor` in a vertical menu, before the offset:
/// the lines are spread evenly between the margins.
pub open spec fn vertical_base(config: MenuConfig, cursor: u8) -> int {
    let d1 = config.dimensions.1 as int;
    let m1 = config.rect_margins.1 as int;
    CENTER_Y - d1 / 2 + m1 + cursor * (d1 - m1 * 2 - LARGE_CHAR_HEIGHT) / (config.choices@.len() - 1)
}

/// The height at which line `cursor` is written.
pub open spec fn spec_selection_y(config: MenuConfig, cursor: u8, horizontal: bool) -> u16 {
    if !horizontal {
        (vertical_base(config, cursor) + config.offset.1) as u16
    } else {
        (CENTER_Y - LARGE_CHAR_HEIGHT / 2 + config.offset.1) as u16
    }
}

/// The arithmetic of the height of line `cursor` stays in range.
pub open spec fn selection_y_ok(config: MenuConfig, cursor: u8, horizontal: bool) -> bool {
    let d1 = config.dimensions.1 as int;
    let m1 = config.rect_margins.1 as int;
    &&& config.choices@.len() <= 255
    &&& if !horizontal {
        &&& config.choices@.len() >= 2
        &&& d1 / 2 <= CENTER_Y
        &&& d1 >= m1 * 2 + LARGE_CHAR_HEIGHT
        &&& cursor * (d1 - m1 * 2 - LARGE_CHAR_HEIGHT) <= u16::MAX
        &&& vertical_base(config, cursor) <= i16::MAX
        &&& i16::MIN <= vertical_base(config, cursor) + config.offset.1 <= i16::MAX
    } else {
        i16::MIN <= CENTER_Y - LARGE_CHAR_HEIGHT / 2 + config.offset.1 <= i16::MAX
    }
}

fn selection_y(config: &MenuConfig, cursor_pos: u8, horizontal: bool) -> (y: u16)
    requires
        selection_y_ok(*config, cursor_pos, horizontal),
    ensures
        y == spec_selection_y(*config, cursor_pos, horizontal),
{
    if !horizontal {
        let n: u16 = config.choices.len() as u16;
        let span: u16 = config.dimensions.1 - config.rect_margins.1 * 2 - LARGE_CHAR_HEIGHT;
        let base: u16 = CENTER_Y - config.dimensions.1 / 2 + config.rect_margins.1 + cursor_pos as u16 * span / (n - 1);
        (base as i16 + config.offset.1) as u16
    } else {
        ((CENTER_Y - LARGE_CHAR_HEIGHT / 2) as i16 + config.offset.1) as u16
    }
}

/// The left edge of line `cursor`: centered (plus the offset) in a vertical
/// menu; in a horizontal one, the first choice at the left margin (10 when
/// none), the last against the right margin, the others spread between.
pub open spec fn spec_selection_x(config: MenuConfig, cursor: u8, horizontal: bool) -> u16 {
    let n = config.choices@.len() as int;
    let m0 = config.rect_margins.0 as int;
    if horizontal {
        if cursor == 0 {
            (if m0 != 0 { m0 } else { 10 }) as u16
        } else if cursor == n - 1 {
            (SCREEN_WIDTH - choice_width(config, cursor as int) - m0) as u16
        } else {
            let start_x = choice_width(config, 0);
            let max_x = SCREEN_WIDTH - choice_width(config, n - 1) - m0;
            (start_x + cursor * (max_x - start_x) / (n - 1) - choice_width(config, cursor as int) / 2) as u16
        }
    } else {
        (centered_x(choice_width(config, cursor as int)) + config.offset.0) as u16
    }
}

/// The arithmetic of the left edge of line `cursor` stays in range.
pub open spec fn selection_x_ok(config: MenuConfig, cursor: u8, horizontal: bool) -> bool {
    let n = config.choices@.len() as int;
    let m0 = config.rect_margins.0 as int;
    &&& cursor < n
    &&& n <= 255
    &&& forall|i: int| 0 <= i < n ==> #[trigger] choice_width(config, i) <= u16::MAX
    &&& if horizontal {
        if cursor == 0 {
            true
        } else if cursor == n - 1 {
            choice_width(config, cursor as int) + m0 <= SCREEN_WIDTH
        } else {
            let start_x = choice_width(config, 0);
            let max_x = SCREEN_WIDTH - choice_width(config, n - 1) - m0;
            &&& choice_width(config, n - 1) + m0 <= SCREEN_WIDTH
            &&& start_x <= max_x
            &&& cursor * (max_x - start_x) <= u16::MAX
            &&& start_x + cursor * (max_x - start_x) / (n - 1) <= u16::MAX
            &&& start_x + cursor * (max_x - start_x) / (n - 1) >= choice_width(config, cursor as int) / 2
        }
    } else {
        i16::MIN <= centered_x(choice_width(config, cursor as int)) + config.offset.0 <= i16::MAX
    }
}

fn selection_x(config: &MenuConfig, cursor_pos: u8, horizontal: bool) -> (x: u16)
    requires
        selection_x_ok(*config, cursor_pos, horizontal),
    ensures
        x == spec_selection_x(*config, cursor_pos, horizontal),
{
    let n: usize = config.choices.len();
    let i: usize = cursor_pos as usize;
    assert(choice_width(*config, i as int) <= u16::MAX);
    if horizontal {
        if cursor_pos == 0 {
            if config.rect_margins.0 != 0 {
                config.rect_margins.0
            } else {
                10
            }
        } else if i == n - 1 {
            SCREEN_WIDTH - get_string_pixel_size(config.choices[i], true) - config.rect_margins.0
        } else {
            assert(choice_width(*config, 0) <= u16::MAX);
            assert(choice_width(*config, n - 1) <= u16::MAX);
            let start_x: u16 = get_string_pixel_size(config.choices[0], true);
            let max_x: u16 = SCREEN_WIDTH - get_string_pixel_size(config.choices[n - 1], true) - config.rect_margins.0;
            start_x + cursor_pos as u16 * (max_x - start_x) / (n as u16 - 1) - get_string_pixel_size(config.choices[i], true) / 2
        }
    } else {
        (get_centered_text_x_coordo(config.choices[i], true) as i16 + config.offset.0) as u16
    }
}

/// Writes line `cursor_pos` of a menu, in the alternate color when it is
/// selected, with a small mark to its left (in the background color when not selected).
pub fn draw_selection_string(cursor_pos: u8, color: &ColorConfig, config: &MenuConfig, selected: bool, horizontal: bool) -> (ops: [DrawOp<'static>; 2])
    requires
        selection_x_ok(*config, cursor_pos, horizontal),
        selection_y_ok(*config, cursor_pos, horizontal),
        spec_selection_y(*config, cursor_pos, horizontal) + LARGE_CHAR_HEIGHT / 2 <= u16::MAX,
        spec_selection_x(*config, cursor_pos, horizontal) <= 15 ==> spec_selection_x(*config, cursor_pos, horizontal) >= 2,
    ensures
        ({
            let x = spec_selection_x(*config, cursor_pos, horizontal);
            let y = spec_selection_y(*config, cursor_pos, horizontal);
            &&& ops[0] == (DrawOp::Text {
                text: config.choices@[cursor_pos as int],
                pos: Point { x, y },
                large: true,
                text_color: if selected { color.alt } else { color.text },
                background: color.bckgrd,
            })
            &&& ops[1] == (DrawOp::FillRect {
                rect: Rect {
                    x: if x > 15 { (x - 15) as u16 } else { 0 },
                    y: (y + LARGE_CHAR_HEIGHT / 2) as u16,
                    width: if x > 15 { 10 } else { (x - 2) as u16 },
                    height: 2,
                },
                color: if selected { color.alt } else { color.bckgrd },
            })
        }),
{
    let text: &'static str = config.choices[cursor_pos as usize];
    let y_pos = selection_y(config, cursor_pos, horizontal);
    let x_coordos = selection_x(config, cursor_pos, horizontal);
    [
        DrawOp::Text {
            text,
            pos: Point { x: x_coordos, y: y_pos },
            large: true,
            text_color: if selected { color.alt } else { color.text },
            background: color.bckgrd,
        },
        DrawOp::FillRect {
            rect: Rect {
                x: if x_coordos > 15 { x_coordos - 15 } else { 0 },
                y: y_pos + LARGE_CHAR_HEIGHT / 2,
                width: if x_coordos > 15 { 10 } else { x_coordos - 2 },
                height: 2,
            },
            color: if selected { color.alt } else { color.bckgrd },
        },
    ]
}

} // verus!
