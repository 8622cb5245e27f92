//! Options of a game menu: a name and a list of values, one of them chosen.

use vstd::prelude::*;

use crate::eadk::{key, key_bit, State};
use crate::menu::REPETITION_SPEED;

verus! {

/// The value of an option: a flag or a number.
#[derive(Clone, Copy, Debug, PartialEq, Eq, Structural)]
pub enum OptionType {
    Bool(bool),
    Int(u16),
}

/// The values an option can take, each with the text shown for it, in order.
pub uninterp spec fn option_values(v: heapless::Vec<(OptionType, &'static str), 10>) -> Seq<(OptionType, &'static str)>;

/// `heapless::Vec::len` on the values of an option; never above the capacity, 10.
#[verifier::external_body]
fn values_len(v: &heapless::Vec<(OptionType, &'static str), 10>) -> (n: usize)
    ensures
        n == option_values(*v).len(),
        n <= 10,
{
    v.len()
}

/// Value `i` of an option, by `heapless::Vec` indexing.
#[verifier::external_body]
fn values_get<'a>(v: &'a heapless::Vec<(OptionType, &'static str), 10>, i: usize) -> (r: &'a (OptionType, &'static str))
    requires
        i < option_values(*v).len(),
    ensures
        *r == option_values(*v)[i as int],
{
    &v[i]
}

/// An option: its name, the index of its current value, and its values.
pub struct MyOption {
    pub name: &'static str,
    pub value: usize,
    pub possible_values: heapless::Vec<(OptionType, &'static str), 10>,
}

impl MyOption {
    /// The values of the option.
    pub open spec fn values(&self) -> Seq<(OptionType, &'static str)> {
        option_values(self.possible_values)
    }

    /// Moves to the next value, back to the first after the last.
    pub fn increment_value(&mut self)
        requires
            old(self).values().len() > 0,
            old(self).value < usize::MAX,
        ensures
            final(self).value == (if old(self).value == old(self).values().len() - 1 { 0 } else { old(self).value + 1 }),
            final(self).name == old(self).name,
            final(self).values() == old(self).values(),
    {
        if self.value == values_len(&self.possible_values) - 1 {
            self.value = 0
        } else {
            self.value += 1
        }
    }

    /// The current value and its text.
    pub fn get_value(&self) -> (r: &(OptionType, &'static str))
        requires
            self.value < self.values().len(),
        ensures
            *r == self.values()[self.value as int],
    {
        values_get(&self.possible_values, self.value)
    }

    /// The current value, as the type it stands for.
    pub fn get_param_value<T: FromValue>(&self) -> (r: T)
        requires
            self.value < self.values().len(),
            T::accepts(self.values()[self.value as int].0),
        ensures
            r == T::of_value(self.values()[self.value as int].0),
    {
        let v = values_get(&self.possible_values, self.value);
        T::from_value(&v.0)
    }
}

/// Types that an option value can be read as.
pub trait FromValue: Sized {
    /// The values that can be read as this type.
    spec fn accepts(value: OptionType) -> bool;

    /// What a value reads as.
    spec fn of_value(value: OptionType) -> Self;

    fn from_value(value: &OptionType) -> (r: Self)
        requires
            Self::accepts(*value),
        ensures
            r == Self::of_value(*value),
    ;
}

impl FromValue for bool {
    open spec fn accepts(value: OptionType) -> bool {
        value is Bool
    }

    open spec fn of_value(value: OptionType) -> bool {
        match value {
            OptionType::Bool(b) => b,
            OptionType::Int(_) => false,
        }
    }

    fn from_value(value: &OptionType) -> (r: bool) {
        match value {
            OptionType::Bool(b) => *b,
            OptionType::Int(_) => vstd::pervasive::unreached(),
        }
    }
}

impl FromValue for u16 {
    open spec fn accepts(value: OptionType) -> bool {
        value is Int
    }

    open spec fn of_value(value: OptionType) -> u16 {
        match value {
            OptionType::Int(n) => n,
            OptionType::Bool(_) => 0,
        }
    }

    fn from_value(value: &OptionType) -> (r: u16) {
        match value {
            OptionType::Int(n) => *n,
            OptionType::Bool(_) => vstd::pervasive::unreached(),
        }
    }
}


/// The cursor of the options menu: the option selected, the time of the
/// last action and the key of that action.
#[derive(Clone, Copy, Debug, PartialEq, Eq, Structural)]
pub struct OptionsCursor {
    pub cursor_pos: u16,
    pub last_action: u64,
    pub last_action_key: u32,
}

/// What a step of the options menu did.
#[derive(Clone, Copy, Debug, PartialEq, Eq, Structural)]
pub enum OptionsEvent {
    /// Back was pressed: leave the menu.
    Exit,
    /// The cursor moved, from option `from`.
    Moved { from: u16 },
    /// The selected option went to its next value.
    Changed,
    /// Nothing to do.
    Idle,
}

/// What one step of the options menu does, from cursor `o` and selected
/// option `s`, with `count` options and the keys `k` down at time `now`:
/// the cursor becomes `c`, the option `t`, and the step answers `e`.
pub open spec fn options_outcome(o: OptionsCursor, s: MyOption, count: u16, k: u64, now: u64, c: OptionsCursor, t: MyOption, e: OptionsEvent) -> bool {
    let timed = now >= o.last_action + REPETITION_SPEED;
    if key_bit(k, key::BACK) {
        e == OptionsEvent::Exit && c == o && t == s
    } else if (key_bit(k, key::UP) || key_bit(k, key::DOWN)) && timed {
        &&& t == s
        &&& e == (OptionsEvent::Moved { from: o.cursor_pos })
        &&& c.last_action == now
        &&& if key_bit(k, key::UP) {
            &&& c.last_action_key == key::UP
            &&& c.cursor_pos == (if o.cursor_pos > 0 { o.cursor_pos - 1 } else { count - 1 })
        } else {
            &&& c.last_action_key == key::DOWN
            &&& c.cursor_pos == (if o.cursor_pos + 1 < count { o.cursor_pos + 1 } else { 0 })
        }
    } else if key_bit(k, key::OK) && timed {
        &&& e == OptionsEvent::Changed
        &&& c == (OptionsCursor { last_action: now, last_action_key: key::OK, ..o })
        &&& t.name == s.name && t.values() == s.values()
        &&& t.value == (if s.value == s.values().len() - 1 { 0 } else { s.value + 1 })
    } else if !key_bit(k, o.last_action_key) {
        e == OptionsEvent::Idle && c == (OptionsCursor { last_action: 0, ..o }) && t == s
    } else {
        e == OptionsEvent::Idle && c == o && t == s
    }
}

/// One step of the options menu at time `now`, `selected` being the option
/// under the cursor among `count`: Back leaves; Up and Down move the cursor
/// (at most every 200 ms while held), round from one end to the other; OK
/// moves the selected option to its next value (at most every 200 ms).
/// Releasing the key of the last action allows an immediate new one.
pub fn options_step(cursor: &mut OptionsCursor, selected: &mut MyOption, count: u16, keys: &State, now: u64) -> (e: OptionsEvent)
    requires
        old(cursor).cursor_pos < count,
        old(cursor).last_action + REPETITION_SPEED <= u64::MAX,
        old(selected).values().len() > 0,
        old(selected).value < usize::MAX,
    ensures
        final(cursor).cursor_pos < count,
        options_outcome(*old(cursor), *old(selected), count, keys@, now, *final(cursor), *final(selected), e),
{
    let timed = now >= cursor.last_action + REPETITION_SPEED as u64;
    if keys.key_down(key::BACK) {
        return OptionsEvent::Exit;
    }
    if (keys.key_down(key::UP) || keys.key_down(key::DOWN)) && timed {
        let from = cursor.cursor_pos;
        if keys.key_down(key::UP) {
            cursor.cursor_pos = if cursor.cursor_pos > 0 { cursor.cursor_pos - 1 } else { count - 1 };
            cursor.last_action_key = key::UP;
        } else {
            cursor.cursor_pos = if cursor.cursor_pos + 1 < count { cursor.cursor_pos + 1 } else { 0 };
            cursor.last_action_key = key::DOWN;
        }
        cursor.last_action = now;
        return OptionsEvent::Moved { from };
    }
    if keys.key_down(key::OK) && timed {
        selected.increment_value();
        cursor.last_action_key = key::OK;
        cursor.last_action = now;
        return OptionsEvent::Changed;
    }
    if !keys.key_down(cursor.last_action_key) {
        cursor.last_action = 0;
    }
    OptionsEvent::Idle
}

} // verus!
