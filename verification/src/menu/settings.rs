//! Settings: values chosen in a list or typed as numbers, shown a few per
//! page, and stored between runs.

use vstd::prelude::*;

use crate::eadk::{key, key_bit, State, SCREEN_HEIGHT};
use crate::menu::{REPETITION_SPEED, SPACE_BETWEEN_LINES};
use crate::utils::{all_ascii, decimal, lemma_decimal_u16, string_from_u16, string6_char, string6_len, string6_view, LARGE_CHAR_HEIGHT};

verus! {

/// Most values a setting can take, and most values stored in a file.
pub const MAX_SETTINGS_VALUES: usize = 16;

/// Abscissa of the names of the settings.
pub const XPOS_NAMES: u16 = 30;

/// Abscissa of the values of the settings.
pub const XPOS_VALUES: u16 = 170;

/// Most settings on one page.
pub const MAX_ITEMS_PER_PAGE: u16 = 5;

/// The values of a setting.
pub uninterp spec fn values_view(v: heapless::Vec<u32, 16>) -> Seq<u32>;

/// The texts of the values of a setting.
pub uninterp spec fn texts_view(v: heapless::Vec<&'static str, 16>) -> Seq<&'static str>;

/// The characters of a string of capacity 16.
pub uninterp spec fn string16_view(s: heapless::String<16>) -> Seq<char>;

/// The number of values (`len`, through the slice), at most the capacity.
#[verifier::external_body]
pub(crate) fn values_len(v: &heapless::Vec<u32, 16>) -> (n: usize)
    ensures
        n == values_view(*v).len(),
        n <= 16,
{
    v.len()
}

/// Value `i`.
#[verifier::external_body]
pub(crate) fn values_get(v: &heapless::Vec<u32, 16>, i: usize) -> (x: u32)
    requires
        i < values_view(*v).len(),
    ensures
        x == values_view(*v)[i as int],
{
    v[i]
}

/// `heapless::Vec::push` for values: appends when the capacity (16)
/// allows, else hands the value back and leaves the values unchanged.
#[verifier::external_body]
pub(crate) fn values_push(v: &mut heapless::Vec<u32, 16>, x: u32) -> (r: Result<(), u32>)
    ensures
        r is Ok <==> values_view(*old(v)).len() < 16,
        r is Ok ==> values_view(*final(v)) == values_view(*old(v)).push(x),
        r is Err ==> values_view(*final(v)) == values_view(*old(v)),
{
    v.push(x)
}

/// `heapless::Vec::new` for values: none.
#[verifier::external_body]
pub(crate) fn values_new() -> (v: heapless::Vec<u32, 16>)
    ensures
        values_view(v) == Seq::<u32>::empty(),
{
    heapless::Vec::new()
}

/// Writes value `i`, by mutable indexing.
#[verifier::external_body]
pub(crate) fn values_set(v: &mut heapless::Vec<u32, 16>, i: usize, x: u32)
    requires
        i < values_view(*old(v)).len(),
    ensures
        values_view(*final(v)) == values_view(*old(v)).update(i as int, x),
{
    v[i] = x;
}

/// The number of texts (`len`, through the slice), at most the capacity.
#[verifier::external_body]
pub(crate) fn texts_len(v: &heapless::Vec<&'static str, 16>) -> (n: usize)
    ensures
        n == texts_view(*v).len(),
        n <= 16,
{
    v.len()
}

/// Text `i`.
#[verifier::external_body]
pub(crate) fn texts_get(v: &heapless::Vec<&'static str, 16>, i: usize) -> (t: &'static str)
    requires
        i < texts_view(*v).len(),
    ensures
        t == texts_view(*v)[i as int],
{
    v[i]
}

/// A setting: its name, the position of its current choice, its values and
/// their texts, whether the player may change it, and whether its values
/// are a list to go through (else `values` holds a number and its bounds).
pub struct Setting {
    pub name: &'static str,
    pub choice: usize,
    pub values: heapless::Vec<u32, 16>,
    pub texts: heapless::Vec<&'static str, 16>,
    pub user_modifiable: bool,
    pub fixed_values: bool,
}

impl Setting {
    /// The values, as a sequence.
    pub open spec fn vals(&self) -> Seq<u32> {
        values_view(self.values)
    }

    /// The choice after one step forward: the next value, back to the first after the last.
    pub open spec fn next_choice(&self) -> int {
        if self.choice == self.vals().len() - 1 { 0 } else { self.choice + 1 }
    }

    /// The choice after one step backward: the previous value, to the last before the first.
    pub open spec fn prev_choice(&self) -> int {
        if self.choice == 0 { self.vals().len() - 1 } else { self.choice - 1 }
    }

    /// Moves to the next value, back to the first after the last.
    pub fn increment_value(&mut self)
        requires
            old(self).vals().len() >= 1,
            old(self).choice < usize::MAX,
        ensures
            final(self).choice == old(self).next_choice(),
            final(self).vals() == old(self).vals(),
            final(self).texts == old(self).texts,
            final(self).name == old(self).name,
            final(self).fixed_values == old(self).fixed_values,
            final(self).user_modifiable == old(self).user_modifiable,
    {
        if self.choice == values_len(&self.values) - 1 {
            self.choice = 0;
        } else {
            self.choice = self.choice + 1;
        }
    }

    /// Moves to the previous value, to the last before the first.
    pub fn decrement_value(&mut self)
        requires
            old(self).vals().len() >= 1,
        ensures
            final(self).choice == old(self).prev_choice(),
            final(self).vals() == old(self).vals(),
            final(self).texts == old(self).texts,
            final(self).name == old(self).name,
            final(self).fixed_values == old(self).fixed_values,
            final(self).user_modifiable == old(self).user_modifiable,
    {
        if self.choice == 0 {
            self.choice = values_len(&self.values) - 1;
        } else {
            self.choice = self.choice - 1;
        }
    }

    /// The position written by `set_value`: the first for a list, the current choice for a number.
    pub open spec fn value_slot(&self) -> int {
        if self.fixed_values { 0 } else { self.choice as int }
    }

    /// Stores `value` in the slot of the setting.
    pub fn set_value(&mut self, value: u32)
        requires
            old(self).value_slot() < old(self).vals().len(),
        ensures
            final(self).vals() == old(self).vals().update(old(self).value_slot(), value),
            final(self).choice == old(self).choice,
            final(self).texts == old(self).texts,
            final(self).name == old(self).name,
            final(self).fixed_values == old(self).fixed_values,
            final(self).user_modifiable == old(self).user_modifiable,
    {
        let slot: usize = if self.fixed_values { 0 } else { self.choice };
        values_set(&mut self.values, slot, value);
    }

    /// The text of the current choice.
    pub fn get_text(&self) -> (t: &'static str)
        requires
            self.choice < texts_view(self.texts).len(),
        ensures
            t == texts_view(self.texts)[self.choice as int],
    {
        texts_get(&self.texts, self.choice)
    }

    /// The value of the current choice.
    pub fn get_setting_value(&self) -> (v: u32)
        requires
            self.choice < self.vals().len(),
        ensures
            v == self.vals()[self.choice as int],
    {
        values_get(&self.values, self.choice)
    }

    /// Takes the value stored in a file: the choice of a list, or the
    /// number itself (the choice going back to the first slot).
    pub fn set_value_from_file(&mut self, stored: u32)
        requires
            !old(self).fixed_values ==> old(self).vals().len() >= 1,
        ensures
            old(self).fixed_values ==> final(self).choice == stored && final(self).vals() == old(self).vals(),
            !old(self).fixed_values ==> final(self).choice == 0 && final(self).vals() == old(self).vals().update(0, stored),
            final(self).fixed_values == old(self).fixed_values,
    {
        if self.fixed_values {
            self.choice = stored as usize;
        } else {
            self.choice = 0;
            self.set_value(stored);
        }
    }

    /// The value to store in a file: the choice of a list, or the number.
    pub fn stored_value(&self) -> (v: u32)
        requires
            !self.fixed_values ==> self.vals().len() >= 1,
            self.fixed_values ==> self.choice <= u32::MAX,
        ensures
            v == (if self.fixed_values { self.choice as u32 } else { self.vals()[0] }),
    {
        if self.fixed_values {
            self.choice as u32
        } else {
            values_get(&self.values, 0)
        }
    }
}

impl Setting {
    /// The text of the current choice, `None` when there is none.
    pub fn current_text(&self) -> (t: Option<&'static str>)
        ensures
            t == (if self.choice < texts_view(self.texts).len() { Some(texts_view(self.texts)[self.choice as int]) } else { None }),
    {
        if self.choice < texts_len(&self.texts) {
            Some(self.get_text())
        } else {
            None
        }
    }

    /// The value of the current choice, `None` when there is none.
    pub fn current_value(&self) -> (v: Option<u32>)
        ensures
            v == (if self.choice < self.vals().len() { Some(self.vals()[self.choice as int]) } else { None }),
    {
        if self.choice < values_len(&self.values) {
            Some(self.get_setting_value())
        } else {
            None
        }
    }

    /// Takes the value stored in a file, when the setting can hold it (a
    /// number needs a slot); returns whether it did.
    pub fn load_from_file(&mut self, stored: u32) -> (done: bool)
        ensures
            done == (old(self).fixed_values || old(self).vals().len() >= 1),
            done && old(self).fixed_values ==> final(self).choice == stored && final(self).vals() == old(self).vals(),
            done && !old(self).fixed_values ==> final(self).choice == 0 && final(self).vals() == old(self).vals().update(0, stored),
            !done ==> final(self).choice == old(self).choice && final(self).vals() == old(self).vals(),
    {
        if self.fixed_values || values_len(&self.values) >= 1 {
            self.set_value_from_file(stored);
            true
        } else {
            false
        }
    }

    /// The value to store in a file, `None` when a number has no slot or a
    /// choice does not fit 32 bits.
    pub fn value_to_store(&self) -> (v: Option<u32>)
        ensures
            v == (if self.fixed_values {
                if self.choice <= u32::MAX { Some(self.choice as u32) } else { None }
            } else if self.vals().len() >= 1 {
                Some(self.vals()[0])
            } else {
                None
            }),
    {
        if self.fixed_values {
            if self.choice as u64 <= u32::MAX as u64 {
                Some(self.stored_value())
            } else {
                None
            }
        } else if values_len(&self.values) >= 1 {
            Some(self.stored_value())
        } else {
            None
        }
    }
}

/// Going forward then backward through the values of a setting comes back
/// to the same choice, and so does going backward then forward.
pub proof fn lemma_increment_decrement_inverse(choice: int, len: int)
    requires
        0 <= choice < len,
    ensures
        ({
            let next = if choice == len - 1 { 0 } else { choice + 1 };
            let prev_of_next = if next == 0 { len - 1 } else { next - 1 };
            prev_of_next == choice
        }),
        ({
            let prev = if choice == 0 { len - 1 } else { choice - 1 };
            let next_of_prev = if prev == len - 1 { 0 } else { prev + 1 };
            next_of_prev == choice
        }),
{
}

/// The number of settings shown on page `page` of `total_items`.
pub open spec fn spec_items_on_page(page: u16, total_items: u16) -> int {
    let start = page * MAX_ITEMS_PER_PAGE;
    if start >= total_items {
        0
    } else if total_items - start <= MAX_ITEMS_PER_PAGE {
        total_items - start
    } else {
        MAX_ITEMS_PER_PAGE as int
    }
}

/// Returns the number of items displayed on a given page.
pub fn items_on_page(page: u16, total_items: u16) -> (n: u16)
    requires
        page * MAX_ITEMS_PER_PAGE <= u16::MAX,
    ensures
        n == spec_items_on_page(page, total_items),
        n <= MAX_ITEMS_PER_PAGE,
{
    let start: u16 = page * MAX_ITEMS_PER_PAGE;
    if start >= total_items {
        0
    } else if total_items - start <= MAX_ITEMS_PER_PAGE {
        total_items - start
    } else {
        MAX_ITEMS_PER_PAGE
    }
}

/// The top of the list of a page of `items_in_page` settings: the list is
/// centered vertically, and starts at 0 when it does not fit.
pub open spec fn spec_first_y(items_in_page: u16) -> int {
    let total = (SCREEN_HEIGHT + LARGE_CHAR_HEIGHT) as int;
    let used = (LARGE_CHAR_HEIGHT + SPACE_BETWEEN_LINES) * items_in_page;
    if used >= total { 0 } else { (total - used) / 2 }
}

/// Computes the top Y coordinate for the settings list on the current page.
pub fn calculate_first_y(items_in_page: u16) -> (y: u16)
    requires
        (LARGE_CHAR_HEIGHT + SPACE_BETWEEN_LINES) * items_in_page <= u16::MAX,
    ensures
        y == spec_first_y(items_in_page),
{
    match (SCREEN_HEIGHT + LARGE_CHAR_HEIGHT).checked_sub((LARGE_CHAR_HEIGHT + SPACE_BETWEEN_LINES) * items_in_page) {
        None => 0,
        Some(x) => if x == 0 { 0 } else { x / 2 },
    }
}

/// The height of the setting in slot `slot` of a page.
pub open spec fn spec_item_y(first_y: u16, slot: u16) -> int {
    first_y + (LARGE_CHAR_HEIGHT + SPACE_BETWEEN_LINES) * slot
}

/// Computes the Y coordinate of an item given its slot index within the page.
pub fn item_y(first_y: u16, slot: u16) -> (y: u16)
    requires
        spec_item_y(first_y, slot) <= u16::MAX,
    ensures
        y == spec_item_y(first_y, slot),
{
    first_y + (LARGE_CHAR_HEIGHT + SPACE_BETWEEN_LINES) * slot
}

/// `heapless::String::new`: an empty string.
#[verifier::external_body]
fn string16_new() -> (s: heapless::String<16>)
    ensures
        string16_view(s) == Seq::<char>::empty(),
{
    heapless::String::new()
}

/// `heapless::String::push` of an ASCII character on an ASCII string: it
/// takes one byte, so it fits while fewer than 16 characters are there;
/// otherwise the string is unchanged.
#[verifier::external_body]
fn string16_push(s: &mut heapless::String<16>, c: char) -> (r: Result<(), ()>)
    requires
        (c as u32) < 128,
        all_ascii(string16_view(*old(s))),
    ensures
        r is Ok <==> string16_view(*old(s)).len() < 16,
        r is Ok ==> string16_view(*final(s)) == string16_view(*old(s)).push(c),
        r is Err ==> string16_view(*final(s)) == string16_view(*old(s)),
{
    s.push(c)
}

/// Appends the decimal writing of `n` (without its NUL) to `s`.
fn push_decimal(s: &mut heapless::String<16>, n: u16)
    requires
        all_ascii(string16_view(*old(s))),
        string16_view(*old(s)).len() + 5 <= 16,
    ensures
        string16_view(*final(s)) == string16_view(*old(s)) + decimal(n as nat),
        all_ascii(string16_view(*final(s))),
{
    let text = string_from_u16(n);
    proof {
        lemma_decimal_u16(n);
    }
    let count: usize = string6_len(&text) - 1;
    let ghost start = string16_view(*s);
    let ghost d = decimal(n as nat);
    let mut i: usize = 0;
    while i < count
        invariant
            string6_view(text) == d.push('\0'),
            count == d.len(),
            d.len() <= 5,
            all_ascii(d),
            all_ascii(start),
            start.len() + 5 <= 16,
            i <= count,
            string16_view(*s) == start + d.subrange(0, i as int),
        decreases count - i,
    {
        let c = string6_char(&text, i);
        assert(c == d[i as int]);
        let ghost before = string16_view(*s);
        assert(all_ascii(before)) by {
            assert forall|k: int| 0 <= k < before.len() implies (#[trigger] before[k] as u32) < 128 by {
                if k >= start.len() {
                    assert(before[k] == d[k - start.len()]);
                }
            }
        }
        let _ = string16_push(s, c);
        assert(string16_view(*s) =~= start + d.subrange(0, i + 1));
        i += 1;
    }
    assert(d.subrange(0, count as int) =~= d);
    assert forall|k: int| 0 <= k < string16_view(*s).len() implies (#[trigger] string16_view(*s)[k] as u32) < 128 by {
        if k >= start.len() {
            assert(string16_view(*s)[k] == d[k - start.len()]);
        }
    }
}

/// The page counter: the page number, counted from 1, a slash, the number
/// of pages, and a NUL.
pub fn format_page_counter(current_page: u16, total_pages: u16) -> (s: heapless::String<16>)
    requires
        current_page < u16::MAX,
    ensures
        string16_view(s) == decimal((current_page + 1) as nat) + seq!['/'] + decimal(total_pages as nat) + seq!['\0'],
{
    proof {
        lemma_decimal_u16((current_page + 1) as u16);
        lemma_decimal_u16(total_pages);
    }
    let mut s = string16_new();
    push_decimal(&mut s, current_page + 1);
    let _ = string16_push(&mut s, '/');
    push_decimal(&mut s, total_pages);
    let _ = string16_push(&mut s, '\0');
    assert(string16_view(s) =~= decimal((current_page + 1) as nat) + seq!['/'] + decimal(total_pages as nat) + seq!['\0']);
    s
}

/// The number of pages for `items` settings, five per page.
pub fn page_count(items: u16) -> (p: u16)
    requires
        items + MAX_ITEMS_PER_PAGE <= u16::MAX,
    ensures
        p == (items + MAX_ITEMS_PER_PAGE - 1) / (MAX_ITEMS_PER_PAGE as int),
{
    (items + MAX_ITEMS_PER_PAGE - 1) / MAX_ITEMS_PER_PAGE
}

/// Every setting is on a page, and the pages hold them all: page `p` of
/// the `(n + 4) / 5` pages shows settings `5p` to `5p + items_on_page - 1`.
pub proof fn lemma_pages_cover(items: u16, page: u16)
    requires
        page * MAX_ITEMS_PER_PAGE <= u16::MAX,
        (page as int) < (items + MAX_ITEMS_PER_PAGE - 1) / (MAX_ITEMS_PER_PAGE as int),
    ensures
        spec_items_on_page(page, items) >= 1,
        page * MAX_ITEMS_PER_PAGE + spec_items_on_page(page, items) <= items,
        (page as int) + 1 == (items + MAX_ITEMS_PER_PAGE - 1) / (MAX_ITEMS_PER_PAGE as int) ==> page * MAX_ITEMS_PER_PAGE + spec_items_on_page(page, items) == items,
{
}

/// The cursor of the settings menu: its page, its slot on the page, the
/// top of the list on that page, the time of its last action and the key
/// of that action.
#[derive(Clone, Copy, Debug, PartialEq, Eq, Structural)]
pub struct SettingsCursor {
    pub current_page: u16,
    pub cursor_pos: u16,
    pub first_y: u16,
    pub last_action: u64,
    pub last_action_key: u32,
}

/// What a step of the settings menu did.
#[derive(Clone, Copy, Debug, PartialEq, Eq, Structural)]
pub enum SettingsEvent {
    /// Back was pressed: leave the menu.
    Exit,
    /// The cursor moved on the page, from slot `from`.
    Moved { from: u16 },
    /// The cursor moved to another page, which is redrawn.
    PageChanged,
    /// The selected setting changed.
    Edited,
    /// The selected number is to be typed in, between its bounds.
    AskNumber,
    /// Nothing to do.
    Idle,
}

impl SettingsCursor {
    /// The position of the selected setting among the visible ones.
    pub open spec fn spec_selected_index(self) -> int {
        self.current_page * MAX_ITEMS_PER_PAGE + self.cursor_pos
    }

    /// The position of the selected setting among the visible ones.
    pub fn selected_index(&self) -> (i: usize)
        requires
            self.spec_selected_index() <= u16::MAX,
        ensures
            i == self.spec_selected_index(),
    {
        (self.current_page * MAX_ITEMS_PER_PAGE + self.cursor_pos) as usize
    }
}

/// The cursor stays on a setting: on an existing page, on a slot of it.
pub open spec fn cursor_ok(c: SettingsCursor, items_number: u16, pages: u16) -> bool {
    &&& (c.current_page as int) < pages
    &&& pages == (items_number + MAX_ITEMS_PER_PAGE - 1) / (MAX_ITEMS_PER_PAGE as int)
    &&& items_number + MAX_ITEMS_PER_PAGE <= u16::MAX
    &&& (c.cursor_pos as int) < spec_items_on_page(c.current_page, items_number)
}

/// What one step of the settings menu does, from cursor `o` and selected
/// setting `s`, with the keys `k` down at time `now`: the cursor becomes `c`,
/// the setting `t`, and the step answers `e`.
pub open spec fn selection_step(o: SettingsCursor, s: Setting, k: u64, now: u64, items_number: u16, pages: u16, c: SettingsCursor, t: Setting, e: SettingsEvent) -> bool {
    let timed = now >= o.last_action + REPETITION_SPEED;
    if key_bit(k, key::BACK) {
        e == SettingsEvent::Exit && c == o && t == s
    } else if (key_bit(k, key::UP) || key_bit(k, key::DOWN)) && timed {
        &&& t == s
        &&& c.last_action == now
        &&& if key_bit(k, key::UP) {
            &&& c.last_action_key == key::UP
            &&& if o.cursor_pos > 0 {
                e == SettingsEvent::Moved { from: o.cursor_pos } && c.cursor_pos == o.cursor_pos - 1
                    && c.current_page == o.current_page && c.first_y == o.first_y
            } else if o.current_page > 0 {
                &&& e == SettingsEvent::PageChanged
                &&& c.current_page == o.current_page - 1
                &&& c.cursor_pos == spec_items_on_page((o.current_page - 1) as u16, items_number) - 1
                &&& c.first_y == spec_first_y(spec_items_on_page((o.current_page - 1) as u16, items_number) as u16)
            } else {
                e == SettingsEvent::Idle && c.cursor_pos == o.cursor_pos && c.current_page == o.current_page
                    && c.first_y == o.first_y
            }
        } else {
            &&& c.last_action_key == key::DOWN
            &&& if o.cursor_pos + 1 < spec_items_on_page(o.current_page, items_number) {
                e == SettingsEvent::Moved { from: o.cursor_pos } && c.cursor_pos == o.cursor_pos + 1
                    && c.current_page == o.current_page && c.first_y == o.first_y
            } else if o.current_page + 1 < pages {
                &&& e == SettingsEvent::PageChanged
                &&& c.current_page == o.current_page + 1
                &&& c.cursor_pos == 0
                &&& c.first_y == spec_first_y(spec_items_on_page((o.current_page + 1) as u16, items_number) as u16)
            } else {
                e == SettingsEvent::Idle && c.cursor_pos == o.cursor_pos && c.current_page == o.current_page
                    && c.first_y == o.first_y
            }
        }
    } else if (key_bit(k, key::OK) || key_bit(k, key::RIGHT) || key_bit(k, key::LEFT)) && timed {
        &&& c.current_page == o.current_page
        &&& c.cursor_pos == o.cursor_pos
        &&& c.first_y == o.first_y
        &&& c.last_action == now
        &&& t.name == s.name && t.texts == s.texts && t.user_modifiable == s.user_modifiable && t.fixed_values == s.fixed_values
        &&& t.choice == (if s.fixed_values && !key_bit(k, key::OK) && !key_bit(k, key::RIGHT) {
            s.prev_choice()
        } else if s.fixed_values {
            s.next_choice()
        } else {
            s.choice as int
        })
        &&& t.vals() == (if s.fixed_values || key_bit(k, key::OK) {
            s.vals()
        } else if key_bit(k, key::RIGHT) {
            if s.vals()[0] < s.vals()[2] { s.vals().update(0, (s.vals()[0] + 1) as u32) } else { s.vals() }
        } else {
            if s.vals()[0] > s.vals()[1] { s.vals().update(0, (s.vals()[0] - 1) as u32) } else { s.vals() }
        })
        &&& c.last_action_key == (if key_bit(k, key::OK) {
            key::OK
        } else if key_bit(k, key::RIGHT) {
            key::RIGHT
        } else {
            key::LEFT
        })
        &&& e == (if !s.fixed_values && key_bit(k, key::OK) { SettingsEvent::AskNumber } else { SettingsEvent::Edited })
    } else if !key_bit(k, o.last_action_key) {
        e == SettingsEvent::Idle && c == (SettingsCursor { last_action: 0, ..o }) && t == s
    } else {
        e == SettingsEvent::Idle && c == o && t == s
    }
}

/// One step of the settings menu at time `now`, `selected` being the
/// setting under the cursor: Back leaves; Up and Down move the cursor (at
/// most every 200 ms while held), to the neighbouring page at the ends,
/// never past the first or last setting; OK, Right and Left change the
/// selected setting: a list goes to its next value (OK, Right) or previous
/// one (Left); a number is typed in (OK) or moved by one within its bounds
/// (Right, Left). Releasing the key of the last action allows an
/// immediate new one.
pub fn setting_selection(cursor: &mut SettingsCursor, selected: &mut Setting, items_number: u16, pages: u16, keys: &State, now: u64) -> (e: SettingsEvent)
    requires
        cursor_ok(*old(cursor), items_number, pages),
        old(cursor).last_action + REPETITION_SPEED <= u64::MAX,
        old(selected).vals().len() >= 1,
        old(selected).choice < old(selected).vals().len(),
        !old(selected).fixed_values ==> old(selected).vals().len() >= 3 && old(selected).choice == 0,
    ensures
        cursor_ok(*final(cursor), items_number, pages),
        selection_step(*old(cursor), *old(selected), keys@, now, items_number, pages, *final(cursor), *final(selected), e),
{
    let items_in_page = items_on_page(cursor.current_page, items_number);
    let timed = now >= cursor.last_action + REPETITION_SPEED as u64;
    if keys.key_down(key::BACK) {
        return SettingsEvent::Exit;
    }
    if (keys.key_down(key::UP) || keys.key_down(key::DOWN)) && timed {
        let from = cursor.cursor_pos;
        let mut event = SettingsEvent::Idle;
        if keys.key_down(key::UP) {
            if cursor.cursor_pos > 0 {
                cursor.cursor_pos = cursor.cursor_pos - 1;
                event = SettingsEvent::Moved { from };
            } else if cursor.current_page > 0 {
                cursor.current_page = cursor.current_page - 1;
                let count = items_on_page(cursor.current_page, items_number);
                proof {
                    lemma_pages_cover(items_number, cursor.current_page);
                }
                cursor.cursor_pos = count - 1;
                cursor.first_y = calculate_first_y(count);
                event = SettingsEvent::PageChanged;
            }
            cursor.last_action_key = key::UP;
        } else {
            if cursor.cursor_pos < items_in_page - 1 {
                cursor.cursor_pos = cursor.cursor_pos + 1;
                event = SettingsEvent::Moved { from };
            } else if cursor.current_page + 1 < pages {
                cursor.current_page = cursor.current_page + 1;
                cursor.cursor_pos = 0;
                proof {
                    lemma_pages_cover(items_number, cursor.current_page);
                }
                let count = items_on_page(cursor.current_page, items_number);
                cursor.first_y = calculate_first_y(count);
                event = SettingsEvent::PageChanged;
            }
            cursor.last_action_key = key::DOWN;
        }
        cursor.last_action = now;
        return event;
    }
    if (keys.key_down(key::OK) || keys.key_down(key::RIGHT) || keys.key_down(key::LEFT)) && timed {
        let mut event = SettingsEvent::Edited;
        let _count = values_len(&selected.values);
        if !selected.fixed_values {
            if keys.key_down(key::OK) {
                event = SettingsEvent::AskNumber;
                cursor.last_action_key = key::OK;
            } else if keys.key_down(key::RIGHT) {
                let v0 = values_get(&selected.values, 0);
                if v0 < values_get(&selected.values, 2) {
                    selected.set_value(v0 + 1);
                }
                cursor.last_action_key = key::RIGHT;
            } else {
                let v0 = values_get(&selected.values, 0);
                if v0 > values_get(&selected.values, 1) {
                    selected.set_value(v0 - 1);
                }
                cursor.last_action_key = key::LEFT;
            }
        } else if keys.key_down(key::OK) {
            selected.increment_value();
            cursor.last_action_key = key::OK;
        } else if keys.key_down(key::RIGHT) {
            selected.increment_value();
            cursor.last_action_key = key::RIGHT;
        } else {
            selected.decrement_value();
            cursor.last_action_key = key::LEFT;
        }
        cursor.last_action = now;
        return event;
    }
    if !keys.key_down(cursor.last_action_key) {
        cursor.last_action = 0;
    }
    SettingsEvent::Idle
}

/// One step of the settings menu, checked: `None`, with nothing changed,
/// when the cursor is not on a setting of the pages, its time would
/// overflow, or the selected setting is malformed (no value, a choice past
/// its values, or a number without its value and bounds).
pub fn settings_step(cursor: &mut SettingsCursor, selected: &mut Setting, items_number: u16, pages: u16, keys: &State, now: u64) -> (e: Option<SettingsEvent>)
    ensures
        e is None <==> !(cursor_ok(*old(cursor), items_number, pages) && old(cursor).last_action + REPETITION_SPEED <= u64::MAX
            && old(selected).vals().len() >= 1 && old(selected).choice < old(selected).vals().len()
            && (!old(selected).fixed_values ==> old(selected).vals().len() >= 3 && old(selected).choice == 0)),
        e is None ==> *final(cursor) == *old(cursor) && final(selected).vals() == old(selected).vals() && final(selected).choice == old(selected).choice,
        e is Some ==> cursor_ok(*final(cursor), items_number, pages),
        e matches Some(ev) ==> selection_step(*old(cursor), *old(selected), keys@, now, items_number, pages, *final(cursor), *final(selected), ev),
{
    if items_number as u32 + MAX_ITEMS_PER_PAGE as u32 > u16::MAX as u32 {
        return None;
    }
    if pages != (items_number + MAX_ITEMS_PER_PAGE - 1) / MAX_ITEMS_PER_PAGE || cursor.current_page >= pages {
        return None;
    }
    assert(cursor.current_page * MAX_ITEMS_PER_PAGE <= u16::MAX);
    if cursor.cursor_pos >= items_on_page(cursor.current_page, items_number) {
        return None;
    }
    if cursor.last_action > u64::MAX - REPETITION_SPEED as u64 {
        return None;
    }
    let n = values_len(&selected.values);
    if n < 1 || selected.choice >= n {
        return None;
    }
    if !selected.fixed_values && (n < 3 || selected.choice != 0) {
        return None;
    }
    Some(setting_selection(cursor, selected, items_number, pages, keys, now))
}

} // verus!
