//! Text metrics, centering, random ranges and small conversions.

use vstd::prelude::*;
use vstd::string::*;

use crate::eadk::{State, SCREEN_WIDTH};

verus! {

/// Width in pixels of a large character.
pub const LARGE_CHAR_WIDTH: u16 = 9;

/// Width in pixels of a small character.
pub const SMALL_CHAR_WIDTH: u16 = 6;

/// Height in pixels of a large character.
pub const LARGE_CHAR_HEIGHT: u16 = 16;

/// Height in pixels of a small character.
pub const SMALL_CHAR_HEIGHT: u16 = 10;

/// Abscissa of the upper left pixel of the four that make the center of the screen.
pub const CENTER_X: u16 = 160;

/// Ordinate of the upper left pixel of the four that make the center of the screen.
pub const CENTER_Y: u16 = 120;

/// Width of one character of the given size.
pub open spec fn char_width(large: bool) -> int {
    if large {
        LARGE_CHAR_WIDTH as int
    } else {
        SMALL_CHAR_WIDTH as int
    }
}

/// Width in pixels of a text of `len` characters.
pub open spec fn text_width(len: int, large: bool) -> int {
    len * char_width(large)
}

/// Left coordinate that centers a text of width `size` on the screen (0 when it does not fit).
pub open spec fn centered_x(size: int) -> int {
    if size < SCREEN_WIDTH {
        (SCREEN_WIDTH - size) / 2
    } else {
        0
    }
}

/// Returns the size in pixels, on the screen, of the given string.
pub fn get_string_pixel_size(string: &str, large: bool) -> (size: u16)
    requires
        text_width(string@.len() as int, large) <= u16::MAX,
    ensures
        size == text_width(string@.len() as int, large),
{
    let n: usize = string.unicode_len();
    let w: u16 = if large {
        LARGE_CHAR_WIDTH
    } else {
        SMALL_CHAR_WIDTH
    };
    assert(n as int * w as int <= u16::MAX);
    assert(n as int <= u16::MAX) by (nonlinear_arith)
        requires
            n as int * w as int <= u16::MAX,
            w >= 1,
    ;
    (n as u16) * w
}

/// Returns the left x coordinate that centers the given string.
pub fn get_centered_text_x_coordo(string: &str, large: bool) -> (x: u16)
    requires
        text_width(string@.len() as int, large) <= u16::MAX,
    ensures
        x == centered_x(text_width(string@.len() as int, large)),
{
    let size: u16 = get_string_pixel_size(string, large);
    match SCREEN_WIDTH.checked_sub(size) {
        Some(x) => x / 2,
        None => 0,
    }
}

/// The value in `[a, b]` that a random number `random` selects: `a` plus
/// `random` modulo the number of values in the range.
pub open spec fn spec_randint(a: u32, b: u32, random: u32) -> int {
    a + (random as int) % (b - a + 1)
}

/// Gives an integer between `a` and `b` (both included) from a random
/// number drawn by the caller.
pub fn randint(a: u32, b: u32, random: u32) -> (r: u32)
    requires
        a <= b,
    ensures
        r == spec_randint(a, b, random),
        a <= r <= b,
{
    let span: u32 = b - a;
    if span == u32::MAX {
        random
    } else {
        random % (span + 1) + a
    }
}

/// The value of an ASCII decimal digit, `None` for any other byte.
pub fn decimal_to_ascii_number(number: u8) -> (r: Option<u8>)
    ensures
        r == (if 48 <= number <= 57 {
            Some((number - 48) as u8)
        } else {
            None
        }),
{
    if !(48 <= number && number <= 57) {
        None
    } else {
        Some(number - 48)
    }
}

/// One step of waiting until no key is pressed: the wait is over once the
/// scanned keyboard state shows no key held.
pub fn wait_for_no_keydown(keyboard_state: &State) -> (done: bool)
    ensures
        done == (keyboard_state@ == 0),
{
    !keyboard_state.any_down()
}

/// `heapless::String`, a string stored inline with capacity `N` bytes.
#[verifier::external_type_specification]
#[verifier::external_body]
pub struct ExHeaplessString<const N: usize>(heapless::String<N>);

/// The characters of a string of capacity 6.
pub uninterp spec fn string6_view(s: heapless::String<6>) -> Seq<char>;

/// The characters of a string of capacity 11.
pub uninterp spec fn string11_view(s: heapless::String<11>) -> Seq<char>;

/// Whether every character is ASCII (one byte each).
pub open spec fn all_ascii(s: Seq<char>) -> bool {
    forall|i: int| 0 <= i < s.len() ==> (#[trigger] s[i] as u32) < 128
}

/// `heapless::String::new`: an empty string.
#[verifier::external_body]
fn string6_new() -> (s: heapless::String<6>)
    ensures
        string6_view(s) == Seq::<char>::empty(),
{
    heapless::String::new()
}

/// `heapless::String::push` of an ASCII character on an ASCII string: it
/// takes one byte, so it fits while fewer than 6 characters are there;
/// otherwise the string is unchanged.
#[verifier::external_body]
fn string6_push(s: &mut heapless::String<6>, c: char) -> (r: Result<(), ()>)
    requires
        (c as u32) < 128,
        all_ascii(string6_view(*old(s))),
    ensures
        r is Ok <==> string6_view(*old(s)).len() < 6,
        r is Ok ==> string6_view(*final(s)) == string6_view(*old(s)).push(c),
        r is Err ==> string6_view(*final(s)) == string6_view(*old(s)),
{
    s.push(c)
}

/// The number of characters of a string, through `chars().count()`.
#[verifier::external_body]
pub(crate) fn string6_len(s: &heapless::String<6>) -> (n: usize)
    ensures
        n == string6_view(*s).len(),
{
    s.chars().count()
}

/// Character `i` of a string, through `chars().nth(i)`.
#[verifier::external_body]
pub(crate) fn string6_char(s: &heapless::String<6>, i: usize) -> (c: char)
    requires
        i < string6_view(*s).len(),
    ensures
        c == string6_view(*s)[i as int],
{
    s.chars().nth(i).unwrap()
}

/// `heapless::String::new`: an empty string.
#[verifier::external_body]
fn string11_new() -> (s: heapless::String<11>)
    ensures
        string11_view(s) == Seq::<char>::empty(),
{
    heapless::String::new()
}

/// `heapless::String::push` of an ASCII character on an ASCII string: it
/// takes one byte, so it fits while fewer than 11 characters are there;
/// otherwise the string is unchanged.
#[verifier::external_body]
fn string11_push(s: &mut heapless::String<11>, c: char) -> (r: Result<(), ()>)
    requires
        (c as u32) < 128,
        all_ascii(string11_view(*old(s))),
    ensures
        r is Ok <==> string11_view(*old(s)).len() < 11,
        r is Ok ==> string11_view(*final(s)) == string11_view(*old(s)).push(c),
        r is Err ==> string11_view(*final(s)) == string11_view(*old(s)),
{
    s.push(c)
}

/// Character `i` of a string, through `chars().nth(i)`.
#[verifier::external_body]
fn string11_char(s: &heapless::String<11>, i: usize) -> (c: char)
    requires
        i < string11_view(*s).len(),
    ensures
        c == string11_view(*s)[i as int],
{
    s.chars().nth(i).unwrap()
}

/// The character of a decimal digit.
pub open spec fn digit_char(d: int) -> char {
    (d + 48) as char
}

/// The decimal digits of `n`, least significant first (none for 0).
pub open spec fn rev_digits(n: nat) -> Seq<char>
    decreases n,
{
    if n == 0 {
        Seq::empty()
    } else {
        seq![digit_char((n % 10) as int)] + rev_digits(n / 10)
    }
}

/// The decimal writing of `n`, most significant digit first: "0" for 0.
pub open spec fn decimal(n: nat) -> Seq<char> {
    if n == 0 {
        seq!['0']
    } else {
        rev_digits(n).reverse()
    }
}

/// `10^k`.
pub open spec fn pow10(k: nat) -> nat
    decreases k,
{
    if k == 0 { 1 } else { 10 * pow10((k - 1) as nat) }
}

proof fn lemma_rev_digits_len(n: nat, k: nat)
    requires
        n < pow10(k),
    ensures
        rev_digits(n).len() <= k,
        all_ascii(rev_digits(n)),
    decreases n,
{
    if n > 0 {
        if k == 0 {
        } else {
            let b2 = pow10((k - 1) as nat);
            assert(n / 10 < b2) by (nonlinear_arith)
                requires
                    n < 10 * b2,
            ;
            lemma_rev_digits_len(n / 10, (k - 1) as nat);
            let r = rev_digits(n);
            assert forall|i: int| 0 <= i < r.len() implies (#[trigger] r[i] as u32) < 128 by {
                if i > 0 {
                    assert(r[i] == rev_digits(n / 10)[i - 1]);
                }
            }
        }
    }
}

/// The decimal writing of a `u16` has at most five characters, all ASCII.
pub proof fn lemma_decimal_u16(n: u16)
    ensures
        decimal(n as nat).len() <= 5,
        all_ascii(decimal(n as nat)),
{
    if n > 0 {
        reveal_with_fuel(pow10, 6);
        lemma_rev_digits_len(n as nat, 5);
        let r = rev_digits(n as nat);
        let d = decimal(n as nat);
        assert forall|i: int| 0 <= i < d.len() implies (#[trigger] d[i] as u32) < 128 by {
            assert(d[i] == r[r.len() - 1 - i]);
        }
    }
}

/// Returns the decimal writing of a number, followed by a NUL character.
pub fn string_from_u16(number: u16) -> (s: heapless::String<6>)
    ensures
        string6_view(s) == decimal(number as nat).push('\0'),
{
    let mut text = string6_new();
    if number == 0 {
        let _ = string6_push(&mut text, '0');
        let _ = string6_push(&mut text, '\0');
        assert(string6_view(text) =~= decimal(0).push('\0'));
        return text;
    }
    proof {
        reveal_with_fuel(pow10, 6);
        lemma_rev_digits_len(number as nat, 5);
    }
    let mut n: u16 = number;
    let mut cpt: usize = 0;
    while n != 0
        invariant
            rev_digits(number as nat) == string6_view(text) + rev_digits(n as nat),
            rev_digits(number as nat).len() <= 5,
            all_ascii(rev_digits(number as nat)),
            cpt == string6_view(text).len(),
        decreases n,
    {
        let ghost before = string6_view(text);
        assert(all_ascii(before)) by {
            assert forall|i: int| 0 <= i < before.len() implies (#[trigger] before[i] as u32) < 128 by {
                assert(before[i] == rev_digits(number as nat)[i]);
            }
        }
        let c: char = ((n % 10) as u8 + 48) as char;
        assert(c == digit_char((n % 10) as int));
        let _ = string6_push(&mut text, c);
        assert(string6_view(text) + rev_digits((n / 10) as nat) =~= before + rev_digits(n as nat));
        n = n / 10;
        cpt += 1;
    }
    assert(string6_view(text) =~= rev_digits(number as nat));
    let mut second_text = string6_new();
    let mut i: usize = cpt;
    while i > 0
        invariant
            i <= cpt,
            cpt == string6_view(text).len(),
            cpt <= 5,
            string6_view(text) == rev_digits(number as nat),
            all_ascii(string6_view(text)),
            string6_view(second_text) =~= string6_view(text).subrange(i as int, cpt as int).reverse(),
        decreases i,
    {
        let c = string6_char(&text, i - 1);
        let ghost before = string6_view(second_text);
        assert(all_ascii(before)) by {
            assert forall|k: int| 0 <= k < before.len() implies (#[trigger] before[k] as u32) < 128 by {
                assert(before[k] == string6_view(text)[cpt - 1 - k]);
            }
        }
        assert((c as u32) < 128);
        let _ = string6_push(&mut second_text, c);
        i -= 1;
    }
    assert(string6_view(text).subrange(0, cpt as int) =~= string6_view(text));
    let ghost digits = string6_view(second_text);
    assert(all_ascii(digits)) by {
        assert forall|k: int| 0 <= k < digits.len() implies (#[trigger] digits[k] as u32) < 128 by {
            assert(digits[k] == string6_view(text)[cpt - 1 - k]);
        }
    }
    let _ = string6_push(&mut second_text, '\0');
    second_text
}

/// Returns the decimal writing of a number, followed by a NUL character.
pub fn string_from_u32(number: u32) -> (s: heapless::String<11>)
    ensures
        string11_view(s) == decimal(number as nat).push('\0'),
{
    let mut text = string11_new();
    if number == 0 {
        let _ = string11_push(&mut text, '0');
        let _ = string11_push(&mut text, '\0');
        assert(string11_view(text) =~= decimal(0).push('\0'));
        return text;
    }
    proof {
        reveal_with_fuel(pow10, 11);
        lemma_rev_digits_len(number as nat, 10);
    }
    let mut n: u32 = number;
    let mut cpt: usize = 0;
    while n != 0
        invariant
            rev_digits(number as nat) == string11_view(text) + rev_digits(n as nat),
            rev_digits(number as nat).len() <= 10,
            all_ascii(rev_digits(number as nat)),
            cpt == string11_view(text).len(),
        decreases n,
    {
        let ghost before = string11_view(text);
        assert(all_ascii(before)) by {
            assert forall|i: int| 0 <= i < before.len() implies (#[trigger] before[i] as u32) < 128 by {
                assert(before[i] == rev_digits(number as nat)[i]);
            }
        }
        let c: char = ((n % 10) as u8 + 48) as char;
        assert(c == digit_char((n % 10) as int));
        let _ = string11_push(&mut text, c);
        assert(string11_view(text) + rev_digits((n / 10) as nat) =~= before + rev_digits(n as nat));
        n = n / 10;
        cpt += 1;
    }
    assert(string11_view(text) =~= rev_digits(number as nat));
    let mut second_text = string11_new();
    let mut i: usize = cpt;
    while i > 0
        invariant
            i <= cpt,
            cpt == string11_view(text).len(),
            cpt <= 10,
            string11_view(text) == rev_digits(number as nat),
            all_ascii(string11_view(text)),
            string11_view(second_text) =~= string11_view(text).subrange(i as int, cpt as int).reverse(),
        decreases i,
    {
        let c = string11_char(&text, i - 1);
        let ghost before = string11_view(second_text);
        assert(all_ascii(before)) by {
            assert forall|k: int| 0 <= k < before.len() implies (#[trigger] before[k] as u32) < 128 by {
                assert(before[k] == string11_view(text)[cpt - 1 - k]);
            }
        }
        assert((c as u32) < 128);
        let _ = string11_push(&mut second_text, c);
        i -= 1;
    }
    assert(string11_view(text).subrange(0, cpt as int) =~= string11_view(text));
    let ghost digits = string11_view(second_text);
    assert(all_ascii(digits)) by {
        assert forall|k: int| 0 <= k < digits.len() implies (#[trigger] digits[k] as u32) < 128 by {
            assert(digits[k] == string11_view(text)[cpt - 1 - k]);
        }
    }
    let _ = string11_push(&mut second_text, '\0');
    second_text
}

} // verus!
