//! Reading the header of a binary PPM image: decimal numbers separated by
//! ASCII whitespace.

use vstd::prelude::*;

verus! {

/// An ASCII decimal digit.
pub open spec fn is_digit(b: u8) -> bool {
    48 <= b <= 57
}

/// ASCII whitespace: space, tab, line feed, form feed or carriage return.
pub open spec fn is_space(b: u8) -> bool {
    b == 32 || b == 9 || b == 10 || b == 12 || b == 13
}

/// The number written by a run of digits, most significant first.
pub open spec fn digits_value(s: Seq<u8>) -> int
    decreases s.len(),
{
    if s.len() == 0 {
        0
    } else {
        digits_value(s.drop_last()) * 10 + (s.last() - 48)
    }
}

/// The first position from `i` on that does not hold a digit (or the end).
pub open spec fn digits_end(s: Seq<u8>, i: int) -> int
    decreases s.len() - i,
{
    if i >= s.len() || !is_digit(s[i]) {
        i
    } else {
        digits_end(s, i + 1)
    }
}

/// The first position from `i` on that does not hold whitespace (or the end).
pub open spec fn spaces_end(s: Seq<u8>, i: int) -> int
    decreases s.len() - i,
{
    if i >= s.len() || !is_space(s[i]) {
        i
    } else {
        spaces_end(s, i + 1)
    }
}

/// A number starts at `start`: digits (maybe none) worth at most
/// `u32::MAX`, then at least one whitespace.
pub open spec fn number_ok(s: Seq<u8>, start: int) -> bool {
    let e = digits_end(s, start);
    &&& 0 <= start
    &&& e < s.len()
    &&& is_space(s[e])
    &&& digits_value(s.subrange(start, e)) <= u32::MAX
}

/// The number at `start` and the position after the whitespace that follows it.
pub open spec fn number_at(s: Seq<u8>, start: int) -> (u32, usize) {
    let e = digits_end(s, start);
    (digits_value(s.subrange(start, e)) as u32, spaces_end(s, e) as usize)
}

proof fn lemma_digits_end_bounds(s: Seq<u8>, i: int)
    requires
        0 <= i,
    ensures
        i <= digits_end(s, i),
        i <= s.len() ==> digits_end(s, i) <= s.len(),
        forall|k: int| i <= k < digits_end(s, i) ==> is_digit(#[trigger] s[k]),
        digits_end(s, i) < s.len() ==> !is_digit(s[digits_end(s, i)]),
    decreases s.len() - i,
{
    if i < s.len() && is_digit(s[i]) {
        lemma_digits_end_bounds(s, i + 1);
    }
}

proof fn lemma_spaces_end_bounds(s: Seq<u8>, i: int)
    requires
        0 <= i <= s.len(),
    ensures
        i <= spaces_end(s, i) <= s.len(),
    decreases s.len() - i,
{
    if i < s.len() && is_space(s[i]) {
        lemma_spaces_end_bounds(s, i + 1);
    }
}

/// One more digit: the value is ten times the value before, plus the digit.
proof fn lemma_digits_step(s: Seq<u8>, start: int, i: int)
    requires
        0 <= start <= i < s.len(),
    ensures
        digits_value(s.subrange(start, i + 1)) == digits_value(s.subrange(start, i)) * 10 + (s[i] - 48),
{
    assert(s.subrange(start, i + 1).drop_last() =~= s.subrange(start, i));
}

/// A longer run of digits is worth at least as much.
proof fn lemma_digits_grow(s: Seq<u8>, start: int, i: int, e: int)
    requires
        0 <= start <= i <= e <= s.len(),
        forall|k: int| start <= k < e ==> is_digit(#[trigger] s[k]),
    ensures
        digits_value(s.subrange(start, i)) <= digits_value(s.subrange(start, e)),
    decreases e - i,
{
    if i < e {
        lemma_digits_grow(s, start, i + 1, e);
        lemma_digits_step(s, start, i);
        assert forall|k: int| 0 <= k < s.subrange(start, i).len() implies is_digit(#[trigger] s.subrange(start, i)[k]) by {
            assert(s.subrange(start, i)[k] == s[start + k]);
        }
        lemma_digits_nonneg(s.subrange(start, i));
    }
}

proof fn lemma_digits_nonneg(s: Seq<u8>)
    requires
        forall|k: int| 0 <= k < s.len() ==> is_digit(#[trigger] s[k]),
    ensures
        digits_value(s) >= 0,
    decreases s.len(),
{
    if s.len() > 0 {
        assert forall|k: int| 0 <= k < s.drop_last().len() implies is_digit(#[trigger] s.drop_last()[k]) by {
            assert(s.drop_last()[k] == s[k]);
        }
        lemma_digits_nonneg(s.drop_last());
    }
}

/// The digit of a byte, if it is one.
fn digit_of(b: u8) -> (d: Option<u32>)
    ensures
        d == (if is_digit(b) { Some((b - 48) as u32) } else { None::<u32> }),
{
    if 48 <= b && b <= 57 {
        Some((b - 48) as u32)
    } else {
        None
    }
}

fn space(b: u8) -> (r: bool)
    ensures
        r == is_space(b),
{
    b == 32 || b == 9 || b == 10 || b == 12 || b == 13
}

/// Reads the number at `start`, checked: `None` where there is none (a
/// byte that is neither a digit nor whitespace, the end of the input before
/// any whitespace, or a value past `u32::MAX`); else the number and the
/// position after the whitespace that follows it.
pub fn parse_number(input: &[u8], start: usize) -> (r: Option<(u32, usize)>)
    ensures
        r is Some <==> number_ok(input@, start as int),
        r is Some ==> r == Some(number_at(input@, start as int)),
{
    let ghost s = input@;
    proof {
        lemma_digits_end_bounds(s, start as int);
    }
    if start > input.len() {
        return None;
    }
    let mut i: usize = start;
    let mut result: u32 = 0;
    assert(s.subrange(start as int, start as int) =~= Seq::<u8>::empty());
    loop
        invariant
            s == input@,
            start <= i <= input.len(),
            i <= digits_end(s, start as int),
            forall|k: int| start <= k < digits_end(s, start as int) ==> is_digit(#[trigger] s[k]),
            digits_end(s, start as int) <= s.len(),
            digits_end(s, start as int) < s.len() ==> !is_digit(s[digits_end(s, start as int)]),
            result == digits_value(s.subrange(start as int, i as int)),
        decreases input.len() - i,
    {
        if i >= input.len() {
            return None;
        }
        let x = input[i];
        match digit_of(x) {
            Some(d) => {
                proof {
                    lemma_digits_step(s, start as int, i as int);
                }
                if result > (u32::MAX - d) / 10 {
                    proof {
                        assert(result * 10 + d > u32::MAX) by (nonlinear_arith)
                            requires
                                result > (u32::MAX - d) / 10,
                                d <= 9,
                        ;
                        lemma_digits_grow(s, start as int, i + 1, digits_end(s, start as int));
                    }
                    return None;
                }
                assert(result * 10 + d <= u32::MAX) by (nonlinear_arith)
                    requires
                        result <= (u32::MAX - d) / 10,
                        d <= 9,
                ;
                result = result * 10 + d;
                i += 1;
            },
            None => {
                assert(i == digits_end(s, start as int));
                if !space(x) {
                    return None;
                }
                let mut j: usize = i;
                proof {
                    lemma_spaces_end_bounds(s, i as int);
                }
                while j < input.len() && space(input[j])
                    invariant
                        s == input@,
                        i <= j <= input.len(),
                        spaces_end(s, j as int) == spaces_end(s, i as int),
                    decreases input.len() - j,
                {
                    j += 1;
                }
                return Some((result, j));
            },
        }
    }
}

/// Reads the number at `start`: its value and the position after the
/// whitespace that follows it.
pub fn read_number(input: &[u8], starting_index: usize) -> (r: (u32, usize))
    requires
        number_ok(input@, starting_index as int),
    ensures
        r == number_at(input@, starting_index as int),
{
    match parse_number(input, starting_index) {
        Some(r) => r,
        None => vstd::pervasive::unreached(),
    }
}

} // verus!
