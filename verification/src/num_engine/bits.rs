//! Facts about single bits of 32-bit row masks.

use vstd::prelude::*;

verus! {

/// Whether bit `c` of `mask` is set.
pub open spec fn bit_set(mask: u32, c: int) -> bool {
    0 <= c < 32 && (mask >> (c as u32)) & 1u32 == 1u32
}

/// The mask whose bits `0..n` are set and the others clear.
pub open spec fn low_mask(n: int) -> u32 {
    if n >= 32 {
        u32::MAX
    } else {
        ((1u32 << (n as u32)) - 1) as u32
    }
}

/// Setting bit `c0` sets that bit and leaves every other bit as it was.
pub proof fn lemma_or_bit(x: u32, c0: u32, c: u32)
    requires
        c0 < 32,
        c < 32,
    ensures
        bit_set(x | (1u32 << c0), c as int) == (bit_set(x, c as int) || c == c0),
{
    assert(((x | (1u32 << c0)) >> c) & 1u32 == 1u32 <==> ((x >> c) & 1u32 == 1u32 || c == c0))
        by (bit_vector)
        requires
            c0 < 32,
            c < 32,
    ;
}

/// Clearing bit `c0` clears that bit and leaves every other bit as it was.
pub proof fn lemma_and_not_bit(x: u32, c0: u32, c: u32)
    requires
        c0 < 32,
        c < 32,
    ensures
        bit_set(x & !(1u32 << c0), c as int) == (bit_set(x, c as int) && c != c0),
{
    assert(((x & !(1u32 << c0)) >> c) & 1u32 == 1u32 <==> ((x >> c) & 1u32 == 1u32 && c != c0))
        by (bit_vector)
        requires
            c0 < 32,
            c < 32,
    ;
}

/// The bits of `low_mask(n)` are exactly the bits below `n`.
pub proof fn lemma_low_mask_bits(n: int, c: int)
    requires
        0 <= n,
        0 <= c < 32,
    ensures
        bit_set(low_mask(n), c) == (c < n),
{
    let cc: u32 = c as u32;
    if n >= 32 {
        assert((u32::MAX >> cc) & 1u32 == 1u32) by (bit_vector)
            requires
                cc < 32,
        ;
    } else {
        let nn: u32 = n as u32;
        assert((((1u32 << nn) - 1) as u32 >> cc) & 1u32 == 1u32 <==> cc < nn) by (bit_vector)
            requires
                cc < 32,
                nn < 32,
        ;
    }
}

} // verus!
