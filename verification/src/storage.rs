//! Saved values: the file of a game holds up to 16 numbers of 32 bits,
//! stored as consecutive little-endian groups of four bytes.

use vstd::prelude::*;

use crate::menu::settings::{values_get, values_len, values_new, values_push, values_set, values_view};

verus! {

/// Most values in a file.
pub const MAX_STORAGE_VALUES: usize = 16;

/// The number stored little-endian in the four bytes from `i`.
pub open spec fn le_u32(b: Seq<u8>, i: int) -> int {
    b[i] + b[i + 1] * 0x100 + b[i + 2] * 0x10000 + b[i + 3] * 0x1000000
}

/// The numbers of a file, four bytes each.
pub open spec fn decode(b: Seq<u8>) -> Seq<u32> {
    Seq::new((b.len() / 4) as nat, |k: int| le_u32(b, 4 * k) as u32)
}

/// The bytes of a list of numbers, four little-endian bytes each.
pub open spec fn encode(v: Seq<u32>) -> Seq<u8> {
    Seq::new((4 * v.len()) as nat, |i: int| ((v[i / 4] >> (8 * (i % 4)) as u32) & 0xff) as u8)
}

/// Reads the numbers stored in the bytes of a file.
pub fn values_from_bytes(bytes: &[u8]) -> (v: heapless::Vec<u32, 16>)
    requires
        bytes@.len() % 4 == 0,
        bytes@.len() / 4 <= MAX_STORAGE_VALUES,
    ensures
        values_view(v) == decode(bytes@),
{
    let mut data = values_new();
    let mut i: usize = 0;
    while i < bytes.len()
        invariant
            bytes@.len() % 4 == 0,
            bytes@.len() / 4 <= MAX_STORAGE_VALUES,
            i % 4 == 0,
            i <= bytes@.len(),
            values_view(data) =~= decode(bytes@).take(i as int / 4),
        decreases bytes@.len() - i,
    {
        let x: u32 = bytes[i] as u32 + bytes[i + 1] as u32 * 0x100 + bytes[i + 2] as u32 * 0x10000 + bytes[i + 3] as u32 * 0x1000000;
        let _ = values_push(&mut data, x);
        assert(decode(bytes@).take((i + 4) as int / 4) =~= decode(bytes@).take(i as int / 4).push(x));
        i += 4;
    }
    assert(decode(bytes@).take(bytes@.len() as int / 4) =~= decode(bytes@));
    data
}

/// The bytes that store a list of numbers.
pub fn values_to_bytes(values: &heapless::Vec<u32, 16>) -> (b: Vec<u8>)
    ensures
        b@ == encode(values_view(*values)),
{
    let n = values_len(values);
    let mut out: Vec<u8> = Vec::new();
    let mut k: usize = 0;
    while k < n
        invariant
            n == values_view(*values).len(),
            n <= 16,
            k <= n,
            out@ =~= encode(values_view(*values)).take(4 * k as int),
        decreases n - k,
    {
        let x = values_get(values, k);
        let ghost before = out@;
        out.push((x & 0xff) as u8);
        out.push(((x >> 8) & 0xff) as u8);
        out.push(((x >> 16) & 0xff) as u8);
        out.push(((x >> 24) & 0xff) as u8);
        assert(out@ =~= encode(values_view(*values)).take(4 * (k + 1) as int)) by {
            let e = encode(values_view(*values));
            assert(values_view(*values)[k as int] == x);
            assert(((x >> 0u32) & 0xff) as u8 == (x & 0xff) as u8) by (bit_vector);
            assert(e[4 * k + 0] == ((x >> 0u32) & 0xff) as u8);
            assert(e[4 * k + 1] == ((x >> 8u32) & 0xff) as u8);
            assert(e[4 * k + 2] == ((x >> 16u32) & 0xff) as u8);
            assert(e[4 * k + 3] == ((x >> 24u32) & 0xff) as u8);
            assert forall|j: int| 0 <= j < 4 * k + 4 implies out@[j] == e[j] by {
                if j < 4 * k {
                    assert(out@[j] == before[j]);
                }
            }
        }
        k += 1;
    }
    assert(encode(values_view(*values)).take(4 * n as int) =~= encode(values_view(*values)));
    out
}

/// Reading back the bytes written for a list of numbers gives the same numbers.
pub proof fn lemma_decode_encode(v: Seq<u32>)
    ensures
        decode(encode(v)) =~= v,
{
    let e = encode(v);
    assert(e.len() / 4 == v.len());
    assert forall|k: int| 0 <= k < v.len() implies #[trigger] decode(e)[k] == v[k] by {
        let x = v[k];
        assert((4 * k) / 4 == k && (4 * k + 1) / 4 == k && (4 * k + 2) / 4 == k && (4 * k + 3) / 4 == k);
        assert((4 * k) % 4 == 0 && (4 * k + 1) % 4 == 1 && (4 * k + 2) % 4 == 2 && (4 * k + 3) % 4 == 3);
        let b0 = ((x >> 0u32) & 0xff) as u8;
        let b1 = ((x >> 8u32) & 0xff) as u8;
        let b2 = ((x >> 16u32) & 0xff) as u8;
        let b3 = ((x >> 24u32) & 0xff) as u8;
        assert(e[4 * k] == b0);
        assert(e[4 * k + 1] == b1);
        assert(e[4 * k + 2] == b2);
        assert(e[4 * k + 3] == b3);
        assert(b0 + b1 * 0x100 + b2 * 0x10000 + b3 * 0x1000000 == x) by (bit_vector)
            requires
                b0 == ((x >> 0u32) & 0xff) as u8,
                b1 == ((x >> 8u32) & 0xff) as u8,
                b2 == ((x >> 16u32) & 0xff) as u8,
                b3 == ((x >> 24u32) & 0xff) as u8,
        ;
    }
}

/// The value at position `pos` of the numbers read from a file, if there is one.
pub fn read_data(values: &heapless::Vec<u32, 16>, pos: usize) -> (r: Option<u32>)
    ensures
        r == (if pos < values_view(*values).len() { Some(values_view(*values)[pos as int]) } else { None::<u32> }),
{
    if pos < values_len(values) {
        Some(values_get(values, pos))
    } else {
        None
    }
}

/// Puts `value` in the numbers of a file: at position `pos` when there is
/// a value there, else at the end. Returns the position written.
pub fn write_data(values: &mut heapless::Vec<u32, 16>, pos: Option<u32>, value: u32) -> (at: usize)
    requires
        !(pos matches Some(p) && (p as int) < values_view(*old(values)).len()) ==> values_view(*old(values)).len() < MAX_STORAGE_VALUES,
    ensures
        (pos matches Some(p) && (p as int) < values_view(*old(values)).len()) ==> at == pos->0 && values_view(*final(values)) == values_view(*old(values)).update(at as int, value),
        !(pos matches Some(p) && (p as int) < values_view(*old(values)).len()) ==> at == values_view(*old(values)).len() && values_view(*final(values)) == values_view(*old(values)).push(value),
{
    let n = values_len(values);
    match pos {
        Some(x) => if (x as usize) < n {
            values_set(values, x as usize, value);
            return x as usize;
        },
        None => {},
    }
    let _ = values_push(values, value);
    n
}

/// What a read gives back of a write: the value written, at the position
/// reported, with the other values unchanged.
pub proof fn lemma_read_after_write(v: Seq<u32>, pos: Option<u32>, value: u32, other: int)
    requires
        !(pos matches Some(p) && (p as int) < v.len()) ==> v.len() < MAX_STORAGE_VALUES,
    ensures
        ({
            let replaced = pos matches Some(p) && (p as int) < v.len();
            let at = if replaced { pos->0 as int } else { v.len() as int };
            let w = if replaced { v.update(at, value) } else { v.push(value) };
            &&& 0 <= at < w.len()
            &&& w[at] == value
            &&& (0 <= other < v.len() && other != at ==> w[other] == v[other])
        }),
{
}

/// Puts `value` in the numbers of a file, checked: `None`, with nothing
/// changed, when it would go at the end of a full file.
pub fn store_value(values: &mut heapless::Vec<u32, 16>, pos: Option<u32>, value: u32) -> (at: Option<usize>)
    ensures
        ({
            let replaced = pos matches Some(p) && (p as int) < values_view(*old(values)).len();
            &&& at is None <==> (!replaced && values_view(*old(values)).len() >= MAX_STORAGE_VALUES)
            &&& at is None ==> values_view(*final(values)) == values_view(*old(values))
            &&& (at is Some && replaced) ==> at->0 == pos->0 && values_view(*final(values)) == values_view(*old(values)).update(pos->0 as int, value)
            &&& (at is Some && !replaced) ==> at->0 == values_view(*old(values)).len() && values_view(*final(values)) == values_view(*old(values)).push(value)
        }),
{
    let n = values_len(values);
    let replaced = match pos {
        Some(p) => (p as usize) < n,
        None => false,
    };
    if !replaced && n >= MAX_STORAGE_VALUES {
        return None;
    }
    Some(write_data(values, pos, value))
}

} // verus!
