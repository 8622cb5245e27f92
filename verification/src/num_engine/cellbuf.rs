//! Cell buffers: one screen cell of pixels, filled front to back, with a
//! mask of the pixels already covered by a nearer layer.

use vstd::prelude::*;

use crate::eadk::Color;
use crate::graphical::TRANSPARENCY_COLOR;

verus! {

/// Number of integers `k` in `[lo, hi)` for which `f(k)` holds.
pub open spec fn count_true(f: spec_fn(int) -> bool, lo: int, hi: int) -> nat
    decreases hi - lo,
{
    if hi <= lo {
        0
    } else {
        count_true(f, lo, hi - 1) + if f(hi - 1) { 1nat } else { 0nat }
    }
}

/// Counting over `[lo, hi)` is counting over `[lo, mid)` and `[mid, hi)`.
pub proof fn lemma_count_split(f: spec_fn(int) -> bool, lo: int, mid: int, hi: int)
    requires
        lo <= mid <= hi,
    ensures
        count_true(f, lo, hi) == count_true(f, lo, mid) + count_true(f, mid, hi),
    decreases hi - mid,
{
    if hi > mid {
        lemma_count_split(f, lo, mid, hi - 1);
    }
}

/// Predicates that agree on a range count alike there.
pub proof fn lemma_count_ext(f: spec_fn(int) -> bool, g: spec_fn(int) -> bool, lo: int, hi: int)
    requires
        forall|k: int| lo <= k < hi ==> #[trigger] f(k) == g(k),
    ensures
        count_true(f, lo, hi) == count_true(g, lo, hi),
    decreases hi - lo,
{
    if hi > lo {
        lemma_count_ext(f, g, lo, hi - 1);
    }
}

/// A predicate false on a range counts nothing there.
pub proof fn lemma_count_none(f: spec_fn(int) -> bool, lo: int, hi: int)
    requires
        forall|k: int| lo <= k < hi ==> !#[trigger] f(k),
    ensures
        count_true(f, lo, hi) == 0,
    decreases hi - lo,
{
    if hi > lo {
        lemma_count_none(f, lo, hi - 1);
    }
}

/// A count of zero means no index counts.
pub proof fn lemma_count_zero(f: spec_fn(int) -> bool, lo: int, hi: int)
    requires
        count_true(f, lo, hi) == 0,
    ensures
        forall|k: int| lo <= k < hi ==> !#[trigger] f(k),
    decreases hi - lo,
{
    if hi > lo {
        lemma_count_zero(f, lo, hi - 1);
    }
}

/// A count never exceeds the length of the range.
pub proof fn lemma_count_le(f: spec_fn(int) -> bool, lo: int, hi: int)
    requires
        lo <= hi,
    ensures
        count_true(f, lo, hi) <= hi - lo,
    decreases hi - lo,
{
    if hi > lo {
        lemma_count_le(f, lo, hi - 1);
    }
}

/// Whether a source pixel `p` lands on a cell pixel: the pixel is not yet
/// covered, and `p` is not the transparent color of a keyed layer.
pub open spec fn pixel_lands(was_covered: bool, p: Color, transparent: bool) -> bool {
    !was_covered && (!transparent || p.rgb565 != TRANSPARENCY_COLOR)
}

/// Copies the pixels of `src` to the cell from `dst_offset` on. With
/// `fast_copy` every pixel is written and the coverage is left alone;
/// otherwise a pixel is written, marked covered and counted only where it
/// lands (see `pixel_lands`).
pub fn blit_span<const CELL_AREA: usize>(
    cell_buf: &mut [Color; CELL_AREA],
    covered: &mut [bool; CELL_AREA],
    pixels_covered: &mut usize,
    dst_offset: usize,
    src: &[Color],
    is_transparent: bool,
    fast_copy: bool,
)
    requires
        dst_offset + src@.len() <= CELL_AREA,
        *old(pixels_covered) + src@.len() <= usize::MAX,
    ensures
        fast_copy ==> {
            &&& forall|k: int|
                0 <= k < CELL_AREA ==> #[trigger] final(cell_buf)@[k] == if dst_offset <= k < dst_offset + src@.len() {
                    src@[k - dst_offset]
                } else {
                    old(cell_buf)@[k]
                }
            &&& final(covered)@ == old(covered)@
            &&& *final(pixels_covered) == *old(pixels_covered)
        },
        !fast_copy ==> {
            &&& forall|k: int|
                0 <= k < CELL_AREA ==> #[trigger] final(cell_buf)@[k] == if dst_offset <= k < dst_offset + src@.len()
                    && pixel_lands(old(covered)@[k], src@[k - dst_offset], is_transparent) {
                    src@[k - dst_offset]
                } else {
                    old(cell_buf)@[k]
                }
            &&& forall|k: int|
                0 <= k < CELL_AREA ==> #[trigger] final(covered)@[k] == (old(covered)@[k] || (dst_offset <= k < dst_offset
                    + src@.len() && pixel_lands(old(covered)@[k], src@[k - dst_offset], is_transparent)))
            &&& *final(pixels_covered) == *old(pixels_covered) + count_true(
                (|k: int| pixel_lands(old(covered)@[k], src@[k - dst_offset], is_transparent)),
                dst_offset as int,
                dst_offset + src@.len(),
            )
        },
{
    let len = src.len();
    let ghost buf0 = cell_buf@;
    let ghost cov0 = covered@;
    let ghost pc0 = *pixels_covered;
    let ghost f = |k: int| pixel_lands(cov0[k], src@[k - dst_offset], is_transparent);
    if len == 0 {
        assert(cell_buf@ == buf0);
        return;
    }
    if fast_copy {
        let mut i: usize = 0;
        while i < len
            invariant
                i <= len == src@.len(),
                dst_offset + len <= CELL_AREA,
                covered@ == cov0,
                *pixels_covered == pc0,
                forall|k: int|
                    0 <= k < CELL_AREA ==> #[trigger] cell_buf@[k] == if dst_offset <= k < dst_offset + i {
                        src@[k - dst_offset]
                    } else {
                        buf0[k]
                    },
            decreases len - i,
        {
            cell_buf[dst_offset + i] = src[i];
            i += 1;
        }
        return;
    }
    let mut i: usize = 0;
    while i < len
        invariant
            i <= len == src@.len(),
            dst_offset + len <= CELL_AREA,
            pc0 + len <= usize::MAX,
            f == (|k: int| pixel_lands(cov0[k], src@[k - dst_offset], is_transparent)),
            forall|k: int|
                0 <= k < CELL_AREA ==> #[trigger] cell_buf@[k] == if dst_offset <= k < dst_offset + i && f(k) {
                    src@[k - dst_offset]
                } else {
                    buf0[k]
                },
            forall|k: int| 0 <= k < CELL_AREA ==> #[trigger] covered@[k] == (cov0[k] || (dst_offset <= k < dst_offset + i && f(k))),
            *pixels_covered == pc0 + count_true(f, dst_offset as int, dst_offset + i),
        decreases len - i,
    {
        let d: usize = dst_offset + i;
        let p: Color = src[i];
        proof {
            lemma_count_le(f, dst_offset as int, dst_offset + i);
            assert(covered@[d as int] == cov0[d as int]);
        }
        if !covered[d] && (!is_transparent || p.rgb565 != TRANSPARENCY_COLOR) {
            cell_buf[d] = p;
            covered[d] = true;
            *pixels_covered = *pixels_covered + 1;
        }
        i += 1;
    }
}

/// Counting a union of two disjoint predicates adds their counts.
pub proof fn lemma_count_union(f: spec_fn(int) -> bool, h: spec_fn(int) -> bool, g: spec_fn(int) -> bool, lo: int, hi: int)
    requires
        forall|k: int| lo <= k < hi ==> #[trigger] g(k) == (f(k) || h(k)),
        forall|k: int| lo <= k < hi ==> !(#[trigger] f(k) && h(k)),
    ensures
        count_true(g, lo, hi) == count_true(f, lo, hi) + count_true(h, lo, hi),
    decreases hi - lo,
{
    if hi > lo {
        lemma_count_union(f, h, g, lo, hi - 1);
    }
}

/// A predicate that counts the whole range holds everywhere on it.
pub proof fn lemma_count_full(f: spec_fn(int) -> bool, lo: int, hi: int)
    requires
        lo <= hi,
        count_true(f, lo, hi) >= hi - lo,
    ensures
        forall|k: int| lo <= k < hi ==> #[trigger] f(k),
    decreases hi - lo,
{
    if hi > lo {
        lemma_count_le(f, lo, hi - 1);
        lemma_count_full(f, lo, hi - 1);
    }
}

/// When the covered pixels counted so far reach the whole cell, every pixel
/// not yet visited was covered from the start.
pub proof fn lemma_rest_covered(cov0: Seq<bool>, lf: spec_fn(int) -> bool, pc0: int, n: int, area: int)
    requires
        0 <= n <= area,
        pc0 == count_true(cov_fn(cov0), 0, area),
        forall|k: int| 0 <= k < area ==> #[trigger] lf(k) ==> !cov0[k],
        pc0 + count_true(lf, 0, n) >= area,
    ensures
        forall|k: int| n <= k < area ==> #[trigger] cov0[k],
{
    let g = |k: int| cov0[k] || lf(k);
    assert forall|k: int| 0 <= k < n implies #[trigger] g(k) == (cov_fn(cov0)(k) || lf(k)) by {}
    assert forall|k: int| 0 <= k < n implies !(#[trigger] cov_fn(cov0)(k) && lf(k)) by {
        if lf(k) {
            assert(!cov0[k]);
        }
    }
    lemma_count_union(cov_fn(cov0), lf, g, 0, n);
    lemma_count_le(g, 0, n);
    lemma_count_split(cov_fn(cov0), 0, n, area);
    lemma_count_full(cov_fn(cov0), n, area);
    assert forall|k: int| n <= k < area implies #[trigger] cov0[k] by {
        assert(cov_fn(cov0)(k));
    }
}

/// The coverage mask as a predicate on pixel indices.
pub open spec fn cov_fn(cov: Seq<bool>) -> spec_fn(int) -> bool {
    |k: int| cov[k]
}

/// The count of covered pixels is the number of pixels marked in the mask,
/// unless the cell counts as full.
pub open spec fn coverage_ok(cov: Seq<bool>, pixels_covered: int, area: int) -> bool {
    pixels_covered >= area || pixels_covered == count_true(cov_fn(cov), 0, area)
}

/// Whether the source pixel `src(k)` exists and lands on a cell whose coverage is `cov`.
pub open spec fn src_lands(src: spec_fn(int) -> Option<Color>, cov: Seq<bool>, transparent: bool, k: int) -> bool {
    match src(k) {
        Some(p) => pixel_lands(cov[k], p, transparent),
        None => false,
    }
}

/// `src_lands` as a predicate on pixel indices.
pub open spec fn lands_pred(src: spec_fn(int) -> Option<Color>, cov: Seq<bool>, transparent: bool) -> spec_fn(int) -> bool {
    |k: int| src_lands(src, cov, transparent, k)
}

/// Marking the pixels that land keeps the count of covered pixels in step.
pub proof fn lemma_coverage_step(
    src: spec_fn(int) -> Option<Color>,
    cov0: Seq<bool>,
    cov1: Seq<bool>,
    transparent: bool,
    pc0: int,
    area: int,
)
    requires
        0 <= area,
        cov0.len() == area,
        cov1.len() == area,
        pc0 < area,
        coverage_ok(cov0, pc0, area),
        forall|k: int| 0 <= k < area ==> #[trigger] cov1[k] == (cov0[k] || src_lands(src, cov0, transparent, k)),
    ensures
        coverage_ok(cov1, pc0 + count_true(lands_pred(src, cov0, transparent), 0, area), area),
{
    let lf = lands_pred(src, cov0, transparent);
    assert forall|k: int| 0 <= k < area implies #[trigger] cov_fn(cov1)(k) == (cov_fn(cov0)(k) || lf(k)) by {}
    assert forall|k: int| 0 <= k < area implies !(#[trigger] cov_fn(cov0)(k) && lf(k)) by {}
    lemma_count_union(cov_fn(cov0), lf, cov_fn(cov1), 0, area);
}

/// Copies `span` into the cell from `dst` on, where it holds the source
/// pixels `src(k)` of the cell (see `blit_span`); the effect is stated per
/// cell pixel against the coverage `cov0`.
pub fn blit_src_span<const CELL_AREA: usize>(
    cell_buf: &mut [Color; CELL_AREA],
    covered: &mut [bool; CELL_AREA],
    pixels_covered: &mut usize,
    dst: usize,
    span: &[Color],
    transparent: bool,
    fast_copy: bool,
    Ghost(src): Ghost<spec_fn(int) -> Option<Color>>,
    Ghost(cov0): Ghost<Seq<bool>>,
)
    requires
        dst + span@.len() <= CELL_AREA,
        *old(pixels_covered) + span@.len() <= usize::MAX,
        forall|k: int| dst <= k < dst + span@.len() ==> #[trigger] src(k) == Some(span@[k - dst]),
        forall|k: int| dst <= k < dst + span@.len() ==> #[trigger] old(covered)@[k] == cov0[k],
    ensures
        fast_copy ==> {
            &&& forall|k: int|
                0 <= k < CELL_AREA ==> #[trigger] final(cell_buf)@[k] == if dst <= k < dst + span@.len() {
                    src(k).unwrap()
                } else {
                    old(cell_buf)@[k]
                }
            &&& final(covered)@ == old(covered)@
            &&& *final(pixels_covered) == *old(pixels_covered)
        },
        !fast_copy ==> {
            &&& forall|k: int|
                0 <= k < CELL_AREA ==> #[trigger] final(cell_buf)@[k] == if dst <= k < dst + span@.len() && src_lands(
                    src,
                    cov0,
                    transparent,
                    k,
                ) {
                    src(k).unwrap()
                } else {
                    old(cell_buf)@[k]
                }
            &&& forall|k: int|
                0 <= k < CELL_AREA ==> #[trigger] final(covered)@[k] == (old(covered)@[k] || (dst <= k < dst + span@.len()
                    && src_lands(src, cov0, transparent, k)))
            &&& *final(pixels_covered) == *old(pixels_covered) + count_true(lands_pred(src, cov0, transparent), dst as int, dst + span@.len())
        },
{
    let ghost cov1 = covered@;
    let ghost lf = lands_pred(src, cov0, transparent);
    blit_span(cell_buf, covered, pixels_covered, dst, span, transparent, fast_copy);
    proof {
        let g = |k: int| pixel_lands(cov1[k], span@[k - dst], transparent);
        assert forall|k: int| dst <= k < dst + span@.len() implies #[trigger] g(k) == lf(k) by {
            assert(src(k) == Some(span@[k - dst]));
        }
        lemma_count_ext(g, lf, dst as int, dst + span@.len());
        assert forall|k: int| dst <= k < dst + span@.len() implies src(k).unwrap() == span@[k - dst] && #[trigger] g(k) == lf(k) by {
            assert(src(k) == Some(span@[k - dst]));
        }
    }
}

} // verus!
