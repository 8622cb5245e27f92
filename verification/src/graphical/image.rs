//! Drawing raw images: scaled pixel by pixel, split into opaque runs when
//! keyed on the transparent color, or in one block.

use vstd::prelude::*;
use vstd::arithmetic::div_mod::{lemma_fundamental_div_mod, lemma_fundamental_div_mod_converse, lemma_mod_division_less_than_divisor};
use vstd::slice::*;

use crate::eadk::{Color, Point, Rect, SCREEN_HEIGHT};
use crate::graphical::{is_pixels, DrawOp, TRANSPARENCY_COLOR};

verus! {

/// Whether screen pixel `(x, y)` lies in `r`.
pub open spec fn rect_has(r: Rect, x: int, y: int) -> bool {
    r.x <= x < r.x + r.width && r.y <= y < r.y + r.height
}

/// The color `op` paints at screen pixel `(x, y)`, if it paints there
/// (text and unexpanded images are not considered).
pub open spec fn op_paints(op: DrawOp, x: int, y: int) -> Option<Color> {
    match op {
        DrawOp::FillRect { rect, color } => if rect_has(rect, x, y) {
            Some(color)
        } else {
            None
        },
        DrawOp::Pixels { rect, pixels } => if rect_has(rect, x, y) {
            Some(pixels@[(y - rect.y) * rect.width + (x - rect.x)])
        } else {
            None
        },
        _ => None,
    }
}

/// Whether `c` is the transparent color.
pub open spec fn keyed(c: Color) -> bool {
    c.rgb565 == TRANSPARENCY_COLOR
}

/// Whether the scaled drawing stops before pixel row `j`: the image has
/// fewer rows, or row `j` would start below the screen.
pub open spec fn scaled_stop(y: int, h: int, s: int, j: int) -> bool {
    j >= h || y + j * s >= SCREEN_HEIGHT
}

/// Number of pixel rows a scaled drawing goes through: rows are drawn
/// until the next one is past the image or the screen, the first one always.
pub open spec fn scaled_rows(y: int, h: int, s: int) -> int
    decreases h,
{
    if h <= 1 || y + s >= SCREEN_HEIGHT {
        1
    } else {
        1 + scaled_rows(y + s, h - 1, s)
    }
}

/// Row width used to place scaled pixels: an image 0 pixels wide is drawn
/// one pixel per row.
pub open spec fn eff_width(w: int) -> int {
    if w == 0 { 1 } else { w }
}

/// The square of side `s` drawn for pixel `i` of a scaled image.
pub open spec fn scaled_square<'a>(pos: Point, w: int, s: u16, i: int, c: Color) -> DrawOp<'a> {
    DrawOp::FillRect {
        rect: Rect {
            x: (pos.x + (i % eff_width(w)) * s) as u16,
            y: (pos.y + (i / eff_width(w)) * s) as u16,
            width: s,
            height: s,
        },
        color: c,
    }
}

/// The squares drawn for the first `n` pixels of a scaled image: one per
/// pixel, in image order, skipping transparent pixels when keyed.
pub open spec fn scaled_ops<'a>(image: Seq<Color>, pos: Point, w: int, s: u16, transparency: bool, n: int) -> Seq<DrawOp<'a>>
    decreases n,
{
    if n <= 0 {
        Seq::empty()
    } else {
        let prev = scaled_ops(image, pos, w, s, transparency, n - 1);
        let c = image[n - 1];
        if !transparency || !keyed(c) {
            prev.push(scaled_square(pos, w, s, n - 1, c))
        } else {
            prev
        }
    }
}

/// The rows a scaled drawing goes through are those before the first stop.
pub proof fn lemma_scaled_rows(y: int, h: int, s: int)
    requires
        s > 0,
    ensures
        scaled_rows(y, h, s) >= 1,
        scaled_rows(y, h, s) <= eff_width(h) || h < 0,
        scaled_stop(y, h, s, scaled_rows(y, h, s)),
        forall|j: int| 1 <= j < scaled_rows(y, h, s) ==> !#[trigger] scaled_stop(y, h, s, j),
    decreases h,
{
    if h <= 1 || y + s >= SCREEN_HEIGHT {
        assert(1 * s == s);
    } else {
        lemma_scaled_rows(y + s, h - 1, s);
        let r = scaled_rows(y + s, h - 1, s);
        assert forall|j: int| 1 <= j < scaled_rows(y, h, s) implies !#[trigger] scaled_stop(y, h, s, j) by {
            if j >= 2 {
                assert(!scaled_stop(y + s, h - 1, s, j - 1));
                assert((j - 1) * s + s == j * s) by (nonlinear_arith);
            } else {
                assert(1 * s == s);
            }
        }
        assert((r - 1 + 1) * s == (r - 1) * s + s) by (nonlinear_arith);
        assert(r * s + s == (r + 1) * s) by (nonlinear_arith);
    }
}

/// Number of pixels a scaled drawing goes through.
pub open spec fn scaled_count(len: int, pos: Point, size: (u16, u16), s: u16) -> int {
    let n = scaled_rows(pos.y as int, size.1 as int, s as int) * eff_width(size.0 as int);
    if len < n { len } else { n }
}

/// Draws every pixel of `image` as a `scaling` x `scaling` square, row by
/// row of `size.0` pixels, skipping transparent pixels when keyed, until
/// the next row would start past the image or below the screen.
fn draw_scaled<'a>(image: &'a [Color], pos: Point, size: (u16, u16), scaling: u16, transparency: bool) -> (ops: Vec<DrawOp<'a>>)
    requires
        scaling > 1,
        pos.x + eff_width(size.0 as int) * scaling <= u16::MAX,
        pos.y + eff_width(size.1 as int) * scaling <= u16::MAX,
    ensures
        ops@ == scaled_ops(image@, pos, size.0 as int, scaling, transparency, scaled_count(image@.len() as int, pos, size, scaling)),
{
    let ghost ew = eff_width(size.0 as int);
    let ghost rows = scaled_rows(pos.y as int, size.1 as int, scaling as int);
    proof {
        lemma_scaled_rows(pos.y as int, size.1 as int, scaling as int);
        assert(0 <= size.0 * scaling <= ew * scaling) by (nonlinear_arith)
            requires
                ew == eff_width(size.0 as int),
                scaling > 1,
        ;
        assert(0 <= size.1 * scaling <= eff_width(size.1 as int) * scaling) by (nonlinear_arith)
            requires
                scaling > 1,
        ;
    }
    let max_x: u16 = pos.x + size.0 * scaling;
    let max_y: u16 = pos.y + size.1 * scaling;
    let mut x_pos: u16 = pos.x;
    let mut y_pos: u16 = pos.y;
    let mut ops: Vec<DrawOp<'a>> = Vec::new();
    let mut i: usize = 0;
    proof {
        assert(0 < rows * ew) by (nonlinear_arith)
            requires
                rows >= 1,
                ew >= 1,
        ;
        assert(0int % ew == 0 && 0int / ew == 0) by (nonlinear_arith)
            requires
                ew >= 1,
        ;
        assert(0 * scaling == 0);
    }
    while i < image.len()
        invariant_except_break
            (i as int) < rows * ew,
        invariant
            scaling > 1,
            ew == eff_width(size.0 as int),
            rows == scaled_rows(pos.y as int, size.1 as int, scaling as int),
            1 <= rows <= eff_width(size.1 as int),
            scaled_stop(pos.y as int, size.1 as int, scaling as int, rows),
            forall|j: int| 1 <= j < rows ==> !#[trigger] scaled_stop(pos.y as int, size.1 as int, scaling as int, j),
            pos.x + ew * scaling <= u16::MAX,
            pos.y + eff_width(size.1 as int) * scaling <= u16::MAX,
            max_x == pos.x + size.0 * scaling,
            max_y == pos.y + size.1 * scaling,
            i <= image@.len(),
            ops@ == scaled_ops(image@, pos, size.0 as int, scaling, transparency, i as int),
            x_pos == pos.x + ((i as int) % ew) * scaling,
            y_pos == pos.y + ((i as int) / ew) * scaling,
        ensures
            ops@ == scaled_ops(image@, pos, size.0 as int, scaling, transparency, scaled_count(image@.len() as int, pos, size, scaling)),
        decreases image@.len() - i,
    {
        let c = image[i];
        proof {
            lemma_mod_division_less_than_divisor(i as int, ew);
            lemma_fundamental_div_mod(i as int, ew);
            assert((i as int) / ew < rows) by (nonlinear_arith)
                requires
                    (i as int) < rows * ew,
                    ew > 0,
                    (i as int) == ew * ((i as int) / ew) + (i as int) % ew,
                    0 <= (i as int) % ew,
            ;
        }
        if !transparency || c.rgb565 != TRANSPARENCY_COLOR {
            ops.push(DrawOp::FillRect { rect: Rect { x: x_pos, y: y_pos, width: scaling, height: scaling }, color: c });
        }
        proof {
            assert(ops@ == scaled_ops(image@, pos, size.0 as int, scaling, transparency, i + 1));
            crate::num_engine::sprite::lemma_next_pixel(i as int, ew);
            assert(((i as int) % ew) * scaling + scaling <= ew * scaling) by (nonlinear_arith)
                requires
                    (i as int) % ew < ew,
            ;
            assert(((i as int) % ew + 1) * scaling == ((i as int) % ew) * scaling + scaling) by (nonlinear_arith);
            assert(((i as int) / ew + 1) * scaling == ((i as int) / ew) * scaling + scaling) by (nonlinear_arith);
            assert(((i as int) / ew + 1) * scaling <= eff_width(size.1 as int) * scaling) by (nonlinear_arith)
                requires
                    (i as int) / ew + 1 <= rows,
                    rows <= eff_width(size.1 as int),
                    scaling > 1,
            ;
            assert(0 * scaling == 0);
        }
        x_pos = x_pos + scaling;
        if x_pos >= max_x {
            proof {
                if size.0 > 0 {
                    assert((i as int) % ew + 1 >= ew) by (nonlinear_arith)
                        requires
                            pos.x + ((i as int) % ew + 1) * scaling >= pos.x + size.0 * scaling,
                            ew == size.0,
                            scaling > 1,
                    ;
                }
            }
            x_pos = pos.x;
            y_pos = y_pos + scaling;
            if y_pos >= max_y || y_pos >= SCREEN_HEIGHT {
                proof {
                    let r = (i as int) / ew + 1;
                    assert(scaled_stop(pos.y as int, size.1 as int, scaling as int, r)) by {
                        if y_pos >= max_y {
                            assert(r >= size.1) by (nonlinear_arith)
                                requires
                                    pos.y + r * scaling >= pos.y + size.1 * scaling,
                                    scaling > 1,
                            ;
                        }
                    }
                    assert(r == rows);
                    assert((i as int) + 1 == rows * ew) by (nonlinear_arith)
                        requires
                            (i as int) + 1 == ew * ((i as int) / ew) + ew,
                            r == (i as int) / ew + 1,
                            r == rows,
                    ;
                }
                i = i + 1;
                break;
            }
            proof {
                let r = (i as int) / ew + 1;
                assert(!scaled_stop(pos.y as int, size.1 as int, scaling as int, r)) by {
                    assert(r < size.1) by (nonlinear_arith)
                        requires
                            pos.y + r * scaling < pos.y + size.1 * scaling,
                            scaling > 1,
                    ;
                }
                assert(r < rows);
                assert((i as int) + 1 < rows * ew) by (nonlinear_arith)
                    requires
                        (i as int) + 1 == ew * ((i as int) / ew) + ew,
                        (i as int) / ew + 1 < rows,
                        ew > 0,
                ;
            }
        } else {
            proof {
                assert((i as int) + 1 < rows * ew) by (nonlinear_arith)
                    requires
                        (i as int) + 1 == ew * ((i as int) / ew) + (i as int) % ew + 1,
                        (i as int) % ew + 1 < ew,
                        (i as int) / ew < rows,
                ;
            }
        }
        i = i + 1;
    }
    ops
}

/// Index of the image pixel shown at screen pixel `(x, y)`, for an image
/// `w` pixels wide drawn at `pos`.
pub open spec fn image_index(pos: Point, w: int, x: int, y: int) -> int {
    (y - pos.y) * w + (x - pos.x)
}

/// Whether screen pixel `(x, y)` lies in the columns of an image `w`
/// pixels wide drawn at `pos`, at or below its top.
pub open spec fn in_image_cols(pos: Point, w: int, x: int, y: int) -> bool {
    pos.x <= x < pos.x + w && pos.y <= y
}

/// `op` paints exactly the image pixels of indices `[a, b)`, each with its color.
pub open spec fn op_covers(op: DrawOp, image: Seq<Color>, pos: Point, w: int, a: int, b: int) -> bool {
    forall|x: int, y: int|
        #[trigger] op_paints(op, x, y) == if in_image_cols(pos, w, x, y) && a <= image_index(pos, w, x, y) < b {
            Some(image[image_index(pos, w, x, y)])
        } else {
            None
        }
}

/// What a keyed image shows at screen pixel `(x, y)`: its pixel there, when
/// that pixel is among the first `visible` ones and not transparent.
pub open spec fn keyed_paint(image: Seq<Color>, pos: Point, w: int, visible: int, x: int, y: int) -> Option<Color> {
    let k = image_index(pos, w, x, y);
    if in_image_cols(pos, w, x, y) && k < visible && !keyed(image[k]) {
        Some(image[k])
    } else {
        None
    }
}

/// Start of an index range.
pub open spec fn range_lo(r: (int, int)) -> int {
    r.0
}

/// End of an index range.
pub open spec fn range_hi(r: (int, int)) -> int {
    r.1
}

/// Screen pixels of one image row `[a, a + len)` within a row of `w` pixels.
pub proof fn lemma_row_cells(pos: Point, w: int, a: int, len: int, x: int, y: int)
    requires
        w > 0,
        a >= 0,
        len >= 0,
        a % w + len <= w,
    ensures
        (in_image_cols(pos, w, x, y) && a <= image_index(pos, w, x, y) < a + len) == (pos.x + a % w <= x < pos.x + a % w + len
            && y == pos.y + a / w),
{
    lemma_fundamental_div_mod(a, w);
    lemma_mod_division_less_than_divisor(a, w);
    let k = image_index(pos, w, x, y);
    if in_image_cols(pos, w, x, y) && a <= k < a + len {
        let r = y - pos.y;
        let c = x - pos.x;
        lemma_fundamental_div_mod_converse(k, w, r, c);
        crate::num_engine::tile_blit::lemma_axis(a, w, k - a);
    }
    if pos.x + a % w <= x < pos.x + a % w + len && y == pos.y + a / w {
        assert((a / w) * w == w * (a / w)) by (nonlinear_arith);
    }
}

/// Screen pixels of the image rows `[a, a + lines * w)`, `a` starting a row.
pub proof fn lemma_block_cells(pos: Point, w: int, a: int, lines: int, x: int, y: int)
    requires
        w > 0,
        a >= 0,
        lines >= 0,
        a % w == 0,
    ensures
        (in_image_cols(pos, w, x, y) && a <= image_index(pos, w, x, y) < a + lines * w) == (pos.x <= x < pos.x + w && pos.y + a
            / w <= y < pos.y + a / w + lines),
        pos.x <= x < pos.x + w && pos.y + a / w <= y < pos.y + a / w + lines ==> image_index(pos, w, x, y) == a + (y - (pos.y + a
            / w)) * w + (x - pos.x),
{
    lemma_fundamental_div_mod(a, w);
    let q = a / w;
    let r = y - pos.y;
    let c = x - pos.x;
    assert(image_index(pos, w, x, y) == r * w + c);
    assert(a == q * w) by (nonlinear_arith)
        requires
            a == w * q + 0,
    ;
    if pos.x <= x < pos.x + w && pos.y <= y {
        assert((r * w + c >= q * w && r * w + c < q * w + lines * w) == (q <= r < q + lines)) by (nonlinear_arith)
            requires
                0 <= c < w,
                w > 0,
        ;
        assert(r * w + c == q * w + (r - q) * w + c) by (nonlinear_arith);
    }
}

/// Whether index `k` lies in one of the ranges.
pub open spec fn in_ranges(ranges: Seq<(int, int)>, k: int) -> bool {
    exists|j: int| 0 <= j < ranges.len() && range_lo(#[trigger] ranges[j]) <= k < range_hi(ranges[j])
}

/// The draws appended so far for a run starting at `start` cover exactly
/// the ranges listed, and those ranges cover `[start, p)`.
pub open spec fn run_progress(
    ops: Seq<DrawOp>,
    old_len: int,
    ranges: Seq<(int, int)>,
    image: Seq<Color>,
    pos: Point,
    w: int,
    start: int,
    end: int,
    p: int,
) -> bool {
    &&& ops.len() == old_len + ranges.len()
    &&& forall|j: int|
        0 <= j < ranges.len() ==> start <= range_lo(#[trigger] ranges[j]) <= range_hi(ranges[j]) <= end && op_covers(
            ops[old_len + j],
            image,
            pos,
            w,
            range_lo(ranges[j]),
            range_hi(ranges[j]),
        )
    &&& forall|k: int| start <= k < p ==> #[trigger] in_ranges(ranges, k)
}

/// Appending a draw that covers `[p, q)` extends the progress of a run to `q`.
pub proof fn lemma_run_push(
    ops: Seq<DrawOp>,
    op: DrawOp,
    old_len: int,
    ranges: Seq<(int, int)>,
    image: Seq<Color>,
    pos: Point,
    w: int,
    start: int,
    end: int,
    p: int,
    q: int,
)
    requires
        0 <= old_len,
        run_progress(ops, old_len, ranges, image, pos, w, start, end, p),
        start <= p <= q <= end,
        op_covers(op, image, pos, w, p, q),
    ensures
        run_progress(ops.push(op), old_len, ranges.push((p, q)), image, pos, w, start, end, q),
{
    let r2 = ranges.push((p, q));
    let o2 = ops.push(op);
    assert forall|j: int| 0 <= j < r2.len() implies start <= range_lo(#[trigger] r2[j]) <= range_hi(r2[j]) <= end && op_covers(
        o2[old_len + j],
        image,
        pos,
        w,
        range_lo(r2[j]),
        range_hi(r2[j]),
    ) by {
        if j < ranges.len() {
            assert(r2[j] == ranges[j]);
            assert(o2[old_len + j] == ops[old_len + j]);
        }
    }
    assert forall|k: int| start <= k < q implies #[trigger] in_ranges(r2, k) by {
        if k < p {
            assert(in_ranges(ranges, k));
            let j = choose|j: int| 0 <= j < ranges.len() && range_lo(#[trigger] ranges[j]) <= k < range_hi(ranges[j]);
            assert(r2[j] == ranges[j]);
        } else {
            assert(r2[ranges.len() as int] == (p, q));
        }
    }
}

/// Appends the draws of one opaque run `[start, end)` of a keyed image:
/// the end of the row it starts in, then the whole rows, then the start of
/// its last row. Returns the index range each new draw covers.
#[verifier::rlimit(60)]
#[verifier::spinoff_prover]
fn push_run_ops<'a>(ops: &mut Vec<DrawOp<'a>>, image: &'a [Color], pos: Point, w: usize, start: usize, end: usize) -> (new_ranges: Ghost<Seq<(int, int)>>)
    requires
        w > 0,
        start < end <= image@.len(),
        pos.x + w <= u16::MAX,
        pos.y + (end as int) / (w as int) <= u16::MAX,
    ensures
        forall|j: int| 0 <= j < old(ops)@.len() ==> #[trigger] final(ops)@[j] == old(ops)@[j],
        run_progress(final(ops)@, old(ops)@.len() as int, new_ranges@, image@, pos, w as int, start as int, end as int, end as int),
        final(ops)@.len() <= old(ops)@.len() + 3,
        start as int % w as int == 0 && (end - start) as int % w as int == 0 ==> {
            &&& final(ops)@.len() == old(ops)@.len() + 1
            &&& is_pixels(
                final(ops)@[old(ops)@.len() as int],
                Rect { x: pos.x, y: (pos.y + start as int / w as int) as u16, width: w as u16, height: ((end - start) as int / w as int) as u16 },
                image@.subrange(start as int, end as int),
            )
        },
{
    let ghost old_ops = ops@;
    let ghost old_len = ops@.len() as int;
    let ghost wi = w as int;
    let run_len: usize = end - start;
    proof {
        lemma_mod_division_less_than_divisor(start as int, wi);
        lemma_fundamental_div_mod(start as int, wi);
        assert(start as int / wi <= end as int / wi) by (nonlinear_arith)
            requires
                start <= end,
                wi > 0,
        ;
    }
    let mut ranges: Ghost<Seq<(int, int)>> = Ghost(Seq::empty());
    assert(run_progress(ops@, old_len, ranges@, image@, pos, wi, start as int, end as int, start as int));
    let unaligned: usize = if start % w != 0 {
        let align_to_end_of_line: usize = w - (start % w);
        let length: usize = if run_len < align_to_end_of_line { run_len } else { align_to_end_of_line };
        let piece = slice_subrange(image, start, start + length);
        let op = DrawOp::Pixels {
            rect: Rect { x: pos.x + (start % w) as u16, y: pos.y + (start / w) as u16, width: length as u16, height: 1 },
            pixels: piece,
        };
        proof {
            assert forall|x: int, y: int| #[trigger] op_paints(op, x, y) == if in_image_cols(pos, wi, x, y) && start <= image_index(
                pos,
                wi,
                x,
                y,
            ) < start + length {
                Some(image@[image_index(pos, wi, x, y)])
            } else {
                None
            } by {
                lemma_row_cells(pos, wi, start as int, length as int, x, y);
                if pos.x + start as int % wi <= x < pos.x + start as int % wi + length && y == pos.y + start as int / wi {
                    assert((y - (pos.y + start as int / wi)) * (length as int) == 0) by (nonlinear_arith)
                        requires
                            y == pos.y + start as int / wi,
                    ;
                    lemma_fundamental_div_mod(start as int, wi);
                    assert(image_index(pos, wi, x, y) == start + (x - (pos.x + start as int % wi))) by (nonlinear_arith)
                        requires
                            image_index(pos, wi, x, y) == (y - pos.y) * wi + (x - pos.x),
                            y - pos.y == start as int / wi,
                            start as int == wi * (start as int / wi) + start as int % wi,
                    ;
                }
            }
            lemma_run_push(ops@, op, old_len, ranges@, image@, pos, wi, start as int, end as int, start as int, start + length);
        }
        ops.push(op);
        proof {
            ranges@ = ranges@.push((start as int, start + length));
        }
        length
    } else {
        0
    };
    assert(run_progress(ops@, old_len, ranges@, image@, pos, wi, start as int, end as int, start + unaligned));
    if unaligned < run_len {
        let a: usize = start + unaligned;
        proof {
            if unaligned > 0 {
                assert(a as int == (start as int / wi + 1) * wi + 0) by (nonlinear_arith)
                    requires
                        start as int == wi * (start as int / wi) + start as int % wi,
                        a == start + unaligned,
                        unaligned == wi - start as int % wi,
                ;
                lemma_fundamental_div_mod_converse(a as int, wi, start as int / wi + 1, 0);
            } else {
                assert(a as int % wi == 0);
            }
            lemma_fundamental_div_mod(a as int, wi);
        }
        let full_lines: usize = (run_len - unaligned) / w;
        proof {
            if start as int % wi == 0 && run_len as int % wi == 0 {
                assert(unaligned == 0);
                lemma_fundamental_div_mod(run_len as int, wi);
                assert(full_lines * wi == run_len) by (nonlinear_arith)
                    requires
                        run_len as int == wi * (run_len as int / wi) + 0,
                        full_lines == run_len as int / wi,
                ;
                assert(full_lines > 0);
            }
            lemma_fundamental_div_mod((run_len - unaligned) as int, wi);
            lemma_mod_division_less_than_divisor((run_len - unaligned) as int, wi);
            assert(full_lines * wi <= run_len - unaligned) by (nonlinear_arith)
                requires
                    (run_len - unaligned) as int == wi * full_lines + (run_len - unaligned) as int % wi,
                    0 <= (run_len - unaligned) as int % wi,
            ;
        }
        if full_lines > 0 {
            proof {
                assert(a as int / wi + full_lines <= end as int / wi) by (nonlinear_arith)
                    requires
                        a as int == wi * (a as int / wi) + 0,
                        full_lines * wi <= end - a,
                        wi > 0,
                ;
            }
            let piece = slice_subrange(image, a, a + full_lines * w);
            let op = DrawOp::Pixels {
                rect: Rect { x: pos.x, y: pos.y + (a / w) as u16, width: w as u16, height: full_lines as u16 },
                pixels: piece,
            };
            proof {
                assert forall|x: int, y: int| #[trigger] op_paints(op, x, y) == if in_image_cols(pos, wi, x, y) && a <= image_index(
                    pos,
                    wi,
                    x,
                    y,
                ) < a + full_lines * wi {
                    Some(image@[image_index(pos, wi, x, y)])
                } else {
                    None
                } by {
                    lemma_block_cells(pos, wi, a as int, full_lines as int, x, y);
                }
                lemma_run_push(ops@, op, old_len, ranges@, image@, pos, wi, start as int, end as int, a as int, a + full_lines * wi);
            }
            ops.push(op);
            proof {
                ranges@ = ranges@.push((a as int, a + full_lines * wi));
            }
        }
        let processed: usize = unaligned + full_lines * w;
        assert(run_progress(ops@, old_len, ranges@, image@, pos, wi, start as int, end as int, start + processed));
        if processed < run_len {
            let b: usize = start + processed;
            let rest: usize = run_len - processed;
            proof {
                assert(b as int == wi * (a as int / wi + full_lines) + 0) by (nonlinear_arith)
                    requires
                        a as int == wi * (a as int / wi) + 0,
                        b == a + full_lines * wi,
                ;
                lemma_fundamental_div_mod_converse(b as int, wi, a as int / wi + full_lines, 0);
                assert(rest < wi) by (nonlinear_arith)
                    requires
                        (run_len - unaligned) as int == wi * full_lines + (run_len - unaligned) as int % wi,
                        (run_len - unaligned) as int % wi < wi,
                        rest == run_len - processed,
                        processed == unaligned + full_lines * wi,
                ;
                assert(b as int / wi <= end as int / wi) by (nonlinear_arith)
                    requires
                        b <= end,
                        wi > 0,
                ;
            }
            let piece = slice_subrange(image, b, end);
            let op = DrawOp::Pixels {
                rect: Rect { x: pos.x, y: pos.y + (b / w) as u16, width: rest as u16, height: 1 },
                pixels: piece,
            };
            proof {
                assert forall|x: int, y: int| #[trigger] op_paints(op, x, y) == if in_image_cols(pos, wi, x, y) && b <= image_index(
                    pos,
                    wi,
                    x,
                    y,
                ) < b + rest {
                    Some(image@[image_index(pos, wi, x, y)])
                } else {
                    None
                } by {
                    lemma_row_cells(pos, wi, b as int, rest as int, x, y);
                    if pos.x <= x < pos.x + rest && y == pos.y + b as int / wi {
                        assert((y - (pos.y + b as int / wi)) * (rest as int) == 0) by (nonlinear_arith)
                            requires
                                y == pos.y + b as int / wi,
                        ;
                        lemma_fundamental_div_mod(b as int, wi);
                        assert(image_index(pos, wi, x, y) == b + (x - pos.x)) by (nonlinear_arith)
                            requires
                                image_index(pos, wi, x, y) == (y - pos.y) * wi + (x - pos.x),
                                y - pos.y == b as int / wi,
                                b as int == wi * (b as int / wi) + 0,
                        ;
                    }
                }
                lemma_run_push(ops@, op, old_len, ranges@, image@, pos, wi, start as int, end as int, b as int, end as int);
            }
            ops.push(op);
            proof {
                ranges@ = ranges@.push((b as int, end as int));
            }
        }
    }
    ranges
}

/// Number of image pixels a keyed drawing goes through: the whole rows
/// that start above the bottom of the screen.
pub open spec fn keyed_visible(pos: Point, size: (u16, u16)) -> int {
    keyed_lines(pos, size) * size.0
}

/// Number of image rows a keyed drawing goes through: those that start
/// above the bottom of the screen.
pub open spec fn keyed_lines(pos: Point, size: (u16, u16)) -> int {
    let room: int = if pos.y < SCREEN_HEIGHT { SCREEN_HEIGHT - pos.y } else { 0 };
    if size.1 < room { size.1 as int } else { room }
}

/// Every pixel a keyed drawing goes through is opaque, and there is one.
pub open spec fn keyed_all_opaque(image: Seq<Color>, pos: Point, size: (u16, u16)) -> bool {
    &&& keyed_visible(pos, size) > 0
    &&& forall|k: int| 0 <= k < keyed_visible(pos, size) ==> !keyed(#[trigger] image[k])
}

/// The single draw of a keyed image without a transparent pixel: its
/// visible rows copied in one block.
pub open spec fn keyed_single_block(ops: Seq<DrawOp>, image: Seq<Color>, pos: Point, size: (u16, u16)) -> bool {
    &&& ops.len() == 1
    &&& is_pixels(
        ops[0],
        Rect { x: pos.x, y: pos.y, width: size.0, height: keyed_lines(pos, size) as u16 },
        image.subrange(0, keyed_visible(pos, size)),
    )
}

/// The draws of a keyed image so far cover these index ranges, each made
/// of opaque pixels below `i`, and every opaque pixel below `i` is in one.
pub open spec fn keyed_progress(ops: Seq<DrawOp>, ranges: Seq<(int, int)>, image: Seq<Color>, pos: Point, w: int, i: int) -> bool {
    &&& ops.len() == ranges.len()
    &&& forall|j: int|
        0 <= j < ranges.len() ==> {
            &&& 0 <= range_lo(#[trigger] ranges[j]) <= range_hi(ranges[j]) <= i
            &&& op_covers(ops[j], image, pos, w, range_lo(ranges[j]), range_hi(ranges[j]))
            &&& forall|k: int| range_lo(ranges[j]) <= k < range_hi(ranges[j]) ==> !keyed(#[trigger] image[k])
        }
    &&& forall|k: int| 0 <= k < i && !keyed(#[trigger] image[k]) ==> in_ranges(ranges, k)
}

/// Draws the opaque runs of the visible rows of a keyed image, each split
/// into the end of its first row, its whole rows and the start of its last row.
fn draw_keyed<'a>(image: &'a [Color], pos: Point, size: (u16, u16)) -> (ops: Vec<DrawOp<'a>>)
    requires
        keyed_visible(pos, size) <= u16::MAX,
        keyed_visible(pos, size) <= image@.len(),
        pos.x + size.0 <= u16::MAX,
    ensures
        forall|j: int, x: int, y: int|
            0 <= j < ops@.len() && (#[trigger] op_paints(ops@[j], x, y)) is Some ==> op_paints(ops@[j], x, y) == keyed_paint(
                image@,
                pos,
                size.0 as int,
                keyed_visible(pos, size),
                x,
                y,
            ),
        forall|x: int, y: int|
            (#[trigger] keyed_paint(image@, pos, size.0 as int, keyed_visible(pos, size), x, y)) is Some ==> exists|j: int|
                0 <= j < ops@.len() && (#[trigger] op_paints(ops@[j], x, y)) is Some,
        keyed_all_opaque(image@, pos, size) ==> keyed_single_block(ops@, image@, pos, size),
{
    let ghost all_opaque = keyed_all_opaque(image@, pos, size);
    let row_width: usize = size.0 as usize;
    let room: u16 = if pos.y < SCREEN_HEIGHT { SCREEN_HEIGHT - pos.y } else { 0 };
    let max_lines: u16 = if size.1 < room { size.1 } else { room };
    let visible_pixels: usize = (max_lines * size.0) as usize;
    let ghost wi = row_width as int;
    let mut ops: Vec<DrawOp<'a>> = Vec::new();
    let ghost mut ranges: Seq<(int, int)> = Seq::empty();
    let mut i: usize = 0;
    while i < visible_pixels
        invariant
            visible_pixels == keyed_visible(pos, size),
            visible_pixels <= image@.len(),
            wi == size.0,
            row_width == size.0,
            max_lines * size.0 == visible_pixels,
            pos.y + max_lines <= SCREEN_HEIGHT || max_lines == 0,
            pos.x + size.0 <= u16::MAX,
            i <= visible_pixels,
            keyed_progress(ops@, ranges, image@, pos, wi, i as int),
            max_lines == keyed_lines(pos, size),
            all_opaque == keyed_all_opaque(image@, pos, size),
            all_opaque ==> (i == 0 && ops@.len() == 0) || (i == visible_pixels && keyed_single_block(ops@, image@, pos, size)),
        decreases visible_pixels - i,
    {
        if image[i].rgb565 == TRANSPARENCY_COLOR {
            i += 1;
        } else {
            let start: usize = i;
            while i < visible_pixels && image[i].rgb565 != TRANSPARENCY_COLOR
                invariant
                    start <= i <= visible_pixels,
                    visible_pixels <= image@.len(),
                    forall|k: int| start <= k < i ==> !keyed(#[trigger] image@[k]),
                decreases visible_pixels - i,
            {
                i += 1;
            }
            proof {
                assert(row_width > 0) by (nonlinear_arith)
                    requires
                        max_lines * row_width == visible_pixels,
                        visible_pixels > 0,
                ;
                assert((i as int) / wi <= max_lines) by (nonlinear_arith)
                    requires
                        i <= max_lines * wi,
                        wi > 0,
                ;
            }
            proof {
                if all_opaque {
                    assert(start == 0);
                    assert(!keyed(image@[i as int]) ==> i == visible_pixels);
                    lemma_fundamental_div_mod_converse(visible_pixels as int, wi, max_lines as int, 0);
                    assert(i == visible_pixels);
                }
            }
            let ghost old_ops = ops@;
            let new_ranges = push_run_ops(&mut ops, image, pos, row_width, start, i);
            proof {
                if all_opaque {
                    assert(image@.subrange(0, i as int) == image@.subrange(0, keyed_visible(pos, size)));
                }
            }
            proof {
                let old_len = old_ops.len() as int;
                let merged = ranges + new_ranges@;
                assert forall|j: int| 0 <= j < merged.len() implies {
                    &&& 0 <= range_lo(#[trigger] merged[j]) <= range_hi(merged[j]) <= i
                    &&& op_covers(ops@[j], image@, pos, wi, range_lo(merged[j]), range_hi(merged[j]))
                    &&& forall|k: int| range_lo(merged[j]) <= k < range_hi(merged[j]) ==> !keyed(#[trigger] image@[k])
                } by {
                    if j < old_len {
                        assert(merged[j] == ranges[j]);
                        assert(ops@[j] == old_ops[j]);
                    } else {
                        assert(merged[j] == new_ranges@[j - old_len]);
                    }
                }
                assert forall|k: int| 0 <= k < i && !keyed(#[trigger] image@[k]) implies in_ranges(merged, k) by {
                    if k < start {
                        assert(in_ranges(ranges, k));
                        let j = choose|j: int| 0 <= j < ranges.len() && range_lo(#[trigger] ranges[j]) <= k < range_hi(ranges[j]);
                        assert(merged[j] == ranges[j]);
                    } else {
                        assert(in_ranges(new_ranges@, k));
                        let j = choose|j: int| 0 <= j < new_ranges@.len() && range_lo(#[trigger] new_ranges@[j]) <= k < range_hi(
                            new_ranges@[j],
                        );
                        assert(merged[old_len + j] == new_ranges@[j]);
                    }
                }
                ranges = merged;
            }
        }
    }
    proof {
        assert forall|j: int, x: int, y: int| 0 <= j < ops@.len() && (#[trigger] op_paints(ops@[j], x, y)) is Some implies op_paints(
            ops@[j],
            x,
            y,
        ) == keyed_paint(image@, pos, size.0 as int, keyed_visible(pos, size), x, y) by {
            assert(op_covers(ops@[j], image@, pos, wi, range_lo(ranges[j]), range_hi(ranges[j])));
            let k = image_index(pos, wi, x, y);
            assert(range_lo(ranges[j]) <= k < range_hi(ranges[j]));
            assert(!keyed(image@[k]));
        }
        assert forall|x: int, y: int| (#[trigger] keyed_paint(image@, pos, size.0 as int, keyed_visible(pos, size), x, y)) is Some implies exists|
            j: int,
        | 0 <= j < ops@.len() && (#[trigger] op_paints(ops@[j], x, y)) is Some by {
            let k = image_index(pos, wi, x, y);
            assert(!keyed(image@[k]));
            assert(in_ranges(ranges, k));
            let j = choose|j: int| 0 <= j < ranges.len() && range_lo(#[trigger] ranges[j]) <= k < range_hi(ranges[j]);
            assert(op_covers(ops@[j], image@, pos, wi, range_lo(ranges[j]), range_hi(ranges[j])));
            assert(op_paints(ops@[j], x, y) is Some);
        }
    }
    ops
}

/// The draws of an image of `size` pixels at `pos` with its pixel data
/// `image`. Scaled up (`scaling > 1`), each pixel becomes a square, in
/// image order, transparent ones skipped when keyed, until the next row
/// would start past the image or below the screen. Keyed and not scaled,
/// exactly the opaque pixels of the rows that start above the bottom of the
/// screen are painted, each with its color, in row pieces (each opaque run
/// in at most three: the end of its first row, its whole rows, the start of
/// its last row), so that an image without a transparent pixel is drawn in
/// a single block. Otherwise the
/// image is copied in one block.
pub fn draw_image<'a>(image: &'a [Color], pos: Point, size: (u16, u16), scaling: u16, transparency: bool) -> (ops: Vec<DrawOp<'a>>)
    requires
        scaling > 1 ==> {
            &&& pos.x + eff_width(size.0 as int) * scaling <= u16::MAX
            &&& pos.y + eff_width(size.1 as int) * scaling <= u16::MAX
        },
        scaling <= 1 && transparency ==> {
            &&& keyed_visible(pos, size) <= u16::MAX
            &&& keyed_visible(pos, size) <= image@.len()
            &&& pos.x + size.0 <= u16::MAX
        },
    ensures
        scaling > 1 ==> ops@ == scaled_ops(image@, pos, size.0 as int, scaling, transparency, scaled_count(image@.len() as int, pos, size, scaling)),
        scaling <= 1 && transparency ==> {
            &&& forall|j: int, x: int, y: int|
                0 <= j < ops@.len() && (#[trigger] op_paints(ops@[j], x, y)) is Some ==> op_paints(ops@[j], x, y) == keyed_paint(
                    image@,
                    pos,
                    size.0 as int,
                    keyed_visible(pos, size),
                    x,
                    y,
                )
            &&& forall|x: int, y: int|
                (#[trigger] keyed_paint(image@, pos, size.0 as int, keyed_visible(pos, size), x, y)) is Some ==> exists|j: int|
                    0 <= j < ops@.len() && (#[trigger] op_paints(ops@[j], x, y)) is Some
            &&& keyed_all_opaque(image@, pos, size) ==> keyed_single_block(ops@, image@, pos, size)
        },
        scaling <= 1 && !transparency ==> ops@.len() == 1 && ops@[0] == (DrawOp::Pixels {
            rect: Rect { x: pos.x, y: pos.y, width: size.0, height: size.1 },
            pixels: image,
        }),
{
    if scaling > 1 {
        draw_scaled(image, pos, size, scaling, transparency)
    } else if transparency {
        draw_keyed(image, pos, size)
    } else {
        let mut ops: Vec<DrawOp<'a>> = Vec::new();
        ops.push(DrawOp::Pixels { rect: Rect { x: pos.x, y: pos.y, width: size.0, height: size.1 }, pixels: image });
        ops
    }
}

} // verus!
