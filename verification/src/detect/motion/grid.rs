//! The integer half of the motion math: downsample a decoded RGB frame to a
//! small gray grid, and count how many cells of the region a person box
//! covers changed since the previous sample.
//!
//! Everything here is a pure function over plain slices - no clock, no
//! channels - so it's straightforward to unit test and cheap to run at
//! `--motion-fps` on a Pi.

use vstd::prelude::*;

#[allow(unused_imports)]
use vstd::arithmetic::div_mod::lemma_fundamental_div_mod_converse;

verus! {

/// `v`, or 1 if `v` is 0.
pub open spec fn at_least_one(v: u32) -> int {
    if v >= 1 {
        v as int
    } else {
        1
    }
}

/// Whether a whole pixel starts at byte `idx` of `rgb`.
pub open spec fn present(rgb: Seq<u8>, idx: int) -> bool {
    0 <= idx && idx + 2 < rgb.len()
}

/// Rec. 601 luma of the pixel starting at byte `idx`, scaled by 1000 to stay
/// in integers; zero for a pixel past the end of the buffer.
pub open spec fn luma1000(rgb: Seq<u8>, idx: int) -> int {
    if present(rgb, idx) {
        rgb[idx] as int * 299 + rgb[idx + 1] as int * 587 + rgb[idx + 2] as int * 114
    } else {
        0
    }
}

/// Summed scaled luma of the pixels `x0 <= x < x1` of row `y` of a
/// `w`-pixel-wide frame.
pub open spec fn row_luma(rgb: Seq<u8>, w: int, y: int, x0: int, x1: int) -> int
    decreases x1 - x0,
{
    if x1 <= x0 {
        0
    } else {
        row_luma(rgb, w, y, x0, x1 - 1) + luma1000(rgb, (y * w + (x1 - 1)) * 3)
    }
}

/// How many of the pixels `x0 <= x < x1` of row `y` are in the buffer.
pub open spec fn row_count(rgb: Seq<u8>, w: int, y: int, x0: int, x1: int) -> int
    decreases x1 - x0,
{
    if x1 <= x0 {
        0
    } else {
        row_count(rgb, w, y, x0, x1 - 1) + if present(rgb, (y * w + (x1 - 1)) * 3) {
            1int
        } else {
            0int
        }
    }
}

/// Summed scaled luma over rows `y0 <= y < y1`, columns `x0 <= x < x1`.
pub open spec fn rect_luma(rgb: Seq<u8>, w: int, y0: int, y1: int, x0: int, x1: int) -> int
    decreases y1 - y0,
{
    if y1 <= y0 {
        0
    } else {
        rect_luma(rgb, w, y0, y1 - 1, x0, x1) + row_luma(rgb, w, y1 - 1, x0, x1)
    }
}

/// How many pixels of that rectangle are in the buffer.
pub open spec fn rect_count(rgb: Seq<u8>, w: int, y0: int, y1: int, x0: int, x1: int) -> int
    decreases y1 - y0,
{
    if y1 <= y0 {
        0
    } else {
        rect_count(rgb, w, y0, y1 - 1, x0, x1) + row_count(rgb, w, y1 - 1, x0, x1)
    }
}

/// First source row (or column) of grid cell `g` when `extent` pixels are
/// spread over `side` cells.
pub open spec fn span_lo(g: int, extent: int, side: int) -> int {
    g * extent / side
}

/// One past the last source row (or column) of grid cell `g`: at least one
/// pixel wide, never past the frame.
pub open spec fn span_hi(g: int, extent: int, side: int) -> int {
    let lo = span_lo(g, extent, side);
    let hi = (g + 1) * extent / side;
    let hi = if hi > lo + 1 { hi } else { lo + 1 };
    if hi < extent {
        hi
    } else {
        extent
    }
}

/// The gray value of grid cell `gy, gx`: the average luma of the source
/// pixels it covers that are present in the buffer, 0 if none are.
pub open spec fn cell_gray(rgb: Seq<u8>, w: int, h: int, side: int, gy: int, gx: int) -> int {
    let (y0, y1) = (span_lo(gy, h, side), span_hi(gy, h, side));
    let (x0, x1) = (span_lo(gx, w, side), span_hi(gx, w, side));
    let n = rect_count(rgb, w, y0, y1, x0, x1);
    if n == 0 {
        0
    } else {
        rect_luma(rgb, w, y0, y1, x0, x1) / (n * 1000)
    }
}

/// The whole grid, row-major: what [`downscale`] writes.
pub open spec fn grid_of(rgb: Seq<u8>, w: u32, h: u32, side: u32) -> Seq<u8> {
    let s = at_least_one(side);
    Seq::new(
        (s * s) as nat,
        |i: int| cell_gray(rgb, at_least_one(w), at_least_one(h), s, i / s, i % s) as u8,
    )
}

proof fn lemma_row_bounds(rgb: Seq<u8>, w: int, y: int, x0: int, x1: int)
    ensures
        0 <= row_luma(rgb, w, y, x0, x1) <= row_count(rgb, w, y, x0, x1) * 255000,
        0 <= row_count(rgb, w, y, x0, x1) <= if x1 > x0 { x1 - x0 } else { 0 },
    decreases x1 - x0,
{
    if x1 > x0 {
        lemma_row_bounds(rgb, w, y, x0, x1 - 1);
    }
}

proof fn lemma_rect_bounds(rgb: Seq<u8>, w: int, y0: int, y1: int, x0: int, x1: int)
    requires
        y0 <= y1,
        x0 <= x1,
    ensures
        0 <= rect_luma(rgb, w, y0, y1, x0, x1) <= rect_count(rgb, w, y0, y1, x0, x1) * 255000,
        0 <= rect_count(rgb, w, y0, y1, x0, x1) <= (y1 - y0) * (x1 - x0),
    decreases y1 - y0,
{
    if y1 > y0 {
        lemma_rect_bounds(rgb, w, y0, y1 - 1, x0, x1);
        lemma_row_bounds(rgb, w, y1 - 1, x0, x1);
        assert((y1 - 1 - y0) * (x1 - x0) + (x1 - x0) == (y1 - y0) * (x1 - x0)) by (nonlinear_arith);
    }
}

proof fn lemma_span(g: int, extent: int, side: int)
    requires
        0 <= g < side,
        1 <= extent,
        1 <= side,
    ensures
        0 <= span_lo(g, extent, side) < span_hi(g, extent, side) <= extent,
{
    assert(0 <= g * extent) by (nonlinear_arith)
        requires
            0 <= g,
            1 <= extent,
    ;
    assert(g * extent <= (side - 1) * extent) by (nonlinear_arith)
        requires
            g <= side - 1,
            1 <= extent,
    ;
    assert((side - 1) * extent == side * extent - extent) by (nonlinear_arith);
    assert(g * extent / side < extent) by (nonlinear_arith)
        requires
            0 <= g * extent <= side * extent - extent,
            1 <= side,
            1 <= extent,
    ;
    assert(0 <= g * extent / side) by (nonlinear_arith)
        requires
            0 <= g * extent,
            1 <= side,
    ;
}

/// Downsamples `rgb` (a `w`x`h` interleaved RGB buffer) into a `side`x`side`
/// grayscale grid, one byte per cell. Each cell is the box-filtered average
/// luma of every source pixel that falls inside it - averaging rather than
/// point-sampling means sensor noise mostly cancels out instead of flipping
/// individual cells from frame to frame. Zero sizes count as one.
pub fn downscale(rgb: &[u8], w: u32, h: u32, side: u32, out: &mut Vec<u8>)
    requires
        at_least_one(side) * at_least_one(side) <= u32::MAX,
        at_least_one(side) * at_least_one(w) <= u32::MAX,
        at_least_one(side) * at_least_one(h) <= u32::MAX,
        at_least_one(w) * at_least_one(h) * 3 <= usize::MAX,
    ensures
        final(out)@ == grid_of(rgb@, w, h, side),
{
    let side = if side >= 1 { side } else { 1 };
    let w = if w >= 1 { w } else { 1 };
    let h = if h >= 1 { h } else { 1 };
    let ghost (wi, hi, si) = (w as int, h as int, side as int);
    assert(w * h <= u64::MAX) by (nonlinear_arith)
        requires
            w <= u32::MAX,
            h <= u32::MAX,
    ;
    out.clear();
    out.resize((side * side) as usize, 0);

    let mut gy: u32 = 0;
    while gy < side
        invariant
            wi == w && hi == h && si == side,
            1 <= side,
            1 <= w,
            1 <= h,
            side * side <= u32::MAX,
            side * w <= u32::MAX,
            side * h <= u32::MAX,
            w * h * 3 <= usize::MAX,
            w * h <= u64::MAX,
            gy <= side,
            out@.len() == si * si,
            forall|i: int|
                0 <= i < gy * si ==> #[trigger] out@[i] == cell_gray(rgb@, wi, hi, si, i / si, i % si) as u8,
        decreases side - gy,
    {
        proof {
            lemma_span(gy as int, hi, si);
            assert((gy + 1) * h <= side * h) by (nonlinear_arith)
                requires
                    gy + 1 <= side,
                    1 <= h,
            ;
            assert(gy * h <= side * h) by (nonlinear_arith)
                requires
                    gy <= side,
                    1 <= h,
            ;
        }
        let y0 = gy * h / side;
        let y1a = (gy + 1) * h / side;
        let y1b = if y1a > y0 + 1 { y1a } else { y0 + 1 };
        let y1 = if y1b < h { y1b } else { h };

        let mut gx: u32 = 0;
        while gx < side
            invariant
                wi == w && hi == h && si == side,
                1 <= side,
                1 <= w,
                1 <= h,
                side * side <= u32::MAX,
                side * w <= u32::MAX,
                w * h * 3 <= usize::MAX,
                w * h <= u64::MAX,
                gy < side,
                gx <= side,
                y0 == span_lo(gy as int, hi, si),
                y1 == span_hi(gy as int, hi, si),
                0 <= y0 < y1 <= h,
                out@.len() == si * si,
                forall|i: int|
                    0 <= i < gy * si + gx ==> #[trigger] out@[i] == cell_gray(rgb@, wi, hi, si, i / si, i % si)
                        as u8,
            decreases side - gx,
        {
            proof {
                lemma_span(gx as int, wi, si);
                assert((gx + 1) * w <= side * w) by (nonlinear_arith)
                    requires
                        gx + 1 <= side,
                        1 <= w,
                ;
                assert(gx * w <= side * w) by (nonlinear_arith)
                    requires
                        gx <= side,
                        1 <= w,
                ;
            }
            let x0 = gx * w / side;
            let x1a = (gx + 1) * w / side;
            let x1b = if x1a > x0 + 1 { x1a } else { x0 + 1 };
            let x1 = if x1b < w { x1b } else { w };

            // Wide enough for every pixel of the frame in one cell.
            let mut weighted_sum: u128 = 0;
            let mut weight: u128 = 0;
            let mut y = y0;
            while y < y1
                invariant
                    wi == w && hi == h,
                    1 <= w,
                    w * h * 3 <= usize::MAX,
                    w * h <= u64::MAX,
                    0 <= y0 <= y <= y1 <= h,
                    0 <= x0 < x1 <= w,
                    weighted_sum == rect_luma(rgb@, wi, y0 as int, y as int, x0 as int, x1 as int),
                    weight == 1000 * rect_count(rgb@, wi, y0 as int, y as int, x0 as int, x1 as int),
                decreases y1 - y,
            {
                proof {
                    assert(y * w <= (h - 1) * w) by (nonlinear_arith)
                        requires
                            y <= h - 1,
                            1 <= w,
                    ;
                    assert((h - 1) * w + w == w * h) by (nonlinear_arith);
                }
                let row = (y as usize) * (w as usize) * 3;
                let mut x = x0;
                while x < x1
                    invariant
                        wi == w && hi == h,
                        1 <= w,
                        w * h * 3 <= usize::MAX,
                        w * h <= u64::MAX,
                        0 <= y0 <= y < y1 <= h,
                        0 <= x0 <= x <= x1 <= w,
                        y * w + w <= w * h,
                        row == (y * w) * 3,
                        weighted_sum == rect_luma(rgb@, wi, y0 as int, y as int, x0 as int, x1 as int)
                            + row_luma(rgb@, wi, y as int, x0 as int, x as int),
                        weight == 1000 * (rect_count(rgb@, wi, y0 as int, y as int, x0 as int, x1 as int)
                            + row_count(rgb@, wi, y as int, x0 as int, x as int)),
                    decreases x1 - x,
                {
                    proof {
                        lemma_rect_bounds(rgb@, wi, y0 as int, y as int, x0 as int, x1 as int);
                        lemma_row_bounds(rgb@, wi, y as int, x0 as int, x as int);
                        assert((y - y0) * (x1 - x0) + (x - x0) <= w * h) by (nonlinear_arith)
                            requires
                                0 <= y0 <= y < y1 <= h,
                                0 <= x0 <= x < x1 <= w,
                                y * w + w <= w * h,
                        ;
                    }
                    let idx = row + (x as usize) * 3;
                    assert(idx == (y * w + x) * 3);
                    if idx + 2 < rgb.len() {
                        let (r, g, b) = (rgb[idx] as u128, rgb[idx + 1] as u128, rgb[idx + 2] as u128);
                        // Rec. 601 luma weights, scaled by 1000 to stay in
                        // integer math.
                        weighted_sum = weighted_sum + r * 299 + g * 587 + b * 114;
                        weight = weight + 1000;
                    }
                    x = x + 1;
                }
                y = y + 1;
            }
            proof {
                lemma_rect_bounds(rgb@, wi, y0 as int, y1 as int, x0 as int, x1 as int);
                let n = rect_count(rgb@, wi, y0 as int, y1 as int, x0 as int, x1 as int);
                if n > 0 {
                    assert((weighted_sum as int) / (n * 1000) <= 255) by (nonlinear_arith)
                        requires
                            0 <= weighted_sum <= n * 255000,
                            n > 0,
                    ;
                }
            }
            let gray: u8 = if weight == 0 {
                0
            } else {
                (weighted_sum / weight) as u8
            };
            proof {
                assert(gy * side + gx < side * side) by (nonlinear_arith)
                    requires
                        gy < side,
                        gx < side,
                ;
                lemma_fundamental_div_mod_converse(gy * si + gx, si, gy as int, gx as int);
            }
            let k = (gy * side + gx) as usize;
            out.set(k, gray);
            gx = gx + 1;
        }
        assert(gy * si + si == (gy + 1) * si) by (nonlinear_arith);
        gy = gy + 1;
    }
    assert(out@ =~= grid_of(rgb@, w, h, side));
}

} // verus!

verus! {

/// Whether a cell's gray value moved by at least `pixel_delta`.
pub open spec fn cell_changed(prev: u8, cur: u8, pixel_delta: u8) -> bool {
    (if prev >= cur { prev - cur } else { cur - prev }) >= pixel_delta
}

/// Among the first `n` cells, how many are on the `inside` side of the mask
/// (and, with `changed_only`, also changed).
pub open spec fn count_cells(
    prev: Seq<u8>,
    cur: Seq<u8>,
    mask: Seq<bool>,
    pixel_delta: u8,
    n: int,
    inside: bool,
    changed_only: bool,
) -> int
    decreases n,
{
    if n <= 0 {
        0
    } else {
        count_cells(prev, cur, mask, pixel_delta, n - 1, inside, changed_only) + if mask[n - 1]
            == inside && (!changed_only || cell_changed(prev[n - 1], cur[n - 1], pixel_delta)) {
            1int
        } else {
            0int
        }
    }
}

/// How many grid cells changed between two samples, split by whether the
/// cell is inside the person mask or not. The `outside` half is what lets
/// the caller tell "the baby moved" apart from "the whole room got
/// brighter".
#[derive(Debug, Clone, Copy, PartialEq, Eq)]
pub struct CellCounts {
    pub inside_total: usize,
    pub inside_changed: usize,
    pub outside_total: usize,
    pub outside_changed: usize,
}

/// The number of cells [`count_changes`] compares: the shortest of the three.
pub open spec fn compared(prev: Seq<u8>, cur: Seq<u8>, mask: Seq<bool>) -> int {
    let n = if prev.len() < cur.len() { prev.len() } else { cur.len() };
    if n < mask.len() {
        n as int
    } else {
        mask.len() as int
    }
}

proof fn lemma_count_cells_bound(
    prev: Seq<u8>,
    cur: Seq<u8>,
    mask: Seq<bool>,
    pixel_delta: u8,
    n: int,
    inside: bool,
    changed_only: bool,
)
    ensures
        0 <= count_cells(prev, cur, mask, pixel_delta, n, inside, changed_only) <= if n > 0 {
            n
        } else {
            0
        },
        count_cells(prev, cur, mask, pixel_delta, n, inside, true) <= count_cells(
            prev,
            cur,
            mask,
            pixel_delta,
            n,
            inside,
            false,
        ),
    decreases n,
{
    if n > 0 {
        lemma_count_cells_bound(prev, cur, mask, pixel_delta, n - 1, inside, changed_only);
    }
}

/// Compares two same-sized grids cell-by-cell against `mask`. A cell counts
/// as changed when its gray value moved by at least `pixel_delta`. Only the
/// cells all three slices have are compared.
pub fn count_changes(prev: &[u8], cur: &[u8], mask: &[bool], pixel_delta: u8) -> (r: CellCounts)
    ensures
        ({
            let n = compared(prev@, cur@, mask@);
            &&& r.inside_total == count_cells(prev@, cur@, mask@, pixel_delta, n, true, false)
            &&& r.inside_changed == count_cells(prev@, cur@, mask@, pixel_delta, n, true, true)
            &&& r.outside_total == count_cells(prev@, cur@, mask@, pixel_delta, n, false, false)
            &&& r.outside_changed == count_cells(prev@, cur@, mask@, pixel_delta, n, false, true)
        }),
        r.inside_changed <= r.inside_total,
        r.outside_changed <= r.outside_total,
        r.inside_total + r.outside_total == compared(prev@, cur@, mask@),
{
    let n0 = if prev.len() < cur.len() { prev.len() } else { cur.len() };
    let n = if n0 < mask.len() { n0 } else { mask.len() };
    let (mut inside_total, mut inside_changed) = (0usize, 0usize);
    let (mut outside_total, mut outside_changed) = (0usize, 0usize);

    let mut i: usize = 0;
    while i < n
        invariant
            n == compared(prev@, cur@, mask@),
            n <= prev@.len() && n <= cur@.len() && n <= mask@.len(),
            i <= n,
            inside_total == count_cells(prev@, cur@, mask@, pixel_delta, i as int, true, false),
            inside_changed == count_cells(prev@, cur@, mask@, pixel_delta, i as int, true, true),
            outside_total == count_cells(prev@, cur@, mask@, pixel_delta, i as int, false, false),
            outside_changed == count_cells(prev@, cur@, mask@, pixel_delta, i as int, false, true),
            inside_total + outside_total == i,
        decreases n - i,
    {
        proof {
            lemma_count_cells_bound(prev@, cur@, mask@, pixel_delta, i as int, true, true);
            lemma_count_cells_bound(prev@, cur@, mask@, pixel_delta, i as int, false, true);
        }
        let delta = if prev[i] >= cur[i] { prev[i] - cur[i] } else { cur[i] - prev[i] };
        let changed = delta >= pixel_delta;
        if mask[i] {
            inside_total = inside_total + 1;
            if changed {
                inside_changed = inside_changed + 1;
            }
        } else {
            outside_total = outside_total + 1;
            if changed {
                outside_changed = outside_changed + 1;
            }
        }
        i = i + 1;
    }
    proof {
        lemma_count_cells_bound(prev@, cur@, mask@, pixel_delta, n as int, true, true);
        lemma_count_cells_bound(prev@, cur@, mask@, pixel_delta, n as int, false, true);
    }
    CellCounts { inside_total, inside_changed, outside_total, outside_changed }
}

} // verus!

verus! {

proof fn lemma_no_change_counts(g: Seq<u8>, mask: Seq<bool>, pixel_delta: u8, n: int, inside: bool)
    requires
        pixel_delta > 0,
    ensures
        count_cells(g, g, mask, pixel_delta, n, inside, true) == 0,
    decreases n,
{
    if n > 0 {
        lemma_no_change_counts(g, mask, pixel_delta, n - 1, inside);
    }
}

proof fn lemma_unmasked_counts(prev: Seq<u8>, cur: Seq<u8>, mask: Seq<bool>, pixel_delta: u8, n: int)
    requires
        n <= mask.len(),
        forall|i: int| 0 <= i < mask.len() ==> !mask[i],
    ensures
        count_cells(prev, cur, mask, pixel_delta, n, true, false) == 0,
    decreases n,
{
    if n > 0 {
        lemma_unmasked_counts(prev, cur, mask, pixel_delta, n - 1);
    }
}

/// Comparing a grid with itself finds no changed cell on either side of
/// the mask, for any positive change threshold.
pub proof fn law_identical_grids_have_no_change(g: Seq<u8>, mask: Seq<bool>, pixel_delta: u8)
    requires
        pixel_delta > 0,
    ensures
        count_cells(g, g, mask, pixel_delta, compared(g, g, mask), true, true) == 0,
        count_cells(g, g, mask, pixel_delta, compared(g, g, mask), false, true) == 0,
{
    lemma_no_change_counts(g, mask, pixel_delta, compared(g, g, mask), true);
    lemma_no_change_counts(g, mask, pixel_delta, compared(g, g, mask), false);
}

/// With no cell inside the mask there is no subject to score: the inside
/// total is zero, whatever the grids hold.
pub proof fn law_empty_mask_has_no_inside(prev: Seq<u8>, cur: Seq<u8>, mask: Seq<bool>, pixel_delta: u8)
    requires
        forall|i: int| 0 <= i < mask.len() ==> !mask[i],
    ensures
        count_cells(prev, cur, mask, pixel_delta, compared(prev, cur, mask), true, false) == 0,
{
    lemma_unmasked_counts(prev, cur, mask, pixel_delta, compared(prev, cur, mask));
}

proof fn lemma_cell_index(gy: int, gx: int, s: int)
    requires
        0 <= gy < s,
        0 <= gx < s,
    ensures
        0 <= gy * s + gx < s * s,
        (gy * s + gx) / s == gy,
        (gy * s + gx) % s == gx,
{
    assert(0 <= gy * s + gx < s * s) by (nonlinear_arith)
        requires
            0 <= gy < s,
            0 <= gx < s,
    ;
    lemma_fundamental_div_mod_converse(gy * s + gx, s, gy, gx);
}

/// Each cell of the grid is the average scaled luma of the source pixels
/// in its band, over the pixels the buffer holds (0 if it holds none): grid
/// row `gy` covers source rows `gy*h/side` up to `(gy+1)*h/side` (at least
/// one row, never past the frame), and grid column `gx` the columns
/// `gx*w/side` up to `(gx+1)*w/side` likewise, zero sizes counting as one.
pub proof fn law_cells_average_their_band(
    rgb: Seq<u8>,
    w: u32,
    h: u32,
    side: u32,
    gy: int,
    gx: int,
)
    requires
        0 <= gy < at_least_one(side),
        0 <= gx < at_least_one(side),
    ensures
        ({
            let (ww, hh, s) = (at_least_one(w), at_least_one(h), at_least_one(side));
            let y0 = gy * hh / s;
            let y1 = if (gy + 1) * hh / s > y0 + 1 { (gy + 1) * hh / s } else { y0 + 1 };
            let y1 = if y1 < hh { y1 } else { hh };
            let x0 = gx * ww / s;
            let x1 = if (gx + 1) * ww / s > x0 + 1 { (gx + 1) * ww / s } else { x0 + 1 };
            let x1 = if x1 < ww { x1 } else { ww };
            let n = rect_count(rgb, ww, y0, y1, x0, x1);
            &&& 0 <= y0 < y1 <= hh
            &&& 0 <= x0 < x1 <= ww
            &&& grid_of(rgb, w, h, side)[gy * s + gx] == (if n == 0 {
                0
            } else {
                rect_luma(rgb, ww, y0, y1, x0, x1) / (n * 1000)
            })
        }),
{
    let (ww, hh, s) = (at_least_one(w), at_least_one(h), at_least_one(side));
    lemma_cell_index(gy, gx, s);
    lemma_span(gy, hh, s);
    lemma_span(gx, ww, s);
    let (y0, y1) = (span_lo(gy, hh, s), span_hi(gy, hh, s));
    let (x0, x1) = (span_lo(gx, ww, s), span_hi(gx, ww, s));
    lemma_rect_bounds(rgb, ww, y0, y1, x0, x1);
    let n = rect_count(rgb, ww, y0, y1, x0, x1);
    let l = rect_luma(rgb, ww, y0, y1, x0, x1);
    if n > 0 {
        assert(l / (n * 1000) <= 255) by (nonlinear_arith)
            requires
                0 <= l <= n * 255000,
                n > 0,
        ;
        assert(0 <= l / (n * 1000)) by (nonlinear_arith)
            requires
                0 <= l,
                n > 0,
        ;
    }
}

/// The bands of consecutive grid rows meet without gap or overlap and
/// together cover the frame's rows, each at least one row tall, when the
/// frame has at least as many rows as the grid (and likewise for columns):
/// every source row lands in exactly one grid row.
pub proof fn law_bands_tile_the_frame(extent: int, s: int, g: int)
    requires
        1 <= s <= extent,
        0 <= g < s,
    ensures
        span_lo(0, extent, s) == 0,
        span_hi(s - 1, extent, s) == extent,
        span_lo(g, extent, s) == g * extent / s,
        span_lo(g, extent, s) < span_hi(g, extent, s),
        g + 1 < s ==> span_hi(g, extent, s) == span_lo(g + 1, extent, s),
        span_hi(g, extent, s) == (if (g + 1) * extent / s < extent { (g + 1) * extent / s } else { extent }),
{
    lemma_span(g, extent, s);
    assert(g * extent + extent == (g + 1) * extent) by (nonlinear_arith);
    assert((g + 1) * extent / s >= g * extent / s + 1) by (nonlinear_arith)
        requires
            s <= extent,
            1 <= s,
            0 <= g,
            g * extent + extent == (g + 1) * extent,
    {
        let a = g * extent;
        assert(a + s <= a + extent);
        assert((a + s) / s == a / s + 1) by {
            vstd::arithmetic::div_mod::lemma_fundamental_div_mod(a, s);
            vstd::arithmetic::div_mod::lemma_div_plus_one(a, s);
        }
        vstd::arithmetic::div_mod::lemma_div_is_ordered(a + s, a + extent, s);
    }
    assert((g + 1) * extent <= s * extent) by (nonlinear_arith)
        requires
            g + 1 <= s,
            1 <= extent,
    ;
    vstd::arithmetic::div_mod::lemma_div_is_ordered((g + 1) * extent, s * extent, s);
    assert(s * extent / s == extent) by (nonlinear_arith)
        requires
            1 <= s,
    ;
    assert(((s - 1) + 1) * extent / s == extent) by {
        assert((s - 1) + 1 == s);
    }
    assert(0int * extent / s == 0) by (nonlinear_arith)
        requires
            1 <= s,
    ;
}

proof fn lemma_pixel_inside(w: int, h: int, y: int, x: int)
    requires
        0 <= y < h,
        0 <= x < w,
    ensures
        0 <= (y * w + x) * 3,
        (y * w + x) * 3 + 2 < w * h * 3,
{
    assert(0 <= y * w + x < w * h) by (nonlinear_arith)
        requires
            0 <= y < h,
            0 <= x < w,
    ;
}

proof fn lemma_uniform_row(rgb: Seq<u8>, w: int, h: int, y: int, x0: int, x1: int, v: u8)
    requires
        rgb.len() == w * h * 3,
        forall|i: int| 0 <= i < rgb.len() ==> rgb[i] == v,
        0 <= y < h,
        0 <= x0 <= x1 <= w,
    ensures
        row_count(rgb, w, y, x0, x1) == x1 - x0,
        row_luma(rgb, w, y, x0, x1) == (x1 - x0) * 1000 * v,
    decreases x1 - x0,
{
    if x1 > x0 {
        lemma_uniform_row(rgb, w, h, y, x0, x1 - 1, v);
        lemma_pixel_inside(w, h, y, x1 - 1);
        let idx = (y * w + (x1 - 1)) * 3;
        assert(present(rgb, idx));
        assert(luma1000(rgb, idx) == 1000 * v);
        assert((x1 - 1 - x0) * 1000 * v + 1000 * v == (x1 - x0) * 1000 * v) by (nonlinear_arith);
    } else {
        assert((x1 - x0) * 1000 * v == 0) by (nonlinear_arith)
            requires
                x1 == x0,
        ;
    }
}

proof fn lemma_uniform_rect(
    rgb: Seq<u8>,
    w: int,
    h: int,
    y0: int,
    y1: int,
    x0: int,
    x1: int,
    v: u8,
)
    requires
        rgb.len() == w * h * 3,
        forall|i: int| 0 <= i < rgb.len() ==> rgb[i] == v,
        0 <= y0 <= y1 <= h,
        0 <= x0 <= x1 <= w,
    ensures
        rect_count(rgb, w, y0, y1, x0, x1) == (y1 - y0) * (x1 - x0),
        rect_luma(rgb, w, y0, y1, x0, x1) == (y1 - y0) * (x1 - x0) * 1000 * v,
    decreases y1 - y0,
{
    if y1 > y0 {
        lemma_uniform_rect(rgb, w, h, y0, y1 - 1, x0, x1, v);
        lemma_uniform_row(rgb, w, h, y1 - 1, x0, x1, v);
        let (a, b) = (y1 - 1 - y0, x1 - x0);
        assert(a * b + b == (y1 - y0) * b) by (nonlinear_arith)
            requires
                a == y1 - 1 - y0,
        ;
        assert(a * b * 1000 * v + b * 1000 * v == (y1 - y0) * b * 1000 * v) by (nonlinear_arith)
            requires
                a == y1 - 1 - y0,
        ;
    } else {
        assert((y1 - y0) * (x1 - x0) == 0 && (y1 - y0) * (x1 - x0) * 1000 * v == 0) by (nonlinear_arith)
            requires
                y1 == y0,
        ;
    }
}

/// A frame of one flat gray downscales to that gray in every cell: every
/// cell averages a non-empty band of the frame, so none is left dark or
/// blends in anything but the frame's own pixels.
pub proof fn law_flat_frame_gives_flat_grid(rgb: Seq<u8>, w: u32, h: u32, side: u32, v: u8)
    requires
        rgb.len() == at_least_one(w) * at_least_one(h) * 3,
        forall|i: int| 0 <= i < rgb.len() ==> rgb[i] == v,
    ensures
        forall|i: int| 0 <= i < grid_of(rgb, w, h, side).len() ==> grid_of(rgb, w, h, side)[i] == v,
{
    let (ww, hh, s) = (at_least_one(w), at_least_one(h), at_least_one(side));
    assert forall|i: int| 0 <= i < grid_of(rgb, w, h, side).len() implies grid_of(
        rgb,
        w,
        h,
        side,
    )[i] == v by {
        assert(0 <= i < s * s);
        let (gy, gx) = (i / s, i % s);
        assert(0 <= gy < s && 0 <= gx < s) by (nonlinear_arith)
            requires
                0 <= i < s * s,
                1 <= s,
                gy == i / s,
                gx == i % s,
        ;
        lemma_span(gy, hh, s);
        lemma_span(gx, ww, s);
        let (y0, y1) = (span_lo(gy, hh, s), span_hi(gy, hh, s));
        let (x0, x1) = (span_lo(gx, ww, s), span_hi(gx, ww, s));
        lemma_uniform_rect(rgb, ww, hh, y0, y1, x0, x1, v);
        let n = (y1 - y0) * (x1 - x0);
        assert(n > 0) by (nonlinear_arith)
            requires
                y0 < y1,
                x0 < x1,
                n == (y1 - y0) * (x1 - x0),
        ;
        assert(n * 1000 * v / (n * 1000) == v) by (nonlinear_arith)
            requires
                n > 0,
        ;
        assert(cell_gray(rgb, ww, hh, s, gy, gx) == v);
    }
}

/// The red, green and blue bytes of pixel `k` of an interleaved RGB
/// buffer.
pub open spec fn pixel(rgb: Seq<u8>, k: int) -> (u8, u8, u8) {
    (rgb[3 * k], rgb[3 * k + 1], rgb[3 * k + 2])
}

proof fn lemma_color_row(rgb: Seq<u8>, w: int, h: int, y: int, x0: int, x1: int, r: u8, g: u8, b: u8)
    requires
        rgb.len() == w * h * 3,
        forall|k: int| 0 <= k < w * h ==> #[trigger] pixel(rgb, k) == (r, g, b),
        0 <= y < h,
        0 <= x0 <= x1 <= w,
    ensures
        row_count(rgb, w, y, x0, x1) == x1 - x0,
        row_luma(rgb, w, y, x0, x1) == (x1 - x0) * (r * 299 + g * 587 + b * 114),
    decreases x1 - x0,
{
    if x1 > x0 {
        lemma_color_row(rgb, w, h, y, x0, x1 - 1, r, g, b);
        lemma_pixel_inside(w, h, y, x1 - 1);
        let k = y * w + (x1 - 1);
        assert(0 <= k < w * h) by (nonlinear_arith)
            requires
                0 <= y < h,
                0 <= x1 - 1 < w,
                k == y * w + (x1 - 1),
        ;
        let idx = k * 3;
        assert(pixel(rgb, k) == (r, g, b));
        assert(idx == 3 * k);
        assert(present(rgb, idx));
        let l = r * 299 + g * 587 + b * 114;
        assert(luma1000(rgb, idx) == l);
        assert((x1 - 1 - x0) * l + l == (x1 - x0) * l) by (nonlinear_arith);
    } else {
        assert((x1 - x0) * (r * 299 + g * 587 + b * 114) == 0) by (nonlinear_arith)
            requires
                x1 == x0,
        ;
    }
}

proof fn lemma_color_rect(
    rgb: Seq<u8>,
    w: int,
    h: int,
    y0: int,
    y1: int,
    x0: int,
    x1: int,
    r: u8,
    g: u8,
    b: u8,
)
    requires
        rgb.len() == w * h * 3,
        forall|k: int| 0 <= k < w * h ==> #[trigger] pixel(rgb, k) == (r, g, b),
        0 <= y0 <= y1 <= h,
        0 <= x0 <= x1 <= w,
    ensures
        rect_count(rgb, w, y0, y1, x0, x1) == (y1 - y0) * (x1 - x0),
        rect_luma(rgb, w, y0, y1, x0, x1) == (y1 - y0) * (x1 - x0) * (r * 299 + g * 587 + b * 114),
    decreases y1 - y0,
{
    let l = r * 299 + g * 587 + b * 114;
    if y1 > y0 {
        lemma_color_rect(rgb, w, h, y0, y1 - 1, x0, x1, r, g, b);
        lemma_color_row(rgb, w, h, y1 - 1, x0, x1, r, g, b);
        let (a, c) = (y1 - 1 - y0, x1 - x0);
        assert(a * c + c == (y1 - y0) * c) by (nonlinear_arith)
            requires
                a == y1 - 1 - y0,
        ;
        assert(a * c * l + c * l == (y1 - y0) * c * l) by (nonlinear_arith)
            requires
                a == y1 - 1 - y0,
        ;
    } else {
        assert((y1 - y0) * (x1 - x0) == 0 && (y1 - y0) * (x1 - x0) * l == 0) by (nonlinear_arith)
            requires
                y1 == y0,
        ;
    }
}

/// A frame of one flat colour downscales to that colour's Rec. 601 luma
/// in every cell, `(299 r + 587 g + 114 b) / 1000` rounded down: red,
/// green and blue weigh in as the standard says, whatever the frame's
/// shape and the grid's size.
pub proof fn law_flat_color_frame_gives_its_luma(
    rgb: Seq<u8>,
    w: u32,
    h: u32,
    side: u32,
    r: u8,
    g: u8,
    b: u8,
)
    requires
        rgb.len() == at_least_one(w) * at_least_one(h) * 3,
        forall|k: int|
            0 <= k < at_least_one(w) * at_least_one(h) ==> #[trigger] pixel(rgb, k) == (r, g, b),
    ensures
        forall|i: int|
            0 <= i < grid_of(rgb, w, h, side).len() ==> grid_of(rgb, w, h, side)[i] == (r * 299 + g
                * 587 + b * 114) / 1000,
{
    let (ww, hh, s) = (at_least_one(w), at_least_one(h), at_least_one(side));
    let l = r * 299 + g * 587 + b * 114;
    assert forall|i: int| 0 <= i < grid_of(rgb, w, h, side).len() implies grid_of(
        rgb,
        w,
        h,
        side,
    )[i] == l / 1000 by {
        assert(0 <= i < s * s);
        let (gy, gx) = (i / s, i % s);
        assert(0 <= gy < s && 0 <= gx < s) by (nonlinear_arith)
            requires
                0 <= i < s * s,
                1 <= s,
                gy == i / s,
                gx == i % s,
        ;
        lemma_span(gy, hh, s);
        lemma_span(gx, ww, s);
        let (y0, y1) = (span_lo(gy, hh, s), span_hi(gy, hh, s));
        let (x0, x1) = (span_lo(gx, ww, s), span_hi(gx, ww, s));
        lemma_color_rect(rgb, ww, hh, y0, y1, x0, x1, r, g, b);
        let n = (y1 - y0) * (x1 - x0);
        assert(n > 0) by (nonlinear_arith)
            requires
                y0 < y1,
                x0 < x1,
                n == (y1 - y0) * (x1 - x0),
        ;
        assert(n * l == (y1 - y0) * (x1 - x0) * l) by (nonlinear_arith)
            requires
                n == (y1 - y0) * (x1 - x0),
        ;
        vstd::arithmetic::div_mod::lemma_div_denominator(n * l, n, 1000);
        vstd::arithmetic::div_mod::lemma_div_multiples_vanish(l, n);
        assert(cell_gray(rgb, ww, hh, s, gy, gx) == l / 1000);
    }
}

} // verus!
