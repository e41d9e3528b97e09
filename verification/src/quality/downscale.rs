//! Box-average downscaling of RGB8 frames for cheap quality analysis.

use vstd::prelude::*;
use vstd::arithmetic::div_mod::lemma_fundamental_div_mod_converse;
use crate::types::{CameraFrame, is_hyphenated_uuid};

verus! {

// ---------------------------------------------------------------------------
// Model
// ---------------------------------------------------------------------------

/// Ceiling of `a / b` for `a >= 1`, `b >= 1`.
pub open spec fn ceil_div(a: int, b: int) -> int {
    (a - 1) / b + 1
}

/// Side length of each square block averaged into one output pixel.
pub open spec fn downscale_factor(width: int, height: int, max_dim: int) -> int {
    ceil_div(if width >= height { width } else { height }, max_dim)
}

/// Output length of a side of `n` pixels with block size `f` (at least one).
pub open spec fn scaled_len(n: int, f: int) -> int {
    if n / f >= 1 {
        n / f
    } else {
        1
    }
}

/// Channel `c` of source pixel `(sx, sy)`, or 0 outside the picture.
pub open spec fn src_sample(data: Seq<u8>, w: int, h: int, sx: int, sy: int, c: int) -> int {
    if sx < w && sy < h {
        data[(sy * w + sx) * 3 + c] as int
    } else {
        0
    }
}

/// Sum of channel `c` over the first `n` pixels of row `dy` of block `(x, y)`.
pub open spec fn row_sum(
    data: Seq<u8>,
    w: int,
    h: int,
    f: int,
    x: int,
    y: int,
    c: int,
    dy: int,
    n: int,
) -> int
    decreases n,
{
    if n <= 0 {
        0
    } else {
        row_sum(data, w, h, f, x, y, c, dy, n - 1) + src_sample(
            data,
            w,
            h,
            x * f + (n - 1),
            y * f + dy,
            c,
        )
    }
}

/// Sum of channel `c` over the first `m` rows of block `(x, y)`.
pub open spec fn block_sum(
    data: Seq<u8>,
    w: int,
    h: int,
    f: int,
    x: int,
    y: int,
    c: int,
    m: int,
) -> int
    decreases m,
{
    if m <= 0 {
        0
    } else {
        block_sum(data, w, h, f, x, y, c, m - 1) + row_sum(data, w, h, f, x, y, c, m - 1, f)
    }
}

/// The divisor of a block: its area, saturated at `u32::MAX`.
pub open spec fn box_area(f: int) -> int {
    if f * f <= u32::MAX {
        f * f
    } else {
        u32::MAX as int
    }
}

/// Average of channel `c` over block `(x, y)`, saturated at 255.
pub open spec fn box_average(data: Seq<u8>, w: int, h: int, f: int, x: int, y: int, c: int) -> u8 {
    let q = block_sum(data, w, h, f, x, y, c, f) / box_area(f);
    if q <= 255 {
        q as u8
    } else {
        255
    }
}

/// The downscaled RGB8 picture: one averaged pixel per `f` x `f` block.
pub open spec fn downscaled_pixels(data: Seq<u8>, w: int, h: int, f: int) -> Seq<u8> {
    let nw = scaled_len(w, f);
    let nh = scaled_len(h, f);
    Seq::new(
        (nw * nh * 3) as nat,
        |i: int| box_average(data, w, h, f, (i / 3) % nw, (i / 3) / nw, i % 3),
    )
}

/// Number of source columns (resp. rows) the blocks read: the blocks cover
/// `n * f` pixels, clipped to the picture.
pub open spec fn covered(side: int, f: int) -> int {
    let span = scaled_len(side, f) * f;
    if span <= side {
        span
    } else {
        side
    }
}

/// The source buffer holds every pixel that some block reads.
pub open spec fn holds_covered_pixels(data: Seq<u8>, w: int, h: int, f: int) -> bool {
    let ax = covered(w, f);
    let ay = covered(h, f);
    ax > 0 && ay > 0 ==> 3 * ((ay - 1) * w + ax) <= data.len()
}

/// No block's channel sum leaves the `u32` accumulator.
pub open spec fn block_sums_fit(data: Seq<u8>, w: int, h: int, f: int) -> bool {
    forall|x: int, y: int, c: int|
        0 <= x < scaled_len(w, f) && 0 <= y < scaled_len(h, f) && 0 <= c < 3 ==> #[trigger] block_sum(
            data,
            w,
            h,
            f,
            x,
            y,
            c,
            f,
        ) <= u32::MAX
}

/// The longer side of a picture.
pub open spec fn max_side(width: u32, height: u32) -> u32 {
    if width >= height {
        width
    } else {
        height
    }
}

/// The inputs on which downscaling to `max_dim` runs to completion: a zero
/// `max_dim` only for an empty picture, and for a picture that is shrunk, a
/// block area and an output size that fit in `usize`, a buffer holding every
/// pixel that is read and block sums that fit the `u32` accumulators.
pub open spec fn downscale_defined(frame: CameraFrame, max_dim: u32) -> bool {
    let w = frame.width as int;
    let h = frame.height as int;
    let f = downscale_factor(w, h, max_dim as int);
    &&& max_dim > 0 || max_side(frame.width, frame.height) == 0
    &&& max_side(frame.width, frame.height) > max_dim ==> {
        &&& f * f <= usize::MAX
        &&& scaled_len(w, f) * scaled_len(h, f) * 3 <= usize::MAX
        &&& holds_covered_pixels(frame.data@, w, h, f)
        &&& block_sums_fit(frame.data@, w, h, f)
    }
}

// ---------------------------------------------------------------------------
// Lemmas
// ---------------------------------------------------------------------------

/// Position `(x, y)`, channel `c` of a row-major RGB8 picture `nw` pixels wide
/// sits at byte `(y * nw + x) * 3 + c`, and back.
proof fn lemma_pixel_index(nw: int, x: int, y: int, c: int)
    requires
        0 <= x < nw,
        0 <= y,
        0 <= c < 3,
    ensures
        ((y * nw + x) * 3 + c) / 3 == y * nw + x,
        ((y * nw + x) * 3 + c) % 3 == c,
        (y * nw + x) % nw == x,
        (y * nw + x) / nw == y,
{
    lemma_fundamental_div_mod_converse((y * nw + x) * 3 + c, 3, y * nw + x, c);
    lemma_fundamental_div_mod_converse(y * nw + x, nw, y, x);
}

/// A side no longer than `ms`, shrunk by the block size for `ms` and
/// `md`, is at most `md` long.
proof fn lemma_scaled_within(side: int, ms: int, md: int)
    requires
        0 <= side <= ms,
        1 <= md < ms,
    ensures
        scaled_len(side, ceil_div(ms, md)) <= md,
{
    let f = ceil_div(ms, md);
    let q = (ms - 1) / md;
    assert(q * md <= ms - 1 < (q + 1) * md) by (nonlinear_arith)
        requires
            q == (ms - 1) / md,
            md >= 1,
            ms >= 1,
    ;
    assert(f * md >= ms) by (nonlinear_arith)
        requires
            f == q + 1,
            ms - 1 < (q + 1) * md,
    ;
    assert(f >= 1) by (nonlinear_arith)
        requires
            f == q + 1,
            ms - 1 < (q + 1) * md,
            md >= 1,
            ms >= 1,
    ;
    assert((side / f) <= md) by (nonlinear_arith)
        requires
            f * md >= ms,
            side <= ms,
            side >= 0,
            f >= 1,
    ;
}

/// Blocks never reach past the longer side of the picture.
proof fn lemma_span_bounded(side: int, f: int, m: int)
    requires
        0 <= side <= m,
        1 <= f <= m,
    ensures
        scaled_len(side, f) * f <= m,
{
    if side / f >= 1 {
        assert((side / f) * f <= side) by (nonlinear_arith)
            requires
                side >= 0,
                f >= 1,
        ;
    }
}

proof fn lemma_row_sum_mono(
    data: Seq<u8>,
    w: int,
    h: int,
    f: int,
    x: int,
    y: int,
    c: int,
    dy: int,
    n: int,
    k: int,
)
    requires
        0 <= n <= k,
    ensures
        0 <= row_sum(data, w, h, f, x, y, c, dy, n) <= row_sum(data, w, h, f, x, y, c, dy, k),
    decreases k,
{
    if k > n {
        lemma_row_sum_mono(data, w, h, f, x, y, c, dy, n, k - 1);
    } else if n > 0 {
        lemma_row_sum_mono(data, w, h, f, x, y, c, dy, n - 1, n - 1);
    }
}

proof fn lemma_block_sum_mono(
    data: Seq<u8>,
    w: int,
    h: int,
    f: int,
    x: int,
    y: int,
    c: int,
    m: int,
    k: int,
)
    requires
        0 <= m <= k,
        f >= 0,
    ensures
        0 <= block_sum(data, w, h, f, x, y, c, m) <= block_sum(data, w, h, f, x, y, c, k),
    decreases k,
{
    if k > m {
        lemma_block_sum_mono(data, w, h, f, x, y, c, m, k - 1);
        lemma_row_sum_mono(data, w, h, f, x, y, c, k - 1, 0, f);
    } else if m > 0 {
        lemma_block_sum_mono(data, w, h, f, x, y, c, m - 1, m - 1);
        lemma_row_sum_mono(data, w, h, f, x, y, c, m - 1, 0, f);
    }
}

/// A partial sum of a block never exceeds the whole block's sum.
proof fn lemma_partial_le_block(
    data: Seq<u8>,
    w: int,
    h: int,
    f: int,
    x: int,
    y: int,
    c: int,
    dy: int,
    n: int,
)
    requires
        0 <= dy < f,
        0 <= n <= f,
    ensures
        0 <= block_sum(data, w, h, f, x, y, c, dy) + row_sum(data, w, h, f, x, y, c, dy, n)
            <= block_sum(data, w, h, f, x, y, c, f),
{
    lemma_row_sum_mono(data, w, h, f, x, y, c, dy, n, f);
    lemma_block_sum_mono(data, w, h, f, x, y, c, dy, dy);
    lemma_block_sum_mono(data, w, h, f, x, y, c, dy + 1, f);
}

// ---------------------------------------------------------------------------
// Code
// ---------------------------------------------------------------------------

/// A field-by-field copy of a frame.
fn copy_frame(frame: &CameraFrame) -> (r: CameraFrame)
    ensures
        r.id@ == frame.id@,
        r.data@ == frame.data@,
        r.width == frame.width,
        r.height == frame.height,
        r.format@ == frame.format@,
        r.timestamp == frame.timestamp,
        r.device_id@ == frame.device_id@,
        r.size_bytes == frame.size_bytes,
{
    CameraFrame {
        id: frame.id.clone(),
        data: frame.data.clone(),
        width: frame.width,
        height: frame.height,
        format: frame.format.clone(),
        timestamp: frame.timestamp,
        device_id: frame.device_id.clone(),
        size_bytes: frame.size_bytes,
    }
}

/// Channel sums of one block, row `dy` added to `acc`.
fn add_block_row(
    data: &Vec<u8>,
    w: usize,
    h: usize,
    f: usize,
    x: usize,
    y: usize,
    dy: usize,
    acc: (u32, u32, u32),
) -> (r: (u32, u32, u32))
    requires
        1 <= f,
        0 <= dy < f,
        x < scaled_len(w as int, f as int),
        y < scaled_len(h as int, f as int),
        w <= u32::MAX,
        h <= u32::MAX,
        scaled_len(w as int, f as int) * f <= usize::MAX,
        scaled_len(h as int, f as int) * f <= usize::MAX,
        holds_covered_pixels(data@, w as int, h as int, f as int),
        block_sums_fit(data@, w as int, h as int, f as int),
        acc.0 == block_sum(data@, w as int, h as int, f as int, x as int, y as int, 0, dy as int),
        acc.1 == block_sum(data@, w as int, h as int, f as int, x as int, y as int, 1, dy as int),
        acc.2 == block_sum(data@, w as int, h as int, f as int, x as int, y as int, 2, dy as int),
    ensures
        r.0 == block_sum(data@, w as int, h as int, f as int, x as int, y as int, 0, dy + 1),
        r.1 == block_sum(data@, w as int, h as int, f as int, x as int, y as int, 1, dy + 1),
        r.2 == block_sum(data@, w as int, h as int, f as int, x as int, y as int, 2, dy + 1),
{
    let ghost d = data@;
    let ghost (wi, hi, fi, xi, yi, di) = (
        w as int,
        h as int,
        f as int,
        x as int,
        y as int,
        dy as int,
    );
    let (mut sr, mut sg, mut sb) = acc;
    proof {
        assert(xi * fi + fi <= scaled_len(wi, fi) * fi) by (nonlinear_arith)
            requires
                xi + 1 <= scaled_len(wi, fi),
                fi >= 1,
        ;
        assert(yi * fi + fi <= scaled_len(hi, fi) * fi) by (nonlinear_arith)
            requires
                yi + 1 <= scaled_len(hi, fi),
                fi >= 1,
        ;
    }
    let sy = y * f + dy;
    let mut dx: usize = 0;
    while dx < f
        invariant
            1 <= f,
            0 <= dy < f,
            dx <= f,
            x < scaled_len(w as int, f as int),
            y < scaled_len(h as int, f as int),
            w <= u32::MAX,
            h <= u32::MAX,
            x * f + f <= scaled_len(w as int, f as int) * f <= usize::MAX,
            sy == y * f + dy,
            sy < scaled_len(h as int, f as int) * f,
            d == data@,
            wi == w && hi == h && fi == f && xi == x && yi == y && di == dy,
            holds_covered_pixels(d, wi, hi, fi),
            block_sums_fit(d, wi, hi, fi),
            sr == block_sum(d, wi, hi, fi, xi, yi, 0, di) + row_sum(
                d,
                wi,
                hi,
                fi,
                xi,
                yi,
                0,
                di,
                dx as int,
            ),
            sg == block_sum(d, wi, hi, fi, xi, yi, 1, di) + row_sum(
                d,
                wi,
                hi,
                fi,
                xi,
                yi,
                1,
                di,
                dx as int,
            ),
            sb == block_sum(d, wi, hi, fi, xi, yi, 2, di) + row_sum(
                d,
                wi,
                hi,
                fi,
                xi,
                yi,
                2,
                di,
                dx as int,
            ),
        decreases f - dx,
    {
        let sx = x * f + dx;
        let data_len = data.len();
        if sx < w && sy < h {
            proof {
                let ax = covered(wi, fi);
                let ay = covered(hi, fi);
                assert(sx < ax && sy < ay);
                let sxi = sx as int;
                let syi = sy as int;
                assert(syi * wi + sxi <= (ay - 1) * wi + ax - 1) by (nonlinear_arith)
                    requires
                        syi <= ay - 1,
                        sxi <= ax - 1,
                        wi >= 0,
                ;
                assert(syi * wi <= (ay - 1) * wi) by (nonlinear_arith)
                    requires
                        syi <= ay - 1,
                        wi >= 0,
                        syi >= 0,
                ;
                assert(3 * ((ay - 1) * wi + ax) <= d.len());
                assert((syi * wi + sxi) * 3 + 2 < data_len);
            }
            let idx = (sy * w + sx) * 3;
            proof {
                lemma_partial_le_block(d, wi, hi, fi, xi, yi, 0, di, dx as int + 1);
                lemma_partial_le_block(d, wi, hi, fi, xi, yi, 1, di, dx as int + 1);
                lemma_partial_le_block(d, wi, hi, fi, xi, yi, 2, di, dx as int + 1);
                assert(block_sum(d, wi, hi, fi, xi, yi, 0, fi) <= u32::MAX);
                assert(block_sum(d, wi, hi, fi, xi, yi, 1, fi) <= u32::MAX);
                assert(block_sum(d, wi, hi, fi, xi, yi, 2, fi) <= u32::MAX);
            }
            sr = sr + data[idx] as u32;
            sg = sg + data[idx + 1] as u32;
            sb = sb + data[idx + 2] as u32;
        }
        dx += 1;
    }
    (sr, sg, sb)
}

/// Channel sums of block `(x, y)`.
fn block_sums(data: &Vec<u8>, w: usize, h: usize, f: usize, x: usize, y: usize) -> (r: (
    u32,
    u32,
    u32,
))
    requires
        1 <= f,
        x < scaled_len(w as int, f as int),
        y < scaled_len(h as int, f as int),
        w <= u32::MAX,
        h <= u32::MAX,
        scaled_len(w as int, f as int) * f <= usize::MAX,
        scaled_len(h as int, f as int) * f <= usize::MAX,
        holds_covered_pixels(data@, w as int, h as int, f as int),
        block_sums_fit(data@, w as int, h as int, f as int),
    ensures
        r.0 == block_sum(data@, w as int, h as int, f as int, x as int, y as int, 0, f as int),
        r.1 == block_sum(data@, w as int, h as int, f as int, x as int, y as int, 1, f as int),
        r.2 == block_sum(data@, w as int, h as int, f as int, x as int, y as int, 2, f as int),
{
    let mut acc: (u32, u32, u32) = (0, 0, 0);
    let mut dy: usize = 0;
    while dy < f
        invariant
            1 <= f,
            dy <= f,
            x < scaled_len(w as int, f as int),
            y < scaled_len(h as int, f as int),
            w <= u32::MAX,
            h <= u32::MAX,
            scaled_len(w as int, f as int) * f <= usize::MAX,
            scaled_len(h as int, f as int) * f <= usize::MAX,
            holds_covered_pixels(data@, w as int, h as int, f as int),
            block_sums_fit(data@, w as int, h as int, f as int),
            acc.0 == block_sum(data@, w as int, h as int, f as int, x as int, y as int, 0, dy as int),
            acc.1 == block_sum(data@, w as int, h as int, f as int, x as int, y as int, 1, dy as int),
            acc.2 == block_sum(data@, w as int, h as int, f as int, x as int, y as int, 2, dy as int),
        decreases f - dy,
    {
        acc = add_block_row(data, w, h, f, x, y, dy, acc);
        dy += 1;
    }
    acc
}

/// Downscale a frame to at most `max_dim` on its longest side using box
/// average pooling. Used by fast-preview profiles to cut analysis cost.
///
/// A frame whose longer side is within `max_dim` comes back unchanged;
/// otherwise each `f` x `f` block (with `f` the ceiling of the longer side
/// over `max_dim`) becomes one pixel holding its channel averages, and the
/// result is a new frame of the same device and format.
pub fn downscale_frame(frame: &CameraFrame, max_dim: u32) -> (r: CameraFrame)
    requires
        downscale_defined(*frame, max_dim),
    ensures
        max_side(frame.width, frame.height) <= max_dim ==> {
            &&& r.id@ == frame.id@
            &&& r.data@ == frame.data@
            &&& r.width == frame.width
            &&& r.height == frame.height
            &&& r.format@ == frame.format@
            &&& r.timestamp == frame.timestamp
            &&& r.device_id@ == frame.device_id@
            &&& r.size_bytes == frame.size_bytes
        },
        max_side(frame.width, frame.height) > max_dim ==> {
            let w = frame.width as int;
            let h = frame.height as int;
            let f = downscale_factor(w, h, max_dim as int);
            &&& r.data@ == downscaled_pixels(frame.data@, w, h, f)
            &&& r.width == scaled_len(w, f)
            &&& r.height == scaled_len(h, f)
            &&& r.width <= max_dim && r.height <= max_dim
            &&& r.format@ == frame.format@
            &&& r.device_id@ == frame.device_id@
            &&& r.size_bytes == r.data@.len()
            &&& is_hyphenated_uuid(r.id@)
        },
{
    let max_side = if frame.width >= frame.height {
        frame.width
    } else {
        frame.height
    };
    if max_side <= max_dim {
        return copy_frame(frame);
    }
    let ghost wi = frame.width as int;
    let ghost hi = frame.height as int;
    let ghost fi = downscale_factor(wi, hi, max_dim as int);
    let factor_u32 = (max_side - 1) / max_dim + 1;
    assert(factor_u32 as int == fi);
    assert(1 <= fi <= max_side) by {
        assert((max_side - 1) / (max_dim as int) <= max_side - 1) by (nonlinear_arith)
            requires
                max_side >= 1,
                max_dim >= 1,
        ;
    }
    let factor = factor_u32 as usize;
    let w = frame.width as usize;
    let h = frame.height as usize;
    let new_w = if w / factor >= 1 {
        w / factor
    } else {
        1
    };
    let new_h = if h / factor >= 1 {
        h / factor
    } else {
        1
    };
    proof {
        lemma_span_bounded(wi, fi, max_side as int);
        lemma_span_bounded(hi, fi, max_side as int);
        lemma_scaled_within(wi, max_side as int, max_dim as int);
        lemma_scaled_within(hi, max_side as int, max_dim as int);
    }
    let area: u32 = if factor * factor <= 0xffff_ffffusize {
        (factor * factor) as u32
    } else {
        u32::MAX
    };
    assert(area as int == box_area(fi));
    assert(area >= 1) by {
        assert(fi * fi >= 1) by (nonlinear_arith)
            requires
                fi >= 1,
        ;
    }
    let ghost nw = new_w as int;
    let ghost nh = new_h as int;
    let ghost d = frame.data@;
    let mut out: Vec<u8> = Vec::new();
    let mut y: usize = 0;
    while y < new_h
        invariant
            y <= new_h,
            nw == new_w && nh == new_h,
            nw == scaled_len(wi, fi),
            nh == scaled_len(hi, fi),
            nw * nh * 3 <= usize::MAX,
            wi == w && hi == h && fi == factor && 1 <= factor,
            w <= u32::MAX && h <= u32::MAX,
            scaled_len(wi, fi) * fi <= u32::MAX,
            scaled_len(hi, fi) * fi <= u32::MAX,
            d == frame.data@,
            holds_covered_pixels(d, wi, hi, fi),
            block_sums_fit(d, wi, hi, fi),
            area as int == box_area(fi),
            area >= 1,
            out@.len() == y * nw * 3,
            forall|i: int|
                0 <= i < out@.len() ==> #[trigger] out@[i] == downscaled_pixels(d, wi, hi, fi)[i],
        decreases new_h - y,
    {
        let mut x: usize = 0;
        while x < new_w
            invariant
                y < new_h,
                x <= new_w,
                nw == new_w && nh == new_h,
                nw == scaled_len(wi, fi),
                nh == scaled_len(hi, fi),
                nw * nh * 3 <= usize::MAX,
                wi == w && hi == h && fi == factor && 1 <= factor,
                w <= u32::MAX && h <= u32::MAX,
                scaled_len(wi, fi) * fi <= u32::MAX,
                scaled_len(hi, fi) * fi <= u32::MAX,
                d == frame.data@,
                holds_covered_pixels(d, wi, hi, fi),
                block_sums_fit(d, wi, hi, fi),
                area as int == box_area(fi),
                area >= 1,
                out@.len() == (y * nw + x) * 3,
                forall|i: int|
                    0 <= i < out@.len() ==> #[trigger] out@[i] == downscaled_pixels(d, wi, hi, fi)[i],
            decreases new_w - x,
        {
            let (sr, sg, sb) = block_sums(&frame.data, w, h, factor, x, y);
            let qr = sr / area;
            let qg = sg / area;
            let qb = sb / area;
            let ghost base = (y * nw + x) * 3;
            proof {
                assert((y as int) * nw + (x as int) + 1 <= nh * nw) by (nonlinear_arith)
                    requires
                        0 <= x < nw,
                        0 <= y < nh,
                ;
                assert(nh * nw == nw * nh) by (nonlinear_arith);
                lemma_pixel_index(nw, x as int, y as int, 0);
                lemma_pixel_index(nw, x as int, y as int, 1);
                lemma_pixel_index(nw, x as int, y as int, 2);
            }
            out.push(if qr <= 255 { qr as u8 } else { 255u8 });
            out.push(if qg <= 255 { qg as u8 } else { 255u8 });
            out.push(if qb <= 255 { qb as u8 } else { 255u8 });
            proof {
                assert(out@.len() == (y * nw + x + 1) * 3) by (nonlinear_arith)
                    requires
                        out@.len() == (y * nw + x) * 3 + 3,
                ;
                assert forall|i: int| 0 <= i < out@.len() implies #[trigger] out@[i]
                    == downscaled_pixels(d, wi, hi, fi)[i] by {
                    if i >= base {
                        assert(i == base || i == base + 1 || i == base + 2);
                    }
                }
            }
            x += 1;
        }
        proof {
            assert(out@.len() == (y + 1) * nw * 3) by (nonlinear_arith)
                requires
                    out@.len() == (y * nw + nw) * 3,
            ;
        }
        y += 1;
    }
    proof {
        assert(out@ =~= downscaled_pixels(d, wi, hi, fi)) by {
            assert(out@.len() == nh * nw * 3);
            assert(nh * nw * 3 == nw * nh * 3) by (nonlinear_arith);
        }
    }
    let new_w_u32 = new_w as u32;
    let new_h_u32 = new_h as u32;
    CameraFrame::new(out, new_w_u32, new_h_u32, frame.device_id.clone()).with_format(
        frame.format.clone(),
    )
}

} // verus!
