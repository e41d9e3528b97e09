//! Integer 3x3 kernels over a grayscale picture: the Laplacian response, the
//! squared Sobel gradient and the edge count that the blur detector reduces
//! to its metrics.
//!
//! Each kernel visits the interior pixels `(x, y)`, `1 <= x < width - 1`,
//! `1 <= y < height - 1`, row by row. A neighbour whose index lies past the
//! end of the grayscale buffer is skipped.

use vstd::prelude::*;
use vstd::arithmetic::div_mod::lemma_fundamental_div_mod_converse;

verus! {

// ---------------------------------------------------------------------------
// Model
// ---------------------------------------------------------------------------

/// Gray level at index `i`, or 0 past the end of the buffer.
pub open spec fn gray_at(g: Seq<u8>, i: int) -> int {
    if 0 <= i < g.len() {
        g[i] as int
    } else {
        0
    }
}

/// Gray level of pixel `(x, y)` of a picture `w` pixels wide.
pub open spec fn px(g: Seq<u8>, w: int, x: int, y: int) -> int {
    gray_at(g, y * w + x)
}

/// Number of interior columns (resp. rows) of a side of `n` pixels.
pub open spec fn interior(n: int) -> int {
    if n > 2 {
        n - 2
    } else {
        0
    }
}

/// Number of interior pixels.
pub open spec fn interior_count(w: int, h: int) -> int {
    if interior(h) > 0 {
        interior(w) * interior(h)
    } else {
        0
    }
}

/// Response of the Laplacian kernel `[0 -1 0; -1 4 -1; 0 -1 0]` at `(x, y)`.
pub open spec fn laplacian_at(g: Seq<u8>, w: int, x: int, y: int) -> int {
    4 * px(g, w, x, y) - px(g, w, x, y - 1) - px(g, w, x - 1, y) - px(g, w, x + 1, y) - px(
        g,
        w,
        x,
        y + 1,
    )
}

/// Horizontal Sobel response `[-1 0 1; -2 0 2; -1 0 1]` at `(x, y)`.
pub open spec fn sobel_x_at(g: Seq<u8>, w: int, x: int, y: int) -> int {
    -px(g, w, x - 1, y - 1) + px(g, w, x + 1, y - 1) - 2 * px(g, w, x - 1, y) + 2 * px(
        g,
        w,
        x + 1,
        y,
    ) - px(g, w, x - 1, y + 1) + px(g, w, x + 1, y + 1)
}

/// Vertical Sobel response `[-1 -2 -1; 0 0 0; 1 2 1]` at `(x, y)`.
pub open spec fn sobel_y_at(g: Seq<u8>, w: int, x: int, y: int) -> int {
    -px(g, w, x - 1, y - 1) - 2 * px(g, w, x, y - 1) - px(g, w, x + 1, y - 1) + px(
        g,
        w,
        x - 1,
        y + 1,
    ) + 2 * px(g, w, x, y + 1) + px(g, w, x + 1, y + 1)
}

/// Squared Sobel gradient magnitude at `(x, y)`.
pub open spec fn sobel_sq_at(g: Seq<u8>, w: int, x: int, y: int) -> int {
    sobel_x_at(g, w, x, y) * sobel_x_at(g, w, x, y) + sobel_y_at(g, w, x, y) * sobel_y_at(
        g,
        w,
        x,
        y,
    )
}

/// The kernel responses of all interior pixels, row by row.
pub open spec fn laplacian_responses(g: Seq<u8>, w: int, h: int) -> Seq<int> {
    Seq::new(
        interior_count(w, h) as nat,
        |k: int| laplacian_at(g, w, 1 + k % interior(w), 1 + k / interior(w)),
    )
}

/// The squared gradients of all interior pixels, row by row.
pub open spec fn sobel_responses(g: Seq<u8>, w: int, h: int) -> Seq<int> {
    Seq::new(
        interior_count(w, h) as nat,
        |k: int| sobel_sq_at(g, w, 1 + k % interior(w), 1 + k / interior(w)),
    )
}

/// Absolute difference between pixel `c` and neighbour `n`; 0 when the
/// neighbour lies past the end of the buffer.
pub open spec fn neighbour_diff(g: Seq<u8>, c: int, n: int) -> int {
    if 0 <= n < g.len() {
        let d = g[c] as int - g[n] as int;
        if d >= 0 {
            d
        } else {
            -d
        }
    } else {
        0
    }
}

/// Largest of two integers.
pub open spec fn max2(a: int, b: int) -> int {
    if a >= b {
        a
    } else {
        b
    }
}

/// Largest difference between pixel `(x, y)` and its 8 neighbours.
pub open spec fn max_neighbour_diff(g: Seq<u8>, w: int, x: int, y: int) -> int {
    let c = y * w + x;
    max2(
        max2(
            max2(neighbour_diff(g, c, (y - 1) * w + x - 1), neighbour_diff(g, c, (y - 1) * w + x)),
            max2(neighbour_diff(g, c, (y - 1) * w + x + 1), neighbour_diff(g, c, y * w + x - 1)),
        ),
        max2(
            max2(neighbour_diff(g, c, y * w + x + 1), neighbour_diff(g, c, (y + 1) * w + x - 1)),
            max2(neighbour_diff(g, c, (y + 1) * w + x), neighbour_diff(g, c, (y + 1) * w + x + 1)),
        ),
    )
}

/// Gray-level difference above which a pixel counts as an edge.
pub const EDGE_THRESHOLD: i32 = 50;

/// Among the first `k` interior pixels (row by row): how many lie within the
/// buffer, and how many of those are edges.
pub open spec fn edge_tally(g: Seq<u8>, w: int, h: int, k: int) -> (int, int)
    decreases k,
{
    if k <= 0 {
        (0, 0)
    } else {
        let prev = edge_tally(g, w, h, k - 1);
        let x = 1 + (k - 1) % interior(w);
        let y = 1 + (k - 1) / interior(w);
        if y * w + x < g.len() {
            (
                prev.0 + if max_neighbour_diff(g, w, x, y) > EDGE_THRESHOLD {
                    1int
                } else {
                    0int
                },
                prev.1 + 1,
            )
        } else {
            prev
        }
    }
}

/// The kernels run to completion: a picture with a row, and for a picture
/// with interior pixels, coordinates that fit `i32` and an index space that
/// fits `usize`.
pub open spec fn kernel_domain(w: u32, h: u32) -> bool {
    &&& h >= 1
    &&& h > 2 ==> w >= 1
    &&& w > 2 && h > 2 ==> w <= 0x8000_0000 && h <= 0x8000_0000 && w * h <= usize::MAX
}

// ---------------------------------------------------------------------------
// Lemmas
// ---------------------------------------------------------------------------

/// Interior pixel number `k` is `(x, y)` with `k = (y - 1) * (w - 2) + (x - 1)`.
proof fn lemma_interior_index(iw: int, x: int, y: int)
    requires
        1 <= x <= iw,
        1 <= y,
    ensures
        ((y - 1) * iw + (x - 1)) % iw == x - 1,
        ((y - 1) * iw + (x - 1)) / iw == y - 1,
{
    lemma_fundamental_div_mod_converse((y - 1) * iw + (x - 1), iw, y - 1, x - 1);
}

/// Every neighbour index of an interior pixel stays below `w * h`.
proof fn lemma_neighbour_bound(w: int, h: int, x: int, y: int)
    requires
        1 <= x < w - 1,
        1 <= y < h - 1,
    ensures
        0 <= (y - 1) * w + x - 1,
        y * w + x + 1 < (y + 1) * w + x + 1 < w * h,
        (y - 1) * w + x + 1 < y * w + x,
        w <= y * w,
        y * w + x + w < w * h,
{
    assert((y + 1) * w == y * w + w) by (nonlinear_arith);
    assert((y - 1) * w == y * w - w) by (nonlinear_arith);
    assert((y + 1) * w + x + 1 < w * h) by (nonlinear_arith)
        requires
            1 <= x < w - 1,
            1 <= y < h - 1,
    ;
    assert(0 <= (y - 1) * w) by (nonlinear_arith)
        requires
            1 <= y,
            0 <= w,
    ;
}

/// The squared gradient at an interior pixel `(x, y)` of a complete picture
/// (at least `w * h` bytes) is `gx^2 + gy^2`, with `gx` the response of the
/// horizontal Sobel kernel `[-1 0 1; -2 0 2; -1 0 1]` (right column minus
/// left column) and `gy` that of the vertical kernel `[-1 -2 -1; 0 0 0;
/// 1 2 1]` (row below minus row above).
pub proof fn lemma_sobel_gradient(g: Seq<u8>, w: int, h: int, x: int, y: int)
    requires
        3 <= w,
        3 <= h,
        w * h <= g.len(),
        1 <= x < w - 1,
        1 <= y < h - 1,
    ensures
        sobel_responses(g, w, h).len() == (w - 2) * (h - 2),
        ({
            let gx = (g[(y - 1) * w + (x + 1)] + 2 * g[y * w + (x + 1)] + g[(y + 1) * w + (x + 1)])
                - (g[(y - 1) * w + (x - 1)] + 2 * g[y * w + (x - 1)] + g[(y + 1) * w + (x - 1)]);
            let gy = (g[(y + 1) * w + (x - 1)] + 2 * g[(y + 1) * w + x] + g[(y + 1) * w + (x + 1)])
                - (g[(y - 1) * w + (x - 1)] + 2 * g[(y - 1) * w + x] + g[(y - 1) * w + (x + 1)]);
            sobel_responses(g, w, h)[(y - 1) * (w - 2) + (x - 1)] == gx * gx + gy * gy
        }),
{
    let iw = w - 2;
    lemma_neighbour_bound(w, h, x, y);
    lemma_interior_index(iw, x, y);
    assert((y - 1) * iw + (x - 1) < iw * (h - 2)) by (nonlinear_arith)
        requires
            1 <= x <= iw,
            1 <= y < h - 1,
    ;
    assert((y + 1) * w == y * w + w) by (nonlinear_arith);
    assert((y - 1) * w == y * w - w) by (nonlinear_arith);
    assert(interior_count(w, h) == iw * (h - 2));
}

/// The Laplacian response at an interior pixel `(x, y)` of a complete
/// picture is four times the pixel less its four edge neighbours (above,
/// left, right, below).
pub proof fn lemma_laplacian_response(g: Seq<u8>, w: int, h: int, x: int, y: int)
    requires
        3 <= w,
        3 <= h,
        w * h <= g.len(),
        1 <= x < w - 1,
        1 <= y < h - 1,
    ensures
        laplacian_responses(g, w, h).len() == (w - 2) * (h - 2),
        laplacian_responses(g, w, h)[(y - 1) * (w - 2) + (x - 1)] == 4 * g[y * w + x] - g[(y - 1)
            * w + x] - g[y * w + (x - 1)] - g[y * w + (x + 1)] - g[(y + 1) * w + x],
{
    let iw = w - 2;
    lemma_neighbour_bound(w, h, x, y);
    lemma_interior_index(iw, x, y);
    assert((y - 1) * iw + (x - 1) < iw * (h - 2)) by (nonlinear_arith)
        requires
            1 <= x <= iw,
            1 <= y < h - 1,
    ;
    assert((y + 1) * w == y * w + w) by (nonlinear_arith);
    assert((y - 1) * w == y * w - w) by (nonlinear_arith);
    assert(interior_count(w, h) == iw * (h - 2));
}

/// Distance between two gray levels.
pub open spec fn gray_distance(a: u8, b: u8) -> int {
    if a >= b {
        a - b
    } else {
        b - a
    }
}

/// Each interior pixel of a complete picture is counted once, and counts
/// as an edge exactly when one of its eight neighbours differs from it by
/// more than 50 gray levels.
pub proof fn lemma_edge_pixel(g: Seq<u8>, w: int, h: int, x: int, y: int)
    requires
        3 <= w,
        3 <= h,
        w * h <= g.len(),
        1 <= x < w - 1,
        1 <= y < h - 1,
    ensures
        ({
            let k = (y - 1) * (w - 2) + (x - 1);
            let c = g[y * w + x];
            let edge = gray_distance(c, g[(y - 1) * w + (x - 1)]) > 50 || gray_distance(
                c,
                g[(y - 1) * w + x],
            ) > 50 || gray_distance(c, g[(y - 1) * w + (x + 1)]) > 50 || gray_distance(
                c,
                g[y * w + (x - 1)],
            ) > 50 || gray_distance(c, g[y * w + (x + 1)]) > 50 || gray_distance(
                c,
                g[(y + 1) * w + (x - 1)],
            ) > 50 || gray_distance(c, g[(y + 1) * w + x]) > 50 || gray_distance(
                c,
                g[(y + 1) * w + (x + 1)],
            ) > 50;
            &&& edge_tally(g, w, h, k + 1).1 == edge_tally(g, w, h, k).1 + 1
            &&& edge_tally(g, w, h, k + 1).0 == edge_tally(g, w, h, k).0 + if edge {
                1int
            } else {
                0int
            }
        }),
{
    let iw = w - 2;
    let k = (y - 1) * iw + (x - 1);
    lemma_neighbour_bound(w, h, x, y);
    lemma_interior_index(iw, x, y);
    assert((y + 1) * w == y * w + w) by (nonlinear_arith);
    assert((y - 1) * w == y * w - w) by (nonlinear_arith);
    assert(0 <= k) by (nonlinear_arith)
        requires
            k == (y - 1) * iw + (x - 1),
            1 <= x,
            1 <= y,
            0 <= iw,
    ;
    assert(1 + k % iw == x && 1 + k / iw == y);
}

/// Across a horizontal step, where the three pixels above `(x, y)` are `a`,
/// the three below are `b` and the row between is uniform, the squared
/// gradient is `(4 (b - a))^2`: all of it vertical.
pub proof fn lemma_sobel_horizontal_step(g: Seq<u8>, w: int, h: int, x: int, y: int)
    requires
        3 <= w,
        3 <= h,
        w * h <= g.len(),
        1 <= x < w - 1,
        1 <= y < h - 1,
        g[(y - 1) * w + (x - 1)] == g[(y - 1) * w + x] == g[(y - 1) * w + (x + 1)],
        g[y * w + (x - 1)] == g[y * w + (x + 1)],
        g[(y + 1) * w + (x - 1)] == g[(y + 1) * w + x] == g[(y + 1) * w + (x + 1)],
    ensures
        sobel_responses(g, w, h)[(y - 1) * (w - 2) + (x - 1)] == (4 * (g[(y + 1) * w + x] - g[(y
            - 1) * w + x])) * (4 * (g[(y + 1) * w + x] - g[(y - 1) * w + x])),
{
    lemma_sobel_gradient(g, w, h, x, y);
}

/// Transposing a square picture transposes its squared gradients: the
/// value at `(y, x)` of the transposed picture is the value at `(x, y)` of
/// the picture, so a horizontal edge scores as the matching vertical edge.
pub proof fn lemma_sobel_transpose(g: Seq<u8>, t: Seq<u8>, n: int, x: int, y: int)
    requires
        3 <= n,
        n * n <= g.len(),
        n * n <= t.len(),
        forall|i: int, j: int| 0 <= i < n && 0 <= j < n ==> #[trigger] t[i * n + j] == g[j * n + i],
        1 <= x < n - 1,
        1 <= y < n - 1,
    ensures
        sobel_responses(t, n, n)[(x - 1) * (n - 2) + (y - 1)] == sobel_responses(g, n, n)[(y - 1) * (
        n - 2) + (x - 1)],
{
    lemma_sobel_gradient(g, n, n, x, y);
    lemma_sobel_gradient(t, n, n, y, x);
    assert(t[(x - 1) * n + (y - 1)] == g[(y - 1) * n + (x - 1)]);
    assert(t[(x - 1) * n + y] == g[y * n + (x - 1)]);
    assert(t[(x - 1) * n + (y + 1)] == g[(y + 1) * n + (x - 1)]);
    assert(t[x * n + (y - 1)] == g[(y - 1) * n + x]);
    assert(t[x * n + (y + 1)] == g[(y + 1) * n + x]);
    assert(t[(x + 1) * n + (y - 1)] == g[(y - 1) * n + (x + 1)]);
    assert(t[(x + 1) * n + y] == g[y * n + (x + 1)]);
    assert(t[(x + 1) * n + (y + 1)] == g[(y + 1) * n + (x + 1)]);
}

// ---------------------------------------------------------------------------
// Code
// ---------------------------------------------------------------------------

/// Gray level at `i`, or 0 past the end.
fn gray(g: &[u8], i: usize) -> (v: i32)
    ensures
        v == gray_at(g@, i as int),
{
    if i < g.len() {
        g[i] as i32
    } else {
        0
    }
}

/// Laplacian responses of the interior pixels, row by row; their variance is
/// the primary blur metric.
pub fn laplacian_values(g: &[u8], width: u32, height: u32) -> (r: Vec<i32>)
    requires
        kernel_domain(width, height),
    ensures
        r@.len() == laplacian_responses(g@, width as int, height as int).len(),
        forall|k: int|
            0 <= k < r@.len() ==> r@[k] as int == #[trigger] laplacian_responses(
                g@,
                width as int,
                height as int,
            )[k],
{
    let mut out: Vec<i32> = Vec::new();
    if width <= 2 || height <= 2 {
        return out;
    }
    let ghost wi = width as int;
    let ghost hi = height as int;
    let ghost iw = wi - 2;
    let w = width as usize;
    let h = height as usize;
    let mut y: usize = 1;
    while y < h - 1
        invariant
            1 <= y <= h - 1,
            w == wi && h == hi && iw == wi - 2,
            3 <= w <= 0x8000_0000 && 3 <= h <= 0x8000_0000,
            wi * hi <= usize::MAX,
            out@.len() == (y - 1) * iw,
            forall|k: int|
                0 <= k < out@.len() ==> out@[k] as int == #[trigger] laplacian_responses(
                    g@,
                    wi,
                    hi,
                )[k],
        decreases h - y,
    {
        let mut x: usize = 1;
        while x < w - 1
            invariant
                1 <= y < h - 1,
                1 <= x <= w - 1,
                w == wi && h == hi && iw == wi - 2,
                3 <= w <= 0x8000_0000 && 3 <= h <= 0x8000_0000,
                wi * hi <= usize::MAX,
                out@.len() == (y - 1) * iw + (x - 1),
                forall|k: int|
                    0 <= k < out@.len() ==> out@[k] as int == #[trigger] laplacian_responses(
                        g@,
                        wi,
                        hi,
                    )[k],
            decreases w - x,
        {
            proof {
                lemma_neighbour_bound(wi, hi, x as int, y as int);
                lemma_interior_index(iw, x as int, y as int);
                assert((y as int - 1) * iw + (x as int - 1) < interior_count(wi, hi))
                    by (nonlinear_arith)
                    requires
                        1 <= x <= iw,
                        1 <= y < hi - 1,
                        iw == wi - 2,
                        interior_count(wi, hi) == iw * (hi - 2),
                ;
            }
            let c = y * w + x;
            let v = 4 * gray(g, c) - gray(g, c - w) - gray(g, c - 1) - gray(g, c + 1) - gray(
                g,
                c + w,
            );
            proof {
                assert(c - w == (y - 1) * w + x) by (nonlinear_arith)
                    requires
                        c == y * w + x,
                ;
                assert(c + w == (y + 1) * w + x) by (nonlinear_arith)
                    requires
                        c == y * w + x,
                ;
            }
            out.push(v);
            x += 1;
        }
        proof {
            assert(out@.len() == y * iw) by (nonlinear_arith)
                requires
                    out@.len() == (y - 1) * iw + iw,
            ;
        }
        y += 1;
    }
    proof {
        assert(out@.len() == interior_count(wi, hi)) by (nonlinear_arith)
            requires
                out@.len() == (hi - 2) * iw,
                interior_count(wi, hi) == iw * (hi - 2),
        ;
    }
    out
}

/// Squared Sobel gradient magnitudes of the interior pixels, row by row; the
/// mean of their square roots is the gradient metric.
pub fn sobel_values(g: &[u8], width: u32, height: u32) -> (r: Vec<i32>)
    requires
        kernel_domain(width, height),
    ensures
        r@.len() == sobel_responses(g@, width as int, height as int).len(),
        forall|k: int|
            0 <= k < r@.len() ==> r@[k] as int == #[trigger] sobel_responses(
                g@,
                width as int,
                height as int,
            )[k],
{
    let mut out: Vec<i32> = Vec::new();
    if width <= 2 || height <= 2 {
        return out;
    }
    let ghost wi = width as int;
    let ghost hi = height as int;
    let ghost iw = wi - 2;
    let w = width as usize;
    let h = height as usize;
    let mut y: usize = 1;
    while y < h - 1
        invariant
            1 <= y <= h - 1,
            w == wi && h == hi && iw == wi - 2,
            3 <= w <= 0x8000_0000 && 3 <= h <= 0x8000_0000,
            wi * hi <= usize::MAX,
            out@.len() == (y - 1) * iw,
            forall|k: int|
                0 <= k < out@.len() ==> out@[k] as int == #[trigger] sobel_responses(
                    g@,
                    wi,
                    hi,
                )[k],
        decreases h - y,
    {
        let mut x: usize = 1;
        while x < w - 1
            invariant
                1 <= y < h - 1,
                1 <= x <= w - 1,
                w == wi && h == hi && iw == wi - 2,
                3 <= w <= 0x8000_0000 && 3 <= h <= 0x8000_0000,
                wi * hi <= usize::MAX,
                out@.len() == (y - 1) * iw + (x - 1),
                forall|k: int|
                    0 <= k < out@.len() ==> out@[k] as int == #[trigger] sobel_responses(
                        g@,
                        wi,
                        hi,
                    )[k],
            decreases w - x,
        {
            proof {
                lemma_neighbour_bound(wi, hi, x as int, y as int);
                lemma_interior_index(iw, x as int, y as int);
                assert((y as int - 1) * iw + (x as int - 1) < interior_count(wi, hi))
                    by (nonlinear_arith)
                    requires
                        1 <= x <= iw,
                        1 <= y < hi - 1,
                        iw == wi - 2,
                        interior_count(wi, hi) == iw * (hi - 2),
                ;
            }
            let c = y * w + x;
            let up = c - w;
            let down = c + w;
            proof {
                assert(up == (y - 1) * w + x) by (nonlinear_arith)
                    requires
                        up == y * w + x - w,
                ;
                assert(down == (y + 1) * w + x) by (nonlinear_arith)
                    requires
                        down == y * w + x + w,
                ;
            }
            let gx = -gray(g, up - 1) + gray(g, up + 1) - 2 * gray(g, c - 1) + 2 * gray(g, c + 1)
                - gray(g, down - 1) + gray(g, down + 1);
            let gy = -gray(g, up - 1) - 2 * gray(g, up) - gray(g, up + 1) + gray(g, down - 1) + 2
                * gray(g, down) + gray(g, down + 1);
            assert(gx * gx <= 1020 * 1020 && gy * gy <= 1020 * 1020) by (nonlinear_arith)
                requires
                    -1020 <= gx <= 1020,
                    -1020 <= gy <= 1020,
            ;
            assert(gx * gx >= 0 && gy * gy >= 0) by (nonlinear_arith);
            out.push(gx * gx + gy * gy);
            x += 1;
        }
        proof {
            assert(out@.len() == y * iw) by (nonlinear_arith)
                requires
                    out@.len() == (y - 1) * iw + iw,
            ;
        }
        y += 1;
    }
    proof {
        assert(out@.len() == interior_count(wi, hi)) by (nonlinear_arith)
            requires
                out@.len() == (hi - 2) * iw,
                interior_count(wi, hi) == iw * (hi - 2),
        ;
    }
    out
}

/// Absolute difference between the pixels at `c` and `n`; 0 when `n` lies
/// past the end of the buffer.
fn diff_to(g: &[u8], c: usize, n: usize) -> (d: i32)
    requires
        c < g@.len(),
    ensures
        d == neighbour_diff(g@, c as int, n as int),
        0 <= d <= 255,
{
    if n < g.len() {
        let v = g[c] as i32 - g[n] as i32;
        if v >= 0 {
            v
        } else {
            -v
        }
    } else {
        0
    }
}

/// The larger of two values.
fn max_i32(a: i32, b: i32) -> (m: i32)
    ensures
        m == max2(a as int, b as int),
{
    if a >= b {
        a
    } else {
        b
    }
}

/// Count, over the interior pixels that lie within the buffer, those whose
/// largest difference to an 8-connected neighbour exceeds
/// [`EDGE_THRESHOLD`]: returns `(edges, counted)`; the edge density is their
/// ratio.
pub fn edge_counts(g: &[u8], width: u32, height: u32) -> (r: (i32, i32))
    requires
        kernel_domain(width, height),
        edge_tally(g@, width as int, height as int, interior_count(width as int, height as int)).1
            <= i32::MAX,
    ensures
        r.0 as int == edge_tally(
            g@,
            width as int,
            height as int,
            interior_count(width as int, height as int),
        ).0,
        r.1 as int == edge_tally(
            g@,
            width as int,
            height as int,
            interior_count(width as int, height as int),
        ).1,
{
    let mut edges: i32 = 0;
    let mut total: i32 = 0;
    if width <= 2 || height <= 2 {
        return (edges, total);
    }
    let ghost wi = width as int;
    let ghost hi = height as int;
    let ghost iw = wi - 2;
    let ghost n = interior_count(wi, hi);
    let w = width as usize;
    let h = height as usize;
    proof {
        lemma_edge_tally_mono(g@, wi, hi, 0, n);
    }
    let mut y: usize = 1;
    while y < h - 1
        invariant
            1 <= y <= h - 1,
            w == wi && h == hi && iw == wi - 2,
            3 <= w <= 0x8000_0000 && 3 <= h <= 0x8000_0000,
            wi * hi <= usize::MAX,
            n == interior_count(wi, hi),
            n == iw * (hi - 2),
            edge_tally(g@, wi, hi, n).1 <= i32::MAX,
            (edges as int, total as int) == edge_tally(g@, wi, hi, (y - 1) * iw),
        decreases h - y,
    {
        let mut x: usize = 1;
        while x < w - 1
            invariant
                1 <= y < h - 1,
                1 <= x <= w - 1,
                w == wi && h == hi && iw == wi - 2,
                3 <= w <= 0x8000_0000 && 3 <= h <= 0x8000_0000,
                wi * hi <= usize::MAX,
                n == interior_count(wi, hi),
                n == iw * (hi - 2),
                edge_tally(g@, wi, hi, n).1 <= i32::MAX,
                (edges as int, total as int) == edge_tally(g@, wi, hi, (y - 1) * iw + (x - 1)),
            decreases w - x,
        {
            let ghost k = (y - 1) * iw + (x - 1);
            proof {
                lemma_neighbour_bound(wi, hi, x as int, y as int);
                lemma_interior_index(iw, x as int, y as int);
                assert(k + 1 <= n) by (nonlinear_arith)
                    requires
                        k == (y - 1) * iw + (x - 1),
                        1 <= x <= iw,
                        1 <= y < hi - 1,
                        iw == wi - 2,
                        n == iw * (hi - 2),
                ;
                lemma_edge_tally_mono(g@, wi, hi, k + 1, n);
            }
            let c = y * w + x;
            if c < g.len() {
                let up = c - w;
                let down = c + w;
                proof {
                    assert(up == (y - 1) * w + x) by (nonlinear_arith)
                        requires
                            up == y * w + x - w,
                    ;
                    assert(down == (y + 1) * w + x) by (nonlinear_arith)
                        requires
                            down == y * w + x + w,
                    ;
                }
                let m = max_i32(
                    max_i32(
                        max_i32(diff_to(g, c, up - 1), diff_to(g, c, up)),
                        max_i32(diff_to(g, c, up + 1), diff_to(g, c, c - 1)),
                    ),
                    max_i32(
                        max_i32(diff_to(g, c, c + 1), diff_to(g, c, down - 1)),
                        max_i32(diff_to(g, c, down), diff_to(g, c, down + 1)),
                    ),
                );
                if m > EDGE_THRESHOLD {
                    edges = edges + 1;
                }
                total = total + 1;
            }
            x += 1;
        }
        proof {
            assert((y - 1) * iw + iw == y * iw) by (nonlinear_arith);
        }
        y += 1;
    }
    proof {
        assert((hi - 2) * iw == n) by (nonlinear_arith)
            requires
                n == iw * (hi - 2),
        ;
    }
    (edges, total)
}

/// The tallies never decrease along the interior pixels, and the edge count
/// stays within the counted pixels.
proof fn lemma_edge_tally_mono(g: Seq<u8>, w: int, h: int, k: int, m: int)
    requires
        0 <= k <= m,
    ensures
        0 <= edge_tally(g, w, h, k).0 <= edge_tally(g, w, h, k).1,
        edge_tally(g, w, h, k).1 <= edge_tally(g, w, h, m).1,
        edge_tally(g, w, h, k).0 <= edge_tally(g, w, h, m).0,
    decreases m,
{
    if m > k {
        lemma_edge_tally_mono(g, w, h, k, m - 1);
    } else if k > 0 {
        lemma_edge_tally_mono(g, w, h, k - 1, k - 1);
    }
}

} // verus!
