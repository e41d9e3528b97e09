//! RGB24 to planar YUV 4:2:0 conversion (BT.601 integer approximation).

use vstd::prelude::*;

verus! {

/// Clamp an integer into the byte range.
pub open spec fn clamp_u8(v: int) -> u8 {
    if v < 0 {
        0
    } else if v > 255 {
        255
    } else {
        v as u8
    }
}

/// BT.601 luma of one RGB pixel.
pub open spec fn bt601_y(r: u8, g: u8, b: u8) -> u8 {
    let x = (66 * r + 129 * g + 25 * b + 128) as i32;
    clamp_u8((x >> 8u32) + 16)
}

/// BT.601 blue-difference chroma of one RGB pixel.
pub open spec fn bt601_u(r: u8, g: u8, b: u8) -> u8 {
    let x = (-38 * r - 74 * g + 112 * b + 128) as i32;
    clamp_u8((x >> 8u32) + 128)
}

/// BT.601 red-difference chroma of one RGB pixel.
pub open spec fn bt601_v(r: u8, g: u8, b: u8) -> u8 {
    let x = (112 * r - 94 * g - 18 * b + 128) as i32;
    clamp_u8((x >> 8u32) + 128)
}

/// Index, in pixels, of the top-left pixel of chroma block `j` of a frame `w` pixels wide.
pub open spec fn chroma_block_pixel(w: int, j: int) -> int {
    2 * (j / (w / 2)) * w + 2 * (j % (w / 2))
}

/// The planar YUV 4:2:0 image of an RGB24 frame: a full-resolution Y plane,
/// then the U and V planes, each sampled at the top-left pixel of every 2x2 block.
pub open spec fn yuv420_of(rgb: Seq<u8>, w: int, h: int) -> Seq<u8> {
    let ysz = w * h;
    let csz = (w / 2) * (h / 2);
    Seq::new(
        (ysz + 2 * csz) as nat,
        |i: int|
            if i < ysz {
                bt601_y(rgb[3 * i], rgb[3 * i + 1], rgb[3 * i + 2])
            } else if i < ysz + csz {
                let p = chroma_block_pixel(w, i - ysz);
                bt601_u(rgb[3 * p], rgb[3 * p + 1], rgb[3 * p + 2])
            } else {
                let p = chroma_block_pixel(w, i - ysz - csz);
                bt601_v(rgb[3 * p], rgb[3 * p + 1], rgb[3 * p + 2])
            },
    )
}

/// The planes of the YUV 4:2:0 image: luma byte `i` is the BT.601 luma
/// `((66 r + 129 g + 25 b + 128) >> 8) + 16` of pixel `i`; for the 2x2 block
/// in block column `bx` and block row `by`, with top-left pixel
/// `p = 2 by w + 2 bx`, the U plane (after the `w h` luma bytes) holds the
/// blue difference `((-38 r - 74 g + 112 b + 128) >> 8) + 128` of pixel `p`,
/// and the V plane (after the `(w/2)(h/2)` U bytes) its red difference
/// `((112 r - 94 g - 18 b + 128) >> 8) + 128`, each clamped to a byte. A pure
/// red pixel thus gives U = 90 and V = 240.
pub proof fn lemma_yuv420_planes(rgb: Seq<u8>, w: int, h: int, i: int, bx: int, by: int)
    requires
        0 <= w,
        0 <= h,
    ensures
        yuv420_of(rgb, w, h).len() == w * h + 2 * ((w / 2) * (h / 2)),
        0 <= i < w * h ==> yuv420_of(rgb, w, h)[i] == clamp_u8(
            (((66 * rgb[3 * i] + 129 * rgb[3 * i + 1] + 25 * rgb[3 * i + 2] + 128) as i32) >> 8u32)
                + 16,
        ),
        0 <= bx < w / 2 && 0 <= by < h / 2 ==> {
            let p = 2 * by * w + 2 * bx;
            &&& yuv420_of(rgb, w, h)[w * h + by * (w / 2) + bx] == clamp_u8(
                (((-38 * rgb[3 * p] - 74 * rgb[3 * p + 1] + 112 * rgb[3 * p + 2] + 128) as i32)
                    >> 8u32) + 128,
            )
            &&& yuv420_of(rgb, w, h)[w * h + (w / 2) * (h / 2) + by * (w / 2) + bx] == clamp_u8(
                (((112 * rgb[3 * p] - 94 * rgb[3 * p + 1] - 18 * rgb[3 * p + 2] + 128) as i32)
                    >> 8u32) + 128,
            )
        },
{
    assert(0 <= w * h) by (nonlinear_arith)
        requires
            0 <= w,
            0 <= h,
    ;
    assert(0 <= (w / 2) * (h / 2)) by (nonlinear_arith)
        requires
            0 <= w,
            0 <= h,
    ;
    if 0 <= bx < w / 2 && 0 <= by < h / 2 {
        let w2 = w / 2;
        let j = by * w2 + bx;
        vstd::arithmetic::div_mod::lemma_fundamental_div_mod_converse(j, w2, by, bx);
        assert(0 <= j < w2 * (h / 2)) by (nonlinear_arith)
            requires
                j == by * w2 + bx,
                0 <= bx < w2,
                0 <= by < h / 2,
        ;
        assert(chroma_block_pixel(w, j) == 2 * by * w + 2 * bx);
        assert(w2 * (h / 2) == (w / 2) * (h / 2));
    }
}

proof fn lemma_shift_bounds(x: i32)
    requires
        -200000 <= x <= 200000,
    ensures
        -1000 <= (x >> 8u32) <= 1000,
{
    assert(-200000 <= x <= 200000 ==> -1000 <= (x >> 8u32) <= 1000) by (bit_vector);
}

fn clamp_to_u8(v: i32) -> (r: u8)
    ensures
        r == clamp_u8(v as int),
{
    if v < 0 {
        0
    } else if v > 255 {
        255
    } else {
        v as u8
    }
}

fn luma(r: u8, g: u8, b: u8) -> (y: u8)
    ensures
        y == bt601_y(r, g, b),
{
    let x: i32 = 66 * (r as i32) + 129 * (g as i32) + 25 * (b as i32) + 128;
    proof {
        lemma_shift_bounds(x);
    }
    clamp_to_u8((x >> 8u32) + 16)
}

fn chroma_u(r: u8, g: u8, b: u8) -> (u: u8)
    ensures
        u == bt601_u(r, g, b),
{
    let x: i32 = 112 * (b as i32) + 128 - 38 * (r as i32) - 74 * (g as i32);
    proof {
        lemma_shift_bounds(x);
    }
    clamp_to_u8((x >> 8u32) + 128)
}

fn chroma_v(r: u8, g: u8, b: u8) -> (v: u8)
    ensures
        v == bt601_v(r, g, b),
{
    let x: i32 = 112 * (r as i32) + 128 - 94 * (g as i32) - 18 * (b as i32);
    proof {
        lemma_shift_bounds(x);
    }
    clamp_to_u8((x >> 8u32) + 128)
}

/// Convert RGB24 to YUV420 planar format
///
/// The frame must have even dimensions (or be empty) and `rgb` must hold at
/// least three bytes per pixel.
pub fn rgb_to_yuv420(rgb: &[u8], width: u32, height: u32) -> (yuv: Vec<u8>)
    requires
        width == 0 || height == 0 || (width % 2 == 0 && height % 2 == 0),
        3 * (width * height) <= rgb@.len(),
    ensures
        yuv@ == yuv420_of(rgb@, width as int, height as int),
        yuv@.len() == width * height + 2 * ((width / 2) * (height / 2)),
        forall|i: int|
            0 <= i < width * height ==> #[trigger] yuv@[i] == clamp_u8(
                (((66 * rgb@[3 * i] + 129 * rgb@[3 * i + 1] + 25 * rgb@[3 * i + 2] + 128) as i32)
                    >> 8u32) + 16,
            ),
        forall|bx: int, by: int|
            0 <= bx < width / 2 && 0 <= by < height / 2 ==> #[trigger] yuv@[width * height + by * (
                width / 2) + bx] == clamp_u8(
                    (((-38 * rgb@[3 * (2 * by * width + 2 * bx)] - 74 * rgb@[3 * (2 * by * width + 2 * bx) + 1]
                        + 112 * rgb@[3 * (2 * by * width + 2 * bx) + 2] + 128) as i32) >> 8u32) + 128,
                ),
        forall|bx: int, by: int|
            0 <= bx < width / 2 && 0 <= by < height / 2 ==> #[trigger] yuv@[width * height + (width
                / 2) * (height / 2) + by * (width / 2) + bx] == clamp_u8(
                    (((112 * rgb@[3 * (2 * by * width + 2 * bx)] - 94 * rgb@[3 * (2 * by * width + 2 * bx) + 1]
                        - 18 * rgb@[3 * (2 * by * width + 2 * bx) + 2] + 128) as i32) >> 8u32) + 128,
                ),
{
    let w = width as usize;
    let h = height as usize;
    let rgb_len = rgb.len();
    let ghost wi = w as int;
    let ghost hi = h as int;
    proof {
        assert(0 <= wi * hi) by (nonlinear_arith)
            requires
                wi >= 0,
                hi >= 0,
        ;
        assert(wi * hi <= 3 * (wi * hi)) by (nonlinear_arith)
            requires
                wi >= 0,
                hi >= 0,
        ;
        assert((wi / 2) * (hi / 2) <= wi * hi) by (nonlinear_arith)
            requires
                wi >= 0,
                hi >= 0,
        ;
    }
    let y_size = w * h;
    let w2 = w / 2;
    let h2 = h / 2;
    let uv_size = w2 * h2;
    let ghost expected = yuv420_of(rgb@, wi, hi);
    let mut yuv: Vec<u8> = Vec::new();
    let mut i: usize = 0;
    while i < y_size
        invariant
            y_size == wi * hi,
            3 * (wi * hi) <= rgb@.len(),
            rgb_len == rgb@.len(),
            i <= y_size,
            yuv@.len() == i,
            forall|k: int| 0 <= k < i ==> #[trigger] yuv@[k] == expected[k],
            expected == yuv420_of(rgb@, wi, hi),
            uv_size == (wi / 2) * (hi / 2),
        decreases y_size - i,
    {
        yuv.push(luma(rgb[3 * i], rgb[3 * i + 1], rgb[3 * i + 2]));
        i += 1;
    }
    let mut u_plane: Vec<u8> = Vec::new();
    let mut v_plane: Vec<u8> = Vec::new();
    let mut yy: usize = 0;
    let mut row_pixel: usize = 0;
    while yy < h2
        invariant
            w2 == wi / 2,
            h2 == hi / 2,
            wi == w,
            hi == h,
            rgb_len == rgb@.len(),
            wi == 0 || hi == 0 || (wi % 2 == 0 && hi % 2 == 0),
            y_size == wi * hi,
            uv_size == w2 * h2,
            3 * (wi * hi) <= rgb@.len(),
            yy <= h2,
            row_pixel == 2 * yy * wi,
            u_plane@.len() == yy * w2,
            v_plane@.len() == yy * w2,
            forall|k: int|
                0 <= k < u_plane@.len() ==> #[trigger] u_plane@[k] == expected[y_size + k],
            forall|k: int|
                0 <= k < v_plane@.len() ==> #[trigger] v_plane@[k] == expected[y_size + uv_size
                    + k],
            expected == yuv420_of(rgb@, wi, hi),
        decreases h2 - yy,
    {
        proof {
            assert(2 * yy + 2 <= hi);
            assert((2 * yy + 2) * wi <= hi * wi) by (nonlinear_arith)
                requires
                    2 * yy + 2 <= hi,
                    wi >= 0,
            ;
            assert(2 * yy * wi + 2 * wi == (2 * yy + 2) * wi) by (nonlinear_arith);
            assert(hi * wi == wi * hi) by (nonlinear_arith);
            assert(2 * yy * wi >= 0) by (nonlinear_arith)
                requires
                    wi >= 0,
            ;
            assert(yy * w2 + w2 <= h2 * w2) by (nonlinear_arith)
                requires
                    yy < h2,
                    w2 >= 0,
            ;
        }
        let mut xx: usize = 0;
        while xx < w2
            invariant
                w2 == wi / 2,
                h2 == hi / 2,
                wi == w,
                hi == h,
                rgb_len == rgb@.len(),
                wi % 2 == 0,
                y_size == wi * hi,
                uv_size == w2 * h2,
                3 * (wi * hi) <= rgb@.len(),
                yy < h2,
                xx <= w2,
                row_pixel == 2 * yy * wi,
                2 * yy * wi + 2 * wi <= wi * hi,
                yy * w2 + w2 <= h2 * w2,
                u_plane@.len() == yy * w2 + xx,
                v_plane@.len() == yy * w2 + xx,
                forall|k: int|
                    0 <= k < u_plane@.len() ==> #[trigger] u_plane@[k] == expected[y_size + k],
                forall|k: int|
                    0 <= k < v_plane@.len() ==> #[trigger] v_plane@[k] == expected[y_size
                        + uv_size + k],
                expected == yuv420_of(rgb@, wi, hi),
            decreases w2 - xx,
        {
            let p = row_pixel + 2 * xx;
            let ghost j = u_plane@.len() as int;
            proof {
                assert(w2 > 0);
                vstd::arithmetic::div_mod::lemma_fundamental_div_mod_converse(
                    j,
                    w2 as int,
                    yy as int,
                    xx as int,
                );
                assert(p == chroma_block_pixel(wi, j));
                assert(p < wi * hi);
            }
            let r = rgb[3 * p];
            let g = rgb[3 * p + 1];
            let b = rgb[3 * p + 2];
            u_plane.push(chroma_u(r, g, b));
            v_plane.push(chroma_v(r, g, b));
            proof {
                assert(j < uv_size);
                assert(expected[y_size + j] == bt601_u(r, g, b));
                assert(expected[y_size + uv_size + j] == bt601_v(r, g, b));
            }
            xx += 1;
        }
        proof {
            assert((yy + 1) * w2 == yy * w2 + w2) by (nonlinear_arith);
            assert(2 * (yy + 1) * wi == 2 * yy * wi + 2 * wi) by (nonlinear_arith);
        }
        row_pixel = row_pixel + 2 * w;
        yy += 1;
    }
    proof {
        assert(h2 * w2 == w2 * h2) by (nonlinear_arith);
    }
    let ghost before = yuv@;
    let ghost us = u_plane@;
    let ghost vs = v_plane@;
    yuv.append(&mut u_plane);
    yuv.append(&mut v_plane);
    proof {
        assert(us.len() == uv_size);
        assert(yuv@ =~= before + us + vs);
        assert forall|k: int| 0 <= k < yuv@.len() implies #[trigger] yuv@[k] == expected[k] by {
            if k >= y_size && k < y_size + uv_size {
                assert(yuv@[k] == us[k - y_size]);
            } else if k >= y_size + uv_size {
                assert(yuv@[k] == vs[k - y_size - uv_size]);
            }
        }
        assert(yuv@ =~= expected);
        lemma_yuv420_planes(rgb@, wi, hi, 0, 0, 0);
        assert forall|i: int| 0 <= i < width * height implies #[trigger] yuv@[i] == clamp_u8(
            (((66 * rgb@[3 * i] + 129 * rgb@[3 * i + 1] + 25 * rgb@[3 * i + 2] + 128) as i32)
                >> 8u32) + 16,
        ) by {
            lemma_yuv420_planes(rgb@, wi, hi, i, 0, 0);
        }
        assert forall|bx: int, by: int|
            0 <= bx < width / 2 && 0 <= by < height / 2 implies #[trigger] yuv@[width * height + by * (
                width / 2) + bx] == clamp_u8(
                    (((-38 * rgb@[3 * (2 * by * width + 2 * bx)] - 74 * rgb@[3 * (2 * by * width + 2 * bx) + 1]
                        + 112 * rgb@[3 * (2 * by * width + 2 * bx) + 2] + 128) as i32) >> 8u32) + 128,
                ) by {
            lemma_yuv420_planes(rgb@, wi, hi, 0, bx, by);
        }
        assert forall|bx: int, by: int|
            0 <= bx < width / 2 && 0 <= by < height / 2 implies #[trigger] yuv@[width * height + (width
                / 2) * (height / 2) + by * (width / 2) + bx] == clamp_u8(
                    (((112 * rgb@[3 * (2 * by * width + 2 * bx)] - 94 * rgb@[3 * (2 * by * width + 2 * bx) + 1]
                        - 18 * rgb@[3 * (2 * by * width + 2 * bx) + 2] + 128) as i32) >> 8u32) + 128,
                ) by {
            lemma_yuv420_planes(rgb@, wi, hi, 0, bx, by);
        }
    }
    yuv
}

} // verus!
