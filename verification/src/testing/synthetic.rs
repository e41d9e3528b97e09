//! Test frames generated to match the output of a 4K USB webcam (RGB24),
//! for reliable offline testing without hardware.

use vstd::prelude::*;
use vstd::arithmetic::div_mod::lemma_fundamental_div_mod_converse;
use crate::types::{CameraFrame, is_hyphenated_uuid, rgb8_name};

verus! {

broadcast use vstd::string::to_string_from_display_ensures_for_str;

/// Channel `c` of pixel `(x, y)` of synthetic frame `n`: a gradient over
/// position that shifts with the frame number (red follows `x`, green `y`,
/// blue `x + y`), all modulo 256.
pub open spec fn synthetic_sample(n: u64, x: int, y: int, c: int) -> u8 {
    let base = n % 256;
    let v = if c == 0 {
        x % 256
    } else if c == 1 {
        y % 256
    } else {
        (x + y) % 256
    };
    ((base + v) % 256) as u8
}

/// The pixels of synthetic frame `n`, `w` pixels wide and `h` high, row by
/// row, three bytes per pixel.
pub open spec fn synthetic_pixels(n: u64, w: int, h: int) -> Seq<u8> {
    Seq::new(
        (w * h * 3) as nat,
        |i: int| synthetic_sample(n, (i / 3) % w, (i / 3) / w, i % 3),
    )
}

/// Create a synthetic test frame: an RGB gradient that changes with the
/// frame number (exercising temporal encoding), from device
/// `synthetic_obsbot`.
pub fn synthetic_video_frame(frame_number: u64, width: u32, height: u32) -> (f: CameraFrame)
    requires
        width * height * 3 <= u32::MAX,
    ensures
        f.width == width,
        f.height == height,
        f.data@ == synthetic_pixels(frame_number, width as int, height as int),
        f.size_bytes == f.data@.len(),
        f.device_id@ == "synthetic_obsbot"@,
        f.format@ == rgb8_name(),
        is_hyphenated_uuid(f.id@),
{
    let base = (frame_number % 256) as u8;
    let ghost wi = width as int;
    let ghost hi = height as int;
    let mut data: Vec<u8> = Vec::new();
    let mut y: u32 = 0;
    while y < height
        invariant
            y <= height,
            wi == width && hi == height,
            width * height * 3 <= u32::MAX,
            base == frame_number % 256,
            data@.len() == y * wi * 3,
            forall|i: int|
                0 <= i < data@.len() ==> #[trigger] data@[i] == synthetic_pixels(
                    frame_number,
                    wi,
                    hi,
                )[i],
        decreases height - y,
    {
        let mut x: u32 = 0;
        while x < width
            invariant
                y < height,
                x <= width,
                wi == width && hi == height,
                width * height * 3 <= u32::MAX,
                base == frame_number % 256,
                data@.len() == (y * wi + x) * 3,
                forall|i: int|
                    0 <= i < data@.len() ==> #[trigger] data@[i] == synthetic_pixels(
                        frame_number,
                        wi,
                        hi,
                    )[i],
            decreases width - x,
        {
            proof {
                assert(x + y < wi * hi + 1) by (nonlinear_arith)
                    requires
                        0 <= x < wi,
                        0 <= y < hi,
                ;
                assert((y as int) * wi + x + 1 <= wi * hi) by (nonlinear_arith)
                    requires
                        0 <= x < wi,
                        0 <= y < hi,
                ;
                lemma_fundamental_div_mod_converse(
                    (y as int) * wi + x,
                    wi,
                    y as int,
                    x as int,
                );
                let p = (y as int) * wi + x;
                lemma_fundamental_div_mod_converse(p * 3, 3, p, 0);
                lemma_fundamental_div_mod_converse(p * 3 + 1, 3, p, 1);
                lemma_fundamental_div_mod_converse(p * 3 + 2, 3, p, 2);
            }
            let r = base.wrapping_add((x % 256) as u8);
            let g = base.wrapping_add((y % 256) as u8);
            let b = base.wrapping_add(((x + y) % 256) as u8);
            data.push(r);
            data.push(g);
            data.push(b);
            proof {
                assert(data@.len() == (y * wi + x + 1) * 3) by (nonlinear_arith)
                    requires
                        data@.len() == (y * wi + x) * 3 + 3,
                ;
            }
            x += 1;
        }
        proof {
            assert(data@.len() == (y + 1) * wi * 3) by (nonlinear_arith)
                requires
                    data@.len() == (y * wi + wi) * 3,
            ;
        }
        y += 1;
    }
    assert(hi * wi * 3 == wi * hi * 3) by (nonlinear_arith);
    assert(data@ =~= synthetic_pixels(frame_number, wi, hi));
    CameraFrame::new(data, width, height, "synthetic_obsbot".to_string())
}

/// Consecutive synthetic frames differ in every byte: the gradient shifts by
/// one step modulo 256 from each frame to the next.
pub proof fn lemma_consecutive_frames_differ(n: u64, x: int, y: int, c: int)
    requires
        n < u64::MAX,
        x >= 0,
        y >= 0,
    ensures
        synthetic_sample(n, x, y, c) != synthetic_sample((n + 1) as u64, x, y, c),
{
    let v = if c == 0 {
        x % 256
    } else if c == 1 {
        y % 256
    } else {
        (x + y) % 256
    };
    let a = (n % 256) as int;
    let b = ((n + 1) % 256) as int;
    assert(b == if a == 255 { 0 } else { a + 1 }) by {
        vstd::arithmetic::div_mod::lemma_add_mod_noop(n as int, 1, 256);
    }
    assert(0 <= v < 256);
    assert((a + v) % 256 != (b + v) % 256) by {
        if a == 255 {
            assert(b + v == v);
            if v == 0 {
                assert((a + v) % 256 == 255);
            } else {
                assert((a + v) % 256 == v - 1) by {
                    lemma_fundamental_div_mod_converse(a + v, 256, 1, v - 1);
                }
            }
        } else {
            if a + 1 + v < 256 {
                assert((a + v) % 256 == a + v);
                assert((b + v) % 256 == a + v + 1);
            } else if a + v < 256 {
                assert((a + v) % 256 == a + v);
                assert((b + v) % 256 == 0) by {
                    lemma_fundamental_div_mod_converse(b + v, 256, 1, 0);
                }
            } else {
                assert((a + v) % 256 == a + v - 256) by {
                    lemma_fundamental_div_mod_converse(a + v, 256, 1, a + v - 256);
                }
                assert((b + v) % 256 == a + v + 1 - 256) by {
                    lemma_fundamental_div_mod_converse(b + v, 256, 1, a + v + 1 - 256);
                }
            }
        }
    }
}

} // verus!
