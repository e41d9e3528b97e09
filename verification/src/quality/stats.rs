//! Integer statistics over RGB8 data that the validator's colour and noise
//! estimates are computed from.

use vstd::prelude::*;
use vstd::arithmetic::div_mod::{lemma_fundamental_div_mod, lemma_fundamental_div_mod_converse};

verus! {

/// Sum of channel `c` over the first `n` pixels of RGB8 data.
pub open spec fn channel_sum(rgb: Seq<u8>, c: int, n: int) -> int
    decreases n,
{
    if n <= 0 {
        0
    } else {
        channel_sum(rgb, c, n - 1) + rgb[3 * (n - 1) + c] as int
    }
}

proof fn lemma_channel_sum_mono(rgb: Seq<u8>, c: int, n: int, m: int)
    requires
        0 <= n <= m,
    ensures
        0 <= channel_sum(rgb, c, n) <= channel_sum(rgb, c, m),
    decreases m,
{
    if m > n {
        lemma_channel_sum_mono(rgb, c, n, m - 1);
    } else if n > 0 {
        lemma_channel_sum_mono(rgb, c, n - 1, n - 1);
    }
}

/// Per-channel sums of RGB8 data, `(red, green, blue)`, as the colour
/// distribution's means are made from. The data holds whole pixels and the
/// sums fit a `u64`.
pub fn channel_sums(rgb: &[u8]) -> (r: (u64, u64, u64))
    requires
        rgb@.len() % 3 == 0,
        channel_sum(rgb@, 0, rgb@.len() as int / 3) <= u64::MAX,
        channel_sum(rgb@, 1, rgb@.len() as int / 3) <= u64::MAX,
        channel_sum(rgb@, 2, rgb@.len() as int / 3) <= u64::MAX,
    ensures
        r.0 == channel_sum(rgb@, 0, rgb@.len() as int / 3),
        r.1 == channel_sum(rgb@, 1, rgb@.len() as int / 3),
        r.2 == channel_sum(rgb@, 2, rgb@.len() as int / 3),
{
    let n = rgb.len() / 3;
    let ghost s = rgb@;
    let mut red: u64 = 0;
    let mut green: u64 = 0;
    let mut blue: u64 = 0;
    let mut p: usize = 0;
    while p < n
        invariant
            p <= n,
            n == s.len() / 3,
            s.len() % 3 == 0,
            s == rgb@,
            channel_sum(s, 0, n as int) <= u64::MAX,
            channel_sum(s, 1, n as int) <= u64::MAX,
            channel_sum(s, 2, n as int) <= u64::MAX,
            red == channel_sum(s, 0, p as int),
            green == channel_sum(s, 1, p as int),
            blue == channel_sum(s, 2, p as int),
        decreases n - p,
    {
        let total = rgb.len();
        proof {
            lemma_channel_sum_mono(s, 0, p + 1, n as int);
            lemma_channel_sum_mono(s, 1, p + 1, n as int);
            lemma_channel_sum_mono(s, 2, p + 1, n as int);
            lemma_fundamental_div_mod(s.len() as int, 3);
            assert(3 * p + 2 < total);
        }
        red = red + rgb[3 * p] as u64;
        green = green + rgb[3 * p + 1] as u64;
        blue = blue + rgb[3 * p + 2] as u64;
        p += 1;
    }
    (red, green, blue)
}

/// Byte stride between noise samples for a requested `step`: a whole number
/// of pixels, at least one.
pub open spec fn noise_stride(step: int) -> int {
    if step / 3 >= 1 {
        (step / 3) * 3
    } else {
        3
    }
}

/// The channel totals `r + g + b` of the three consecutive pixels starting
/// at byte `i`.
pub open spec fn triple_at(rgb: Seq<u8>, i: int) -> (u16, u16, u16) {
    (
        (rgb[i] + rgb[i + 1] + rgb[i + 2]) as u16,
        (rgb[i + 3] + rgb[i + 4] + rgb[i + 5]) as u16,
        (rgb[i + 6] + rgb[i + 7] + rgb[i + 8]) as u16,
    )
}

/// Among the sample positions `0, stride, 2 * stride, ...` below `k * stride`,
/// the pixel totals of those that have three whole pixels ahead.
pub open spec fn noise_samples(rgb: Seq<u8>, stride: int, k: int) -> Seq<(u16, u16, u16)>
    decreases k,
{
    if k <= 0 {
        seq![]
    } else {
        let i = (k - 1) * stride;
        if i + 8 < rgb.len() {
            noise_samples(rgb, stride, k - 1).push(triple_at(rgb, i))
        } else {
            noise_samples(rgb, stride, k - 1)
        }
    }
}

/// Number of sample positions `0, stride, 2 * stride, ...` below `len`.
pub open spec fn sample_positions(len: int, stride: int) -> int {
    (len + stride - 1) / stride
}

/// Position `k * stride` lies below `len` exactly for the first
/// `sample_positions(len, stride)` values of `k`.
proof fn lemma_sample_positions(len: int, stride: int, k: int)
    requires
        len >= 0,
        stride >= 1,
        k >= 0,
    ensures
        (k * stride < len) == (k < sample_positions(len, stride)),
{
    let q = sample_positions(len, stride);
    lemma_fundamental_div_mod(len + stride - 1, stride);
    let r = (len + stride - 1) % stride;
    assert(len + stride - 1 == stride * q + r);
    assert(0 <= r < stride);
    if k < q {
        assert(k * stride <= (q - 1) * stride) by (nonlinear_arith)
            requires
                k <= q - 1,
                stride >= 1,
        ;
        assert((q - 1) * stride == q * stride - stride) by (nonlinear_arith);
        assert(q * stride == stride * q) by (nonlinear_arith);
    } else {
        assert(k * stride >= q * stride) by (nonlinear_arith)
            requires
                k >= q,
                stride >= 1,
        ;
        assert(q * stride == stride * q) by (nonlinear_arith);
    }
}

/// The local samples a noise estimate is made from: every `stride` bytes
/// (see [`noise_stride`]), the channel totals of the three pixels there,
/// when they lie within the data.
pub fn noise_sample_totals(rgb: &[u8], step: usize) -> (r: Vec<(u16, u16, u16)>)
    ensures
        r@ == noise_samples(
            rgb@,
            noise_stride(step as int),
            sample_positions(rgb@.len() as int, noise_stride(step as int)),
        ),
{
    let stride: usize = if step / 3 >= 1 {
        (step / 3) * 3
    } else {
        3
    };
    let ghost st = stride as int;
    let ghost len = rgb@.len() as int;
    let ghost big_k = sample_positions(len, st);
    let mut out: Vec<(u16, u16, u16)> = Vec::new();
    if rgb.len() == 0 {
        proof {
            lemma_sample_positions(len, st, 0);
        }
        assert(big_k == 0);
        return out;
    }
    let mut i: usize = 0;
    let ghost mut k: int = 0;
    loop
        invariant_except_break
            st == stride,
            st == noise_stride(step as int),
            stride >= 3,
            len == rgb@.len(),
            big_k == sample_positions(len, st),
            k >= 0,
            i == k * st,
            i < len,
            out@ == noise_samples(rgb@, st, k),
        ensures
            out@ == noise_samples(rgb@, st, big_k),
        decreases len - i,
    {
        if rgb.len() - i > 8 {
            let a = rgb[i] as u16 + rgb[i + 1] as u16 + rgb[i + 2] as u16;
            let b = rgb[i + 3] as u16 + rgb[i + 4] as u16 + rgb[i + 5] as u16;
            let c = rgb[i + 6] as u16 + rgb[i + 7] as u16 + rgb[i + 8] as u16;
            out.push((a, b, c));
        }
        proof {
            assert(out@ =~= noise_samples(rgb@, st, k + 1));
            k = k + 1;
        }
        if rgb.len() - i <= stride {
            proof {
                lemma_sample_positions(len, st, k - 1);
                lemma_sample_positions(len, st, k);
                assert(k * st == (k - 1) * st + st) by (nonlinear_arith);
            }
            break;
        }
        i = i + stride;
        proof {
            assert(k * st == (k - 1) * st + st) by (nonlinear_arith);
        }
    }
    out
}

} // verus!
