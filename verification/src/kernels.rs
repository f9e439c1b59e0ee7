//! CPU numeric kernels: per-pixel filter math in fixed-point integer
//! arithmetic. Parameters are milli-units (1000 = 1.0); channels are 8-bit.

use vstd::prelude::*;

use crate::color::{hsl_denom, max3, min3};
use crate::image::Image;
use crate::num::{clamp64, clamped, tdiv, tdiv128, tdiv64};

verus! {

// --- exposure ---

/// Small powers of two.
pub open spec fn pw4(e: int) -> int {
    if e == 0 {
        1
    } else if e == 1 {
        2
    } else if e == 2 {
        4
    } else if e == 3 {
        8
    } else {
        16
    }
}

/// Numerator of the exposure multiplier `2^(p/1000)` over the denominator
/// 4000, with the amount clamped into [-2000, 2000] (stops are milli-units)
/// and the fractional stop interpolated linearly.
pub open spec fn expo_mult_num(p: int) -> int {
    let q = clamped(p, -2000, 2000);
    let t = q + 2000;
    let k = t / 1000;
    let f = t % 1000;
    (1000 + f) * pw4(k)
}

/// One channel after the exposure multiply, clamped to the channel range.
pub open spec fn expo_chan(v: int, p: int) -> int {
    clamped(v * expo_mult_num(p) / 4000, 0, 255)
}

/// The exposure multiply over a raw value of either sign: multiply first,
/// clamp only the result to the channel range.
pub open spec fn expo_chan_raw(v: int, p: int) -> int {
    clamped(tdiv(v * expo_mult_num(p), 4000), 0, 255)
}

/// Exposure over a whole byte buffer; alpha bytes are untouched.
pub open spec fn spec_exposition(s: Seq<u8>, p: int) -> Seq<u8> {
    Seq::new(
        s.len(),
        |i: int|
            if i % 4 == 3 {
                s[i]
            } else {
                expo_chan(s[i] as int, p) as u8
            },
    )
}

/// The exposure multiplier numerator for a requested amount.
fn expo_mult(p: i64) -> (n: i64)
    ensures
        n as int == expo_mult_num(p as int),
        1000 <= n <= 32000,
{
    let q = clamp64(p, -2000, 2000);
    let t: i64 = q + 2000;
    let k: i64 = tdiv64(t, 1000);
    let f: i64 = t - k * 1000;
    assert(f == t as int % 1000 && 0 <= f < 1000) by {
        assert(t as int / 1000 * 1000 + t as int % 1000 == t as int);
    }
    let pw: i64 = if k == 0 {
        1
    } else if k == 1 {
        2
    } else if k == 2 {
        4
    } else if k == 3 {
        8
    } else {
        16
    };
    (1000 + f) * pw
}

/// The exposure multiply over one raw channel value of either sign.
pub fn exposure_chan_raw_x(v: i64, p: i64) -> (r: i64)
    ensures
        r as int == expo_chan_raw(v as int, p as int),
        0 <= r <= 255,
{
    let num = expo_mult(p);
    proof {
        crate::num::lemma_mul_abs_le(
            v as int,
            0x8000000000000000,
            num as int,
            32000,
        );
        crate::num::lemma_tdiv_bounds(v as int * num as int, 4000);
    }
    let x: i128 = tdiv128(v as i128 * num as i128, 4000);
    if x < 0 {
        0
    } else if x > 255 {
        255
    } else {
        x as i64
    }
}

/// Multiplies every color channel by `2^(p/1000)` (amount clamped into
/// [-2000, 2000] milli-stops) and clamps to the channel range.
pub fn exposition(img: &Image, p: i64) -> (out: Image)
    requires
        img.wf(),
    ensures
        out.wf(),
        out.width == img.width,
        out.height == img.height,
        out@ == spec_exposition(img@, p as int),
{
    let num = expo_mult(p);
    let n = img.data.len();
    let mut data: Vec<u8> = Vec::new();
    let mut i: usize = 0;
    while i < n
        invariant
            img.wf(),
            num as int == expo_mult_num(p as int),
            1000 <= num <= 32000,
            n == img@.len(),
            i <= n,
            data@.len() == i as int,
            forall|j: int| 0 <= j < i as int ==> #[trigger] data@[j] == spec_exposition(img@, p as int)[j],
        decreases n - i,
    {
        let v = img.data[i];
        if i % 4 == 3 {
            data.push(v);
        } else {
            proof {
                crate::num::lemma_mul_le(v as int, 255, num as int, 32000);
            }
            let x: i64 = tdiv64((v as i64) * num, 4000);
            let c = clamp64(x, 0, 255);
            data.push(c as u8);
        }
        i = i + 1;
    }
    assert(data@ =~= spec_exposition(img@, p as int));
    Image { width: img.width, height: img.height, data }
}

// --- saturation ---

/// One channel rescaled so the pixel's chroma matches a new saturation,
/// holding hue and lightness: the deviation from the lightness midpoint `m/2`
/// is scaled by `news/olds`.
pub open spec fn sat_chan(c: int, m: int, news: int, olds: int) -> int {
    clamped(tdiv(m + tdiv((2 * c - m) * news, olds), 2), 0, 255)
}

/// One pixel after an additive saturation nudge of `p` (clamped into
/// [-500, 500] milli-units) in hue-saturation-lightness space. A gray pixel
/// has no hue and is left unchanged.
pub open spec fn sat_pixel(r: int, g: int, b: int, p: int) -> (int, int, int) {
    let mx = max3(r, g, b);
    let mn = min3(r, g, b);
    let d = mx - mn;
    let m = mx + mn;
    if d == 0 {
        (r, g, b)
    } else {
        let olds = d * 1000 / hsl_denom(m);
        let news = clamped(olds + clamped(p, -500, 500), 0, 1000);
        (sat_chan(r, m, news, olds), sat_chan(g, m, news, olds), sat_chan(b, m, news, olds))
    }
}

/// Saturation over a whole byte buffer; alpha bytes are untouched.
pub open spec fn spec_saturate(s: Seq<u8>, p: int) -> Seq<u8> {
    Seq::new(
        s.len(),
        |i: int|
            {
                let base = 4 * (i / 4);
                let px = sat_pixel(s[base] as int, s[base + 1] as int, s[base + 2] as int, p);
                if i % 4 == 0 {
                    px.0 as u8
                } else if i % 4 == 1 {
                    px.1 as u8
                } else if i % 4 == 2 {
                    px.2 as u8
                } else {
                    s[i]
                }
            },
    )
}

/// One pixel of the saturation kernel.
pub fn saturate_pixel(r: u8, g: u8, b: u8, p: i64) -> (t: (u8, u8, u8))
    ensures
        (t.0 as int, t.1 as int, t.2 as int) == sat_pixel(r as int, g as int, b as int, p as int),
{
    let mx: i64 = if r >= g && r >= b {
        r as i64
    } else if g >= b {
        g as i64
    } else {
        b as i64
    };
    let mn: i64 = if r <= g && r <= b {
        r as i64
    } else if g <= b {
        g as i64
    } else {
        b as i64
    };
    let d: i64 = mx - mn;
    let m: i64 = mx + mn;
    if d == 0 {
        (r, g, b)
    } else {
        let denom: i64 = if m <= 255 {
            m
        } else {
            510 - m
        };
        assert(denom >= 1 && denom <= 509);
        let olds = tdiv64(d * 1000, denom);
        proof {
            crate::num::lemma_tdiv_ge_one(d as int * 1000, denom as int);
            crate::num::lemma_tdiv_bounds(d as int * 1000, denom as int);
        }
        assert(olds >= 1 && olds <= 510000);
        let news = clamp64(olds + clamp64(p, -500, 500), 0, 1000);
        let rr = sat_chan_x(r, m, news, olds);
        let gg = sat_chan_x(g, m, news, olds);
        let bb = sat_chan_x(b, m, news, olds);
        (rr, gg, bb)
    }
}

/// One channel of the saturation kernel.
fn sat_chan_x(c: u8, m: i64, news: i64, olds: i64) -> (v: u8)
    requires
        0 <= m <= 510,
        0 <= news <= 1000,
        1 <= olds <= 510000,
    ensures
        v as int == sat_chan(c as int, m as int, news as int, olds as int),
{
    proof {
        assert(-510_000 <= (2 * (c as int) - m as int) * (news as int) <= 510_000)
            by (nonlinear_arith)
            requires
                -510 <= 2 * (c as int) - m as int <= 510,
                0 <= news as int <= 1000,
        ;
    }
    let dev: i64 = (2 * (c as i64) - m) * news;
    proof {
        crate::num::lemma_tdiv_bounds(dev as int, olds as int);
    }
    let scaled = tdiv64(dev, olds);
    let v = clamp64(tdiv64(m + scaled, 2), 0, 255);
    v as u8
}

/// Applies an additive saturation nudge of `p` (clamped into [-500, 500]
/// milli-units) to every pixel in hue-saturation-lightness space.
pub fn saturate(img: &Image, p: i64) -> (out: Image)
    requires
        img.wf(),
    ensures
        out.wf(),
        out.width == img.width,
        out.height == img.height,
        out@ == spec_saturate(img@, p as int),
{
    let n = img.data.len();
    let mut data: Vec<u8> = Vec::new();
    let mut i: usize = 0;
    while i < n
        invariant
            img.wf(),
            n == img@.len(),
            n % 4 == 0,
            i <= n,
            i % 4 == 0,
            data@.len() == i as int,
            forall|j: int| 0 <= j < i as int ==> #[trigger] data@[j] == spec_saturate(img@, p as int)[j],
        decreases n - i,
    {
        let r = img.data[i];
        let g = img.data[i + 1];
        let b = img.data[i + 2];
        let a = img.data[i + 3];
        let px = saturate_pixel(r, g, b, p);
        data.push(px.0);
        data.push(px.1);
        data.push(px.2);
        data.push(a);
        proof {
            let s = spec_saturate(img@, p as int);
            assert forall|j: int| i as int <= j < i as int + 4 implies data@[j] == s[j] by {
                assert(4 * (j / 4) == i as int);
            }
        }
        i = i + 4;
    }
    assert(data@ =~= spec_saturate(img@, p as int));
    Image { width: img.width, height: img.height, data }
}

// --- white balance ---

/// Red gain numerator for a clamped temperature.
pub open spec fn wb_temp(t: int) -> int {
    clamped(t, 1_000_000, 12_000_000)
}

/// Green gain for a clamped tint.
pub open spec fn wb_tint(t: int) -> int {
    1_000_000 + clamped(t, -500_000, 500_000)
}

/// One pixel recolored from a current white point `(ft, fu)` to a target
/// white point `(tt, tu)` (milli-kelvin and milli-tint): red and blue are
/// scaled by the ratio of the temperature gains, green by the ratio of the
/// tint gains. Equal white points leave the pixel unchanged.
pub open spec fn wb_pixel(r: int, g: int, b: int, ft: int, fu: int, tt: int, tu: int) -> (
    int,
    int,
    int,
) {
    let cf = wb_temp(ft);
    let ct = wb_temp(tt);
    let gf = wb_tint(fu);
    let gt = wb_tint(tu);
    (
        clamped(r * (13_000_000 - ct) / (13_000_000 - cf), 0, 255),
        clamped(g * gt / gf, 0, 255),
        clamped(b * ct / cf, 0, 255),
    )
}

/// White balance over a whole byte buffer; alpha bytes are untouched.
pub open spec fn spec_whitebalance(s: Seq<u8>, ft: int, fu: int, tt: int, tu: int) -> Seq<u8> {
    Seq::new(
        s.len(),
        |i: int|
            {
                let base = 4 * (i / 4);
                let px = wb_pixel(
                    s[base] as int,
                    s[base + 1] as int,
                    s[base + 2] as int,
                    ft,
                    fu,
                    tt,
                    tu,
                );
                if i % 4 == 0 {
                    px.0 as u8
                } else if i % 4 == 1 {
                    px.1 as u8
                } else if i % 4 == 2 {
                    px.2 as u8
                } else {
                    s[i]
                }
            },
    )
}

/// One pixel of the white-balance kernel.
fn wb_pixel_x(r: u8, g: u8, b: u8, ft: i64, fu: i64, tt: i64, tu: i64) -> (t: (u8, u8, u8))
    ensures
        (t.0 as int, t.1 as int, t.2 as int) == wb_pixel(
            r as int,
            g as int,
            b as int,
            ft as int,
            fu as int,
            tt as int,
            tu as int,
        ),
{
    let cf = clamp64(ft, 1_000_000, 12_000_000);
    let ct = clamp64(tt, 1_000_000, 12_000_000);
    let gf = 1_000_000 + clamp64(fu, -500_000, 500_000);
    let gt = 1_000_000 + clamp64(tu, -500_000, 500_000);
    proof {
        crate::num::lemma_mul_le(r as int, 255, 13_000_000 - ct as int, 12_000_000);
        crate::num::lemma_mul_le(g as int, 255, gt as int, 1_500_000);
        crate::num::lemma_mul_le(b as int, 255, ct as int, 12_000_000);
    }
    let rr = clamp64(tdiv64((r as i64) * (13_000_000 - ct), 13_000_000 - cf), 0, 255);
    let gg = clamp64(tdiv64((g as i64) * gt, gf), 0, 255);
    let bb = clamp64(tdiv64((b as i64) * ct, cf), 0, 255);
    (rr as u8, gg as u8, bb as u8)
}

/// Recolors every pixel from the current white point `(ft, fu)` to the
/// target white point `(tt, tu)`.
pub fn whitebalance(img: &Image, ft: i64, fu: i64, tt: i64, tu: i64) -> (out: Image)
    requires
        img.wf(),
    ensures
        out.wf(),
        out.width == img.width,
        out.height == img.height,
        out@ == spec_whitebalance(img@, ft as int, fu as int, tt as int, tu as int),
{
    let n = img.data.len();
    let mut data: Vec<u8> = Vec::new();
    let mut i: usize = 0;
    while i < n
        invariant
            img.wf(),
            n == img@.len(),
            n % 4 == 0,
            i <= n,
            i % 4 == 0,
            data@.len() == i as int,
            forall|j: int|
                0 <= j < i as int ==> #[trigger] data@[j] == spec_whitebalance(
                    img@,
                    ft as int,
                    fu as int,
                    tt as int,
                    tu as int,
                )[j],
        decreases n - i,
    {
        let r = img.data[i];
        let g = img.data[i + 1];
        let b = img.data[i + 2];
        let a = img.data[i + 3];
        let px = wb_pixel_x(r, g, b, ft, fu, tt, tu);
        data.push(px.0);
        data.push(px.1);
        data.push(px.2);
        data.push(a);
        proof {
            let s = spec_whitebalance(img@, ft as int, fu as int, tt as int, tu as int);
            assert forall|j: int| i as int <= j < i as int + 4 implies data@[j] == s[j] by {
                assert(4 * (j / 4) == i as int);
            }
        }
        i = i + 4;
    }
    assert(data@ =~= spec_whitebalance(img@, ft as int, fu as int, tt as int, tu as int));
    Image { width: img.width, height: img.height, data }
}

// --- contrast ---

/// Luminance (HSL lightness in the 8-bit range) of a pixel.
pub open spec fn lum(r: int, g: int, b: int) -> int {
    (max3(r, g, b) + min3(r, g, b)) / 2
}

/// Luminance of pixel `p` of a byte buffer.
pub open spec fn lum_at(s: Seq<u8>, p: int) -> int {
    lum(s[4 * p] as int, s[4 * p + 1] as int, s[4 * p + 2] as int)
}

/// Sum of the luminances of the first `n` pixels.
pub open spec fn lum_sum(s: Seq<u8>, n: int) -> int
    decreases n,
{
    if n <= 0 {
        0
    } else {
        lum_sum(s, n - 1) + lum_at(s, n - 1)
    }
}

/// The contrast multiplier in milli-units for a requested amount, clamped
/// into [-500, 500] around the neutral multiplier 1000.
pub open spec fn contrast_mult(p: int) -> int {
    1000 + clamped(p, -500, 500)
}

/// One pixel recolored to luminance `newl` (8-bit range), holding its hue
/// and saturation.
pub open spec fn relight_pixel(r: int, g: int, b: int, newl: int) -> (int, int, int) {
    crate::color::hsl_to_rgb(
        crate::color::rgb_h(r, g, b),
        crate::color::rgb_s(r, g, b),
        newl * 1000 / 255,
    )
}

/// One pixel of the contrast kernel: its luminance deviation from the
/// image mean `avg` is scaled by the multiplier and the pixel recolored.
#[verifier::opaque]
pub open spec fn contrast_pixel(r: int, g: int, b: int, avg: int, p: int) -> (int, int, int) {
    let nl = clamped(avg + tdiv((lum(r, g, b) - avg) * contrast_mult(p), 1000), 0, 255);
    relight_pixel(r, g, b, nl)
}

/// Contrast over a whole byte buffer: every pixel's luminance deviation
/// from the image mean luminance is scaled by the multiplier and the pixel
/// is recolored to the new luminance; alpha bytes are untouched.
pub open spec fn spec_contrast(s: Seq<u8>, p: int) -> Seq<u8> {
    if s.len() == 0 {
        s
    } else {
        let npx = s.len() as int / 4;
        let avg = lum_sum(s, npx) / npx;
        Seq::new(
            s.len(),
            |i: int|
                {
                    let base = 4 * (i / 4);
                    let px = contrast_pixel(
                        s[base] as int,
                        s[base + 1] as int,
                        s[base + 2] as int,
                        avg,
                        p,
                    );
                    if i % 4 == 0 {
                        px.0 as u8
                    } else if i % 4 == 1 {
                        px.1 as u8
                    } else if i % 4 == 2 {
                        px.2 as u8
                    } else {
                        s[i]
                    }
                },
        )
    }
}

/// One pixel of the contrast kernel.
fn contrast_px_x(r: u8, g: u8, b: u8, avg: i64, p: i64) -> (t: (u8, u8, u8))
    requires
        0 <= avg <= 255,
    ensures
        (t.0 as int, t.1 as int, t.2 as int) == contrast_pixel(
            r as int,
            g as int,
            b as int,
            avg as int,
            p as int,
        ),
{
    proof {
        reveal(contrast_pixel);
    }
    let l = lum_x(r, g, b);
    let mult: i64 = 1000 + clamp64(p, -500, 500);
    proof {
        crate::num::lemma_mul_abs_le(l as int - avg as int, 255, mult as int, 1500);
    }
    let prod: i64 = (l - avg) * mult;
    let nl = clamp64(avg + tdiv64(prod, 1000), 0, 255);
    let hs = crate::color::rgb_to_hsl_x(r, g, b);
    proof {
        crate::num::lemma_tdiv_bounds(nl as int * 1000, 255);
        vstd::arithmetic::div_mod::lemma_div_is_ordered(nl as int * 1000, 255000int, 255);
    }
    crate::color::hsl_to_rgb_x(hs.0, hs.1, tdiv64(nl * 1000, 255))
}

/// Luminance of one pixel.
fn lum_x(r: u8, g: u8, b: u8) -> (l: i64)
    ensures
        l as int == lum(r as int, g as int, b as int),
        0 <= l <= 255,
{
    let mx: i64 = if r >= g && r >= b {
        r as i64
    } else if g >= b {
        g as i64
    } else {
        b as i64
    };
    let mn: i64 = if r <= g && r <= b {
        r as i64
    } else if g <= b {
        g as i64
    } else {
        b as i64
    };
    tdiv64(mx + mn, 2)
}

/// Scales every pixel's luminance deviation from the image mean by
/// `1 + p/1000` (amount clamped into [-500, 500] milli-units), holding hue
/// and saturation.
#[verifier::rlimit(100)]
pub fn contrast(img: &Image, p: i64) -> (out: Image)
    requires
        img.wf(),
    ensures
        out.wf(),
        out.width == img.width,
        out.height == img.height,
        out@ == spec_contrast(img@, p as int),
{
    let n = img.data.len();
    if n == 0 {
        return img.duplicate();
    }
    let npx: usize = n / 4;
    assert(4 * npx as int == n as int && npx >= 1);
    proof {
        crate::num::lemma_mul_le(img.width as int, 16383, img.height as int, 16383);
    }
    assert(npx as int <= 0x10000000);
    let mut acc: i64 = 0;
    let mut q: usize = 0;
    while q < npx
        invariant
            img.wf(),
            n == img@.len(),
            npx as int == n as int / 4,
            4 * npx as int == n as int,
            q <= npx,
            npx as int <= 0x10000000,
            acc == lum_sum(img@, q as int),
            0 <= acc <= 255 * q as int,
        decreases npx - q,
    {
        let l = lum_x(img.data[4 * q], img.data[4 * q + 1], img.data[4 * q + 2]);
        acc = acc + l;
        q = q + 1;
    }
    let avg: i64 = tdiv64(acc, npx as i64);
    proof {
        vstd::arithmetic::div_mod::lemma_div_pos_is_pos(acc as int, npx as int);
        vstd::arithmetic::div_mod::lemma_div_is_ordered(acc as int, 255 * npx as int, npx as int);
        vstd::arithmetic::div_mod::lemma_div_multiples_vanish(255, npx as int);
    }
    assert(0 <= avg <= 255);
    let mut data: Vec<u8> = Vec::new();
    let mut i: usize = 0;
    while i < n
        invariant
            img.wf(),
            n == img@.len(),
            npx as int == n as int / 4,
            4 * npx as int == n as int,
            n >= 4,
            i <= n,
            i % 4 == 0,
            avg as int == lum_sum(img@, n as int / 4) / (n as int / 4),
            0 <= avg <= 255,
            data@.len() == i as int,
            forall|j: int| 0 <= j < i as int ==> #[trigger] data@[j] == spec_contrast(img@, p as int)[j],
        decreases n - i,
    {
        let r = img.data[i];
        let g = img.data[i + 1];
        let b = img.data[i + 2];
        let a = img.data[i + 3];
        let px = contrast_px_x(r, g, b, avg, p);
        data.push(px.0);
        data.push(px.1);
        data.push(px.2);
        data.push(a);
        proof {
            let s = spec_contrast(img@, p as int);
            assert forall|j: int| i as int <= j < i as int + 4 implies data@[j] == s[j] by {
                assert(4 * (j / 4) == i as int);
            }
        }
        i = i + 4;
    }
    assert(data@ =~= spec_contrast(img@, p as int));
    Image { width: img.width, height: img.height, data }
}

// --- blurs and sharpening ---

/// Lower edge of a blur window centered at `v` with radius `r`.
pub open spec fn bb_lo(v: int, r: int) -> int {
    if v - r < 0 {
        0
    } else {
        v - r
    }
}

/// Upper edge of a blur window centered at `v` with radius `r`, inside a
/// dimension of `n` pixels.
pub open spec fn bb_hi(v: int, r: int, n: int) -> int {
    if v + r > n - 1 {
        n - 1
    } else {
        v + r
    }
}

/// Channel `c` of the pixel at `(x, y)` of a row-major buffer of width `w`.
pub open spec fn chan_at(s: Seq<u8>, w: int, x: int, y: int, c: int) -> int {
    s[4 * (y * w + x) + c] as int
}

/// Sum of channel `c` over columns `xlo..=xhi` of row `y`.
pub open spec fn row_sum(s: Seq<u8>, w: int, y: int, xlo: int, xhi: int, c: int) -> int
    decreases xhi - xlo + 1,
{
    if xhi < xlo {
        0
    } else {
        row_sum(s, w, y, xlo, xhi - 1, c) + chan_at(s, w, xhi, y, c)
    }
}

/// Sum of channel `c` over the rectangle `xlo..=xhi` x `ylo..=yhi`.
pub open spec fn rect_sum(s: Seq<u8>, w: int, ylo: int, yhi: int, xlo: int, xhi: int, c: int) -> int
    decreases yhi - ylo + 1,
{
    if yhi < ylo {
        0
    } else {
        rect_sum(s, w, ylo, yhi - 1, xlo, xhi, c) + row_sum(s, w, yhi, xlo, xhi, c)
    }
}

/// Number of pixels in the blur window centered at `(x, y)`.
pub open spec fn bb_count(x: int, y: int, r: int, w: int, h: int) -> int {
    (bb_hi(x, r, w) - bb_lo(x, r) + 1) * (bb_hi(y, r, h) - bb_lo(y, r) + 1)
}

/// Mean of channel `c` over the blur window centered at `(x, y)`.
pub open spec fn bb_chan(s: Seq<u8>, w: int, h: int, x: int, y: int, c: int, r: int) -> int {
    rect_sum(s, w, bb_lo(y, r), bb_hi(y, r, h), bb_lo(x, r), bb_hi(x, r, w), c)
        / bb_count(x, y, r, w, h)
}

/// Box blur with pixel radius `r` over a whole byte buffer: every color
/// channel becomes the mean of its window clamped to the image edges; alpha
/// bytes are untouched.
pub open spec fn spec_boxblur(s: Seq<u8>, w: int, h: int, r: int) -> Seq<u8> {
    Seq::new(
        s.len(),
        |i: int|
            {
                let p = i / 4;
                let x = p % w;
                let y = p / w;
                if i % 4 == 3 {
                    s[i]
                } else {
                    bb_chan(s, w, h, x, y, i % 4, r) as u8
                }
            },
    )
}

/// The blur radius in pixels for a milli-unit amount, clamped into the
/// raster's dimension range.
pub open spec fn radius_px(p: int) -> int {
    clamped(tdiv(p, 1000), 0, 16383)
}

/// The blur radius in pixels for a milli-unit amount.
fn radius_px_x(p: i64) -> (r: usize)
    ensures
        r as int == radius_px(p as int),
        r <= 16383,
{
    if p <= 0 {
        proof {
            crate::num::lemma_tdiv_bounds(p as int, 1000);
        }
        0
    } else {
        let q = tdiv64(clamp64(p, 0, 20_000_000), 1000);
        proof {
            if p >= 20_000_000 {
                vstd::arithmetic::div_mod::lemma_div_is_ordered(20_000_000int, p as int, 1000);
            }
        }
        clamp64(q, 0, 16383) as usize
    }
}

/// Mean of one channel over the blur window centered at `(x, y)`.
#[verifier::rlimit(100)]
fn box_avg_x(img: &Image, x: usize, y: usize, c: usize, r: usize) -> (v: u8)
    requires
        img.wf(),
        x < img.width,
        y < img.height,
        c < 3,
        r <= 16383,
    ensures
        v as int == bb_chan(
            img@,
            img.width as int,
            img.height as int,
            x as int,
            y as int,
            c as int,
            r as int,
        ),
{
    let w: usize = img.width as usize;
    let h: usize = img.height as usize;
    let xlo: usize = if x >= r {
        x - r
    } else {
        0
    };
    let xhi: usize = if x + r > w - 1 {
        w - 1
    } else {
        x + r
    };
    let ylo: usize = if y >= r {
        y - r
    } else {
        0
    };
    let yhi: usize = if y + r > h - 1 {
        h - 1
    } else {
        y + r
    };
    assert(xlo as int == bb_lo(x as int, r as int) && xhi as int == bb_hi(x as int, r as int, w as int));
    assert(ylo as int == bb_lo(y as int, r as int) && yhi as int == bb_hi(y as int, r as int, h as int));
    assert(xlo <= x <= xhi < w && ylo <= y <= yhi < h);
    let ghost gw: int = xhi as int - xlo as int + 1;
    let mut sum: i64 = 0;
    let mut cnt: i64 = 0;
    let mut yy: usize = ylo;
    while yy <= yhi
        invariant
            img.wf(),
            w == img.width as int,
            h == img.height as int,
            xlo <= x <= xhi < w,
            ylo <= y <= yhi < h,
            c < 3,
            gw == xhi as int - xlo as int + 1,
            1 <= gw <= 16384,
            yhi as int - ylo as int + 1 <= 16384,
            ylo <= yy <= yhi + 1,
            sum == rect_sum(img@, w as int, ylo as int, yy as int - 1, xlo as int, xhi as int, c as int),
            cnt == (yy as int - ylo as int) * gw,
            0 <= sum <= 255 * cnt,
            0 <= cnt <= 0x10000000,
        decreases yhi + 1 - yy,
    {
        let mut xx: usize = xlo;
        while xx <= xhi
            invariant
                img.wf(),
                w == img.width as int,
                h == img.height as int,
                xlo <= x <= xhi < w,
                ylo <= y <= yhi < h,
                ylo <= yy <= yhi,
                c < 3,
                gw == xhi as int - xlo as int + 1,
                1 <= gw <= 16384,
                yhi as int - ylo as int + 1 <= 16384,
                xlo <= xx <= xhi + 1,
                sum == rect_sum(img@, w as int, ylo as int, yy as int - 1, xlo as int, xhi as int, c as int)
                    + row_sum(img@, w as int, yy as int, xlo as int, xx as int - 1, c as int),
                cnt == (yy as int - ylo as int) * gw + (xx as int - xlo as int),
                0 <= sum <= 255 * cnt,
                0 <= cnt <= 0x10000000,
            decreases xhi + 1 - xx,
        {
            proof {
                crate::num::lemma_mul_le(yy as int, 16382, w as int, 16383);
                assert(yy as int * w as int + xx as int <= (h as int - 1) * w as int + w as int - 1)
                    by (nonlinear_arith)
                    requires
                        yy as int <= h as int - 1,
                        xx as int <= w as int - 1,
                        w as int >= 1,
                ;
                assert((h as int - 1) * w as int + w as int == h as int * w as int)
                    by (nonlinear_arith);
                assert((h as int) * (w as int) == img.npix()) by (nonlinear_arith)
                    requires
                        w as int == img.width as int,
                        h as int == img.height as int,
                ;
                crate::num::lemma_mul_le(yy as int - ylo as int, 16383, gw, 16384);
            }
            let idx: usize = (yy * w + xx) * 4 + c;
            let v = img.data[idx];
            sum = sum + v as i64;
            cnt = cnt + 1;
            proof {
                assert(chan_at(img@, w as int, xx as int, yy as int, c as int) == v as int);
            }
            xx = xx + 1;
        }
        proof {
            assert((yy as int - ylo as int) * gw + gw == (yy as int + 1 - ylo as int) * gw)
                by (nonlinear_arith);
            crate::num::lemma_mul_le(yy as int + 1 - ylo as int, 16384, gw, 16384);
        }
        yy = yy + 1;
    }
    proof {
        assert(cnt == (yhi as int - ylo as int + 1) * gw);
        assert(cnt == bb_count(x as int, y as int, r as int, w as int, h as int))
            by (nonlinear_arith)
            requires
                cnt == (yhi as int - ylo as int + 1) * gw,
                gw == xhi as int - xlo as int + 1,
                bb_count(x as int, y as int, r as int, w as int, h as int) == gw * (yhi as int
                    - ylo as int + 1),
        ;
        assert(cnt >= 1) by (nonlinear_arith)
            requires
                cnt == (yhi as int - ylo as int + 1) * gw,
                yhi as int - ylo as int + 1 >= 1,
                gw >= 1,
        ;
        vstd::arithmetic::div_mod::lemma_div_pos_is_pos(sum as int, cnt as int);
        vstd::arithmetic::div_mod::lemma_div_is_ordered(sum as int, 255 * cnt as int, cnt as int);
        vstd::arithmetic::div_mod::lemma_div_multiples_vanish(255, cnt as int);
    }
    let avg = tdiv64(sum, cnt);
    assert(0 <= avg <= 255);
    avg as u8
}

/// Box blur of every color channel with the window radius given in
/// milli-pixels.
#[verifier::rlimit(100)]
pub fn boxblur(img: &Image, p: i64) -> (out: Image)
    requires
        img.wf(),
    ensures
        out.wf(),
        out.width == img.width,
        out.height == img.height,
        out@ == spec_boxblur(img@, img.width as int, img.height as int, radius_px(p as int)),
{
    let r = radius_px_x(p);
    boxblur_px(img, r)
}

/// Box blur of every color channel with a pixel radius.
#[verifier::rlimit(100)]
fn boxblur_px(img: &Image, r: usize) -> (out: Image)
    requires
        img.wf(),
        r <= 16383,
    ensures
        out.wf(),
        out.width == img.width,
        out.height == img.height,
        out@ == spec_boxblur(img@, img.width as int, img.height as int, r as int),
{
    let n = img.data.len();
    if n == 0 {
        let out = img.duplicate();
        assert(out@ =~= spec_boxblur(img@, img.width as int, img.height as int, r as int));
        return out;
    }
    let w: usize = img.width as usize;
    let h: usize = img.height as usize;
    proof {
        assert(w as int >= 1 && h as int >= 1) by (nonlinear_arith)
            requires
                4 * (w as int * h as int) == n as int,
                n as int > 0,
                w as int >= 0,
                h as int >= 0,
        ;
    }
    let mut data: Vec<u8> = Vec::new();
    let mut i: usize = 0;
    while i < n
        invariant
            img.wf(),
            n == img@.len(),
            w == img.width as int,
            h == img.height as int,
            w >= 1,
            h >= 1,
            r <= 16383,
            i <= n,
            data@.len() == i as int,
            forall|j: int|
                0 <= j < i as int ==> #[trigger] data@[j] == spec_boxblur(
                    img@,
                    img.width as int,
                    img.height as int,
                    r as int,
                )[j],
        decreases n - i,
    {
        let p: usize = i / 4;
        proof {
            vstd::arithmetic::div_mod::lemma_mod_division_less_than_divisor(p as int, w as int);
            vstd::arithmetic::div_mod::lemma_multiply_divide_lt(p as int, w as int, h as int);
            assert((p as int) < (w as int) * (h as int)) by (nonlinear_arith)
                requires
                    4 * (p as int) < n as int,
                    n as int == 4 * ((w as int) * (h as int)),
            ;
        }
        let x: usize = p % w;
        let y: usize = p / w;
        let cm: usize = i % 4;
        if cm == 3 {
            data.push(img.data[i]);
        } else {
            let v = box_avg_x(img, x, y, cm, r);
            data.push(v);
        }
        i = i + 1;
    }
    assert(data@ =~= spec_boxblur(img@, img.width as int, img.height as int, r as int));
    Image { width: img.width, height: img.height, data }
}

/// `n` successive box blurs of radius `r`.
pub open spec fn blur_iter(s: Seq<u8>, w: int, h: int, r: int, n: int) -> Seq<u8>
    decreases n,
{
    if n <= 0 {
        s
    } else {
        spec_boxblur(blur_iter(s, w, h, r, n - 1), w, h, r)
    }
}

/// Number of box-blur passes that stand in for a Gaussian kernel of the
/// given milli-unit size.
pub open spec fn gauss_passes(k: int) -> int {
    clamped(tdiv(k, 1000), 1, 8)
}

/// Gaussian blur approximated by repeated box blurs: `sigma` (milli-pixels)
/// fixes the window radius, the kernel size fixes the number of passes. A
/// radius that rounds to zero leaves the buffer unchanged.
pub open spec fn spec_gaussianblur(s: Seq<u8>, w: int, h: int, sigma: int, k: int) -> Seq<u8> {
    if radius_px(sigma) == 0 {
        s
    } else {
        blur_iter(s, w, h, radius_px(sigma), gauss_passes(k))
    }
}

/// The pass count for a kernel-size amount.
fn gauss_passes_x(k: i64) -> (n: usize)
    ensures
        n as int == gauss_passes(k as int),
        1 <= n <= 8,
{
    if k <= 0 {
        proof {
            crate::num::lemma_tdiv_bounds(k as int, 1000);
        }
        1
    } else {
        let q = tdiv64(clamp64(k, 0, 10_000_000), 1000);
        proof {
            if k >= 10_000_000 {
                vstd::arithmetic::div_mod::lemma_div_is_ordered(10_000_000int, k as int, 1000);
            }
        }
        clamp64(q, 1, 8) as usize
    }
}

/// Gaussian blur approximated by repeated box blurs of the radius derived
/// from `sigma` (milli-pixels); `k` is the kernel-size amount that fixes
/// the number of passes.
pub fn gaussianblur(img: &Image, sigma: i64, k: i64) -> (out: Image)
    requires
        img.wf(),
    ensures
        out.wf(),
        out.width == img.width,
        out.height == img.height,
        out@ == spec_gaussianblur(img@, img.width as int, img.height as int, sigma as int, k as int),
{
    let r = radius_px_x(sigma);
    if r == 0 {
        let out = img.duplicate();
        return out;
    }
    let passes = gauss_passes_x(k);
    let mut out = img.duplicate();
    let mut t: usize = 0;
    while t < passes
        invariant
            img.wf(),
            out.wf(),
            out.width == img.width,
            out.height == img.height,
            r as int == radius_px(sigma as int),
            r <= 16383,
            t <= passes,
            passes as int == gauss_passes(k as int),
            out@ == blur_iter(img@, img.width as int, img.height as int, r as int, t as int),
        decreases passes - t,
    {
        out = boxblur_px(&out, r);
        t = t + 1;
    }
    out
}

/// The sharpening amount clamped to the working range.
pub open spec fn sharp_amount(p: int) -> int {
    clamped(p, -100_000, 100_000)
}

/// Unsharp masking: every color channel moves away from its box-blurred
/// value by `amount/1000` of the difference; alpha bytes are untouched.
pub open spec fn spec_sharpen(s: Seq<u8>, w: int, h: int, amount: int, radius: int) -> Seq<u8> {
    let bl = spec_boxblur(s, w, h, radius_px(radius));
    Seq::new(
        s.len(),
        |i: int|
            if i % 4 == 3 {
                s[i]
            } else {
                clamped(
                    s[i] as int + tdiv((s[i] as int - bl[i] as int) * sharp_amount(amount), 1000),
                    0,
                    255,
                ) as u8
            },
    )
}

/// Sharpens by unsharp masking: `amount` in milli-units (clamped into
/// [-100, 100]), `radius` in milli-pixels for the underlying box blur.
pub fn sharpen(img: &Image, amount: i64, radius: i64) -> (out: Image)
    requires
        img.wf(),
    ensures
        out.wf(),
        out.width == img.width,
        out.height == img.height,
        out@ == spec_sharpen(img@, img.width as int, img.height as int, amount as int, radius as int),
{
    let bl = boxblur(img, radius);
    let amt = clamp64(amount, -100_000, 100_000);
    let n = img.data.len();
    let mut data: Vec<u8> = Vec::new();
    let mut i: usize = 0;
    while i < n
        invariant
            img.wf(),
            bl.wf(),
            n == img@.len(),
            bl@.len() == n as int,
            bl@ == spec_boxblur(img@, img.width as int, img.height as int, radius_px(radius as int)),
            amt as int == sharp_amount(amount as int),
            -100_000 <= amt <= 100_000,
            i <= n,
            data@.len() == i as int,
            forall|j: int|
                0 <= j < i as int ==> #[trigger] data@[j] == spec_sharpen(
                    img@,
                    img.width as int,
                    img.height as int,
                    amount as int,
                    radius as int,
                )[j],
        decreases n - i,
    {
        let v = img.data[i];
        if i % 4 == 3 {
            data.push(v);
        } else {
            let d: i64 = v as i64 - bl.data[i] as i64;
            proof {
                crate::num::lemma_mul_abs_le(d as int, 255, amt as int, 100_000);
                crate::num::lemma_tdiv_bounds(d as int * amt as int, 1000);
            }
            let q = tdiv64(d * amt, 1000);
            let c = clamp64(v as i64 + q, 0, 255);
            data.push(c as u8);
        }
        i = i + 1;
    }
    assert(data@ =~= spec_sharpen(img@, img.width as int, img.height as int, amount as int, radius as int));
    Image { width: img.width, height: img.height, data }
}


/// Law: the exposure amount is clamped into [-2000, 2000] milli-stops
/// before it acts, so any amount beyond the working range behaves exactly
/// like the nearest bound.
pub proof fn lemma_exposure_amount_clamped(s: Seq<u8>, p: int)
    ensures
        spec_exposition(s, p) == spec_exposition(s, clamped(p, -2000, 2000)),
{
    let q = clamped(p, -2000, 2000);
    assert(clamped(q, -2000, 2000) == q);
    assert(expo_mult_num(p) == expo_mult_num(q));
    assert(spec_exposition(s, p) =~= spec_exposition(s, q));
}

/// Law: the saturation amount is clamped into [-500, 500] milli-units
/// before it acts, so any amount beyond the working range behaves exactly
/// like the nearest bound.
pub proof fn lemma_saturation_amount_clamped(s: Seq<u8>, p: int)
    ensures
        spec_saturate(s, p) == spec_saturate(s, clamped(p, -500, 500)),
{
    let q = clamped(p, -500, 500);
    assert(clamped(q, -500, 500) == q);
    assert forall|r: int, g: int, b: int| #[trigger] sat_pixel(r, g, b, p) == sat_pixel(
        r,
        g,
        b,
        q,
    ) by {
    }
    assert(spec_saturate(s, p) =~= spec_saturate(s, q));
}

/// Law: white balancing toward the white point the image already has is the
/// identity on every channel.
pub proof fn lemma_whitebalance_identity(s: Seq<u8>, t: int, u: int)
    requires
        s.len() % 4 == 0,
    ensures
        spec_whitebalance(s, t, u, t, u) =~= s,
{
    assert forall|i: int| 0 <= i < s.len() implies spec_whitebalance(s, t, u, t, u)[i] == s[i] by {
        let base = 4 * (i / 4);
        if i % 4 != 3 {
            assert(0 <= base && base + 2 < s.len()) by {
                assert(base <= i <= base + 3);
                assert(i / 4 + 1 <= s.len() / 4);
                assert(4 * (s.len() as int / 4) == s.len() as int);
            }
            let r = s[base] as int;
            let g = s[base + 1] as int;
            let b = s[base + 2] as int;
            let ct = wb_temp(t);
            let gt = wb_tint(u);
            vstd::arithmetic::div_mod::lemma_div_by_multiple(r, 13_000_000 - ct);
            vstd::arithmetic::div_mod::lemma_div_by_multiple(g, gt);
            vstd::arithmetic::div_mod::lemma_div_by_multiple(b, ct);
        }
    }
}

} // verus!
