//! Histogram collection and the row-buffer pixel operations: each buffer
//! row is one pixel's channel list in the 8-bit range, held as plain
//! integers.

use std::collections::HashMap;

use vstd::prelude::*;

use crate::image::Image;
use crate::kernels::{contrast_mult, expo_chan_raw, lum, relight_pixel, sat_pixel};
use crate::num::{clamp64, clamped, tdiv, tdiv128, tdiv64};

verus! {

broadcast use vstd::std_specs::hash::group_hash_axioms;

/// The per-pixel statistic a histogram collects.
#[derive(Clone, Copy, Debug, PartialEq, Eq, Structural)]
pub enum CollectDataType {
    Red,
    Green,
    Blue,
    Luminance,
}

/// A channel value saturated into the 8-bit range.
pub open spec fn chan8(x: int) -> int {
    clamped(x, 0, 255)
}

/// A value saturated into the `i32` range, the semantics of a saturating
/// numeric cast.
pub open spec fn sat32(x: int) -> int {
    clamped(x, i32::MIN as int, i32::MAX as int)
}

/// A value saturated into the `i32` range.
fn sat32_x(x: i64) -> (r: i32)
    ensures
        r as int == sat32(x as int),
{
    clamp64(x, i32::MIN as i64, i32::MAX as i64) as i32
}

/// The collected statistic of pixel `p` of an RGBA byte buffer.
pub open spec fn pixel_stat(s: Seq<u8>, p: int, dt: CollectDataType) -> int {
    match dt {
        CollectDataType::Red => s[4 * p] as int,
        CollectDataType::Green => s[4 * p + 1] as int,
        CollectDataType::Blue => s[4 * p + 2] as int,
        CollectDataType::Luminance => lum(s[4 * p] as int, s[4 * p + 1] as int, s[4 * p + 2] as int),
    }
}

/// The collected statistic of row `p` of a row buffer: the raw channel
/// value (or the raw luminance midpoint), saturated into the key range by
/// the cast.
pub open spec fn row_stat(rows: Seq<Seq<i64>>, p: int, dt: CollectDataType) -> int {
    let r = rows[p][0] as int;
    let g = rows[p][1] as int;
    let b = rows[p][2] as int;
    match dt {
        CollectDataType::Red => sat32(r),
        CollectDataType::Green => sat32(g),
        CollectDataType::Blue => sat32(b),
        CollectDataType::Luminance => sat32(
            tdiv(crate::color::max3(r, g, b) + crate::color::min3(r, g, b), 2),
        ),
    }
}

/// How many of the first `n` statistics equal `v`.
pub open spec fn stat_count(f: spec_fn(int) -> int, n: int, v: int) -> int
    decreases n,
{
    if n <= 0 {
        0
    } else {
        stat_count(f, n - 1, v) + (if f(n - 1) == v {
            1int
        } else {
            0int
        })
    }
}

/// A statistic count never exceeds the population.
proof fn lemma_stat_count_le(f: spec_fn(int) -> int, n: int, v: int)
    requires
        n >= 0,
    ensures
        0 <= stat_count(f, n, v) <= n,
    decreases n,
{
    if n > 0 {
        lemma_stat_count_le(f, n - 1, v);
    }
}

/// Whether a map is the histogram of the first `n` values of `f`: a key is
/// present exactly when its count is positive, and then maps to its count.
pub open spec fn is_histogram(m: Map<i32, i32>, f: spec_fn(int) -> int, n: int) -> bool {
    forall|v: i32|
        (#[trigger] m.contains_key(v) <==> stat_count(f, n, v as int) > 0) && (m.contains_key(v)
            ==> m[v] as int == stat_count(f, n, v as int))
}

/// Counts how often each value of the collected statistic occurs over the
/// pixels of an RGBA raster.
pub fn collect_data(img: &Image, data_type: CollectDataType) -> (m: HashMap<i32, i32>)
    requires
        img.wf(),
    ensures
        is_histogram(m@, |p: int| pixel_stat(img@, p, data_type), img.npix()),
{
    let n = img.data.len();
    let npx = n / 4;
    assert(4 * npx as int == n as int && npx as int == img.npix());
    proof {
        crate::num::lemma_mul_le(img.width as int, 16383, img.height as int, 16383);
    }
    assert(npx as int <= 0x10000000);
    let ghost f = |p: int| pixel_stat(img@, p, data_type);
    let mut m: HashMap<i32, i32> = HashMap::new();
    let mut q: usize = 0;
    while q < npx
        invariant
            img.wf(),
            n == img@.len(),
            4 * npx as int == n as int,
            npx as int == img.npix(),
            npx as int <= 0x10000000,
            q <= npx,
            f == (|p: int| pixel_stat(img@, p, data_type)),
            is_histogram(m@, f, q as int),
        decreases npx - q,
    {
        let r = img.data[4 * q];
        let g = img.data[4 * q + 1];
        let b = img.data[4 * q + 2];
        let v: i32 = match data_type {
            CollectDataType::Red => r as i32,
            CollectDataType::Green => g as i32,
            CollectDataType::Blue => b as i32,
            CollectDataType::Luminance => {
                let mx: i64 = if r >= g && r >= b {
                    r as i64
                } else if g >= b {
                    g as i64
                } else {
                    b as i64
                };
                let mn: i64 = if r <= g && r <= b {
                    r as i64
                } else if g <= b {
                    g as i64
                } else {
                    b as i64
                };
                tdiv64(mx + mn, 2) as i32
            },
        };
        assert(v as int == f(q as int));
        proof {
            lemma_stat_count_le(f, q as int, v as int);
        }
        let c: i32 = match m.get(&v) {
            Some(x) => {
                proof {
                    assert(m@.contains_key(v));
                    assert(m@[v] as int == stat_count(f, q as int, v as int));
                }
                *x + 1
            },
            None => 1,
        };
        m.insert(v, c);
        proof {
            assert forall|u: i32| (#[trigger] m@.contains_key(u) <==> stat_count(
                f,
                q as int + 1,
                u as int,
            ) > 0) && (m@.contains_key(u) ==> m@[u] as int == stat_count(f, q as int + 1, u as int)) by {
                if u != v {
                    assert(stat_count(f, q as int + 1, u as int) == stat_count(f, q as int, u as int));
                }
            }
        }
        q = q + 1;
    }
    m
}

/// Counts how often each value of the collected statistic occurs over the
/// rows of a row buffer. The raw channel values are keyed as they stand,
/// saturated only by the cast into the key range. Every row must carry at
/// least three channels.
pub fn old_collect_data(buffer: &Vec<Vec<i64>>, data_type: CollectDataType) -> (m: HashMap<
    i32,
    i32,
>)
    requires
        forall|i: int| 0 <= i < buffer@.len() ==> (#[trigger] buffer@[i])@.len() >= 3,
        buffer@.len() <= 0x10000000,
    ensures
        is_histogram(
            m@,
            |p: int| row_stat(buffer@.map_values(|r: Vec<i64>| r@), p, data_type),
            buffer@.len() as int,
        ),
{
    let n = buffer.len();
    let ghost rows = buffer@.map_values(|r: Vec<i64>| r@);
    let ghost f = |p: int| row_stat(rows, p, data_type);
    let mut m: HashMap<i32, i32> = HashMap::new();
    let mut q: usize = 0;
    while q < n
        invariant
            forall|i: int| 0 <= i < buffer@.len() ==> (#[trigger] buffer@[i])@.len() >= 3,
            n == buffer@.len(),
            n <= 0x10000000,
            rows == buffer@.map_values(|r: Vec<i64>| r@),
            q <= n,
            f == (|p: int| row_stat(rows, p, data_type)),
            is_histogram(m@, f, q as int),
        decreases n - q,
    {
        let row = &buffer[q];
        let r = row[0];
        let g = row[1];
        let b = row[2];
        let v: i32 = match data_type {
            CollectDataType::Red => sat32_x(r),
            CollectDataType::Green => sat32_x(g),
            CollectDataType::Blue => sat32_x(b),
            CollectDataType::Luminance => {
                let mx: i64 = if r >= g && r >= b {
                    r
                } else if g >= b {
                    g
                } else {
                    b
                };
                let mn: i64 = if r <= g && r <= b {
                    r
                } else if g <= b {
                    g
                } else {
                    b
                };
                let l: i128 = tdiv128(mx as i128 + mn as i128, 2);
                proof {
                    crate::num::lemma_tdiv_bounds(mx as int + mn as int, 2);
                }
                if l > i32::MAX as i128 {
                    i32::MAX
                } else if l < i32::MIN as i128 {
                    i32::MIN
                } else {
                    l as i32
                }
            },
        };
        assert(v as int == f(q as int));
        proof {
            lemma_stat_count_le(f, q as int, v as int);
        }
        let c: i32 = match m.get(&v) {
            Some(x) => {
                proof {
                    assert(m@.contains_key(v));
                    assert(m@[v] as int == stat_count(f, q as int, v as int));
                }
                *x + 1
            },
            None => 1,
        };
        m.insert(v, c);
        proof {
            assert forall|u: i32| (#[trigger] m@.contains_key(u) <==> stat_count(
                f,
                q as int + 1,
                u as int,
            ) > 0) && (m@.contains_key(u) ==> m@[u] as int == stat_count(f, q as int + 1, u as int)) by {
                if u != v {
                    assert(stat_count(f, q as int + 1, u as int) == stat_count(f, q as int, u as int));
                }
            }
        }
        q = q + 1;
    }
    m
}

/// The grayscale value of one row: its HSL lightness in the 8-bit range.
pub open spec fn row_gray(rows: Seq<Seq<i64>>, p: int) -> int {
    lum(chan8(rows[p][0] as int), chan8(rows[p][1] as int), chan8(rows[p][2] as int))
}

/// Converts every row to its grayscale (HSL lightness) value in the 8-bit
/// range. Every row must carry at least three channels.
pub fn convert_to_grayscale(buffer: &Vec<Vec<i64>>) -> (out: Vec<i64>)
    requires
        forall|i: int| 0 <= i < buffer@.len() ==> (#[trigger] buffer@[i])@.len() >= 3,
    ensures
        out@.len() == buffer@.len(),
        forall|i: int|
            0 <= i < out@.len() ==> #[trigger] out@[i] as int == row_gray(
                buffer@.map_values(|r: Vec<i64>| r@),
                i,
            ),
{
    let n = buffer.len();
    let ghost rows = buffer@.map_values(|r: Vec<i64>| r@);
    let mut out: Vec<i64> = Vec::new();
    let mut q: usize = 0;
    while q < n
        invariant
            forall|i: int| 0 <= i < buffer@.len() ==> (#[trigger] buffer@[i])@.len() >= 3,
            n == buffer@.len(),
            rows == buffer@.map_values(|r: Vec<i64>| r@),
            q <= n,
            out@.len() == q as int,
            forall|i: int| 0 <= i < q as int ==> #[trigger] out@[i] as int == row_gray(rows, i),
        decreases n - q,
    {
        let row = &buffer[q];
        let r = clamp64(row[0], 0, 255);
        let g = clamp64(row[1], 0, 255);
        let b = clamp64(row[2], 0, 255);
        let mx: i64 = if r >= g && r >= b {
            r
        } else if g >= b {
            g
        } else {
            b
        };
        let mn: i64 = if r <= g && r <= b {
            r
        } else if g <= b {
            g
        } else {
            b
        };
        out.push(tdiv64(mx + mn, 2));
        q = q + 1;
    }
    out
}

/// One row recolored to a grayscale target, holding hue and saturation.
pub open spec fn row_relight(rows: Seq<Seq<i64>>, p: int, newl: int) -> Seq<i64> {
    let px = relight_pixel(
        chan8(rows[p][0] as int),
        chan8(rows[p][1] as int),
        chan8(rows[p][2] as int),
        chan8(newl),
    );
    seq![px.0 as i64, px.1 as i64, px.2 as i64]
}

/// Recolors every row of the colored buffer to the lightness the grayscale
/// buffer holds for it, keeping hue and saturation. The colored buffer must
/// carry a row of at least three channels for every grayscale value.
pub fn combine_grayscale_with_colored(gray_scale_buffer: &Vec<i64>, buffer: &Vec<Vec<i64>>) -> (out:
    Vec<Vec<i64>>)
    requires
        gray_scale_buffer@.len() <= buffer@.len(),
        forall|i: int| 0 <= i < buffer@.len() ==> (#[trigger] buffer@[i])@.len() >= 3,
    ensures
        out@.len() == gray_scale_buffer@.len(),
        forall|i: int|
            0 <= i < out@.len() ==> (#[trigger] out@[i])@ == row_relight(
                buffer@.map_values(|r: Vec<i64>| r@),
                i,
                gray_scale_buffer@[i] as int,
            ),
{
    let n = gray_scale_buffer.len();
    let ghost rows = buffer@.map_values(|r: Vec<i64>| r@);
    let mut out: Vec<Vec<i64>> = Vec::new();
    let mut q: usize = 0;
    while q < n
        invariant
            gray_scale_buffer@.len() <= buffer@.len(),
            forall|i: int| 0 <= i < buffer@.len() ==> (#[trigger] buffer@[i])@.len() >= 3,
            n == gray_scale_buffer@.len(),
            rows == buffer@.map_values(|r: Vec<i64>| r@),
            q <= n,
            out@.len() == q as int,
            forall|i: int|
                0 <= i < q as int ==> (#[trigger] out@[i])@ == row_relight(
                    rows,
                    i,
                    gray_scale_buffer@[i] as int,
                ),
        decreases n - q,
    {
        let row = &buffer[q];
        let r = clamp64(row[0], 0, 255) as u8;
        let g = clamp64(row[1], 0, 255) as u8;
        let b = clamp64(row[2], 0, 255) as u8;
        let nl = clamp64(gray_scale_buffer[q], 0, 255);
        let hs = crate::color::rgb_to_hsl_x(r, g, b);
        proof {
            crate::num::lemma_tdiv_bounds(nl as int * 1000, 255);
            vstd::arithmetic::div_mod::lemma_div_is_ordered(nl as int * 1000, 255000int, 255);
        }
        let px = crate::color::hsl_to_rgb_x(hs.0, hs.1, tdiv64(nl * 1000, 255));
        let newrow: Vec<i64> = vec![px.0 as i64, px.1 as i64, px.2 as i64];
        proof {
            assert(newrow@ =~= row_relight(rows, q as int, gray_scale_buffer@[q as int] as int));
        }
        out.push(newrow);
        q = q + 1;
    }
    out
}

/// One row after the saturation nudge, channels saturated into the 8-bit
/// range first.
pub open spec fn row_saturate(rows: Seq<Seq<i64>>, p: int, amount: int) -> Seq<i64> {
    let px = sat_pixel(
        chan8(rows[p][0] as int),
        chan8(rows[p][1] as int),
        chan8(rows[p][2] as int),
        amount,
    );
    seq![px.0 as i64, px.1 as i64, px.2 as i64]
}

/// Applies an additive saturation nudge (clamped into [-500, 500]
/// milli-units) to every row. Every row must carry at least three channels.
pub fn adjust_saturation(buffer: &Vec<Vec<i64>>, added_value: i64) -> (out: Vec<Vec<i64>>)
    requires
        forall|i: int| 0 <= i < buffer@.len() ==> (#[trigger] buffer@[i])@.len() >= 3,
    ensures
        out@.len() == buffer@.len(),
        forall|i: int|
            0 <= i < out@.len() ==> (#[trigger] out@[i])@ == row_saturate(
                buffer@.map_values(|r: Vec<i64>| r@),
                i,
                added_value as int,
            ),
{
    let n = buffer.len();
    let ghost rows = buffer@.map_values(|r: Vec<i64>| r@);
    let mut out: Vec<Vec<i64>> = Vec::new();
    let mut q: usize = 0;
    while q < n
        invariant
            forall|i: int| 0 <= i < buffer@.len() ==> (#[trigger] buffer@[i])@.len() >= 3,
            n == buffer@.len(),
            rows == buffer@.map_values(|r: Vec<i64>| r@),
            q <= n,
            out@.len() == q as int,
            forall|i: int|
                0 <= i < q as int ==> (#[trigger] out@[i])@ == row_saturate(
                    rows,
                    i,
                    added_value as int,
                ),
        decreases n - q,
    {
        let row = &buffer[q];
        let r = clamp64(row[0], 0, 255) as u8;
        let g = clamp64(row[1], 0, 255) as u8;
        let b = clamp64(row[2], 0, 255) as u8;
        let px = crate::kernels::saturate_pixel(r, g, b, added_value);
        let newrow: Vec<i64> = vec![px.0 as i64, px.1 as i64, px.2 as i64];
        proof {
            assert(newrow@ =~= row_saturate(rows, q as int, added_value as int));
        }
        out.push(newrow);
        q = q + 1;
    }
    out
}

/// One row after the exposure multiply: every raw channel is multiplied
/// and only the result clamped to the 8-bit range.
pub open spec fn row_exposure(rows: Seq<Seq<i64>>, p: int, amount: int) -> Seq<i64> {
    Seq::new(rows[p].len(), |j: int| expo_chan_raw(rows[p][j] as int, amount) as i64)
}

/// Multiplies every channel of every row by `2^(amount/1000)` (clamped
/// into [-2000, 2000] milli-stops) and clamps to the channel range.
pub fn adjust_exposure(buffer: &Vec<Vec<i64>>, added_value: i64) -> (out: Vec<Vec<i64>>)
    ensures
        out@.len() == buffer@.len(),
        forall|i: int|
            0 <= i < out@.len() ==> (#[trigger] out@[i])@ == row_exposure(
                buffer@.map_values(|r: Vec<i64>| r@),
                i,
                added_value as int,
            ),
{
    let n = buffer.len();
    let ghost rows = buffer@.map_values(|r: Vec<i64>| r@);
    let mut out: Vec<Vec<i64>> = Vec::new();
    let mut q: usize = 0;
    while q < n
        invariant
            n == buffer@.len(),
            rows == buffer@.map_values(|r: Vec<i64>| r@),
            q <= n,
            out@.len() == q as int,
            forall|i: int|
                0 <= i < q as int ==> (#[trigger] out@[i])@ == row_exposure(
                    rows,
                    i,
                    added_value as int,
                ),
        decreases n - q,
    {
        let row = &buffer[q];
        let rl = row.len();
        let mut newrow: Vec<i64> = Vec::new();
        let mut j: usize = 0;
        while j < rl
            invariant
                n == buffer@.len(),
                rows == buffer@.map_values(|r: Vec<i64>| r@),
                q < n,
                rl == buffer@[q as int]@.len(),
                j <= rl,
                newrow@.len() == j as int,
                forall|k: int|
                    0 <= k < j as int ==> #[trigger] newrow@[k] == row_exposure(
                        rows,
                        q as int,
                        added_value as int,
                    )[k],
            decreases rl - j,
        {
            let e = crate::kernels::exposure_chan_raw_x(buffer[q][j], added_value);
            newrow.push(e);
            j = j + 1;
        }
        proof {
            assert(newrow@ =~= row_exposure(rows, q as int, added_value as int));
        }
        out.push(newrow);
        q = q + 1;
    }
    out
}

/// The cropped buffer: pixel `i` of the result is the source pixel at
/// column `left + i % cw` of row `top + i / cw`, where `cw` is the cropped
/// width.
pub open spec fn spec_crop(
    rows: Seq<Seq<i64>>,
    w: int,
    cw: int,
    ch: int,
    left: int,
    top: int,
) -> Seq<Seq<i64>> {
    Seq::new((cw * ch) as nat, |i: int| rows[(top + i / cw) * w + left + i % cw])
}

/// Crops a row-major pixel buffer of `image_size = (width, height)` by the
/// margins `crop = (left, top, right, bottom)`, keeping pixel order
/// row-major.
pub fn crop_image(
    buffer: &Vec<Vec<i64>>,
    image_size: (i32, i32),
    crop: (i32, i32, i32, i32),
) -> (out: Vec<Vec<i64>>)
    requires
        0 <= image_size.0,
        0 <= image_size.1,
        0 <= crop.0,
        0 <= crop.1,
        0 <= crop.2,
        0 <= crop.3,
        crop.0 + crop.2 < image_size.0 || (crop.0 + crop.2 == image_size.0),
        crop.1 + crop.3 < image_size.1 || (crop.1 + crop.3 == image_size.1),
        buffer@.len() == image_size.0 as int * image_size.1 as int,
    ensures
        out@.len() == (image_size.0 - crop.0 - crop.2) as int * (image_size.1 - crop.1
            - crop.3) as int,
        forall|i: int|
            0 <= i < out@.len() ==> (#[trigger] out@[i])@ == spec_crop(
                buffer@.map_values(|r: Vec<i64>| r@),
                image_size.0 as int,
                (image_size.0 - crop.0 - crop.2) as int,
                (image_size.1 - crop.1 - crop.3) as int,
                crop.0 as int,
                crop.1 as int,
            )[i],
{
    let w: usize = image_size.0 as usize;
    let cw: usize = (image_size.0 - crop.0 - crop.2) as usize;
    let ch: usize = (image_size.1 - crop.1 - crop.3) as usize;
    let left: usize = crop.0 as usize;
    let top: usize = crop.1 as usize;
    let ghost rows = buffer@.map_values(|r: Vec<i64>| r@);
    let ghost cropped = spec_crop(rows, w as int, cw as int, ch as int, left as int, top as int);
    let blen: usize = buffer.len();
    let mut out: Vec<Vec<i64>> = Vec::new();
    if cw == 0 {
        proof {
            assert(cw as int * ch as int == 0) by (nonlinear_arith)
                requires
                    cw as int == 0,
            ;
        }
        return out;
    }
    proof {
        assert((cw as int) * (ch as int) <= (w as int) * (image_size.1 as int)) by (nonlinear_arith)
            requires
                0 <= cw as int <= w as int,
                0 <= ch as int <= image_size.1 as int,
        ;
        assert((w as int) * (top as int + ch as int) <= buffer@.len()) by (nonlinear_arith)
            requires
                0 <= w as int,
                top as int + ch as int <= image_size.1 as int,
                buffer@.len() == (w as int) * (image_size.1 as int),
        ;
        assert(cw as int * ch as int <= blen as int);
    }
    let n: usize = cw * ch;
    let mut k: usize = 0;
    while k < n
        invariant
            rows == buffer@.map_values(|r: Vec<i64>| r@),
            cropped == spec_crop(rows, w as int, cw as int, ch as int, left as int, top as int),
            blen == buffer@.len(),
            buffer@.len() >= (w as int) * (top as int + ch as int),
            w == image_size.0 as int,
            cw as int == image_size.0 as int - crop.0 - crop.2,
            ch as int == image_size.1 as int - crop.1 - crop.3,
            left == crop.0 as int,
            top == crop.1 as int,
            0 <= crop.0 && 0 <= crop.1 && 0 <= crop.2 && 0 <= crop.3,
            cw >= 1,
            w >= 1,
            n == cw as int * ch as int,
            k <= n,
            out@.len() == k as int,
            forall|i: int| 0 <= i < k as int ==> (#[trigger] out@[i])@ == cropped[i],
        decreases n - k,
    {
        proof {
            vstd::arithmetic::div_mod::lemma_mod_division_less_than_divisor(k as int, cw as int);
            vstd::arithmetic::div_mod::lemma_multiply_divide_lt(k as int, cw as int, ch as int);
        }
        let y: usize = top + k / cw;
        let x: usize = left + k % cw;
        proof {
            assert((y as int) * (w as int) + (x as int) < buffer@.len()) by (nonlinear_arith)
                requires
                    y as int <= top as int + ch as int - 1,
                    (x as int) < (w as int),
                    w as int >= 1,
                    buffer@.len() >= (w as int) * (top as int + ch as int),
            ;
            crate::num::lemma_mul_le(y as int, top as int + ch as int, w as int, w as int);
        }
        let idx: usize = y * w + x;
        let row = &buffer[idx];
        let mut copy: Vec<i64> = Vec::new();
        let mut j: usize = 0;
        while j < row.len()
            invariant
                row@ == buffer@[(y as int) * (w as int) + (x as int)]@,
                ((y as int) * (w as int) + (x as int)) < buffer@.len(),
                j <= row@.len(),
                copy@ == row@.take(j as int),
            decreases row@.len() - j,
        {
            copy.push(row[j]);
            assert(copy@ =~= row@.take(j as int + 1));
            j = j + 1;
        }
        assert(copy@ =~= row@);
        out.push(copy);
        k = k + 1;
    }
    out
}

/// Sum of the grayscale values of the first `n` rows.
pub open spec fn gray_sum(rows: Seq<Seq<i64>>, n: int) -> int
    decreases n,
{
    if n <= 0 {
        0
    } else {
        gray_sum(rows, n - 1) + row_gray(rows, n - 1)
    }
}

/// The whole row buffer after the contrast adjustment: every row's
/// grayscale deviation from the buffer mean is scaled by the multiplier
/// and the row recolored to the new lightness.
pub open spec fn spec_row_contrast(rows: Seq<Seq<i64>>, amount: int) -> Seq<Seq<i64>> {
    if rows.len() == 0 {
        rows
    } else {
        let avg = gray_sum(rows, rows.len() as int) / rows.len() as int;
        Seq::new(
            rows.len(),
            |i: int|
                row_relight(
                    rows,
                    i,
                    clamped(avg + tdiv((row_gray(rows, i) - avg) * contrast_mult(amount), 1000), 0, 255),
                ),
        )
    }
}

/// Scales every row's grayscale deviation from the buffer mean by
/// `1 + amount/1000` (clamped into [-500, 500] milli-units), holding hue
/// and saturation. Every row must carry at least three channels.
pub fn adjust_contrast(buffer: &Vec<Vec<i64>>, added_value: i64) -> (out: Vec<Vec<i64>>)
    requires
        forall|i: int| 0 <= i < buffer@.len() ==> (#[trigger] buffer@[i])@.len() >= 3,
        buffer@.len() <= 0x10000000,
    ensures
        out@.len() == buffer@.len(),
        forall|i: int|
            0 <= i < out@.len() ==> (#[trigger] out@[i])@ == spec_row_contrast(
                buffer@.map_values(|r: Vec<i64>| r@),
                added_value as int,
            )[i],
{
    let n = buffer.len();
    let ghost rows = buffer@.map_values(|r: Vec<i64>| r@);
    if n == 0 {
        let out: Vec<Vec<i64>> = Vec::new();
        return out;
    }
    let gray = convert_to_grayscale(buffer);
    let mut acc: i64 = 0;
    let mut q: usize = 0;
    while q < n
        invariant
            n == buffer@.len(),
            n <= 0x10000000,
            rows == buffer@.map_values(|r: Vec<i64>| r@),
            gray@.len() == n as int,
            forall|i: int| 0 <= i < n as int ==> #[trigger] gray@[i] as int == row_gray(rows, i),
            q <= n,
            acc == gray_sum(rows, q as int),
            0 <= acc <= 255 * q as int,
        decreases n - q,
    {
        let gv = gray[q];
        assert(0 <= gv <= 255) by {
            assert(gray@[q as int] as int == row_gray(rows, q as int));
        }
        acc = acc + gv;
        q = q + 1;
    }
    let avg: i64 = tdiv64(acc, n as i64);
    proof {
        vstd::arithmetic::div_mod::lemma_div_pos_is_pos(acc as int, n as int);
        vstd::arithmetic::div_mod::lemma_div_is_ordered(acc as int, 255 * n as int, n as int);
        vstd::arithmetic::div_mod::lemma_div_multiples_vanish(255, n as int);
    }
    assert(0 <= avg <= 255);
    let mult: i64 = 1000 + clamp64(added_value, -500, 500);
    let mut newgray: Vec<i64> = Vec::new();
    let mut q: usize = 0;
    while q < n
        invariant
            n == buffer@.len(),
            rows == buffer@.map_values(|r: Vec<i64>| r@),
            gray@.len() == n as int,
            forall|i: int| 0 <= i < n as int ==> #[trigger] gray@[i] as int == row_gray(rows, i),
            avg as int == gray_sum(rows, n as int) / n as int,
            0 <= avg <= 255,
            mult as int == contrast_mult(added_value as int),
            500 <= mult <= 1500,
            q <= n,
            newgray@.len() == q as int,
            forall|i: int|
                0 <= i < q as int ==> #[trigger] newgray@[i] as int == clamped(
                    avg as int + tdiv(
                        (row_gray(rows, i) - avg as int) * contrast_mult(added_value as int),
                        1000,
                    ),
                    0,
                    255,
                ),
        decreases n - q,
    {
        let gv = gray[q];
        assert(0 <= gv <= 255) by {
            assert(gray@[q as int] as int == row_gray(rows, q as int));
        }
        proof {
            crate::num::lemma_mul_abs_le(gv as int - avg as int, 255, mult as int, 1500);
        }
        let nl = clamp64(avg + tdiv64((gv - avg) * mult, 1000), 0, 255);
        newgray.push(nl);
        q = q + 1;
    }
    let out = combine_grayscale_with_colored(&newgray, buffer);
    proof {
        assert forall|i: int| 0 <= i < out@.len() implies (#[trigger] out@[i])@
            == spec_row_contrast(rows, added_value as int)[i] by {
            assert(out@[i]@ == row_relight(rows, i, newgray@[i] as int));
        }
    }
    out
}

} // verus!
