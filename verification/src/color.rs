//! Integer HSL color mathematics: hue in [0, 6000) (sector milli-units,
//! 1000 per 60 degrees), saturation and lightness in [0, 1000] milli-units.

use vstd::prelude::*;

use crate::num::{clamp64, clamped, tdiv, tdiv64};

verus! {

/// Absolute value.
pub open spec fn iabs(x: int) -> int {
    if x < 0 {
        -x
    } else {
        x
    }
}

/// Largest of three channel values.
pub open spec fn max3(r: int, g: int, b: int) -> int {
    if r >= g && r >= b {
        r
    } else if g >= b {
        g
    } else {
        b
    }
}

/// Smallest of three channel values.
pub open spec fn min3(r: int, g: int, b: int) -> int {
    if r <= g && r <= b {
        r
    } else if g <= b {
        g
    } else {
        b
    }
}

/// Denominator of the HSL saturation formula for `m = max + min`.
pub open spec fn hsl_denom(m: int) -> int {
    if m <= 255 {
        m
    } else {
        510 - m
    }
}

/// Hue of an RGB pixel, in [0, 6000); a gray pixel reports hue 0.
pub open spec fn rgb_h(r: int, g: int, b: int) -> int {
    let mx = max3(r, g, b);
    let mn = min3(r, g, b);
    let d = mx - mn;
    if d == 0 {
        0
    } else if r >= g && r >= b {
        let t = tdiv((g - b) * 1000, d);
        if t < 0 {
            t + 6000
        } else {
            t
        }
    } else if g >= b {
        2000 + tdiv((b - r) * 1000, d)
    } else {
        4000 + tdiv((r - g) * 1000, d)
    }
}

/// Saturation of an RGB pixel, in [0, 1000].
pub open spec fn rgb_s(r: int, g: int, b: int) -> int {
    let mx = max3(r, g, b);
    let mn = min3(r, g, b);
    let d = mx - mn;
    if d == 0 {
        0
    } else {
        d * 1000 / hsl_denom(mx + mn)
    }
}

/// Lightness of an RGB pixel, in [0, 1000].
pub open spec fn rgb_l(r: int, g: int, b: int) -> int {
    (max3(r, g, b) + min3(r, g, b)) * 1000 / 510
}

/// An HSL triple converted back to RGB channels in [0, 255].
pub open spec fn hsl_to_rgb(h: int, s: int, l: int) -> (int, int, int) {
    let c = (1000 - iabs(2 * l - 1000)) * s / 1000;
    let hm = h % 2000;
    let x = c * (1000 - iabs(hm - 1000)) / 1000;
    let m0 = l - c / 2;
    let sector = h / 1000;
    let rgb1 = if sector == 0 {
        (c, x, 0)
    } else if sector == 1 {
        (x, c, 0)
    } else if sector == 2 {
        (0, c, x)
    } else if sector == 3 {
        (0, x, c)
    } else if sector == 4 {
        (x, 0, c)
    } else {
        (c, 0, x)
    };
    (
        clamped((rgb1.0 + m0) * 255 / 1000, 0, 255),
        clamped((rgb1.1 + m0) * 255 / 1000, 0, 255),
        clamped((rgb1.2 + m0) * 255 / 1000, 0, 255),
    )
}

/// Hue, saturation and lightness of a pixel, with their ranges.
pub fn rgb_to_hsl_x(r: u8, g: u8, b: u8) -> (t: (i64, i64, i64))
    ensures
        t.0 as int == rgb_h(r as int, g as int, b as int),
        t.1 as int == rgb_s(r as int, g as int, b as int),
        t.2 as int == rgb_l(r as int, g as int, b as int),
        0 <= t.0 < 6000,
        0 <= t.1 <= 1000,
        0 <= t.2 <= 1000,
{
    let mx: i64 = if r >= g && r >= b {
        r as i64
    } else if g >= b {
        g as i64
    } else {
        b as i64
    };
    let mn: i64 = if r <= g && r <= b {
        r as i64
    } else if g <= b {
        g as i64
    } else {
        b as i64
    };
    let d: i64 = mx - mn;
    let m: i64 = mx + mn;
    let l: i64 = tdiv64(m * 1000, 510);
    proof {
        crate::num::lemma_tdiv_bounds(m as int * 1000, 510);
        assert(m as int * 1000 <= 510 * 1000);
        assert(m as int * 1000 / 510 <= 510 * 1000 / 510) by {
            vstd::arithmetic::div_mod::lemma_div_is_ordered(m as int * 1000, 510000int, 510);
        }
    }
    if d == 0 {
        (0, 0, l)
    } else {
        let denom: i64 = if m <= 255 {
            m
        } else {
            510 - m
        };
        assert(1 <= denom <= 509);
        let s: i64 = tdiv64(d * 1000, denom);
        proof {
            crate::num::lemma_tdiv_ge_one(d as int * 1000, denom as int);
            crate::num::lemma_tdiv_bounds(d as int * 1000, denom as int);
            assert(d as int * 1000 <= denom as int * 1000) by (nonlinear_arith)
                requires
                    d as int <= denom as int,
            ;
            assert(d as int * 1000 / denom as int <= denom as int * 1000 / denom as int) by {
                vstd::arithmetic::div_mod::lemma_div_is_ordered(
                    d as int * 1000,
                    denom as int * 1000,
                    denom as int,
                );
            }
            assert(denom as int * 1000 / denom as int == 1000) by {
                vstd::arithmetic::div_mod::lemma_div_multiples_vanish(1000, denom as int);
                vstd::arithmetic::mul::lemma_mul_is_commutative(denom as int, 1000);
            }
        }
        assert(1 <= s <= 1000);
        let h: i64 = hue_of(r, g, b, mx, d);
        (h, s, l)
    }
}

/// The hue sector computation shared by the HSL conversions.
fn hue_of(r: u8, g: u8, b: u8, mx: i64, d: i64) -> (h: i64)
    requires
        mx as int == max3(r as int, g as int, b as int),
        d as int == mx as int - min3(r as int, g as int, b as int),
        1 <= d <= 255,
    ensures
        h as int == rgb_h(r as int, g as int, b as int),
        0 <= h < 6000,
{
    proof {
        crate::num::lemma_tdiv_bounds((g as int - b as int) * 1000, d as int);
        crate::num::lemma_tdiv_bounds((b as int - r as int) * 1000, d as int);
        crate::num::lemma_tdiv_bounds((r as int - g as int) * 1000, d as int);
        lemma_chan_ratio(g as int, b as int, mx as int - d as int, mx as int, d as int);
        lemma_chan_ratio(b as int, r as int, mx as int - d as int, mx as int, d as int);
        lemma_chan_ratio(r as int, g as int, mx as int - d as int, mx as int, d as int);
    }
    if r >= g && r >= b {
        let t = tdiv64((g as i64 - b as i64) * 1000, d);
        if t < 0 {
            t + 6000
        } else {
            t
        }
    } else if g >= b {
        2000 + tdiv64((b as i64 - r as i64) * 1000, d)
    } else {
        4000 + tdiv64((r as i64 - g as i64) * 1000, d)
    }
}

/// The scaled difference of two channels that both lie between the pixel's
/// extremes stays within one hue sector.
proof fn lemma_chan_ratio(p: int, q: int, mn: int, mx: int, d: int)
    requires
        d == mx - mn,
        d >= 1,
        mn <= p <= mx,
        mn <= q <= mx,
    ensures
        -1000 <= tdiv((p - q) * 1000, d) <= 1000,
{
    assert((p - q) * 1000 <= d * 1000 && -(d * 1000) <= (p - q) * 1000) by (nonlinear_arith)
        requires
            -d <= p - q <= d,
    ;
    assert(d * 1000 / d == 1000) by {
        vstd::arithmetic::div_mod::lemma_div_multiples_vanish(1000, d);
        vstd::arithmetic::mul::lemma_mul_is_commutative(d, 1000);
    }
    if p - q >= 0 {
        vstd::arithmetic::div_mod::lemma_div_is_ordered((p - q) * 1000, d * 1000, d);
        crate::num::lemma_tdiv_bounds((p - q) * 1000, d);
    } else {
        vstd::arithmetic::div_mod::lemma_div_is_ordered(-((p - q) * 1000), d * 1000, d);
        crate::num::lemma_tdiv_bounds((p - q) * 1000, d);
        assert(-((p - q) * 1000) == (q - p) * 1000) by (nonlinear_arith);
    }
}

/// An HSL triple converted back to RGB channels.
pub fn hsl_to_rgb_x(h: i64, s: i64, l: i64) -> (t: (u8, u8, u8))
    requires
        0 <= h < 6000,
        0 <= s <= 1000,
        0 <= l <= 1000,
    ensures
        (t.0 as int, t.1 as int, t.2 as int) == hsl_to_rgb(h as int, s as int, l as int),
{
    let amp: i64 = 1000 - if 2 * l - 1000 < 0 {
        -(2 * l - 1000)
    } else {
        2 * l - 1000
    };
    assert(0 <= amp <= 1000);
    proof {
        crate::num::lemma_mul_le(amp as int, 1000, s as int, 1000);
        vstd::arithmetic::div_mod::lemma_div_pos_is_pos(amp as int * s as int, 1000);
        assert(amp as int * s as int <= amp as int * 1000) by (nonlinear_arith)
            requires
                0 <= amp as int,
                s as int <= 1000,
        ;
        vstd::arithmetic::div_mod::lemma_div_is_ordered(
            amp as int * s as int,
            amp as int * 1000,
            1000,
        );
        vstd::arithmetic::div_mod::lemma_div_by_multiple(amp as int, 1000);
    }
    let c: i64 = tdiv64(amp * s, 1000);
    assert(0 <= c <= amp);
    let hm: i64 = h - 2000 * tdiv64(h, 2000);
    proof {
        vstd::arithmetic::div_mod::lemma_fundamental_div_mod(h as int, 2000);
        vstd::arithmetic::div_mod::lemma_mod_division_less_than_divisor(h as int, 2000);
    }
    assert(hm as int == h as int % 2000);
    assert(0 <= hm < 2000);
    let xamp: i64 = 1000 - if hm - 1000 < 0 {
        -(hm - 1000)
    } else {
        hm - 1000
    };
    assert(0 <= xamp <= 1000);
    proof {
        crate::num::lemma_mul_le(c as int, 1000, xamp as int, 1000);
        vstd::arithmetic::div_mod::lemma_div_pos_is_pos(c as int * xamp as int, 1000);
        assert(c as int * xamp as int <= c as int * 1000) by (nonlinear_arith)
            requires
                0 <= c as int,
                xamp as int <= 1000,
        ;
        vstd::arithmetic::div_mod::lemma_div_is_ordered(
            c as int * xamp as int,
            c as int * 1000,
            1000,
        );
        vstd::arithmetic::div_mod::lemma_div_by_multiple(c as int, 1000);
    }
    let x: i64 = tdiv64(c * xamp, 1000);
    assert(0 <= x <= c);
    let m0: i64 = l - tdiv64(c, 2);
    proof {
        crate::num::lemma_tdiv_bounds(c as int, 2);
    }
    let sector: i64 = tdiv64(h, 1000);
    let rgb1: (i64, i64, i64) = if sector == 0 {
        (c, x, 0)
    } else if sector == 1 {
        (x, c, 0)
    } else if sector == 2 {
        (0, c, x)
    } else if sector == 3 {
        (0, x, c)
    } else if sector == 4 {
        (x, 0, c)
    } else {
        (c, 0, x)
    };
    let rr = chan_of(rgb1.0, m0);
    let gg = chan_of(rgb1.1, m0);
    let bb = chan_of(rgb1.2, m0);
    (rr, gg, bb)
}

/// One channel scaled from milli-units to the 8-bit range.
fn chan_of(v: i64, m0: i64) -> (r: u8)
    requires
        -1000 <= v + m0 <= 2000,
    ensures
        r as int == clamped((v as int + m0 as int) * 255 / 1000, 0, 255),
{
    let t = v + m0;
    if t <= 0 {
        proof {
            if t < 0 {
                vstd::arithmetic::div_mod::lemma_div_is_ordered(
                    t as int * 255,
                    0,
                    1000,
                );
                assert(t as int * 255 <= 0) by (nonlinear_arith)
                    requires
                        t as int <= 0,
                ;
            }
        }
        0
    } else {
        let q = tdiv64(t * 255, 1000);
        proof {
            crate::num::lemma_tdiv_bounds(t as int * 255, 1000);
        }
        clamp64(q, 0, 255) as u8
    }
}

} // verus!
