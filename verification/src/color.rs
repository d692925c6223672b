//! The HSL color model and its conversions to and from RGB and hex notation.
//!
//! Components are stored in hundredths: `h` is hundredths of a degree in
//! `[0, 36000)`, `s` and `l` are hundredths of a percentage point in
//! `[0, 10000]`. All conversions are exact integer arithmetic with
//! round-half-up division, so every result is reproducible bit for bit.

use vstd::prelude::*;

verus! {

/// A color in the HSL (hue, saturation, lightness) space.
///
/// `h` is hundredths of a degree (`0..36000`), `s` and `l` are hundredths of
/// a percentage point (`0..=10000`).
#[derive(Debug, Clone, Copy, PartialEq, Eq, Structural)]
pub struct HslColor {
    pub h: u32,
    pub s: u32,
    pub l: u32,
}

/// `a / b` rounded to the nearest integer, halves rounded up. Meaningful for
/// `a >= 0` and `b > 0`.
pub open spec fn rdiv(a: int, b: int) -> int {
    (2 * a + b) / (2 * b)
}

/// Rounded division on machine words; mirrors `rdiv`.
fn rdiv64(a: u64, b: u64) -> (r: u64)
    requires
        b > 0,
        2 * a + b <= u64::MAX,
        2 * b <= u64::MAX,
    ensures
        r == rdiv(a as int, b as int),
{
    (2 * a + b) / (2 * b)
}

impl HslColor {
    /// The representation invariant: hue reduced modulo a full turn,
    /// saturation and lightness within their percentage range.
    pub open spec fn wf(self) -> bool {
        self.h < 36000 && self.s <= 10000 && self.l <= 10000
    }

    /// Create a new `HslColor`. The hue is reduced modulo 360 degrees
    /// (negative-safe) and saturation and lightness are clamped to range.
    /// Arguments are in hundredths, like the stored components.
    pub fn new(h: i64, s: i64, l: i64) -> (c: HslColor)
        ensures
            c.wf(),
            c.h == spec_wrap_hue(h as int),
            c.s == spec_clamp_pct(s as int),
            c.l == spec_clamp_pct(l as int),
    {
        let hm: i64 = h % 36000;
        let hw: i64 = if hm < 0 {
            hm + 36000
        } else {
            hm
        };
        HslColor { h: hw as u32, s: clamp_pct(s), l: clamp_pct(l) }
    }
}

/// The `q` bound of the HSL-to-RGB formula, scaled by `10^8`.
pub open spec fn spec_q(s: int, l: int) -> int {
    if l < 5000 {
        l * (10000 + s)
    } else {
        (l + s) * 10000 - l * s
    }
}

/// The `p` bound of the HSL-to-RGB formula, scaled by `10^8`.
pub open spec fn spec_p(s: int, l: int) -> int {
    2 * l * 10000 - spec_q(s, l)
}

/// The red channel's hue offset, as a fraction of a turn scaled by 108000:
/// `h/360 + 1/3`, wrapped into `[0, 1)`.
pub open spec fn spec_tr(h: int) -> int {
    if 3 * h + 36000 >= 108000 {
        3 * h - 72000
    } else {
        3 * h + 36000
    }
}

/// The green channel's hue offset: `h/360`, scaled by 108000.
pub open spec fn spec_tg(h: int) -> int {
    3 * h
}

/// The blue channel's hue offset: `h/360 - 1/3`, wrapped into `[0, 1)` and
/// scaled by 108000.
pub open spec fn spec_tb(h: int) -> int {
    if 3 * h >= 36000 {
        3 * h - 36000
    } else {
        3 * h + 72000
    }
}

/// The piecewise channel value of the HSL-to-RGB formula. `p` and `q` are
/// scaled by `10^8`, `t` by `108000`; the result is scaled by
/// `10^8 * 108000`.
pub open spec fn spec_hue_channel(p: int, q: int, t: int) -> int {
    if t < 18000 {
        p * 108000 + (q - p) * 6 * t
    } else if t < 54000 {
        q * 108000
    } else if t < 72000 {
        p * 108000 + (q - p) * 6 * (72000 - t)
    } else {
        p * 108000
    }
}

/// One RGB channel of a chromatic color, in `0..=255`: the channel value
/// scaled to 255 and rounded to the nearest integer.
pub open spec fn spec_channel(s: int, l: int, t: int) -> int {
    rdiv(255 * spec_hue_channel(spec_p(s, l), spec_q(s, l), t), 10800000000000)
}

/// The RGB triple of an HSL color: the standard conversion, each channel
/// rounded to the nearest integer. A color with zero saturation is
/// achromatic: the same rounded lightness on all channels.
pub open spec fn spec_to_rgb(c: HslColor) -> (int, int, int) {
    if c.s == 0 {
        let v = rdiv(c.l * 255, 10000);
        (v, v, v)
    } else {
        (
            spec_channel(c.s as int, c.l as int, spec_tr(c.h as int)),
            spec_channel(c.s as int, c.l as int, spec_tg(c.h as int)),
            spec_channel(c.s as int, c.l as int, spec_tb(c.h as int)),
        )
    }
}

proof fn lemma_pq_bounds(s: int, l: int)
    requires
        0 <= s <= 10000,
        0 <= l <= 10000,
    ensures
        l * 10000 <= spec_q(s, l) <= 100000000,
        0 <= spec_p(s, l) <= l * 10000,
{
    if l < 5000 {
        assert(l * 10000 <= l * (10000 + s) <= 100000000 && 0 <= 2 * l * 10000 - l * (10000 + s)
            <= l * 10000) by (nonlinear_arith)
            requires
                0 <= s <= 10000,
                0 <= l < 5000,
        ;
    } else {
        assert(l * 10000 <= (l + s) * 10000 - l * s <= 100000000 && 0 <= 2 * l * 10000 - ((l + s)
            * 10000 - l * s) <= l * 10000) by (nonlinear_arith)
            requires
                0 <= s <= 10000,
                5000 <= l <= 10000,
        ;
    }
}

proof fn lemma_hue_channel_bounds(p: int, q: int, t: int)
    requires
        0 <= p <= q,
        q <= 100000000,
        0 <= t < 108000,
    ensures
        0 <= spec_hue_channel(p, q, t) <= 10800000000000,
{
    assert(0 <= spec_hue_channel(p, q, t) <= q * 108000) by (nonlinear_arith)
        requires
            0 <= p <= q,
            0 <= t < 108000,
    ;
    assert(q * 108000 <= 10800000000000) by (nonlinear_arith)
        requires
            q <= 100000000,
    ;
}

impl HslColor {
    /// Convert this HSL color to an `(r, g, b)` triple with each channel in
    /// `0..=255`, rounding each channel to the nearest integer.
    pub fn to_rgb(self) -> (rgb: (u8, u8, u8))
        requires
            self.wf(),
        ensures
            (rgb.0 as int, rgb.1 as int, rgb.2 as int) == spec_to_rgb(self),
    {
        if self.s == 0 {
            let v = rdiv64((self.l as u64) * 255, 10000);
            assert(rdiv(self.l as int * 255, 10000) <= 255) by (nonlinear_arith)
                requires
                    self.l <= 10000,
            ;
            return (v as u8, v as u8, v as u8);
        }
        let s64 = self.s as u64;
        let l64 = self.l as u64;
        proof {
            lemma_pq_bounds(s64 as int, l64 as int);
            assert(l64 * s64 <= (l64 + s64) * 10000 && l64 * (10000 + s64) <= 200000000 && (l64
                + s64) * 10000 <= 200000000) by (nonlinear_arith)
                requires
                    0 <= s64 <= 10000,
                    0 <= l64 <= 10000,
            ;
        }
        let q: u64 = if l64 < 5000 {
            l64 * (10000 + s64)
        } else {
            (l64 + s64) * 10000 - l64 * s64
        };
        let p: u64 = 2 * l64 * 10000 - q;
        let h3: u64 = 3 * (self.h as u64);
        let tr: u64 = if h3 + 36000 >= 108000 {
            h3 - 72000
        } else {
            h3 + 36000
        };
        let tg: u64 = h3;
        let tb: u64 = if h3 >= 36000 {
            h3 - 36000
        } else {
            h3 + 72000
        };
        let r = channel(p, q, tr);
        let g = channel(p, q, tg);
        let b = channel(p, q, tb);
        (r, g, b)
    }
}

/// One rounded RGB channel from the scaled `p`, `q` and hue offset `t`.
fn channel(p: u64, q: u64, t: u64) -> (r: u8)
    requires
        p <= q,
        q <= 100000000,
        t < 108000,
    ensures
        r as int == rdiv(255 * spec_hue_channel(p as int, q as int, t as int), 10800000000000),
{
    proof {
        lemma_hue_channel_bounds(p as int, q as int, t as int);
    }
    let num: u64 = if t < 18000 {
        p * 108000 + (q - p) * 6 * t
    } else if t < 54000 {
        q * 108000
    } else if t < 72000 {
        p * 108000 + (q - p) * 6 * (72000 - t)
    } else {
        p * 108000
    };
    assert(num == spec_hue_channel(p as int, q as int, t as int));
    let v = rdiv64(255 * num, 10800000000000);
    assert(rdiv(255 * num as int, 10800000000000) <= 255) by (nonlinear_arith)
        requires
            0 <= num <= 10800000000000,
    ;
    v as u8
}

/// `rdiv(a, b)` stays at or below `c` when the exact quotient does.
proof fn lemma_rdiv_le(a: int, b: int, c: int)
    requires
        b > 0,
        0 <= a,
        a <= c * b,
    ensures
        0 <= rdiv(a, b) <= c,
{
    vstd::arithmetic::div_mod::lemma_div_pos_is_pos(2 * a + b, 2 * b);
    assert(2 * a + b <= (2 * b) * c + b) by (nonlinear_arith)
        requires
            a <= c * b,
    ;
    vstd::arithmetic::div_mod::lemma_div_is_ordered(2 * a + b, (2 * b) * c + b, 2 * b);
    vstd::arithmetic::div_mod::lemma_div_multiples_vanish_fancy(c, b, 2 * b);
}

/// `rdiv(a, b)` stays strictly below `c` when `a/b` is below `c` by more
/// than half a unit.
proof fn lemma_rdiv_lt(a: int, b: int, c: int)
    requires
        b > 0,
        0 <= a,
        2 * a + b < 2 * b * c,
    ensures
        0 <= rdiv(a, b) < c,
{
    vstd::arithmetic::div_mod::lemma_div_pos_is_pos(2 * a + b, 2 * b);
    assert(2 * a + b <= (2 * b) * (c - 1) + (2 * b - 1)) by (nonlinear_arith)
        requires
            2 * a + b < 2 * b * c,
    ;
    vstd::arithmetic::div_mod::lemma_div_is_ordered(2 * a + b, (2 * b) * (c - 1) + (2 * b - 1), 2
        * b);
    vstd::arithmetic::div_mod::lemma_div_multiples_vanish_fancy(c - 1, 2 * b - 1, 2 * b);
}

/// The largest of three channel values.
pub open spec fn spec_max3(r: int, g: int, b: int) -> int {
    if r >= g && r >= b {
        r
    } else if g >= b {
        g
    } else {
        b
    }
}

/// The smallest of three channel values.
pub open spec fn spec_min3(r: int, g: int, b: int) -> int {
    if r <= g && r <= b {
        r
    } else if g <= b {
        g
    } else {
        b
    }
}

/// The hue of an RGB triple in hundredths of a degree, for a chromatic
/// triple (`max > min`). The branch follows whichever channel is largest,
/// ties resolved in the fixed order red, green, blue.
pub open spec fn spec_hue_from_rgb(r: int, g: int, b: int) -> int {
    let mx = spec_max3(r, g, b);
    let delta = mx - spec_min3(r, g, b);
    if r == mx {
        if g >= b {
            rdiv((g - b) * 6000, delta)
        } else {
            rdiv((g - b + 6 * delta) * 6000, delta)
        }
    } else if g == mx {
        rdiv((b - r + 2 * delta) * 6000, delta)
    } else {
        rdiv((r - g + 4 * delta) * 6000, delta)
    }
}

/// The HSL color of an RGB triple: the standard conversion, each component
/// rounded to the nearest hundredth. An achromatic triple (`max == min`)
/// has hue 0 and saturation 0.
pub open spec fn spec_from_rgb(r: int, g: int, b: int) -> HslColor {
    let mx = spec_max3(r, g, b);
    let mn = spec_min3(r, g, b);
    let sum = mx + mn;
    let delta = mx - mn;
    let l = rdiv(sum * 10000, 510);
    if delta == 0 {
        HslColor { h: 0, s: 0, l: l as u32 }
    } else {
        let s = if sum < 255 {
            rdiv(delta * 10000, sum)
        } else {
            rdiv(delta * 10000, 510 - sum)
        };
        HslColor { h: spec_hue_from_rgb(r, g, b) as u32, s: s as u32, l: l as u32 }
    }
}

fn max3(r: u64, g: u64, b: u64) -> (m: u64)
    ensures
        m == spec_max3(r as int, g as int, b as int),
{
    if r >= g && r >= b {
        r
    } else if g >= b {
        g
    } else {
        b
    }
}

fn min3(r: u64, g: u64, b: u64) -> (m: u64)
    ensures
        m == spec_min3(r as int, g as int, b as int),
{
    if r <= g && r <= b {
        r
    } else if g <= b {
        g
    } else {
        b
    }
}

impl HslColor {
    /// Create an `HslColor` from RGB channel values, rounding each HSL
    /// component to the nearest hundredth.
    pub fn from_rgb(r: u8, g: u8, b: u8) -> (c: HslColor)
        ensures
            c == spec_from_rgb(r as int, g as int, b as int),
            c.wf(),
    {
        let ri = r as u64;
        let gi = g as u64;
        let bi = b as u64;
        let mx = max3(ri, gi, bi);
        let mn = min3(ri, gi, bi);
        let sum = mx + mn;
        let delta = mx - mn;
        proof {
            lemma_rdiv_le(sum as int * 10000, 510, 10000);
        }
        let l = rdiv64(sum * 10000, 510);
        if delta == 0 {
            return HslColor { h: 0, s: 0, l: l as u32 };
        }
        let s = if sum < 255 {
            proof {
                lemma_rdiv_le(delta as int * 10000, sum as int, 10000);
            }
            rdiv64(delta * 10000, sum)
        } else {
            proof {
                lemma_rdiv_le(delta as int * 10000, 510 - sum as int, 10000);
            }
            rdiv64(delta * 10000, 510 - sum)
        };
        let h = if ri == mx {
            if gi >= bi {
                proof {
                    lemma_rdiv_le((gi - bi) as int * 6000, delta as int, 6000);
                }
                rdiv64((gi - bi) * 6000, delta)
            } else {
                proof {
                    lemma_rdiv_lt((6 * delta - (bi - gi)) as int * 6000, delta as int, 36000);
                }
                rdiv64((6 * delta - (bi - gi)) * 6000, delta)
            }
        } else if gi == mx {
            proof {
                lemma_rdiv_le((bi + 2 * delta - ri) as int * 6000, delta as int, 18000);
            }
            rdiv64((bi + 2 * delta - ri) * 6000, delta)
        } else {
            proof {
                lemma_rdiv_le((ri + 4 * delta - gi) as int * 6000, delta as int, 30000);
            }
            rdiv64((ri + 4 * delta - gi) * 6000, delta)
        };
        HslColor { h: h as u32, s: s as u32, l: l as u32 }
    }
}

/// `rdiv(a, b)` stays at or above `c` when the exact quotient rounds no
/// lower.
proof fn lemma_rdiv_ge(a: int, b: int, c: int)
    requires
        b > 0,
        2 * a + b >= 2 * b * c,
    ensures
        rdiv(a, b) >= c,
{
    vstd::arithmetic::div_mod::lemma_div_is_ordered((2 * b) * c, 2 * a + b, 2 * b);
    vstd::arithmetic::div_mod::lemma_div_multiples_vanish_fancy(c, 0, 2 * b);
}

/// `rdiv(a, b)` equals `c` exactly when `a` lies within half a unit of
/// `c * b`.
proof fn lemma_rdiv_exact(a: int, d: int, c: int)
    requires
        d > 0,
        2 * a + d >= 2 * d * c,
        2 * a + d < 2 * d * (c + 1),
    ensures
        rdiv(a, d) == c,
{
    let rr = 2 * a + d - 2 * d * c;
    assert(2 * a + d == (2 * d) * c + rr);
    assert(0 <= rr < 2 * d) by (nonlinear_arith)
        requires
            rr == 2 * a + d - 2 * d * c,
            2 * a + d >= 2 * d * c,
            2 * a + d < 2 * d * (c + 1),
            d > 0,
    ;
    vstd::arithmetic::div_mod::lemma_div_multiples_vanish_fancy(c, rr, 2 * d);
}

/// How far the reconstructed `q` and `p` of a round trip sit from the
/// exact maximum and minimum channels, scaled by `255`: within a few
/// millionths of the `10^8` channel scale.
#[verifier::rlimit(100)]
proof fn lemma_qp_err(r: int, g: int, b: int)
    requires
        0 <= r <= 255,
        0 <= g <= 255,
        0 <= b <= 255,
        spec_min3(r, g, b) < spec_max3(r, g, b),
    ensures
        ({
            let c = spec_from_rgb(r, g, b);
            let mx = spec_max3(r, g, b);
            let mn = spec_min3(r, g, b);
            let q = spec_q(c.s as int, c.l as int);
            let p = spec_p(c.s as int, c.l as int);
            &&& c.s as int == (if mx + mn < 255 {
                rdiv((mx - mn) * 10000, mx + mn)
            } else {
                rdiv((mx - mn) * 10000, 510 - mx - mn)
            })
            &&& c.l as int == rdiv((mx + mn) * 10000, 510)
            &&& 1 <= c.s as int <= 10000
            &&& (c.l < 5000 <==> mx + mn < 255)
            &&& -6000000 <= 255 * q - mx * 100000000 <= 6000000
            &&& -9000000 <= 255 * p - mn * 100000000 <= 9000000
        }),
{
    let mx = spec_max3(r, g, b);
    let mn = spec_min3(r, g, b);
    let sum = mx + mn;
    let d = mx - mn;
    let c = spec_from_rgb(r, g, b);
    let l = rdiv(sum * 10000, 510);
    lemma_rdiv_le(sum * 10000, 510, 10000);
    assert(c.l as int == l);
    let m = if sum < 255 { sum } else { 510 - sum };
    assert(1 <= m <= 509);
    let s = rdiv(d * 10000, m);
    assert(d * 10000 <= 10000 * m) by (nonlinear_arith)
        requires
            d <= m,
    ;
    lemma_rdiv_le(d * 10000, m, 10000);
    lemma_rdiv_ge(d * 10000, m, 1);
    assert(c.s as int == s);
    // The lightness branch of the forward conversion agrees with the
    // saturation branch chosen here: l < 5000 exactly when sum < 255.
    if sum < 255 {
        lemma_rdiv_lt(sum * 10000, 510, 5000);
    } else {
        lemma_rdiv_ge(sum * 10000, 510, 5000);
    }
    assert(c.l < 5000 <==> sum < 255);
    // Remainder forms of the two rounded divisions.
    vstd::arithmetic::div_mod::lemma_fundamental_div_mod(2 * (sum * 10000) + 510, 1020int);
    vstd::arithmetic::div_mod::lemma_mod_bound(2 * (sum * 10000) + 510, 1020int);
    let e1 = 1020 * l - 20000 * sum;
    assert(-510 < e1 <= 510);
    vstd::arithmetic::div_mod::lemma_fundamental_div_mod(2 * (d * 10000) + m, 2 * m);
    vstd::arithmetic::div_mod::lemma_mod_bound(2 * (d * 10000) + m, 2 * m);
    let e2 = 2 * m * s - 20000 * d;
    assert(-m < e2 <= m);
    let q = spec_q(s, l);
    let p = spec_p(s, l);
    let xq = 255 * q - mx * 100000000;
    if sum < 255 {
        assert(q == l * (10000 + s));
        assert(2040 * m * q == (20000 * sum + e1) * (20000 * sum + 20000 * d + e2))
            by (nonlinear_arith)
            requires
                m == sum,
                1020 * l == 20000 * sum + e1,
                2 * m * s == 20000 * d + e2,
                q == l * (10000 + s),
        ;
        assert((20000 * sum + e1) * (20000 * sum + 20000 * d + e2) == 800000000 * sum * mx + 20000
            * sum * e2 + e1 * (20000 * sum + 20000 * d + e2)) by (nonlinear_arith)
            requires
                sum == mx + mn,
                d == mx - mn,
        ;
        assert(-25500000 * sum <= 20000 * sum * e2 + e1 * (20000 * sum + 20000 * d + e2)
            <= 25500000 * sum) by (nonlinear_arith)
            requires
                -sum <= e2 <= sum,
                -510 <= e1 <= 510,
                0 <= d <= sum,
                1 <= sum <= 254,
        ;
        assert(8 * sum * xq == 2040 * sum * q - 800000000 * sum * mx) by (nonlinear_arith)
            requires
                xq == 255 * q - mx * 100000000,
        ;
        assert(-3200000 <= xq <= 3200000) by (nonlinear_arith)
            requires
                -25500000 * sum <= 8 * sum * xq <= 25500000 * sum,
                sum >= 1,
        ;
    } else {
        assert(q == (l + s) * 10000 - l * s);
        assert(2040 * m * q == 10000 * (2 * m * (20000 * sum + e1) + 1020 * (20000 * d + e2)) - (
        20000 * sum + e1) * (20000 * d + e2)) by (nonlinear_arith)
            requires
                1020 * l == 20000 * sum + e1,
                2 * m * s == 20000 * d + e2,
                q == (l + s) * 10000 - l * s,
        ;
        assert(10000 * (2 * m * (20000 * sum + e1) + 1020 * (20000 * d + e2)) - (20000 * sum + e1)
            * (20000 * d + e2) == 800000000 * m * mx + 20000 * m * e1 + 10200000 * e2 - 20000 * sum
            * e2 - 20000 * d * e1 - e1 * e2) by (nonlinear_arith)
            requires
                m == 510 - sum,
                sum == mx + mn,
                d == mx - mn,
        ;
        assert(-41000000 * m <= 20000 * m * e1 + 10200000 * e2 - 20000 * sum * e2 - 20000 * d * e1
            - e1 * e2 <= 41000000 * m) by (nonlinear_arith)
            requires
                -510 <= e1 <= 510,
                -m < e2 <= m,
                0 <= d <= m,
                255 <= sum <= 509,
                m == 510 - sum,
                1 <= m,
        ;
        assert(8 * m * xq == 2040 * m * q - 800000000 * m * mx) by (nonlinear_arith)
            requires
                xq == 255 * q - mx * 100000000,
        ;
        assert(-5200000 <= xq <= 5200000) by (nonlinear_arith)
            requires
                -41000000 * m <= 8 * m * xq <= 41000000 * m,
                m >= 1,
        ;
    }
    // p follows: 255 p = 10^8 sum + 5000 e1 - 255 q.
    assert(255 * p == 100000000 * sum + 5000 * e1 - 255 * q) by (nonlinear_arith)
        requires
            p == 2 * l * 10000 - q,
            1020 * l == 20000 * sum + e1,
    ;
}

/// A channel whose scaled value sits within half a rounding unit of an
/// exact channel value `c` rounds to exactly `c`.
proof fn lemma_channel_near(n: int, c: int)
    requires
        0 <= c,
        -5000000000000 < 255 * n - c * 10800000000000,
        255 * n - c * 10800000000000 < 5000000000000,
    ensures
        rdiv(255 * n, 10800000000000) == c,
{
    lemma_rdiv_exact(255 * n, 10800000000000, c);
}

/// In the flat stretch of the hue curve the channel is the reconstructed
/// maximum: for `t` between one sixth and one half of a turn the channel
/// value is `q`, and `q` rounds back to the exact maximum.
proof fn lemma_channel_q(s: int, l: int, t: int, mx: int)
    requires
        0 <= s <= 10000,
        0 <= l <= 10000,
        18000 <= t <= 54000,
        0 <= mx,
        -6000000 <= 255 * spec_q(s, l) - mx * 100000000 <= 6000000,
    ensures
        spec_channel(s, l, t) == mx,
{
    let q = spec_q(s, l);
    let p = spec_p(s, l);
    lemma_pq_bounds(s, l);
    let n = spec_hue_channel(p, q, t);
    if t < 54000 {
        assert(n == q * 108000);
    } else {
        assert(n == p * 108000 + (q - p) * 6 * 18000);
        assert(p * 108000 + (q - p) * 6 * 18000 == q * 108000) by (nonlinear_arith);
    }
    assert(-648000000000 <= 255 * n - mx * 10800000000000 <= 648000000000) by (nonlinear_arith)
        requires
            n == q * 108000,
            -6000000 <= 255 * q - mx * 100000000 <= 6000000,
    ;
    lemma_channel_near(n, mx);
}

/// In the other flat stretch the channel is the reconstructed minimum:
/// for `t` in the final third of a turn the channel value is `p`, and `p`
/// rounds back to the exact minimum.
proof fn lemma_channel_p(s: int, l: int, t: int, mn: int)
    requires
        0 <= s <= 10000,
        0 <= l <= 10000,
        72000 <= t < 108000,
        0 <= mn,
        -9000000 <= 255 * spec_p(s, l) - mn * 100000000 <= 9000000,
    ensures
        spec_channel(s, l, t) == mn,
{
    let p = spec_p(s, l);
    let n = spec_hue_channel(p, spec_q(s, l), t);
    assert(n == p * 108000);
    assert(-972000000000 <= 255 * n - mn * 10800000000000 <= 972000000000) by (nonlinear_arith)
        requires
            n == p * 108000,
            -9000000 <= 255 * p - mn * 100000000 <= 9000000,
    ;
    lemma_channel_near(n, mn);
}

/// On the sloped stretches of the hue curve the channel interpolates
/// between the reconstructed minimum and maximum, and the interpolation
/// recovers the middle channel exactly. `w` is the interpolation weight
/// (the hue branch's `6 t` or `6 (72000 - t)`), related to the target
/// channel through the rounding error of the stored hue.
proof fn lemma_channel_mid(s: int, l: int, t: int, dd: int, mn: int, c: int, w: int, e4: int)
    requires
        0 <= s <= 10000,
        0 <= l <= 10000,
        0 <= t < 108000,
        1 <= dd <= 255,
        0 <= mn,
        mn <= c <= mn + dd,
        w == (if t < 18000 {
            6 * t
        } else {
            6 * (72000 - t)
        }),
        t < 18000 || (54000 <= t < 72000),
        2 * dd * w == 216000 * (c - mn) + e4,
        -18 * dd <= e4 <= 18 * dd,
        -6000000 <= 255 * spec_q(s, l) - (mn + dd) * 100000000 <= 6000000,
        -9000000 <= 255 * spec_p(s, l) - mn * 100000000 <= 9000000,
    ensures
        spec_channel(s, l, t) == c,
{
    let q = spec_q(s, l);
    let p = spec_p(s, l);
    lemma_pq_bounds(s, l);
    let n = spec_hue_channel(p, q, t);
    assert(n == p * 108000 + (q - p) * w) by (nonlinear_arith)
        requires
            n == (if t < 18000 {
                p * 108000 + (q - p) * 6 * t
            } else {
                p * 108000 + (q - p) * 6 * (72000 - t)
            }),
            w == (if t < 18000 {
                6 * t
            } else {
                6 * (72000 - t)
            }),
    ;
    let ep = 255 * p - mn * 100000000;
    let ed = 255 * (q - p) - dd * 100000000;
    assert(-15000000 <= ed <= 15000000);
    let x = 255 * n - c * 10800000000000;
    let a255p = 255 * p;
    let b255d = 255 * (q - p);
    let w2 = 2 * dd * w;
    assert(255 * n == 108000 * a255p + w * b255d) by (nonlinear_arith)
        requires
            n == p * 108000 + (q - p) * w,
            a255p == 255 * p,
            b255d == 255 * (q - p),
    ;
    assert(2 * dd * (255 * n) == 216000 * dd * a255p + w2 * b255d) by (nonlinear_arith)
        requires
            255 * n == 108000 * a255p + w * b255d,
            w2 == 2 * dd * w,
    ;
    assert(216000 * dd * a255p + w2 * b255d == 2 * dd * (10800000000000 * c) + 216000 * dd * ep
        + 216000 * (c - mn) * ed + 100000000 * dd * e4 + ed * e4) by (nonlinear_arith)
        requires
            a255p == mn * 100000000 + ep,
            b255d == dd * 100000000 + ed,
            w2 == 216000 * (c - mn) + e4,
    ;
    assert(2 * dd * x == 216000 * dd * ep + 216000 * (c - mn) * ed + 100000000 * dd * e4 + ed
        * e4) by (nonlinear_arith)
        requires
            2 * dd * (255 * n) == 2 * dd * (10800000000000 * c) + 216000 * dd * ep + 216000 * (c
                - mn) * ed + 100000000 * dd * e4 + ed * e4,
            x == 255 * n - c * 10800000000000,
    ;
    assert(-6000000000000 * dd <= 2 * dd * x <= 6000000000000 * dd) by (nonlinear_arith)
        requires
            2 * dd * x == 216000 * dd * ep + 216000 * (c - mn) * ed + 100000000 * dd * e4 + ed
                * e4,
            -9000000 <= ep <= 9000000,
            -15000000 <= ed <= 15000000,
            0 <= c - mn <= dd,
            -18 * dd <= e4 <= 18 * dd,
            1 <= dd <= 255,
    ;
    assert(-4000000000000 < x < 4000000000000) by (nonlinear_arith)
        requires
            -6000000000000 * dd <= 2 * dd * x <= 6000000000000 * dd,
            dd >= 1,
    ;
    lemma_channel_near(n, c);
}

/// The signed rounding error of `rdiv`: at most half a divisor either
/// way.
proof fn lemma_rdiv_rem(a: int, b: int)
    requires
        b > 0,
        0 <= a,
    ensures
        -b < 2 * b * rdiv(a, b) - 2 * a <= b,
{
    vstd::arithmetic::div_mod::lemma_fundamental_div_mod(2 * a + b, 2 * b);
    vstd::arithmetic::div_mod::lemma_mod_bound(2 * a + b, 2 * b);
}

/// The round trip through HSL is exact on every RGB triple: converting
/// `(r, g, b)` to HSL with `spec_from_rgb` and back with `spec_to_rgb`
/// reproduces `(r, g, b)` bit for bit.
#[verifier::rlimit(100)]
pub proof fn lemma_rgb_round_trip(r: int, g: int, b: int)
    requires
        0 <= r <= 255,
        0 <= g <= 255,
        0 <= b <= 255,
    ensures
        spec_to_rgb(spec_from_rgb(r, g, b)) == (r, g, b),
{
    let mx = spec_max3(r, g, b);
    let mn = spec_min3(r, g, b);
    if mx == mn {
        assert(r == g && g == b);
        lemma_gray_round_trip(r);
        return;
    }
    let c = spec_from_rgb(r, g, b);
    lemma_qp_err(r, g, b);
    let d = mx - mn;
    let s = c.s as int;
    let l = c.l as int;
    let q = spec_q(s, l);
    let p = spec_p(s, l);
    let h = c.h as int;
    if r == mx {
        if g >= b {
            // Hue in the red-to-yellow sixth; the minimum is blue.
            assert(mn == b);
            lemma_rdiv_le((g - b) * 6000, d, 6000);
            assert(h == rdiv((g - b) * 6000, d));
            lemma_rdiv_rem((g - b) * 6000, d);
            let e3 = 2 * d * h - 12000 * (g - b);
            assert(-d < e3 <= d);
            assert(0 <= h <= 6000);
            // Red reads the flat maximum stretch.
            assert(spec_tr(h) == 3 * h + 36000);
            lemma_channel_q(s, l, 3 * h + 36000, mx);
            // Green interpolates up from the minimum.
            if 3 * h < 18000 {
                assert(2 * d * (6 * (3 * h)) == 216000 * (g - b) + 18 * e3) by (nonlinear_arith)
                    requires
                        e3 == 2 * d * h - 12000 * (g - b),
                ;
                lemma_channel_mid(s, l, 3 * h, d, mn, g, 6 * (3 * h), 18 * e3);
            } else {
                assert(h == 6000);
                assert(12000 * (d - (g - b)) == e3) by (nonlinear_arith)
                    requires
                        h == 6000,
                        e3 == 2 * d * h - 12000 * (g - b),
                ;
                assert(g - b == d);
                assert(g == mx);
                lemma_channel_q(s, l, 3 * h, mx);
            }
            // Blue reads the flat minimum stretch.
            assert(spec_tb(h) == 3 * h + 72000);
            lemma_channel_p(s, l, 3 * h + 72000, mn);
            assert(spec_to_rgb(c) == (r, g, b));
        } else {
            // Hue in the magenta-to-red sixth; the minimum is green.
            assert(mn == g);
            lemma_rdiv_le((g - b + 6 * d) * 6000, d, 36000);
            assert(h == rdiv((g - b + 6 * d) * 6000, d));
            lemma_rdiv_rem((g - b + 6 * d) * 6000, d);
            let e3 = 2 * d * h - 12000 * (g - b) - 72000 * d;
            assert(-d < e3 <= d);
            lemma_rdiv_ge((g - b + 6 * d) * 6000, d, 30000);
            lemma_rdiv_lt((g - b + 6 * d) * 6000, d, 36000);
            assert(30000 <= h < 36000);
            // Red reads the flat maximum stretch after wrapping.
            assert(spec_tr(h) == 3 * h - 72000);
            lemma_channel_q(s, l, 3 * h - 72000, mx);
            // Blue interpolates down toward the minimum.
            assert(spec_tb(h) == 3 * h - 36000);
            assert(54000 <= 3 * h - 36000 < 72000);
            assert(2 * d * (6 * (72000 - (3 * h - 36000))) == 216000 * (b - g) + (-18) * e3)
                by (nonlinear_arith)
                requires
                    e3 == 2 * d * h - 12000 * (g - b) - 72000 * d,
            ;
            lemma_channel_mid(s, l, 3 * h - 36000, d, mn, b, 6 * (72000 - (3 * h - 36000)), -18
                * e3);
            // Green reads the flat minimum stretch.
            assert(spec_tg(h) == 3 * h);
            assert(90000 <= 3 * h < 108000);
            lemma_channel_p(s, l, 3 * h, mn);
            assert(spec_to_rgb(c) == (r, g, b));
        }
    } else if g == mx {
        // Hue in the yellow-to-cyan third.
        assert(mn == (if r <= b {
            r
        } else {
            b
        }));
        lemma_rdiv_le((b - r + 2 * d) * 6000, d, 18000);
        assert(h == rdiv((b - r + 2 * d) * 6000, d));
        lemma_rdiv_rem((b - r + 2 * d) * 6000, d);
        let e3 = 2 * d * h - 12000 * (b - r) - 24000 * d;
        assert(-d < e3 <= d);
        lemma_rdiv_ge((b - r + 2 * d) * 6000, d, 6000);
        assert(6000 <= h <= 18000);
        // Green reads the flat maximum stretch.
        assert(spec_tg(h) == 3 * h);
        lemma_channel_q(s, l, 3 * h, mx);
        // Red: interpolating down, or flat at the minimum.
        assert(spec_tr(h) == 3 * h + 36000);
        if 3 * h + 36000 < 72000 {
            assert(12000 * (b - r) + e3 < 0) by (nonlinear_arith)
                requires
                    e3 == 2 * d * h - 12000 * (b - r) - 24000 * d,
                    h < 12000,
                    d >= 1,
            ;
            assert(b <= r);
            assert(mn == b);
            assert(2 * d * (6 * (72000 - (3 * h + 36000))) == 216000 * (r - b) + (-18) * e3)
                by (nonlinear_arith)
                requires
                    e3 == 2 * d * h - 12000 * (b - r) - 24000 * d,
            ;
            lemma_channel_mid(s, l, 3 * h + 36000, d, mn, r, 6 * (72000 - (3 * h + 36000)), -18
                * e3);
        } else {
            assert(12000 * (b - r) + e3 >= 0) by (nonlinear_arith)
                requires
                    e3 == 2 * d * h - 12000 * (b - r) - 24000 * d,
                    h >= 12000,
                    d >= 1,
            ;
            assert(r <= b);
            assert(mn == r);
            assert(72000 <= 3 * h + 36000 < 108000);
            lemma_channel_p(s, l, 3 * h + 36000, mn);
        }
        // Blue: interpolating up, flat at the minimum, or at the maximum
        // on a tie.
        if 3 * h >= 36000 {
            assert(spec_tb(h) == 3 * h - 36000);
            assert(12000 * (b - r) + e3 >= 0) by (nonlinear_arith)
                requires
                    e3 == 2 * d * h - 12000 * (b - r) - 24000 * d,
                    h >= 12000,
                    d >= 1,
            ;
            assert(r <= b);
            assert(mn == r);
            if 3 * h - 36000 < 18000 {
                assert(2 * d * (6 * (3 * h - 36000)) == 216000 * (b - r) + 18 * e3)
                    by (nonlinear_arith)
                    requires
                        e3 == 2 * d * h - 12000 * (b - r) - 24000 * d,
                ;
                lemma_channel_mid(s, l, 3 * h - 36000, d, mn, b, 6 * (3 * h - 36000), 18 * e3);
            } else {
                assert(h == 18000);
                assert(12000 * (d - (b - r)) == e3) by (nonlinear_arith)
                    requires
                        h == 18000,
                        e3 == 2 * d * h - 12000 * (b - r) - 24000 * d,
                ;
                assert(b - r == d);
                assert(b == mx);
                lemma_channel_q(s, l, 3 * h - 36000, mx);
            }
        } else {
            assert(spec_tb(h) == 3 * h + 72000);
            assert(12000 * (b - r) + e3 < 0) by (nonlinear_arith)
                requires
                    e3 == 2 * d * h - 12000 * (b - r) - 24000 * d,
                    h < 12000,
                    d >= 1,
            ;
            assert(b <= r);
            assert(mn == b);
            assert(90000 <= 3 * h + 72000 < 108000);
            lemma_channel_p(s, l, 3 * h + 72000, mn);
        }
        assert(spec_to_rgb(c) == (r, g, b));
    } else {
        // Hue in the cyan-to-magenta third.
        assert(b == mx);
        assert(r < mx && g < mx);
        assert(mn == (if r <= g {
            r
        } else {
            g
        }));
        lemma_rdiv_le((r - g + 4 * d) * 6000, d, 30000);
        assert(h == rdiv((r - g + 4 * d) * 6000, d));
        lemma_rdiv_rem((r - g + 4 * d) * 6000, d);
        let e3 = 2 * d * h - 12000 * (r - g) - 48000 * d;
        assert(-d < e3 <= d);
        lemma_rdiv_ge((r - g + 4 * d) * 6000, d, 18000);
        lemma_rdiv_lt((r - g + 4 * d) * 6000, d, 30000);
        assert(18000 <= h < 30000);
        // Blue reads the flat maximum stretch.
        assert(spec_tb(h) == 3 * h - 36000);
        lemma_channel_q(s, l, 3 * h - 36000, mx);
        // Red: interpolating up after wrapping, or flat at the minimum.
        if 3 * h + 36000 >= 108000 {
            assert(spec_tr(h) == 3 * h - 72000);
            assert(12000 * (r - g) + e3 >= 0) by (nonlinear_arith)
                requires
                    e3 == 2 * d * h - 12000 * (r - g) - 48000 * d,
                    h >= 24000,
                    d >= 1,
            ;
            assert(g <= r);
            assert(mn == g);
            assert(0 <= 3 * h - 72000 < 18000);
            assert(2 * d * (6 * (3 * h - 72000)) == 216000 * (r - g) + 18 * e3)
                by (nonlinear_arith)
                requires
                    e3 == 2 * d * h - 12000 * (r - g) - 48000 * d,
            ;
            lemma_channel_mid(s, l, 3 * h - 72000, d, mn, r, 6 * (3 * h - 72000), 18 * e3);
        } else {
            assert(spec_tr(h) == 3 * h + 36000);
            assert(12000 * (r - g) + e3 < 0) by (nonlinear_arith)
                requires
                    e3 == 2 * d * h - 12000 * (r - g) - 48000 * d,
                    h < 24000,
                    d >= 1,
            ;
            assert(r <= g);
            assert(mn == r);
            assert(90000 <= 3 * h + 36000 < 108000);
            lemma_channel_p(s, l, 3 * h + 36000, mn);
        }
        // Green: interpolating down, or flat at the minimum.
        assert(spec_tg(h) == 3 * h);
        if 3 * h < 72000 {
            assert(12000 * (r - g) + e3 < 0) by (nonlinear_arith)
                requires
                    e3 == 2 * d * h - 12000 * (r - g) - 48000 * d,
                    h < 24000,
                    d >= 1,
            ;
            assert(r <= g);
            assert(mn == r);
            assert(54000 <= 3 * h);
            assert(2 * d * (6 * (72000 - 3 * h)) == 216000 * (g - r) + (-18) * e3)
                by (nonlinear_arith)
                requires
                    e3 == 2 * d * h - 12000 * (r - g) - 48000 * d,
            ;
            lemma_channel_mid(s, l, 3 * h, d, mn, g, 6 * (72000 - 3 * h), -18 * e3);
        } else {
            assert(12000 * (r - g) + e3 >= 0) by (nonlinear_arith)
                requires
                    e3 == 2 * d * h - 12000 * (r - g) - 48000 * d,
                    h >= 24000,
                    d >= 1,
            ;
            assert(g <= r);
            assert(mn == g);
            assert(72000 <= 3 * h < 90000);
            lemma_channel_p(s, l, 3 * h, mn);
        }
        assert(spec_to_rgb(c) == (r, g, b));
    }
}

/// Every channel of `spec_to_rgb` lies in `0..=255`.
pub proof fn lemma_to_rgb_bounds(c: HslColor)
    requires
        c.wf(),
    ensures
        0 <= spec_to_rgb(c).0 <= 255,
        0 <= spec_to_rgb(c).1 <= 255,
        0 <= spec_to_rgb(c).2 <= 255,
{
    if c.s == 0 {
        lemma_rdiv_le(c.l as int * 255, 10000, 255);
    } else {
        let s = c.s as int;
        let l = c.l as int;
        lemma_pq_bounds(s, l);
        lemma_hue_channel_bounds(spec_p(s, l), spec_q(s, l), spec_tr(c.h as int));
        lemma_hue_channel_bounds(spec_p(s, l), spec_q(s, l), spec_tg(c.h as int));
        lemma_hue_channel_bounds(spec_p(s, l), spec_q(s, l), spec_tb(c.h as int));
        lemma_rdiv_le(255 * spec_hue_channel(spec_p(s, l), spec_q(s, l), spec_tr(c.h as int)),
            10800000000000, 255);
        lemma_rdiv_le(255 * spec_hue_channel(spec_p(s, l), spec_q(s, l), spec_tg(c.h as int)),
            10800000000000, 255);
        lemma_rdiv_le(255 * spec_hue_channel(spec_p(s, l), spec_q(s, l), spec_tb(c.h as int)),
            10800000000000, 255);
        assert(255 * spec_hue_channel(spec_p(s, l), spec_q(s, l), spec_tr(c.h as int)) <= 255
            * 10800000000000) by (nonlinear_arith)
            requires
                spec_hue_channel(spec_p(s, l), spec_q(s, l), spec_tr(c.h as int))
                    <= 10800000000000,
        ;
        assert(255 * spec_hue_channel(spec_p(s, l), spec_q(s, l), spec_tg(c.h as int)) <= 255
            * 10800000000000) by (nonlinear_arith)
            requires
                spec_hue_channel(spec_p(s, l), spec_q(s, l), spec_tg(c.h as int))
                    <= 10800000000000,
        ;
        assert(255 * spec_hue_channel(spec_p(s, l), spec_q(s, l), spec_tb(c.h as int)) <= 255
            * 10800000000000) by (nonlinear_arith)
            requires
                spec_hue_channel(spec_p(s, l), spec_q(s, l), spec_tb(c.h as int))
                    <= 10800000000000,
        ;
    }
}

/// A gray RGB value survives the trip through HSL and back: converting
/// `(v, v, v)` to HSL (hue 0, saturation 0, rounded lightness) and back to
/// RGB reproduces `(v, v, v)` exactly.
pub proof fn lemma_gray_round_trip(v: int)
    requires
        0 <= v <= 255,
    ensures
        spec_to_rgb(spec_from_rgb(v, v, v)) == (v, v, v),
{
    lemma_rdiv_le(20000 * v, 510, 10000);
    let l = rdiv(20000 * v, 510);
    assert(spec_from_rgb(v, v, v) == HslColor { h: 0, s: 0, l: l as u32 });
    // l = (40000v + 510) / 1020; write the dividend as 1020 * l + r.
    vstd::arithmetic::div_mod::lemma_fundamental_div_mod(40000 * v + 510, 1020);
    let r = (40000 * v + 510) % 1020;
    vstd::arithmetic::div_mod::lemma_mod_bound(40000 * v + 510, 1020);
    assert(40000 * v + 510 == 1020 * l + r);
    // The round back: rdiv(255 l, 10000) = (510 l + 10000) / 20000.
    assert(2 * (l * 255) + 10000 == 510 * l + 10000);
    assert(2 * (510 * l + 10000) == 40000 * v + 20510 - r);
    // r is even, so the halved remainder term is an integer in range.
    assert(r % 2 == 0) by {
        assert((1020 * l) % 2 == 0) by (nonlinear_arith);
        assert((40000 * v + 510) % 2 == 0) by (nonlinear_arith);
    }
    let b = (20510 - r) / 2;
    assert(510 * l + 10000 == 20000 * v + b);
    assert(0 <= b < 20000);
    vstd::arithmetic::div_mod::lemma_div_multiples_vanish_fancy(v, b, 20000);
    assert((20000 * v + b) / 20000 == v);
    assert(rdiv(l * 255, 10000) == v);
}

/// Every HSL color's RGB value survives the round trip: converting a
/// well-formed color to RGB, reading that triple back into HSL and
/// converting again reproduces the same RGB triple exactly.
pub proof fn lemma_hsl_round_trip(c: HslColor)
    requires
        c.wf(),
    ensures
        ({
            let rgb = spec_to_rgb(c);
            spec_to_rgb(spec_from_rgb(rgb.0, rgb.1, rgb.2)) == rgb
        }),
{
    lemma_to_rgb_bounds(c);
    lemma_rgb_round_trip(spec_to_rgb(c).0, spec_to_rgb(c).1, spec_to_rgb(c).2);
}

/// The lowercase hex digit for a value in `0..=15`.
pub open spec fn hex_char(d: int) -> char {
    if d == 0 {
        '0'
    } else if d == 1 {
        '1'
    } else if d == 2 {
        '2'
    } else if d == 3 {
        '3'
    } else if d == 4 {
        '4'
    } else if d == 5 {
        '5'
    } else if d == 6 {
        '6'
    } else if d == 7 {
        '7'
    } else if d == 8 {
        '8'
    } else if d == 9 {
        '9'
    } else if d == 10 {
        'a'
    } else if d == 11 {
        'b'
    } else if d == 12 {
        'c'
    } else if d == 13 {
        'd'
    } else if d == 14 {
        'e'
    } else {
        'f'
    }
}

/// A byte as two lowercase hex digits.
pub open spec fn spec_hex_byte(v: int) -> Seq<char> {
    seq![hex_char(v / 16), hex_char(v % 16)]
}

/// An RGB triple as `#rrggbb`, lowercase and zero-padded.
pub open spec fn spec_hex_color(rgb: (int, int, int)) -> Seq<char> {
    seq!['#'] + spec_hex_byte(rgb.0) + spec_hex_byte(rgb.1) + spec_hex_byte(rgb.2)
}

fn hex_digit_str(d: u8) -> (r: &'static str)
    requires
        d < 16,
    ensures
        r@ == seq![hex_char(d as int)],
{
    proof {
        reveal_strlit("0");
        reveal_strlit("1");
        reveal_strlit("2");
        reveal_strlit("3");
        reveal_strlit("4");
        reveal_strlit("5");
        reveal_strlit("6");
        reveal_strlit("7");
        reveal_strlit("8");
        reveal_strlit("9");
        reveal_strlit("a");
        reveal_strlit("b");
        reveal_strlit("c");
        reveal_strlit("d");
        reveal_strlit("e");
        reveal_strlit("f");
    }
    match d {
        0 => "0",
        1 => "1",
        2 => "2",
        3 => "3",
        4 => "4",
        5 => "5",
        6 => "6",
        7 => "7",
        8 => "8",
        9 => "9",
        10 => "a",
        11 => "b",
        12 => "c",
        13 => "d",
        14 => "e",
        _ => "f",
    }
}

/// Append the two hex digits of `v` to `out`.
fn push_hex_byte(out: &mut String, v: u8)
    ensures
        final(out)@ == old(out)@ + spec_hex_byte(v as int),
{
    out.append(hex_digit_str(v / 16));
    out.append(hex_digit_str(v % 16));
    assert(final(out)@ =~= old(out)@ + spec_hex_byte(v as int));
}

impl HslColor {
    /// Render this color as a `#rrggbb` hex string, lowercase and
    /// zero-padded.
    pub fn to_hex(self) -> (r: String)
        requires
            self.wf(),
        ensures
            r@ == spec_hex_color(spec_to_rgb(self)),
    {
        let (cr, cg, cb) = self.to_rgb();
        let mut out = String::from_str("#");
        proof {
            reveal_strlit("#");
        }
        push_hex_byte(&mut out, cr);
        push_hex_byte(&mut out, cg);
        push_hex_byte(&mut out, cb);
        assert(out@ =~= spec_hex_color(spec_to_rgb(self)));
        out
    }
}

/// Whether `c` is an ASCII hex digit, in either case.
pub open spec fn is_hex_digit(c: char) -> bool {
    (48 <= c as int && c as int <= 57) || (97 <= c as int && c as int <= 102) || (65 <= c as int
        && c as int <= 70)
}

/// The value of an ASCII hex digit, in either case.
pub open spec fn hex_val(c: char) -> int {
    if 48 <= c as int && c as int <= 57 {
        c as int - 48
    } else if 97 <= c as int && c as int <= 102 {
        c as int - 87
    } else {
        c as int - 55
    }
}

/// A hex color string with one leading `#` removed, if present.
pub open spec fn spec_hex_body(s: Seq<char>) -> Seq<char> {
    if s.len() >= 1 && s[0] == '#' {
        s.skip(1)
    } else {
        s
    }
}

/// Whether a (already `#`-stripped) string is exactly six hex digits.
pub open spec fn spec_valid_hex6(s: Seq<char>) -> bool {
    s.len() == 6 && (forall|i: int| 0 <= i < 6 ==> is_hex_digit(#[trigger] s[i]))
}

/// The RGB triple encoded by six hex digits.
pub open spec fn spec_hex_rgb(s: Seq<char>) -> (int, int, int) {
    (
        hex_val(s[0]) * 16 + hex_val(s[1]),
        hex_val(s[2]) * 16 + hex_val(s[3]),
        hex_val(s[4]) * 16 + hex_val(s[5]),
    )
}

fn hex_digit_val(c: char) -> (r: Option<u8>)
    ensures
        r is Some <==> is_hex_digit(c),
        r is Some ==> r->0 == hex_val(c) && r->0 < 16,
{
    let u = c as u32;
    if 48 <= u && u <= 57 {
        Some((u - 48) as u8)
    } else if 97 <= u && u <= 102 {
        Some((u - 87) as u8)
    } else if 65 <= u && u <= 70 {
        Some((u - 55) as u8)
    } else {
        None
    }
}

/// Parse a hex color string such as `#ff00aa` or `ff00aa` into an RGB
/// triple. One leading `#` is stripped; exactly six hex digits must remain,
/// otherwise nothing is returned.
pub fn parse_hex_rgb(s: &str) -> (r: Option<(u8, u8, u8)>)
    ensures
        r is Some <==> spec_valid_hex6(spec_hex_body(s@)),
        r is Some ==> ({
            let (a, b, c) = r->0;
            (a as int, b as int, c as int) == spec_hex_rgb(spec_hex_body(s@))
        }),
{
        let n = s.unicode_len();
        let start: usize = if n >= 1 && s.get_char(0) == '#' {
            1
        } else {
            0
        };
        let ghost body = spec_hex_body(s@);
        if n - start != 6 {
            return None;
        }
        assert(body.len() == 6);
        let d0 = hex_digit_val(s.get_char(start));
        let d1 = hex_digit_val(s.get_char(start + 1));
        let d2 = hex_digit_val(s.get_char(start + 2));
        let d3 = hex_digit_val(s.get_char(start + 3));
        let d4 = hex_digit_val(s.get_char(start + 4));
        let d5 = hex_digit_val(s.get_char(start + 5));
        proof {
            assert(body[0] == s@[start as int]);
            assert(body[1] == s@[start as int + 1]);
            assert(body[2] == s@[start as int + 2]);
            assert(body[3] == s@[start as int + 3]);
            assert(body[4] == s@[start as int + 4]);
            assert(body[5] == s@[start as int + 5]);
        }
        match (d0, d1, d2, d3, d4, d5) {
            (Some(v0), Some(v1), Some(v2), Some(v3), Some(v4), Some(v5)) => {
                assert(forall|i: int| 0 <= i < 6 ==> is_hex_digit(#[trigger] body[i]));
                Some((v0 * 16 + v1, v2 * 16 + v3, v4 * 16 + v5))
            },
            _ => None,
        }
}

impl HslColor {
    /// Parse a hex color string such as `#ff00aa` or `ff00aa`. One leading
    /// `#` is stripped; exactly six hex digits must remain, otherwise no
    /// color is returned.
    pub fn from_hex(s: &str) -> (r: Option<HslColor>)
        ensures
            r is Some <==> spec_valid_hex6(spec_hex_body(s@)),
            r is Some ==> {
                let rgb = spec_hex_rgb(spec_hex_body(s@));
                r->0 == spec_from_rgb(rgb.0, rgb.1, rgb.2) && r->0.wf()
            },
    {
        match parse_hex_rgb(s) {
            Some((r, g, b)) => Some(HslColor::from_rgb(r, g, b)),
            None => None,
        }
    }
}

/// The hue argument reduced into `[0, 36000)`, negative-safe.
pub open spec fn spec_wrap_hue(h: int) -> int {
    if h % 36000 < 0 {
        h % 36000 + 36000
    } else {
        h % 36000
    }
}

/// Saturation or lightness clamped into `[0, 10000]`.
pub open spec fn spec_clamp_pct(x: int) -> int {
    if x < 0 {
        0
    } else if x > 10000 {
        10000
    } else {
        x
    }
}

fn clamp_pct(x: i64) -> (r: u32)
    ensures
        r == spec_clamp_pct(x as int),
{
    if x < 0 {
        0
    } else if x > 10000 {
        10000
    } else {
        x as u32
    }
}

} // verus!

verus! {

/// The `#rrggbb` hex string of an HSL color.
pub open spec fn spec_color_hex(c: HslColor) -> Seq<char> {
    spec_hex_color(spec_to_rgb(c))
}

} // verus!
