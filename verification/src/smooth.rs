//! Smooth minimum: a blend of two heights that rounds the crease where a
//! plain minimum would switch from one to the other.

use vstd::prelude::*;
use crate::fixed::{
    greater, lemma_product_bound, lemma_trunc_between, lemma_trunc_div_bounds, lesser, magnitude,
    narrow, quotient, saturate, trunc_div, wide_limit, Fixed, RAW_MAX, RAW_MIN, SCALE,
};

verus! {

/// Blend weight of `b` in `smin(a, b, k)`, in raw units between zero and
/// one: `clamp(1/2 + (a - b) / 2k, 0, 1)`.
pub open spec fn blend_weight(a: int, b: int, k: int) -> int {
    let t = SCALE / 2 + trunc_div((a - b) * SCALE, 2 * k);
    if t < 0 {
        0
    } else if t > SCALE {
        SCALE as int
    } else {
        t
    }
}

/// The weighted mean `a * (1 - h) + b * h` for a weight `h` in raw units.
pub open spec fn blend_mix(a: int, b: int, h: int) -> int {
    trunc_div(a * (SCALE - h) + b * h, SCALE as int)
}

/// The rounding term `k * h * (1 - h)` for a weight `h` in raw units.
pub open spec fn blend_dip(k: int, h: int) -> int {
    trunc_div(k * (h * (SCALE - h)), SCALE * SCALE)
}

/// Raw value of `smin(a, b, k) = a(1 - h) + bh - kh(1 - h)` with
/// `h = clamp(1/2 + (a - b) / 2k, 0, 1)`, for `k != 0`.
pub open spec fn smin_raw(a: int, b: int, k: int) -> int {
    let h = blend_weight(a, b, k);
    saturate(blend_mix(a, b, h) - blend_dip(k, h))
}

/// A weighted mean lies between its two ends.
pub proof fn lemma_mix_between(a: int, b: int, h: int)
    requires
        0 <= h <= SCALE,
    ensures
        lesser(a, b) <= blend_mix(a, b, h) <= greater(a, b),
        h == 0 ==> blend_mix(a, b, h) == a,
        h == SCALE ==> blend_mix(a, b, h) == b,
{
    let s = SCALE as int;
    let w = a * (s - h) + b * h;
    let lo = lesser(a, b);
    let hi = greater(a, b);
    assert(lo * s <= w <= hi * s) by (nonlinear_arith)
        requires
            w == a * (s - h) + b * h,
            0 <= h <= s,
            lo <= a <= hi,
            lo <= b <= hi,
    ;
    lemma_trunc_between(w, s, lo, hi);
    if h == 0 {
        assert(w == a * s) by (nonlinear_arith)
            requires
                w == a * (s - h) + b * h,
                h == 0,
        ;
        lemma_trunc_between(w, s, a, a);
    }
    if h == s {
        assert(w == b * s) by (nonlinear_arith)
            requires
                w == a * (s - h) + b * h,
                h == s,
        ;
        lemma_trunc_between(w, s, b, b);
    }
}

/// The rounding term has the sign of `k` and at most a quarter of its size.
pub proof fn lemma_dip_bounds(k: int, h: int)
    requires
        0 <= h <= SCALE,
    ensures
        4 * magnitude(blend_dip(k, h)) <= magnitude(k),
        k >= 0 ==> blend_dip(k, h) >= 0,
        k <= 0 ==> blend_dip(k, h) <= 0,
        h == 0 || h == SCALE ==> blend_dip(k, h) == 0,
{
    let s = SCALE as int;
    let g = h * (s - h);
    let m = magnitude(k);
    assert(0 <= g && 4 * g <= s * s && (h == 0 || h == s ==> g == 0)) by (nonlinear_arith)
        requires
            g == h * (s - h),
            0 <= h <= s,
    ;
    lemma_trunc_div_bounds(k * g, s * s);
    assert(magnitude(k * g) == m * g) by (nonlinear_arith)
        requires
            g >= 0,
            m == magnitude(k),
    ;
    let q = (m * g) / (s * s);
    assert(4 * q <= m) by (nonlinear_arith)
        requires
            q == (m * g) / (s * s),
            s * s > 0,
            0 <= g,
            4 * g <= s * s,
            m >= 0,
    ;
    assert(k >= 0 ==> k * g >= 0) by (nonlinear_arith)
        requires
            g >= 0,
    ;
    assert(k <= 0 ==> k * g <= 0) by (nonlinear_arith)
        requires
            g >= 0,
    ;
    if g == 0 {
        assert(k * g == 0) by (nonlinear_arith)
            requires
                g == 0,
        ;
    }
}

/// Where the two arguments lie at least `|k|` apart the weight is zero or
/// one, the one that selects the smaller argument for positive `k` and the
/// larger for negative `k`.
pub proof fn lemma_weight_saturates(a: int, b: int, k: int)
    requires
        k != 0,
        magnitude(a - b) >= magnitude(k),
    ensures
        (a - b >= 0) == (k > 0) ==> blend_weight(a, b, k) == SCALE,
        (a - b >= 0) != (k > 0) ==> blend_weight(a, b, k) == 0,
{
    let s = SCALE as int;
    let n = (a - b) * s;
    let d = 2 * k;
    let m = magnitude(a - b);
    let e = magnitude(k);
    lemma_trunc_div_bounds(n, d);
    assert(magnitude(n) == m * s) by (nonlinear_arith)
        requires
            n == (a - b) * s,
            m == magnitude(a - b),
            s > 0,
    ;
    assert(magnitude(d) == 2 * e);
    let q = (m * s) / (2 * e);
    assert(2 * q >= s) by (nonlinear_arith)
        requires
            q == (m * s) / (2 * e),
            m >= e,
            e >= 1,
            s == 1_000_000_000,
    ;
    assert((a - b >= 0) == (n >= 0) || a - b == 0 || n == 0) by (nonlinear_arith)
        requires
            n == (a - b) * s,
            s > 0,
    ;
    if a - b == 0 {
        assert(false);
    }
    assert((a - b > 0) ==> n > 0) by (nonlinear_arith)
        requires
            n == (a - b) * s,
            s > 0,
    ;
    assert((a - b < 0) ==> n < 0) by (nonlinear_arith)
        requires
            n == (a - b) * s,
            s > 0,
    ;
}

/// Smooth minimum of `a` and `b` with rounding width `k`.
///
/// A positive `k` rounds the crease of `min(a, b)`; a negative `k` turns the
/// blend toward the larger argument.
pub fn smin(a: Fixed, b: Fixed, k: Fixed) -> (r: Fixed)
    requires
        k@ != 0,
    ensures
        r@ == smin_raw(a@, b@, k@),
        4 * r@ >= 4 * lesser(a@, b@) - magnitude(k@),
        k@ > 0 ==> r@ <= greater(a@, b@),
{
    proof {
        law_smin_lower_bound(a, b, k);
        if k@ > 0 {
            law_smin_upper_bound(a, b, k);
        }
    }
    let s: i128 = SCALE as i128;
    let gap: i128 = a.raw as i128 - b.raw as i128;
    proof {
        lemma_scaled_bound(gap as int);
    }
    let t: i128 = s / 2 + quotient(gap * s, 2 * (k.raw as i128));
    let h: i128 = if t < 0 {
        0
    } else if t > s {
        s
    } else {
        t
    };
    assert(h == blend_weight(a@, b@, k@));
    proof {
        lemma_weighted_bound(a@, s - h);
        lemma_weighted_bound(b@, h as int);
        lemma_dip_product_bound(k@, h as int);
        assert(SCALE * SCALE == 1_000_000_000_000_000_000int);
    }
    let mix: i128 = quotient(a.raw as i128 * (s - h) + b.raw as i128 * h, s);
    let dip: i128 = quotient(k.raw as i128 * (h * (s - h)), s * s);
    Fixed { raw: narrow(mix - dip) }
}

/// A difference of raw values times `SCALE` fits a wide intermediate.
pub proof fn lemma_scaled_bound(gap: int)
    requires
        -0x1_0000_0000_0000_0000 <= gap <= 0x1_0000_0000_0000_0000,
    ensures
        -0x4000_0000_0000_0000_0000_0000 <= gap * SCALE <= 0x4000_0000_0000_0000_0000_0000,
{
    assert(-0x4000_0000_0000_0000_0000_0000 <= gap * SCALE <= 0x4000_0000_0000_0000_0000_0000)
        by (nonlinear_arith)
        requires
            -0x1_0000_0000_0000_0000 <= gap <= 0x1_0000_0000_0000_0000,
            SCALE == 1_000_000_000,
    ;
}

/// A raw value times a weight of at most one fits a wide intermediate.
pub proof fn lemma_weighted_bound(a: int, w: int)
    requires
        RAW_MIN <= a <= RAW_MAX,
        0 <= w <= SCALE,
    ensures
        -0x2000_0000_0000_0000_0000_0000 <= a * w <= 0x2000_0000_0000_0000_0000_0000,
{
    assert(-0x2000_0000_0000_0000_0000_0000 <= a * w <= 0x2000_0000_0000_0000_0000_0000)
        by (nonlinear_arith)
        requires
            -0x8000_0000_0000_0000 <= a <= 0x7fff_ffff_ffff_ffff,
            0 <= w <= 1_000_000_000,
    ;
}

/// `k * h * (1 - h)` fits a wide intermediate.
pub proof fn lemma_dip_product_bound(k: int, h: int)
    requires
        RAW_MIN <= k <= RAW_MAX,
        0 <= h <= SCALE,
    ensures
        0 <= h * (SCALE - h) <= 1_000_000_000_000_000_000,
        -wide_limit() <= k * (h * (SCALE - h)) <= wide_limit(),
{
    let g = h * (SCALE - h);
    assert(0 <= g <= 1_000_000_000_000_000_000) by (nonlinear_arith)
        requires
            g == h * (SCALE - h),
            0 <= h <= SCALE,
            SCALE == 1_000_000_000,
    ;
    lemma_product_bound(k, g);
}

/// The smooth minimum never drops more than a quarter of `|k|` below the
/// smaller argument.
pub proof fn law_smin_lower_bound(a: Fixed, b: Fixed, k: Fixed)
    requires
        k@ != 0,
    ensures
        4 * smin_raw(a@, b@, k@) >= 4 * lesser(a@, b@) - magnitude(k@),
{
    let h = blend_weight(a@, b@, k@);
    lemma_mix_between(a@, b@, h);
    lemma_dip_bounds(k@, h);
}

/// The smooth minimum never exceeds the larger argument, for a positive
/// `k` and, for a negative `k`, wherever the arguments lie at least `|k|`
/// apart.
pub proof fn law_smin_upper_bound(a: Fixed, b: Fixed, k: Fixed)
    requires
        k@ != 0,
        k@ > 0 || magnitude(a@ - b@) >= magnitude(k@),
    ensures
        smin_raw(a@, b@, k@) <= greater(a@, b@),
{
    let h = blend_weight(a@, b@, k@);
    lemma_mix_between(a@, b@, h);
    lemma_dip_bounds(k@, h);
    if k@ < 0 {
        lemma_weight_saturates(a@, b@, k@);
    }
}

/// For any `k` other than zero, arguments at least `|k|` apart are outside
/// the rounded crease: the blend returns the smaller one for positive `k`
/// and the larger one for negative `k`, and so never exceeds the larger.
pub proof fn law_smin_outside_crease(a: Fixed, b: Fixed, k: Fixed)
    requires
        k@ != 0,
        magnitude(a@ - b@) >= magnitude(k@),
    ensures
        k@ > 0 ==> smin_raw(a@, b@, k@) == lesser(a@, b@),
        k@ < 0 ==> smin_raw(a@, b@, k@) == greater(a@, b@),
        smin_raw(a@, b@, k@) <= greater(a@, b@),
{
    let h = blend_weight(a@, b@, k@);
    lemma_weight_saturates(a@, b@, k@);
    lemma_mix_between(a@, b@, h);
    lemma_dip_bounds(k@, h);
}

/// For a negative `k` the blend turns toward the larger argument. It never
/// lies below its second argument by more than two billionths and half of
/// `|k|` billionths: `2 (r - b) > k - 4` in units of one.
pub proof fn law_smin_above_second(a: Fixed, b: Fixed, k: Fixed)
    requires
        k@ < 0,
    ensures
        2 * SCALE * (smin_raw(a@, b@, k@) - b@) > k@ - 4 * SCALE,
        smin_raw(a@, b@, k@) >= b@ - 2 - magnitude(k@) / (2 * SCALE),
{
    let s = SCALE as int;
    let big = -k@;
    let h = blend_weight(a@, b@, k@);
    let mix = blend_mix(a@, b@, h);
    let dip = blend_dip(k@, h);
    let r = smin_raw(a@, b@, k@);
    lemma_mix_between(a@, b@, h);
    lemma_dip_bounds(k@, h);
    if a@ >= b@ || h == s {
        assert(mix - dip >= b@);
        assert(r >= b@);
        assert(2 * s * (r - b@) >= 0) by (nonlinear_arith)
            requires
                r - b@ >= 0,
                s > 0,
        ;
    } else {
        let d = b@ - a@;
        let n = (a@ - b@) * s;
        assert(n == -(d * s) && d * s > 0) by (nonlinear_arith)
            requires
                n == (a@ - b@) * s,
                d == b@ - a@,
                d > 0,
                s > 0,
        ;
        let q = (d * s) / (2 * big);
        assert(trunc_div(n, 2 * k@) == q);
        assert(h == s / 2 + q);
        assert(2 * big * q <= d * s < 2 * big * q + 2 * big && q >= 0) by (nonlinear_arith)
            requires
                q == (d * s) / (2 * big),
                big > 0,
                d * s > 0,
        ;
        let rest = s - h;
        assert(0 < rest && 2 * rest <= s);
        // The weight is large enough for the rounding term to make up for
        // what the mean lies below the second argument.
        assert(2 * (big * h) > 2 * (d * s) - 2 * big) by (nonlinear_arith)
            requires
                h == s / 2 + q,
                s == 1_000_000_000,
                d * s < 2 * big * q + 2 * big,
                2 * q + 2 <= s,
                big > 0,
                d > 0,
        ;
        let g = h * rest;
        let area = big * g;
        let below = d * rest;
        assert(2 * area > 2 * (s * below) - big * s && area >= 0 && g >= 0) by (nonlinear_arith)
            requires
                area == big * g,
                g == h * rest,
                below == d * rest,
                2 * (big * h) > 2 * (d * s) - 2 * big,
                0 < rest,
                2 * rest <= s,
                big > 0,
                h >= 0,
                d > 0,
        ;
        assert(k@ * g == -area) by (nonlinear_arith)
            requires
                area == big * g,
                big == -k@,
        ;
        let e = area / (s * s);
        assert(s * s == 1_000_000_000_000_000_000);
        assert(dip == -e);
        assert(e * (s * s) > area - s * s) by (nonlinear_arith)
            requires
                e == area / (s * s),
                s * s > 0,
                area >= 0,
        ;
        let whole = a@ * (s - h) + b@ * h;
        assert(whole == b@ * s - below) by (nonlinear_arith)
            requires
                whole == a@ * (s - h) + b@ * h,
                below == d * rest,
                d == b@ - a@,
                rest == s - h,
        ;
        assert(mix * s > whole - s) by (nonlinear_arith)
            requires
                mix == trunc_div(whole, s),
                trunc_div(whole, s) == if whole >= 0 {
                    whole / s
                } else {
                    -((-whole) / s)
                },
                s > 0,
        ;
        let v = mix + e;
        assert(2 * s * (v - b@) > -big - 4 * s) by (nonlinear_arith)
            requires
                v == mix + e,
                mix * s > b@ * s - below - s,
                e * (s * s) > area - s * s,
                2 * area > 2 * (s * below) - big * s,
                s > 0,
        ;
        assert(r >= v || r >= b@);
        if r < v {
            assert(2 * s * (r - b@) >= 0) by (nonlinear_arith)
                requires
                    r - b@ >= 0,
                    s > 0,
            ;
        } else {
            assert(2 * s * (r - b@) >= 2 * s * (v - b@)) by (nonlinear_arith)
                requires
                    r >= v,
                    s > 0,
            ;
        }
    }
    let slack = magnitude(k@) / (2 * s);
    assert(r >= b@ - 2 - slack) by (nonlinear_arith)
        requires
            2 * s * (r - b@) > -big - 4 * s,
            slack == big / (2 * s),
            big > 0,
            s > 0,
    ;
}

} // verus!
