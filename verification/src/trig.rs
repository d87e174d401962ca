//! Sine and cosine.
//!
//! An angle is first wrapped into one turn and folded into the first
//! quarter turn. Of the two legs of the unit triangle, the shorter is the
//! Taylor polynomial of the sine, of degree fifteen, at an angle of at most
//! an eighth of a turn; the longer is what the shorter leaves of the unit
//! square, by a square root. So the two legs are never longer together than
//! one, and shorter by two billionths at most.

use vstd::prelude::*;
use vstd::arithmetic::div_mod::{lemma_fundamental_div_mod, lemma_fundamental_div_mod_converse};
use crate::fixed::{
    clamp_raw, lemma_mul_raw_monotone, magnitude, mul_raw, sub_raw, trunc_div, Fixed, SCALE,
};
use crate::roots::{
    floor_sqrt, isqrt, lemma_floor_sqrt_exists, lemma_floor_sqrt_is, lemma_floor_sqrt_monotone,
};

verus! {

/// Half a turn, in raw units.
pub const PI: i64 = 3_141_592_654;

/// A quarter turn, in raw units.
pub const HALF_PI: i64 = 1_570_796_327;

/// An eighth of a turn, in raw units.
pub const QUARTER_PI: i64 = 785_398_163;

/// A full turn, in raw units.
pub const TAU: i64 = 6_283_185_307;

/// Number of terms after the leading one in the sine polynomial.
pub const SINE_TERMS: u32 = 7;

/// The angle `x` brought into the half turn on either side of zero.
pub open spec fn wrap_angle(x: int) -> int {
    let r = x % (TAU as int);
    if r > PI {
        r - TAU
    } else {
        r
    }
}

/// A wrapped angle mirrored into the first quarter turn, where its sine and
/// cosine have the same magnitudes.
pub open spec fn fold_angle(r: int) -> int {
    if magnitude(r) > HALF_PI {
        PI - magnitude(r)
    } else {
        magnitude(r)
    }
}

/// The factor `1 - z/(2j(2j+1)) * (1 - z/((2j+2)(2j+3)) * (..))` of the sine
/// polynomial from its `j`-th term on, for `z` the square of the angle.
pub open spec fn sine_tail(z: int, j: nat) -> int
    decreases (SINE_TERMS + 1 - j) as nat,
{
    if j > SINE_TERMS || j == 0 {
        SCALE as int
    } else {
        sub_raw(
            SCALE as int,
            trunc_div(mul_raw(z, sine_tail(z, j + 1)), ((2 * j) * (2 * j + 1)) as int),
        )
    }
}

/// The sine polynomial at the angle `t`, held between zero and one.
pub open spec fn sine_series(t: int) -> int {
    clamp_raw(mul_raw(t, sine_tail(mul_raw(t, t), 1)), 0, SCALE as int)
}

/// The longer leg of the unit triangle with the shorter leg `m`: the square
/// root of `1 - m^2`, rounded down.
pub open spec fn other_leg(m: int) -> int {
    floor_sqrt(SCALE * SCALE - m * m)
}

/// Sine of an angle `a` of the first quarter turn.
pub open spec fn quadrant_sine(a: int) -> int {
    if a <= QUARTER_PI {
        sine_series(a)
    } else {
        other_leg(sine_series(HALF_PI - a))
    }
}

/// Cosine of an angle `a` of the first quarter turn.
pub open spec fn quadrant_cosine(a: int) -> int {
    if a <= QUARTER_PI {
        other_leg(sine_series(a))
    } else {
        sine_series(HALF_PI - a)
    }
}

/// Raw sine of an angle in raw radians.
pub open spec fn sin_raw(x: int) -> int {
    let r = wrap_angle(x);
    if r < 0 {
        -quadrant_sine(fold_angle(r))
    } else {
        quadrant_sine(fold_angle(r))
    }
}

/// Raw cosine of an angle in raw radians.
pub open spec fn cos_raw(x: int) -> int {
    let r = wrap_angle(x);
    if magnitude(r) > HALF_PI {
        -quadrant_cosine(fold_angle(r))
    } else {
        quadrant_cosine(fold_angle(r))
    }
}

/// The two legs of the unit triangle: the longer lies between zero and one,
/// and the squares of both make one, less two billionths at most.
pub proof fn lemma_legs(m: int)
    requires
        0 <= m <= SCALE,
    ensures
        0 <= other_leg(m) <= SCALE,
        SCALE * SCALE - 2 * SCALE <= m * m + other_leg(m) * other_leg(m) <= SCALE * SCALE,
        m == 0 ==> other_leg(m) == SCALE,
{
    let s = SCALE as int;
    let n = s * s - m * m;
    assert(0 <= n <= s * s) by (nonlinear_arith)
        requires
            0 <= m <= s,
            n == s * s - m * m,
    ;
    lemma_floor_sqrt_exists(n);
    let b = floor_sqrt(n);
    assert(b <= s) by (nonlinear_arith)
        requires
            b >= 0,
            s >= 0,
            b * b <= n,
            n <= s * s,
    ;
    assert((b + 1) * (b + 1) == b * b + 2 * b + 1) by (nonlinear_arith);
    if m == 0 {
        assert(m * m == 0) by (nonlinear_arith)
            requires
                m == 0,
        ;
        assert((s + 1) * (s + 1) > s * s) by (nonlinear_arith)
            requires
                s >= 0,
        ;
        lemma_floor_sqrt_is(n, s);
    }
}

/// Each factor of the sine polynomial lies between five sixths and one for
/// a square of at most one, and the whole factor lies between seven eighths
/// and one for a square of at most three quarters.
pub proof fn lemma_sine_tail_bounds(z: int, j: nat)
    requires
        0 <= z <= SCALE,
        j >= 1,
    ensures
        5 * SCALE <= 6 * sine_tail(z, j) <= 6 * SCALE,
        4 * z <= 3 * SCALE ==> 7 * SCALE <= 8 * sine_tail(z, j),
    decreases (SINE_TERMS + 1 - j) as nat,
{
    let s = SCALE as int;
    if j <= SINE_TERMS {
        lemma_sine_tail_bounds(z, j + 1);
        let inner = sine_tail(z, j + 1);
        lemma_mul_raw_monotone(z, inner, z, s);
        crate::fixed::lemma_mul_raw_one(z);
        let w = mul_raw(z, inner);
        let d = ((2 * j) * (2 * j + 1)) as int;
        assert(d >= 6) by (nonlinear_arith)
            requires
                j >= 1,
                d == (2 * j) * (2 * j + 1),
        ;
        assert(0 <= w / d && 6 * (w / d) <= w) by (nonlinear_arith)
            requires
                0 <= w,
                d >= 6,
        ;
    }
}

/// The sine polynomial at an angle `t` of at most an eighth of a turn lies
/// between zero and one, never above `t`, and never below `t - t^3/6`, less
/// one billionth.
pub proof fn lemma_sine_series_bounds(t: int)
    requires
        0 <= t <= QUARTER_PI,
    ensures
        0 <= sine_series(t) <= SCALE,
        sine_series(t) <= t,
        6 * (SCALE * SCALE) * sine_series(t) >= 6 * (SCALE * SCALE) * t - t * t * t - 6 * (SCALE
            * SCALE),
        sine_series(0) == 0,
{
    let s = SCALE as int;
    let z = mul_raw(t, t);
    assert(0 <= t * t <= 785_398_163 * 785_398_163) by (nonlinear_arith)
        requires
            0 <= t <= 785_398_163,
    ;
    assert(0 <= (t * t) / s && 4 * ((t * t) / s) <= 3 * s) by (nonlinear_arith)
        requires
            0 <= t * t <= 785_398_163 * 785_398_163,
            s == 1_000_000_000,
    ;
    lemma_sine_tail_bounds(z, 1);
    let tail = sine_tail(z, 1);
    assert(0 <= t * tail <= t * s && 8 * (t * tail) >= 7 * (t * s)) by (nonlinear_arith)
        requires
            0 <= t,
            7 * s <= 8 * tail,
            tail <= s,
            s > 0,
    ;
    let w = t * tail;
    assert(0 <= w / s <= t) by (nonlinear_arith)
        requires
            0 <= w <= t * s,
            s > 0,
    ;
    assert(0 * sine_tail(mul_raw(0, 0), 1) == 0) by (nonlinear_arith);
    // The first factor is at least 1 - z/6, and z is at most the square of t.
    let inner = sine_tail(z, 2);
    lemma_sine_tail_bounds(z, 2);
    lemma_mul_raw_monotone(z, inner, z, s);
    crate::fixed::lemma_mul_raw_one(z);
    let u = mul_raw(z, inner);
    assert(((2 * 1nat) * (2 * 1nat + 1)) as int == 6) by (nonlinear_arith);
    assert(tail == sub_raw(s, trunc_div(u, 6)));
    assert(6 * tail >= 6 * s - z);
    let m = sine_series(t);
    assert(m == w / s);
    assert(s * m >= w - s + 1) by (nonlinear_arith)
        requires
            m == w / s,
            s > 0,
            w >= 0,
    ;
    assert(s * z <= t * t) by (nonlinear_arith)
        requires
            z == (t * t) / s,
            s > 0,
            t * t >= 0,
    ;
    assert(6 * (s * s) * m >= 6 * (s * s) * t - t * t * t - 6 * (s * s)) by (nonlinear_arith)
        requires
            s * m >= w - s + 1,
            w == t * tail,
            6 * tail >= 6 * s - z,
            s * z <= t * t,
            0 <= t,
            s > 0,
    ;
}

/// One billionth more in the square changes no factor of the sine
/// polynomial by more than one billionth, and never upward.
pub proof fn lemma_sine_tail_step(z: int, j: nat)
    requires
        0 <= z,
        4 * (z + 1) <= 3 * SCALE,
        j >= 1,
    ensures
        sine_tail(z + 1, j) <= sine_tail(z, j) <= sine_tail(z + 1, j) + 1,
    decreases (SINE_TERMS + 1 - j) as nat,
{
    let s = SCALE as int;
    if j <= SINE_TERMS {
        lemma_sine_tail_step(z, j + 1);
        lemma_sine_inner_step(z, j);
        let u = mul_raw(z, sine_tail(z, j + 1));
        let v = mul_raw(z + 1, sine_tail(z + 1, j + 1));
        let d = ((2 * j) * (2 * j + 1)) as int;
        assert(d >= 6) by (nonlinear_arith)
            requires
                j >= 1,
                d == (2 * j) * (2 * j + 1),
        ;
        assert(u / d <= v / d <= u / d + 1) by (nonlinear_arith)
            requires
                0 <= u <= v,
                v <= u + 1,
                d >= 6,
        ;
        assert(0 <= u / d <= u && 0 <= v / d <= v) by (nonlinear_arith)
            requires
                0 <= u,
                0 <= v,
                d >= 6,
        ;
    }
}

/// One billionth more in the square raises the product under a factor of
/// the sine polynomial by one billionth at most, and never lowers it.
pub proof fn lemma_sine_inner_step(z: int, j: nat)
    requires
        0 <= z,
        4 * (z + 1) <= 3 * SCALE,
        j >= 1,
        sine_tail(z + 1, j + 1) <= sine_tail(z, j + 1) <= sine_tail(z + 1, j + 1) + 1,
    ensures
        0 <= mul_raw(z, sine_tail(z, j + 1)) <= mul_raw(z + 1, sine_tail(z + 1, j + 1))
            <= mul_raw(z, sine_tail(z, j + 1)) + 1,
        mul_raw(z + 1, sine_tail(z + 1, j + 1)) <= SCALE,
{
    let s = SCALE as int;
    let t = sine_tail(z, j + 1);
    let t1 = sine_tail(z + 1, j + 1);
    lemma_sine_tail_bounds(z, j + 1);
    lemma_sine_tail_bounds(z + 1, j + 1);
    lemma_mul_raw_monotone(z, t, z, s);
    lemma_mul_raw_monotone(z + 1, t1, z + 1, s);
    crate::fixed::lemma_mul_raw_one(z);
    crate::fixed::lemma_mul_raw_one(z + 1);
    let a = z * t;
    let b = (z + 1) * t1;
    assert(a <= b <= a + s && 0 <= a) by (nonlinear_arith)
        requires
            a == z * t,
            b == (z + 1) * t1,
            t1 <= t <= t1 + 1,
            5 * s <= 6 * t1,
            t1 <= s,
            0 <= z,
            4 * (z + 1) <= 3 * s,
            s > 0,
    ;
    assert(a / s <= b / s <= a / s + 1) by (nonlinear_arith)
        requires
            0 <= a <= b,
            b <= a + s,
            s > 0,
    ;
}

/// Up to two billionths more in the square lower the whole factor of the
/// sine polynomial by one billionth at most, and never raise it.
pub proof fn lemma_sine_tail_two_steps(z: int, more: int)
    requires
        0 <= z,
        0 <= more <= 2,
        4 * (z + more) <= 3 * SCALE,
    ensures
        sine_tail(z + more, 1) <= sine_tail(z, 1) <= sine_tail(z + more, 1) + 1,
{
    if more >= 1 {
        lemma_sine_tail_step(z, 2);
        lemma_sine_inner_step(z, 1);
        let u0 = mul_raw(z, sine_tail(z, 2));
        let u1 = mul_raw(z + 1, sine_tail(z + 1, 2));
        assert(((2 * 1nat) * (2 * 1nat + 1)) as int == 6) by (nonlinear_arith);
        if more == 2 {
            lemma_sine_tail_step(z + 1, 2);
            lemma_sine_inner_step(z + 1, 1);
        }
        let u2 = mul_raw(z + more, sine_tail(z + more, 2));
        assert(u0 / 6 <= u2 / 6 <= u0 / 6 + 1) by (nonlinear_arith)
            requires
                0 <= u0 <= u2,
                u2 <= u0 + 2,
        ;
        assert(0 <= u0 / 6 <= u0 && 0 <= u2 / 6 <= u2) by (nonlinear_arith)
            requires
                0 <= u0,
                0 <= u2,
        ;
    }
}

/// The sine polynomial never falls from one billionth of angle to the next,
/// up to an eighth of a turn.
pub proof fn lemma_sine_series_step(t: int)
    requires
        0 <= t < QUARTER_PI,
    ensures
        sine_series(t) <= sine_series(t + 1),
{
    let s = SCALE as int;
    let z = mul_raw(t, t);
    let z1 = mul_raw(t + 1, t + 1);
    let a = t * t;
    let b = (t + 1) * (t + 1);
    assert(0 <= a <= b && b <= a + 2 * s - 1 && b <= 785_398_163 * 785_398_163)
        by (nonlinear_arith)
        requires
            a == t * t,
            b == (t + 1) * (t + 1),
            0 <= t < 785_398_163,
            s == 1_000_000_000,
    ;
    assert(a / s <= b / s <= a / s + 2 && 4 * (b / s) <= 3 * s && 0 <= a / s) by (nonlinear_arith)
        requires
            0 <= a <= b,
            b <= a + 2 * s - 1,
            b <= 785_398_163 * 785_398_163,
            s == 1_000_000_000,
    ;
    assert(z == a / s && z1 == b / s);
    lemma_sine_tail_two_steps(z, z1 - z);
    lemma_sine_tail_bounds(z, 1);
    lemma_sine_tail_bounds(z1, 1);
    let tail = sine_tail(z, 1);
    let tail1 = sine_tail(z1, 1);
    let w = t * tail;
    let w1 = (t + 1) * tail1;
    assert(0 <= w <= w1) by (nonlinear_arith)
        requires
            w == t * tail,
            w1 == (t + 1) * tail1,
            tail1 <= tail <= tail1 + 1,
            7 * s <= 8 * tail1,
            0 <= t < 785_398_163,
            s == 1_000_000_000,
    ;
    assert(w / s <= w1 / s && 0 <= w / s) by (nonlinear_arith)
        requires
            0 <= w <= w1,
            s > 0,
    ;
    lemma_sine_series_bounds(t);
    lemma_sine_series_bounds(t + 1);
    assert(w <= t * s && w1 <= (t + 1) * s) by (nonlinear_arith)
        requires
            w == t * tail,
            w1 == (t + 1) * tail1,
            tail <= s,
            tail1 <= s,
            0 <= t,
    ;
}

/// The sine polynomial rises with its angle, up to an eighth of a turn.
pub proof fn lemma_sine_series_rises(t1: int, t2: int)
    requires
        0 <= t1 <= t2 <= QUARTER_PI,
    ensures
        sine_series(t1) <= sine_series(t2),
    decreases t2 - t1,
{
    if t1 < t2 {
        lemma_sine_series_rises(t1, t2 - 1);
        lemma_sine_series_step(t2 - 1);
    }
}

/// The longer leg shortens as the shorter leg grows.
pub proof fn lemma_other_leg_falls(m1: int, m2: int)
    requires
        0 <= m1 <= m2 <= SCALE,
    ensures
        other_leg(m1) >= other_leg(m2),
{
    let s = SCALE as int;
    assert(0 <= s * s - m2 * m2 <= s * s - m1 * m1) by (nonlinear_arith)
        requires
            0 <= m1 <= m2 <= s,
    ;
    lemma_floor_sqrt_monotone(s * s - m2 * m2, s * s - m1 * m1);
}

/// At an eighth of a turn the two legs meet: the sine polynomial there is
/// no longer than the leg it leaves.
pub proof fn lemma_legs_meet()
    ensures
        sine_series(QUARTER_PI as int) == 707_106_781,
        other_leg(707_106_781) >= 707_106_781,
{
    let t = QUARTER_PI as int;
    let z = 616_850_274int;
    assert(t * t == 616_850_274_443_774_569) by (nonlinear_arith)
        requires
            t == 785_398_163,
    ;
    assert(mul_raw(t, t) == z);
    assert(sine_tail(z, 8) == SCALE);
    assert(mul_raw(z, 1_000_000_000) == 616_850_274);
    assert(trunc_div(616_850_274, 210) == 2_937_382);
    assert(((2 * 7nat) * (2 * 7nat + 1)) as int == 210) by (nonlinear_arith);
    assert(sine_tail(z, 7) == 997_062_618);
    assert(mul_raw(z, 997_062_618) == 615_038_349);
    assert(trunc_div(615_038_349, 156) == 3_942_553);
    assert(((2 * 6nat) * (2 * 6nat + 1)) as int == 156) by (nonlinear_arith);
    assert(sine_tail(z, 6) == 996_057_447);
    assert(mul_raw(z, 996_057_447) == 614_418_309);
    assert(trunc_div(614_418_309, 110) == 5_585_620);
    assert(((2 * 5nat) * (2 * 5nat + 1)) as int == 110) by (nonlinear_arith);
    assert(sine_tail(z, 5) == 994_414_380);
    assert(mul_raw(z, 994_414_380) == 613_404_782);
    assert(trunc_div(613_404_782, 72) == 8_519_510);
    assert(((2 * 4nat) * (2 * 4nat + 1)) as int == 72) by (nonlinear_arith);
    assert(sine_tail(z, 4) == 991_480_490);
    assert(mul_raw(z, 991_480_490) == 611_595_011);
    assert(trunc_div(611_595_011, 42) == 14_561_785);
    assert(((2 * 3nat) * (2 * 3nat + 1)) as int == 42) by (nonlinear_arith);
    assert(sine_tail(z, 3) == 985_438_215);
    assert(mul_raw(z, 985_438_215) == 607_867_832);
    assert(trunc_div(607_867_832, 20) == 30_393_391);
    assert(((2 * 2nat) * (2 * 2nat + 1)) as int == 20) by (nonlinear_arith);
    assert(sine_tail(z, 2) == 969_606_609);
    assert(mul_raw(z, 969_606_609) == 598_102_102);
    assert(trunc_div(598_102_102, 6) == 99_683_683);
    assert(((2 * 1nat) * (2 * 1nat + 1)) as int == 6) by (nonlinear_arith);
    assert(sine_tail(z, 1) == 900_316_317);
    let tail = 900_316_317int;
    assert(t * tail == 707_106_781_490_725_671) by (nonlinear_arith)
        requires
            t == 785_398_163,
            tail == 900_316_317,
    ;
    assert(mul_raw(t, tail) == 707_106_781);
    let m = 707_106_781int;
    let n = 500_000_000_263_818_039int;
    assert(m * m == 499_999_999_736_181_961 && (m + 1) * (m + 1) == 500_000_001_150_395_524)
        by (nonlinear_arith)
        requires
            m == 707_106_781,
    ;
    assert(SCALE * SCALE - m * m == n);
    lemma_floor_sqrt_is(n, m);
}

/// The sine of the first quarter turn rises with its angle, from zero.
pub proof fn lemma_quadrant_sine_rises(a1: int, a2: int)
    requires
        0 <= a1 <= a2 <= HALF_PI,
    ensures
        0 <= quadrant_sine(a1) <= quadrant_sine(a2),
{
    let q = QUARTER_PI as int;
    lemma_legs_meet();
    if a2 <= q {
        lemma_sine_series_rises(a1, a2);
        lemma_sine_series_bounds(a1);
    } else {
        let t2 = HALF_PI - a2;
        lemma_sine_series_bounds(t2);
        lemma_sine_series_rises(t2, q);
        lemma_legs(sine_series(t2));
        if a1 <= q {
            lemma_sine_series_bounds(a1);
            lemma_sine_series_rises(a1, q);
            lemma_other_leg_falls(sine_series(t2), sine_series(q));
        } else {
            let t1 = HALF_PI - a1;
            lemma_sine_series_bounds(t1);
            lemma_sine_series_rises(t2, t1);
            lemma_legs(sine_series(t1));
            lemma_other_leg_falls(sine_series(t2), sine_series(t1));
        }
    }
}

/// The sine rises over the quarter turn on either side of zero.
pub proof fn law_sine_rises(x1: int, x2: int)
    requires
        -HALF_PI <= x1 <= x2 <= HALF_PI,
    ensures
        sin_raw(x1) <= sin_raw(x2),
{
    lemma_plain_angle(x1);
    lemma_plain_angle(x2);
    if x1 >= 0 {
        lemma_quadrant_sine_rises(x1, x2);
    } else if x2 < 0 {
        lemma_quadrant_sine_rises(-x2, -x1);
    } else {
        lemma_quadrant_sine_rises(0, -x1);
        lemma_quadrant_sine_rises(0, x2);
    }
}

/// Within the quarter turn on either side of zero the sine of the opposite
/// angle is the opposite sine.
pub proof fn law_sine_is_odd(x: int)
    requires
        -HALF_PI <= x <= HALF_PI,
    ensures
        sin_raw(-x) == -sin_raw(x),
{
    lemma_plain_angle(x);
    lemma_plain_angle(-x);
    lemma_sine_series_bounds(0);
}

/// An angle within the quarter turn on either side of zero is its own
/// wrapped angle, and folds to its magnitude.
pub proof fn lemma_plain_angle(x: int)
    requires
        -HALF_PI <= x <= HALF_PI,
    ensures
        wrap_angle(x) == x,
        fold_angle(x) == magnitude(x),
{
    let tau = TAU as int;
    if x >= 0 {
        assert(x % tau == x);
    } else {
        assert(x % tau == x + tau) by {
            lemma_fundamental_div_mod_converse(x, tau, -1, x + tau);
        }
    }
}

/// The square of the sine and the square of the cosine make one, less two
/// billionths at most, and neither exceeds one in magnitude.
pub proof fn law_unit_circle(x: int)
    ensures
        -SCALE <= sin_raw(x) <= SCALE,
        -SCALE <= cos_raw(x) <= SCALE,
        SCALE * SCALE - 2 * SCALE <= sin_raw(x) * sin_raw(x) + cos_raw(x) * cos_raw(x) <= SCALE
            * SCALE,
{
    let r = wrap_angle(x);
    let a = fold_angle(r);
    assert(0 <= a <= HALF_PI);
    let t = if a <= QUARTER_PI {
        a
    } else {
        HALF_PI - a
    };
    lemma_sine_series_bounds(t);
    let m = sine_series(t);
    lemma_legs(m);
    let b = other_leg(m);
    let sn = sin_raw(x);
    let cs = cos_raw(x);
    assert(sn * sn + cs * cs == m * m + b * b) by (nonlinear_arith)
        requires
            (sn == m || sn == -m) && (cs == b || cs == -b) || (sn == b || sn == -b) && (cs == m
                || cs == -m),
    ;
}

/// Sines and cosines lie in the unit interval.
pub proof fn lemma_sin_bounds(x: int)
    ensures
        -SCALE <= sin_raw(x) <= SCALE,
        -SCALE <= cos_raw(x) <= SCALE,
{
    law_unit_circle(x);
}

/// The landmarks of sine and cosine: the sine of zero and the cosine of a
/// quarter turn are zero, the sine of a quarter turn and the cosine of zero
/// are one, the sine of a quarter turn back is minus one, and the cosine of
/// half a turn is minus one.
pub proof fn law_sine_landmarks()
    ensures
        sin_raw(0) == 0,
        cos_raw(HALF_PI as int) == 0,
        sin_raw(HALF_PI as int) == SCALE,
        cos_raw(0) == SCALE,
        sin_raw(-HALF_PI) == -SCALE,
        cos_raw(PI as int) == -SCALE,
{
    let q = HALF_PI as int;
    lemma_sine_series_bounds(0);
    lemma_legs(0);
    assert(0int % (TAU as int) == 0);
    assert(q % (TAU as int) == q);
    assert((-q) % (TAU as int) == TAU - q);
    assert((2 * q) % (TAU as int) == 2 * q);
}

/// Within a gap `g` of at most one half from the quarter turn on either
/// side of zero, the cosine stays above `g - g^3/6`, less one billionth: no
/// such angle comes closer to the pole than that.
pub proof fn law_cosine_clear_of_the_pole(x: int, gap: int)
    requires
        0 <= gap <= SCALE / 2,
        magnitude(x) <= HALF_PI - gap,
    ensures
        6 * (SCALE * SCALE) * cos_raw(x) >= 6 * (SCALE * SCALE) * gap - gap * gap * gap - 6 * (
        SCALE * SCALE),
        cos_raw(x) >= 0,
        sin_raw(x) * sin_raw(x) + cos_raw(x) * cos_raw(x) <= SCALE * SCALE,
{
    let s = SCALE as int;
    let tau = TAU as int;
    law_unit_circle(x);
    if x >= 0 {
        assert(x % tau == x);
    } else {
        assert(x % tau == x + tau) by {
            lemma_fundamental_div_mod_converse(x, tau, -1, x + tau);
        }
    }
    assert(wrap_angle(x) == x);
    let a = magnitude(x);
    assert(fold_angle(x) == a);
    if a <= QUARTER_PI {
        lemma_sine_series_bounds(a);
        let m = sine_series(a);
        lemma_legs(m);
        let b = other_leg(m);
        assert(2 * b >= s) by (nonlinear_arith)
            requires
                0 <= m <= 785_398_163,
                0 <= b,
                s * s - 2 * s <= m * m + b * b,
                s == 1_000_000_000,
        ;
        assert(6 * (s * s) * b >= 6 * (s * s) * gap - gap * gap * gap - 6 * (s * s))
            by (nonlinear_arith)
            requires
                2 * b >= s,
                0 <= 2 * gap <= s,
                s > 0,
        ;
    } else {
        let t = HALF_PI - a;
        lemma_sine_series_bounds(t);
        lemma_legs(sine_series(t));
        // t - t^3/6 rises over the eighth of a turn.
        assert(6 * (s * s) * t - t * t * t >= 6 * (s * s) * gap - gap * gap * gap)
            by (nonlinear_arith)
            requires
                0 <= gap <= t,
                t <= 785_398_163,
                s == 1_000_000_000,
        ;
    }
}

/// The remainder of `x` by a full turn, between zero and a turn.
fn turn_remainder(x: i64) -> (r: i64)
    ensures
        r == (x as int) % (TAU as int),
        0 <= r < TAU,
{
    if x >= 0 {
        x % TAU
    } else {
        let m: i128 = (-(x as i128)) % (TAU as i128);
        proof {
            let t = TAU as int;
            let xi = x as int;
            let q = (-xi) / t;
            lemma_fundamental_div_mod(-xi, t);
            if m == 0 {
                assert(xi == (-q) * t + 0) by (nonlinear_arith)
                    requires
                        -xi == t * q + m,
                        m == 0,
                ;
                lemma_fundamental_div_mod_converse(xi, t, -q, 0);
            } else {
                assert(xi == (-q - 1) * t + (t - m)) by (nonlinear_arith)
                    requires
                        -xi == t * q + m,
                ;
                lemma_fundamental_div_mod_converse(xi, t, -q - 1, t - m);
            }
        }
        if m == 0 {
            0
        } else {
            (TAU as i128 - m) as i64
        }
    }
}

/// The sine polynomial factor from its `j`-th term on.
fn sine_tail_from(z: Fixed, j: u32) -> (r: Fixed)
    requires
        1 <= j <= SINE_TERMS + 1,
    ensures
        r@ == sine_tail(z@, j as nat),
    decreases SINE_TERMS + 1 - j,
{
    if j > SINE_TERMS {
        Fixed::one()
    } else {
        let inner = sine_tail_from(z, j + 1);
        assert(6 <= (2 * j) * (2 * j + 1) <= 210) by (nonlinear_arith)
            requires
                1 <= j <= 7,
        ;
        let step: i64 = (2 * j as i64) * (2 * j as i64 + 1);
        let term: i64 = z.mul(inner).raw() / step;
        Fixed::one().sub(Fixed::from_raw(term))
    }
}

/// The sine polynomial at `t`, held between zero and one.
fn sine_series_of(t: Fixed) -> (m: Fixed)
    ensures
        m@ == sine_series(t@),
        0 <= m@ <= SCALE,
{
    let value = t.mul(sine_tail_from(t.mul(t), 1));
    value.clamp(Fixed::zero(), Fixed::one())
}

/// The longer leg of the unit triangle with the shorter leg `m`.
fn other_leg_of(m: Fixed) -> (b: Fixed)
    requires
        0 <= m@ <= SCALE,
    ensures
        b@ == other_leg(m@),
        0 <= b@ <= SCALE,
{
    proof {
        lemma_legs(m@);
        assert(0 <= m@ * m@ <= SCALE * SCALE) by (nonlinear_arith)
            requires
                0 <= m@ <= SCALE,
        ;
        assert(SCALE * SCALE == 1_000_000_000_000_000_000int);
    }
    let one: u128 = 1_000_000_000_000_000_000;
    let square: u128 = (m.raw as u128) * (m.raw as u128);
    Fixed::from_raw(isqrt(one - square) as i64)
}

impl Fixed {
    /// Sine and cosine of an angle in radians, in that order.
    pub fn sin_cos(self) -> (r: (Fixed, Fixed))
        ensures
            r.0@ == sin_raw(self@),
            r.1@ == cos_raw(self@),
            -SCALE <= r.0@ <= SCALE,
            -SCALE <= r.1@ <= SCALE,
            SCALE * SCALE - 2 * SCALE <= r.0@ * r.0@ + r.1@ * r.1@ <= SCALE * SCALE,
    {
        proof {
            law_unit_circle(self@);
        }
        let turn = turn_remainder(self.raw);
        let wrapped: i64 = if turn > PI {
            turn - TAU
        } else {
            turn
        };
        let size: i64 = if wrapped < 0 {
            -wrapped
        } else {
            wrapped
        };
        let folded: i64 = if size > HALF_PI {
            PI - size
        } else {
            size
        };
        let (sine, cosine) = if folded <= QUARTER_PI {
            let short = sine_series_of(Fixed::from_raw(folded));
            (short, other_leg_of(short))
        } else {
            let short = sine_series_of(Fixed::from_raw(HALF_PI - folded));
            (other_leg_of(short), short)
        };
        let sine = if wrapped < 0 {
            sine.neg()
        } else {
            sine
        };
        let cosine = if size > HALF_PI {
            cosine.neg()
        } else {
            cosine
        };
        (sine, cosine)
    }

    /// Sine of an angle in radians.
    pub fn sin(self) -> (r: Fixed)
        ensures
            r@ == sin_raw(self@),
            -SCALE <= r@ <= SCALE,
    {
        self.sin_cos().0
    }

    /// Cosine of an angle in radians.
    pub fn cos(self) -> (r: Fixed)
        ensures
            r@ == cos_raw(self@),
            -SCALE <= r@ <= SCALE,
    {
        self.sin_cos().1
    }
}

} // verus!
