//! Signed decimal fixed-point numbers.
//!
//! A [`Fixed`] stores a real number as a count of billionths in an `i64`.
//! Every operation is total: results that leave the `i64` range stick to its
//! nearest end, and quotients round toward zero, so that `-x` always behaves
//! as the mirror image of `x`.

use vstd::prelude::*;

verus! {

/// Number of raw units in the value one.
pub const SCALE: i64 = 1_000_000_000;

/// Largest raw value.
pub const RAW_MAX: i64 = 0x7fff_ffff_ffff_ffff;

/// Smallest raw value.
pub const RAW_MIN: i64 = -0x8000_0000_0000_0000;

/// Two to the power 126: the bound within which wide intermediates stay.
pub open spec fn wide_limit() -> int {
    0x4000_0000_0000_0000_0000_0000_0000_0000
}

/// The nearest representable raw value to `v`.
pub open spec fn saturate(v: int) -> int {
    if v < RAW_MIN {
        RAW_MIN as int
    } else if v > RAW_MAX {
        RAW_MAX as int
    } else {
        v
    }
}

/// Quotient of `n` by `d` rounded toward zero, for `d != 0`.
pub open spec fn trunc_div(n: int, d: int) -> int {
    if d > 0 {
        if n >= 0 {
            n / d
        } else {
            -((-n) / d)
        }
    } else {
        if n >= 0 {
            -(n / (-d))
        } else {
            (-n) / (-d)
        }
    }
}

/// Magnitude of `v`.
pub open spec fn magnitude(v: int) -> int {
    if v < 0 {
        -v
    } else {
        v
    }
}

/// The smaller of two integers.
pub open spec fn lesser(a: int, b: int) -> int {
    if a <= b {
        a
    } else {
        b
    }
}

/// The larger of two integers.
pub open spec fn greater(a: int, b: int) -> int {
    if a >= b {
        a
    } else {
        b
    }
}

/// Raw sum of two raw values.
pub open spec fn add_raw(a: int, b: int) -> int {
    saturate(a + b)
}

/// Raw difference of two raw values.
pub open spec fn sub_raw(a: int, b: int) -> int {
    saturate(a - b)
}

/// Raw negation of a raw value.
pub open spec fn neg_raw(a: int) -> int {
    saturate(-a)
}

/// Raw magnitude of a raw value.
pub open spec fn abs_raw(a: int) -> int {
    saturate(magnitude(a))
}

/// Raw product of two raw values.
pub open spec fn mul_raw(a: int, b: int) -> int {
    saturate(trunc_div(a * b, SCALE as int))
}

/// Raw quotient of two raw values, for `b != 0`.
pub open spec fn div_raw(a: int, b: int) -> int {
    saturate(trunc_div(a * SCALE, b))
}

/// `v` held between `lo` and `hi`: `lo` below `lo`, else `hi` above `hi`.
pub open spec fn clamp_raw(v: int, lo: int, hi: int) -> int {
    if v < lo {
        lo
    } else if v > hi {
        hi
    } else {
        v
    }
}

/// A real number in billionths.
#[derive(Clone, Copy, Debug, PartialEq, Eq, Hash, Structural)]
pub struct Fixed {
    pub raw: i64,
}

impl View for Fixed {
    type V = int;

    open spec fn view(&self) -> int {
        self.raw as int
    }
}

/// The number with raw value `v`, for `v` in the raw range.
pub open spec fn fixed(v: int) -> Fixed {
    Fixed { raw: v as i64 }
}

/// The number of `n` thousandths.
pub open spec fn milli(n: int) -> Fixed {
    fixed(n * 1_000_000)
}

/// Clamps a wide intermediate into the raw range.
pub fn narrow(v: i128) -> (r: i64)
    ensures
        r == saturate(v as int),
{
    if v < RAW_MIN as i128 {
        RAW_MIN
    } else if v > RAW_MAX as i128 {
        RAW_MAX
    } else {
        v as i64
    }
}

/// The product of two 64-bit magnitudes stays below 2^126.
pub proof fn lemma_product_bound(a: int, b: int)
    requires
        RAW_MIN <= a <= RAW_MAX,
        RAW_MIN <= b <= RAW_MAX,
    ensures
        -wide_limit() <= a * b <= wide_limit(),
{
    let m = magnitude(a);
    let e = magnitude(b);
    assert(0 <= m * e <= 0x8000_0000_0000_0000 * 0x8000_0000_0000_0000) by (nonlinear_arith)
        requires
            0 <= m <= 0x8000_0000_0000_0000,
            0 <= e <= 0x8000_0000_0000_0000,
    ;
    assert(a * b == m * e || a * b == -(m * e)) by (nonlinear_arith)
        requires
            m == a || m == -a,
            e == b || e == -b,
    ;
}

/// Exact product of two raw values.
pub fn widen_product(a: i64, b: i64) -> (p: i128)
    ensures
        p == a * b,
        -wide_limit() <= p <= wide_limit(),
{
    proof {
        lemma_product_bound(a as int, b as int);
    }
    a as i128 * b as i128
}

/// Quotient rounded toward zero.
pub fn quotient(n: i128, d: i128) -> (q: i128)
    requires
        d != 0,
        -wide_limit() <= n <= wide_limit(),
        -wide_limit() <= d <= wide_limit(),
    ensures
        q == trunc_div(n as int, d as int),
        magnitude(q as int) <= magnitude(n as int),
{
    proof {
        lemma_trunc_div_bounds(n as int, d as int);
    }
    if d > 0 {
        n / d
    } else {
        (-n) / (-d)
    }
}

/// A quotient rounded toward zero has the sign of `n * d` and is no larger
/// in magnitude than `n`.
pub proof fn lemma_trunc_div_bounds(n: int, d: int)
    requires
        d != 0,
    ensures
        magnitude(trunc_div(n, d)) <= magnitude(n),
        magnitude(trunc_div(n, d)) == magnitude(n) / magnitude(d),
        (n >= 0) == (d > 0) ==> trunc_div(n, d) >= 0,
        (n >= 0) != (d > 0) ==> trunc_div(n, d) <= 0,
        n == 0 ==> trunc_div(n, d) == 0,
{
    let m = magnitude(n);
    let e = magnitude(d);
    assert(0 <= m / e <= m) by (nonlinear_arith)
        requires
            m >= 0,
            e >= 1,
    ;
    assert(0int / e == 0) by (nonlinear_arith)
        requires
            e >= 1,
    ;
}

/// Rounding toward zero keeps a quotient between whole bounds.
pub proof fn lemma_trunc_between(w: int, s: int, lo: int, hi: int)
    requires
        s > 0,
        lo * s <= w <= hi * s,
    ensures
        lo <= trunc_div(w, s) <= hi,
{
    if w >= 0 {
        let q = w / s;
        assert(q * s <= w < (q + 1) * s && lo <= q <= hi) by (nonlinear_arith)
            requires
                q == w / s,
                s > 0,
                lo * s <= w <= hi * s,
        ;
    } else {
        let q = (-w) / s;
        assert(q * s <= -w < (q + 1) * s && lo <= -q <= hi) by (nonlinear_arith)
            requires
                q == (-w) / s,
                s > 0,
                lo * s <= w <= hi * s,
        ;
    }
}

/// Products of non-negative numbers are non-negative and grow with both
/// factors; products within the unit interval stay in it.
pub proof fn lemma_mul_raw_monotone(a: int, b: int, c: int, d: int)
    requires
        0 <= a <= c,
        0 <= b <= d,
    ensures
        0 <= mul_raw(a, b) <= mul_raw(c, d),
        c <= SCALE && d <= SCALE ==> mul_raw(c, d) <= SCALE,
{
    let s = SCALE as int;
    assert(0 <= a * b <= c * d) by (nonlinear_arith)
        requires
            0 <= a <= c,
            0 <= b <= d,
    ;
    assert(0 <= (a * b) / s <= (c * d) / s) by (nonlinear_arith)
        requires
            0 <= a * b <= c * d,
            s > 0,
    ;
    if c <= s && d <= s {
        assert((c * d) / s <= s) by (nonlinear_arith)
            requires
                0 <= c <= s,
                0 <= d <= s,
                s > 0,
        ;
    }
}

/// Multiplying by one changes nothing.
pub proof fn lemma_mul_raw_one(a: int)
    requires
        RAW_MIN <= a <= RAW_MAX,
    ensures
        mul_raw(a, SCALE as int) == a,
        mul_raw(SCALE as int, a) == a,
{
    let s = SCALE as int;
    assert(a * s == s * a) by (nonlinear_arith);
    if a >= 0 {
        assert((a * s) / s == a) by (nonlinear_arith)
            requires
                s > 0,
        ;
    } else {
        assert(-(a * s) == (-a) * s) by (nonlinear_arith);
        assert(((-a) * s) / s == -a) by (nonlinear_arith)
            requires
                s > 0,
        ;
        assert(a * s < 0) by (nonlinear_arith)
            requires
                a < 0,
                s > 0,
        ;
    }
}

/// The product of two numbers of the unit interval lies in it.
pub proof fn lemma_unit_product(a: int, b: int)
    requires
        -SCALE <= a <= SCALE,
        -SCALE <= b <= SCALE,
    ensures
        -SCALE <= mul_raw(a, b) <= SCALE,
{
    let s = SCALE as int;
    let w = a * b;
    assert(-(s * s) <= w <= s * s) by (nonlinear_arith)
        requires
            w == a * b,
            -s <= a <= s,
            -s <= b <= s,
    ;
    if w >= 0 {
        assert(0 <= w / s <= s) by (nonlinear_arith)
            requires
                0 <= w <= s * s,
                s > 0,
        ;
    } else {
        assert(0 <= (-w) / s <= s) by (nonlinear_arith)
            requires
                0 <= -w <= s * s,
                s > 0,
        ;
    }
}

/// The square of a product of two numbers of the unit interval, as it is
/// rounded, against the square of the exact product: never above it, and
/// below it by less than two billionths of one.
pub proof fn lemma_mul_raw_square(a: int, b: int)
    requires
        -SCALE <= a <= SCALE,
        -SCALE <= b <= SCALE,
    ensures
        (a * b) * (a * b) - 2 * (SCALE * SCALE * SCALE) <= (mul_raw(a, b) * mul_raw(a, b)) * (SCALE
            * SCALE) <= (a * b) * (a * b),
{
    let s = SCALE as int;
    let p = a * b;
    let m = magnitude(p);
    let q = m / s;
    let x = mul_raw(a, b);
    lemma_unit_product(a, b);
    assert(0 <= m <= s * s) by (nonlinear_arith)
        requires
            p == a * b,
            m == p || m == -p,
            m >= 0,
            -s <= a <= s,
            -s <= b <= s,
    ;
    let rho = m - q * s;
    assert(0 <= rho < s && 0 <= q <= s) by (nonlinear_arith)
        requires
            q == m / s,
            rho == m - q * s,
            0 <= m <= s * s,
            s > 0,
    ;
    assert(x == q || x == -q);
    assert(x * x == q * q) by (nonlinear_arith)
        requires
            x == q || x == -q,
    ;
    assert(m * m == p * p) by (nonlinear_arith)
        requires
            m == p || m == -p,
    ;
    let w = q * s;
    assert((x * x) * (s * s) == w * w) by (nonlinear_arith)
        requires
            x * x == q * q,
            w == q * s,
    ;
    assert(w * w <= m * m && w * w >= m * m - 2 * (m * s)) by (nonlinear_arith)
        requires
            w == m - rho,
            0 <= rho < s,
            0 <= w,
            0 <= m,
    ;
    assert(m * s <= s * s * s) by (nonlinear_arith)
        requires
            0 <= m <= s * s,
            s > 0,
    ;
}

/// Scaling by a non-negative factor keeps magnitudes in order, here for
/// numbers up to two.
pub proof fn lemma_scaled_magnitude(a: int, bound: int, factor: int)
    requires
        magnitude(a) <= bound <= 2 * SCALE,
        0 <= factor <= 2 * SCALE,
    ensures
        magnitude(mul_raw(a, factor)) <= mul_raw(bound, factor),
{
    let s = SCALE as int;
    let m = magnitude(a);
    assert(0 <= m * factor <= bound * factor) by (nonlinear_arith)
        requires
            0 <= m <= bound,
            0 <= factor,
    ;
    assert(a * factor == m * factor || a * factor == -(m * factor)) by (nonlinear_arith)
        requires
            m == a || m == -a,
    ;
    assert(0 <= (m * factor) / s <= (bound * factor) / s <= 4 * s) by (nonlinear_arith)
        requires
            0 <= m * factor <= bound * factor,
            bound <= 2 * s,
            0 <= factor <= 2 * s,
            s > 0,
    ;
}

impl Fixed {
    /// The number with the given count of billionths.
    pub fn from_raw(raw: i64) -> (r: Fixed)
        ensures
            r@ == raw,
    {
        Fixed { raw }
    }

    /// The count of billionths.
    pub fn raw(self) -> (r: i64)
        ensures
            r == self@,
    {
        self.raw
    }

    /// Zero.
    pub fn zero() -> (r: Fixed)
        ensures
            r@ == 0,
    {
        Fixed { raw: 0 }
    }

    /// One.
    pub fn one() -> (r: Fixed)
        ensures
            r@ == SCALE,
    {
        Fixed { raw: SCALE }
    }

    /// The number of `n` thousandths.
    pub fn from_milli(n: i32) -> (r: Fixed)
        ensures
            r == milli(n as int),
    {
        Fixed { raw: n as i64 * 1_000_000 }
    }

    /// The whole number `i`.
    pub fn from_int(i: i64) -> (r: Fixed)
        ensures
            r@ == saturate(i * SCALE),
    {
        Fixed { raw: narrow(widen_product(i, SCALE)) }
    }

    /// The fraction `n / d`, rounded toward zero to a billionth.
    pub fn from_ratio(n: i64, d: i64) -> (r: Fixed)
        requires
            d != 0,
        ensures
            r@ == saturate(trunc_div(n * SCALE, d as int)),
    {
        Fixed { raw: narrow(quotient(widen_product(n, SCALE), d as i128)) }
    }

    /// Sum.
    pub fn add(self, rhs: Fixed) -> (r: Fixed)
        ensures
            r@ == add_raw(self@, rhs@),
    {
        Fixed { raw: narrow(self.raw as i128 + rhs.raw as i128) }
    }

    /// Difference.
    pub fn sub(self, rhs: Fixed) -> (r: Fixed)
        ensures
            r@ == sub_raw(self@, rhs@),
    {
        Fixed { raw: narrow(self.raw as i128 - rhs.raw as i128) }
    }

    /// Negation.
    pub fn neg(self) -> (r: Fixed)
        ensures
            r@ == neg_raw(self@),
    {
        Fixed { raw: narrow(-(self.raw as i128)) }
    }

    /// Magnitude.
    pub fn abs(self) -> (r: Fixed)
        ensures
            r@ == abs_raw(self@),
    {
        if self.raw < 0 {
            self.neg()
        } else {
            self
        }
    }

    /// Product, rounded toward zero.
    pub fn mul(self, rhs: Fixed) -> (r: Fixed)
        ensures
            r@ == mul_raw(self@, rhs@),
    {
        let wide: i128 = widen_product(self.raw, rhs.raw);
        Fixed { raw: narrow(quotient(wide, SCALE as i128)) }
    }

    /// Quotient, rounded toward zero.
    pub fn div(self, rhs: Fixed) -> (r: Fixed)
        requires
            rhs@ != 0,
        ensures
            r@ == div_raw(self@, rhs@),
    {
        let wide: i128 = widen_product(self.raw, SCALE);
        Fixed { raw: narrow(quotient(wide, rhs.raw as i128)) }
    }

    /// `self` held between `lo` and `hi`.
    pub fn clamp(self, lo: Fixed, hi: Fixed) -> (r: Fixed)
        ensures
            r@ == clamp_raw(self@, lo@, hi@),
    {
        if self.raw < lo.raw {
            lo
        } else if self.raw > hi.raw {
            hi
        } else {
            self
        }
    }
}

} // verus!
