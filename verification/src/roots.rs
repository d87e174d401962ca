//! Square roots, rounded down.

use vstd::prelude::*;
use crate::fixed::{Fixed, RAW_MAX, SCALE};

verus! {

/// `r` is the square root of `n` rounded down.
pub open spec fn is_floor_sqrt(n: int, r: int) -> bool {
    r >= 0 && r * r <= n < (r + 1) * (r + 1)
}

/// The square root of `n` rounded down, for `n >= 0`.
pub open spec fn floor_sqrt(n: int) -> int {
    choose|r: int| is_floor_sqrt(n, r)
}

/// At most one number is the rounded-down square root of `n`.
pub proof fn lemma_floor_sqrt_unique(n: int, r1: int, r2: int)
    requires
        is_floor_sqrt(n, r1),
        is_floor_sqrt(n, r2),
    ensures
        r1 == r2,
{
    assert(r1 == r2) by (nonlinear_arith)
        requires
            r1 >= 0,
            r2 >= 0,
            r1 * r1 <= n < (r1 + 1) * (r1 + 1),
            r2 * r2 <= n < (r2 + 1) * (r2 + 1),
    ;
}

/// Every natural number has a rounded-down square root.
pub proof fn lemma_floor_sqrt_exists(n: int)
    requires
        n >= 0,
    ensures
        is_floor_sqrt(n, floor_sqrt(n)),
    decreases n,
{
    if n == 0 {
        assert(is_floor_sqrt(0, 0));
    } else {
        lemma_floor_sqrt_exists(n - 1);
        let r = floor_sqrt(n - 1);
        if n < (r + 1) * (r + 1) {
            assert(is_floor_sqrt(n, r));
        } else {
            assert((r + 1) * (r + 1) <= n < (r + 2) * (r + 2)) by (nonlinear_arith)
                requires
                    r >= 0,
                    r * r <= n - 1 < (r + 1) * (r + 1),
                    n >= (r + 1) * (r + 1),
            ;
            assert(is_floor_sqrt(n, r + 1));
        }
    }
}

/// Whatever meets the defining inequalities is the rounded-down root.
pub proof fn lemma_floor_sqrt_is(n: int, r: int)
    requires
        is_floor_sqrt(n, r),
    ensures
        floor_sqrt(n) == r,
{
    assert(n >= 0) by (nonlinear_arith)
        requires
            r * r <= n,
    ;
    lemma_floor_sqrt_exists(n);
    lemma_floor_sqrt_unique(n, r, floor_sqrt(n));
}

/// The rounded-down root grows with its argument.
pub proof fn lemma_floor_sqrt_monotone(a: int, b: int)
    requires
        0 <= a <= b,
    ensures
        0 <= floor_sqrt(a) <= floor_sqrt(b),
{
    lemma_floor_sqrt_exists(a);
    lemma_floor_sqrt_exists(b);
    let r = floor_sqrt(a);
    let t = floor_sqrt(b);
    assert(r <= t) by (nonlinear_arith)
        requires
            r >= 0,
            t >= 0,
            r * r <= a,
            a <= b,
            b < (t + 1) * (t + 1),
    ;
}

/// Square root of a 128-bit number, rounded down.
pub fn isqrt(n: u128) -> (r: u128)
    ensures
        r == floor_sqrt(n as int),
        is_floor_sqrt(n as int, r as int),
        r < 0x1_0000_0000_0000_0000,
{
    let mut lo: u128 = 0;
    let mut hi: u128 = 0x1_0000_0000_0000_0000;
    assert(hi * hi > n) by (nonlinear_arith)
        requires
            hi == 0x1_0000_0000_0000_0000,
            n <= 0xffff_ffff_ffff_ffff_ffff_ffff_ffff_ffff,
    ;
    assert(lo * lo <= n) by (nonlinear_arith)
        requires
            lo == 0,
            n >= 0,
    ;
    while hi - lo > 1
        invariant
            lo < hi <= 0x1_0000_0000_0000_0000,
            lo * lo <= n < hi * hi,
        decreases hi - lo,
    {
        let mid: u128 = lo + (hi - lo) / 2;
        assert(mid * mid <= 0xffff_ffff_ffff_ffff * 0xffff_ffff_ffff_ffff) by (nonlinear_arith)
            requires
                0 <= mid <= 0xffff_ffff_ffff_ffff,
        ;
        if mid * mid <= n {
            lo = mid;
        } else {
            hi = mid;
        }
    }
    proof {
        assert(hi == lo + 1);
        lemma_floor_sqrt_is(n as int, lo as int);
    }
    lo
}

/// Raw square root of a raw value; zero for a negative one.
pub open spec fn sqrt_raw(a: int) -> int {
    if a <= 0 {
        0
    } else {
        floor_sqrt(a * SCALE)
    }
}

/// The raw square root is never negative, grows with its argument and keeps
/// the unit interval.
pub proof fn lemma_sqrt_raw_monotone(a: int, b: int)
    requires
        a <= b,
    ensures
        0 <= sqrt_raw(a) <= sqrt_raw(b),
        b <= RAW_MAX ==> sqrt_raw(b) <= 0x8000_0000_0000,
        b <= SCALE ==> sqrt_raw(b) <= SCALE,
        sqrt_raw(SCALE as int) == SCALE,
{
    let s = SCALE as int;
    if b > 0 {
        let wb = b * s;
        assert(wb >= 0) by (nonlinear_arith)
            requires
                wb == b * s,
                b > 0,
                s > 0,
        ;
        lemma_floor_sqrt_exists(wb);
        let t = floor_sqrt(wb);
        if a > 0 {
            let wa = a * s;
            assert(0 <= wa <= wb) by (nonlinear_arith)
                requires
                    wa == a * s,
                    wb == b * s,
                    0 < a <= b,
                    s > 0,
            ;
            lemma_floor_sqrt_monotone(wa, wb);
        }
        if b <= RAW_MAX {
            assert(t <= 0x8000_0000_0000) by (nonlinear_arith)
                requires
                    t >= 0,
                    t * t <= wb,
                    wb == b * s,
                    b <= 0x7fff_ffff_ffff_ffff,
                    s == 1_000_000_000,
            ;
        }
        if b <= s {
            assert(t <= s) by (nonlinear_arith)
                requires
                    t >= 0,
                    t * t <= wb,
                    wb == b * s,
                    b <= s,
                    s > 0,
            ;
        }
    }
    assert(is_floor_sqrt(s * s, s)) by (nonlinear_arith)
        requires
            s == 1_000_000_000,
    ;
    lemma_floor_sqrt_is(s * s, s);
}

impl Fixed {
    /// Square root, rounded down to a billionth; zero for a negative number.
    pub fn sqrt(self) -> (r: Fixed)
        ensures
            r@ == sqrt_raw(self@),
            r@ >= 0,
    {
        proof {
            lemma_sqrt_raw_monotone(self@, self@);
        }
        if self.raw <= 0 {
            Fixed { raw: 0 }
        } else {
            proof {
                lemma_sqrt_raw_monotone(self@, self@);
                assert(0 < self.raw * SCALE <= 0x7fff_ffff_ffff_ffff * 1_000_000_000)
                    by (nonlinear_arith)
                    requires
                        0 < self.raw <= 0x7fff_ffff_ffff_ffff,
                        SCALE == 1_000_000_000,
                ;
            }
            let wide: u128 = self.raw as u128 * SCALE as u128;
            let root: u128 = isqrt(wide);
            Fixed { raw: root as i64 }
        }
    }
}

} // verus!
