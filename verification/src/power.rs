//! Powers with a real exponent.
//!
//! The exponent is split into its whole part, raised by repeated squaring,
//! and its fraction, read one binary digit at a time against a chain of
//! square roots: `m^0.b1b2b3.. = (m^(1/2))^b1 * (m^(1/4))^b2 * ..`.

use vstd::prelude::*;
use vstd::arithmetic::power2::{lemma2_to64, lemma_pow2_unfold, pow2};
use crate::fixed::{
    abs_raw, div_raw, lemma_mul_raw_monotone, lemma_mul_raw_one, lemma_trunc_div_bounds, mul_raw,
    neg_raw, Fixed, RAW_MAX, RAW_MIN, SCALE,
};
use crate::roots::{lemma_sqrt_raw_monotone, sqrt_raw};

verus! {

/// Binary digits read from the fraction of an exponent.
pub const FRACTION_BITS: u32 = 30;

/// `m` raised to the whole number `n` by repeated squaring.
pub open spec fn whole_power(m: int, n: nat) -> int
    decreases n,
{
    if n == 0 {
        SCALE as int
    } else {
        let half = whole_power(m, n / 2);
        let square = mul_raw(half, half);
        if n % 2 == 1 {
            mul_raw(square, m)
        } else {
            square
        }
    }
}

/// `m` raised to the fraction `f / SCALE`, reading `bits` binary digits of
/// that fraction.
pub open spec fn fraction_power(m: int, f: int, bits: nat) -> int
    decreases bits,
{
    if bits == 0 {
        SCALE as int
    } else {
        let root = sqrt_raw(m);
        if 2 * f >= SCALE {
            mul_raw(root, fraction_power(root, 2 * f - SCALE, (bits - 1) as nat))
        } else {
            fraction_power(root, 2 * f, (bits - 1) as nat)
        }
    }
}

/// `m` raised to the exponent `e >= 0`, for `m >= 0`.
pub open spec fn rising_power(m: int, e: int) -> int {
    mul_raw(
        whole_power(m, (e / (SCALE as int)) as nat),
        fraction_power(m, e % (SCALE as int), FRACTION_BITS as nat),
    )
}

/// `m` raised to any exponent, for `m >= 0`. A negative exponent gives the
/// reciprocal, and the reciprocal of zero is the largest number.
pub open spec fn power_raw(m: int, e: int) -> int {
    if e >= 0 {
        rising_power(m, e)
    } else {
        let p = rising_power(m, neg_raw(e));
        if p == 0 {
            RAW_MAX as int
        } else {
            div_raw(SCALE as int, p)
        }
    }
}

/// The power that keeps the sign of its base: `sign(x) * |x|^e`.
pub open spec fn signed_power_raw(x: int, e: int) -> int {
    if x < 0 {
        -power_raw(abs_raw(x), e)
    } else {
        power_raw(x, e)
    }
}

/// A whole power of a non-negative base is non-negative, grows with the
/// base and keeps the unit interval.
pub proof fn lemma_whole_power_monotone(a: int, b: int, n: nat)
    requires
        0 <= a <= b,
    ensures
        0 <= whole_power(a, n) <= whole_power(b, n),
        b <= SCALE ==> whole_power(b, n) <= SCALE,
    decreases n,
{
    if n > 0 {
        lemma_whole_power_monotone(a, b, n / 2);
        let ha = whole_power(a, n / 2);
        let hb = whole_power(b, n / 2);
        lemma_mul_raw_monotone(ha, ha, hb, hb);
        lemma_mul_raw_monotone(mul_raw(ha, ha), a, mul_raw(hb, hb), b);
    }
}

/// A fractional power of a non-negative base is non-negative, grows with
/// the base and keeps the unit interval.
pub proof fn lemma_fraction_power_monotone(a: int, b: int, f: int, bits: nat)
    requires
        0 <= a <= b,
    ensures
        0 <= fraction_power(a, f, bits) <= fraction_power(b, f, bits),
        b <= SCALE ==> fraction_power(b, f, bits) <= SCALE,
    decreases bits,
{
    if bits > 0 {
        lemma_sqrt_raw_monotone(a, b);
        let ra = sqrt_raw(a);
        let rb = sqrt_raw(b);
        let rest = (bits - 1) as nat;
        if 2 * f >= SCALE {
            lemma_fraction_power_monotone(ra, rb, 2 * f - SCALE, rest);
            lemma_mul_raw_monotone(
                ra,
                fraction_power(ra, 2 * f - SCALE, rest),
                rb,
                fraction_power(rb, 2 * f - SCALE, rest),
            );
        } else {
            lemma_fraction_power_monotone(ra, rb, 2 * f, rest);
        }
    }
}

/// For a non-negative exponent the power of a non-negative base is
/// non-negative, grows with the base and keeps the unit interval.
pub proof fn lemma_power_monotone(a: int, b: int, e: int)
    requires
        0 <= a <= b,
        e >= 0,
    ensures
        0 <= power_raw(a, e) <= power_raw(b, e),
        b <= SCALE ==> power_raw(b, e) <= SCALE,
{
    let n = (e / (SCALE as int)) as nat;
    let f = e % (SCALE as int);
    lemma_whole_power_monotone(a, b, n);
    lemma_fraction_power_monotone(a, b, f, FRACTION_BITS as nat);
    lemma_mul_raw_monotone(
        whole_power(a, n),
        fraction_power(a, f, FRACTION_BITS as nat),
        whole_power(b, n),
        fraction_power(b, f, FRACTION_BITS as nat),
    );
}

/// A fractional power with no digit set is one.
pub proof fn lemma_fraction_power_zero(m: int, bits: nat)
    ensures
        fraction_power(m, 0, bits) == SCALE,
    decreases bits,
{
    if bits > 0 {
        lemma_fraction_power_zero(sqrt_raw(m), (bits - 1) as nat);
    }
}

/// The landmarks of the power: raised to zero a number gives one, raised
/// to one itself, raised to two its square, and raised to one half its
/// square root.
pub proof fn law_power_landmarks(m: int)
    requires
        0 <= m <= RAW_MAX,
    ensures
        power_raw(m, 0) == SCALE,
        power_raw(m, SCALE as int) == m,
        power_raw(m, 2 * SCALE) == mul_raw(m, m),
        power_raw(m, SCALE / 2) == sqrt_raw(m),
{
    let s = SCALE as int;
    let bits = FRACTION_BITS as nat;
    lemma_fraction_power_zero(m, bits);
    lemma_mul_raw_one(s);
    lemma_mul_raw_one(m);
    lemma_mul_raw_one(mul_raw(m, m));
    assert(whole_power(m, 0) == s);
    assert(whole_power(m, 1) == m) by {
        assert(whole_power(m, 1) == mul_raw(mul_raw(whole_power(m, 0), whole_power(m, 0)), m));
    }
    assert(whole_power(m, 2) == mul_raw(m, m)) by {
        assert(whole_power(m, 2) == mul_raw(whole_power(m, 1), whole_power(m, 1)));
    }
    let root = sqrt_raw(m);
    lemma_sqrt_raw_monotone(m, m);
    lemma_fraction_power_zero(root, (bits - 1) as nat);
    lemma_mul_raw_one(root);
    assert(fraction_power(m, s / 2, bits) == root);
}

/// A whole power of zero above the zeroth is zero.
pub proof fn lemma_whole_power_of_zero(n: nat)
    requires
        n >= 1,
    ensures
        whole_power(0, n) == 0,
    decreases n,
{
    let half = whole_power(0, n / 2);
    let square = mul_raw(half, half);
    assert(square * 0 == 0) by (nonlinear_arith);
    if n % 2 == 0 {
        lemma_whole_power_of_zero(n / 2);
        assert(0int * 0 == 0) by (nonlinear_arith);
    }
}

/// A fractional power of zero is zero where the digits read reach the first
/// digit that is set.
pub proof fn lemma_fraction_power_of_zero(f: int, bits: nat)
    requires
        0 < f < SCALE,
        f * pow2(bits) >= SCALE,
    ensures
        fraction_power(0, f, bits) == 0,
    decreases bits,
{
    lemma2_to64();
    if bits == 0 {
        assert(f * 1 == f) by (nonlinear_arith);
    } else {
        let rest = (bits - 1) as nat;
        let tail = fraction_power(0, 2 * f - SCALE, rest);
        assert(0 * tail == 0) by (nonlinear_arith);
        if 2 * f < SCALE {
            lemma_pow2_unfold(bits);
            assert((2 * f) * pow2(rest) == f * (2 * pow2(rest))) by (nonlinear_arith);
            lemma_fraction_power_of_zero(2 * f, rest);
        }
    }
}

/// Zero raised to an exponent above zero is zero.
pub proof fn law_power_of_zero(e: int)
    requires
        e > 0,
    ensures
        power_raw(0, e) == 0,
{
    let s = SCALE as int;
    let n = (e / s) as nat;
    let f = e % s;
    let whole = whole_power(0, n);
    let part = fraction_power(0, f, FRACTION_BITS as nat);
    if n >= 1 {
        lemma_whole_power_of_zero(n);
        assert(0 * part == 0) by (nonlinear_arith);
    } else {
        lemma2_to64();
        assert(f * pow2(30) >= s) by (nonlinear_arith)
            requires
                f >= 1,
                pow2(30) == 0x40000000,
                s == 1_000_000_000,
        ;
        lemma_fraction_power_of_zero(f, FRACTION_BITS as nat);
        assert(whole * 0 == 0) by (nonlinear_arith);
    }
}

/// The power of a non-negative base is never negative.
pub proof fn lemma_power_nonnegative(m: int, e: int)
    requires
        0 <= m,
    ensures
        0 <= power_raw(m, e),
{
    if e >= 0 {
        lemma_power_monotone(m, m, e);
    } else {
        lemma_power_monotone(m, m, neg_raw(e));
        let p = rising_power(m, neg_raw(e));
        if p != 0 {
            lemma_trunc_div_bounds(SCALE * SCALE, p);
        }
    }
}

/// The signed power has the sign of its base.
pub proof fn lemma_signed_power_sign(x: int, e: int)
    requires
        RAW_MIN <= x <= RAW_MAX,
    ensures
        x >= 0 ==> 0 <= signed_power_raw(x, e) <= RAW_MAX,
        x < 0 ==> -RAW_MAX <= signed_power_raw(x, e) <= 0,
{
    lemma_power_nonnegative(abs_raw(x), e);
}

/// `m` raised to the whole number `n`.
fn raise_whole(m: Fixed, n: u64) -> (r: Fixed)
    ensures
        r@ == whole_power(m@, n as nat),
    decreases n,
{
    if n == 0 {
        Fixed::one()
    } else {
        let half = raise_whole(m, n / 2);
        let square = half.mul(half);
        if n % 2 == 1 {
            square.mul(m)
        } else {
            square
        }
    }
}

/// `m` raised to the fraction `f / SCALE`, reading `bits` binary digits.
fn raise_fraction(m: Fixed, f: i64, bits: u32) -> (r: Fixed)
    requires
        0 <= f < SCALE,
    ensures
        r@ == fraction_power(m@, f as int, bits as nat),
    decreases bits,
{
    if bits == 0 {
        Fixed::one()
    } else {
        let root = m.sqrt();
        if 2 * f >= SCALE {
            root.mul(raise_fraction(root, 2 * f - SCALE, bits - 1))
        } else {
            raise_fraction(root, 2 * f, bits - 1)
        }
    }
}

/// `m` raised to the exponent `e >= 0`.
fn raise(m: Fixed, e: Fixed) -> (r: Fixed)
    requires
        e@ >= 0,
    ensures
        r@ == rising_power(m@, e@),
{
    let whole: u64 = (e.raw / SCALE) as u64;
    let fraction: i64 = e.raw % SCALE;
    raise_whole(m, whole).mul(raise_fraction(m, fraction, FRACTION_BITS))
}

impl Fixed {
    /// The power that keeps the sign of its base: `sign(self) * |self|^e`.
    ///
    /// A negative exponent gives the reciprocal, and the reciprocal of zero
    /// is the largest number.
    pub fn pow(self, e: Fixed) -> (r: Fixed)
        ensures
            r@ == signed_power_raw(self@, e@),
            self@ >= 0 ==> r@ >= 0,
            self@ < 0 ==> r@ <= 0,
    {
        proof {
            lemma_signed_power_sign(self@, e@);
        }
        let m = self.abs();
        let p = if e.raw >= 0 {
            raise(m, e)
        } else {
            let up = raise(m, e.neg());
            if up.raw == 0 {
                Fixed { raw: RAW_MAX }
            } else {
                Fixed::one().div(up)
            }
        };
        if self.raw < 0 {
            proof {
                lemma_power_nonnegative(abs_raw(self@), e@);
            }
            p.neg()
        } else {
            p
        }
    }
}

} // verus!
