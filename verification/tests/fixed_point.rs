use surfgen::fixed::{narrow, quotient, widen_product, Fixed, RAW_MAX, RAW_MIN, SCALE};
use surfgen::roots::isqrt;
use surfgen::trig::{HALF_PI, PI, QUARTER_PI, TAU};

fn raw(v: i64) -> Fixed {
    Fixed::from_raw(v)
}

#[test]
fn product_rounds_toward_zero() {
    let a = Fixed::from_raw(1_500_000_000);
    let b = Fixed::from_raw(-333_333_333);
    assert_eq!(a.mul(b).raw(), -499_999_999);
    assert_eq!(b.mul(a).raw(), -499_999_999);
    assert_eq!(a.mul(b.neg()).raw(), 499_999_999);
}

#[test]
fn constants_and_conversions() {
    assert_eq!(SCALE, 1_000_000_000);
    assert_eq!(Fixed::zero().raw(), 0);
    assert_eq!(Fixed::one().raw(), SCALE);
    assert_eq!(Fixed::from_int(-7).raw(), -7_000_000_000);
    assert_eq!(Fixed::from_milli(2290).raw(), 2_290_000_000);
    assert_eq!(Fixed::from_milli(-3).raw(), -3_000_000);
    assert_eq!(Fixed::from_ratio(229, 100).raw(), 2_290_000_000);
    assert_eq!(Fixed::from_ratio(-1, 3).raw(), -333_333_333);
    assert_eq!(Fixed::from_ratio(1, -3).raw(), -333_333_333);
    assert_eq!(Fixed::from_raw(42), Fixed { raw: 42 });
}

#[test]
fn whole_numbers_saturate() {
    assert_eq!(Fixed::from_int(i64::MAX).raw(), RAW_MAX);
    assert_eq!(Fixed::from_int(i64::MIN).raw(), RAW_MIN);
    assert_eq!(Fixed::from_int(9_223_372_036).raw(), 9_223_372_036_000_000_000);
    assert_eq!(Fixed::from_int(9_223_372_037).raw(), RAW_MAX);
}

#[test]
fn sums_and_differences_saturate() {
    assert_eq!(raw(RAW_MAX).add(raw(1)).raw(), RAW_MAX);
    assert_eq!(raw(RAW_MIN).sub(raw(1)).raw(), RAW_MIN);
    assert_eq!(raw(RAW_MIN).neg().raw(), RAW_MAX);
    assert_eq!(raw(RAW_MIN).abs().raw(), RAW_MAX);
    assert_eq!(raw(5).add(raw(-8)).raw(), -3);
    assert_eq!(raw(5).sub(raw(-8)).raw(), 13);
    assert_eq!(raw(-5).abs().raw(), 5);
}

#[test]
fn products_saturate() {
    let big = Fixed::from_int(4_000_000_000);
    assert_eq!(big.mul(big).raw(), RAW_MAX);
    assert_eq!(big.mul(big.neg()).raw(), RAW_MIN);
}

#[test]
fn quotients_round_toward_zero() {
    let one = Fixed::one();
    assert_eq!(one.div(Fixed::from_int(3)).raw(), 333_333_333);
    assert_eq!(one.div(Fixed::from_int(-3)).raw(), -333_333_333);
    assert_eq!(Fixed::from_int(-7).div(Fixed::from_int(2)).raw(), -3_500_000_000);
    assert_eq!(one.div(raw(1)).raw(), 1_000_000_000_000_000_000);
    assert_eq!(Fixed::from_int(10).div(raw(1)).raw(), RAW_MAX);
    assert_eq!(quotient(-7, 2), -3);
    assert_eq!(quotient(7, -2), -3);
    assert_eq!(quotient(-7, -2), 3);
}

#[test]
fn narrowing_and_widening() {
    assert_eq!(narrow(1 << 70), RAW_MAX);
    assert_eq!(narrow(-(1 << 70)), RAW_MIN);
    assert_eq!(narrow(-12), -12);
    assert_eq!(widen_product(i64::MIN, i64::MIN), 1i128 << 126);
    assert_eq!(widen_product(-3, 5), -15);
}

#[test]
fn clamp_holds_between_bounds() {
    let lo = raw(-10);
    let hi = raw(10);
    assert_eq!(raw(-11).clamp(lo, hi), lo);
    assert_eq!(raw(11).clamp(lo, hi), hi);
    assert_eq!(raw(3).clamp(lo, hi), raw(3));
    assert_eq!(raw(11).clamp(hi, lo), lo);
    assert_eq!(raw(-11).clamp(hi, lo), hi);
}

#[test]
fn square_roots_round_down() {
    assert_eq!(isqrt(0), 0);
    assert_eq!(isqrt(15), 3);
    assert_eq!(isqrt(16), 4);
    assert_eq!(isqrt(u128::MAX), u64::MAX as u128);
    assert_eq!(Fixed::from_int(2).sqrt().raw(), 1_414_213_562);
    assert_eq!(Fixed::from_milli(250).sqrt().raw(), 500_000_000);
    assert_eq!(Fixed::from_int(-4).sqrt().raw(), 0);
    assert_eq!(raw(1).sqrt().raw(), 31_622);
    assert_eq!(raw(RAW_MAX).sqrt().raw(), 96_038_388_349_944);
}

#[test]
fn powers_of_whole_and_fractional_exponents() {
    let p = |m: i64, e: i64| raw(m).pow(raw(e)).raw();
    assert_eq!(p(500_000_000, 3_200_000_000), 108_818_818);
    assert_eq!(p(50_000_000, 3_200_000_000), 68_660);
    assert_eq!(p(2_000_000_000, 500_000_000), 1_414_213_562);
    assert_eq!(p(3_000_000_000, 5_000_000_000), 243_000_000_000);
    assert_eq!(p(700_000_000, 2_000_000_000), 490_000_000);
    assert_eq!(p(123_456_789, 1_000_000_000), 123_456_789);
    assert_eq!(p(1_000_000_000, 7_300_000_000), 1_000_000_000);
    assert_eq!(p(2_000_000_000, 10_000_000_000), 1_024_000_000_000);
    assert_eq!(p(10_000_000_000, 10_000_000_000), RAW_MAX);
}

#[test]
fn powers_keep_the_sign_of_the_base() {
    let p = |m: i64, e: i64| raw(m).pow(raw(e)).raw();
    assert_eq!(p(-250_000_000, 1_700_000_000), -94_732_283);
    assert_eq!(p(250_000_000, 1_700_000_000), 94_732_283);
    assert_eq!(p(-2_000_000_000, 3_000_000_000), -8_000_000_000);
}

#[test]
fn powers_at_the_edges() {
    let p = |m: i64, e: i64| raw(m).pow(raw(e)).raw();
    assert_eq!(p(0, 0), 1_000_000_000);
    assert_eq!(p(0, 1_000_000_000), 0);
    assert_eq!(p(500_000_000, -1_000_000_000), 2_000_000_000);
    assert_eq!(p(0, -1_000_000_000), RAW_MAX);
}

#[test]
fn sines_and_cosines() {
    let s = |x: i64| raw(x).sin().raw();
    let c = |x: i64| raw(x).cos().raw();
    assert_eq!((PI, HALF_PI, TAU), (3_141_592_654, 1_570_796_327, 6_283_185_307));
    assert_eq!(QUARTER_PI, 785_398_163);
    assert_eq!((s(0), c(0)), (0, 1_000_000_000));
    assert_eq!((s(HALF_PI), c(HALF_PI)), (1_000_000_000, 0));
    assert_eq!((s(PI), c(PI)), (0, -1_000_000_000));
    assert_eq!((s(-HALF_PI), c(-HALF_PI)), (-1_000_000_000, 0));
    assert_eq!((s(1_000_000_000), c(1_000_000_000)), (841_470_984, 540_302_306));
    assert_eq!((s(523_598_776), c(523_598_776)), (500_000_000, 866_025_403));
    assert_eq!((s(QUARTER_PI), c(QUARTER_PI)), (707_106_781, 707_106_781));
    assert_eq!((s(QUARTER_PI + 1), c(QUARTER_PI + 1)), (707_106_781, 707_106_781));
    assert_eq!((s(-2_356_194_490), c(-2_356_194_490)), (-707_106_781, -707_106_781));
    assert_eq!((s(10_000_000_000), c(10_000_000_000)), (-544_021_111, -839_071_529));
    assert_eq!((s(-7_000_000_000), c(-7_000_000_000)), (-656_986_599, 753_902_254));
    assert_eq!((s(3 * TAU + 5), c(TAU)), (5, 1_000_000_000));
    assert_eq!((s(RAW_MAX), c(RAW_MAX)), (-912_582_521, -408_892_579));
    assert_eq!((s(RAW_MIN), c(RAW_MIN)), (912_582_522, -408_892_578));
    assert_eq!(raw(1_000_000_000).sin_cos(), (raw(841_470_984), raw(540_302_306)));
}

#[test]
fn sine_and_cosine_make_the_unit_circle() {
    let one: i128 = 1_000_000_000;
    let mut x: i64 = -20_000_000_000;
    while x < 20_000_000_000 {
        let (s, c) = raw(x).sin_cos();
        let squares = (s.raw() as i128).pow(2) + (c.raw() as i128).pow(2);
        assert!(one * one - 2 * one <= squares && squares <= one * one, "at {}", x);
        x += 7_000_003;
    }
}

#[test]
fn sines_stay_close_to_the_real_sine() {
    let mut x: i64 = -20_000_000_000;
    while x < 20_000_000_000 {
        let exact = (x as f64 / 1e9).sin();
        let got = raw(x).sin().raw() as f64 / 1e9;
        assert!((exact - got).abs() < 1e-8, "sin({}) = {} but got {}", x, exact, got);
        let exact = (x as f64 / 1e9).cos();
        let got = raw(x).cos().raw() as f64 / 1e9;
        assert!((exact - got).abs() < 1e-8, "cos({}) = {} but got {}", x, exact, got);
        x += 37_000_001;
    }
}

#[test]
fn powers_stay_close_to_the_real_power() {
    let mut m: i64 = 1_000_000;
    while m < 3_000_000_000 {
        let mut e: i64 = 0;
        while e < 6_000_000_000 {
            let exact = (m as f64 / 1e9).powf(e as f64 / 1e9);
            let got = raw(m).pow(raw(e)).raw() as f64 / 1e9;
            assert!(
                (exact - got).abs() <= 1e-7 * (1.0 + exact),
                "{}^{} = {} but got {}",
                m,
                e,
                exact,
                got
            );
            e += 313_000_007;
        }
        m += 41_000_003;
    }
}

#[test]
fn power_landmarks() {
    for &m in [0, 1, 31_622, 250_000_000, 1_000_000_000, 7_389_056_099, RAW_MAX].iter() {
        let x = raw(m);
        assert_eq!(x.pow(Fixed::zero()), Fixed::one());
        assert_eq!(x.pow(Fixed::one()), x);
        assert_eq!(x.pow(Fixed::from_int(2)), x.mul(x));
        assert_eq!(x.pow(Fixed::from_milli(500)), x.sqrt());
    }
    for &e in [1, 999_999_999, 1_000_000_000, 3_200_000_000, RAW_MAX].iter() {
        assert_eq!(Fixed::zero().pow(raw(e)), Fixed::zero());
        assert_eq!(Fixed::one().pow(raw(e)), Fixed::one());
    }
}

#[test]
fn powers_rise_with_the_base() {
    let exponents = [0, 1, 500_000_000, 1_700_000_000, 3_200_000_000, 5_200_000_000];
    for &e in exponents.iter() {
        let mut last = 0;
        let mut m: i64 = 0;
        while m <= 2_000_000_000 {
            let p = raw(m).pow(raw(e)).raw();
            assert!(p >= last, "{}^{} = {} fell below {}", m, e, p, last);
            if m <= 1_000_000_000 {
                assert!(p <= 1_000_000_000);
            }
            last = p;
            m += 12_345_679;
        }
    }
}

#[test]
fn sine_rises_over_the_quarter_turn() {
    let mut last = raw(-HALF_PI).sin().raw();
    assert_eq!(last, -1_000_000_000);
    let mut x: i64 = -HALF_PI;
    while x <= HALF_PI {
        let s = raw(x).sin().raw();
        assert!(s >= last, "sine fell at {}", x);
        assert_eq!(raw(-x).sin().raw(), -s);
        last = s;
        x += 1_234_567;
    }
    // Around the eighth of a turn, where the two legs change places, step by step.
    let mut x: i64 = QUARTER_PI - 2000;
    let mut last = raw(x).sin().raw();
    while x <= QUARTER_PI + 2000 {
        let s = raw(x).sin().raw();
        assert!(s >= last, "sine fell at {}", x);
        last = s;
        x += 1;
    }
}
