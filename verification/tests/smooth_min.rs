use surfgen::fixed::Fixed;
use surfgen::smooth::smin;

fn raw(v: i64) -> Fixed {
    Fixed::from_raw(v)
}

fn blend(a: i64, b: i64, k: i64) -> i64 {
    smin(raw(a), raw(b), raw(k)).raw()
}

#[test]
fn smooth_minimum_inside_the_crease() {
    // h = 0.5 + 0.5 * (0.2 - 0.6) / 0.5 = 0.1; 0.2 * 0.9 + 0.6 * 0.1 - 0.5 * 0.1 * 0.9
    assert_eq!(blend(200_000_000, 600_000_000, 500_000_000), 195_000_000);
    // h = 0.7; 0.3 * 0.3 - 0.1 * 0.7 - 1 * 0.7 * 0.3
    assert_eq!(blend(300_000_000, -100_000_000, 1_000_000_000), -190_000_000);
    assert_eq!(blend(0, 0, 1_000_000_000), -250_000_000);
}

#[test]
fn smooth_minimum_outside_the_crease_is_the_minimum() {
    assert_eq!(blend(-1_000_000_000, 1_000_000_000, 500_000_000), -1_000_000_000);
    assert_eq!(blend(1_000_000_000, -1_000_000_000, 500_000_000), -1_000_000_000);
    assert_eq!(blend(700_000_000, 200_000_000, 500_000_000), 200_000_000);
}

#[test]
fn negative_width_blends_toward_the_larger_argument() {
    assert_eq!(blend(-1_000_000_000, 1_000_000_000, -500_000_000), 1_000_000_000);
    assert_eq!(blend(-100_000_000, 300_000_000, -300_000_000), 300_000_000);
    assert_eq!(blend(-1_000_000_000, -437_500_000, -300_000_000), -437_500_000);
    // Equal arguments lie inside the crease: the blend rises a quarter of |k| above both.
    assert_eq!(blend(0, 0, -1_000_000_000), 250_000_000);
}

#[test]
fn smooth_minimum_stays_within_its_bounds() {
    let values = [
        i64::MIN,
        -5_000_000_000,
        -1_000_000_000,
        -333_333_333,
        -1,
        0,
        1,
        250_000_000,
        999_999_999,
        1_000_000_000,
        7_123_456_789,
        i64::MAX,
    ];
    let widths = [
        i64::MIN,
        -3_000_000_000,
        -300_000_000,
        -1,
        1,
        2,
        500_000_000,
        1_000_000_000,
        i64::MAX,
    ];
    for &a in values.iter() {
        for &b in values.iter() {
            for &k in widths.iter() {
                let r = blend(a, b, k) as i128;
                let lo = a.min(b) as i128;
                let hi = a.max(b) as i128;
                let apart = (a as i128 - b as i128).abs();
                let width = (k as i128).abs();
                assert!(4 * r >= 4 * lo - width, "smin({}, {}, {}) = {}", a, b, k, r);
                if k > 0 || apart >= width {
                    assert!(r <= hi, "smin({}, {}, {}) = {}", a, b, k, r);
                }
                if apart >= width {
                    assert_eq!(r, if k > 0 { lo } else { hi });
                }
            }
        }
    }
}

#[test]
fn negative_width_stays_above_the_second_argument() {
    // One billionth below the larger argument is as far as the rounding takes it here.
    assert_eq!(blend(966_284_565, 966_284_567, -3), 966_284_566);
    let values = [-5_000_000_000, -800_000_000, -50_000_000, -1, 0, 3, 400_000_000, i64::MAX];
    let widths = [-1, -3, -300_000_000, -900_000_000, -2_000_000_000, -7_000_000_000, i64::MIN + 1];
    for &a in values.iter() {
        for &b in values.iter() {
            for &k in widths.iter() {
                let r = blend(a, b, k) as i128;
                let slack = 2 + (k as i128).abs() / 2_000_000_000;
                assert!(r >= b as i128 - slack, "smin({}, {}, {}) = {}", a, b, k, r);
                assert!(r >= a as i128 - slack, "smin({}, {}, {}) = {}", a, b, k, r);
            }
        }
    }
}
