use noise::{NoiseFn, Perlin};
use surfgen::crater::{Crater, Craters};
use surfgen::field::{
    evaluate, make_const_displacement, make_displacement, make_noise_scale, make_noise_scale_xyz,
    Basis, CellReturn, NoiseKind, Primitive, ScalarField,
};
use surfgen::fixed::Fixed;
use surfgen::vector::Vec3;

fn raw(v: i64) -> Fixed {
    Fixed::from_raw(v)
}

fn point(x: i64, y: i64, z: i64) -> Vec3 {
    Vec3::new(raw(x), raw(y), raw(z))
}

fn silent(_: Primitive, _: Vec3) -> Fixed {
    Fixed::zero()
}

// Answers with the first coordinate plus twice the second plus four times the third.
fn weighted(_: Primitive, p: Vec3) -> Fixed {
    p.x.add(p.y.mul(Fixed::from_int(2))).add(p.z.mul(Fixed::from_int(4)))
}

// Answers with the seed in billionths.
fn seed_of(primitive: Primitive, _: Vec3) -> Fixed {
    raw(primitive.seed as i64)
}

fn perlin(primitive: Primitive, p: Vec3) -> Fixed {
    let source = Perlin::new(primitive.seed);
    let at = [p.x.raw() as f64 / 1e9, p.y.raw() as f64 / 1e9, p.z.raw() as f64 / 1e9];
    raw((source.get(at) * 1e9) as i64)
}

fn any_noise() -> ScalarField {
    ScalarField::primitive(Primitive::perlin(7))
}

#[test]
fn primitives_start_from_their_defaults() {
    let p = Primitive::perlin(9);
    assert_eq!((p.kind, p.basis, p.seed, p.octaves), (NoiseKind::Smooth, Basis::Perlin, 9, 6));
    assert_eq!(p.frequency.raw(), 1_000_000_000);
    assert_eq!(p.lacunarity.raw(), 2_094_395_102);
    assert_eq!(p.persistence.raw(), 1_000_000_000);
    assert_eq!(p.attenuation.raw(), 2_000_000_000);
    let f = Primitive::fbm(Basis::OpenSimplex, 3);
    assert_eq!((f.kind, f.basis, f.seed), (NoiseKind::Fbm, Basis::OpenSimplex, 3));
    assert_eq!((f.frequency.raw(), f.persistence.raw()), (1_000_000_000, 500_000_000));
    let r = Primitive::ridged_multi(Basis::OpenSimplex, 4);
    assert_eq!((r.kind, r.persistence.raw()), (NoiseKind::RidgedMulti, 1_000_000_000));
    let b = Primitive::basic_multi(Basis::Perlin, 5);
    assert_eq!(b.kind, NoiseKind::BasicMulti);
    assert_eq!((b.frequency.raw(), b.persistence.raw()), (2_000_000_000, 500_000_000));
    let w = Primitive::worley(6, CellReturn::Value);
    assert_eq!((w.kind, w.seed), (NoiseKind::Worley(CellReturn::Value), 6));
}

#[test]
fn primitive_setters_change_one_parameter() {
    let base = Primitive::fbm(Basis::Perlin, 1);
    assert_eq!(base.set_octaves(10), Primitive { octaves: 10, ..base });
    assert_eq!(base.set_frequency(raw(5)), Primitive { frequency: raw(5), ..base });
    assert_eq!(base.set_lacunarity(raw(6)), Primitive { lacunarity: raw(6), ..base });
    assert_eq!(base.set_persistence(raw(7)), Primitive { persistence: raw(7), ..base });
    assert_eq!(base.set_attenuation(raw(8)), Primitive { attenuation: raw(8), ..base });
}

#[test]
fn constant_field_is_the_same_everywhere() {
    let field = ScalarField::constant(raw(123));
    assert_eq!(evaluate(&field, point(1, 2, 3), &weighted), raw(123));
    assert_eq!(evaluate(&field, point(-9, 0, 9), &silent), raw(123));
}

#[test]
fn primitive_field_asks_the_noise() {
    let field = ScalarField::primitive(Primitive::perlin(77));
    assert_eq!(evaluate(&field, point(1, 10, 100), &weighted), raw(421));
    assert_eq!(evaluate(&field, point(1, 10, 100), &seed_of), raw(77));
    assert_eq!(field.get(point(1, 10, 100), &seed_of), raw(77));
}

#[test]
fn scale_bias_scales_then_shifts() {
    let field = ScalarField::scale_bias(raw(500_000_000), raw(20), any_noise());
    // (1 + 20 + 400) * 0.5 + 20 billionths, the product rounded toward zero
    assert_eq!(evaluate(&field, point(1, 10, 100), &weighted), raw(230));
    assert_eq!(evaluate(&field, point(-1, -10, -100), &weighted), raw(-190));
}

#[test]
fn scale_point_scales_each_coordinate() {
    let factors = Vec3::new(Fixed::from_int(2), Fixed::from_int(3), Fixed::from_int(-1));
    let field = ScalarField::scale_point(factors, any_noise());
    // 2 * 1 + 2 * (3 * 10) + 4 * (-100)
    assert_eq!(evaluate(&field, point(1, 10, 100), &weighted), raw(-338));
}

#[test]
fn scale_point_with_one_factor() {
    let field = ScalarField::scale_point_uniform(Fixed::from_int(3), any_noise());
    assert_eq!(evaluate(&field, point(1, 10, 100), &weighted), raw(3 + 2 * 30 + 4 * 300));
}

#[test]
fn exponent_keeps_the_sign() {
    let minus_two = ScalarField::constant(Fixed::from_int(-2));
    let cube = ScalarField::exponent(Fixed::from_int(3), minus_two);
    assert_eq!(evaluate(&cube, point(0, 0, 0), &silent), Fixed::from_int(-8));
    let root = ScalarField::exponent(raw(500_000_000), ScalarField::constant(Fixed::from_int(2)));
    assert_eq!(evaluate(&root, point(0, 0, 0), &silent), raw(1_414_213_562));
    let bent = ScalarField::exponent(raw(1_700_000_000), ScalarField::constant(raw(-250_000_000)));
    assert_eq!(evaluate(&bent, point(0, 0, 0), &silent), raw(-94_732_283));
}

#[test]
fn constant_offset_moves_the_point() {
    let field = ScalarField::constant_offset(point(5, 6, 7), any_noise());
    assert_eq!(evaluate(&field, point(1, 10, 100), &weighted), raw(6 + 2 * 16 + 4 * 107));
    let same = make_const_displacement(point(5, 6, 7), any_noise());
    assert_eq!(evaluate(&same, point(1, 10, 100), &weighted), raw(6 + 2 * 16 + 4 * 107));
}

#[test]
fn displacement_moves_the_point_by_three_fields() {
    let field = ScalarField::displace_by(
        ScalarField::constant(raw(1000)),
        ScalarField::constant(raw(-2000)),
        any_noise(),
        any_noise(),
    );
    // The third offset is the noise at the point itself: 1 + 20 + 400 = 421.
    let moved = point(1 + 1000, 10 - 2000, 100 + 421);
    let expected = weighted(Primitive::perlin(0), moved);
    assert_eq!(evaluate(&field, point(1, 10, 100), &weighted), expected);
}

#[test]
fn seeded_displacement_derives_three_seeds() {
    let seen = |seed: u32| {
        let field = make_displacement(seed, Fixed::one(), Fixed::one(), any_noise());
        let at = evaluate(&field, point(0, 0, 0), &|primitive: Primitive, p: Vec3| -> Fixed {
            if primitive.seed == 7 {
                p.x.add(p.y.mul(raw(2_000_000_000_000)))
            } else {
                raw(primitive.seed as i64)
            }
        });
        at
    };
    let z = |seed: u32| {
        let field = make_displacement(seed, Fixed::one(), Fixed::one(), any_noise());
        evaluate(&field, point(0, 0, 0), &|primitive: Primitive, p: Vec3| -> Fixed {
            if primitive.seed == 7 { p.z } else { raw(primitive.seed as i64) }
        })
    };
    assert_eq!(seen(1), raw(69 + 2000 * 123));
    assert_eq!(z(1), raw(231));
    assert_eq!(z(1000), raw(231_000));
    // Seeds wrap around at 2^32.
    assert_eq!(z(0xffff_ffff), raw((0xffff_ffffu32.wrapping_mul(231)) as i64));
    assert_eq!(z(0xffff_ffff), raw(4_294_967_065));
    let same = ScalarField::displace(Fixed::one(), Fixed::one(), 1000, any_noise());
    assert_eq!(
        evaluate(&same, point(0, 0, 0), &|primitive: Primitive, p: Vec3| -> Fixed {
            if primitive.seed == 7 { p.z } else { raw(primitive.seed as i64) }
        }),
        raw(231_000)
    );
}

#[test]
fn seeded_displacement_scales_point_and_strength() {
    // Strength 2 and frequency 3: each offset is twice the noise at three times the point.
    let field = make_displacement(1, Fixed::from_int(2), Fixed::from_int(3), any_noise());
    let at = evaluate(&field, point(1, 10, 100), &|primitive: Primitive, p: Vec3| -> Fixed {
        if primitive.seed == 7 { p.x } else { p.x }
    });
    assert_eq!(at, raw(1 + 2 * 3));
}

#[test]
fn noise_scale_combines_both_scalings() {
    let field = make_noise_scale(raw(7), Fixed::from_int(2), Fixed::from_int(3), any_noise());
    // ((3 + 60 + 1200) * 2 + 7
    assert_eq!(evaluate(&field, point(1, 10, 100), &weighted), raw(2533));
    let factors = Vec3::new(Fixed::from_int(1), Fixed::from_int(10), Fixed::from_int(1));
    let banded = make_noise_scale_xyz(raw(7), Fixed::from_int(2), factors, any_noise());
    assert_eq!(evaluate(&banded, point(1, 10, 100), &weighted), raw((1 + 200 + 400) * 2 + 7));
}

#[test]
fn sum_adds_both_fields() {
    let field = ScalarField::add(ScalarField::constant(raw(5)), any_noise());
    assert_eq!(evaluate(&field, point(1, 10, 100), &weighted), raw(426));
    let top = ScalarField::add(ScalarField::constant(raw(i64::MAX)), ScalarField::constant(raw(1)));
    assert_eq!(evaluate(&top, point(0, 0, 0), &silent), raw(i64::MAX));
}

#[test]
fn adding_the_zero_field_changes_nothing() {
    let tree = || {
        make_displacement(
            3,
            Fixed::from_milli(20),
            Fixed::from_int(2),
            ScalarField::exponent(
                Fixed::from_int(3),
                make_noise_scale(
                    Fixed::from_milli(500),
                    Fixed::from_milli(500),
                    Fixed::from_int(2),
                    any_noise(),
                ),
            ),
        )
    };
    let plain = tree();
    let padded = ScalarField::add(tree(), ScalarField::constant(Fixed::zero()));
    let mut x: i64 = -1_000_000_000;
    while x <= 1_000_000_000 {
        let p = point(x, 300_000_000 - x / 2, x / 3);
        assert_eq!(evaluate(&padded, p, &perlin), evaluate(&plain, p, &perlin));
        assert_eq!(evaluate(&padded, p, &weighted), evaluate(&plain, p, &weighted));
        x += 125_000_000;
    }
}

#[test]
fn evaluation_is_repeatable() {
    let field = ScalarField::add(
        make_displacement(11, Fixed::from_milli(300), Fixed::from_int(2), any_noise()),
        ScalarField::scale_bias(Fixed::from_milli(250), Fixed::from_milli(-100), any_noise()),
    );
    let p = point(600_000_000, -800_000_000, 0);
    let first = evaluate(&field, p, &perlin);
    for _ in 0..10 {
        assert_eq!(evaluate(&field, p, &perlin), first);
    }
    assert!(first.raw().abs() <= 2_000_000_000);
}

#[test]
fn perlin_noise_varies_with_point_and_seed() {
    let one = ScalarField::primitive(Primitive::perlin(1));
    let two = ScalarField::primitive(Primitive::perlin(2));
    let p = point(300_000_000, 700_000_000, 100_000_000);
    let q = point(310_000_000, 700_000_000, 100_000_000);
    assert_ne!(evaluate(&one, p, &perlin), evaluate(&one, q, &perlin));
    assert_ne!(evaluate(&one, p, &perlin), evaluate(&two, p, &perlin));
    assert_eq!(evaluate(&one, point(0, 0, 0), &perlin), Fixed::zero());
}

#[test]
fn crater_field_in_a_tree() {
    let crater = Crater::new(
        point(1_000_000_000, 0, 0),
        raw(500_000_000),
        raw(-400_000_000),
        raw(1_000_000_000),
        raw(500_000_000),
        raw(-300_000_000),
    )
    .unwrap();
    let lone = ScalarField::cratered(Craters::new(vec![crater]));
    assert_eq!(evaluate(&lone, point(1_000_000_000, 0, 0), &perlin), raw(-400_000_000));
    assert_eq!(evaluate(&lone, point(1_000_000_000, 250_000_000, 0), &perlin), raw(-31_250_000));
    assert_eq!(evaluate(&lone, point(1_000_000_000, 500_000_001, 0), &perlin), raw(0));
    assert_eq!(evaluate(&lone, point(-1_000_000_000, 0, 0), &weighted), raw(0));
    let halved = make_noise_scale(Fixed::zero(), Fixed::from_milli(500), Fixed::one(), lone);
    assert_eq!(evaluate(&halved, point(1_000_000_000, 0, 0), &perlin), raw(-200_000_000));
}
