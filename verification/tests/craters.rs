use surfgen::crater::{Crater, Craters};
use surfgen::errors::ConfigError;
use surfgen::fixed::Fixed;
use surfgen::vector::Vec3;

fn raw(v: i64) -> Fixed {
    Fixed::from_raw(v)
}

fn point(x: i64, y: i64, z: i64) -> Vec3 {
    Vec3::new(raw(x), raw(y), raw(z))
}

fn sample() -> Crater {
    Crater::new(
        point(1_000_000_000, 0, 0),
        raw(500_000_000),
        raw(-400_000_000),
        raw(1_000_000_000),
        raw(500_000_000),
        raw(-300_000_000),
    )
    .unwrap()
}

fn wide() -> Crater {
    Crater::new(
        point(1_000_000_000, 0, 0),
        raw(2_000_000_000),
        raw(-200_000_000),
        raw(1_000_000_000),
        raw(800_000_000),
        raw(-900_000_000),
    )
    .unwrap()
}

#[test]
fn crater_rejects_a_zero_smoothing_coefficient() {
    let p = point(0, 0, 0);
    let one = Fixed::one();
    assert_eq!(
        Crater::new(p, one, one.neg(), one, Fixed::zero(), one).err(),
        Some(ConfigError::ZeroBlend)
    );
    assert_eq!(
        Crater::new(p, one, one.neg(), one, one, Fixed::zero()).err(),
        Some(ConfigError::ZeroBlend)
    );
    assert!(Crater::new(p, one, one.neg(), one, raw(1), raw(-1)).is_ok());
    assert!(Crater::new(p, one.neg(), one, one.neg(), one, one).is_ok());
}

#[test]
fn crater_keeps_what_it_was_made_of() {
    let c = sample();
    assert_eq!(c.pos(), point(1_000_000_000, 0, 0));
    assert_eq!(c.radius().raw(), 500_000_000);
    assert_eq!(c.floor_height().raw(), -400_000_000);
    assert_eq!(c.steepness().raw(), 1_000_000_000);
    assert_eq!(c.k1().raw(), 500_000_000);
    assert_eq!(c.k2().raw(), -300_000_000);
}

#[test]
fn crater_profile_from_center_to_rim() {
    let c = sample();
    // At the center the bowl is -1 and the floor takes over.
    assert_eq!(c.get(raw(0)).raw(), -400_000_000);
    assert_eq!(c.get(raw(250_000_000)).raw(), -400_000_000);
    // bowl = 4 * 0.5^2 - 1 = 0, edge = 0.25, blended with k1 = 0.5: -0.03125
    assert_eq!(c.get(raw(500_000_000)).raw(), -31_250_000);
    // bowl = 1.25, edge = 0.0625: the rim stands above the plain
    assert_eq!(c.get(raw(750_000_000)).raw(), 62_500_000);
    assert_eq!(c.get(raw(1_000_000_000)).raw(), 0);
}

#[test]
fn crater_locates_points_within_its_radius() {
    let c = sample();
    assert_eq!(c.locate(point(1_000_000_000, 0, 0)), Some(raw(0)));
    assert_eq!(c.locate(point(1_000_000_000, 300_000_000, 0)), Some(raw(600_000_000)));
    assert_eq!(c.locate(point(700_000_000, 0, 0)), Some(raw(600_000_000)));
    assert_eq!(
        c.locate(point(1_000_000_000, 300_000_000, 400_000_000)),
        Some(raw(1_000_000_000))
    );
    assert_eq!(c.locate(point(1_000_000_000, 300_000_001, 400_000_000)), None);
    assert_eq!(c.locate(point(0, 0, 0)), None);
    assert_eq!(c.locate(point(i64::MIN, i64::MAX, i64::MIN)), None);
}

#[test]
fn lone_crater_is_zero_outside_its_radius() {
    let field = Craters::new(vec![sample()]);
    assert_eq!(field.len(), 1);
    assert_eq!(field.get(point(1_000_000_000, 300_000_001, 400_000_000)).raw(), 0);
    assert_eq!(field.get(point(499_999_999, 0, 0)).raw(), 0);
    assert_eq!(field.get(point(0, 0, 0)).raw(), 0);
    assert_eq!(field.get(point(-1_000_000_000, 0, 0)).raw(), 0);
    assert_eq!(field.get(point(i64::MAX, i64::MIN, 0)).raw(), 0);
    // On the rim itself the profile has come back to zero.
    assert_eq!(field.get(point(1_000_000_000, 300_000_000, 400_000_000)).raw(), 0);
    assert_eq!(field.get(point(1_000_000_000, 300_000_000, 0)).raw(), 135_800_000);
    assert_eq!(field.get(point(1_000_000_000, 0, 0)).raw(), -400_000_000);
}

#[test]
fn crater_contribution_is_its_profile_within_its_radius() {
    let c = sample();
    assert_eq!(c.contribution(point(1_000_000_000, 0, 0)), c.get(raw(0)));
    assert_eq!(c.contribution(point(1_000_000_000, 300_000_000, 0)), c.get(raw(600_000_000)));
    assert_eq!(c.contribution(point(1_000_000_000, 300_000_000, 0)).raw(), 135_800_000);
    assert_eq!(c.contribution(point(1_000_000_000, 500_000_001, 0)).raw(), 0);
}

#[test]
fn crater_without_positive_radius_holds_no_point() {
    let at = point(1_000_000_000, 0, 0);
    let one = Fixed::one();
    let flat = Crater::new(at, Fixed::zero(), one.neg(), one, one, one).unwrap();
    let inverted = Crater::new(at, one.neg(), one.neg(), one, one, one).unwrap();
    assert_eq!(flat.locate(at), None);
    assert_eq!(inverted.locate(at), None);
    assert_eq!(Craters::new(vec![flat, inverted]).get(at).raw(), 0);
}

#[test]
fn crater_field_sums_its_craters() {
    let field = Craters::new(vec![sample(), wide()]);
    assert_eq!(field.get(point(1_000_000_000, 0, 0)).raw(), -597_222_222);
    assert_eq!(field.get(point(0, 0, 0)).raw(), 80_824_280);
    assert_eq!(field.get(point(1_000_000_000, 250_000_000, 0)).raw(), -223_914_931);
    assert_eq!(Craters::new(vec![wide()]).get(point(1_000_000_000, 0, 0)).raw(), -197_222_222);
    assert_eq!(Craters::new(Vec::new()).get(point(1_000_000_000, 0, 0)).raw(), 0);
}

#[test]
fn crater_profile_is_bounded_below() {
    let c = sample();
    let mut d: i64 = 0;
    while d <= 1_000_000_000 {
        let h = c.get(raw(d)).raw();
        // The floor at -0.4, and a quarter of the two smoothing widths 0.5 and 0.3.
        assert!(4 * h >= 4 * -1_000_000_000 - 500_000_000 - 300_000_000);
        assert!(h >= -400_000_000);
        d += 15_625_000;
    }
}

#[test]
fn crater_profile_stays_above_its_floor() {
    for &floor in [-800_000_000i64, -400_000_000, -50_000_000, 0].iter() {
        let c = Crater::new(
            point(1_000_000_000, 0, 0),
            raw(500_000_000),
            raw(floor),
            raw(1_000_000_000),
            raw(500_000_000),
            raw(-300_000_000),
        )
        .unwrap();
        let mut d: i64 = 0;
        while d <= 1_000_000_000 {
            assert!(c.get(raw(d)).raw() >= floor - 2);
            d += 3_906_250;
        }
        // At its own center the crater adds the blend of minus one and its floor.
        let at_center = c.contribution(c.pos());
        assert_eq!(at_center, surfgen::smooth::smin(raw(-1_000_000_000), raw(floor), c.k2()));
    }
}
