use noise::{NoiseFn, Perlin};
use surfgen::field::{evaluate, Primitive, ScalarField};
use surfgen::fixed::Fixed;
use surfgen::gradient::Gradient;
use surfgen::planets::{planet, PlanetName, Surfgen, KJ61, KJ62, KJ621, KJ63, KJ631};
use surfgen::sphere::lat_lon_to_xyz;
use surfgen::vector::Vec3;

fn silent(_: Primitive, _: Vec3) -> Fixed {
    Fixed::zero()
}

fn perlin(primitive: Primitive, p: Vec3) -> Fixed {
    let source = Perlin::new(primitive.seed);
    let at = [p.x.raw() as f64 / 1e9, p.y.raw() as f64 / 1e9, p.z.raw() as f64 / 1e9];
    Fixed::from_raw((source.get(at) * 1e9) as i64)
}

fn stops(g: &Gradient) -> Vec<(i64, [u8; 4])> {
    (0..g.len()).filter_map(|i| g.stop(i)).map(|s| (s.value.raw(), s.color)).collect()
}

fn crater_counts(field: &ScalarField, found: &mut Vec<usize>) {
    match field {
        ScalarField::Constant(_) | ScalarField::Noise(_) => {}
        ScalarField::Cratered(craters) => found.push(craters.len()),
        ScalarField::ScaleBias { source, .. }
        | ScalarField::ScalePoint { source, .. }
        | ScalarField::Exponent { source, .. }
        | ScalarField::Offset { source, .. } => crater_counts(source, found),
        ScalarField::Displace { x, y, z, source } => {
            crater_counts(x, found);
            crater_counts(y, found);
            crater_counts(z, found);
            crater_counts(source, found);
        }
        ScalarField::Add(left, right) => {
            crater_counts(left, found);
            crater_counts(right, found);
        }
    }
}

fn counts(field: &ScalarField) -> Vec<usize> {
    let mut found = Vec::new();
    crater_counts(field, &mut found);
    found
}

#[test]
fn planet_gradients() {
    let one = 1_000_000_000;
    assert_eq!(
        stops(&KJ61::gradient()),
        vec![(-one, [94, 80, 64, 255]), (0, [138, 120, 96, 255]), (one, [208, 185, 140, 255])]
    );
    assert_eq!(
        stops(&KJ62::gradient()),
        vec![(-one, [102, 16, 4, 255]), (0, [139, 50, 26, 255]), (one, [212, 102, 51, 255])]
    );
    assert_eq!(
        stops(&KJ621::gradient()),
        vec![(-one, [82, 89, 82, 255]), (0, [139, 146, 130, 255]), (one, [212, 222, 212, 255])]
    );
    assert_eq!(
        stops(&KJ63::gradient()),
        vec![(-one, [6, 4, 32, 255]), (0, [70, 26, 139, 255]), (5 * one, [152, 31, 172, 255])]
    );
    assert_eq!(
        stops(&KJ631::gradient()),
        vec![(-one, [82, 29, 12, 255]), (0, [100, 62, 50, 255]), (one, [126, 126, 148, 255])]
    );
}

#[test]
fn planet_crater_fields() {
    assert_eq!(counts(&KJ61::noise()), vec![512]);
    assert_eq!(counts(&KJ62::noise()), vec![256]);
    assert_eq!(counts(&KJ621::noise()), vec![1024, 1]);
    assert_eq!(counts(&KJ63::noise()), Vec::<usize>::new());
    assert_eq!(counts(&KJ631::noise()), vec![1024]);
}

#[test]
fn planets_are_the_same_every_time() {
    let first = KJ621::noise();
    let second = KJ621::noise();
    let mut lat: i64 = -1_500_000_000;
    while lat <= 1_500_000_000 {
        let mut lon: i64 = -3_000_000_000;
        while lon <= 3_000_000_000 {
            let p = lat_lon_to_xyz(Fixed::from_raw(lat), Fixed::from_raw(lon));
            assert_eq!(evaluate(&first, p, &perlin), evaluate(&second, p, &perlin));
            lon += 750_000_000;
        }
        lat += 500_000_000;
    }
}

#[test]
fn basin_of_the_grey_green_world() {
    // With silent noise only the craters shape the terrain. The basin is centered
    // on the equator at longitude -0.2 and reaches far around the globe.
    let terrain = KJ621::noise();
    let center = lat_lon_to_xyz(Fixed::zero(), Fixed::from_milli(-200));
    let far = lat_lon_to_xyz(Fixed::zero(), Fixed::from_milli(2942));
    let at_center = evaluate(&terrain, center, &silent).raw();
    let at_far = evaluate(&terrain, far, &silent).raw();
    assert!(at_center < at_far);
    assert!(at_center < 0);
}

#[test]
fn planets_colour_their_heights() {
    let terrain = KJ63::noise();
    let gradient = KJ63::gradient();
    let p = lat_lon_to_xyz(Fixed::from_milli(300), Fixed::from_milli(-1200));
    let height = evaluate(&terrain, p, &perlin);
    let color = gradient.map_color(height);
    assert_eq!(color[3], 255);
    assert_eq!(gradient.map_color(Fixed::from_int(5)), [152, 31, 172, 255]);
    assert_eq!(gradient.map_color(Fixed::from_int(-1)), [6, 4, 32, 255]);
}

#[test]
fn planets_by_name() {
    let names = [
        PlanetName::KJ61,
        PlanetName::KJ62,
        PlanetName::KJ621,
        PlanetName::KJ63,
        PlanetName::KJ631,
    ];
    let expected = [vec![512], vec![256], vec![1024, 1], vec![], vec![1024]];
    for (name, craters) in names.iter().zip(expected.iter()) {
        let p = planet(*name);
        assert_eq!(&counts(&p.terrain), craters);
        assert_eq!(p.gradient.len(), 3);
    }
    let by_name = planet(PlanetName::KJ631);
    let direct = KJ631::noise();
    let at = lat_lon_to_xyz(Fixed::from_milli(-700), Fixed::from_milli(2500));
    assert_eq!(evaluate(&by_name.terrain, at, &perlin), evaluate(&direct, at, &perlin));
    assert_eq!(stops(&by_name.gradient), stops(&KJ631::gradient()));
}

#[test]
fn every_crater_of_a_planet_has_a_radius() {
    fn check(field: &ScalarField) {
        match field {
            ScalarField::Constant(_) | ScalarField::Noise(_) => {}
            ScalarField::Cratered(craters) => {
                for c in craters.craters.iter() {
                    assert!(c.radius().raw() > 0);
                }
            }
            ScalarField::ScaleBias { source, .. }
            | ScalarField::ScalePoint { source, .. }
            | ScalarField::Exponent { source, .. }
            | ScalarField::Offset { source, .. } => check(source),
            ScalarField::Displace { x, y, z, source } => {
                check(x);
                check(y);
                check(z);
                check(source);
            }
            ScalarField::Add(left, right) => {
                check(left);
                check(right);
            }
        }
    }
    check(&KJ61::noise());
    check(&KJ62::noise());
    check(&KJ621::noise());
    check(&KJ631::noise());
}
