//! Five planets: for each, a terrain and the gradient that colours it.

use vstd::prelude::*;
use crate::bombard::{
    bombard, bombardment, default_params, BombardmentConfig, BombardmentParams, Interval,
};
use crate::crater::{Crater, CraterView, Craters};
use crate::field::{
    displacement, make_displacement, make_noise_scale, make_noise_scale_xyz, noise_scale_xyz,
    Basis, FieldView, Primitive, ScalarField,
};
use crate::fixed::{milli, Fixed};
use crate::gradient::{Gradient, GradientStop};
use crate::sphere::{lat_lon_to_xyz, sphere_point};
use crate::vector::Vec3;

verus! {

/// A planet: a terrain over the sphere and the gradient that colours it.
pub trait Surfgen {
    /// What the terrain is made of.
    spec fn terrain() -> FieldView;

    /// The stops of the gradient, each as its value in thousandths and its
    /// colour.
    spec fn ramp() -> Seq<(int, Seq<u8>)>;

    /// The terrain of the planet.
    fn noise() -> (r: ScalarField)
        ensures
            r@ == Self::terrain(),
    ;

    /// The gradient of the planet.
    fn gradient() -> (g: Gradient)
        ensures
            portrays(g@, Self::ramp()),
    ;
}

/// Whether `stops` are the stops that `plan` lists, each as its value in
/// thousandths and its colour.
pub open spec fn portrays(stops: Seq<GradientStop>, plan: Seq<(int, Seq<u8>)>) -> bool {
    &&& stops.len() == plan.len()
    &&& forall|i: int|
        0 <= i < plan.len() ==> (#[trigger] stops[i]).value == milli(plan[i].0) && stops[i].color@
            == plan[i].1
}

/// The seed of thirty-two bytes `byte`.
pub open spec fn flat_seed(byte: u8) -> Seq<u8> {
    Seq::new(32, |i: int| byte)
}

/// The default bombardment with another radius range and bias, in
/// thousandths, and steepness drawn between 0.9 and 1.1.
pub open spec fn strewn(radius_min: int, radius_max: int, radius_bias: int) -> BombardmentParams {
    BombardmentParams {
        radius_range: Interval { min: milli(radius_min), max: milli(radius_max) },
        radius_bias: milli(radius_bias),
        steepness_range: Interval { min: milli(900), max: milli(1100) },
        ..default_params()
    }
}

fn seed_of(byte: u8) -> (seed: [u8; 32])
    ensures
        seed@ == flat_seed(byte),
{
    let seed = [
        byte, byte, byte, byte, byte, byte, byte, byte,
        byte, byte, byte, byte, byte, byte, byte, byte,
        byte, byte, byte, byte, byte, byte, byte, byte,
        byte, byte, byte, byte, byte, byte, byte, byte,
    ];
    assert(seed@ =~= flat_seed(byte));
    seed
}

fn strew(
    seed: u8,
    count: usize,
    radius_min: i32,
    radius_max: i32,
    radius_bias: i32,
) -> (r: ScalarField)
    requires
        radius_min <= radius_max,
    ensures
        r@ == FieldView::Cratered(
            bombardment(
                strewn(radius_min as int, radius_max as int, radius_bias as int),
                flat_seed(seed),
                count as nat,
            ),
        ),
{
    let mut params = BombardmentConfig::default().params();
    params.radius_range = Interval {
        min: Fixed::from_milli(radius_min),
        max: Fixed::from_milli(radius_max),
    };
    params.radius_bias = Fixed::from_milli(radius_bias);
    params.steepness_range = Interval { min: Fixed::from_milli(900), max: Fixed::from_milli(1100) };
    let config = BombardmentConfig::new(params).unwrap();
    ScalarField::cratered(bombard(seed_of(seed), count, &config))
}

/// The great basin: a single wide, shallow crater on the equator.
pub open spec fn basin_crater() -> CraterView {
    CraterView {
        pos: sphere_point(0, -200_000_000),
        radius: 1_800_000_000,
        floor_height: -200_000_000,
        steepness: 1_000_000_000,
        k1: 800_000_000,
        k2: -900_000_000,
    }
}

fn basin() -> (r: ScalarField)
    ensures
        r@ == FieldView::Cratered(seq![basin_crater()]),
{
    let crater = Crater::new(
        lat_lon_to_xyz(Fixed::zero(), Fixed::from_milli(-200)),
        Fixed::from_milli(1800),
        Fixed::from_milli(-200),
        Fixed::from_milli(1000),
        Fixed::from_milli(800),
        Fixed::from_milli(-900),
    ).unwrap();
    let mut craters: Vec<Crater> = Vec::new();
    craters.push(crater);
    let field = Craters::new(craters);
    assert(field@ =~= seq![basin_crater()]);
    ScalarField::cratered(field)
}

fn stop(value: i32, r: u8, g: u8, b: u8) -> (s: GradientStop)
    ensures
        s.value == milli(value as int),
        s.color@ == seq![r, g, b, 255u8],
{
    GradientStop { value: Fixed::from_milli(value), color: [r, g, b, 255] }
}

fn ramp_of(low: GradientStop, middle: GradientStop, high: GradientStop) -> (g: Gradient)
    requires
        low.value@ < middle.value@ < high.value@,
    ensures
        g@ == seq![low, middle, high],
{
    let mut stops: Vec<GradientStop> = Vec::new();
    stops.push(low);
    stops.push(middle);
    stops.push(high);
    assert(stops@ =~= seq![low, middle, high]);
    Gradient::new(stops).unwrap()
}

/// A dusty moon under a dense bombardment.
pub struct KJ61;

impl Surfgen for KJ61 {
    open spec fn terrain() -> FieldView {
        FieldView::sum(
            displacement(
                123123123,
                milli(20_000),
                milli(10),
                FieldView::raised(
                    milli(3000),
                    FieldView::scaled(
                        milli(500),
                        milli(500),
                        milli(2000),
                        FieldView::Noise(Primitive::fbm(Basis::Perlin, 123123123)),
                    ),
                ),
            ),
            FieldView::scaled(
                milli(0),
                milli(500),
                milli(1000),
                FieldView::Cratered(
                    bombardment(strewn(50, 500, 3200), flat_seed(37), 512),
                ),
            ),
        )
    }

    open spec fn ramp() -> Seq<(int, Seq<u8>)> {
        seq![
            (-1000, seq![94u8, 80u8, 64u8, 255u8]),
            (0, seq![138u8, 120u8, 96u8, 255u8]),
            (1000, seq![208u8, 185u8, 140u8, 255u8]),
        ]
    }

    fn noise() -> (r: ScalarField) {
        ScalarField::add(
            make_displacement(
                123123123,
                Fixed::from_milli(20_000),
                Fixed::from_milli(10),
                ScalarField::exponent(
                    Fixed::from_milli(3000),
                    make_noise_scale(
                        Fixed::from_milli(500),
                        Fixed::from_milli(500),
                        Fixed::from_milli(2000),
                        ScalarField::primitive(Primitive::fbm(Basis::Perlin, 123123123)),
                    ),
                ),
            ),
            make_noise_scale(
                Fixed::from_milli(0),
                Fixed::from_milli(500),
                Fixed::from_milli(1000),
                strew(37, 512, 50, 500, 3200),
            ),
        )
    }

    fn gradient() -> (g: Gradient) {
        ramp_of(
            stop(-1000, 94, 80, 64),
            stop(0, 138, 120, 96),
            stop(1000, 208, 185, 140),
        )
    }
}

/// A rust-red world of ridges and wide craters.
pub struct KJ62;

impl Surfgen for KJ62 {
    open spec fn terrain() -> FieldView {
        FieldView::sum(
            FieldView::sum(
                displacement(
                    54987,
                    milli(20_000),
                    milli(10),
                    FieldView::raised(
                        milli(3000),
                        FieldView::scaled(
                            milli(500),
                            milli(500),
                            milli(1000),
                            FieldView::Noise(
                                Primitive::fbm(Basis::Perlin, 829481)
                                    .set_frequency(milli(500))
                                    .set_lacunarity(milli(1000))
                                    .set_persistence(milli(800))
                                    .set_octaves(6),
                            ),
                        ),
                    ),
                ),
                FieldView::scaled(
                    milli(0),
                    milli(500),
                    milli(1000),
                    displacement(
                        482729,
                        milli(10_000),
                        milli(20),
                        FieldView::Noise(
                            Primitive::ridged_multi(Basis::OpenSimplex, 382721)
                                .set_frequency(milli(1200))
                                .set_lacunarity(milli(2290))
                                .set_persistence(milli(500))
                                .set_attenuation(milli(540)),
                        ),
                    ),
                ),
            ),
            FieldView::scaled(
                milli(0),
                milli(200),
                milli(1000),
                FieldView::Cratered(
                    bombardment(strewn(100, 700, 3200), flat_seed(87), 256),
                ),
            ),
        )
    }

    open spec fn ramp() -> Seq<(int, Seq<u8>)> {
        seq![
            (-1000, seq![102u8, 16u8, 4u8, 255u8]),
            (0, seq![139u8, 50u8, 26u8, 255u8]),
            (1000, seq![212u8, 102u8, 51u8, 255u8]),
        ]
    }

    fn noise() -> (r: ScalarField) {
        ScalarField::add(
            ScalarField::add(
                make_displacement(
                    54987,
                    Fixed::from_milli(20_000),
                    Fixed::from_milli(10),
                    ScalarField::exponent(
                        Fixed::from_milli(3000),
                        make_noise_scale(
                            Fixed::from_milli(500),
                            Fixed::from_milli(500),
                            Fixed::from_milli(1000),
                            ScalarField::primitive(
                                Primitive::fbm(Basis::Perlin, 829481)
                                    .set_frequency(Fixed::from_milli(500))
                                    .set_lacunarity(Fixed::from_milli(1000))
                                    .set_persistence(Fixed::from_milli(800))
                                    .set_octaves(6),
                            ),
                        ),
                    ),
                ),
                make_noise_scale(
                    Fixed::from_milli(0),
                    Fixed::from_milli(500),
                    Fixed::from_milli(1000),
                    make_displacement(
                        482729,
                        Fixed::from_milli(10_000),
                        Fixed::from_milli(20),
                        ScalarField::primitive(
                            Primitive::ridged_multi(Basis::OpenSimplex, 382721)
                                .set_frequency(Fixed::from_milli(1200))
                                .set_lacunarity(Fixed::from_milli(2290))
                                .set_persistence(Fixed::from_milli(500))
                                .set_attenuation(Fixed::from_milli(540)),
                        ),
                    ),
                ),
            ),
            make_noise_scale(
                Fixed::from_milli(0),
                Fixed::from_milli(200),
                Fixed::from_milli(1000),
                strew(87, 256, 100, 700, 3200),
            ),
        )
    }

    fn gradient() -> (g: Gradient) {
        ramp_of(
            stop(-1000, 102, 16, 4),
            stop(0, 139, 50, 26),
            stop(1000, 212, 102, 51),
        )
    }
}

/// A grey-green world with one great basin.
pub struct KJ621;

impl Surfgen for KJ621 {
    open spec fn terrain() -> FieldView {
        FieldView::sum(
            FieldView::sum(
                FieldView::sum(
                    displacement(
                        2,
                        milli(20_000),
                        milli(10),
                        FieldView::raised(
                            milli(2000),
                            FieldView::scaled(
                                milli(500),
                                milli(500),
                                milli(1000),
                                FieldView::Noise(
                                    Primitive::fbm(Basis::Perlin, 2232)
                                        .set_frequency(milli(900))
                                        .set_lacunarity(milli(1800))
                                        .set_persistence(milli(800))
                                        .set_octaves(10),
                                ),
                            ),
                        ),
                    ),
                    FieldView::scaled(
                        milli(0),
                        milli(500),
                        milli(1000),
                        displacement(
                            4312,
                            milli(10_000),
                            milli(20),
                            FieldView::Noise(
                                Primitive::ridged_multi(Basis::OpenSimplex, 5442)
                                    .set_frequency(milli(1000))
                                    .set_lacunarity(milli(1490))
                                    .set_persistence(milli(500))
                                    .set_attenuation(milli(640)),
                            ),
                        ),
                    ),
                ),
                FieldView::scaled(
                    milli(0),
                    milli(300),
                    milli(1000),
                    displacement(
                        382,
                        milli(3),
                        milli(50_000),
                        FieldView::Cratered(
                            bombardment(strewn(10, 900, 5200), flat_seed(32), 1024),
                        ),
                    ),
                ),
            ),
            FieldView::scaled(
                milli(0),
                milli(1000),
                milli(1000),
                displacement(
                    382,
                    milli(3),
                    milli(50_000),
                    FieldView::Cratered(seq![basin_crater()]),
                ),
            ),
        )
    }

    open spec fn ramp() -> Seq<(int, Seq<u8>)> {
        seq![
            (-1000, seq![82u8, 89u8, 82u8, 255u8]),
            (0, seq![139u8, 146u8, 130u8, 255u8]),
            (1000, seq![212u8, 222u8, 212u8, 255u8]),
        ]
    }

    fn noise() -> (r: ScalarField) {
        ScalarField::add(
            ScalarField::add(
                ScalarField::add(
                    make_displacement(
                        2,
                        Fixed::from_milli(20_000),
                        Fixed::from_milli(10),
                        ScalarField::exponent(
                            Fixed::from_milli(2000),
                            make_noise_scale(
                                Fixed::from_milli(500),
                                Fixed::from_milli(500),
                                Fixed::from_milli(1000),
                                ScalarField::primitive(
                                    Primitive::fbm(Basis::Perlin, 2232)
                                        .set_frequency(Fixed::from_milli(900))
                                        .set_lacunarity(Fixed::from_milli(1800))
                                        .set_persistence(Fixed::from_milli(800))
                                        .set_octaves(10),
                                ),
                            ),
                        ),
                    ),
                    make_noise_scale(
                        Fixed::from_milli(0),
                        Fixed::from_milli(500),
                        Fixed::from_milli(1000),
                        make_displacement(
                            4312,
                            Fixed::from_milli(10_000),
                            Fixed::from_milli(20),
                            ScalarField::primitive(
                                Primitive::ridged_multi(Basis::OpenSimplex, 5442)
                                    .set_frequency(Fixed::from_milli(1000))
                                    .set_lacunarity(Fixed::from_milli(1490))
                                    .set_persistence(Fixed::from_milli(500))
                                    .set_attenuation(Fixed::from_milli(640)),
                            ),
                        ),
                    ),
                ),
                make_noise_scale(
                    Fixed::from_milli(0),
                    Fixed::from_milli(300),
                    Fixed::from_milli(1000),
                    make_displacement(
                        382,
                        Fixed::from_milli(3),
                        Fixed::from_milli(50_000),
                        strew(32, 1024, 10, 900, 5200),
                    ),
                ),
            ),
            make_noise_scale(
                Fixed::from_milli(0),
                Fixed::from_milli(1000),
                Fixed::from_milli(1000),
                make_displacement(
                    382,
                    Fixed::from_milli(3),
                    Fixed::from_milli(50_000),
                    basin(),
                ),
            ),
        )
    }

    fn gradient() -> (g: Gradient) {
        ramp_of(
            stop(-1000, 82, 89, 82),
            stop(0, 139, 146, 130),
            stop(1000, 212, 222, 212),
        )
    }
}

/// A banded violet giant.
pub struct KJ63;

impl Surfgen for KJ63 {
    open spec fn terrain() -> FieldView {
        FieldView::sum(
            FieldView::scaled(
                milli(20),
                milli(200),
                milli(1000),
                displacement(
                    342,
                    milli(20_000),
                    milli(10),
                    FieldView::raised(
                        milli(5000),
                        noise_scale_xyz(
                            milli(500),
                            milli(500),
                            Vec3 { x: milli(1000), y: milli(10_000), z: milli(1000) },
                            FieldView::Noise(
                                Primitive::fbm(Basis::Perlin, 82481)
                                    .set_frequency(milli(500))
                                    .set_lacunarity(milli(1000))
                                    .set_persistence(milli(800))
                                    .set_octaves(6),
                            ),
                        ),
                    ),
                ),
            ),
            noise_scale_xyz(
                milli(0),
                milli(500),
                Vec3 { x: milli(1000), y: milli(8000), z: milli(1000) },
                displacement(
                    43837,
                    milli(10_000),
                    milli(200),
                    FieldView::Noise(
                        Primitive::basic_multi(Basis::OpenSimplex, 4918)
                            .set_frequency(milli(1200))
                            .set_lacunarity(milli(2290))
                            .set_persistence(milli(200)),
                    ),
                ),
            ),
        )
    }

    open spec fn ramp() -> Seq<(int, Seq<u8>)> {
        seq![
            (-1000, seq![6u8, 4u8, 32u8, 255u8]),
            (0, seq![70u8, 26u8, 139u8, 255u8]),
            (5000, seq![152u8, 31u8, 172u8, 255u8]),
        ]
    }

    fn noise() -> (r: ScalarField) {
        ScalarField::add(
            make_noise_scale(
                Fixed::from_milli(20),
                Fixed::from_milli(200),
                Fixed::from_milli(1000),
                make_displacement(
                    342,
                    Fixed::from_milli(20_000),
                    Fixed::from_milli(10),
                    ScalarField::exponent(
                        Fixed::from_milli(5000),
                        make_noise_scale_xyz(
                            Fixed::from_milli(500),
                            Fixed::from_milli(500),
                            Vec3::new(
                                Fixed::from_milli(1000),
                                Fixed::from_milli(10_000),
                                Fixed::from_milli(1000),
                            ),
                            ScalarField::primitive(
                                Primitive::fbm(Basis::Perlin, 82481)
                                    .set_frequency(Fixed::from_milli(500))
                                    .set_lacunarity(Fixed::from_milli(1000))
                                    .set_persistence(Fixed::from_milli(800))
                                    .set_octaves(6),
                            ),
                        ),
                    ),
                ),
            ),
            make_noise_scale_xyz(
                Fixed::from_milli(0),
                Fixed::from_milli(500),
                Vec3::new(
                    Fixed::from_milli(1000),
                    Fixed::from_milli(8000),
                    Fixed::from_milli(1000),
                ),
                make_displacement(
                    43837,
                    Fixed::from_milli(10_000),
                    Fixed::from_milli(200),
                    ScalarField::primitive(
                        Primitive::basic_multi(Basis::OpenSimplex, 4918)
                            .set_frequency(Fixed::from_milli(1200))
                            .set_lacunarity(Fixed::from_milli(2290))
                            .set_persistence(Fixed::from_milli(200)),
                    ),
                ),
            ),
        )
    }

    fn gradient() -> (g: Gradient) {
        ramp_of(
            stop(-1000, 6, 4, 32),
            stop(0, 70, 26, 139),
            stop(5000, 152, 31, 172),
        )
    }
}

/// A brown world, cratered and finely ridged.
pub struct KJ631;

impl Surfgen for KJ631 {
    open spec fn terrain() -> FieldView {
        FieldView::sum(
            FieldView::sum(
                FieldView::sum(
                    displacement(
                        2,
                        milli(20_000),
                        milli(10),
                        FieldView::raised(
                            milli(2000),
                            FieldView::scaled(
                                milli(500),
                                milli(500),
                                milli(1000),
                                FieldView::Noise(
                                    Primitive::fbm(Basis::Perlin, 95842)
                                        .set_frequency(milli(1500))
                                        .set_lacunarity(milli(2300))
                                        .set_persistence(milli(900))
                                        .set_octaves(10),
                                ),
                            ),
                        ),
                    ),
                    FieldView::scaled(
                        milli(0),
                        milli(500),
                        milli(1000),
                        displacement(
                            4312,
                            milli(10_000),
                            milli(20),
                            FieldView::Noise(
                                Primitive::ridged_multi(Basis::OpenSimplex, 941683)
                                    .set_frequency(milli(1000))
                                    .set_lacunarity(milli(1490))
                                    .set_persistence(milli(500))
                                    .set_attenuation(milli(640)),
                            ),
                        ),
                    ),
                ),
                FieldView::scaled(
                    milli(0),
                    milli(300),
                    milli(1000),
                    displacement(
                        5938,
                        milli(3),
                        milli(50_000),
                        FieldView::Cratered(
                            bombardment(strewn(200, 900, 5200), flat_seed(32), 1024),
                        ),
                    ),
                ),
            ),
            FieldView::scaled(
                milli(0),
                milli(-200),
                milli(8000),
                FieldView::Noise(
                    Primitive::ridged_multi(Basis::OpenSimplex, 95834)
                        .set_persistence(milli(1800)),
                ),
            ),
        )
    }

    open spec fn ramp() -> Seq<(int, Seq<u8>)> {
        seq![
            (-1000, seq![82u8, 29u8, 12u8, 255u8]),
            (0, seq![100u8, 62u8, 50u8, 255u8]),
            (1000, seq![126u8, 126u8, 148u8, 255u8]),
        ]
    }

    fn noise() -> (r: ScalarField) {
        ScalarField::add(
            ScalarField::add(
                ScalarField::add(
                    make_displacement(
                        2,
                        Fixed::from_milli(20_000),
                        Fixed::from_milli(10),
                        ScalarField::exponent(
                            Fixed::from_milli(2000),
                            make_noise_scale(
                                Fixed::from_milli(500),
                                Fixed::from_milli(500),
                                Fixed::from_milli(1000),
                                ScalarField::primitive(
                                    Primitive::fbm(Basis::Perlin, 95842)
                                        .set_frequency(Fixed::from_milli(1500))
                                        .set_lacunarity(Fixed::from_milli(2300))
                                        .set_persistence(Fixed::from_milli(900))
                                        .set_octaves(10),
                                ),
                            ),
                        ),
                    ),
                    make_noise_scale(
                        Fixed::from_milli(0),
                        Fixed::from_milli(500),
                        Fixed::from_milli(1000),
                        make_displacement(
                            4312,
                            Fixed::from_milli(10_000),
                            Fixed::from_milli(20),
                            ScalarField::primitive(
                                Primitive::ridged_multi(Basis::OpenSimplex, 941683)
                                    .set_frequency(Fixed::from_milli(1000))
                                    .set_lacunarity(Fixed::from_milli(1490))
                                    .set_persistence(Fixed::from_milli(500))
                                    .set_attenuation(Fixed::from_milli(640)),
                            ),
                        ),
                    ),
                ),
                make_noise_scale(
                    Fixed::from_milli(0),
                    Fixed::from_milli(300),
                    Fixed::from_milli(1000),
                    make_displacement(
                        5938,
                        Fixed::from_milli(3),
                        Fixed::from_milli(50_000),
                        strew(32, 1024, 200, 900, 5200),
                    ),
                ),
            ),
            make_noise_scale(
                Fixed::from_milli(0),
                Fixed::from_milli(-200),
                Fixed::from_milli(8000),
                ScalarField::primitive(
                    Primitive::ridged_multi(Basis::OpenSimplex, 95834)
                        .set_persistence(Fixed::from_milli(1800)),
                ),
            ),
        )
    }

    fn gradient() -> (g: Gradient) {
        ramp_of(
            stop(-1000, 82, 29, 12),
            stop(0, 100, 62, 50),
            stop(1000, 126, 126, 148),
        )
    }
}


/// The planets by name.
#[derive(Clone, Copy, Debug, PartialEq, Eq, Hash, Structural)]
pub enum PlanetName {
    KJ61,
    KJ62,
    KJ621,
    KJ63,
    KJ631,
}

/// A planet as data: its terrain and its gradient.
#[derive(Debug)]
pub struct Planet {
    pub terrain: ScalarField,
    pub gradient: Gradient,
}

/// What the terrain of the planet `name` is made of.
pub open spec fn terrain_of(name: PlanetName) -> FieldView {
    match name {
        PlanetName::KJ61 => KJ61::terrain(),
        PlanetName::KJ62 => KJ62::terrain(),
        PlanetName::KJ621 => KJ621::terrain(),
        PlanetName::KJ63 => KJ63::terrain(),
        PlanetName::KJ631 => KJ631::terrain(),
    }
}

/// The stops of the gradient of the planet `name`.
pub open spec fn ramp_named(name: PlanetName) -> Seq<(int, Seq<u8>)> {
    match name {
        PlanetName::KJ61 => KJ61::ramp(),
        PlanetName::KJ62 => KJ62::ramp(),
        PlanetName::KJ621 => KJ621::ramp(),
        PlanetName::KJ63 => KJ63::ramp(),
        PlanetName::KJ631 => KJ631::ramp(),
    }
}

/// The planet of the given name.
pub fn planet(name: PlanetName) -> (p: Planet)
    ensures
        p.terrain@ == terrain_of(name),
        portrays(p.gradient@, ramp_named(name)),
{
    match name {
        PlanetName::KJ61 => Planet { terrain: KJ61::noise(), gradient: KJ61::gradient() },
        PlanetName::KJ62 => Planet { terrain: KJ62::noise(), gradient: KJ62::gradient() },
        PlanetName::KJ621 => Planet { terrain: KJ621::noise(), gradient: KJ621::gradient() },
        PlanetName::KJ63 => Planet { terrain: KJ63::noise(), gradient: KJ63::gradient() },
        PlanetName::KJ631 => Planet { terrain: KJ631::noise(), gradient: KJ631::gradient() },
    }
}

} // verus!
