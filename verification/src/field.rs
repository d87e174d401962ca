//! Scalar fields: trees of operators over coherent-noise primitives, crater
//! fields and constants, evaluated at a point.
//!
//! A tree is plain data. The coherent noise of its primitives is computed by
//! whoever evaluates it: [`evaluate`] takes a function from a primitive and
//! a point to a height and asks it at each primitive it meets.

use vstd::prelude::*;
use crate::crater::{crater_sum, law_crater_support, CraterView, Craters};
use crate::fixed::{add_raw, fixed, mul_raw, Fixed};
use crate::power::signed_power_raw;
use crate::vector::Vec3;

verus! {

/// What a cellular primitive returns for the nearest cell.
#[derive(Clone, Copy, Debug, PartialEq, Eq, Hash, Structural)]
pub enum CellReturn {
    /// The distance to the nearest cell.
    Distance,
    /// The value of the nearest cell.
    Value,
}

/// The kinds of coherent-noise primitive.
#[derive(Clone, Copy, Debug, PartialEq, Eq, Hash, Structural)]
pub enum NoiseKind {
    /// A single octave of smooth noise.
    Smooth,
    /// A fractal sum of octaves.
    Fbm,
    /// A ridged multifractal.
    RidgedMulti,
    /// A basic multifractal.
    BasicMulti,
    /// Cellular noise.
    Worley(CellReturn),
}

/// The smooth noise that a primitive is made of.
#[derive(Clone, Copy, Debug, PartialEq, Eq, Hash, Structural)]
pub enum Basis {
    /// Gradient noise on a cubic lattice.
    Perlin,
    /// Gradient noise on a simplex lattice.
    OpenSimplex,
}

/// A seeded coherent-noise primitive, as plain data.
#[derive(Clone, Copy, Debug, PartialEq, Eq, Hash, Structural)]
pub struct Primitive {
    pub kind: NoiseKind,
    pub basis: Basis,
    pub seed: u32,
    /// Number of octaves.
    pub octaves: u32,
    /// Frequency of the first octave.
    pub frequency: Fixed,
    /// Factor between the frequencies of successive octaves.
    pub lacunarity: Fixed,
    /// Factor between the amplitudes of successive octaves.
    pub persistence: Fixed,
    /// How strongly one octave of a ridged multifractal damps the next.
    pub attenuation: Fixed,
}

/// Number of octaves of a primitive unless set otherwise.
pub const DEFAULT_OCTAVES: u32 = 6;

/// Raw lacunarity of a primitive unless set otherwise: a third of a turn.
pub const DEFAULT_LACUNARITY: i64 = 2_094_395_102;

/// Raw attenuation of a primitive unless set otherwise.
pub const DEFAULT_ATTENUATION: i64 = 2_000_000_000;

impl Primitive {
    /// The primitive of the given kind, basis and seed with six octaves,
    /// the given first frequency and persistence, a lacunarity of a third
    /// of a turn and an attenuation of two.
    pub open spec fn base(
        kind: NoiseKind,
        basis: Basis,
        seed: u32,
        frequency: int,
        persistence: int,
    ) -> Primitive {
        Primitive {
            kind,
            basis,
            seed,
            octaves: DEFAULT_OCTAVES,
            frequency: fixed(frequency),
            lacunarity: fixed(DEFAULT_LACUNARITY as int),
            persistence: fixed(persistence),
            attenuation: fixed(DEFAULT_ATTENUATION as int),
        }
    }

    /// A single octave of Perlin noise, as a value.
    pub open spec fn perlin_of(seed: u32) -> Primitive {
        Primitive::base(NoiseKind::Smooth, Basis::Perlin, seed, 1_000_000_000, 1_000_000_000)
    }

    /// A fractal sum with frequency 1 and persistence 1/2, as a value.
    pub open spec fn fbm_of(basis: Basis, seed: u32) -> Primitive {
        Primitive::base(NoiseKind::Fbm, basis, seed, 1_000_000_000, 500_000_000)
    }

    /// A ridged multifractal with frequency 1 and persistence 1, as a value.
    pub open spec fn ridged_multi_of(basis: Basis, seed: u32) -> Primitive {
        Primitive::base(NoiseKind::RidgedMulti, basis, seed, 1_000_000_000, 1_000_000_000)
    }

    /// A basic multifractal with frequency 2 and persistence 1/2, as a
    /// value.
    pub open spec fn basic_multi_of(basis: Basis, seed: u32) -> Primitive {
        Primitive::base(NoiseKind::BasicMulti, basis, seed, 2_000_000_000, 500_000_000)
    }

    /// Cellular noise with frequency 1, as a value.
    pub open spec fn worley_of(seed: u32, mode: CellReturn) -> Primitive {
        Primitive::base(
            NoiseKind::Worley(mode),
            Basis::Perlin,
            seed,
            1_000_000_000,
            1_000_000_000,
        )
    }

    /// The same primitive with another number of octaves, as a value.
    pub open spec fn with_octaves(self, octaves: u32) -> Primitive {
        Primitive { octaves, ..self }
    }

    /// The same primitive with another first frequency, as a value.
    pub open spec fn with_frequency(self, frequency: Fixed) -> Primitive {
        Primitive { frequency, ..self }
    }

    /// The same primitive with another lacunarity, as a value.
    pub open spec fn with_lacunarity(self, lacunarity: Fixed) -> Primitive {
        Primitive { lacunarity, ..self }
    }

    /// The same primitive with another persistence, as a value.
    pub open spec fn with_persistence(self, persistence: Fixed) -> Primitive {
        Primitive { persistence, ..self }
    }

    /// The same primitive with another attenuation, as a value.
    pub open spec fn with_attenuation(self, attenuation: Fixed) -> Primitive {
        Primitive { attenuation, ..self }
    }

    fn make(
        kind: NoiseKind,
        basis: Basis,
        seed: u32,
        frequency: i64,
        persistence: i64,
    ) -> (r: Primitive)
        ensures
            r == Primitive::base(kind, basis, seed, frequency as int, persistence as int),
    {
        Primitive {
            kind,
            basis,
            seed,
            octaves: DEFAULT_OCTAVES,
            frequency: Fixed::from_raw(frequency),
            lacunarity: Fixed::from_raw(DEFAULT_LACUNARITY),
            persistence: Fixed::from_raw(persistence),
            attenuation: Fixed::from_raw(DEFAULT_ATTENUATION),
        }
    }

    /// A single octave of Perlin noise.
    #[verifier::when_used_as_spec(perlin_of)]
    pub fn perlin(seed: u32) -> (r: Primitive)
        ensures
            r == Primitive::perlin_of(seed),
    {
        Primitive::make(NoiseKind::Smooth, Basis::Perlin, seed, 1_000_000_000, 1_000_000_000)
    }

    /// A fractal sum over the given basis: frequency 1, persistence 1/2.
    #[verifier::when_used_as_spec(fbm_of)]
    pub fn fbm(basis: Basis, seed: u32) -> (r: Primitive)
        ensures
            r == Primitive::fbm_of(basis, seed),
    {
        Primitive::make(NoiseKind::Fbm, basis, seed, 1_000_000_000, 500_000_000)
    }

    /// A ridged multifractal over the given basis: frequency 1,
    /// persistence 1.
    #[verifier::when_used_as_spec(ridged_multi_of)]
    pub fn ridged_multi(basis: Basis, seed: u32) -> (r: Primitive)
        ensures
            r == Primitive::ridged_multi_of(basis, seed),
    {
        Primitive::make(NoiseKind::RidgedMulti, basis, seed, 1_000_000_000, 1_000_000_000)
    }

    /// A basic multifractal over the given basis: frequency 2,
    /// persistence 1/2.
    #[verifier::when_used_as_spec(basic_multi_of)]
    pub fn basic_multi(basis: Basis, seed: u32) -> (r: Primitive)
        ensures
            r == Primitive::basic_multi_of(basis, seed),
    {
        Primitive::make(NoiseKind::BasicMulti, basis, seed, 2_000_000_000, 500_000_000)
    }

    /// Cellular noise in the given mode: frequency 1.
    #[verifier::when_used_as_spec(worley_of)]
    pub fn worley(seed: u32, mode: CellReturn) -> (r: Primitive)
        ensures
            r == Primitive::worley_of(seed, mode),
    {
        Primitive::make(
            NoiseKind::Worley(mode),
            Basis::Perlin,
            seed,
            1_000_000_000,
            1_000_000_000,
        )
    }

    /// The same primitive with another number of octaves.
    #[verifier::when_used_as_spec(with_octaves)]
    pub fn set_octaves(self, octaves: u32) -> (r: Primitive)
        ensures
            r == self.with_octaves(octaves),
    {
        Primitive { octaves, ..self }
    }

    /// The same primitive with another first frequency.
    #[verifier::when_used_as_spec(with_frequency)]
    pub fn set_frequency(self, frequency: Fixed) -> (r: Primitive)
        ensures
            r == self.with_frequency(frequency),
    {
        Primitive { frequency, ..self }
    }

    /// The same primitive with another lacunarity.
    #[verifier::when_used_as_spec(with_lacunarity)]
    pub fn set_lacunarity(self, lacunarity: Fixed) -> (r: Primitive)
        ensures
            r == self.with_lacunarity(lacunarity),
    {
        Primitive { lacunarity, ..self }
    }

    /// The same primitive with another persistence.
    #[verifier::when_used_as_spec(with_persistence)]
    pub fn set_persistence(self, persistence: Fixed) -> (r: Primitive)
        ensures
            r == self.with_persistence(persistence),
    {
        Primitive { persistence, ..self }
    }

    /// The same primitive with another attenuation.
    #[verifier::when_used_as_spec(with_attenuation)]
    pub fn set_attenuation(self, attenuation: Fixed) -> (r: Primitive)
        ensures
            r == self.with_attenuation(attenuation),
    {
        Primitive { attenuation, ..self }
    }
}

/// A function from a point to a height, as a tree of operators.
#[derive(Debug)]
pub enum ScalarField {
    /// The same height everywhere.
    Constant(Fixed),
    /// A coherent-noise primitive.
    Noise(Primitive),
    /// A field of craters.
    Cratered(Craters),
    /// `source(p) * scale + bias`.
    ScaleBias { scale: Fixed, bias: Fixed, source: Box<ScalarField> },
    /// `source(p * factors)`, coordinate by coordinate.
    ScalePoint { factors: Vec3, source: Box<ScalarField> },
    /// `sign(source(p)) * |source(p)|^exponent`.
    Exponent { exponent: Fixed, source: Box<ScalarField> },
    /// `source(p + offset)`.
    Offset { offset: Vec3, source: Box<ScalarField> },
    /// `source(p + (x(p), y(p), z(p)))`.
    Displace {
        x: Box<ScalarField>,
        y: Box<ScalarField>,
        z: Box<ScalarField>,
        source: Box<ScalarField>,
    },
    /// `left(p) + right(p)`.
    Add(Box<ScalarField>, Box<ScalarField>),
}

/// What a scalar field is made of: the same tree with each crater field
/// as the sequence of its craters.
pub enum FieldView {
    Constant(Fixed),
    Noise(Primitive),
    Cratered(Seq<CraterView>),
    ScaleBias { scale: Fixed, bias: Fixed, source: Box<FieldView> },
    ScalePoint { factors: Vec3, source: Box<FieldView> },
    Exponent { exponent: Fixed, source: Box<FieldView> },
    Offset { offset: Vec3, source: Box<FieldView> },
    Displace { x: Box<FieldView>, y: Box<FieldView>, z: Box<FieldView>, source: Box<FieldView> },
    Add(Box<FieldView>, Box<FieldView>),
}

/// What the tree `field` is made of.
pub open spec fn field_view(field: ScalarField) -> FieldView
    decreases field,
{
    match field {
        ScalarField::Constant(v) => FieldView::Constant(v),
        ScalarField::Noise(primitive) => FieldView::Noise(primitive),
        ScalarField::Cratered(craters) => FieldView::Cratered(craters@),
        ScalarField::ScaleBias { scale, bias, source } => FieldView::ScaleBias {
            scale,
            bias,
            source: Box::new(field_view(*source)),
        },
        ScalarField::ScalePoint { factors, source } => FieldView::ScalePoint {
            factors,
            source: Box::new(field_view(*source)),
        },
        ScalarField::Exponent { exponent, source } => FieldView::Exponent {
            exponent,
            source: Box::new(field_view(*source)),
        },
        ScalarField::Offset { offset, source } => FieldView::Offset {
            offset,
            source: Box::new(field_view(*source)),
        },
        ScalarField::Displace { x, y, z, source } => FieldView::Displace {
            x: Box::new(field_view(*x)),
            y: Box::new(field_view(*y)),
            z: Box::new(field_view(*z)),
            source: Box::new(field_view(*source)),
        },
        ScalarField::Add(left, right) => FieldView::Add(
            Box::new(field_view(*left)),
            Box::new(field_view(*right)),
        ),
    }
}

impl View for ScalarField {
    type V = FieldView;

    open spec fn view(&self) -> FieldView {
        field_view(*self)
    }
}

/// The point `p` moved by `(dx, dy, dz)`.
pub open spec fn displaced(p: Vec3, dx: Fixed, dy: Fixed, dz: Fixed) -> Vec3 {
    p.plus(Vec3 { x: dx, y: dy, z: dz })
}

/// Whether `r` is a height of `field` at `p`, where `noise` answers for the
/// primitives: any height that `noise` may return for a primitive at the
/// point where the tree reaches it counts for that primitive.
pub open spec fn yields<F: Fn(Primitive, Vec3) -> Fixed>(
    field: FieldView,
    p: Vec3,
    noise: &F,
    r: Fixed,
) -> bool
    decreases field,
{
    match field {
        FieldView::Constant(v) => r == v,
        FieldView::Noise(primitive) => noise.ensures((primitive, p), r),
        FieldView::Cratered(craters) => r@ == crater_sum(craters, p),
        FieldView::ScaleBias { scale, bias, source } => exists|v: Fixed|
            yields(*source, p, noise, v) && r@ == add_raw(mul_raw(#[trigger] v@, scale@), bias@),
        FieldView::ScalePoint { factors, source } => yields(*source, p.times(factors), noise, r),
        FieldView::Exponent { exponent, source } => exists|v: Fixed|
            yields(*source, p, noise, v) && r@ == signed_power_raw(#[trigger] v@, exponent@),
        FieldView::Offset { offset, source } => yields(*source, p.plus(offset), noise, r),
        FieldView::Displace { x, y, z, source } => exists|dx: Fixed, dy: Fixed, dz: Fixed|
            yields(*x, p, noise, dx) && yields(*y, p, noise, dy) && yields(*z, p, noise, dz)
                && yields(*source, #[trigger] displaced(p, dx, dy, dz), noise, r),
        FieldView::Add(left, right) => exists|a: Fixed, b: Fixed|
            #![trigger a@, b@]
            yields(*left, p, noise, a) && yields(*right, p, noise, b) && r@ == add_raw(a@, b@),
    }
}

/// Height of `field` at `p` where the primitives have the heights that
/// `oracle` gives them.
pub open spec fn height(
    field: FieldView,
    p: Vec3,
    oracle: spec_fn(Primitive, Vec3) -> Fixed,
) -> Fixed
    decreases field,
{
    match field {
        FieldView::Constant(v) => v,
        FieldView::Noise(primitive) => oracle(primitive, p),
        FieldView::Cratered(craters) => fixed(crater_sum(craters, p)),
        FieldView::ScaleBias { scale, bias, source } => fixed(
            add_raw(mul_raw(height(*source, p, oracle)@, scale@), bias@),
        ),
        FieldView::ScalePoint { factors, source } => height(*source, p.times(factors), oracle),
        FieldView::Exponent { exponent, source } => fixed(
            signed_power_raw(height(*source, p, oracle)@, exponent@),
        ),
        FieldView::Offset { offset, source } => height(*source, p.plus(offset), oracle),
        FieldView::Displace { x, y, z, source } => height(
            *source,
            displaced(p, height(*x, p, oracle), height(*y, p, oracle), height(*z, p, oracle)),
            oracle,
        ),
        FieldView::Add(left, right) => fixed(
            add_raw(height(*left, p, oracle)@, height(*right, p, oracle)@),
        ),
    }
}

/// Whether `noise` returns nothing but what `oracle` gives.
pub open spec fn answers<F: Fn(Primitive, Vec3) -> Fixed>(
    noise: &F,
    oracle: spec_fn(Primitive, Vec3) -> Fixed,
) -> bool {
    forall|primitive: Primitive, q: Vec3, v: Fixed| #[trigger]
        noise.ensures((primitive, q), v) ==> v == oracle(primitive, q)
}

/// Where the noise returns nothing but what `oracle` gives, the one height
/// of a field at a point is its height under `oracle`.
pub proof fn law_height<F: Fn(Primitive, Vec3) -> Fixed>(
    field: FieldView,
    p: Vec3,
    noise: &F,
    oracle: spec_fn(Primitive, Vec3) -> Fixed,
    r: Fixed,
)
    requires
        answers(noise, oracle),
        yields(field, p, noise, r),
    ensures
        r == height(field, p, oracle),
    decreases field,
{
    match field {
        FieldView::Constant(_) => {},
        FieldView::Noise(_) => {},
        FieldView::Cratered(_) => {},
        FieldView::ScaleBias { scale, bias, source } => {
            let v = choose|v: Fixed|
                yields(*source, p, noise, v) && r@ == add_raw(
                    mul_raw(#[trigger] v@, scale@),
                    bias@,
                );
            law_height(*source, p, noise, oracle, v);
        },
        FieldView::ScalePoint { factors, source } => {
            law_height(*source, p.times(factors), noise, oracle, r);
        },
        FieldView::Exponent { exponent, source } => {
            let v = choose|v: Fixed|
                yields(*source, p, noise, v) && r@ == signed_power_raw(#[trigger] v@, exponent@);
            law_height(*source, p, noise, oracle, v);
        },
        FieldView::Offset { offset, source } => {
            law_height(*source, p.plus(offset), noise, oracle, r);
        },
        FieldView::Displace { x, y, z, source } => {
            let (dx, dy, dz) = choose|dx: Fixed, dy: Fixed, dz: Fixed|
                yields(*x, p, noise, dx) && yields(*y, p, noise, dy) && yields(*z, p, noise, dz)
                    && yields(*source, #[trigger] displaced(p, dx, dy, dz), noise, r);
            law_height(*x, p, noise, oracle, dx);
            law_height(*y, p, noise, oracle, dy);
            law_height(*z, p, noise, oracle, dz);
            law_height(*source, displaced(p, dx, dy, dz), noise, oracle, r);
        },
        FieldView::Add(left, right) => {
            let (a, b) = choose|a: Fixed, b: Fixed|
                #![trigger a@, b@]
                yields(*left, p, noise, a) && yields(*right, p, noise, b) && r@ == add_raw(
                    a@,
                    b@,
                );
            law_height(*left, p, noise, oracle, a);
            law_height(*right, p, noise, oracle, b);
        },
    }
}

/// Height of `field` at `point`, with `noise` answering for the primitives.
///
/// The result is a height that the field yields for what `noise` returned;
/// where `noise` is a function, it is the height under that function.
pub fn evaluate<F: Fn(Primitive, Vec3) -> Fixed>(
    field: &ScalarField,
    point: Vec3,
    noise: &F,
) -> (r: Fixed)
    requires
        forall|primitive: Primitive, q: Vec3| noise.requires((primitive, q)),
    ensures
        yields(field@, point, noise, r),
        forall|oracle: spec_fn(Primitive, Vec3) -> Fixed| #[trigger]
            answers(noise, oracle) ==> r == height(field@, point, oracle),
{
    let r = evaluate_tree(field, point, noise);
    assert forall|oracle: spec_fn(Primitive, Vec3) -> Fixed| #[trigger]
        answers(noise, oracle) implies r == height(field@, point, oracle) by {
        law_height(field@, point, noise, oracle, r);
    }
    r
}

fn evaluate_tree<F: Fn(Primitive, Vec3) -> Fixed>(
    field: &ScalarField,
    point: Vec3,
    noise: &F,
) -> (r: Fixed)
    requires
        forall|primitive: Primitive, q: Vec3| noise.requires((primitive, q)),
    ensures
        yields(field@, point, noise, r),
    decreases field,
{
    match field {
        ScalarField::Constant(v) => *v,
        ScalarField::Noise(primitive) => noise(*primitive, point),
        ScalarField::Cratered(craters) => craters.get(point),
        ScalarField::ScaleBias { scale, bias, source } => {
            let v = evaluate_tree(source, point, noise);
            v.mul(*scale).add(*bias)
        },
        ScalarField::ScalePoint { factors, source } => evaluate_tree(
            source,
            point.scale(*factors),
            noise,
        ),
        ScalarField::Exponent { exponent, source } => {
            let v = evaluate_tree(source, point, noise);
            v.pow(*exponent)
        },
        ScalarField::Offset { offset, source } => evaluate_tree(source, point.add(*offset), noise),
        ScalarField::Displace { x, y, z, source } => {
            let dx = evaluate_tree(x, point, noise);
            let dy = evaluate_tree(y, point, noise);
            let dz = evaluate_tree(z, point, noise);
            let moved = point.add(Vec3 { x: dx, y: dy, z: dz });
            assert(moved == displaced(point, dx, dy, dz));
            evaluate_tree(source, moved, noise)
        },
        ScalarField::Add(left, right) => {
            let a = evaluate_tree(left, point, noise);
            let b = evaluate_tree(right, point, noise);
            a.add(b)
        },
    }
}

/// Whether `noise` has at most one answer for each primitive and point.
pub open spec fn single_valued<F: Fn(Primitive, Vec3) -> Fixed>(noise: &F) -> bool {
    forall|primitive: Primitive, q: Vec3, v: Fixed, w: Fixed|
        #![trigger noise.ensures((primitive, q), v), noise.ensures((primitive, q), w)]
        noise.ensures((primitive, q), v) && noise.ensures((primitive, q), w) ==> v == w
}

/// Evaluation is repeatable: where the noise has one answer for each
/// primitive and point, a field has one height at each point.
pub proof fn law_evaluation_repeatable<F: Fn(Primitive, Vec3) -> Fixed>(
    field: FieldView,
    p: Vec3,
    noise: &F,
    r1: Fixed,
    r2: Fixed,
)
    requires
        single_valued(noise),
        yields(field, p, noise, r1),
        yields(field, p, noise, r2),
    ensures
        r1 == r2,
    decreases field,
{
    match field {
        FieldView::Constant(_) => {},
        FieldView::Noise(_) => {},
        FieldView::Cratered(_) => {},
        FieldView::ScaleBias { scale, bias, source } => {
            let v1 = choose|v: Fixed|
                yields(*source, p, noise, v) && r1@ == add_raw(
                    mul_raw(#[trigger] v@, scale@),
                    bias@,
                );
            let v2 = choose|v: Fixed|
                yields(*source, p, noise, v) && r2@ == add_raw(
                    mul_raw(#[trigger] v@, scale@),
                    bias@,
                );
            law_evaluation_repeatable(*source, p, noise, v1, v2);
        },
        FieldView::ScalePoint { factors, source } => {
            law_evaluation_repeatable(*source, p.times(factors), noise, r1, r2);
        },
        FieldView::Exponent { exponent, source } => {
            let v1 = choose|v: Fixed|
                yields(*source, p, noise, v) && r1@ == signed_power_raw(#[trigger] v@, exponent@);
            let v2 = choose|v: Fixed|
                yields(*source, p, noise, v) && r2@ == signed_power_raw(#[trigger] v@, exponent@);
            law_evaluation_repeatable(*source, p, noise, v1, v2);
        },
        FieldView::Offset { offset, source } => {
            law_evaluation_repeatable(*source, p.plus(offset), noise, r1, r2);
        },
        FieldView::Displace { x, y, z, source } => {
            let (ax, ay, az) = choose|dx: Fixed, dy: Fixed, dz: Fixed|
                yields(*x, p, noise, dx) && yields(*y, p, noise, dy) && yields(*z, p, noise, dz)
                    && yields(*source, #[trigger] displaced(p, dx, dy, dz), noise, r1);
            let (bx, by, bz) = choose|dx: Fixed, dy: Fixed, dz: Fixed|
                yields(*x, p, noise, dx) && yields(*y, p, noise, dy) && yields(*z, p, noise, dz)
                    && yields(*source, #[trigger] displaced(p, dx, dy, dz), noise, r2);
            law_evaluation_repeatable(*x, p, noise, ax, bx);
            law_evaluation_repeatable(*y, p, noise, ay, by);
            law_evaluation_repeatable(*z, p, noise, az, bz);
            law_evaluation_repeatable(*source, displaced(p, ax, ay, az), noise, r1, r2);
        },
        FieldView::Add(left, right) => {
            let (a1, b1) = choose|a: Fixed, b: Fixed|
                #![trigger a@, b@]
                yields(*left, p, noise, a) && yields(*right, p, noise, b) && r1@ == add_raw(
                    a@,
                    b@,
                );
            let (a2, b2) = choose|a: Fixed, b: Fixed|
                #![trigger a@, b@]
                yields(*left, p, noise, a) && yields(*right, p, noise, b) && r2@ == add_raw(
                    a@,
                    b@,
                );
            law_evaluation_repeatable(*left, p, noise, a1, a2);
            law_evaluation_repeatable(*right, p, noise, b1, b2);
        },
    }
}

/// The field that is zero everywhere.
pub open spec fn zero_field() -> FieldView {
    FieldView::Constant(fixed(0))
}

/// Adding the zero field changes no height: a field and its sum with the
/// zero field have the same heights at every point.
pub proof fn law_add_zero<F: Fn(Primitive, Vec3) -> Fixed>(
    field: FieldView,
    p: Vec3,
    noise: &F,
    r: Fixed,
)
    ensures
        yields(FieldView::Add(Box::new(field), Box::new(zero_field())), p, noise, r) <==> yields(
            field,
            p,
            noise,
            r,
        ),
{
    let sum = FieldView::Add(Box::new(field), Box::new(zero_field()));
    if yields(field, p, noise, r) {
        assert(yields(zero_field(), p, noise, fixed(0)));
        assert(r@ == add_raw(r@, fixed(0)@));
    }
    if yields(sum, p, noise, r) {
        let (a, b) = choose|a: Fixed, b: Fixed|
            #![trigger a@, b@]
            yields(field, p, noise, a) && yields(zero_field(), p, noise, b) && r@ == add_raw(
                a@,
                b@,
            );
        assert(r == a);
    }
}

impl ScalarField {
    /// The field that has the height `value` everywhere.
    pub fn constant(value: Fixed) -> (r: ScalarField)
        ensures
            r@ == FieldView::Constant(value),
    {
        ScalarField::Constant(value)
    }

    /// The field of a coherent-noise primitive.
    pub fn primitive(primitive: Primitive) -> (r: ScalarField)
        ensures
            r@ == FieldView::Noise(primitive),
    {
        ScalarField::Noise(primitive)
    }

    /// The field of a set of craters.
    pub fn cratered(craters: Craters) -> (r: ScalarField)
        ensures
            r@ == FieldView::Cratered(craters@),
    {
        ScalarField::Cratered(craters)
    }

    /// `field(p) * value_scale + value_bias`.
    pub fn scale_bias(value_scale: Fixed, value_bias: Fixed, field: ScalarField) -> (r: ScalarField)
        ensures
            r@ == (FieldView::ScaleBias {
                scale: value_scale,
                bias: value_bias,
                source: Box::new(field@),
            }),
    {
        ScalarField::ScaleBias { scale: value_scale, bias: value_bias, source: Box::new(field) }
    }

    /// `field(p * point_scale)`, coordinate by coordinate.
    pub fn scale_point(point_scale: Vec3, field: ScalarField) -> (r: ScalarField)
        ensures
            r@ == (FieldView::ScalePoint { factors: point_scale, source: Box::new(field@) }),
    {
        ScalarField::ScalePoint { factors: point_scale, source: Box::new(field) }
    }

    /// `field(p * point_scale)`, with one factor for all three coordinates.
    pub fn scale_point_uniform(point_scale: Fixed, field: ScalarField) -> (r: ScalarField)
        ensures
            r@ == (FieldView::ScalePoint {
                factors: Vec3 { x: point_scale, y: point_scale, z: point_scale },
                source: Box::new(field@),
            }),
    {
        ScalarField::scale_point(Vec3::splat(point_scale), field)
    }

    /// `sign(field(p)) * |field(p)|^exp`.
    pub fn exponent(exp: Fixed, field: ScalarField) -> (r: ScalarField)
        ensures
            r@ == (FieldView::Exponent { exponent: exp, source: Box::new(field@) }),
    {
        ScalarField::Exponent { exponent: exp, source: Box::new(field) }
    }

    /// `field(p + vector)`.
    pub fn constant_offset(vector: Vec3, field: ScalarField) -> (r: ScalarField)
        ensures
            r@ == (FieldView::Offset { offset: vector, source: Box::new(field@) }),
    {
        ScalarField::Offset { offset: vector, source: Box::new(field) }
    }

    /// `field(p + (x(p), y(p), z(p)))`.
    pub fn displace_by(
        x: ScalarField,
        y: ScalarField,
        z: ScalarField,
        field: ScalarField,
    ) -> (r: ScalarField)
        ensures
            r@ == (FieldView::Displace {
                x: Box::new(x@),
                y: Box::new(y@),
                z: Box::new(z@),
                source: Box::new(field@),
            }),
    {
        ScalarField::Displace {
            x: Box::new(x),
            y: Box::new(y),
            z: Box::new(z),
            source: Box::new(field),
        }
    }

    /// `field` asked at the point moved along each axis by its own Perlin
    /// field of amplitude `strength` and frequency `frequency`, seeded with
    /// 69, 123 and 231 times `seed`.
    pub fn displace(
        strength: Fixed,
        frequency: Fixed,
        seed: u32,
        field: ScalarField,
    ) -> (r: ScalarField)
        ensures
            r@ == displacement(seed, strength, frequency, field@),
    {
        make_displacement(seed, strength, frequency, field)
    }

    /// `a(p) + b(p)`.
    pub fn add(a: ScalarField, b: ScalarField) -> (r: ScalarField)
        ensures
            r@ == FieldView::Add(Box::new(a@), Box::new(b@)),
    {
        ScalarField::Add(Box::new(a), Box::new(b))
    }

    /// Height of the field at `point`, with `noise` answering for the
    /// primitives.
    pub fn get<F: Fn(Primitive, Vec3) -> Fixed>(&self, point: Vec3, noise: &F) -> (r: Fixed)
        requires
            forall|primitive: Primitive, q: Vec3| noise.requires((primitive, q)),
        ensures
            yields(self@, point, noise, r),
            forall|oracle: spec_fn(Primitive, Vec3) -> Fixed| #[trigger]
                answers(noise, oracle) ==> r == height(self@, point, oracle),
    {
        evaluate(self, point, noise)
    }
}

/// Adding the zero field changes no height, whatever the primitives give.
pub proof fn law_height_add_zero(
    field: FieldView,
    p: Vec3,
    oracle: spec_fn(Primitive, Vec3) -> Fixed,
)
    ensures
        height(FieldView::sum(field, zero_field()), p, oracle) == height(field, p, oracle),
{
    reveal_with_fuel(height, 2);
    let h = height(field, p, oracle);
    assert(add_raw(h@, 0) == h@);
}

/// Displacing by three constant fields is moving the point by a constant
/// offset.
pub proof fn law_constant_displacement<F: Fn(Primitive, Vec3) -> Fixed>(
    offset: Vec3,
    field: FieldView,
    p: Vec3,
    noise: &F,
    r: Fixed,
)
    ensures
        yields(
            FieldView::Displace {
                x: Box::new(FieldView::Constant(offset.x)),
                y: Box::new(FieldView::Constant(offset.y)),
                z: Box::new(FieldView::Constant(offset.z)),
                source: Box::new(field),
            },
            p,
            noise,
            r,
        ) <==> yields(FieldView::Offset { offset, source: Box::new(field) }, p, noise, r),
{
    let x = FieldView::Constant(offset.x);
    let y = FieldView::Constant(offset.y);
    let z = FieldView::Constant(offset.z);
    let moved = FieldView::Displace {
        x: Box::new(x),
        y: Box::new(y),
        z: Box::new(z),
        source: Box::new(field),
    };
    if yields(FieldView::Offset { offset, source: Box::new(field) }, p, noise, r) {
        assert(p.plus(offset) == displaced(p, offset.x, offset.y, offset.z));
        assert(yields(x, p, noise, offset.x) && yields(y, p, noise, offset.y) && yields(
            z,
            p,
            noise,
            offset.z,
        ));
    }
    if yields(moved, p, noise, r) {
        let (dx, dy, dz) = choose|dx: Fixed, dy: Fixed, dz: Fixed|
            yields(x, p, noise, dx) && yields(y, p, noise, dy) && yields(z, p, noise, dz)
                && yields(field, #[trigger] displaced(p, dx, dy, dz), noise, r);
        assert(displaced(p, dx, dy, dz) == p.plus(offset));
    }
}

/// A lone crater leaves the height zero at every point outside its radius,
/// whatever the noise.
pub proof fn law_isolated_crater_support<F: Fn(Primitive, Vec3) -> Fixed>(
    c: CraterView,
    p: Vec3,
    noise: &F,
    r: Fixed,
)
    requires
        c.radius <= 0 || c.pos.distance_squared(p) > c.radius * c.radius,
        yields(FieldView::Cratered(seq![c]), p, noise, r),
    ensures
        r@ == 0,
{
    law_crater_support(seq![c], p);
}

impl FieldView {
    /// The tree `source(p * pnt_scale) * val_scale + val_bias` with one
    /// factor for all three coordinates.
    pub open spec fn scaled(
        val_bias: Fixed,
        val_scale: Fixed,
        pnt_scale: Fixed,
        base: FieldView,
    ) -> FieldView {
        noise_scale_xyz(
            val_bias,
            val_scale,
            Vec3 { x: pnt_scale, y: pnt_scale, z: pnt_scale },
            base,
        )
    }

    /// The tree `sign(source(p)) * |source(p)|^exponent`.
    pub open spec fn raised(exponent: Fixed, base: FieldView) -> FieldView {
        FieldView::Exponent { exponent, source: Box::new(base) }
    }

    /// The tree `left(p) + right(p)`.
    pub open spec fn sum(left: FieldView, right: FieldView) -> FieldView {
        FieldView::Add(Box::new(left), Box::new(right))
    }
}

/// The tree `source(p * pnt_scale) * val_scale + val_bias`.
pub open spec fn noise_scale_xyz(
    val_bias: Fixed,
    val_scale: Fixed,
    pnt_scale: Vec3,
    base: FieldView,
) -> FieldView {
    FieldView::ScaleBias {
        scale: val_scale,
        bias: val_bias,
        source: Box::new(FieldView::ScalePoint { factors: pnt_scale, source: Box::new(base) }),
    }
}

/// The tree that shifts the point by three Perlin fields of amplitude
/// `strength` and frequency `freq`, seeded with 69, 123 and 231 times
/// `seed`, before it asks `base`.
pub open spec fn displacement(
    seed: u32,
    strength: Fixed,
    freq: Fixed,
    base: FieldView,
) -> FieldView {
    let along = |factor: u32|
        Box::new(
            noise_scale_xyz(
                fixed(0),
                strength,
                Vec3 { x: freq, y: freq, z: freq },
                FieldView::Noise(Primitive::perlin(seed.wrapping_mul(factor))),
            ),
        );
    FieldView::Displace { x: along(69), y: along(123), z: along(231), source: Box::new(base) }
}

/// `base` with its point scaled coordinate by coordinate, and its height
/// scaled and shifted.
pub fn make_noise_scale_xyz(
    val_bias: Fixed,
    val_scale: Fixed,
    pnt_scale: Vec3,
    base: ScalarField,
) -> (r: ScalarField)
    ensures
        r@ == noise_scale_xyz(val_bias, val_scale, pnt_scale, base@),
{
    ScalarField::scale_bias(val_scale, val_bias, ScalarField::scale_point(pnt_scale, base))
}

/// `base` with its point scaled by one factor, and its height scaled and
/// shifted.
pub fn make_noise_scale(
    val_bias: Fixed,
    val_scale: Fixed,
    pnt_scale: Fixed,
    base: ScalarField,
) -> (r: ScalarField)
    ensures
        r@ == noise_scale_xyz(
            val_bias,
            val_scale,
            Vec3 { x: pnt_scale, y: pnt_scale, z: pnt_scale },
            base@,
        ),
{
    make_noise_scale_xyz(val_bias, val_scale, Vec3::splat(pnt_scale), base)
}

/// `base` asked at the point moved by `off`.
pub fn make_const_displacement(off: Vec3, base: ScalarField) -> (r: ScalarField)
    ensures
        r@ == (FieldView::Offset { offset: off, source: Box::new(base@) }),
{
    ScalarField::constant_offset(off, base)
}

/// `base` asked at the point moved along each axis by its own Perlin field
/// of amplitude `strength` and frequency `freq`.
pub fn make_displacement(
    seed: u32,
    strength: Fixed,
    freq: Fixed,
    base: ScalarField,
) -> (r: ScalarField)
    ensures
        r@ == displacement(seed, strength, freq, base@),
{
    let zero = Fixed::zero();
    let x = make_noise_scale(
        zero,
        strength,
        freq,
        ScalarField::primitive(Primitive::perlin(seed.wrapping_mul(69))),
    );
    let y = make_noise_scale(
        zero,
        strength,
        freq,
        ScalarField::primitive(Primitive::perlin(seed.wrapping_mul(123))),
    );
    let z = make_noise_scale(
        zero,
        strength,
        freq,
        ScalarField::primitive(Primitive::perlin(seed.wrapping_mul(231))),
    );
    ScalarField::displace_by(x, y, z, base)
}

} // verus!
