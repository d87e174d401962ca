//! Bombardment: craters scattered over the sphere from a seeded random
//! source.
//!
//! Each crater takes five words of the source, in this order: latitude,
//! longitude, radius, depth, steepness.

use vstd::prelude::*;
use rand_chacha::ChaCha12Rng;
use crate::crater::{
    contribution_raw, crater_sum, in_support, law_crater_holds_its_center,
    law_field_bounded_below, lowest_sum, representable, Crater, CraterView, Craters,
};
use crate::errors::ConfigError;
use crate::fixed::{
    lemma_mul_raw_monotone, lemma_mul_raw_one, lemma_scaled_magnitude, lesser, magnitude, mul_raw,
    neg_raw, sub_raw, Fixed, SCALE,
};
use crate::power::{lemma_power_monotone, lemma_signed_power_sign, signed_power_raw};
use crate::random::{
    lemma_uniform_within, next_word, seeded, seeded_word, uniform, uniform_raw, upcoming,
};
use crate::smooth::smin_raw;
use crate::sphere::{lat_lon_to_xyz, law_sphere_point_unit, length_squared, sphere_point};
use crate::trig::{
    cos_raw, law_cosine_clear_of_the_pole, law_sine_is_odd, law_sine_rises, lemma_sin_bounds,
    sin_raw, HALF_PI, PI,
};

verus! {

/// Words of the random source that one crater takes.
pub const WORDS_PER_CRATER: u64 = 5;

/// A closed range of numbers.
#[derive(Clone, Copy, Debug, PartialEq, Eq, Structural)]
pub struct Interval {
    pub min: Fixed,
    pub max: Fixed,
}

/// The parameters of a bombardment, as plain data.
#[derive(Clone, Copy, Debug, PartialEq, Eq, Structural)]
pub struct BombardmentParams {
    /// Range that the radius is drawn from, before `radius_bias`.
    pub radius_range: Interval,
    /// Exponent applied to the drawn radius; above one it favours small
    /// craters.
    pub radius_bias: Fixed,
    /// Exponent applied to the drawn latitude; above one it gathers craters
    /// toward the equator.
    pub lat_bias: Fixed,
    /// Fraction of the way to the poles that stays free of craters.
    pub lat_clearance: Fixed,
    /// Range that the depth of the floor is drawn from.
    pub depth_range: Interval,
    /// Range that the steepness is drawn from.
    pub steepness_range: Interval,
    /// Smoothing coefficient between bowl and rim.
    pub k1: Fixed,
    /// Smoothing coefficient between crater and floor.
    pub k2: Fixed,
}

/// The first reason to reject `p`, if there is one: an empty radius range,
/// an empty depth range, an empty steepness range, a smoothing coefficient
/// of zero.
pub open spec fn first_fault(p: BombardmentParams) -> Option<ConfigError> {
    if p.radius_range.min@ > p.radius_range.max@ {
        Some(ConfigError::EmptyRadiusRange)
    } else if p.depth_range.min@ > p.depth_range.max@ {
        Some(ConfigError::EmptyDepthRange)
    } else if p.steepness_range.min@ > p.steepness_range.max@ {
        Some(ConfigError::EmptySteepnessRange)
    } else if p.k1@ == 0 || p.k2@ == 0 {
        Some(ConfigError::ZeroBlend)
    } else {
        None
    }
}

/// The parameters used where nothing else is asked for: radii from 0.02 to
/// 0.95 with bias 2.3, latitude bias 1.7 and clearance 0.05, depths from
/// 0.05 to 0.8, steepness 1, smoothing 0.5 and -0.3.
pub open spec fn default_params() -> BombardmentParams {
    BombardmentParams {
        radius_range: Interval { min: Fixed { raw: 20_000_000 }, max: Fixed { raw: 950_000_000 } },
        radius_bias: Fixed { raw: 2_300_000_000 },
        lat_bias: Fixed { raw: 1_700_000_000 },
        lat_clearance: Fixed { raw: 50_000_000 },
        depth_range: Interval { min: Fixed { raw: 50_000_000 }, max: Fixed { raw: 800_000_000 } },
        steepness_range: Interval {
            min: Fixed { raw: 1_000_000_000 },
            max: Fixed { raw: 1_000_000_000 },
        },
        k1: Fixed { raw: 500_000_000 },
        k2: Fixed { raw: -300_000_000i64 },
    }
}

/// Bombardment parameters that passed validation.
#[derive(Clone, Copy, Debug)]
pub struct BombardmentConfig {
    params: BombardmentParams,
}

impl View for BombardmentConfig {
    type V = BombardmentParams;

    closed spec fn view(&self) -> BombardmentParams {
        self.params
    }
}

impl BombardmentConfig {
    #[verifier::type_invariant]
    spec fn faultless(self) -> bool {
        first_fault(self.params) is None
    }

    /// Validates `params`. A range with its minimum above its maximum and a
    /// smoothing coefficient of zero are rejected.
    pub fn new(params: BombardmentParams) -> (r: Result<BombardmentConfig, ConfigError>)
        ensures
            match r {
                Ok(c) => first_fault(params) is None && c@ == params,
                Err(e) => first_fault(params) == Some(e),
            },
    {
        if params.radius_range.min.raw > params.radius_range.max.raw {
            Err(ConfigError::EmptyRadiusRange)
        } else if params.depth_range.min.raw > params.depth_range.max.raw {
            Err(ConfigError::EmptyDepthRange)
        } else if params.steepness_range.min.raw > params.steepness_range.max.raw {
            Err(ConfigError::EmptySteepnessRange)
        } else if params.k1.raw == 0 || params.k2.raw == 0 {
            Err(ConfigError::ZeroBlend)
        } else {
            Ok(BombardmentConfig { params })
        }
    }

    /// The parameters that were validated.
    pub fn params(&self) -> (p: BombardmentParams)
        ensures
            p == self@,
            first_fault(p) is None,
    {
        proof {
            use_type_invariant(self);
        }
        self.params
    }
}

impl Default for BombardmentConfig {
    fn default() -> (r: BombardmentConfig)
        ensures
            r@ == default_params(),
    {
        BombardmentConfig {
            params: BombardmentParams {
                radius_range: Interval {
                    min: Fixed { raw: 20_000_000 },
                    max: Fixed { raw: 950_000_000 },
                },
                radius_bias: Fixed { raw: 2_300_000_000 },
                lat_bias: Fixed { raw: 1_700_000_000 },
                lat_clearance: Fixed { raw: 50_000_000 },
                depth_range: Interval {
                    min: Fixed { raw: 50_000_000 },
                    max: Fixed { raw: 800_000_000 },
                },
                steepness_range: Interval {
                    min: Fixed { raw: 1_000_000_000 },
                    max: Fixed { raw: 1_000_000_000 },
                },
                k1: Fixed { raw: 500_000_000 },
                k2: Fixed { raw: -300_000_000 },
            },
        }
    }
}

/// Latitude that `word` selects: a draw `u` from -1 to 1, bent to
/// `sign(u) |u|^lat_bias`, times `1 - lat_clearance`, times a quarter turn.
pub open spec fn latitude_raw(p: BombardmentParams, word: u64) -> int {
    let u = uniform_raw(word, -SCALE, SCALE as int);
    mul_raw(
        mul_raw(signed_power_raw(u, p.lat_bias@), sub_raw(SCALE as int, p.lat_clearance@)),
        HALF_PI as int,
    )
}

/// Longitude that `word` selects, from minus half a turn to half a turn.
pub open spec fn longitude_raw(word: u64) -> int {
    uniform_raw(word, -PI, PI as int)
}

/// The radius that the draw `d` gives under the bias `e`: the draw raised
/// to the bias. The power of a draw above zero is above zero, so where it is
/// too small to be told from zero it is held at the smallest positive
/// number.
pub open spec fn biased_radius(d: int, e: int) -> int {
    let r = signed_power_raw(d, e);
    if d > 0 && r < 1 {
        1
    } else {
        r
    }
}

/// Radius that `word` selects: a draw from the radius range, raised to the
/// radius bias.
pub open spec fn radius_raw(p: BombardmentParams, word: u64) -> int {
    biased_radius(uniform_raw(word, p.radius_range.min@, p.radius_range.max@), p.radius_bias@)
}

/// The radius of a draw above zero is above zero, and for a bias that is
/// not negative the radius grows with the draw.
pub proof fn lemma_biased_radius(a: int, b: int, e: int)
    requires
        0 <= a <= b,
    ensures
        b > 0 ==> biased_radius(b, e) > 0,
        e >= 0 ==> 0 <= biased_radius(a, e) <= biased_radius(b, e),
{
    if e >= 0 {
        lemma_power_monotone(a, b, e);
    }
}

/// Floor height that `word` selects: the negative of a draw from the depth
/// range.
pub open spec fn floor_raw(p: BombardmentParams, word: u64) -> int {
    neg_raw(uniform_raw(word, p.depth_range.min@, p.depth_range.max@))
}

/// Steepness that `word` selects from the steepness range.
pub open spec fn steepness_raw(p: BombardmentParams, word: u64) -> int {
    uniform_raw(word, p.steepness_range.min@, p.steepness_range.max@)
}

/// The crater that five words select under the parameters `p`.
pub open spec fn drawn_crater(
    p: BombardmentParams,
    lat_word: u64,
    lon_word: u64,
    radius_word: u64,
    depth_word: u64,
    steepness_word: u64,
) -> CraterView {
    CraterView {
        pos: sphere_point(latitude_raw(p, lat_word), longitude_raw(lon_word)),
        radius: radius_raw(p, radius_word),
        floor_height: floor_raw(p, depth_word),
        steepness: steepness_raw(p, steepness_word),
        k1: p.k1@,
        k2: p.k2@,
    }
}

/// Whether the crater `c` is as the parameters `p` ask: its center on the
/// sphere and, for a clearance between zero and one and a latitude bias
/// that is not negative, outside the cleared caps around the poles; its
/// radius above zero where the radius range is, and between the
/// radii of the two ends of that range where range and bias are not
/// negative, its floor between the negatives of the two ends of the depth
/// range, its steepness within the steepness range, and its smoothing
/// coefficients those of `p` and not zero.
pub open spec fn within_ranges(p: BombardmentParams, c: CraterView) -> bool {
    &&& representable(c)
    &&& SCALE * SCALE - 8 * SCALE <= length_squared(c.pos) <= SCALE * SCALE
    &&& 0 <= p.lat_clearance@ <= SCALE && 0 <= p.lat_bias@ ==> magnitude(c.pos.y@) <= sin_raw(
        widest_latitude(p),
    )
    &&& 0 < p.radius_range.min@ ==> 0 < c.radius
    &&& 0 <= p.radius_range.min@ && 0 <= p.radius_bias@ ==> biased_radius(
        p.radius_range.min@,
        p.radius_bias@,
    ) <= c.radius <= biased_radius(p.radius_range.max@, p.radius_bias@)
    &&& neg_raw(p.depth_range.max@) <= c.floor_height <= neg_raw(p.depth_range.min@)
    &&& 0 <= p.depth_range.min@ ==> c.floor_height <= 0
    &&& p.steepness_range.min@ <= c.steepness <= p.steepness_range.max@
    &&& c.k1 == p.k1@ && c.k2 == p.k2@ && c.k1 != 0 && c.k2 != 0
}

/// Every crater drawn under faultless parameters is as the parameters ask.
pub proof fn law_drawn_crater_within_ranges(
    p: BombardmentParams,
    lat_word: u64,
    lon_word: u64,
    radius_word: u64,
    depth_word: u64,
    steepness_word: u64,
)
    requires
        first_fault(p) is None,
    ensures
        within_ranges(
            p,
            drawn_crater(p, lat_word, lon_word, radius_word, depth_word, steepness_word),
        ),
{
    let drawn = uniform_raw(radius_word, p.radius_range.min@, p.radius_range.max@);
    lemma_uniform_within(radius_word, p.radius_range.min@, p.radius_range.max@);
    lemma_uniform_within(depth_word, p.depth_range.min@, p.depth_range.max@);
    lemma_uniform_within(steepness_word, p.steepness_range.min@, p.steepness_range.max@);
    if 0 <= p.radius_range.min@ {
        lemma_biased_radius(p.radius_range.min@, drawn, p.radius_bias@);
        lemma_biased_radius(drawn, p.radius_range.max@, p.radius_bias@);
    }
    law_sphere_point_unit(latitude_raw(p, lat_word), longitude_raw(lon_word));
    lemma_signed_power_sign(drawn, p.radius_bias@);
    if 0 <= p.lat_clearance@ <= SCALE && 0 <= p.lat_bias@ {
        law_center_clear_of_the_poles(
            p,
            lat_word,
            lon_word,
            radius_word,
            depth_word,
            steepness_word,
        );
    }
}

/// The `k`-th crater that a generator in the state `rng` leads to.
pub open spec fn crater_of_stream(p: BombardmentParams, rng: ChaCha12Rng, k: int) -> CraterView {
    drawn_crater(
        p,
        upcoming(rng, 5 * k),
        upcoming(rng, 5 * k + 1),
        upcoming(rng, 5 * k + 2),
        upcoming(rng, 5 * k + 3),
        upcoming(rng, 5 * k + 4),
    )
}

/// The `k`-th crater that the seed `seed` leads to.
pub open spec fn crater_of_seed(p: BombardmentParams, seed: Seq<u8>, k: int) -> CraterView {
    drawn_crater(
        p,
        seeded_word(seed, 5 * k),
        seeded_word(seed, 5 * k + 1),
        seeded_word(seed, 5 * k + 2),
        seeded_word(seed, 5 * k + 3),
        seeded_word(seed, 5 * k + 4),
    )
}

/// The craters, in order, that a seed and a set of parameters determine.
pub open spec fn bombardment(p: BombardmentParams, seed: Seq<u8>, count: nat) -> Seq<CraterView> {
    Seq::new(count, |k: int| crater_of_seed(p, seed, k))
}

/// Latitude that `word` selects under `config`.
pub fn latitude(config: &BombardmentConfig, word: u64) -> (lat: Fixed)
    ensures
        lat@ == latitude_raw(config@, word),
{
    let p = config.params();
    let one = Fixed::one();
    let u = uniform(word, one.neg(), one);
    u.pow(p.lat_bias).mul(one.sub(p.lat_clearance)).mul(Fixed::from_raw(HALF_PI))
}

/// Longitude that `word` selects.
pub fn longitude(word: u64) -> (lon: Fixed)
    ensures
        lon@ == longitude_raw(word),
        -PI <= lon@ < PI,
{
    proof {
        lemma_uniform_within(word, -PI, PI as int);
    }
    uniform(word, Fixed::from_raw(-PI), Fixed::from_raw(PI))
}

/// Radius that `word` selects under `config`: above zero wherever the
/// radius range lies above zero.
pub fn radius(config: &BombardmentConfig, word: u64) -> (r: Fixed)
    ensures
        r@ == radius_raw(config@, word),
        config@.radius_range.min@ > 0 ==> r@ > 0,
{
    let p = config.params();
    let drawn = uniform(word, p.radius_range.min, p.radius_range.max);
    let raised = drawn.pow(p.radius_bias);
    proof {
        lemma_uniform_within(word, p.radius_range.min@, p.radius_range.max@);
    }
    if drawn.raw > 0 && raised.raw < 1 {
        Fixed::from_raw(1)
    } else {
        raised
    }
}

/// The crater that five words of the random source select under `config`.
pub fn crater_from_draws(
    config: &BombardmentConfig,
    lat_word: u64,
    lon_word: u64,
    radius_word: u64,
    depth_word: u64,
    steepness_word: u64,
) -> (c: Crater)
    ensures
        c@ == drawn_crater(config@, lat_word, lon_word, radius_word, depth_word, steepness_word),
        within_ranges(config@, c@),
{
    let p = config.params();
    proof {
        law_drawn_crater_within_ranges(
            p,
            lat_word,
            lon_word,
            radius_word,
            depth_word,
            steepness_word,
        );
    }
    let pos = lat_lon_to_xyz(latitude(config, lat_word), longitude(lon_word));
    let radius = radius(config, radius_word);
    let floor_height = uniform(depth_word, p.depth_range.min, p.depth_range.max).neg();
    let steepness = uniform(steepness_word, p.steepness_range.min, p.steepness_range.max);
    Crater::new(pos, radius, floor_height, steepness, p.k1, p.k2).unwrap()
}

/// Scatters `crater_count` craters over the sphere, drawing from `rng`.
///
/// The craters are those that the upcoming words of `rng` select, five
/// words each, and `rng` is left just behind the last word taken. Every
/// crater is as the configuration asks: its center on the sphere, its
/// radius above zero where the radius range is, its floor, steepness and
/// smoothing coefficients within their ranges.
pub fn tom_bombardil(
    crater_count: usize,
    config: &BombardmentConfig,
    rng: &mut ChaCha12Rng,
) -> (field: Craters)
    ensures
        field@.len() == crater_count,
        forall|k: int|
            0 <= k < crater_count ==> #[trigger] field@[k] == crater_of_stream(
                config@,
                *old(rng),
                k,
            ),
        forall|j: int|
            0 <= j ==> upcoming(*final(rng), j) == upcoming(*old(rng), j + 5 * crater_count),
        forall|k: int| 0 <= k < crater_count ==> within_ranges(config@, #[trigger] field@[k]),
{
    let mut craters: Vec<Crater> = Vec::new();
    let mut i: usize = 0;
    while i < crater_count
        invariant
            i <= crater_count,
            craters@.len() == i,
            forall|k: int|
                0 <= k < i ==> (#[trigger] craters@[k])@ == crater_of_stream(
                    config@,
                    *old(rng),
                    k,
                ),
            forall|j: int| 0 <= j ==> upcoming(*rng, j) == upcoming(*old(rng), j + 5 * i),
            forall|k: int| 0 <= k < i ==> within_ranges(config@, (#[trigger] craters@[k])@),
        decreases crater_count - i,
    {
        let lat_word = next_word(rng);
        let lon_word = next_word(rng);
        let radius_word = next_word(rng);
        let depth_word = next_word(rng);
        let steepness_word = next_word(rng);
        let crater = crater_from_draws(
            config,
            lat_word,
            lon_word,
            radius_word,
            depth_word,
            steepness_word,
        );
        craters.push(crater);
        i += 1;
    }
    let field = Craters::new(craters);
    assert forall|k: int| 0 <= k < crater_count implies #[trigger] field@[k] == crater_of_stream(
        config@,
        *old(rng),
        k,
    ) by {
        assert(field@[k] == field.craters@[k]@);
    }
    assert forall|k: int| 0 <= k < crater_count implies within_ranges(
        config@,
        #[trigger] field@[k],
    ) by {
        assert(field@[k] == field.craters@[k]@);
    }
    field
}

/// Scatters `crater_count` craters over the sphere from a seed.
///
/// The same seed, count and configuration give the same craters in the same
/// order.
pub fn bombard(seed: [u8; 32], crater_count: usize, config: &BombardmentConfig) -> (field: Craters)
    ensures
        field@ == bombardment(config@, seed@, crater_count as nat),
        forall|k: int| 0 <= k < crater_count ==> within_ranges(config@, #[trigger] field@[k]),
{
    let mut rng = seeded(seed);
    let field = tom_bombardil(crater_count, config, &mut rng);
    assert(field@ =~= bombardment(config@, seed@, crater_count as nat));
    field
}

/// Every crater of a bombardment under faultless parameters is as the
/// parameters ask.
pub proof fn law_bombardment_within_ranges(p: BombardmentParams, seed: Seq<u8>, count: nat, k: int)
    requires
        first_fault(p) is None,
        0 <= k < count,
    ensures
        within_ranges(p, bombardment(p, seed, count)[k]),
{
    law_drawn_crater_within_ranges(
        p,
        seeded_word(seed, 5 * k),
        seeded_word(seed, 5 * k + 1),
        seeded_word(seed, 5 * k + 2),
        seeded_word(seed, 5 * k + 3),
        seeded_word(seed, 5 * k + 4),
    );
}

/// A bombarded field at the center of one of its craters. Under faultless
/// parameters with a radius range above zero, a steepness range above minus
/// one and a first smoothing coefficient above zero and no more than two,
/// every crater holds its own center; bowl and rim blend to minus one
/// there, so the crater adds the blend of minus one and its floor. With a
/// second smoothing coefficient below zero the whole field there is bounded
/// below by the sum of the floors of the craters that hold the center, as
/// near as the rounding allows.
pub proof fn law_bombarded_field_at_a_center(
    p: BombardmentParams,
    seed: Seq<u8>,
    count: nat,
    k: int,
)
    requires
        first_fault(p) is None,
        0 < p.radius_range.min@,
        -SCALE < p.steepness_range.min@,
        0 < p.k1@ <= 2 * SCALE,
        0 <= k < count,
    ensures
        ({
            let field = bombardment(p, seed, count);
            let c = field[k];
            &&& in_support(c, c.pos)
            &&& contribution_raw(c, c.pos) == smin_raw(-SCALE, c.floor_height, c.k2)
            &&& p.k2@ < 0 ==> crater_sum(field, c.pos) >= lowest_sum(field, c.pos)
        }),
{
    let field = bombardment(p, seed, count);
    law_bombardment_within_ranges(p, seed, count, k);
    law_crater_holds_its_center(field[k]);
    if p.k2@ < 0 {
        assert forall|i: int| 0 <= i < field.len() implies representable(#[trigger] field[i])
            && field[i].k2 < 0 by {
            law_bombardment_within_ranges(p, seed, count, i);
        }
        law_field_bounded_below(field, field[k].pos);
    }
}

/// The center of every drawn crater is a point of the sphere: its squared
/// length never exceeds one and falls short of it by eight billionths at
/// most.
pub proof fn law_center_on_the_sphere(
    p: BombardmentParams,
    lat_word: u64,
    lon_word: u64,
    radius_word: u64,
    depth_word: u64,
    steepness_word: u64,
)
    ensures
        SCALE * SCALE - 8 * SCALE <= length_squared(
            drawn_crater(p, lat_word, lon_word, radius_word, depth_word, steepness_word).pos,
        ) <= SCALE * SCALE,
{
    law_sphere_point_unit(latitude_raw(p, lat_word), longitude_raw(lon_word));
}

/// How far the latitudes stay from the poles under `p`, in raw radians, and
/// no more than one half.
pub open spec fn polar_gap(p: BombardmentParams) -> int {
    lesser(HALF_PI - mul_raw(SCALE - p.lat_clearance@, HALF_PI as int), SCALE / 2)
}

/// The widest latitude under `p`: `1 - lat_clearance` of a quarter turn.
pub open spec fn widest_latitude(p: BombardmentParams) -> int {
    mul_raw(SCALE - p.lat_clearance@, HALF_PI as int)
}

/// With a clearance between zero and one and a non-negative latitude bias,
/// no center lies in the cleared cap around a pole: its second coordinate
/// never exceeds the sine of the widest latitude in magnitude. The cosine
/// of its latitude stays above `g - g^3/6` for the polar gap `g`, less one
/// billionth, and the square of its second coordinate stays below one by
/// the square of that cosine.
pub proof fn law_center_clear_of_the_poles(
    p: BombardmentParams,
    lat_word: u64,
    lon_word: u64,
    radius_word: u64,
    depth_word: u64,
    steepness_word: u64,
)
    requires
        0 <= p.lat_clearance@ <= SCALE,
        0 <= p.lat_bias@,
    ensures
        ({
            let c = drawn_crater(p, lat_word, lon_word, radius_word, depth_word, steepness_word);
            let along = cos_raw(latitude_raw(p, lat_word));
            &&& magnitude(c.pos.y@) <= sin_raw(widest_latitude(p))
            &&& 0 <= polar_gap(p)
            &&& 0 <= along
            &&& 6 * (SCALE * SCALE) * along >= 6 * (SCALE * SCALE) * polar_gap(p) - polar_gap(p)
                * polar_gap(p) * polar_gap(p) - 6 * (SCALE * SCALE)
            &&& c.pos.y@ * c.pos.y@ + along * along <= SCALE * SCALE
        }),
{
    let s = SCALE as int;
    let open = s - p.lat_clearance@;
    let limit = mul_raw(open, HALF_PI as int);
    law_latitude_within_clearance(p, lat_word);
    lemma_mul_raw_monotone(open, HALF_PI as int, s, HALF_PI as int);
    lemma_mul_raw_one(HALF_PI as int);
    law_cosine_clear_of_the_pole(latitude_raw(p, lat_word), polar_gap(p));
    lemma_sin_bounds(latitude_raw(p, lat_word));
    let lat = latitude_raw(p, lat_word);
    assert(0 <= limit) by {
        lemma_mul_raw_monotone(0, 0, open, HALF_PI as int);
    }
    law_sine_rises(lat, limit);
    law_sine_rises(-limit, lat);
    law_sine_is_odd(limit);
}

/// With a clearance between zero and one and a non-negative latitude bias,
/// no latitude lies farther from the equator than `1 - lat_clearance` of a
/// quarter turn.
pub proof fn law_latitude_within_clearance(p: BombardmentParams, word: u64)
    requires
        0 <= p.lat_clearance@ <= SCALE,
        0 <= p.lat_bias@,
    ensures
        magnitude(latitude_raw(p, word)) <= mul_raw(SCALE - p.lat_clearance@, HALF_PI as int),
{
    let s = SCALE as int;
    let u = uniform_raw(word, -s, s);
    lemma_uniform_within(word, -s, s);
    let bent = signed_power_raw(u, p.lat_bias@);
    if u < 0 {
        lemma_power_monotone(-u, s, p.lat_bias@);
    } else {
        lemma_power_monotone(u, s, p.lat_bias@);
    }
    assert(-s <= bent <= s);
    let open = s - p.lat_clearance@;
    lemma_scaled_magnitude(bent, s, open);
    let kept = mul_raw(bent, open);
    lemma_mul_raw_one(open);
    lemma_scaled_magnitude(kept, open, HALF_PI as int);
}

} // verus!
