//! A single crater's height profile, and the field of many craters.
//!
//! A crater is a bowl with a raised rim and a flat floor, blended by the
//! smooth minimum. It contributes within its radius and nothing beyond.

use vstd::prelude::*;
use crate::errors::ConfigError;
use crate::fixed::{
    add_raw, fixed, lemma_trunc_div_bounds, lesser, magnitude, mul_raw, narrow, saturate, sub_raw,
    trunc_div, Fixed, RAW_MAX, RAW_MIN, SCALE,
};
use crate::power::{law_power_of_zero, lemma_power_monotone, signed_power_raw};
use crate::roots::{
    floor_sqrt, is_floor_sqrt, isqrt, lemma_floor_sqrt_is,
};
use crate::smooth::{
    blend_weight, law_smin_above_second, law_smin_lower_bound, law_smin_outside_crease,
    lemma_dip_bounds, lemma_mix_between, smin, smin_raw,
};
use crate::vector::Vec3;

verus! {

/// What a crater is made of, with its numbers in raw units.
pub struct CraterView {
    pub pos: Vec3,
    pub radius: int,
    pub floor_height: int,
    pub steepness: int,
    pub k1: int,
    pub k2: int,
}

/// A crater: where it lies, how wide it is, and the shape of its profile.
///
/// Both smoothing coefficients of a crater differ from zero.
#[derive(Clone, Copy, Debug)]
pub struct Crater {
    pos: Vec3,
    radius: Fixed,
    floor_height: Fixed,
    steepness: Fixed,
    k1: Fixed,
    k2: Fixed,
}

impl View for Crater {
    type V = CraterView;

    closed spec fn view(&self) -> CraterView {
        CraterView {
            pos: self.pos,
            radius: self.radius@,
            floor_height: self.floor_height@,
            steepness: self.steepness@,
            k1: self.k1@,
            k2: self.k2@,
        }
    }
}

/// The bowl `4 * d^(steepness + 1) - 1` at normalized distance `d`.
pub open spec fn bowl_raw(steepness: int, d: int) -> int {
    sub_raw(saturate(4 * signed_power_raw(d, add_raw(steepness, SCALE as int))), SCALE as int)
}

/// The rim `(d - 1)^2` at normalized distance `d`.
pub open spec fn edge_raw(d: int) -> int {
    mul_raw(sub_raw(d, SCALE as int), sub_raw(d, SCALE as int))
}

/// Height of crater `c` at normalized distance `d` from its center: bowl
/// and rim blended with `k1`, then that and the floor blended with `k2`.
pub open spec fn profile_raw(c: CraterView, d: int) -> int {
    smin_raw(smin_raw(bowl_raw(c.steepness, d), edge_raw(d), c.k1), c.floor_height, c.k2)
}

/// Whether `p` lies within the radius of crater `c`. A crater without a
/// positive radius holds no point.
pub open spec fn in_support(c: CraterView, p: Vec3) -> bool {
    c.radius > 0 && c.pos.distance_squared(p) <= c.radius * c.radius
}

/// Distance of `p` from the center of `c` as a fraction of the radius, for
/// `p` within the radius.
pub open spec fn normalized_distance(c: CraterView, p: Vec3) -> int {
    trunc_div(floor_sqrt(c.pos.distance_squared(p)) * SCALE, c.radius)
}

/// What crater `c` adds to the height at `p`.
pub open spec fn contribution_raw(c: CraterView, p: Vec3) -> int {
    if in_support(c, p) {
        profile_raw(c, normalized_distance(c, p))
    } else {
        0
    }
}

/// Height at `p` of a field of craters: their contributions summed in
/// order.
pub open spec fn crater_sum(craters: Seq<CraterView>, p: Vec3) -> int
    decreases craters.len(),
{
    if craters.len() == 0 {
        0
    } else {
        add_raw(crater_sum(craters.drop_last(), p), contribution_raw(craters.last(), p))
    }
}

impl Crater {
    #[verifier::type_invariant]
    spec fn blends_nonzero(self) -> bool {
        self.k1@ != 0 && self.k2@ != 0
    }

    /// A crater with the given center, radius, floor height, steepness and
    /// smoothing coefficients. A coefficient of zero is rejected.
    pub fn new(
        pos: Vec3,
        radius: Fixed,
        floor_height: Fixed,
        steepness: Fixed,
        k1: Fixed,
        k2: Fixed,
    ) -> (r: Result<Crater, ConfigError>)
        ensures
            r is Err <==> k1@ == 0 || k2@ == 0,
            r matches Err(e) ==> e == ConfigError::ZeroBlend,
            r matches Ok(c) ==> c@ == (CraterView {
                pos,
                radius: radius@,
                floor_height: floor_height@,
                steepness: steepness@,
                k1: k1@,
                k2: k2@,
            }),
    {
        if k1.raw == 0 || k2.raw == 0 {
            Err(ConfigError::ZeroBlend)
        } else {
            Ok(Crater { pos, radius, floor_height, steepness, k1, k2 })
        }
    }

    /// Center of the crater.
    pub fn pos(&self) -> (r: Vec3)
        ensures
            r == self@.pos,
    {
        self.pos
    }

    /// Radius of the crater.
    pub fn radius(&self) -> (r: Fixed)
        ensures
            r@ == self@.radius,
    {
        self.radius
    }

    /// Height of the flat floor.
    pub fn floor_height(&self) -> (r: Fixed)
        ensures
            r@ == self@.floor_height,
    {
        self.floor_height
    }

    /// Shape exponent of the bowl.
    pub fn steepness(&self) -> (r: Fixed)
        ensures
            r@ == self@.steepness,
    {
        self.steepness
    }

    /// Smoothing coefficient between bowl and rim.
    pub fn k1(&self) -> (r: Fixed)
        ensures
            r@ == self@.k1,
            r@ != 0,
    {
        proof {
            use_type_invariant(self);
        }
        self.k1
    }

    /// Smoothing coefficient between crater and floor.
    pub fn k2(&self) -> (r: Fixed)
        ensures
            r@ == self@.k2,
            r@ != 0,
    {
        proof {
            use_type_invariant(self);
        }
        self.k2
    }

    /// Height of the crater at normalized distance `d` from its center.
    pub fn get(&self, d: Fixed) -> (r: Fixed)
        ensures
            r@ == profile_raw(self@, d@),
    {
        proof {
            use_type_invariant(self);
        }
        let one = Fixed::one();
        let lift = d.pow(self.steepness.add(one));
        let bowl = Fixed::from_raw(narrow(4 * (lift.raw as i128))).sub(one);
        let gap = d.sub(one);
        let edge = gap.mul(gap);
        smin(smin(bowl, edge, self.k1), self.floor_height, self.k2)
    }

    /// Whether `p` lies within the radius, and if so its distance from the
    /// center as a fraction of the radius.
    pub fn locate(&self, p: Vec3) -> (r: Option<Fixed>)
        ensures
            r is Some <==> in_support(self@, p),
            r matches Some(d) ==> d@ == normalized_distance(self@, p) && 0 <= d@ <= SCALE,
    {
        if self.radius.raw <= 0 {
            return None;
        }
        let reach: u128 = self.radius.raw as u128;
        assert(reach * reach <= 0x7fff_ffff_ffff_ffff * 0x7fff_ffff_ffff_ffff) by (nonlinear_arith)
            requires
                0 < reach <= 0x7fff_ffff_ffff_ffff,
        ;
        let limit: u128 = reach * reach;
        let gx = gap_squared(self.pos.x, p.x);
        let gy = gap_squared(self.pos.y, p.y);
        let gz = gap_squared(self.pos.z, p.z);
        if gx > limit || gy > limit || gz > limit {
            return None;
        }
        let total: u128 = gx + gy + gz;
        if total > limit {
            return None;
        }
        let distance: u128 = isqrt(total);
        assert(distance <= reach) by (nonlinear_arith)
            requires
                distance * distance <= total,
                total <= reach * reach,
                0 <= distance,
                0 < reach,
        ;
        assert(distance * 1_000_000_000 <= reach * 1_000_000_000) by (nonlinear_arith)
            requires
                distance <= reach,
        ;
        let scaled: u128 = distance * (SCALE as u128);
        let fraction: u128 = scaled / reach;
        assert(fraction <= SCALE) by (nonlinear_arith)
            requires
                fraction == scaled / reach,
                scaled <= reach * 1_000_000_000,
                reach > 0,
                SCALE == 1_000_000_000,
        ;
        Some(Fixed::from_raw(fraction as i64))
    }

    /// What the crater adds to the height at `p`: its profile within its
    /// radius, and nothing beyond.
    pub fn contribution(&self, p: Vec3) -> (r: Fixed)
        ensures
            r@ == contribution_raw(self@, p),
            !in_support(self@, p) ==> r@ == 0,
            self@.k2 < 0 ==> r@ >= lowest_contribution(self@, p),
    {
        proof {
            lemma_crater_representable(*self);
            if self@.k2 < 0 {
                law_contribution_bounded_below(self@, p);
            }
        }
        match self.locate(p) {
            Some(d) => self.get(d),
            None => Fixed::zero(),
        }
    }
}

/// Square of the difference of two coordinates, without rounding.
fn gap_squared(a: Fixed, b: Fixed) -> (r: u128)
    ensures
        r == (a@ - b@) * (a@ - b@),
{
    let gap: i128 = a.raw as i128 - b.raw as i128;
    let size: u128 = if gap < 0 {
        (-gap) as u128
    } else {
        gap as u128
    };
    assert(size * size <= 0xffff_ffff_ffff_ffff * 0xffff_ffff_ffff_ffff && size * size == gap
        * gap) by (nonlinear_arith)
        requires
            0 <= size <= 0xffff_ffff_ffff_ffff,
            size == gap || size == -gap,
    ;
    size * size
}

/// A field of craters, evaluated as the sum of what each adds.
#[derive(Clone, Debug)]
pub struct Craters {
    pub craters: Vec<Crater>,
}

impl View for Craters {
    type V = Seq<CraterView>;

    open spec fn view(&self) -> Seq<CraterView> {
        self.craters@.map_values(|c: Crater| c@)
    }
}

impl Craters {
    /// The field of the given craters.
    pub fn new(craters: Vec<Crater>) -> (r: Craters)
        ensures
            r.craters == craters,
    {
        Craters { craters }
    }

    /// Number of craters in the field.
    pub fn len(&self) -> (r: usize)
        ensures
            r == self@.len(),
    {
        self.craters.len()
    }

    /// Height of the field at `point`: zero where no crater holds the
    /// point.
    pub fn get(&self, point: Vec3) -> (r: Fixed)
        ensures
            r@ == crater_sum(self@, point),
            (forall|i: int| 0 <= i < self@.len() ==> !in_support(#[trigger] self@[i], point))
                ==> r@ == 0,
            (forall|i: int| 0 <= i < self@.len() ==> (#[trigger] self@[i]).k2 < 0) ==> r@
                >= lowest_sum(self@, point),
    {
        let mut total = Fixed::zero();
        let mut i: usize = 0;
        while i < self.craters.len()
            invariant
                i <= self.craters.len(),
                total@ == crater_sum(self@.take(i as int), point),
            decreases self.craters.len() - i,
        {
            let crater = &self.craters[i];
            let added = crater.contribution(point);
            proof {
                let next = self@.take(i + 1);
                assert(next.drop_last() == self@.take(i as int));
                assert(next.last() == crater@);
            }
            total = total.add(added);
            i += 1;
        }
        proof {
            assert(self@.take(i as int) == self@);
            if forall|i: int| 0 <= i < self@.len() ==> !in_support(#[trigger] self@[i], point) {
                law_crater_support(self@, point);
            }
            if forall|i: int| 0 <= i < self@.len() ==> (#[trigger] self@[i]).k2 < 0 {
                assert forall|i: int| 0 <= i < self@.len() implies representable(
                    #[trigger] self@[i],
                ) && self@[i].k2 < 0 by {
                    lemma_crater_representable(self.craters@[i]);
                }
                law_field_bounded_below(self@, point);
            }
        }
        total
    }
}

/// The bowl is deepest at the center: for a steepness of at least minus
/// one it never lies below minus one and rises with the distance, and for a
/// steepness above minus one it is minus one at the center itself.
pub proof fn law_bowl_rises(steepness: Fixed, near: Fixed, far: Fixed)
    requires
        -SCALE <= steepness@,
        0 <= near@ <= far@,
    ensures
        -SCALE <= bowl_raw(steepness@, near@) <= bowl_raw(steepness@, far@),
        -SCALE < steepness@ ==> bowl_raw(steepness@, 0) == -SCALE,
{
    let e = add_raw(steepness@, SCALE as int);
    lemma_power_monotone(near@, far@, e);
    if -SCALE < steepness@ {
        law_power_of_zero(e);
    }
}

/// The rim is never negative, and level with the plain at the distance one.
pub proof fn law_edge_touches_down(d: Fixed)
    ensures
        edge_raw(d@) >= 0,
        edge_raw(SCALE as int) == 0,
{
    let g = sub_raw(d@, SCALE as int);
    assert(g * g >= 0) by (nonlinear_arith);
    lemma_trunc_div_bounds(g * g, SCALE as int);
    assert(0int * 0 == 0) by (nonlinear_arith);
}

/// A crater with a radius above zero holds its own center, at the distance
/// zero. With a steepness above minus one and a first smoothing coefficient
/// above zero and no more than two, bowl and rim blend to minus one there,
/// and what the crater adds at its center is the blend of minus one and its
/// floor.
pub proof fn law_crater_holds_its_center(c: CraterView)
    requires
        c.radius > 0,
    ensures
        in_support(c, c.pos),
        normalized_distance(c, c.pos) == 0,
        contribution_raw(c, c.pos) == profile_raw(c, 0),
        -SCALE < c.steepness <= RAW_MAX && 0 < c.k1 <= 2 * SCALE ==> smin_raw(
            bowl_raw(c.steepness, 0),
            edge_raw(0),
            c.k1,
        ) == -SCALE && contribution_raw(c, c.pos) == smin_raw(-SCALE, c.floor_height, c.k2),
{
    let s = SCALE as int;
    assert(c.pos.distance_squared(c.pos) == 0) by (nonlinear_arith)
        requires
            c.pos.distance_squared(c.pos) == (c.pos.x@ - c.pos.x@) * (c.pos.x@ - c.pos.x@) + (
            c.pos.y@ - c.pos.y@) * (c.pos.y@ - c.pos.y@) + (c.pos.z@ - c.pos.z@) * (c.pos.z@
                - c.pos.z@),
    ;
    assert(c.radius * c.radius >= 0) by (nonlinear_arith);
    assert(is_floor_sqrt(0, 0));
    lemma_floor_sqrt_is(0, 0);
    assert(0 * s == 0) by (nonlinear_arith);
    lemma_trunc_div_bounds(0, c.radius);
    if -SCALE < c.steepness <= RAW_MAX && 0 < c.k1 <= 2 * SCALE {
        law_bowl_rises(fixed(c.steepness), fixed(0), fixed(0));
        assert((-s) * (-s) == s * s) by (nonlinear_arith);
        assert((s * s) / s == s) by (nonlinear_arith)
            requires
                s > 0,
        ;
        assert(edge_raw(0) == s);
        law_smin_outside_crease(fixed(-s), fixed(s), fixed(c.k1));
    }
}

/// Whether the numbers of `c` are numbers that a crater can hold.
pub open spec fn representable(c: CraterView) -> bool {
    &&& RAW_MIN <= c.radius <= RAW_MAX
    &&& RAW_MIN <= c.floor_height <= RAW_MAX
    &&& RAW_MIN <= c.steepness <= RAW_MAX
    &&& RAW_MIN <= c.k1 <= RAW_MAX
    &&& RAW_MIN <= c.k2 <= RAW_MAX
}

/// What a crater is made of is representable.
pub proof fn lemma_crater_representable(c: Crater)
    ensures
        representable(c@),
{
}

/// With a second smoothing coefficient below zero, the blend with the floor
/// turns toward the higher of the two: the profile never lies below the
/// lower of the floor and the blend of bowl and rim.
pub proof fn law_profile_above_the_lower(c: CraterView, d: int)
    requires
        c.k2 < 0,
    ensures
        profile_raw(c, d) >= lesser(
            smin_raw(bowl_raw(c.steepness, d), edge_raw(d), c.k1),
            c.floor_height,
        ),
{
    let inner = smin_raw(bowl_raw(c.steepness, d), edge_raw(d), c.k1);
    let h = blend_weight(inner, c.floor_height, c.k2);
    lemma_mix_between(inner, c.floor_height, h);
    lemma_dip_bounds(c.k2, h);
}

/// With a second smoothing coefficient below zero the profile stays above
/// the floor, as near as the rounding allows: it never lies below the floor
/// by more than two billionths and half of the smoothing width in
/// billionths.
pub proof fn law_profile_above_the_floor(c: CraterView, d: int)
    requires
        representable(c),
        c.k2 < 0,
    ensures
        profile_raw(c, d) >= c.floor_height - 2 - magnitude(c.k2) / (2 * SCALE),
{
    let inner = smin_raw(bowl_raw(c.steepness, d), edge_raw(d), c.k1);
    law_smin_above_second(fixed(inner), fixed(c.floor_height), fixed(c.k2));
}

/// The lowest that a crater with a second smoothing coefficient below zero
/// can add at `p`: nothing where it does not hold `p`, and else its floor,
/// less two billionths and half of the smoothing width in billionths, or
/// nothing if that lies above zero.
pub open spec fn lowest_contribution(c: CraterView, p: Vec3) -> int {
    if in_support(c, p) {
        lesser(0, c.floor_height - 2 - magnitude(c.k2) / (2 * SCALE))
    } else {
        0
    }
}

/// What a crater adds within its radius is bounded below by its floor, as
/// near as the rounding allows.
pub proof fn law_contribution_bounded_below(c: CraterView, p: Vec3)
    requires
        representable(c),
        c.k2 < 0,
    ensures
        contribution_raw(c, p) >= lowest_contribution(c, p),
{
    if in_support(c, p) {
        law_profile_above_the_floor(c, normalized_distance(c, p));
    }
}

/// The sum of the lowest that each crater of a field can add at `p`.
pub open spec fn lowest_sum(craters: Seq<CraterView>, p: Vec3) -> int
    decreases craters.len(),
{
    if craters.len() == 0 {
        0
    } else {
        lowest_sum(craters.drop_last(), p) + lowest_contribution(craters.last(), p)
    }
}

/// A field of craters is bounded below: where the second smoothing
/// coefficients lie below zero, its height at a point never lies below the
/// sum of the floors of the craters that hold the point, each less two
/// billionths and half of its smoothing width in billionths (a floor above
/// zero counts as zero).
pub proof fn law_field_bounded_below(craters: Seq<CraterView>, p: Vec3)
    requires
        forall|i: int|
            0 <= i < craters.len() ==> representable(#[trigger] craters[i]) && craters[i].k2 < 0,
    ensures
        lowest_sum(craters, p) <= 0,
        crater_sum(craters, p) >= lowest_sum(craters, p),
    decreases craters.len(),
{
    if craters.len() > 0 {
        law_field_bounded_below(craters.drop_last(), p);
        law_contribution_bounded_below(craters.last(), p);
    }
}

/// What a crater adds is bounded below: its profile never lies more than a
/// quarter of its two smoothing widths below the lowest of bowl, rim and
/// floor.
pub proof fn law_profile_bounded_below(c: Crater, d: Fixed)
    requires
        c@.k1 != 0,
        c@.k2 != 0,
    ensures
        4 * profile_raw(c@, d@) >= lesser(
            4 * lesser(bowl_raw(c@.steepness, d@), edge_raw(d@)) - magnitude(c@.k1),
            4 * c@.floor_height,
        ) - magnitude(c@.k2),
{
    let bowl = fixed(bowl_raw(c@.steepness, d@));
    let edge = fixed(edge_raw(d@));
    law_smin_lower_bound(bowl, edge, c.k1);
    let inner = fixed(smin_raw(bowl@, edge@, c@.k1));
    law_smin_lower_bound(inner, c.floor_height, c.k2);
}

/// A point outside the radius of every crater of a field has height zero.
pub proof fn law_crater_support(craters: Seq<CraterView>, p: Vec3)
    requires
        forall|i: int| 0 <= i < craters.len() ==> !in_support(#[trigger] craters[i], p),
    ensures
        crater_sum(craters, p) == 0,
    decreases craters.len(),
{
    if craters.len() > 0 {
        law_crater_support(craters.drop_last(), p);
    }
}

/// A point farther from the center of a lone crater than its radius has
/// height zero.
pub proof fn law_lone_crater_support(c: Crater, p: Vec3)
    requires
        c@.radius <= 0 || c@.pos.distance_squared(p) > c@.radius * c@.radius,
    ensures
        crater_sum(seq![c@], p) == 0,
{
    law_crater_support(seq![c@], p);
}

} // verus!
