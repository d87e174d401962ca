//! Points of the unit sphere by latitude and longitude.

use vstd::prelude::*;
use crate::fixed::{
    fixed, lemma_mul_raw_one, lemma_mul_raw_square, lemma_unit_product, mul_raw, Fixed, SCALE,
};
use crate::trig::{
    cos_raw, law_sine_landmarks, law_unit_circle, lemma_sin_bounds, sin_raw, HALF_PI,
};
use crate::vector::Vec3;

verus! {

/// The point of the unit sphere at latitude `lat` and longitude `lon`, both
/// in raw radians: `(cos lat cos lon, sin lat, cos lat sin lon)`.
pub open spec fn sphere_point(lat: int, lon: int) -> Vec3 {
    Vec3 {
        x: fixed(mul_raw(cos_raw(lat), cos_raw(lon))),
        y: fixed(sin_raw(lat)),
        z: fixed(mul_raw(cos_raw(lat), sin_raw(lon))),
    }
}

/// The point of the unit sphere at the given latitude and longitude, in
/// radians. The second coordinate points to the north pole.
pub fn lat_lon_to_xyz(lat: Fixed, lon: Fixed) -> (p: Vec3)
    ensures
        p == sphere_point(lat@, lon@),
        -SCALE <= p.x@ <= SCALE,
        -SCALE <= p.y@ <= SCALE,
        -SCALE <= p.z@ <= SCALE,
        SCALE * SCALE - 8 * SCALE <= length_squared(p) <= SCALE * SCALE,
{
    proof {
        lemma_sphere_point_bounds(lat@, lon@);
        law_sphere_point_unit(lat@, lon@);
    }
    let (y, r) = lat.sin_cos();
    let (south, east) = lon.sin_cos();
    Vec3 { x: r.mul(east), y, z: r.mul(south) }
}

/// No coordinate of a point of the sphere exceeds one in magnitude.
pub proof fn lemma_sphere_point_bounds(lat: int, lon: int)
    ensures
        -SCALE <= sphere_point(lat, lon).x@ <= SCALE,
        -SCALE <= sphere_point(lat, lon).y@ <= SCALE,
        -SCALE <= sphere_point(lat, lon).z@ <= SCALE,
{
    lemma_sin_bounds(lat);
    lemma_sin_bounds(lon);
    lemma_unit_product(cos_raw(lat), cos_raw(lon));
    lemma_unit_product(cos_raw(lat), sin_raw(lon));
}

/// The square of the distance of `p` from the middle of the sphere, in
/// squared raw units.
pub open spec fn length_squared(p: Vec3) -> int {
    p.x@ * p.x@ + p.y@ * p.y@ + p.z@ * p.z@
}

/// Every point of the sphere lies at the distance one from its middle, as
/// near as the rounding allows: its squared length never exceeds one and
/// falls short of it by eight billionths at most.
pub proof fn law_sphere_point_unit(lat: int, lon: int)
    ensures
        SCALE * SCALE - 8 * SCALE <= length_squared(sphere_point(lat, lon)) <= SCALE * SCALE,
{
    let s = SCALE as int;
    let sl = sin_raw(lat);
    let cl = cos_raw(lat);
    let so = sin_raw(lon);
    let co = cos_raw(lon);
    law_unit_circle(lat);
    law_unit_circle(lon);
    lemma_unit_product(cl, co);
    lemma_unit_product(cl, so);
    lemma_mul_raw_square(cl, co);
    lemma_mul_raw_square(cl, so);
    let x = mul_raw(cl, co);
    let z = mul_raw(cl, so);
    let p = cl * co;
    let q = cl * so;
    let c = cl * cl;
    let u = co * co + so * so;
    let cube = s * s * s;
    assert(p * p + q * q == c * u) by (nonlinear_arith)
        requires
            p == cl * co,
            q == cl * so,
            c == cl * cl,
            u == co * co + so * so,
    ;
    assert(0 <= c <= s * s) by (nonlinear_arith)
        requires
            c == cl * cl,
            -s <= cl <= s,
    ;
    assert(c * u <= c * (s * s) && c * u >= c * (s * s) - 2 * cube) by (nonlinear_arith)
        requires
            0 <= c <= s * s,
            s * s - 2 * s <= u <= s * s,
            cube == s * s * s,
            s > 0,
    ;
    let flat = x * x + z * z;
    assert(flat * (s * s) == (x * x) * (s * s) + (z * z) * (s * s)) by (nonlinear_arith)
        requires
            flat == x * x + z * z,
    ;
    assert(flat * (s * s) <= c * (s * s));
    assert(flat * (s * s) >= c * (s * s) - 6 * cube);
    assert(flat <= c && flat >= c - 6 * s) by (nonlinear_arith)
        requires
            flat * (s * s) <= c * (s * s),
            flat * (s * s) >= c * (s * s) - 6 * cube,
            cube == s * s * s,
            s > 0,
    ;
    assert(sphere_point(lat, lon).x@ == x);
    assert(sphere_point(lat, lon).y@ == sl);
    assert(sphere_point(lat, lon).z@ == z);
}

/// The landmarks of the sphere: latitude and longitude zero give the point
/// one on the first axis, and a quarter turn of latitude gives the north
/// pole at every longitude.
pub proof fn law_sphere_landmarks(lon: int)
    ensures
        sphere_point(0, 0) == (Vec3 { x: fixed(SCALE as int), y: fixed(0), z: fixed(0) }),
        sphere_point(HALF_PI as int, lon) == (Vec3 {
            x: fixed(0),
            y: fixed(SCALE as int),
            z: fixed(0),
        }),
{
    law_sine_landmarks();
    lemma_mul_raw_one(SCALE as int);
    lemma_mul_raw_one(0);
    let c = cos_raw(lon);
    let s = sin_raw(lon);
    assert(0 * c == 0 && 0 * s == 0) by (nonlinear_arith);
}

} // verus!
