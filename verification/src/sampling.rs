//! Random direction sampling: points in and on the unit sphere, and the
//! cosine-weighted hemisphere.

use vstd::prelude::*;

use crate::math::{abs, isqrt, lemma_sqrt_floor_bounds, scale, sqrt_floor, wide_mul, SCALE};
use crate::rng::RngHandle;
use crate::vec3::{bounded, dot_raw, lemma_dot_raw_self, V3};

verus! {

/// A uniform fixed-point scalar in `[-1, 1)`.
pub fn signed_unit(rng: &mut RngHandle) -> (r: i64)
    ensures
        -65536 <= r < 65536,
{
    let v = rng.below(131072);
    (v as i64) - 65536
}

/// Returns a random vector whose length is at most one unit: points are
/// drawn uniformly from the cube and rejected until one falls inside the
/// sphere; after a bounded number of misses the center is returned.
pub fn get_point_in_sphere(rng: &mut RngHandle) -> (r: V3)
    ensures
        dot_raw(r, r) <= 65536 * 65536,
        bounded(r, scale()),
{
    let mut tries: u64 = 0;
    while tries < 64
        invariant
            tries <= 64,
        decreases 64 - tries,
    {
        let x = signed_unit(rng);
        let y = signed_unit(rng);
        let z = signed_unit(rng);
        proof {
            crate::math::lemma_mul_abs_bound(x as int, x as int, 65536, 65536);
            crate::math::lemma_mul_abs_bound(y as int, y as int, 65536, 65536);
            crate::math::lemma_mul_abs_bound(z as int, z as int, 65536, 65536);
        }
        let p = wide_mul(x, x) + wide_mul(y, y) + wide_mul(z, z);
        if p <= 65536 * 65536 {
            let v = V3 { x, y, z };
            proof {
                assert(dot_raw(v, v) == p);
            }
            return v;
        }
        tries = tries + 1;
    }
    proof {
        lemma_dot_raw_self(V3 { x: 0i64, y: 0i64, z: 0i64 });
    }
    V3 { x: 0, y: 0, z: 0 }
}

/// `r` is the normalization of the in-sphere draw `q`, with the zero draw
/// standing in for the vertical axis.
pub open spec fn sphere_surface_sample(q: V3, r: V3) -> bool {
    &&& dot_raw(q, q) <= 65536 * 65536
    &&& bounded(q, scale())
    &&& r == (if q.x == 0 && q.y == 0 && q.z == 0 {
        V3 { x: 0i64, y: 0i64, z: 65536i64 }
    } else {
        q.norm_spec()
    })
}

/// `r` lies on the unit sphere: it is the normalization of some point drawn
/// from the unit ball, or the vertical fallback for the zero draw.
pub open spec fn on_sphere_spec(r: V3) -> bool {
    exists|q: V3| #[trigger] sphere_surface_sample(q, r)
}

/// Returns a random vector of one unit length: a point in the sphere,
/// normalized; the rare zero draw falls back to the vertical axis.
pub fn get_point_on_sphere(rng: &mut RngHandle) -> (r: V3)
    ensures
        bounded(r, scale()),
        on_sphere_spec(r),
{
    let p = get_point_in_sphere(rng);
    let r = if p.x == 0 && p.y == 0 && p.z == 0 {
        V3 { x: 0, y: 0, z: SCALE }
    } else {
        p.norm()
    };
    proof {
        assert(sphere_surface_sample(p, r));
    }
    r
}

/// A random point on the unit disk, drawn by rejection; after a bounded
/// number of misses the center is returned.
pub fn get_point_in_disk(rng: &mut RngHandle) -> (r: (i64, i64))
    ensures
        r.0 * r.0 + r.1 * r.1 <= 65536 * 65536,
        abs(r.0 as int) <= 65536,
        abs(r.1 as int) <= 65536,
{
    let mut tries: u64 = 0;
    while tries < 64
        invariant
            tries <= 64,
        decreases 64 - tries,
    {
        let x = signed_unit(rng);
        let y = signed_unit(rng);
        proof {
            crate::math::lemma_mul_abs_bound(x as int, x as int, 65536, 65536);
            crate::math::lemma_mul_abs_bound(y as int, y as int, 65536, 65536);
        }
        let p = wide_mul(x, x) + wide_mul(y, y);
        if p <= 65536 * 65536 {
            return (x, y);
        }
        tries = tries + 1;
    }
    proof {
        assert(0 * 0 + 0 * 0 <= 65536 * 65536) by (nonlinear_arith);
    }
    (0, 0)
}

/// `d` is a disk point lifted onto the upper hemisphere: its height is the
/// root of what the in-disk coordinates leave of the unit length, so it
/// never points below the horizon.
pub open spec fn cosine_disk_sample(d: V3) -> bool {
    &&& d.z >= 0
    &&& d.z == sqrt_floor(65536 * 65536 - d.x * d.x - d.y * d.y)
    &&& bounded(d, scale())
}

/// Random cosine direction, with density proportional to the cosine against
/// the vertical axis: a uniform point `(x, y)` of the unit disk is lifted
/// onto the hemisphere at `z = sqrt(1 - x^2 - y^2)`, which realizes the
/// cosine weighting without any trigonometry.  Every sample points into the
/// upper hemisphere.
pub fn random_cosine_direction(rng: &mut RngHandle) -> (r: V3)
    ensures
        cosine_disk_sample(r),
        r.z >= 0,
        r.z == sqrt_floor(65536 * 65536 - r.x * r.x - r.y * r.y),
        bounded(r, scale()),
{
    let (x, y) = get_point_in_disk(rng);
    proof {
        crate::math::lemma_mul_abs_bound(x as int, x as int, 65536, 65536);
        crate::math::lemma_mul_abs_bound(y as int, y as int, 65536, 65536);
    }
    let rem = 65536 * 65536 - wide_mul(x, x) - wide_mul(y, y);
    proof {
        assert(x as int * x as int >= 0 && y as int * y as int >= 0) by (nonlinear_arith);
    }
    let z128 = isqrt(rem as u128);
    proof {
        lemma_sqrt_floor_bounds(rem as int);
        if sqrt_floor(rem as int) > 65536 {
            assert(65536 * 65536 < sqrt_floor(rem as int) * sqrt_floor(rem as int))
                by (nonlinear_arith)
                requires sqrt_floor(rem as int) > 65536;
        }
    }
    let z = z128 as i64;
    V3 { x, y, z }
}

/// A direction toward a sphere of the given radius whose center stands at
/// the given squared distance, sampled over the cone the sphere subtends:
/// the azimuth comes from a point on the unit circle and the height is
/// drawn between the cone's rim and its axis.  The returned direction
/// always has near-unit coordinates and points up the axis.
pub fn random_to_sphere(radius: i64, distance_squared: i64, rng: &mut RngHandle) -> (r: V3)
    requires
        0 < radius,
        abs(radius as int) <= 0x4000_0000,
        radius * radius < distance_squared,
        distance_squared <= 0x1000_0000_0000_0000,
    ensures
        bounded(r, scale()),
        r.z >= 0,
{
    let r2 = rng.below(65536) as i64;
    // cos of the cone's half angle: sqrt(1 - radius^2 / distance^2).
    proof {
        crate::math::lemma_mul_abs_bound(radius as int, radius as int, 0x4000_0000,
            0x4000_0000);
        crate::math::lemma_tdiv_bound(radius as int * radius as int * 65536,
            distance_squared as int);
        crate::math::lemma_tdiv_quot_bound(
            (radius * radius) as int * 65536,
            distance_squared as int,
            65536,
        );
        assert(radius * radius * 65536 <= distance_squared * 65536) by (nonlinear_arith)
            requires radius * radius < distance_squared;
    }
    let ratio = crate::math::tdiv_i128(
        wide_mul(radius, radius) * 65536,
        distance_squared as i128,
    ) as i64;
    let f = if ratio > 65536 { 0 } else { 65536 - ratio };
    let cos_max128 = isqrt((f as u128) * 65536);
    proof {
        lemma_sqrt_floor_bounds(f as int * 65536);
        if sqrt_floor(f as int * 65536) > 65536 {
            assert(65536 * 65536 < sqrt_floor(f as int * 65536) * sqrt_floor(f as int * 65536))
                by (nonlinear_arith)
                requires sqrt_floor(f as int * 65536) > 65536;
            assert(f as int * 65536 <= 65536 * 65536) by (nonlinear_arith)
                requires 0 <= f <= 65536;
        }
    }
    let cos_max = cos_max128 as i64;
    proof {
        assert(0 <= (65536 - cos_max) * r2 && (65536 - cos_max) * r2 <= 65536 * 65536)
            by (nonlinear_arith)
            requires 0 <= 65536 - cos_max <= 65536, 0 <= r2 < 65536;
    }
    // z interpolates between 1 and the rim cosine.
    let z = 65536 - ((65536 - cos_max) * r2) / 65536;
    let zz = wide_mul(z, z);
    let temp128 = if zz >= 65536 * 65536 { 0 } else { isqrt((65536 * 65536 - zz) as u128) };
    proof {
        if zz < 65536 * 65536 {
            lemma_sqrt_floor_bounds(65536 * 65536 - zz as int);
            if sqrt_floor(65536 * 65536 - zz as int) > 65536 {
                assert(65536 * 65536 < sqrt_floor(65536 * 65536 - zz as int) * sqrt_floor(
                    65536 * 65536 - zz as int)) by (nonlinear_arith)
                    requires sqrt_floor(65536 * 65536 - zz as int) > 65536;
            }
        }
    }
    let temp = temp128 as i64;
    let (a, b) = get_point_in_disk(rng);
    if a == 0 && b == 0 {
        return V3 { x: temp, y: 0, z };
    }
    let circle = V3 { x: a, y: b, z: 0 };
    proof {
        lemma_dot_raw_self(circle);
    }
    let unit = circle.norm();
    proof {
        crate::math::lemma_mul_abs_bound(unit.x as int, temp as int, 65536, 65536);
        crate::math::lemma_mul_abs_bound(unit.y as int, temp as int, 65536, 65536);
        crate::math::lemma_tdiv_quot_bound(unit.x * temp, scale(), 65536);
        crate::math::lemma_tdiv_quot_bound(unit.y * temp, scale(), 65536);
    }
    let x = crate::math::mul_fx(unit.x, temp);
    let y = crate::math::mul_fx(unit.y, temp);
    V3 { x, y, z }
}

} // verus!
