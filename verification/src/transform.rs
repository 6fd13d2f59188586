//! Structural wrappers: translation, rotation, face flipping and the
//! constant-density participating medium.

use vstd::prelude::*;

use vstd::arithmetic::power2::pow2;

use crate::aabb::Aabb;
use crate::hit::{hit_spec as make_hit_spec, Hit};
use crate::interval::Interval;
use crate::math::{abs, scale, tdiv, tdiv_i128, wide_mul, lemma_tdiv_bound};
use crate::ray::{Ray, RaySetting, TMAX};
use crate::rng::RngHandle;
use crate::vec3::V3;

verus! {

/// Represents translated object.
#[derive(Debug)]
pub struct Translated {
    /// Object position is translated by this vector.
    pub offset: V3,
    /// Object that is translated.
    pub hittable: Box<crate::hitables::Primitive>,
}

/// Represents a hittable object that was rotated by some angle around some
/// axis.
#[derive(Debug)]
pub struct Rotated {
    /// Sine of half the rotation angle, as the quaternion form needs.
    pub sin_theta: i64,
    /// Cosine of half the rotation angle.
    pub cos_theta: i64,
    /// Axis around which the object is rotated.
    pub axis: V3,
    /// Bounding box of the rotated object.
    pub bounding_box: Aabb,
    /// Object that is rotated.
    pub hittable: Box<crate::hitables::Primitive>,
}

/// FlipFace represents a primitive with flipped front and back faces.
#[derive(Debug)]
pub struct FlipFace {
    /// Object whose face classification is flipped.
    pub hittable: Box<crate::hitables::Primitive>,
}

/// A bounded primitive reinterpreted as a homogeneous participating medium
/// such as smoke or fog.
#[derive(Debug)]
pub struct ConstantMedium {
    /// The primitive whose volume scatters.
    pub boundary: Box<crate::hitables::Primitive>,
    /// Material handle of the isotropic phase function.
    pub phase_function: usize,
    /// Negated reciprocal density: more negative means thinner smoke.
    pub neg_inv_density: i64,
}

/// Fixed-point ln 2.
pub const LN2_FX: i64 = 45426;

/// Number of doublings that bring `u` into the upper half of the unit
/// interval.
pub open spec fn shift_to_norm(u: int) -> int
    decreases 65536 - u,
{
    if u < 1 {
        0
    } else if u >= 32768 {
        0
    } else {
        1 + shift_to_norm(2 * u)
    }
}

/// Fixed-point negated natural logarithm of `u / 65536`, for `u` in the
/// open unit interval: `u` is doubled into the upper half of the interval,
/// each doubling contributing ln 2, and the rest is the series of
/// `-ln(1 - x)` truncated after its cubic term.
pub open spec fn neg_ln_fx(u: int) -> int {
    let k = shift_to_norm(u);
    let m = u * pow2(k as nat);
    let x = 65536 - m;
    k * 45426 + x + tdiv(x * x, 131072) + tdiv(tdiv(x * x, 65536) * x, 196608)
}

/// Fixed-point negated logarithm of `u / 65536`.
pub fn neg_ln(u: i64) -> (r: i64)
    requires
        1 <= u < 65536,
    ensures
        r == neg_ln_fx(u as int),
        0 <= r < 0x100000,
{
    let mut m = u;
    let mut k: i64 = 0;
    proof {
        vstd::arithmetic::power2::lemma2_to64();
        assert(pow2(0) == 1);
        assert(u as int * 1 == u as int) by (nonlinear_arith);
    }
    while m < 32768
        invariant
            1 <= m < 65536,
            0 <= k <= 16,
            m == u * pow2(k as nat),
            shift_to_norm(u as int) == k + shift_to_norm(m as int),
            u >= 1,
        decreases 65536 - m,
    {
        proof {
            vstd::arithmetic::power2::lemma2_to64();
            vstd::arithmetic::power2::lemma_pow2_unfold((k + 1) as nat);
            assert(2 * (u * pow2(k as nat)) == u * (2 * pow2(k as nat)))
                by (nonlinear_arith);
            assert(m >= pow2(k as nat)) by (nonlinear_arith)
                requires u >= 1, pow2(k as nat) > 0, m == u * pow2(k as nat);
            vstd::arithmetic::power2::lemma_pow2_pos(k as nat);
            if k >= 15 {
                vstd::arithmetic::power2::lemma_pow2_adds(15, (k - 15) as nat);
                vstd::arithmetic::power2::lemma_pow2_pos((k - 15) as nat);
                assert(pow2(k as nat) >= pow2(15)) by (nonlinear_arith)
                    requires pow2(k as nat) == pow2(15) * pow2((k - 15) as nat),
                        pow2((k - 15) as nat) >= 1;
            }
        }
        m = m * 2;
        k = k + 1;
    }
    let x = 65536 - m;
    proof {
        assert(x * x >= 0 && x * x <= 32768 * 32768) by (nonlinear_arith)
            requires 0 <= x <= 32768;
    }
    let t2 = (x * x) / 131072;
    let xx = (x * x) / 65536;
    proof {
        assert(xx * x >= 0 && xx * x <= 16384 * 32768) by (nonlinear_arith)
            requires 0 <= xx <= 16384, 0 <= x <= 32768;
    }
    let t3 = (xx * x) / 196608;
    k * LN2_FX + x + t2 + t3
}

/// What the medium reports once the two boundary crossings `t1 <= t2` and
/// the free-flight draw are known: the crossings are clamped to the ray's
/// interval, the sampled flight distance is compared against the distance
/// through the volume, and a scatter within it yields a hit at that depth
/// with the phase material.  The draw `u == 0` stands for an unbounded
/// flight and never scatters.
pub open spec fn medium_decision_spec(
    t1: int,
    t2: int,
    ray: Ray,
    neg_inv_density: int,
    u: int,
    phase: usize,
) -> Option<Hit> {
    let tmin = ray.setting.ray_time.min as int;
    let tmax = ray.setting.ray_time.max as int;
    let a0 = if t1 < tmin { tmin } else { t1 };
    let b = if t2 > tmax { tmax } else { t2 };
    if a0 >= b || u == 0 {
        None
    } else {
        let a = if a0 < 0 { 0 } else { a0 };
        if a >= b {
            None
        } else {
            let ray_length = ray.end.length_spec();
            if ray_length == 0 {
                None
            } else {
                let distance_inside = tdiv((b - a) * ray_length, scale());
                let hit_distance = tdiv(-neg_inv_density * neg_ln_fx(u), scale());
                if hit_distance > distance_inside {
                    None
                } else {
                    let t = a + tdiv(hit_distance * scale(), ray_length);
                    Some(make_hit_spec(ray, V3 { x: 65536i64, y: 0i64, z: 0i64 }, t as i64,
                        ray.at(t), phase, 0, 0))
                }
            }
        }
    }
}

/// What the medium reports for a given flight draw: the boundary is probed
/// for its entry crossing over the whole parameter range and then for the
/// following exit crossing, and the decision above is applied to the two.
/// Entry parameters at the edge of the parameter range are a miss.
pub open spec fn medium_hit_full_spec(m: ConstantMedium, ray: Ray, u: int) -> Option<Hit> {
    let probe1 = Ray {
        setting: RaySetting {
            ray_time: Interval { min: (-0x1_0000_0000) as i64, max: 0x1_0000_0000 as i64 },
            ..ray.setting
        },
        ..ray
    };
    match crate::hitables::hit_spec(*m.boundary, probe1) {
        None => None,
        Some(h1) => if h1.t >= 0x1_0000_0000 - 7 || h1.t < -0x1_0000_0000 {
            None
        } else {
            let probe2 = Ray {
                setting: RaySetting {
                    ray_time: Interval { min: (h1.t + 7) as i64, max: 0x1_0000_0000 as i64 },
                    ..ray.setting
                },
                ..ray
            };
            match crate::hitables::hit_spec(*m.boundary, probe2) {
                None => None,
                Some(h2) => medium_decision_spec(h1.t as int, h2.t as int, ray,
                    m.neg_inv_density as int, u, m.phase_function),
            }
        },
    }
}

/// Applies the medium's scatter decision to two boundary crossings and a
/// flight draw.
pub fn medium_decide(t1: i64, t2: i64, ray: &Ray, neg_inv_density: i64, u: i64, phase: usize)
    -> (r: Option<Hit>)
    requires
        ray.wf(),
        neg_inv_density < 0,
        abs(neg_inv_density as int) <= 0x1_0000_0000,
        0 <= u < 65536,
        abs(t1 as int) <= 0x1_0000_0000,
        abs(t2 as int) <= 0x1_0000_0000,
    ensures
        r == medium_decision_spec(t1 as int, t2 as int, *ray, neg_inv_density as int, u as int,
            phase),
{
    let tmin = ray.setting.ray_time.min;
    let tmax = ray.setting.ray_time.max;
    let a0 = if t1 < tmin { tmin } else { t1 };
    let b = if t2 > tmax { tmax } else { t2 };
    if a0 >= b || u == 0 {
        return None;
    }
    let a = if a0 < 0 { 0 } else { a0 };
    if a >= b {
        return None;
    }
    proof {
        crate::vec3::lemma_length_in_range(ray.end);
    }
    let ray_length = ray.end.length();
    if ray_length == 0 {
        return None;
    }
    proof {
        crate::math::lemma_mul_abs_bound((b - a) as int, ray_length as int, 0x2_0000_0000,
            0x8000_0000);
        crate::math::lemma_tdiv_quot_bound((b - a) as int * ray_length as int, scale(),
            0x1_0000_0000_0000);
    }
    let distance_inside = tdiv_i128(wide_mul(b - a, ray_length), 65536);
    let nl = neg_ln(u);
    proof {
        crate::math::lemma_mul_abs_bound((-neg_inv_density) as int, nl as int, 0x1_0000_0000,
            0x100000);
        crate::math::lemma_tdiv_quot_bound((-neg_inv_density) as int * nl as int, scale(),
            0x10_0000_0000_0000);
        assert((-neg_inv_density) as int * nl as int >= 0) by (nonlinear_arith)
            requires -neg_inv_density >= 0, nl >= 0;
    }
    let hit_distance = tdiv_i128(wide_mul(-neg_inv_density, nl), 65536);
    if hit_distance > distance_inside {
        return None;
    }
    proof {
        assert(hit_distance >= 0);
        crate::math::lemma_mul_abs_bound(hit_distance as int, scale(), 0x1_0000_0000_0000,
            65536);
        crate::math::lemma_tdiv_bound(hit_distance as int * scale(), ray_length as int);
    }
    let hd = hit_distance as i64;
    let tq = tdiv_i128(wide_mul(hd, crate::math::SCALE), ray_length as i128);
    proof {
        lemma_medium_t_bound(hit_distance as int, distance_inside as int, (b - a) as int,
            ray_length as int, a as int, b as int);
    }
    let t = a + tq as i64;
    Some(Hit::new(ray, V3::new(65536, 0, 0), t, ray.point_at_param(t), phase, 0, 0))
}

/// The scatter depth lies between the clamped crossings, so the reported
/// parameter stays within the parameter range.
proof fn lemma_medium_t_bound(hd: int, di: int, ba: int, rl: int, a: int, b: int)
    requires
        0 <= hd <= di,
        di == tdiv(ba * rl, scale()),
        ba == b - a,
        0 < ba,
        1 <= rl,
        abs(a) <= 0x1_0000_0000,
        abs(b) <= 0x1_0000_0000,
    ensures
        0 <= tdiv(hd * scale(), rl),
        a + tdiv(hd * scale(), rl) <= a + ba + 65536,
        a + tdiv(hd * scale(), rl) <= b + 65536,
        abs(a + tdiv(hd * scale(), rl)) <= 0x1_0001_0000,
{
    assert(hd * scale() >= 0) by (nonlinear_arith)
        requires hd >= 0;
    assert(tdiv(hd * scale(), rl) >= 0);
    assert(di * scale() <= ba * rl + scale()) by {
        crate::math::lemma_tdiv_mul_bound(ba * rl, scale());
        assert(ba * rl >= 0) by (nonlinear_arith)
            requires ba > 0, rl >= 1;
        assert(di >= 0);
        assert((ba * rl) / 65536 * 65536 + 65536 > ba * rl);
    }
    let q = tdiv(hd * scale(), rl);
    assert(q * rl <= hd * scale()) by {
        crate::math::lemma_tdiv_mul_bound(hd * scale(), rl);
        assert(hd * scale() >= 0) by (nonlinear_arith)
            requires hd >= 0;
        assert(q >= 0);
        assert(abs(q * rl) <= abs(hd * scale()));
        assert(q * rl >= 0) by (nonlinear_arith)
            requires q >= 0, rl >= 1;
    }
    assert(hd * scale() <= di * scale()) by (nonlinear_arith)
        requires hd <= di;
    assert(q * rl <= ba * rl + scale());
    assert(q <= ba + 65536) by (nonlinear_arith)
        requires q * rl <= ba * rl + 65536, rl >= 1, 65536 <= 65536 * rl;
}

impl ConstantMedium {
    /// Finds the ray's two crossings of the boundary, draws an exponential
    /// free-flight distance from the configured density, and reports a
    /// scatter inside the volume if the flight ends there.  For a
    /// media-free boundary the result is [`medium_hit_full_spec`] of the
    /// drawn value: every outcome is one of that family.
    pub fn hit(&self, ray: &Ray, rng: &mut RngHandle) -> (r: Option<Hit>)
        requires
            crate::hitables::prim_wf(*self.boundary),
            self.neg_inv_density < 0,
            abs(self.neg_inv_density as int) <= 0x1_0000_0000,
            ray.wf(),
        ensures
            crate::hitables::media_free(*self.boundary) ==> exists|u: int|
                0 <= u < 65536 && r == #[trigger] medium_hit_full_spec(*self, *ray, u),
        decreases *self.boundary, 2int,
    {
        let probe1 = Ray {
            setting: RaySetting {
                ray_time: Interval { min: -TMAX, max: TMAX },
                ..ray.setting
            },
            ..*ray
        };
        let u = rng.below(65536);
        let first = self.boundary.hit(&probe1, rng);
        match first {
            None => {
                proof {
                    if crate::hitables::media_free(*self.boundary) {
                        assert(medium_hit_full_spec(*self, *ray, u as int) is None);
                    }
                }
                None
            },
            Some(h1) => {
                if h1.t >= TMAX - 7 || h1.t < -TMAX {
                    proof {
                        if crate::hitables::media_free(*self.boundary) {
                            assert(medium_hit_full_spec(*self, *ray, u as int) is None);
                        }
                    }
                    return None;
                }
                let probe2 = Ray {
                    setting: RaySetting {
                        ray_time: Interval { min: h1.t + 7, max: TMAX },
                        ..ray.setting
                    },
                    ..*ray
                };
                let second = self.boundary.hit(&probe2, rng);
                match second {
                    None => {
                        proof {
                            if crate::hitables::media_free(*self.boundary) {
                                assert(medium_hit_full_spec(*self, *ray, u as int) is None);
                            }
                        }
                        None
                    },
                    Some(h2) => {
                        let t1 = if h1.t > TMAX { TMAX } else if h1.t < -TMAX { -TMAX }
                            else { h1.t };
                        let t2 = if h2.t > TMAX { TMAX } else if h2.t < -TMAX { -TMAX }
                            else { h2.t };
                        let r = medium_decide(t1, t2, ray, self.neg_inv_density, u as i64,
                            self.phase_function);
                        proof {
                            if crate::hitables::media_free(*self.boundary) {
                                assert(t1 == h1.t);
                                assert(t2 == h2.t || h2.t > TMAX || h2.t < -TMAX);
                            }
                        }
                        r
                    },
                }
            },
        }
    }
}

} // verus!
