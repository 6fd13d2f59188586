//! Directional probability densities for importance sampling.

use vstd::prelude::*;

use crate::hit::Hit;
use crate::hitables::{all_rotation_free, hit_spec, prim_wf, rotation_free, HitableList,
    Primitive};
use crate::interval::Interval;
use crate::math::{abs, scale, tdiv, tdiv_i128, wide_mul};
use crate::onb::Onb;
use crate::ray::{Ray, RaySetting};
use crate::rng::RngHandle;
use crate::sampling::{get_point_on_sphere, random_cosine_direction, random_to_sphere};
use crate::vec3::{bounded, cmax, dot_fx, dot_raw, sub_spec, V3};

verus! {

/// Fixed-point pi.
pub const PI_FX: i64 = 205887;

/// A directional sampling density: how the scattered direction is drawn and
/// how likely a given direction was.
#[derive(Clone, Copy, Debug, PartialEq, Eq)]
pub enum Pdf {
    /// The density of a deterministic event: zero everywhere.
    Zero,
    /// Uniform over the full sphere.
    Uniform,
    /// Cosine-weighted about the basis's `w` axis.
    Cosine(Onb),
}

/// The density [`Pdf::value`] reports for a direction.
pub open spec fn pdf_value_spec(p: Pdf, origin: V3, direction: V3) -> int {
    match p {
        Pdf::Zero => 0,
        Pdf::Uniform => 5215,
        Pdf::Cosine(onb) => {
            if direction.x == 0 && direction.y == 0 && direction.z == 0 {
                0
            } else {
                let c = dot_fx(direction.norm_spec(), onb.axis.2);
                if c <= 0 {
                    0
                } else {
                    tdiv(c * scale(), 205887)
                }
            }
        },
    }
}

/// What [`Pdf::generate`] returns: the zero vector for the deterministic
/// density, a point of the unit sphere for the uniform one, and the basis
/// image of an upper-hemisphere disk sample for the cosine density, which
/// therefore never points below the basis's horizon.
pub open spec fn pdf_generated_spec(p: Pdf, r: V3) -> bool {
    match p {
        Pdf::Zero => r == (V3 { x: 0i64, y: 0i64, z: 0i64 }),
        Pdf::Uniform => crate::sampling::on_sphere_spec(r),
        Pdf::Cosine(onb) => exists|d: V3| #[trigger] crate::sampling::cosine_disk_sample(d)
            && r == onb.local_vec_spec(d),
    }
}

impl Pdf {
    /// Any basis the density carries is well formed.
    pub open spec fn wf(self) -> bool {
        match self {
            Pdf::Cosine(onb) => onb.wf(),
            _ => true,
        }
    }

    /// Gives the density of drawing `direction` from this Pdf: zero for the
    /// deterministic density, the inverse sphere area `1 / (4 pi)` for the
    /// uniform one, and the clamped cosine against the basis axis over pi
    /// for the cosine density.
    pub fn value(&self, origin: V3, direction: V3) -> (r: i64)
        requires
            direction.in_range(),
            self.wf(),
        ensures
            r == pdf_value_spec(*self, origin, direction),
    {
        match self {
            Pdf::Zero => 0,
            Pdf::Uniform => 5215,
            Pdf::Cosine(onb) => {
                if direction.x == 0 && direction.y == 0 && direction.z == 0 {
                    return 0;
                }
                let n = direction.norm();
                proof {
                    crate::primitive::lemma_dot_fx_bound(n, onb.axis.2, 65536, 262144,
                        0x10_0000);
                    crate::math::lemma_mul_abs_bound(dot_fx(n, onb.axis.2), scale(),
                        0x10_0000, 65536);
                    crate::math::lemma_tdiv_bound(dot_fx(n, onb.axis.2) * scale(), 205887);
                }
                let c = n.dot_wide(onb.axis.2);
                if c <= 0 {
                    0
                } else {
                    tdiv_i128(wide_mul(c, 65536), 205887) as i64
                }
            },
        }
    }

    /// Samples a direction from this Pdf: the zero vector for the
    /// deterministic density, a uniform point on the sphere, or a
    /// cosine-weighted direction about the basis axis.  Every drawn
    /// direction has small coordinates and the stated sampling shape.
    pub fn generate(&self, origin: V3, rng: &mut RngHandle) -> (r: V3)
        requires
            self.wf(),
        ensures
            bounded(r, 24 * scale()),
            pdf_generated_spec(*self, r),
    {
        match self {
            Pdf::Zero => V3::zero(),
            Pdf::Uniform => {
                let p = get_point_on_sphere(rng);
                p
            },
            Pdf::Cosine(onb) => {
                let d = random_cosine_direction(rng);
                let out = onb.local_from_vec(&d);
                proof {
                    assert(crate::sampling::cosine_disk_sample(d)
                        && out == onb.local_vec_spec(d));
                }
                out
            },
        }
    }
}

/// The density a light-capable entity assigns to a direction from `origin`:
/// the entity is probed along the direction, and a hit converts the squared
/// distance and the projected area into a solid-angle density; a miss has
/// density zero.  A translation forwards with the origin shifted into the
/// child's frame and the direction unchanged; a face flip forwards
/// untouched.  Entities that cannot act as lights have density zero.
pub open spec fn entity_pdf_value_spec(p: Primitive, origin: V3, direction: V3) -> int
    decreases p,
{
    match p {
        Primitive::XYrect(r) => {
            let area = tdiv((r.x1 - r.x0) * (r.y1 - r.y0), scale());
            rect_pdf_value_spec(p, origin, direction, area)
        },
        Primitive::XZrect(r) => {
            let area = tdiv((r.x1 - r.x0) * (r.z1 - r.z0), scale());
            rect_pdf_value_spec(p, origin, direction, area)
        },
        Primitive::YZrect(r) => {
            let area = tdiv((r.y1 - r.y0) * (r.z1 - r.z0), scale());
            rect_pdf_value_spec(p, origin, direction, area)
        },
        Primitive::Sphere(s) => sphere_pdf_value_spec(s, origin, direction),
        Primitive::Translated(t) => {
            let o2 = sub_spec(origin, t.offset);
            if !bounded(o2, cmax()) {
                0
            } else {
                entity_pdf_value_spec(*t.hittable, o2, direction)
            }
        },
        Primitive::FlipFace(f) => entity_pdf_value_spec(*f.hittable, origin, direction),
        _ => 0,
    }
}

/// The probe ray light densities are evaluated with: unit time, and the
/// fixed parameter interval the original evaluator used.
pub open spec fn probe_ray_spec(origin: V3, direction: V3) -> Ray {
    Ray {
        origin,
        end: direction,
        time: 65536i64,
        setting: RaySetting {
            background_color: V3 { x: 0i64, y: 0i64, z: 0i64 },
            depth: 32u16,
            ray_time: Interval { min: 66i64, max: 134217728i64 },
        },
    }
}

/// Solid-angle density of striking a face of the given area along
/// `direction`: squared hit distance over the cosine-weighted area,
/// saturated at the scalar maximum.
pub open spec fn rect_pdf_value_spec(p: Primitive, origin: V3, direction: V3, area: int)
    -> int {
    let ray = probe_ray_spec(origin, direction);
    match hit_spec(p, ray) {
        None => 0,
        Some(h) => {
            let ldsq = dot_fx(direction, direction);
            let dist_sq = tdiv(tdiv(h.t * h.t, scale()) * ldsq, scale());
            let len = direction.length_spec();
            if len == 0 {
                0
            } else {
                let cosine = abs(tdiv(tdiv(dot_raw(direction, h.normal), scale()) * scale(),
                    len));
                let denom = tdiv(cosine * area, scale());
                if denom == 0 {
                    0
                } else {
                    sat_i64(tdiv(dist_sq * scale(), denom))
                }
            }
        },
    }
}

/// Saturation of a mathematical integer into the scalar range.
pub open spec fn sat_i64(v: int) -> int {
    if v > 0x7fff_ffff_ffff_ffff {
        0x7fff_ffff_ffff_ffff
    } else if v < -0x8000_0000_0000_0000 {
        -0x8000_0000_0000_0000
    } else {
        v
    }
}

/// Solid-angle density of striking a sphere along `direction`: the
/// reciprocal of the solid angle of the cone the sphere subtends from
/// `origin`, zero when the probe misses.
pub open spec fn sphere_pdf_value_spec(s: crate::primitive::Sphere, origin: V3, direction: V3)
    -> int {
    let ray = probe_ray_spec(origin, direction);
    match crate::primitive::sphere_hit_spec(s.center, s.radius, s.material, ray) {
        None => 0,
        Some(h) => {
            let d2 = tdiv(dot_raw(sub_spec(s.center, origin), sub_spec(s.center, origin)),
                scale());
            let r2 = tdiv(s.radius * s.radius, scale());
            if d2 <= r2 || d2 == 0 {
                0
            } else {
                let f = 65536 - tdiv(r2 * scale(), d2);
                let cos_max = crate::math::sqrt_floor(f * scale());
                let solid = tdiv(2 * 205887 * (65536 - cos_max), scale());
                if solid == 0 {
                    0
                } else {
                    sat_i64(tdiv(65536 * scale(), solid))
                }
            }
        },
    }
}


/// Saturates a wide value into the scalar range.
fn sat_exec(v: i128) -> (r: i64)
    ensures
        r == sat_i64(v as int),
{
    if v > 0x7fff_ffff_ffff_ffff {
        0x7fff_ffff_ffff_ffff
    } else if v < -0x8000_0000_0000_0000 {
        -0x8000_0000_0000_0000i64
    } else {
        v as i64
    }
}

/// Builds the probe ray light densities are evaluated with.
fn probe_ray(origin: V3, direction: V3) -> (r: Ray)
    ensures
        r == probe_ray_spec(origin, direction),
{
    Ray {
        origin,
        end: direction,
        time: 65536,
        setting: RaySetting {
            background_color: V3::zero(),
            depth: 32,
            ray_time: Interval { min: 66, max: 134217728 },
        },
    }
}

/// The common conversion of a probe hit into a solid-angle density for a
/// face of the given area.
fn rect_pdf_from_hit(h: Hit, origin: V3, direction: V3, area: i64) -> (r: i64)
    requires
        direction.in_range(),
        bounded(h.normal, 2 * scale()),
        abs(area as int) <= 0x4000_0000_0000,
        abs(h.t as int) <= 0x1_0000_0000,
    ensures
        ({
            let ldsq = dot_fx(direction, direction);
            let dist_sq = tdiv(tdiv(h.t * h.t, scale()) * ldsq, scale());
            let len = direction.length_spec();
            r == if len == 0 {
                0
            } else {
                let cosine = abs(tdiv(tdiv(dot_raw(direction, h.normal), scale()) * scale(),
                    len));
                let denom = tdiv(cosine * area, scale());
                if denom == 0 {
                    0
                } else {
                    sat_i64(tdiv(dist_sq * scale(), denom))
                }
            }
        }),
{
    proof {
        crate::vec3::lemma_length_in_range(direction);
        crate::primitive::lemma_dot_fx_bound(direction, direction, cmax(), cmax(),
            0xc0_0000_0000_0000);
        crate::math::lemma_mul_abs_bound(h.t as int, h.t as int, 0x1_0000_0000,
            0x1_0000_0000);
        crate::math::lemma_tdiv_quot_bound(h.t * h.t, scale(), 0x1_0000_0000_0000);
        crate::math::lemma_tdiv_bound(tdiv(h.t * h.t, scale()) * dot_fx(direction,
            direction), scale());
        crate::math::lemma_mul_abs_bound(tdiv(h.t * h.t, scale()), dot_fx(direction,
            direction), 0x1_0000_0000_0000, 0xc0_0000_0000_0000);
    }
    let ldsq = direction.dot(direction);
    let tt = tdiv_i128(wide_mul(h.t, h.t), 65536);
    let dist_sq = tdiv_i128(tt * (ldsq as i128), 65536);
    let len = direction.length();
    if len == 0 {
        return 0;
    }
    proof {
        crate::math::lemma_mul_abs_bound(direction.x as int, h.normal.x as int, cmax(),
            131072);
        crate::math::lemma_mul_abs_bound(direction.y as int, h.normal.y as int, cmax(),
            131072);
        crate::math::lemma_mul_abs_bound(direction.z as int, h.normal.z as int, cmax(),
            131072);
        crate::math::lemma_tdiv_bound(dot_raw(direction, h.normal), scale());
    }
    let draw = wide_mul(direction.x, h.normal.x) + wide_mul(direction.y, h.normal.y)
        + wide_mul(direction.z, h.normal.z);
    let dfx = tdiv_i128(draw, 65536);
    proof {
        crate::math::lemma_tdiv_bound(dfx as int * 65536, len as int);
    }
    proof {
        crate::math::lemma_tdiv_quot_bound(draw as int, scale(), 0x2_0000_0000);
        crate::math::lemma_mul_abs_bound(dfx as int, 65536, 0x2_0000_0000, 65536);
        crate::math::lemma_tdiv_bound(dfx as int * 65536, len as int);
        crate::math::lemma_tdiv_quot_bound(dfx as int * 65536, len as int,
            0x2_0000_0000_0000);
    }
    let cosine_s = tdiv_i128(dfx * 65536, len as i128);
    let cosine = if cosine_s >= 0 { cosine_s } else { -cosine_s };
    proof {
        crate::math::lemma_mul_abs_bound(cosine as int, area as int, 0x2_0000_0000_0000,
            0x4000_0000_0000);
        crate::math::lemma_tdiv_bound(cosine as int * area as int, scale());
    }
    let denom = tdiv_i128(cosine * (area as i128), 65536);
    if denom == 0 {
        return 0;
    }
    proof {
        crate::math::lemma_tdiv_bound(dist_sq as int * 65536, denom as int);
    }
    let v = tdiv_i128(dist_sq * 65536, denom);
    sat_exec(v)
}

impl Primitive {
    /// Gives the solid-angle density of sampling `direction` toward this
    /// entity from `origin`: a probe intersection converted by distance and
    /// projected area for the light-capable shapes, forwarded through
    /// translations and face flips with the hit-testing coordinate
    /// adjustment, zero for every other entity.  A rotated entity is
    /// rejected by the precondition: rotations do not forward densities.
    pub fn value(&self, origin: V3, direction: V3) -> (r: i64)
        requires
            prim_wf(*self),
            rotation_free(*self),
            origin.in_range(),
            direction.in_range(),
        ensures
            r == entity_pdf_value_spec(*self, origin, direction),
        decreases *self,
    {
        let ray = probe_ray(origin, direction);
        match self {
            Primitive::XYrect(re) => {
                proof {
                    lemma_area_fits(re.x1 as int - re.x0 as int, re.y1 as int - re.y0 as int);
                }
                let area = tdiv_i128(wide_mul(re.x1 - re.x0, re.y1 - re.y0), 65536) as i64;
                match re.hit(&ray) {
                    None => 0,
                    Some(h) => {
                        proof {
                            assert(bounded(h.normal, 2 * scale()));
                        }
                        rect_pdf_from_hit(h, origin, direction, area)
                    },
                }
            },
            Primitive::XZrect(re) => {
                proof {
                    lemma_area_fits(re.x1 as int - re.x0 as int, re.z1 as int - re.z0 as int);
                }
                let area = tdiv_i128(wide_mul(re.x1 - re.x0, re.z1 - re.z0), 65536) as i64;
                match re.hit(&ray) {
                    None => 0,
                    Some(h) => {
                        proof {
                            assert(bounded(h.normal, 2 * scale()));
                        }
                        rect_pdf_from_hit(h, origin, direction, area)
                    },
                }
            },
            Primitive::YZrect(re) => {
                proof {
                    lemma_area_fits(re.y1 as int - re.y0 as int, re.z1 as int - re.z0 as int);
                }
                let area = tdiv_i128(wide_mul(re.y1 - re.y0, re.z1 - re.z0), 65536) as i64;
                match re.hit(&ray) {
                    None => 0,
                    Some(h) => {
                        proof {
                            assert(bounded(h.normal, 2 * scale()));
                        }
                        rect_pdf_from_hit(h, origin, direction, area)
                    },
                }
            },
            Primitive::Sphere(s) => {
                proof {
                    assert(entity_pdf_value_spec(*self, origin, direction)
                        == sphere_pdf_value_spec(*s, origin, direction));
                }
                match s.hit(&ray) {
                    None => 0,
                    Some(_h) => {
                        proof {
                            assert(s.center.x - origin.x < 0x8000_0000_0000_0000
                                && -0x8000_0000_0000_0000 <= s.center.x - origin.x);
                        }
                        let co = s.center.sub(origin);
                        proof {
                            crate::primitive::lemma_dot_fx_bound(co, co, 2 * cmax(),
                                2 * cmax(), 0x300_0000_0000_0000);
                            crate::math::lemma_mul_abs_bound(s.radius as int,
                                s.radius as int, cmax(), cmax());
                            crate::math::lemma_tdiv_quot_bound(s.radius * s.radius, scale(),
                                0x4000_0000_0000);
                        }
                        let d2 = co.dot_wide(co);
                        let r2 = crate::math::mul_fx(s.radius, s.radius);
                        if d2 <= r2 || d2 == 0 {
                            return 0;
                        }
                        proof {
                            crate::math::lemma_mul_abs_bound(r2 as int, scale(),
                                0x4000_0000_0000, 65536);
                            crate::math::lemma_tdiv_bound(r2 as int * scale(), d2 as int);
                            assert(r2 as int >= 0) by {
                                assert(s.radius as int * s.radius as int >= 0)
                                    by (nonlinear_arith);
                            }
                            crate::math::lemma_mul_le_mono(r2 as int, d2 as int, scale());
                            crate::math::lemma_tdiv_quot_bound(r2 as int * scale(),
                                d2 as int, 65536);
                        }
                        let ratio = tdiv_i128(wide_mul(r2, crate::math::SCALE),
                            d2 as i128) as i64;
                        let f = 65536 - ratio;
                        if f < 0 {
                            return 0;
                        }
                        let cm128 = crate::math::isqrt((f as u128) * 65536);
                        proof {
                            crate::math::lemma_sqrt_floor_bounds(f as int * 65536);
                            if crate::math::sqrt_floor(f as int * 65536) > 65536 {
                                assert(65536 * 65536 < crate::math::sqrt_floor(
                                    f as int * 65536) * crate::math::sqrt_floor(
                                    f as int * 65536)) by (nonlinear_arith)
                                    requires crate::math::sqrt_floor(f as int * 65536)
                                        > 65536;
                                assert(f as int * 65536 <= 65536 * 65536)
                                    by (nonlinear_arith)
                                    requires 0 <= f <= 65536;
                            }
                        }
                        let cos_max = cm128 as i64;
                        proof {
                            crate::math::lemma_mul_abs_bound(411774int,
                                65536 - cos_max as int, 411774int, 131072int);
                            crate::math::lemma_tdiv_bound(411774 * (
                                65536 - cos_max as int), scale());
                        }
                        let solid = tdiv_i128(
                            (2 * 205887) * ((65536 - cos_max) as i128),
                            65536,
                        ) as i64;
                        if solid == 0 {
                            return 0;
                        }
                        proof {
                            crate::math::lemma_tdiv_bound(65536 * scale(), solid as int);
                        }
                        let v = tdiv_i128(65536 * 65536, solid as i128);
                        sat_exec(v)
                    },
                }
            },
            Primitive::Translated(t) => {
                proof {
                    assert(origin.x - t.offset.x < 0x8000_0000_0000_0000
                        && -0x8000_0000_0000_0000 <= origin.x - t.offset.x);
                }
                let o2 = origin.sub(t.offset);
                if !o2.is_in_range() {
                    0
                } else {
                    t.hittable.value(o2, direction)
                }
            },
            Primitive::FlipFace(f) => f.hittable.value(origin, direction),
            _ => 0,
        }
    }

    /// Samples a direction from `origin` toward this entity: a uniform
    /// point on a face, or a point in the cone a sphere subtends; a
    /// translation forwards with the origin shifted into the child's frame,
    /// a face flip forwards untouched.  Entities that cannot act as lights
    /// yield a fixed vertical direction.  A rotated entity is rejected by
    /// the precondition: rotations do not forward sampling.
    pub fn generate(&self, origin: V3, rng: &mut RngHandle) -> (r: V3)
        requires
            prim_wf(*self),
            rotation_free(*self),
            origin.in_range(),
        ensures
            bounded(r, 24 * scale() + 2 * cmax()),
            entity_generated_spec(*self, origin, r),
        decreases *self,
    {
        match self {
            Primitive::XYrect(re) => {
                let px = re.x0 + rng.below((re.x1 - re.x0) as u64) as i64;
                let py = re.y0 + rng.below((re.y1 - re.y0) as u64) as i64;
                let p = V3 { x: px, y: py, z: re.k };
                let out = p.sub(origin);
                proof {
                    assert(re.x0 <= p.x < re.x1 && re.y0 <= p.y < re.y1 && p.z == re.k
                        && out == sub_spec(p, origin));
                }
                out
            },
            Primitive::XZrect(re) => {
                let px = re.x0 + rng.below((re.x1 - re.x0) as u64) as i64;
                let pz = re.z0 + rng.below((re.z1 - re.z0) as u64) as i64;
                let p = V3 { x: px, y: re.k, z: pz };
                let out = p.sub(origin);
                proof {
                    assert(re.x0 <= p.x < re.x1 && re.z0 <= p.z < re.z1 && p.y == re.k
                        && out == sub_spec(p, origin));
                }
                out
            },
            Primitive::YZrect(re) => {
                let py = re.y0 + rng.below((re.y1 - re.y0) as u64) as i64;
                let pz = re.z0 + rng.below((re.z1 - re.z0) as u64) as i64;
                let p = V3 { x: re.k, y: py, z: pz };
                let out = p.sub(origin);
                proof {
                    assert(re.y0 <= p.y < re.y1 && re.z0 <= p.z < re.z1 && p.x == re.k
                        && out == sub_spec(p, origin));
                }
                out
            },
            Primitive::Sphere(s) => {
                proof {
                    assert(s.center.x - origin.x < 0x8000_0000_0000_0000
                        && -0x8000_0000_0000_0000 <= s.center.x - origin.x);
                }
                let direction = s.center.sub(origin);
                if direction.x == 0 && direction.y == 0 && direction.z == 0 {
                    return V3 { x: 0, y: 0, z: 65536 };
                }
                proof {
                    crate::vec3::lemma_length_le(direction, 2 * cmax(), 0x4_0000_0000);
                }
                let len = direction.length();
                proof {
                    crate::math::lemma_mul_abs_bound(len as int, len as int,
                        0x4_0000_0000, 0x4_0000_0000);
                    crate::math::lemma_tdiv_quot_bound(len as int * len as int, scale(),
                        0x1000_0000_0000_0000);
                }
                let d2 = crate::math::mul_fx(len, len);
                let rad = if s.radius >= 0 { s.radius } else { -s.radius };
                if rad == 0 || d2 > 0x1000_0000_0000_0000 {
                    return V3 { x: 0, y: 0, z: 65536 };
                }
                proof {
                    crate::math::lemma_mul_abs_bound(rad as int, rad as int, cmax(), cmax());
                }
                let rr = crate::math::wide_mul(rad, rad);
                if rr >= d2 as i128 {
                    return V3 { x: 0, y: 0, z: 65536 };
                }
                let uvw = Onb::build_from_w(&direction);
                let sampled = random_to_sphere(rad, d2, rng);
                let out = uvw.local_from_vec(&sampled);
                proof {
                    assert(!sphere_sample_degenerate(*s, origin));
                    assert(bounded(sampled, scale()) && sampled.z >= 0
                        && out == crate::onb::build_from_w_spec(direction).local_vec_spec(
                        sampled));
                }
                out
            },
            Primitive::Translated(t) => {
                proof {
                    assert(origin.x - t.offset.x < 0x8000_0000_0000_0000
                        && -0x8000_0000_0000_0000 <= origin.x - t.offset.x);
                }
                let o2 = origin.sub(t.offset);
                if !o2.is_in_range() {
                    V3 { x: 0, y: 0, z: 65536 }
                } else {
                    t.hittable.generate(o2, rng)
                }
            },
            Primitive::FlipFace(f) => f.hittable.generate(origin, rng),
            _ => V3 { x: 0, y: 0, z: 65536 },
        }
    }
}

/// The guard conditions under which sampling a direction toward a sphere
/// falls back to the fixed vertical direction: the origin sits at the
/// center, at or inside the shell, or the separation leaves the fixed-point
/// pipeline.
pub open spec fn sphere_sample_degenerate(s: crate::primitive::Sphere, origin: V3) -> bool {
    let direction = sub_spec(s.center, origin);
    let len = direction.length_spec();
    let d2 = tdiv(len * len, scale());
    let rad = abs(s.radius as int);
    ||| (direction.x == 0 && direction.y == 0 && direction.z == 0)
    ||| rad == 0
    ||| d2 > 0x1000_0000_0000_0000
    ||| rad * rad >= d2
}

/// What sampling a direction toward a sphere returns: for workable
/// geometry, the basis about the center direction applied to some
/// upper-hemisphere cone sample; the fixed vertical direction otherwise.
pub open spec fn sphere_generated_spec(s: crate::primitive::Sphere, origin: V3, r: V3) -> bool {
    let direction = sub_spec(s.center, origin);
    if sphere_sample_degenerate(s, origin) {
        r == (V3 { x: 0i64, y: 0i64, z: 65536i64 })
    } else {
        exists|d: V3| bounded(d, scale()) && d.z >= 0
            && r == #[trigger] crate::onb::build_from_w_spec(direction).local_vec_spec(d)
    }
}

/// What [`Primitive::generate`] returns for each entity: the difference
/// between a uniformly drawn point of a face and the origin; a cone sample
/// toward a sphere; the fixed vertical direction for entities that cannot
/// act as lights.  A translation forwards with the origin shifted into the
/// child's frame, a face flip forwards untouched.
pub open spec fn entity_generated_spec(p: Primitive, origin: V3, r: V3) -> bool
    decreases p,
{
    match p {
        Primitive::XYrect(re) => exists|q: V3|
            re.x0 <= q.x < re.x1 && re.y0 <= q.y < re.y1 && q.z == re.k
                && r == #[trigger] sub_spec(q, origin),
        Primitive::XZrect(re) => exists|q: V3|
            re.x0 <= q.x < re.x1 && re.z0 <= q.z < re.z1 && q.y == re.k
                && r == #[trigger] sub_spec(q, origin),
        Primitive::YZrect(re) => exists|q: V3|
            re.y0 <= q.y < re.y1 && re.z0 <= q.z < re.z1 && q.x == re.k
                && r == #[trigger] sub_spec(q, origin),
        Primitive::Sphere(s) => sphere_generated_spec(s, origin, r),
        Primitive::Translated(t) => {
            let o2 = sub_spec(origin, t.offset);
            if !bounded(o2, cmax()) {
                r == (V3 { x: 0i64, y: 0i64, z: 65536i64 })
            } else {
                entity_generated_spec(*t.hittable, o2, r)
            }
        },
        Primitive::FlipFace(f) => entity_generated_spec(*f.hittable, origin, r),
        _ => r == (V3 { x: 0i64, y: 0i64, z: 65536i64 }),
    }
}

/// A face's span products fit the wide pipeline.
proof fn lemma_area_fits(a: int, b: int)
    requires
        0 <= a,
        abs(a) <= 2 * cmax(),
        0 <= b,
        abs(b) <= 2 * cmax(),
    ensures
        abs(a * b) <= 4 * cmax() * cmax(),
        abs(tdiv(a * b, scale())) <= 0x4000_0000_0000,
        -0x8000_0000_0000_0000 <= tdiv(a * b, scale()),
        tdiv(a * b, scale()) < 0x8000_0000_0000_0000,
{
    crate::math::lemma_mul_abs_bound(a, b, 2 * cmax(), 2 * cmax());
    crate::math::lemma_tdiv_quot_bound(a * b, scale(), 0x4000_0000_0000);
    crate::math::lemma_tdiv_bound(a * b, scale());
}

/// The density of a member list: the equal-weight average of its members'
/// densities, folded left to right and saturated into the scalar range.
pub open spec fn list_pdf_value_spec(s: Seq<Primitive>, origin: V3, direction: V3, w: int)
    -> int
    decreases s.len(),
{
    if s.len() == 0 {
        0
    } else {
        list_pdf_value_spec(s.drop_last(), origin, direction, w) + tdiv(
            entity_pdf_value_spec(s.last(), origin, direction) * w, scale())
    }
}

impl HitableList {
    /// Gives the equal-weight average of the members' densities for the
    /// direction.
    pub fn value(&self, origin: V3, direction: V3) -> (r: i64)
        requires
            self.wf(),
            all_rotation_free(self.list@),
            origin.in_range(),
            direction.in_range(),
            self.list@.len() > 0,
            self.list@.len() < 65536,
        ensures
            r == sat_i64(list_pdf_value_spec(self.list@, origin, direction, tdiv(
                scale(), self.list@.len() as int))),
    {
        let len = self.list.len();
        let weight = crate::math::SCALE / (len as i64);
        proof {
            assert(65536int / (len as int) == tdiv(scale(), len as int));
            assert(0 <= 65536int / (len as int) <= 65536) by (nonlinear_arith)
                requires 1 <= len as int;
            assert(self.list@.take(0int) =~= Seq::<Primitive>::empty());
        }
        let mut acc: i128 = 0;
        let mut i: usize = 0;
        while i < len
            invariant
                self.wf(),
                all_rotation_free(self.list@),
                origin.in_range(),
                direction.in_range(),
                len == self.list@.len(),
                1 <= len < 65536,
                i <= len,
                0 <= weight <= 65536,
                weight == tdiv(scale(), len as int),
                acc == list_pdf_value_spec(self.list@.take(i as int), origin, direction,
                    weight as int),
                abs(acc as int) <= i * 0x8000_0000_0000_0000,
            decreases len - i,
        {
            let v = self.list[i].value(origin, direction);
            proof {
                crate::math::lemma_mul_abs_bound(v as int, weight as int,
                    0x8000_0000_0000_0000, 65536);
                crate::math::lemma_tdiv_quot_bound(v as int * weight as int, scale(),
                    0x8000_0000_0000_0000);
                crate::math::lemma_tdiv_bound(v as int * weight as int, scale());
                assert(self.list@.take(i + 1int).drop_last() =~= self.list@.take(i as int));
                assert(self.list@.take(i + 1int).last() == self.list@[i as int]);
                assert((i + 1) * 0x8000_0000_0000_0000 == i * 0x8000_0000_0000_0000
                    + 0x8000_0000_0000_0000) by (nonlinear_arith);
            }
            let term = tdiv_i128(wide_mul(v, weight), 65536);
            acc = acc + term;
            i = i + 1;
        }
        proof {
            assert(self.list@.take(len as int) =~= self.list@);
            assert(len as int * 0x8000_0000_0000_0000
                <= 65536 * 0x8000_0000_0000_0000) by (nonlinear_arith)
                requires len as int <= 65536;
        }
        sat_exec(acc)
    }

    /// Samples a direction by picking a member uniformly at random and
    /// sampling from it: the result is some member's own sample for the
    /// unchanged origin.  The list must not be empty.
    pub fn generate(&self, origin: V3, rng: &mut RngHandle) -> (r: V3)
        requires
            self.wf(),
            all_rotation_free(self.list@),
            origin.in_range(),
            self.list@.len() > 0,
        ensures
            bounded(r, 24 * scale() + 2 * cmax()),
            exists|i: int| 0 <= i < self.list@.len()
                && #[trigger] entity_generated_spec(self.list@[i], origin, r),
    {
        let idx = rng.below(self.list.len() as u64) as usize;
        let r = self.list[idx].generate(origin, rng);
        proof {
            assert(entity_generated_spec(self.list@[idx as int], origin, r));
        }
        r
    }
}

/// Which source of a fifty-fifty mixture a coin draw selects: the first
/// source exactly when the draw falls in the lower half of the coin space.
pub open spec fn mixture_picks_first(coin: int) -> bool {
    coin < 32768
}

/// The mixture's density: the unweighted average of the two sources'
/// densities.
pub open spec fn mixture_value_spec(v0: int, v1: int) -> int {
    tdiv(v0 + v1, 2)
}

/// The density of the fifty-fifty mixture of a light list and a scatter
/// density: the unweighted average of the two.
pub fn mixture_value(lights: &HitableList, p1: &Pdf, origin: V3, direction: V3) -> (r: i64)
    requires
        lights.wf(),
        all_rotation_free(lights.list@),
        p1.wf(),
        origin.in_range(),
        direction.in_range(),
        lights.list@.len() > 0,
        lights.list@.len() < 65536,
    ensures
        r == mixture_value_spec(
            sat_i64(list_pdf_value_spec(lights.list@, origin, direction, tdiv(scale(),
                lights.list@.len() as int))),
            pdf_value_spec(*p1, origin, direction),
        ),
{
    let v0 = lights.value(origin, direction);
    let v1 = p1.value(origin, direction);
    proof {
        crate::math::lemma_tdiv_bound(v0 as int + v1 as int, 2);
    }
    tdiv_i128(v0 as i128 + v1 as i128, 2) as i64
}

/// Draws a direction from the fifty-fifty mixture: a coin picks the light
/// list or the scatter density with equal probability, and the chosen
/// source is sampled for the unchanged origin.  The result is the chosen
/// source's own sample: some light member's sample when the coin picks the
/// first source, the scatter density's sample otherwise.
pub fn mixture_generate(lights: &HitableList, p1: &Pdf, origin: V3, rng: &mut RngHandle) -> (r:
    V3)
    requires
        lights.wf(),
        all_rotation_free(lights.list@),
        p1.wf(),
        origin.in_range(),
        lights.list@.len() > 0,
    ensures
        bounded(r, 24 * scale() + 2 * cmax()),
        exists|coin: int|
            0 <= coin < 65536 && if #[trigger] mixture_picks_first(coin) {
                exists|i: int| 0 <= i < lights.list@.len()
                    && #[trigger] entity_generated_spec(lights.list@[i], origin, r)
            } else {
                pdf_generated_spec(*p1, r)
            },
{
    let coin = rng.below(65536);
    if coin < 32768 {
        let r = lights.generate(origin, rng);
        proof {
            assert(mixture_picks_first(coin as int));
        }
        r
    } else {
        let r = p1.generate(origin, rng);
        proof {
            assert(!mixture_picks_first(coin as int));
        }
        r
    }
}


/// The fifty-fifty mixture is balanced: pairing every coin with its mirror
/// image matches the draws that pick the first source one-to-one with the
/// draws that pick the second, so each source is selected with equal
/// probability.
pub proof fn lemma_mixture_balanced()
    ensures
        forall|c: int|
            0 <= c < 65536 ==> (#[trigger] mixture_picks_first(c) <==> !mixture_picks_first(
                65535 - c)),
{
}

} // verus!


