//! Primitive shapes: spheres and axis-aligned rectangles.

use vstd::prelude::*;

use crate::aabb::{box_wf, union_box, Aabb};
use crate::hit::{hit_spec, Hit};
use crate::interval::Interval;
use crate::math::{
    abs, div_fx, isqrt, lemma_mul_abs_bound, lemma_sqrt_floor_bounds, lemma_tdiv_bound,
    lemma_tdiv_quot_bound, mul_fx, scale, sqrt_floor, tdiv, tdiv_i128, wide_mul, SCALE,
};
use crate::ray::Ray;
use crate::vec3::{
    add_spec, bounded, cmax, cross_spec, div_by_spec, dot_fx, dot_raw, lemma_cross_bound,
    scale_spec, sub_spec, V3,
};

verus! {

/// Fixed-point pad applied to the flat axis of an axis-aligned rectangle's
/// bounding box, so the box has volume a ray can strike.
pub const RECT_EPS: i64 = 64;

/// A fixed-point dot product of vectors with known coordinate bounds is
/// itself bounded.
pub proof fn lemma_dot_fx_bound(a: V3, b: V3, m: int, n: int, q: int)
    requires
        bounded(a, m),
        bounded(b, n),
        0 <= m,
        0 <= n,
        0 <= q,
        3 * (m * n) <= q * 65536,
    ensures
        abs(a.x * b.x) + abs(a.y * b.y) + abs(a.z * b.z) <= 3 * (m * n),
        abs(dot_raw(a, b)) <= 3 * (m * n),
        abs(dot_fx(a, b)) <= q,
{
    lemma_mul_abs_bound(a.x as int, b.x as int, m, n);
    lemma_mul_abs_bound(a.y as int, b.y as int, m, n);
    lemma_mul_abs_bound(a.z as int, b.z as int, m, n);
    lemma_tdiv_quot_bound(dot_raw(a, b), scale(), q);
}

/// Sphere primitive.
#[derive(Clone, Copy, Debug, PartialEq, Eq, Structural)]
pub struct Sphere {
    /// Center of the sphere.
    pub center: V3,
    /// Radius of the sphere; a negative radius is an inward-facing shell.
    pub radius: i64,
    /// Material of the sphere.
    pub material: usize,
}

/// Primitive representing a sphere that moves during some time interval.
#[derive(Clone, Copy, Debug, PartialEq, Eq)]
pub struct MovingSphere {
    /// Centers between which the sphere moves: the starting and the ending
    /// point.
    pub centers: (V3, V3),
    /// Time interval during which the sphere moves from start to end.
    pub time_range: (i64, i64),
    /// Radius of the sphere.
    pub radius: i64,
    /// Material of the sphere.
    pub material: usize,
}

/// The hit record a sphere reports at parameter `t`: the hit point and the
/// outward normal scaled by the inverse radius, which flips it on an
/// inward-facing shell.  Out-of-range geometry is reported as a miss.
/// The surface coordinates are reported as zero: the spherical angles need
/// inverse trigonometry, which the fixed-point scheme does not provide, and
/// only constant textures, which ignore them, exist.
pub open spec fn sphere_hit_at(center: V3, radius: i64, material: usize, ray: Ray, t: int)
    -> Option<Hit> {
    let point = ray.at(t);
    let diff = sub_spec(point, center);
    if !bounded(diff, cmax()) {
        None
    } else {
        let outward = div_by_spec(diff, radius as int);
        if !bounded(outward, cmax()) {
            None
        } else {
            Some(hit_spec(ray, outward, t as i64, point, material, 0, 0))
        }
    }
}

/// Whether a root parameter is accepted by the ray's interval: the static
/// sphere accepts its endpoints, the moving sphere does not.
pub open spec fn root_in_interval(t: int, ray: Ray, open: bool) -> bool {
    if open {
        ray.setting.ray_time.min < t && t < ray.setting.ray_time.max
    } else {
        ray.setting.ray_time.min <= t && t <= ray.setting.ray_time.max
    }
}

/// The analytic quadratic sphere intersection: the nearer root of
/// `|o + t d - c|^2 == r^2` accepted by the ray's parameter interval, if
/// any; `open` selects strict interval endpoints.
pub open spec fn sphere_hit_core_spec(
    center: V3,
    radius: i64,
    material: usize,
    ray: Ray,
    open: bool,
) -> Option<Hit> {
    let oc = sub_spec(ray.origin, center);
    let a = dot_fx(ray.end, ray.end);
    let b = dot_fx(oc, ray.end);
    let c = dot_fx(oc, oc) - tdiv(radius * radius, scale());
    let disc = b * b - a * c;
    if disc <= 0 || a <= 0 {
        None
    } else {
        let s = sqrt_floor(disc);
        let t1 = tdiv((-b - s) * scale(), a);
        let t2 = tdiv((-b + s) * scale(), a);
        if root_in_interval(t1, ray, open) {
            sphere_hit_at(center, radius, material, ray, t1)
        } else if root_in_interval(t2, ray, open) {
            sphere_hit_at(center, radius, material, ray, t2)
        } else {
            None
        }
    }
}

/// The static sphere's intersection: roots accepted on the closed interval.
pub open spec fn sphere_hit_spec(center: V3, radius: i64, material: usize, ray: Ray)
    -> Option<Hit> {
    sphere_hit_core_spec(center, radius, material, ray, false)
}

/// Builds the hit record once a sphere intersection parameter is found.
fn sphere_hit_build(center: V3, radius: i64, material: usize, ray: &Ray, t: i64) -> (r: Option<
    Hit,
>)
    requires
        ray.wf(),
        center.in_range(),
        abs(radius as int) <= cmax(),
        radius != 0,
        abs(t as int) <= 0x1_0000_0000,
    ensures
        r == sphere_hit_at(center, radius, material, *ray, t as int),
{
    let point = ray.point_at_param(t);
    proof {
        assert(point.x - center.x < 0x8000_0000_0000_0000 && -0x8000_0000_0000_0000
            <= point.x - center.x);
        assert(point.y - center.y < 0x8000_0000_0000_0000 && -0x8000_0000_0000_0000
            <= point.y - center.y);
        assert(point.z - center.z < 0x8000_0000_0000_0000 && -0x8000_0000_0000_0000
            <= point.z - center.z);
    }
    let diff = point.sub(center);
    if !diff.is_in_range() {
        return None;
    }
    let outward = diff.div_by(radius);
    if !outward.is_in_range() {
        return None;
    }
    Some(Hit::new(ray, outward, t, point, material, 0, 0))
}

/// Analytic quadratic intersection of a ray with a sphere at a fixed
/// center, shared by the static and the moving sphere; `open` selects
/// strict interval endpoints for root acceptance.
fn sphere_hit(center: V3, radius: i64, material: usize, ray: &Ray, open: bool) -> (r: Option<
    Hit,
>)
    requires
        ray.wf(),
        center.in_range(),
        abs(radius as int) <= cmax(),
        radius != 0,
    ensures
        r == sphere_hit_core_spec(center, radius, material, *ray, open),
{
    let oc = ray.origin.sub(center);
    proof {
        lemma_dot_fx_bound(ray.end, ray.end, cmax(), cmax(), 0xc0_0000_0000_0000);
        lemma_dot_fx_bound(oc, ray.end, 2 * cmax(), cmax(), 0x180_0000_0000_0000);
        lemma_dot_fx_bound(oc, oc, 2 * cmax(), 2 * cmax(), 0x300_0000_0000_0000);
        lemma_mul_abs_bound(radius as int, radius as int, cmax(), cmax());
        lemma_tdiv_quot_bound(radius as int * radius as int, scale(), 0x4000_0000_0000);
    }
    let a = ray.end.dot(ray.end);
    let b = oc.dot_wide(ray.end);
    let c2 = oc.dot_wide(oc);
    let rad2 = mul_fx(radius, radius);
    let c = c2 - rad2;
    proof {
        lemma_mul_abs_bound(b as int, b as int, 0x180_0000_0000_0000, 0x180_0000_0000_0000);
        lemma_mul_abs_bound(a as int, c as int, 0xc0_0000_0000_0000, 0x304_0000_0000_0000);
    }
    let disc = wide_mul(b, b) - wide_mul(a, c);
    if disc <= 0 || a <= 0 {
        return None;
    }
    let s128 = isqrt(disc as u128);
    proof {
        lemma_sqrt_floor_bounds(disc as int);
        if sqrt_floor(disc as int) > 0x400_0000_0000_0000 {
            assert(0x400_0000_0000_0000 * 0x400_0000_0000_0000
                <= (sqrt_floor(disc as int) - 1) * (sqrt_floor(disc as int) - 1))
                by (nonlinear_arith)
                requires sqrt_floor(disc as int) > 0x400_0000_0000_0000;
            assert((sqrt_floor(disc as int) - 1) * (sqrt_floor(disc as int) - 1)
                < sqrt_floor(disc as int) * sqrt_floor(disc as int)) by (nonlinear_arith)
                requires sqrt_floor(disc as int) >= 1;
        }
    }
    let s = s128 as i64;
    let q1 = -b - s;
    let q2 = -b + s;
    proof {
        lemma_tdiv_bound(q1 as int * 65536, a as int);
        lemma_tdiv_bound(q2 as int * 65536, a as int);
    }
    let t1 = tdiv_i128(wide_mul(q1, SCALE), a as i128);
    let t2 = tdiv_i128(wide_mul(q2, SCALE), a as i128);
    let lo = ray.setting.ray_time.min;
    let hi = ray.setting.ray_time.max;
    let ok1 = if open {
        (lo as i128) < t1 && t1 < hi as i128
    } else {
        lo as i128 <= t1 && t1 <= hi as i128
    };
    let ok2 = if open {
        (lo as i128) < t2 && t2 < hi as i128
    } else {
        lo as i128 <= t2 && t2 <= hi as i128
    };
    if ok1 {
        sphere_hit_build(center, radius, material, ray, t1 as i64)
    } else if ok2 {
        sphere_hit_build(center, radius, material, ray, t2 as i64)
    } else {
        None
    }
}

impl Sphere {
    /// The fields are representable and the radius is not zero.
    pub open spec fn wf(self) -> bool {
        self.center.in_range() && abs(self.radius as int) <= cmax() && self.radius != 0
    }

    /// Creates new Sphere primitive.
    pub fn new(center: V3, radius: i64, material: usize) -> (r: Sphere)
        ensures
            r == (Sphere { center, radius, material }),
    {
        Sphere { center, radius, material }
    }

    /// Analytic quadratic intersection of the ray with this sphere.
    pub fn hit(&self, ray: &Ray) -> (r: Option<Hit>)
        requires
            ray.wf(),
            self.wf(),
        ensures
            r == sphere_hit_spec(self.center, self.radius, self.material, *ray),
    {
        sphere_hit(self.center, self.radius, self.material, ray, false)
    }

    /// The box spanning one radius out from the center on every axis.
    pub open spec fn bounding_box_spec(self) -> Aabb {
        Aabb {
            x: Interval {
                min: (self.center.x - abs(self.radius as int)) as i64,
                max: (self.center.x + abs(self.radius as int)) as i64,
            },
            y: Interval {
                min: (self.center.y - abs(self.radius as int)) as i64,
                max: (self.center.y + abs(self.radius as int)) as i64,
            },
            z: Interval {
                min: (self.center.z - abs(self.radius as int)) as i64,
                max: (self.center.z + abs(self.radius as int)) as i64,
            },
        }
    }

    /// Returns bounding box of the sphere.
    pub fn bounding_box(&self) -> (r: Aabb)
        requires
            self.wf(),
        ensures
            r == self.bounding_box_spec(),
            box_wf(r),
    {
        let rad = if self.radius >= 0 { self.radius } else { -self.radius };
        Aabb {
            x: Interval { min: self.center.x - rad, max: self.center.x + rad },
            y: Interval { min: self.center.y - rad, max: self.center.y + rad },
            z: Interval { min: self.center.z - rad, max: self.center.z + rad },
        }
    }
}

impl MovingSphere {
    /// The fields are representable, the radius is not zero, and the time
    /// range is a real interval.
    pub open spec fn wf(self) -> bool {
        &&& self.centers.0.in_range() && self.centers.1.in_range()
        &&& abs(self.radius as int) <= cmax() && self.radius != 0
        &&& abs(self.time_range.0 as int) <= 0x1_0000_0000
        &&& abs(self.time_range.1 as int) <= 0x1_0000_0000
        &&& self.time_range.0 < self.time_range.1
    }

    /// Creates new MovingSphere primitive.
    pub fn new(centers: (V3, V3), time_range: (i64, i64), radius: i64, material: usize) -> (r:
        MovingSphere)
        ensures
            r == (MovingSphere { centers, time_range, radius, material }),
    {
        MovingSphere { centers, time_range, radius, material }
    }

    /// Where the center is at `time`: linear interpolation between the two
    /// configured centers across the configured time range.  A center that
    /// leaves the coordinate range is reported as absent.
    pub open spec fn center_spec(self, time: int) -> Option<V3> {
        let frac = tdiv((time - self.time_range.0) * scale(),
            self.time_range.1 - self.time_range.0);
        if abs(frac) > 0x1_0000_0000 {
            None
        } else {
            let delta = sub_spec(self.centers.1, self.centers.0);
            let c = V3 {
                x: (self.centers.0.x + tdiv(delta.x * frac, scale())) as i64,
                y: (self.centers.0.y + tdiv(delta.y * frac, scale())) as i64,
                z: (self.centers.0.z + tdiv(delta.z * frac, scale())) as i64,
            };
            if bounded(c, cmax()) {
                Some(c)
            } else {
                None
            }
        }
    }

    /// Where the sphere's center is at `time`.
    fn center(&self, time: i64) -> (r: Option<V3>)
        requires
            self.wf(),
            abs(time as int) <= 0x1_0000_0000,
        ensures
            r == self.center_spec(time as int),
    {
        proof {
            lemma_mul_abs_bound((time - self.time_range.0) as int, scale(), 0x2_0000_0000,
                scale());
            lemma_tdiv_bound((time - self.time_range.0) as int * scale(),
                self.time_range.1 - self.time_range.0);
        }
        let num = time - self.time_range.0;
        let den = self.time_range.1 - self.time_range.0;
        let frac128 = tdiv_i128(wide_mul(num, SCALE), den as i128);
        if frac128 > 0x1_0000_0000 || frac128 < -0x1_0000_0000 {
            return None;
        }
        let frac = frac128 as i64;
        proof {
            assert(self.centers.1.x - self.centers.0.x < 0x8000_0000_0000_0000
                && -0x8000_0000_0000_0000 <= self.centers.1.x - self.centers.0.x);
        }
        let delta = self.centers.1.sub(self.centers.0);
        proof {
            lemma_mul_abs_bound(delta.x as int, frac as int, 2 * cmax(), 0x1_0000_0000);
            lemma_mul_abs_bound(delta.y as int, frac as int, 2 * cmax(), 0x1_0000_0000);
            lemma_mul_abs_bound(delta.z as int, frac as int, 2 * cmax(), 0x1_0000_0000);
            lemma_tdiv_quot_bound(delta.x * frac, scale(), 0x8000_0000_0000);
            lemma_tdiv_quot_bound(delta.y * frac, scale(), 0x8000_0000_0000);
            lemma_tdiv_quot_bound(delta.z * frac, scale(), 0x8000_0000_0000);
        }
        let mx = tdiv_i128(wide_mul(delta.x, frac), 65536);
        let my = tdiv_i128(wide_mul(delta.y, frac), 65536);
        let mz = tdiv_i128(wide_mul(delta.z, frac), 65536);
        let c = V3 {
            x: self.centers.0.x + mx as i64,
            y: self.centers.0.y + my as i64,
            z: self.centers.0.z + mz as i64,
        };
        if c.is_in_range() {
            Some(c)
        } else {
            None
        }
    }

    /// The moving sphere's intersection: the sphere quadratic around the
    /// center interpolated at the ray's time, with roots accepted on the
    /// open parameter interval.
    pub open spec fn hit_sphere_spec(self, ray: Ray) -> Option<Hit> {
        match self.center_spec(ray.time as int) {
            Some(c) => sphere_hit_core_spec(c, self.radius, self.material, ray, true),
            None => None,
        }
    }

    /// Intersects the ray with the sphere where it stands at the ray's time.
    pub fn hit(&self, ray: &Ray) -> (r: Option<Hit>)
        requires
            ray.wf(),
            self.wf(),
        ensures
            r == self.hit_sphere_spec(*ray),
    {
        match self.center(ray.time) {
            Some(c) => sphere_hit(c, self.radius, self.material, ray, true),
            None => None,
        }
    }

    /// The union of the boxes around the sphere at the start and the end of
    /// its motion; empty when either center is unrepresentable.
    pub open spec fn bounding_box_spec(self) -> Aabb {
        let r = abs(self.radius as int);
        let b0 = Aabb {
            x: Interval {
                min: (self.centers.0.x - r) as i64,
                max: (self.centers.0.x + r) as i64,
            },
            y: Interval {
                min: (self.centers.0.y - r) as i64,
                max: (self.centers.0.y + r) as i64,
            },
            z: Interval {
                min: (self.centers.0.z - r) as i64,
                max: (self.centers.0.z + r) as i64,
            },
        };
        let b1 = Aabb {
            x: Interval {
                min: (self.centers.1.x - r) as i64,
                max: (self.centers.1.x + r) as i64,
            },
            y: Interval {
                min: (self.centers.1.y - r) as i64,
                max: (self.centers.1.y + r) as i64,
            },
            z: Interval {
                min: (self.centers.1.z - r) as i64,
                max: (self.centers.1.z + r) as i64,
            },
        };
        union_box(b0, b1)
    }

    /// Returns the box containing the sphere over its whole motion.
    pub fn bounding_box(&self) -> (r: Aabb)
        requires
            self.wf(),
        ensures
            r == self.bounding_box_spec(),
            box_wf(r),
    {
        let rad = if self.radius >= 0 { self.radius } else { -self.radius };
        let b0 = Aabb {
            x: Interval { min: self.centers.0.x - rad, max: self.centers.0.x + rad },
            y: Interval { min: self.centers.0.y - rad, max: self.centers.0.y + rad },
            z: Interval { min: self.centers.0.z - rad, max: self.centers.0.z + rad },
        };
        let b1 = Aabb {
            x: Interval { min: self.centers.1.x - rad, max: self.centers.1.x + rad },
            y: Interval { min: self.centers.1.y - rad, max: self.centers.1.y + rad },
            z: Interval { min: self.centers.1.z - rad, max: self.centers.1.z + rad },
        };
        b0.surrounding_box(b1)
    }
}


/// Rectangle aligned to the XY plane.
#[derive(Clone, Copy, Debug, PartialEq, Eq, Structural)]
pub struct XYrect {
    /// Starting boundary on X axis.
    pub x0: i64,
    /// Ending boundary on X axis.
    pub x1: i64,
    /// Starting boundary on Y axis.
    pub y0: i64,
    /// Ending boundary on Y axis.
    pub y1: i64,
    /// Position on Z axis.
    pub k: i64,
    /// Material of the rectangle.
    pub material: usize,
}

/// Rectangle aligned to the XZ plane.
#[derive(Clone, Copy, Debug, PartialEq, Eq, Structural)]
pub struct XZrect {
    /// Starting boundary on X axis.
    pub x0: i64,
    /// Ending boundary on X axis.
    pub x1: i64,
    /// Starting boundary on Z axis.
    pub z0: i64,
    /// Ending boundary on Z axis.
    pub z1: i64,
    /// Position on Y axis.
    pub k: i64,
    /// Material of the rectangle.
    pub material: usize,
}

/// Rectangle aligned to the YZ plane.
#[derive(Clone, Copy, Debug, PartialEq, Eq, Structural)]
pub struct YZrect {
    /// Starting boundary on Y axis.
    pub y0: i64,
    /// Ending boundary on Y axis.
    pub y1: i64,
    /// Starting boundary on Z axis.
    pub z0: i64,
    /// Ending boundary on Z axis.
    pub z1: i64,
    /// Position on X axis.
    pub k: i64,
    /// Material of the rectangle.
    pub material: usize,
}

/// The hit of a ray against an axis-aligned rectangle, in coordinates where
/// `a` and `b` span the face at position `k` on the fixed axis: the plane
/// equation is solved for `t` on the fixed axis, and the hit counts when it
/// falls within the ray's interval and the face's bounds.  The result holds
/// the in-plane coordinates and surface coordinates of the hit.
pub open spec fn rect_plane_hit(
    ray: Ray,
    o_k: int,
    d_k: int,
    k: int,
    a0: int,
    a1: int,
    b0: int,
    b1: int,
    p_a: spec_fn(V3) -> int,
    p_b: spec_fn(V3) -> int,
) -> Option<(V3, int, int, int)> {
    if d_k == 0 {
        None
    } else {
        let t = tdiv((k - o_k) * scale(), d_k);
        if t < ray.setting.ray_time.min || t > ray.setting.ray_time.max {
            None
        } else {
            let p = ray.at(t);
            if p_a(p) < a0 || p_a(p) > a1 || p_b(p) < b0 || p_b(p) > b1 {
                None
            } else {
                let u = tdiv((p_a(p) - a0) * scale(), a1 - a0);
                let v = tdiv((p_b(p) - b0) * scale(), b1 - b0);
                Some((p, t, u, v))
            }
        }
    }
}

impl XYrect {
    /// The bounds are representable and span a real area.
    pub open spec fn wf(self) -> bool {
        &&& abs(self.x0 as int) <= cmax() && abs(self.x1 as int) <= cmax()
        &&& abs(self.y0 as int) <= cmax() && abs(self.y1 as int) <= cmax()
        &&& abs(self.k as int) <= cmax()
        &&& self.x0 < self.x1 && self.y0 < self.y1
    }

    /// Creates new XYrect primitive.
    pub fn new(x0: i64, x1: i64, y0: i64, y1: i64, k: i64, material: usize) -> (r: XYrect)
        ensures
            r == (XYrect { x0, x1, y0, y1, k, material }),
    {
        XYrect { x0, x1, y0, y1, k, material }
    }

    /// The rectangle's hit record: plane intersection on the z axis, bounds
    /// test on x and y, outward normal along +z.
    pub open spec fn hit_rect_spec(self, ray: Ray) -> Option<Hit> {
        match rect_plane_hit(ray, ray.origin.z as int, ray.end.z as int, self.k as int,
            self.x0 as int, self.x1 as int, self.y0 as int, self.y1 as int,
            |p: V3| p.x as int, |p: V3| p.y as int) {
            Some(puv) => Some(hit_spec(ray, V3 { x: 0i64, y: 0i64, z: 65536i64 },
                puv.1 as i64, puv.0, self.material, puv.2 as i64, puv.3 as i64)),
            None => None,
        }
    }

    /// Intersects the ray with the rectangle.
    pub fn hit(&self, ray: &Ray) -> (r: Option<Hit>)
        requires
            ray.wf(),
            self.wf(),
        ensures
            r == self.hit_rect_spec(*ray),
    {
        if ray.end.z == 0 {
            return None;
        }
        proof {
            lemma_mul_abs_bound((self.k - ray.origin.z) as int, scale(), 2 * cmax(), scale());
            lemma_tdiv_bound((self.k - ray.origin.z) as int * scale(), ray.end.z as int);
        }
        let tw = tdiv_i128(wide_mul(self.k - ray.origin.z, SCALE), ray.end.z as i128);
        if tw < ray.setting.ray_time.min as i128 || tw > ray.setting.ray_time.max as i128 {
            return None;
        }
        let t = tw as i64;
        let p = ray.point_at_param(t);
        if p.x < self.x0 || p.x > self.x1 || p.y < self.y0 || p.y > self.y1 {
            return None;
        }
        proof {
            lemma_mul_abs_bound((p.x - self.x0) as int, scale(), 2 * cmax(), scale());
            lemma_tdiv_bound((p.x - self.x0) as int * scale(), self.x1 - self.x0);
            lemma_mul_abs_bound((p.y - self.y0) as int, scale(), 2 * cmax(), scale());
            lemma_tdiv_bound((p.y - self.y0) as int * scale(), self.y1 - self.y0);
        }
        let u = div_fx(p.x - self.x0, self.x1 - self.x0);
        let v = div_fx(p.y - self.y0, self.y1 - self.y0);
        Some(Hit::new(ray, V3::new(0, 0, SCALE), t, p, self.material, u, v))
    }

    /// The face's box: its bounds in the plane, and an epsilon-padded slab
    /// on the fixed axis.
    pub open spec fn bounding_box_spec(self) -> Aabb {
        Aabb {
            x: Interval { min: self.x0, max: self.x1 },
            y: Interval { min: self.y0, max: self.y1 },
            z: Interval { min: (self.k - 64) as i64, max: (self.k + 64) as i64 },
        }
    }

    /// Returns bounding box of the rectangle.
    pub fn bounding_box(&self) -> (r: Aabb)
        requires
            self.wf(),
        ensures
            r == self.bounding_box_spec(),
            box_wf(r),
    {
        Aabb {
            x: Interval { min: self.x0, max: self.x1 },
            y: Interval { min: self.y0, max: self.y1 },
            z: Interval { min: self.k - RECT_EPS, max: self.k + RECT_EPS },
        }
    }
}

impl XZrect {
    /// The bounds are representable and span a real area.
    pub open spec fn wf(self) -> bool {
        &&& abs(self.x0 as int) <= cmax() && abs(self.x1 as int) <= cmax()
        &&& abs(self.z0 as int) <= cmax() && abs(self.z1 as int) <= cmax()
        &&& abs(self.k as int) <= cmax()
        &&& self.x0 < self.x1 && self.z0 < self.z1
    }

    /// Creates new XZrect primitive.
    pub fn new(x0: i64, x1: i64, z0: i64, z1: i64, k: i64, material: usize) -> (r: XZrect)
        ensures
            r == (XZrect { x0, x1, z0, z1, k, material }),
    {
        XZrect { x0, x1, z0, z1, k, material }
    }

    /// The rectangle's hit record: plane intersection on the y axis, bounds
    /// test on x and z, outward normal along +y.
    pub open spec fn hit_rect_spec(self, ray: Ray) -> Option<Hit> {
        match rect_plane_hit(ray, ray.origin.y as int, ray.end.y as int, self.k as int,
            self.x0 as int, self.x1 as int, self.z0 as int, self.z1 as int,
            |p: V3| p.x as int, |p: V3| p.z as int) {
            Some(puv) => Some(hit_spec(ray, V3 { x: 0i64, y: 65536i64, z: 0i64 },
                puv.1 as i64, puv.0, self.material, puv.2 as i64, puv.3 as i64)),
            None => None,
        }
    }

    /// Intersects the ray with the rectangle.
    pub fn hit(&self, ray: &Ray) -> (r: Option<Hit>)
        requires
            ray.wf(),
            self.wf(),
        ensures
            r == self.hit_rect_spec(*ray),
    {
        if ray.end.y == 0 {
            return None;
        }
        proof {
            lemma_mul_abs_bound((self.k - ray.origin.y) as int, scale(), 2 * cmax(), scale());
            lemma_tdiv_bound((self.k - ray.origin.y) as int * scale(), ray.end.y as int);
        }
        let tw = tdiv_i128(wide_mul(self.k - ray.origin.y, SCALE), ray.end.y as i128);
        if tw < ray.setting.ray_time.min as i128 || tw > ray.setting.ray_time.max as i128 {
            return None;
        }
        let t = tw as i64;
        let p = ray.point_at_param(t);
        if p.x < self.x0 || p.x > self.x1 || p.z < self.z0 || p.z > self.z1 {
            return None;
        }
        proof {
            lemma_mul_abs_bound((p.x - self.x0) as int, scale(), 2 * cmax(), scale());
            lemma_tdiv_bound((p.x - self.x0) as int * scale(), self.x1 - self.x0);
            lemma_mul_abs_bound((p.z - self.z0) as int, scale(), 2 * cmax(), scale());
            lemma_tdiv_bound((p.z - self.z0) as int * scale(), self.z1 - self.z0);
        }
        let u = div_fx(p.x - self.x0, self.x1 - self.x0);
        let v = div_fx(p.z - self.z0, self.z1 - self.z0);
        Some(Hit::new(ray, V3::new(0, SCALE, 0), t, p, self.material, u, v))
    }

    /// The face's box: its bounds in the plane, and an epsilon-padded slab
    /// on the fixed axis.
    pub open spec fn bounding_box_spec(self) -> Aabb {
        Aabb {
            x: Interval { min: self.x0, max: self.x1 },
            y: Interval { min: (self.k - 64) as i64, max: (self.k + 64) as i64 },
            z: Interval { min: self.z0, max: self.z1 },
        }
    }

    /// Returns bounding box of the rectangle.
    pub fn bounding_box(&self) -> (r: Aabb)
        requires
            self.wf(),
        ensures
            r == self.bounding_box_spec(),
            box_wf(r),
    {
        Aabb {
            x: Interval { min: self.x0, max: self.x1 },
            y: Interval { min: self.k - RECT_EPS, max: self.k + RECT_EPS },
            z: Interval { min: self.z0, max: self.z1 },
        }
    }
}

impl YZrect {
    /// The bounds are representable and span a real area.
    pub open spec fn wf(self) -> bool {
        &&& abs(self.y0 as int) <= cmax() && abs(self.y1 as int) <= cmax()
        &&& abs(self.z0 as int) <= cmax() && abs(self.z1 as int) <= cmax()
        &&& abs(self.k as int) <= cmax()
        &&& self.y0 < self.y1 && self.z0 < self.z1
    }

    /// Creates new YZrect primitive.
    pub fn new(y0: i64, y1: i64, z0: i64, z1: i64, k: i64, material: usize) -> (r: YZrect)
        ensures
            r == (YZrect { y0, y1, z0, z1, k, material }),
    {
        YZrect { y0, y1, z0, z1, k, material }
    }

    /// The rectangle's hit record: plane intersection on the x axis, bounds
    /// test on y and z, outward normal along +x.
    pub open spec fn hit_rect_spec(self, ray: Ray) -> Option<Hit> {
        match rect_plane_hit(ray, ray.origin.x as int, ray.end.x as int, self.k as int,
            self.y0 as int, self.y1 as int, self.z0 as int, self.z1 as int,
            |p: V3| p.y as int, |p: V3| p.z as int) {
            Some(puv) => Some(hit_spec(ray, V3 { x: 65536i64, y: 0i64, z: 0i64 },
                puv.1 as i64, puv.0, self.material, puv.2 as i64, puv.3 as i64)),
            None => None,
        }
    }

    /// Intersects the ray with the rectangle.
    pub fn hit(&self, ray: &Ray) -> (r: Option<Hit>)
        requires
            ray.wf(),
            self.wf(),
        ensures
            r == self.hit_rect_spec(*ray),
    {
        if ray.end.x == 0 {
            return None;
        }
        proof {
            lemma_mul_abs_bound((self.k - ray.origin.x) as int, scale(), 2 * cmax(), scale());
            lemma_tdiv_bound((self.k - ray.origin.x) as int * scale(), ray.end.x as int);
        }
        let tw = tdiv_i128(wide_mul(self.k - ray.origin.x, SCALE), ray.end.x as i128);
        if tw < ray.setting.ray_time.min as i128 || tw > ray.setting.ray_time.max as i128 {
            return None;
        }
        let t = tw as i64;
        let p = ray.point_at_param(t);
        if p.y < self.y0 || p.y > self.y1 || p.z < self.z0 || p.z > self.z1 {
            return None;
        }
        proof {
            lemma_mul_abs_bound((p.y - self.y0) as int, scale(), 2 * cmax(), scale());
            lemma_tdiv_bound((p.y - self.y0) as int * scale(), self.y1 - self.y0);
            lemma_mul_abs_bound((p.z - self.z0) as int, scale(), 2 * cmax(), scale());
            lemma_tdiv_bound((p.z - self.z0) as int * scale(), self.z1 - self.z0);
        }
        let u = div_fx(p.y - self.y0, self.y1 - self.y0);
        let v = div_fx(p.z - self.z0, self.z1 - self.z0);
        Some(Hit::new(ray, V3::new(SCALE, 0, 0), t, p, self.material, u, v))
    }

    /// The face's box: its bounds in the plane, and an epsilon-padded slab
    /// on the fixed axis.
    pub open spec fn bounding_box_spec(self) -> Aabb {
        Aabb {
            x: Interval { min: (self.k - 64) as i64, max: (self.k + 64) as i64 },
            y: Interval { min: self.y0, max: self.y1 },
            z: Interval { min: self.z0, max: self.z1 },
        }
    }

    /// Returns bounding box of the rectangle.
    pub fn bounding_box(&self) -> (r: Aabb)
        requires
            self.wf(),
        ensures
            r == self.bounding_box_spec(),
            box_wf(r),
    {
        Aabb {
            x: Interval { min: self.k - RECT_EPS, max: self.k + RECT_EPS },
            y: Interval { min: self.y0, max: self.y1 },
            z: Interval { min: self.z0, max: self.z1 },
        }
    }
}


/// Fixed-point dot product carried in a wide machine word, for operands
/// whose quotient may exceed the narrow scalar range.
fn dot_fx_i128(a: V3, b: V3) -> (r: i128)
    requires
        abs(a.x * b.x) + abs(a.y * b.y) + abs(a.z * b.z)
            <= 0x1000_0000_0000_0000_0000_0000_0000_0000,
    ensures
        r == dot_fx(a, b),
{
    proof {
        lemma_tdiv_bound(dot_raw(a, b), scale());
    }
    let p = wide_mul(a.x, b.x) + wide_mul(a.y, b.y) + wide_mul(a.z, b.z);
    tdiv_i128(p, 65536)
}

/// Triangle primitive.
#[derive(Clone, Copy, Debug, PartialEq, Eq)]
pub struct Triangle {
    /// Vertices of the triangle, counterclockwise.
    pub verticles: (V3, V3, V3),
    /// Normals of the corresponding vertices, if the model supplies them.
    pub normals: Option<(V3, V3, V3)>,
    /// Material of the triangle.
    pub material: usize,
}

impl Triangle {
    /// The vertices are representable and any supplied normals have
    /// near-unit fixed-point coordinates.
    pub open spec fn wf(self) -> bool {
        &&& self.verticles.0.in_range() && self.verticles.1.in_range()
            && self.verticles.2.in_range()
        &&& match self.normals {
            Some(ns) => bounded(ns.0, 2 * scale()) && bounded(ns.1, 2 * scale())
                && bounded(ns.2, 2 * scale()),
            None => true,
        }
    }

    /// Returns new Triangle.
    ///
    /// `verticles` - Vertices of created Triangle, counterclockwise.
    ///
    /// `normals` - Normals of corresponding vertices.
    ///
    /// `material` - Material of created Triangle.
    pub fn new(verticles: (V3, V3, V3), normals: Option<(V3, V3, V3)>, material: usize) -> (r:
        Triangle)
        ensures
            r == (Triangle { verticles, normals, material }),
    {
        Triangle { verticles, normals, material }
    }

    /// The parametric edge-vector intersection: near-parallel rays are
    /// rejected on a vanishing determinant, the barycentric coordinates must
    /// lie inside the triangle, and the normal is interpolated from the
    /// vertex normals when they exist, else taken flat off the face.
    pub open spec fn hit_tri_spec(self, ray: Ray) -> Option<Hit> {
        let v0 = self.verticles.0;
        let v0v1 = sub_spec(self.verticles.1, v0);
        let v0v2 = sub_spec(self.verticles.2, v0);
        let pvec = cross_spec(ray.end, v0v2);
        let det = dot_fx(v0v1, pvec);
        if det == 0 {
            None
        } else {
            let tvec = sub_spec(ray.origin, v0);
            let u = tdiv(dot_fx(tvec, pvec) * scale(), det);
            if u < 0 || u > 65536 {
                None
            } else {
                let qvec = cross_spec(tvec, v0v1);
                let v = tdiv(dot_fx(ray.end, qvec) * scale(), det);
                if v < 0 || u + v > 65536 {
                    None
                } else {
                    let t = tdiv(dot_fx(v0v2, qvec) * scale(), det);
                    if t < ray.setting.ray_time.min || t > ray.setting.ray_time.max {
                        None
                    } else {
                        match self.normals {
                            Some(ns) => {
                                let n = add_spec(add_spec(scale_spec(ns.0, 65536 - u - v),
                                    scale_spec(ns.1, u)), scale_spec(ns.2, v));
                                Some(hit_spec(ray, n, t as i64, ray.at(t), self.material,
                                    u as i64, v as i64))
                            },
                            None => {
                                let c = cross_spec(v0v2, v0v1);
                                if c.x == 0 && c.y == 0 && c.z == 0 {
                                    None
                                } else {
                                    Some(hit_spec(ray, c.norm_spec(), t as i64, ray.at(t),
                                        self.material, u as i64, v as i64))
                                }
                            },
                        }
                    }
                }
            }
        }
    }

    /// Intersects the ray with the triangle.
    pub fn hit(&self, ray: &Ray) -> (r: Option<Hit>)
        requires
            ray.wf(),
            self.wf(),
        ensures
            r == self.hit_tri_spec(*ray),
    {
        let v0 = self.verticles.0;
        let v0v1 = self.verticles.1.sub(v0);
        let v0v2 = self.verticles.2.sub(v0);
        proof {
            lemma_cross_bound(ray.end, v0v2, cmax(), 2 * cmax(), 0x4000_0000_0000);
        }
        let pvec = ray.end.cross(v0v2);
        proof {
            lemma_dot_fx_bound(v0v1, pvec, 2 * cmax(), 0x4000_0000_0000,
                0x6000_0000_0000_0000);
        }
        let det = dot_fx_i128(v0v1, pvec);
        if det == 0 {
            return None;
        }
        let tvec = ray.origin.sub(v0);
        proof {
            lemma_dot_fx_bound(tvec, pvec, 2 * cmax(), 0x4000_0000_0000,
                0x6000_0000_0000_0000);
        }
        let du = dot_fx_i128(tvec, pvec);
        proof {
            lemma_tdiv_bound(du * 65536, det as int);
        }
        let uw = tdiv_i128(du * 65536, det);
        if uw < 0 || uw > 65536 {
            return None;
        }
        let u = uw as i64;
        proof {
            lemma_cross_bound(tvec, v0v1, 2 * cmax(), 2 * cmax(), 0x8000_0000_0000);
        }
        let qvec = tvec.cross(v0v1);
        proof {
            lemma_dot_fx_bound(ray.end, qvec, cmax(), 0x8000_0000_0000,
                0x6000_0000_0000_0000);
            lemma_dot_fx_bound(v0v2, qvec, 2 * cmax(), 0x8000_0000_0000,
                0xc000_0000_0000_0000,
            );
        }
        let dv = dot_fx_i128(ray.end, qvec);
        proof {
            lemma_tdiv_bound(dv * 65536, det as int);
        }
        let vw = tdiv_i128(dv * 65536, det);
        if vw < 0 || uw + vw > 65536 {
            return None;
        }
        let v = vw as i64;
        let dt = dot_fx_i128(v0v2, qvec);
        proof {
            lemma_tdiv_bound(dt * 65536, det as int);
        }
        let tw = tdiv_i128(dt * 65536, det);
        if tw < ray.setting.ray_time.min as i128 || tw > ray.setting.ray_time.max as i128 {
            return None;
        }
        let t = tw as i64;
        let p = ray.point_at_param(t);
        match self.normals {
            Some(ns) => {
                proof {
                    lemma_scale_small(ns.0, (65536 - u - v) as int);
                    lemma_scale_small(ns.1, u as int);
                    lemma_scale_small(ns.2, v as int);
                }
                let n = ns.0.scale_by(SCALE - u - v).add(ns.1.scale_by(u)).add(
                    ns.2.scale_by(v));
                Some(Hit::new(ray, n, t, p, self.material, u, v))
            },
            None => {
                proof {
                    lemma_cross_bound_for_norm(v0v2, v0v1);
                }
                let c = v0v2.cross(v0v1);
                if c.x == 0 && c.y == 0 && c.z == 0 {
                    None
                } else {
                    Some(Hit::new(ray, c.norm(), t, p, self.material, u, v))
                }
            },
        }
    }

    /// The padded box around the three vertices.
    pub open spec fn bounding_box_spec(self) -> Aabb {
        let lo = V3 {
            x: min3(self.verticles.0.x, self.verticles.1.x, self.verticles.2.x),
            y: min3(self.verticles.0.y, self.verticles.1.y, self.verticles.2.y),
            z: min3(self.verticles.0.z, self.verticles.1.z, self.verticles.2.z),
        };
        let hi = V3 {
            x: max3(self.verticles.0.x, self.verticles.1.x, self.verticles.2.x),
            y: max3(self.verticles.0.y, self.verticles.1.y, self.verticles.2.y),
            z: max3(self.verticles.0.z, self.verticles.1.z, self.verticles.2.z),
        };
        (Aabb {
            x: Interval { min: lo.x, max: hi.x },
            y: Interval { min: lo.y, max: hi.y },
            z: Interval { min: lo.z, max: hi.z },
        }).pad_spec()
    }

    /// Returns bounding box of the triangle.
    pub fn bounding_box(&self) -> (r: Aabb)
        requires
            self.wf(),
        ensures
            r == self.bounding_box_spec(),
            box_wf(r),
    {
        let lo = self.verticles.0.min(self.verticles.1).min(self.verticles.2);
        let hi = self.verticles.0.max(self.verticles.1).max(self.verticles.2);
        (Aabb {
            x: Interval { min: lo.x, max: hi.x },
            y: Interval { min: lo.y, max: hi.y },
            z: Interval { min: lo.z, max: hi.z },
        }).pad()
    }
}

/// Scaling a near-unit vector by at most one keeps it near unit.
proof fn lemma_scale_small(v: V3, s: int)
    requires
        bounded(v, 2 * scale()),
        0 <= s <= scale(),
    ensures
        bounded(scale_spec(v, s), 2 * scale()),
{
    lemma_mul_abs_bound(v.x as int, s, 2 * scale(), scale());
    lemma_mul_abs_bound(v.y as int, s, 2 * scale(), scale());
    lemma_mul_abs_bound(v.z as int, s, 2 * scale(), scale());
    lemma_tdiv_quot_bound(v.x * s, scale(), 2 * scale());
    lemma_tdiv_quot_bound(v.y * s, scale(), 2 * scale());
    lemma_tdiv_quot_bound(v.z * s, scale(), 2 * scale());
}

/// The cross product of two edge vectors is small enough to normalize.
proof fn lemma_cross_bound_for_norm(a: V3, b: V3)
    requires
        bounded(a, 2 * cmax()),
        bounded(b, 2 * cmax()),
    ensures
        bounded(cross_spec(a, b), 0x8000_0000_0000),
{
    lemma_cross_bound(a, b, 2 * cmax(), 2 * cmax(), 0x8000_0000_0000);
}

/// The least of three scalars.
pub open spec fn min3(a: i64, b: i64, c: i64) -> i64 {
    if a <= b && a <= c {
        a
    } else if b <= c {
        b
    } else {
        c
    }
}

/// The greatest of three scalars.
pub open spec fn max3(a: i64, b: i64, c: i64) -> i64 {
    if a >= b && a >= c {
        a
    } else if b >= c {
        b
    } else {
        c
    }
}

/// The closer of two optional hits; on an exact parameter tie the second
/// operand wins.
pub open spec fn nearer_opt(first: Option<Hit>, second: Option<Hit>) -> Option<Hit> {
    match second {
        Option::None => first,
        Option::Some(s) => match first {
            Option::None => second,
            Option::Some(f) => if s.t <= f.t {
                second
            } else {
                first
            },
        },
    }
}

/// Picks the closer of two optional hits.
pub fn nearer(first: Option<Hit>, second: Option<Hit>) -> (r: Option<Hit>)
    ensures
        r == nearer_opt(first, second),
{
    match second {
        None => first,
        Some(s) => match first {
            None => Some(s),
            Some(f) => if s.t <= f.t {
                Some(s)
            } else {
                Some(f)
            },
        },
    }
}

/// Cuboid made from rectangles.
#[derive(Clone, Copy, Debug, PartialEq, Eq)]
pub struct HitBox {
    /// First vertex of the cuboid.
    pub box_min: V3,
    /// Opposite vertex of the cuboid.
    pub box_max: V3,
    /// The six faces, one pair per axis-aligned orientation.
    pub sides: (XYrect, XYrect, XZrect, XZrect, YZrect, YZrect),
}

impl HitBox {
    /// The corners are ordered, representable, and the faces are the ones
    /// built from the corners.
    pub open spec fn wf(self) -> bool {
        &&& self.box_min.in_range() && self.box_max.in_range()
        &&& self.box_min.x < self.box_max.x
        &&& self.box_min.y < self.box_max.y
        &&& self.box_min.z < self.box_max.z
        &&& self.sides == HitBox::sides_with_material(self.box_min, self.box_max,
            self.material_spec())
    }

    /// Returns new cuboid.
    ///
    /// `box_min` - First vertex of the cuboid.
    ///
    /// `box_max` - Opposite vertex of the cuboid.
    pub fn new(box_min: V3, box_max: V3, material: usize) -> (r: HitBox)
        requires
            box_min.in_range(),
            box_max.in_range(),
            box_min.x < box_max.x,
            box_min.y < box_max.y,
            box_min.z < box_max.z,
        ensures
            r.box_min == box_min,
            r.box_max == box_max,
            r.wf(),
            r.material_spec() == material,
    {
        let mut sides = HitBox::sides_spec_exec(box_min, box_max, material);
        HitBox { box_min, box_max, sides }
    }

    /// The material of every face.
    pub open spec fn material_spec(self) -> usize {
        self.sides.0.material
    }

    /// Builds the six faces.
    fn sides_spec_exec(box_min: V3, box_max: V3, material: usize) -> (r: (XYrect, XYrect,
        XZrect, XZrect, YZrect, YZrect))
        ensures
            r == HitBox::sides_with_material(box_min, box_max, material),
    {
        (
            XYrect { x0: box_min.x, x1: box_max.x, y0: box_min.y, y1: box_max.y,
                k: box_max.z, material },
            XYrect { x0: box_min.x, x1: box_max.x, y0: box_min.y, y1: box_max.y,
                k: box_min.z, material },
            XZrect { x0: box_min.x, x1: box_max.x, z0: box_min.z, z1: box_max.z,
                k: box_max.y, material },
            XZrect { x0: box_min.x, x1: box_max.x, z0: box_min.z, z1: box_max.z,
                k: box_min.y, material },
            YZrect { y0: box_min.y, y1: box_max.y, z0: box_min.z, z1: box_max.z,
                k: box_max.x, material },
            YZrect { y0: box_min.y, y1: box_max.y, z0: box_min.z, z1: box_max.z,
                k: box_min.x, material },
        )
    }

    /// The six faces carrying the cuboid's material.
    pub open spec fn sides_with_material(box_min: V3, box_max: V3, material: usize) -> (XYrect,
        XYrect, XZrect, XZrect, YZrect, YZrect) {
        (
            XYrect { x0: box_min.x, x1: box_max.x, y0: box_min.y, y1: box_max.y,
                k: box_max.z, material },
            XYrect { x0: box_min.x, x1: box_max.x, y0: box_min.y, y1: box_max.y,
                k: box_min.z, material },
            XZrect { x0: box_min.x, x1: box_max.x, z0: box_min.z, z1: box_max.z,
                k: box_max.y, material },
            XZrect { x0: box_min.x, x1: box_max.x, z0: box_min.z, z1: box_max.z,
                k: box_min.y, material },
            YZrect { y0: box_min.y, y1: box_max.y, z0: box_min.z, z1: box_max.z,
                k: box_max.x, material },
            YZrect { y0: box_min.y, y1: box_max.y, z0: box_min.z, z1: box_max.z,
                k: box_min.x, material },
        )
    }

    /// The nearest hit over the six faces, folded in face order.
    pub open spec fn hit_box_spec(self, ray: Ray) -> Option<Hit> {
        let h0 = self.sides.0.hit_rect_spec(ray);
        let h1 = nearer_opt(h0, self.sides.1.hit_rect_spec(ray));
        let h2 = nearer_opt(h1, self.sides.2.hit_rect_spec(ray));
        let h3 = nearer_opt(h2, self.sides.3.hit_rect_spec(ray));
        let h4 = nearer_opt(h3, self.sides.4.hit_rect_spec(ray));
        nearer_opt(h4, self.sides.5.hit_rect_spec(ray))
    }

    /// Intersects the ray with the cuboid: the nearest hit over its faces.
    pub fn hit(&self, ray: &Ray) -> (r: Option<Hit>)
        requires
            ray.wf(),
            self.wf(),
        ensures
            r == self.hit_box_spec(*ray),
    {
        let mut best = self.sides.0.hit(ray);
        best = nearer(best, self.sides.1.hit(ray));
        best = nearer(best, self.sides.2.hit(ray));
        best = nearer(best, self.sides.3.hit(ray));
        best = nearer(best, self.sides.4.hit(ray));
        nearer(best, self.sides.5.hit(ray))
    }

    /// The box spanned by the two corners.
    pub open spec fn bounding_box_spec(self) -> Aabb {
        Aabb {
            x: Interval { min: self.box_min.x, max: self.box_max.x },
            y: Interval { min: self.box_min.y, max: self.box_max.y },
            z: Interval { min: self.box_min.z, max: self.box_max.z },
        }
    }

    /// Returns bounding box of the cuboid.
    pub fn bounding_box(&self) -> (r: Aabb)
        requires
            self.wf(),
        ensures
            r == self.bounding_box_spec(),
            box_wf(r),
    {
        Aabb {
            x: Interval { min: self.box_min.x, max: self.box_max.x },
            y: Interval { min: self.box_min.y, max: self.box_max.y },
            z: Interval { min: self.box_min.z, max: self.box_max.z },
        }
    }
}

} // verus!


