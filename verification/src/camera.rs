//! Lens-based camera: builds primary rays through the image plane.

use vstd::prelude::*;

use crate::interval::Interval;
use crate::math::{abs, mul_fx, scale, tdiv};
use crate::ray::{Ray, RaySetting};
use crate::rng::RngHandle;
use crate::sampling::get_point_in_sphere;
use crate::vec3::{bounded, cmax, V3};

verus! {

/// Lens-based camera.
#[derive(Clone, Copy, Debug, PartialEq, Eq)]
pub struct Camera {
    /// Image-plane corner the coordinates are measured from.
    pub lower_left_corner: V3,
    /// Image-plane horizontal extent.
    pub horizontal: V3,
    /// Image-plane vertical extent.
    pub vertical: V3,
    /// Where the camera stands.
    pub origin: V3,
    /// Right-pointing basis vector of the lens plane.
    pub u: V3,
    /// Up-pointing basis vector of the lens plane.
    pub v: V3,
    /// Radius of the lens.
    pub lens_radius: i64,
    /// Time at which the shutter opens.
    pub time_begin: i64,
    /// Time at which the shutter closes.
    pub time_end: i64,
}

impl Camera {
    /// Every stored vector is small enough that a generated ray stays in
    /// the coordinate range, and the shutter interval is a real interval.
    pub open spec fn wf(self) -> bool {
        &&& bounded(self.lower_left_corner, cmax() / 4)
        &&& bounded(self.horizontal, cmax() / 4)
        &&& bounded(self.vertical, cmax() / 4)
        &&& bounded(self.origin, cmax() / 16)
        &&& bounded(self.u, 2 * scale())
        &&& bounded(self.v, 2 * scale())
        &&& 0 <= self.lens_radius <= 65536
        &&& 0 <= self.time_begin < self.time_end
        &&& self.time_end <= 0x1_0000_0000
    }

    /// Creates a new camera.
    ///
    /// `lookfrom` - Point from which the camera operates.
    ///
    /// `lookat` - Point at which the camera looks.
    ///
    /// `vup` - Vertical vector of the camera.
    ///
    /// `half_height` - Tangent of half the vertical field of view, as a
    /// fixed-point scalar; the caller precomputes it from the angle.
    ///
    /// `aspect` - Ratio between image width and height.
    ///
    /// `aperture` - Width of the camera's lens.
    ///
    /// `focus_dist` - Distance at which the lens focuses.
    ///
    /// `time_begin` - Time at which the lens opens.
    ///
    /// `time_end` - Time at which the lens closes.
    #[verifier::rlimit(100)]
    pub fn new(
        lookfrom: V3,
        lookat: V3,
        vup: V3,
        half_height: i64,
        aspect: i64,
        aperture: i64,
        focus_dist: i64,
        time_begin: i64,
        time_end: i64,
    ) -> (r: Camera)
        requires
            bounded(lookfrom, cmax() / 16),
            lookat.in_range(),
            vup.in_range(),
            !(vup.x == 0 && vup.y == 0 && vup.z == 0),
            lookfrom != lookat,
            0 <= half_height <= 4 * 65536,
            0 <= aspect <= 4 * 65536,
            0 <= aperture <= 2 * 65536,
            0 < focus_dist <= 0x20_0000,
            0 <= time_begin < time_end,
            time_end <= 0x1_0000_0000,
        ensures
            r.wf(),
            r.origin == lookfrom,
            r.time_begin == time_begin,
            r.time_end == time_end,
    {
        proof {
            assert(lookfrom.x - lookat.x < 0x8000_0000_0000_0000 && -0x8000_0000_0000_0000
                <= lookfrom.x - lookat.x);
        }
        let gaze = lookfrom.sub(lookat);
        let w = if gaze.x == 0 && gaze.y == 0 && gaze.z == 0 {
            V3::new(0, 0, 65536)
        } else {
            gaze.norm()
        };
        proof {
            crate::vec3::lemma_cross_bound(vup, w, cmax(), 65536, 0x2000_0000_0000);
        }
        let uc = vup.cross(w);
        let u = if uc.x == 0 && uc.y == 0 && uc.z == 0 {
            V3::new(65536, 0, 0)
        } else {
            uc.norm()
        };
        proof {
            crate::vec3::lemma_cross_bound(w, u, 65536, 65536, 131072);
        }
        let v = w.cross(u);

        proof {
            crate::math::lemma_mul_abs_bound(aspect as int, half_height as int, 262144,
                262144);
            crate::math::lemma_tdiv_quot_bound(aspect as int * half_height as int, scale(),
                0x10_0000);
        }
        let half_width = mul_fx(aspect, half_height);
        let lens_radius = tdiv_half(aperture);

        proof {
            lemma_plane_term(u, half_width as int, focus_dist as int);
            lemma_plane_term(v, half_height as int, focus_dist as int);
            lemma_plane_term(w, 65536, focus_dist as int);
        }
        let uw = u.scale_by(half_width);
        let uf = uw.scale_by(focus_dist);
        let vh = v.scale_by(half_height);
        let vf = vh.scale_by(focus_dist);
        let wf_ = w.scale_by(65536);
        let wff = wf_.scale_by(focus_dist);
        let lower_left_corner = lookfrom.sub(uf).sub(vf).sub(wff);
        let horizontal = uf.add(uf);
        let vertical = vf.add(vf);

        Camera {
            lower_left_corner,
            horizontal,
            vertical,
            origin: lookfrom,
            u,
            v,
            lens_radius,
            time_begin,
            time_end,
        }
    }

    /// Get a ray from the camera origin through the wanted position on the
    /// image, with a random lens offset and a random time in the shutter
    /// interval.
    ///
    /// `u`, `v` - Coordinates of the pixel, in the unit range.
    ///
    /// `setting` - Global ray setting.
    #[verifier::rlimit(100)]
    pub fn get_ray(&self, u: i64, v: i64, setting: &RaySetting, rng: &mut RngHandle) -> (r:
        Ray)
        requires
            self.wf(),
            0 <= u <= 65536,
            0 <= v <= 65536,
            setting.ray_time.wf(),
            abs(setting.ray_time.min as int) <= 0x1_0000_0000,
            abs(setting.ray_time.max as int) <= 0x1_0000_0000,
            setting.background_color.in_range(),
        ensures
            r.wf(),
            r.setting == *setting,
    {
        let rd0 = get_point_in_sphere(rng);
        proof {
            crate::math::lemma_mul_abs_bound(rd0.x as int, self.lens_radius as int, 65536,
                65536);
            crate::math::lemma_mul_abs_bound(rd0.y as int, self.lens_radius as int, 65536,
                65536);
            crate::math::lemma_tdiv_quot_bound(rd0.x * self.lens_radius, scale(), 65536);
            crate::math::lemma_tdiv_quot_bound(rd0.y * self.lens_radius, scale(), 65536);
        }
        let rdx = mul_fx(rd0.x, self.lens_radius);
        let rdy = mul_fx(rd0.y, self.lens_radius);
        proof {
            lemma_plane_term(self.u, rdx as int, 65536);
            lemma_plane_term(self.v, rdy as int, 65536);
            crate::math::lemma_mul_abs_bound(self.horizontal.x as int, u as int, cmax() / 4,
                65536);
            crate::math::lemma_mul_abs_bound(self.horizontal.y as int, u as int, cmax() / 4,
                65536);
            crate::math::lemma_mul_abs_bound(self.horizontal.z as int, u as int, cmax() / 4,
                65536);
            crate::math::lemma_tdiv_quot_bound(self.horizontal.x * u, scale(), cmax() / 4);
            crate::math::lemma_tdiv_quot_bound(self.horizontal.y * u, scale(), cmax() / 4);
            crate::math::lemma_tdiv_quot_bound(self.horizontal.z * u, scale(), cmax() / 4);
            crate::math::lemma_mul_abs_bound(self.vertical.x as int, v as int, cmax() / 4,
                65536);
            crate::math::lemma_mul_abs_bound(self.vertical.y as int, v as int, cmax() / 4,
                65536);
            crate::math::lemma_mul_abs_bound(self.vertical.z as int, v as int, cmax() / 4,
                65536);
            crate::math::lemma_tdiv_quot_bound(self.vertical.x * v, scale(), cmax() / 4);
            crate::math::lemma_tdiv_quot_bound(self.vertical.y * v, scale(), cmax() / 4);
            crate::math::lemma_tdiv_quot_bound(self.vertical.z * v, scale(), cmax() / 4);
        }
        let us = self.u.scale_by(rdx);
        let vs = self.v.scale_by(rdy);
        let offset = us.add(vs);
        let hu = self.horizontal.scale_by(u);
        let vv = self.vertical.scale_by(v);
        let end = self.lower_left_corner.add(hu).add(vv).sub(self.origin).sub(offset);
        let origin = self.origin.add(offset);
        let time = self.time_begin + rng.below((self.time_end - self.time_begin) as u64)
            as i64;
        Ray { origin, end, time, setting: *setting }
    }
}

/// Halves a nonnegative scalar.
fn tdiv_half(a: i64) -> (r: i64)
    requires
        0 <= a,
    ensures
        r == a as int / 2,
        0 <= r <= a,
{
    a / 2
}

/// One image-plane term: a near-unit basis vector scaled by a half extent
/// and the focus distance stays well within the coordinate range.
proof fn lemma_plane_term(b: V3, h: int, f: int)
    requires
        bounded(b, 2 * scale()),
        abs(h) <= 0x10_0000,
        abs(f) <= 0x20_0000,
    ensures
        bounded(crate::vec3::scale_spec(b, h), 0x20_0000),
        bounded(crate::vec3::scale_spec(crate::vec3::scale_spec(b, h), f), 0x400_0000),
{
    crate::math::lemma_mul_abs_bound(b.x as int, h, 131072, 0x10_0000);
    crate::math::lemma_mul_abs_bound(b.y as int, h, 131072, 0x10_0000);
    crate::math::lemma_mul_abs_bound(b.z as int, h, 131072, 0x10_0000);
    crate::math::lemma_tdiv_quot_bound(b.x * h, scale(), 0x20_0000);
    crate::math::lemma_tdiv_quot_bound(b.y * h, scale(), 0x20_0000);
    crate::math::lemma_tdiv_quot_bound(b.z * h, scale(), 0x20_0000);
    let s = crate::vec3::scale_spec(b, h);
    crate::math::lemma_mul_abs_bound(s.x as int, f, 0x20_0000, 0x20_0000);
    crate::math::lemma_mul_abs_bound(s.y as int, f, 0x20_0000, 0x20_0000);
    crate::math::lemma_mul_abs_bound(s.z as int, f, 0x20_0000, 0x20_0000);
    crate::math::lemma_tdiv_quot_bound(s.x * f, scale(), 0x400_0000);
    crate::math::lemma_tdiv_quot_bound(s.y * f, scale(), 0x400_0000);
    crate::math::lemma_tdiv_quot_bound(s.z * f, scale(), 0x400_0000);
}

} // verus!
