//! The recursive radiance estimator and the per-pixel sampler.

use vstd::prelude::*;

use crate::camera::Camera;
use crate::hit::Hit;
use crate::hitables::{hit_spec, media_free, prim_wf, HitableList, Primitive};
use crate::material::{emitted_spec, get_spec, Material, MaterialContainer};
use crate::math::{abs, isqrt, lemma_sqrt_floor_bounds, scale, sqrt_floor, tdiv, tdiv_i128,
    wide_mul};
use crate::pdf::{mixture_generate, mixture_value};
use crate::ppm::Ppm;
use crate::ray::{Ray, RaySetting};
use crate::rng::RngHandle;
use crate::vec3::{bounded, cmax, V3};

verus! {

/// Configuration of the desired image to render.
#[derive(Clone, Copy, Debug, PartialEq, Eq)]
pub struct ImageConfig {
    /// Width of image in pixels.
    pub nx: u32,
    /// Height of image in pixels.
    pub ny: u32,
    /// How many rays are sent through each pixel; more is better and slower.
    pub samples_per_pixel: u16,
    /// Global setting shared by all rays.
    pub ray_setting: RaySetting,
}

/// Represents the scene to render.
pub struct Scene {
    /// Camera.
    pub camera: Camera,
    /// The entity tree to render, usually the root of a bounding-volume
    /// tree.
    pub world: Primitive,
    /// The light-emitting entities, used only for direction sampling.
    pub lights: Option<HitableList>,
    /// Materials.
    pub materials: MaterialContainer,
}

/// A hit record whose geometry the estimator can work with: the normal is
/// representable, near unit and nonzero, and the point is representable.
pub open spec fn hit_ok(h: Hit) -> bool {
    &&& h.normal.in_range()
    &&& bounded(h.normal, 131072)
    &&& !(h.normal.x == 0 && h.normal.y == 0 && h.normal.z == 0)
    &&& h.point.in_range()
}

/// A color clamped componentwise into the coordinate range, which also
/// absorbs any degenerate sample into a safe value.
pub open spec fn clamp_color_spec(v: V3) -> V3 {
    V3 {
        x: clamp_c(v.x as int),
        y: clamp_c(v.y as int),
        z: clamp_c(v.z as int),
    }
}

/// One clamped color channel.
pub open spec fn clamp_c(v: int) -> i64 {
    if v < -0x4000_0000 {
        (-0x4000_0000) as i64
    } else if v > 0x4000_0000 {
        0x4000_0000 as i64
    } else {
        v as i64
    }
}

/// Clamps a color into the coordinate range.
fn clamp_color(v: V3) -> (r: V3)
    ensures
        r == clamp_color_spec(v),
        r.in_range(),
{
    V3 {
        x: if v.x < -0x4000_0000 { -0x4000_0000 } else if v.x > 0x4000_0000 { 0x4000_0000 }
            else { v.x },
        y: if v.y < -0x4000_0000 { -0x4000_0000 } else if v.y > 0x4000_0000 { 0x4000_0000 }
            else { v.y },
        z: if v.z < -0x4000_0000 { -0x4000_0000 } else if v.z > 0x4000_0000 { 0x4000_0000 }
            else { v.z },
    }
}

/// The deterministic outcomes of the radiance estimator on a media-free
/// world: a miss takes the background color, a first hit on a light source
/// takes its emitted radiance, and a hit on any scattering material at the
/// recursion limit is black.
pub open spec fn color_cases(
    world: Primitive,
    materials: MaterialContainer,
    ray: Ray,
    depth: u16,
    r: V3,
) -> bool {
    &&& (media_free(world) && hit_spec(world, ray) is None ==> r
        == ray.setting.background_color)
    &&& (match hit_spec(world, ray) {
        Some(h) => media_free(world) && hit_ok(h) ==> {
            &&& (get_spec(materials, h.material) is LightSource && emitted_spec(
                get_spec(materials, h.material), h).in_range() ==> r == emitted_spec(
                get_spec(materials, h.material), h))
            &&& (!(get_spec(materials, h.material) is LightSource) && depth
                >= ray.setting.depth ==> r == (V3 { x: 0i64, y: 0i64, z: 0i64 }))
        },
        None => true,
    })
}

/// The sum of the first channel over a sequence of per-sample estimates.
pub open spec fn sample_sum_x(samples: Seq<(V3, Ray)>) -> int
    decreases samples.len(),
{
    if samples.len() == 0 {
        0
    } else {
        sample_sum_x(samples.drop_last()) + samples.last().0.x
    }
}

/// The sum of the second channel over a sequence of per-sample estimates.
pub open spec fn sample_sum_y(samples: Seq<(V3, Ray)>) -> int
    decreases samples.len(),
{
    if samples.len() == 0 {
        0
    } else {
        sample_sum_y(samples.drop_last()) + samples.last().0.y
    }
}

/// The sum of the third channel over a sequence of per-sample estimates.
pub open spec fn sample_sum_z(samples: Seq<(V3, Ray)>) -> int
    decreases samples.len(),
{
    if samples.len() == 0 {
        0
    } else {
        sample_sum_z(samples.drop_last()) + samples.last().0.z
    }
}

/// One finished pixel: there is a sequence of one radiance estimate per
/// sample, each an outcome of the estimator for some well-formed camera ray
/// carrying the given setting and obeying the estimator's deterministic
/// outcomes on the world, and the stored color is the tone-mapped mean of
/// those estimates, channel by channel.
pub open spec fn pixel_estimate_spec(
    world: Primitive,
    materials: MaterialContainer,
    setting: RaySetting,
    spp: u16,
    c: V3,
) -> bool {
    exists|samples: Seq<(V3, Ray)>|
        #![trigger samples.len()]
        samples.len() == spp as nat && (forall|i: int|
            0 <= i < samples.len() ==> (#[trigger] samples[i]).0.in_range()
                && samples[i].1.wf() && samples[i].1.setting == setting && color_cases(
                world, materials, samples[i].1, 0, samples[i].0)) && c == (V3 {
            x: tone_map_spec(sample_sum_x(samples), spp),
            y: tone_map_spec(sample_sum_y(samples), spp),
            z: tone_map_spec(sample_sum_z(samples), spp),
        })
}

impl Scene {
    /// The scene is renderable: the world and materials are well formed and
    /// any light list is non-empty, well formed, and free of rotation
    /// wrappers, which do not forward density evaluation or sampling.
    pub open spec fn wf(self) -> bool {
        &&& prim_wf(self.world)
        &&& self.camera.wf()
        &&& self.materials.wf()
        &&& match self.lights {
            Some(l) => l.wf() && 0 < l.list@.len() < 65536
                && crate::hitables::all_rotation_free(l.list@),
            None => true,
        }
    }

    /// Get the color of the cast ray.
    ///
    /// The contract pins the deterministic outcomes on a media-free world:
    /// a ray that misses everything takes the background color; a ray whose
    /// first hit is a light source takes its emitted radiance; a hit on any
    /// scattering material at the recursion limit is black.
    pub fn get_color(&self, ray: &Ray, rng: &mut RngHandle) -> (r: V3)
        requires
            self.wf(),
            ray.wf(),
        ensures
            r.in_range(),
            color_cases(self.world, self.materials, *ray, 0, r),
    {
        self.color(ray, 0, rng)
    }

    /// Recursively bounce the ray between the scene's entities, gathering
    /// emitted radiance and attenuated recursive radiance.
    fn color(&self, ray: &Ray, depth: u16, rng: &mut RngHandle) -> (r: V3)
        requires
            self.wf(),
            ray.wf(),
        ensures
            r.in_range(),
            color_cases(self.world, self.materials, *ray, depth, r),
        decreases ray.setting.depth - depth,
    {
        match self.world.hit(ray, rng) {
            None => ray.setting.background_color,
            Some(hit) => {
                if !(hit.normal.is_in_range() && hit.point.is_in_range()) || (hit.normal.x
                    == 0 && hit.normal.y == 0 && hit.normal.z == 0) || hit.normal.x > 131072
                    || hit.normal.x < -131072 || hit.normal.y > 131072 || hit.normal.y
                    < -131072 || hit.normal.z > 131072 || hit.normal.z < -131072 {
                    return V3::zero();
                }
                let material = *self.materials.get(hit.material);
                proof {
                    assert(material.wf()) by {
                        if (hit.material as int) < self.materials.materials@.len() {
                            assert(material == self.materials.materials@[
                                hit.material as int]);
                        }
                    }
                }
                match material.scatter(ray, &hit, rng) {
                    Some(scatter_record) => {
                        if depth < ray.setting.depth {
                            let generated_dir: V3;
                            let pdf_val: i64;
                            match &self.lights {
                                Some(lights) => {
                                    let d = mixture_generate(lights, &scatter_record.pdf,
                                        hit.point, rng);
                                    if !d.is_in_range() {
                                        return V3::zero();
                                    }
                                    generated_dir = d;
                                    pdf_val = mixture_value(lights, &scatter_record.pdf,
                                        hit.point, generated_dir);
                                },
                                None => {
                                    let d = scatter_record.pdf.generate(hit.point, rng);
                                    if !d.is_in_range() {
                                        return V3::zero();
                                    }
                                    generated_dir = d;
                                    pdf_val = scatter_record.pdf.value(hit.point,
                                        generated_dir);
                                },
                            }

                            let scattered_ray = Ray {
                                origin: hit.point,
                                end: generated_dir,
                                time: ray.time,
                                setting: ray.setting,
                            };

                            match scatter_record.specular_ray {
                                Some(spec_ray) => {
                                    if !(spec_ray.origin.is_in_range()
                                        && spec_ray.end.is_in_range()
                                        && spec_ray.setting == ray.setting
                                        && spec_ray.time >= -0x1_0000_0000
                                        && spec_ray.time <= 0x1_0000_0000
                                        && scatter_record.attenuation.is_in_range()) {
                                        return V3::zero();
                                    }
                                    let rec = self.color(&spec_ray, depth + 1, rng);
                                    clamp_color(scatter_record.attenuation.mul(rec))
                                },
                                None => {
                                    if !scatter_record.attenuation.is_in_range() {
                                        return V3::zero();
                                    }
                                    let emitted = material.color_emitted(ray, &hit);
                                    if !emitted.is_in_range() {
                                        return V3::zero();
                                    }
                                    let spdf = material.scattering_pdf(ray, &hit,
                                        &scattered_ray);
                                    if spdf < 0 || spdf > 131072 || pdf_val <= 0 {
                                        return clamp_color(emitted);
                                    }
                                    let rec = self.color(&scattered_ray, depth + 1, rng);
                                    proof {
                                        crate::math::lemma_mul_abs_bound(
                                            scatter_record.attenuation.x as int,
                                            spdf as int, cmax(), 131072);
                                        crate::math::lemma_mul_abs_bound(
                                            scatter_record.attenuation.y as int,
                                            spdf as int, cmax(), 131072);
                                        crate::math::lemma_mul_abs_bound(
                                            scatter_record.attenuation.z as int,
                                            spdf as int, cmax(), 131072);
                                        crate::math::lemma_tdiv_quot_bound(
                                            scatter_record.attenuation.x * spdf, scale(),
                                            2 * cmax());
                                        crate::math::lemma_tdiv_quot_bound(
                                            scatter_record.attenuation.y * spdf, scale(),
                                            2 * cmax());
                                        crate::math::lemma_tdiv_quot_bound(
                                            scatter_record.attenuation.z * spdf, scale(),
                                            2 * cmax());
                                    }
                                    let weighted = scatter_record.attenuation.scale_by(
                                        spdf);
                                    let wc = clamp_color(weighted);
                                    let bounce = wc.mul(rec);
                                    let bc = clamp_color(bounce);
                                    proof {
                                        crate::math::lemma_tdiv_bound(bc.x * scale(),
                                            pdf_val as int);
                                        crate::math::lemma_tdiv_bound(bc.y * scale(),
                                            pdf_val as int);
                                        crate::math::lemma_tdiv_bound(bc.z * scale(),
                                            pdf_val as int);
                                        crate::math::lemma_mul_abs_bound(bc.x as int,
                                            scale(), cmax(), 65536);
                                        crate::math::lemma_mul_abs_bound(bc.y as int,
                                            scale(), cmax(), 65536);
                                        crate::math::lemma_mul_abs_bound(bc.z as int,
                                            scale(), cmax(), 65536);
                                    }
                                    let divided = bc.div_by(pdf_val);
                                    let dc = clamp_color(divided);
                                    proof {
                                        assert(emitted.x + dc.x < 0x8000_0000_0000_0000
                                            && -0x8000_0000_0000_0000 <= emitted.x + dc.x);
                                    }
                                    clamp_color(emitted.add(dc))
                                },
                            }
                        } else {
                            V3::zero()
                        }
                    },
                    None => {
                        let e = material.color_emitted(ray, &hit);
                        clamp_color(e)
                    },
                }
            },
        }
    }

    /// Renders the scene into a raster: for every pixel, the configured
    /// number of jittered primary rays are cast and averaged, and the mean
    /// is gamma-encoded and quantized.  Every pixel of the result is such a
    /// tone-mapped estimate for its own samples.
    pub fn render(&self, image_config: ImageConfig) -> (r: Ppm)
        requires
            self.wf(),
            image_config.nx >= 1,
            image_config.ny >= 1,
            image_config.samples_per_pixel >= 1,
            3 * image_config.ny * image_config.nx <= 0xffff_ffff,
            image_config.ray_setting.ray_time.wf(),
            abs(image_config.ray_setting.ray_time.min as int) <= 0x1_0000_0000,
            abs(image_config.ray_setting.ray_time.max as int) <= 0x1_0000_0000,
            image_config.ray_setting.background_color.in_range(),
        ensures
            r.wf(),
            r.height == image_config.ny,
            r.width == image_config.nx,
            forall|px: u32, py: u32|
                px < image_config.nx && py < image_config.ny ==> pixel_estimate_spec(
                    self.world, self.materials, image_config.ray_setting,
                    image_config.samples_per_pixel, #[trigger] r.pixel_spec(px, py)),
    {
        let mut output_file = Ppm::new(image_config.ny, image_config.nx);
        let mut rng = RngHandle::new();
        let ny = image_config.ny;
        let nx = image_config.nx;
        let spp = image_config.samples_per_pixel;

        let mut y: u32 = 0;
        while y < ny
            invariant
                self.wf(),
                output_file.wf(),
                output_file.height == ny,
                output_file.width == nx,
                nx >= 1,
                ny >= 1,
                spp >= 1,
                image_config.ray_setting.ray_time.wf(),
                abs(image_config.ray_setting.ray_time.min as int) <= 0x1_0000_0000,
                abs(image_config.ray_setting.ray_time.max as int) <= 0x1_0000_0000,
                image_config.ray_setting.background_color.in_range(),
                forall|px: u32, py: u32|
                    px < nx && py < y ==> pixel_estimate_spec(self.world, self.materials,
                        image_config.ray_setting, spp, #[trigger] output_file.pixel_spec(px,
                        py)),
            decreases ny - y,
        {
            let mut x: u32 = 0;
            while x < nx
                invariant
                    self.wf(),
                    output_file.wf(),
                    output_file.height == ny,
                    output_file.width == nx,
                    nx >= 1,
                    ny >= 1,
                    spp >= 1,
                    y < ny,
                    x <= nx,
                    image_config.ray_setting.ray_time.wf(),
                    abs(image_config.ray_setting.ray_time.min as int) <= 0x1_0000_0000,
                    abs(image_config.ray_setting.ray_time.max as int) <= 0x1_0000_0000,
                    image_config.ray_setting.background_color.in_range(),
                    forall|px: u32, py: u32|
                        px < nx && py < y ==> pixel_estimate_spec(self.world,
                            self.materials, image_config.ray_setting, spp,
                            #[trigger] output_file.pixel_spec(px, py)),
                    forall|px: u32|
                        px < x ==> pixel_estimate_spec(self.world, self.materials,
                            image_config.ray_setting, spp,
                            #[trigger] output_file.pixel_spec(px, y)),
                decreases nx - x,
            {
                let color = self.sample_pixel(x, y, nx, ny, spp, &image_config.ray_setting,
                    &mut rng);
                let ghost prev = output_file;
                let wrote = output_file.set_pixel(x, y, color);
                proof {
                    crate::ppm::lemma_offset_in_buffer(prev, x, y);
                    assert(wrote);
                    Ppm::lemma_set_pixel_reads(prev, output_file, x, y, color);
                    assert forall|px: u32, py: u32| px < nx && py < y implies
                        pixel_estimate_spec(self.world, self.materials,
                            image_config.ray_setting, spp,
                            #[trigger] output_file.pixel_spec(px, py)) by {
                        assert(output_file.pixel_spec(px, py) == prev.pixel_spec(px, py));
                    }
                    assert forall|px: u32| px < x + 1 implies pixel_estimate_spec(
                        self.world, self.materials, image_config.ray_setting, spp,
                        #[trigger] output_file.pixel_spec(px, y)) by {
                        if px < x {
                            assert(output_file.pixel_spec(px, y) == prev.pixel_spec(px, y));
                        } else {
                            assert(output_file.pixel_spec(px, y) == color);
                        }
                    }
                }
                x = x + 1;
            }
            y = y + 1;
        }
        output_file
    }

    /// Estimates one pixel: averages the configured number of jittered
    /// samples and gamma-encodes the mean into one byte per channel.
    pub fn sample_pixel(
        &self,
        x: u32,
        y: u32,
        nx: u32,
        ny: u32,
        spp: u16,
        setting: &RaySetting,
        rng: &mut RngHandle,
    ) -> (r: V3)
        requires
            self.wf(),
            x < nx,
            y < ny,
            spp >= 1,
            setting.ray_time.wf(),
            abs(setting.ray_time.min as int) <= 0x1_0000_0000,
            abs(setting.ray_time.max as int) <= 0x1_0000_0000,
            setting.background_color.in_range(),
        ensures
            0 <= r.x <= 255,
            0 <= r.y <= 255,
            0 <= r.z <= 255,
            pixel_estimate_spec(self.world, self.materials, *setting, spp, r),
    {
        let mut sx: i64 = 0;
        let mut sy: i64 = 0;
        let mut sz: i64 = 0;
        let mut s: u16 = 0;
        let ghost mut samples: Seq<(V3, Ray)> = Seq::empty();
        while s < spp
            invariant
                self.wf(),
                x < nx,
                y < ny,
                setting.ray_time.wf(),
                abs(setting.ray_time.min as int) <= 0x1_0000_0000,
                abs(setting.ray_time.max as int) <= 0x1_0000_0000,
                setting.background_color.in_range(),
                s <= spp,
                abs(sx as int) <= s * 0x4000_0000,
                abs(sy as int) <= s * 0x4000_0000,
                abs(sz as int) <= s * 0x4000_0000,
                samples.len() == s as nat,
                sx == sample_sum_x(samples),
                sy == sample_sum_y(samples),
                sz == sample_sum_z(samples),
                forall|i: int|
                    0 <= i < samples.len() ==> (#[trigger] samples[i]).0.in_range()
                        && samples[i].1.wf() && samples[i].1.setting == *setting
                        && color_cases(self.world, self.materials, samples[i].1, 0,
                        samples[i].0),
            decreases spp - s,
        {
            let ju = rng.below(65536) as i64;
            let jv = rng.below(65536) as i64;
            let u = pixel_coord(x, ju, nx);
            let v = pixel_coord(y, jv, ny);
            let ray = self.camera.get_ray(u, v, setting, rng);
            let c = self.get_color(&ray, rng);
            proof {
                assert((s + 1) * 0x4000_0000 == s * 0x4000_0000 + 0x4000_0000)
                    by (nonlinear_arith);
                assert(s * 0x4000_0000 <= 65536 * 0x4000_0000) by (nonlinear_arith)
                    requires s <= 65536;
                let prev = samples;
                samples = samples.push((c, ray));
                assert(samples.drop_last() =~= prev);
                assert(samples.last() == (c, ray));
            }
            sx = sx + c.x;
            sy = sy + c.y;
            sz = sz + c.z;
            s = s + 1;
        }
        proof {
            assert(spp * 0x4000_0000 <= 65536 * 0x4000_0000) by (nonlinear_arith)
                requires spp <= 65536;
        }
        let out = V3 {
            x: tone_map(sx, spp),
            y: tone_map(sy, spp),
            z: tone_map(sz, spp),
        };
        proof {
            assert(samples.len() == spp as nat);
            assert(out == (V3 {
                x: tone_map_spec(sample_sum_x(samples), spp),
                y: tone_map_spec(sample_sum_y(samples), spp),
                z: tone_map_spec(sample_sum_z(samples), spp),
            }));
        }
        out
    }
}

/// The image-plane coordinate of a jittered pixel index: the index plus the
/// unit jitter, over the image extent.
pub open spec fn pixel_coord_spec(i: u32, jitter: int, n: u32) -> int {
    tdiv(i * 65536 + jitter, n as int)
}

/// Computes the jittered image-plane coordinate of a pixel index.
fn pixel_coord(i: u32, jitter: i64, n: u32) -> (r: i64)
    requires
        i < n,
        0 <= jitter < 65536,
    ensures
        r == pixel_coord_spec(i, jitter as int, n),
        0 <= r <= 65536,
{
    proof {
        crate::math::lemma_tdiv_quot_bound(i as int * 65536 + jitter, n as int, 65536);
        assert(i as int * 65536 + jitter <= 65536 * (n as int)) by (nonlinear_arith)
            requires i < n, 0 <= jitter < 65536;
    }
    tdiv_i128((i as i128) * 65536 + jitter as i128, n as i128) as i64
}

/// The gamma-encoded byte of an accumulated channel: the mean sample,
/// square-rooted in fixed point, clamped just below one and quantized to
/// eight bits.
pub open spec fn tone_map_spec(sum: int, spp: u16) -> i64 {
    let avg = tdiv(sum, spp as int);
    if avg <= 0 {
        0i64
    } else {
        let sq = sqrt_floor(avg * 65536);
        let cl = if sq > 65470 {
            65470
        } else {
            sq
        };
        tdiv(cl * 255, 65536) as i64
    }
}

/// Gamma-encodes an accumulated channel into one byte.
fn tone_map(sum: i64, spp: u16) -> (r: i64)
    requires
        spp >= 1,
        abs(sum as int) <= 65536 * 0x4000_0000,
    ensures
        r == tone_map_spec(sum as int, spp),
        0 <= r <= 255,
{
    proof {
        crate::math::lemma_tdiv_bound(sum as int, spp as int);
    }
    let avg = tdiv_i128(sum as i128, spp as i128);
    if avg <= 0 {
        return 0;
    }
    let sq128 = isqrt((avg as u128) * 65536);
    proof {
        lemma_sqrt_floor_bounds(avg as int * 65536);
    }
    let cl: i64 = if sq128 > 65470 {
        65470
    } else {
        proof {
            crate::math::lemma_sqrt_floor_unique(avg as int * 65536,
                sqrt_floor(avg as int * 65536));
        }
        sq128 as i64
    };
    proof {
        crate::math::lemma_mul_abs_bound(cl as int, 255, 65536, 255);
        crate::math::lemma_tdiv_quot_bound(cl as int * 255, 65536, 255);
        crate::math::lemma_tdiv_bound(cl as int * 255, 65536);
        assert(cl as int * 255 >= 0) by (nonlinear_arith)
            requires cl >= 0;
    }
    tdiv_i128(wide_mul(cl, 255), 65536) as i64
}

} // verus!
