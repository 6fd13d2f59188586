//! Ways of scattering incoming rays, and the material table.

use vstd::prelude::*;

use crate::hit::Hit;
use crate::math::{abs, isqrt, lemma_mul_abs_bound, lemma_sqrt_floor_bounds,
    lemma_tdiv_bound, lemma_tdiv_quot_bound, mul_fx, scale, sqrt_floor, tdiv, tdiv_i128,
    wide_mul, SCALE};
use crate::onb::Onb;
use crate::pdf::Pdf;
use crate::ray::Ray;
use crate::rng::RngHandle;
use crate::sampling::get_point_on_sphere;
use crate::texture::{texture_value_spec, Texture};
use crate::vec3::{add_spec, bounded, cmax, dot_fx, dot_raw, neg_spec, scale_spec, sub_spec,
    V3};

verus! {

/// Each object's material: how it scatters or emits at a hit.
#[derive(Clone, Copy, Debug, PartialEq, Eq)]
pub enum Material {
    /// Diffusely reflecting surface.
    Lambertian {
        /// Texture of the object.
        albedo: Texture,
    },
    /// Metallic mirror with a roughness parameter.
    Metalic {
        /// Color of the metallic surface.
        albedo: V3,
        /// Irregularity of the surface.
        fuzz: i64,
    },
    /// Dielectric such as glass, reflecting or refracting.
    Dielectric {
        /// Refractive index of the medium.
        refractive_index: i64,
    },
    /// The phase function of a participating medium: scatters uniformly.
    Isotropic {
        /// Texture of the medium.
        albedo: Texture,
    },
    /// Emits light and never scatters.
    LightSource {
        /// Texture of the emitter.
        albedo: Texture,
    },
}

/// ScatterRecord represents a ray scatter instance: either an explicit
/// specular ray, or a density to sample a direction from.
pub struct ScatterRecord {
    /// Scattered ray for specular events.
    pub specular_ray: Option<Ray>,
    /// Color of the scattered ray.
    pub attenuation: V3,
    /// Density corresponding to this record.
    pub pdf: Pdf,
}

/// Mirror reflection of `v` about the normal `n`.
pub open spec fn reflect_spec(v: V3, n: V3) -> V3 {
    sub_spec(v, scale_spec(n, 2 * dot_fx(v, n)))
}

/// Returns reflected, mirrored direction.
///
/// `v` - Incoming ray direction.
///
/// `n` - Vector normal to the surface.
pub fn reflect(v: V3, n: V3) -> (r: V3)
    requires
        bounded(v, 2 * scale()),
        bounded(n, 2 * scale()),
    ensures
        r == reflect_spec(v, n),
        bounded(r, 50 * scale()),
{
    proof {
        crate::primitive::lemma_dot_fx_bound(v, n, 131072, 131072, 786432);
        lemma_mul_abs_bound(n.x as int, 2 * dot_fx(v, n), 131072, 1572864);
        lemma_mul_abs_bound(n.y as int, 2 * dot_fx(v, n), 131072, 1572864);
        lemma_mul_abs_bound(n.z as int, 2 * dot_fx(v, n), 131072, 1572864);
        lemma_tdiv_quot_bound(n.x * (2 * dot_fx(v, n)), scale(), 0x30_0000);
        lemma_tdiv_quot_bound(n.y * (2 * dot_fx(v, n)), scale(), 0x30_0000);
        lemma_tdiv_quot_bound(n.z * (2 * dot_fx(v, n)), scale(), 0x30_0000);
    }
    let d = v.dot_wide(n);
    let s = n.scale_by(2 * d);
    v.sub(s)
}

/// Snell refraction of the unit direction `uv` at the normal `n` with the
/// given ratio of refractive indices.
pub open spec fn refract_spec(uv: V3, n: V3, etai_over_etat: int) -> V3 {
    let cos_theta = clamp_unit(dot_fx(neg_spec(uv), n));
    let r_out_perp = scale_spec(add_spec(uv, scale_spec(n, cos_theta)), etai_over_etat);
    let perp_len_sq = tdiv(dot_raw(r_out_perp, r_out_perp), scale());
    let par = if perp_len_sq >= 65536 {
        0
    } else {
        sqrt_floor((65536 - perp_len_sq) * 65536)
    };
    add_spec(r_out_perp, scale_spec(neg_spec(n), par))
}

/// A cosine clamped into the unit range.
pub open spec fn clamp_unit(c: int) -> int {
    if c > 65536 {
        65536
    } else if c < -65536 {
        -65536
    } else {
        c
    }
}

/// Refraction using Snell's law.  Returns direction of the refracted ray.
///
/// `uv` - Incoming unit direction.
///
/// `n` - Vector normal to the surface.
///
/// `etai_over_etat` - Ratio of refractive indices across the boundary.
pub fn refract(uv: V3, n: V3, etai_over_etat: i64) -> (r: V3)
    requires
        bounded(uv, 2 * scale()),
        bounded(n, 2 * scale()),
        0 <= etai_over_etat <= 4 * scale(),
    ensures
        r == refract_spec(uv, n, etai_over_etat as int),
        bounded(r, 64 * scale()),
{
    proof {
        crate::primitive::lemma_dot_fx_bound(neg_spec(uv), n, 131072, 131072, 786432);
    }
    let nuv = uv.neg();
    let d = nuv.dot_wide(n);
    let cos_theta: i64 = if d > 65536 {
        65536
    } else if d < -65536 {
        -65536
    } else {
        d
    };
    proof {
        lemma_scale_keep(n, cos_theta as int, 131072, 65536, 131072);
        lemma_scale_keep(add_spec(uv, scale_spec(n, cos_theta as int)),
            etai_over_etat as int, 4int * 65536, 4int * 65536, 16int * 65536);
        crate::primitive::lemma_dot_fx_bound(
            scale_spec(add_spec(uv, scale_spec(n, cos_theta as int)), etai_over_etat as int),
            scale_spec(add_spec(uv, scale_spec(n, cos_theta as int)), etai_over_etat as int),
            16int * 65536, 16int * 65536, 768int * 65536);
    }
    let r_out_perp = uv.add(n.scale_by(cos_theta)).scale_by(etai_over_etat);
    proof {
        crate::vec3::lemma_dot_raw_self(r_out_perp);
    }
    let perp_len_sq = r_out_perp.dot_wide(r_out_perp);
    let par: i64 = if perp_len_sq >= 65536 {
        0
    } else {
        proof {
            assert(perp_len_sq >= 0);
            lemma_sqrt_floor_bounds((65536 - perp_len_sq) as int * 65536);
            if sqrt_floor((65536 - perp_len_sq) as int * 65536) > 65536 {
                assert(65536 * 65536 < sqrt_floor(
                    (65536 - perp_len_sq) as int * 65536) * sqrt_floor(
                    (65536 - perp_len_sq) as int * 65536)) by (nonlinear_arith)
                    requires sqrt_floor((65536 - perp_len_sq) as int * 65536) > 65536;
                assert((65536 - perp_len_sq) as int * 65536 <= 65536 * 65536)
                    by (nonlinear_arith)
                    requires 0 <= perp_len_sq < 65536;
            }
        }
        isqrt(((65536 - perp_len_sq) as u128) * 65536) as i64
    };
    proof {
        lemma_scale_keep(neg_spec(n), par as int, 131072, 65536, 131072);
    }
    let r_out_parallel = n.neg().scale_by(par);
    r_out_perp.add(r_out_parallel)
}

/// Scaling a bounded vector by a bounded scalar keeps a product bound.
proof fn lemma_scale_keep(v: V3, s: int, m: int, n: int, q: int)
    requires
        bounded(v, m),
        abs(s) <= n,
        0 <= m,
        0 <= n,
        m * n <= q * 65536,
        0 <= q,
    ensures
        bounded(scale_spec(v, s), q),
{
    lemma_mul_abs_bound(v.x as int, s, m, n);
    lemma_mul_abs_bound(v.y as int, s, m, n);
    lemma_mul_abs_bound(v.z as int, s, m, n);
    lemma_tdiv_quot_bound(v.x * s, scale(), q);
    lemma_tdiv_quot_bound(v.y * s, scale(), q);
    lemma_tdiv_quot_bound(v.z * s, scale(), q);
}

/// Schlick's approximation for reflectance.
///
/// `cosine` - Cosine of the angle of the incoming ray.
///
/// `refractive_index` - Ratio of refractive indices across the boundary.
pub open spec fn schlick_spec(cosine: int, refractive_index: int) -> int {
    let r0a = tdiv((65536 - refractive_index) * 65536, 65536 + refractive_index);
    let r0 = tdiv(r0a * r0a, 65536);
    let p = 65536 - cosine;
    let p2 = tdiv(p * p, 65536);
    let p4 = tdiv(p2 * p2, 65536);
    let p5 = tdiv(p4 * p, 65536);
    r0 + tdiv((65536 - r0) * p5, 65536)
}

/// Schlick's approximation for reflectance.
pub fn schlick(cosine: i64, refractive_index: i64) -> (r: i64)
    requires
        abs(cosine as int) <= 65536,
        0 <= refractive_index <= 4 * 65536,
    ensures
        r == schlick_spec(cosine as int, refractive_index as int),
{
    proof {
        lemma_mul_abs_bound((65536 - refractive_index) as int, 65536, 262144, 65536);
        crate::math::lemma_mul_le_mono(65536, 65536 + refractive_index as int, 262144);
        lemma_tdiv_quot_bound((65536 - refractive_index) as int * 65536,
            65536 + refractive_index as int, 262144);
        lemma_tdiv_bound((65536 - refractive_index) as int * 65536,
            65536 + refractive_index as int);
    }
    let r0a = tdiv_i128(wide_mul(65536 - refractive_index, SCALE),
        (65536 + refractive_index) as i128) as i64;
    proof {
        lemma_mul_abs_bound(r0a as int, r0a as int, 262144, 262144);
        lemma_tdiv_bound(r0a as int * r0a as int, scale());
        lemma_tdiv_quot_bound(r0a as int * r0a as int, scale(), 0x10_0000);
    }
    let r0 = tdiv_i128(wide_mul(r0a, r0a), 65536) as i64;
    let p = 65536 - cosine;
    proof {
        lemma_mul_abs_bound(p as int, p as int, 131072, 131072);
        lemma_tdiv_quot_bound(p as int * p as int, scale(), 262144);
    }
    let p2 = tdiv_i128(wide_mul(p, p), 65536) as i64;
    proof {
        lemma_mul_abs_bound(p2 as int, p2 as int, 262144, 262144);
        lemma_tdiv_quot_bound(p2 as int * p2 as int, scale(), 1048576);
    }
    let p4 = tdiv_i128(wide_mul(p2, p2), 65536) as i64;
    proof {
        lemma_mul_abs_bound(p4 as int, p as int, 1048576, 131072);
        lemma_tdiv_quot_bound(p4 as int * p as int, scale(), 2097152);
    }
    let p5 = tdiv_i128(wide_mul(p4, p), 65536) as i64;
    proof {
        lemma_mul_abs_bound((65536 - r0) as int, p5 as int, 0x20_0000, 0x20_0000);
        lemma_tdiv_bound((65536 - r0) as int * p5 as int, scale());
        lemma_tdiv_quot_bound((65536 - r0) as int * p5 as int, scale(), 0x400_0000);
    }
    r0 + tdiv_i128(wide_mul(65536 - r0, p5), 65536) as i64
}

/// The ratio of refractive indices the boundary applies: the reciprocal of
/// the index when the ray enters the medium, the index itself when it
/// leaves.
pub open spec fn eta_spec(front_face: bool, refractive_index: int) -> int {
    if front_face {
        tdiv(65536int * 65536, refractive_index)
    } else {
        refractive_index
    }
}

/// The direction a dielectric boundary sends a unit ray: compare the
/// Schlick reflectance against the supplied coin, and reflect on total
/// internal reflection or a winning coin, else refract.
pub open spec fn dielectric_direction_spec(
    unit_direction: V3,
    normal: V3,
    etai_over_etat: int,
    coin: int,
) -> V3 {
    let cos_theta = clamp_unit(dot_fx(neg_spec(unit_direction), normal));
    let sin_theta = sqrt_floor((65536 * 65536 - cos_theta * cos_theta) * 1);
    if etai_over_etat * sin_theta > 65536 * 65536 || coin < schlick_spec(cos_theta,
        etai_over_etat) {
        reflect_spec(unit_direction, normal)
    } else {
        refract_spec(unit_direction, normal, etai_over_etat)
    }
}

/// Chooses the reflected or refracted direction at a dielectric boundary
/// for a given reflectance coin.
pub fn dielectric_direction(unit_direction: V3, normal: V3, etai_over_etat: i64, coin: i64)
    -> (r: V3)
    requires
        bounded(unit_direction, 2 * scale()),
        bounded(normal, 2 * scale()),
        0 <= etai_over_etat <= 4 * scale(),
        0 <= coin < 65536,
    ensures
        r == dielectric_direction_spec(unit_direction, normal, etai_over_etat as int,
            coin as int),
        bounded(r, 64 * scale()),
{
    proof {
        crate::primitive::lemma_dot_fx_bound(neg_spec(unit_direction), normal, 131072, 131072,
            786432);
    }
    let nuv = unit_direction.neg();
    let d = nuv.dot_wide(normal);
    let cos_theta: i64 = if d > 65536 {
        65536
    } else if d < -65536 {
        -65536
    } else {
        d
    };
    proof {
        lemma_mul_abs_bound(cos_theta as int, cos_theta as int, 65536, 65536);
        lemma_sqrt_floor_bounds((65536 * 65536 - cos_theta as int * cos_theta as int) * 1);
        assert((65536 * 65536 - cos_theta as int * cos_theta as int) * 1
            == 65536 * 65536 - cos_theta as int * cos_theta as int) by (nonlinear_arith);
        if sqrt_floor((65536 * 65536 - cos_theta as int * cos_theta as int) * 1) > 65536 {
            assert(65536 * 65536 < sqrt_floor((65536 * 65536 - cos_theta as int
                * cos_theta as int) * 1) * sqrt_floor((65536 * 65536 - cos_theta as int
                * cos_theta as int) * 1)) by (nonlinear_arith)
                requires sqrt_floor((65536 * 65536 - cos_theta as int * cos_theta as int)
                    * 1) > 65536;
        }
    }
    let sin_theta = isqrt((65536 * 65536 - wide_mul(cos_theta, cos_theta)) as u128) as i64;
    proof {
        assert(cos_theta as int * cos_theta as int >= 0) by (nonlinear_arith);
        lemma_sqrt_floor_bounds(65536 * 65536 - cos_theta as int * cos_theta as int);
        if sqrt_floor(65536 * 65536 - cos_theta as int * cos_theta as int) > 65536 {
            assert(65536 * 65536 < sqrt_floor(65536 * 65536 - cos_theta as int
                * cos_theta as int) * sqrt_floor(65536 * 65536 - cos_theta as int
                * cos_theta as int)) by (nonlinear_arith)
                requires sqrt_floor(65536 * 65536 - cos_theta as int * cos_theta as int)
                    > 65536;
        }
        assert((65536 * 65536 - cos_theta as int * cos_theta as int) * 1
            == 65536 * 65536 - cos_theta as int * cos_theta as int) by (nonlinear_arith);
        lemma_mul_abs_bound(etai_over_etat as int, sin_theta as int, 4int * 65536, 65536);
    }
    let tir = wide_mul(etai_over_etat, sin_theta) > 65536 * 65536;
    if tir || coin < schlick(cos_theta, etai_over_etat) {
        reflect(unit_direction, normal)
    } else {
        refract(unit_direction, normal, etai_over_etat)
    }
}

/// Beyond the critical angle a dielectric always reflects: whatever the
/// reflectance coin, the chosen direction is the mirror reflection.
pub proof fn lemma_total_internal_reflection(
    unit_direction: V3,
    normal: V3,
    etai_over_etat: int,
    coin: int,
)
    requires
        etai_over_etat * sqrt_floor((65536 * 65536 - clamp_unit(dot_fx(neg_spec(
            unit_direction), normal)) * clamp_unit(dot_fx(neg_spec(unit_direction), normal)))
            * 1) > 65536 * 65536,
    ensures
        dielectric_direction_spec(unit_direction, normal, etai_over_etat, coin)
            == reflect_spec(unit_direction, normal),
{
}

/// The emitted radiance [`Material::color_emitted`] reports: the texture
/// value on the front face of a light source, black everywhere else.
pub open spec fn emitted_spec(m: Material, hit: Hit) -> V3 {
    match m {
        Material::LightSource { albedo } => if hit.front_face {
            texture_value_spec(albedo, hit.u as int, hit.v as int, hit.point)
        } else {
            V3 { x: 0i64, y: 0i64, z: 0i64 }
        },
        _ => V3 { x: 0i64, y: 0i64, z: 0i64 },
    }
}

/// The scattering density [`Material::scattering_pdf`] reports for a
/// scattered direction.
pub open spec fn scattering_pdf_spec(m: Material, hit: Hit, scattered_end: V3) -> int {
    match m {
        Material::Lambertian { .. } | Material::LightSource { .. } => {
            if scattered_end.x == 0 && scattered_end.y == 0 && scattered_end.z == 0 {
                0
            } else {
                let c = dot_fx(scattered_end.norm_spec(), hit.normal);
                if c < 0 {
                    0
                } else {
                    tdiv(c * scale(), 205887)
                }
            }
        },
        Material::Isotropic { .. } => 5215,
        _ => 0,
    }
}

impl Material {
    /// The material's parameters are representable.
    pub open spec fn wf(self) -> bool {
        match self {
            Material::Lambertian { albedo } => albedo.wf(),
            Material::Metalic { albedo, fuzz } => albedo.in_range() && 0 <= fuzz <= 65536,
            Material::Dielectric { refractive_index } => 16384 <= refractive_index
                && refractive_index <= 4 * 65536,
            Material::Isotropic { albedo } => albedo.wf(),
            Material::LightSource { albedo } => albedo.wf(),
        }
    }

    /// Returns the scatter event at a hit, if the material scatters at all:
    /// the light source absorbs; the diffuse and medium materials report a
    /// density to sample; the metal and the dielectric report an explicit
    /// specular ray.
    pub fn scatter(&self, ray_in: &Ray, hit: &Hit, rng: &mut RngHandle) -> (r: Option<
        ScatterRecord,
    >)
        requires
            self.wf(),
            ray_in.wf(),
            hit.normal.in_range(),
            !(hit.normal.x == 0 && hit.normal.y == 0 && hit.normal.z == 0),
            bounded(hit.normal, 2 * scale()),
            hit.point.in_range(),
        ensures
            match r {
                Some(sr) => sr.pdf.wf(),
                None => true,
            },
            match *self {
                Material::Lambertian { albedo } => r matches Some(sr)
                    && sr.specular_ray is None && sr.attenuation == texture_value_spec(
                    albedo, hit.u as int, hit.v as int, hit.point) && sr.pdf
                    == Pdf::Cosine(crate::onb::build_from_w_spec(hit.normal)),
                Material::Isotropic { albedo } => r matches Some(sr)
                    && sr.specular_ray is None && sr.attenuation == texture_value_spec(
                    albedo, hit.u as int, hit.v as int, hit.point) && sr.pdf == Pdf::Uniform,
                Material::LightSource { .. } => r is None,
                Material::Metalic { albedo, fuzz } => if ray_in.end.x == 0 && ray_in.end.y
                    == 0 && ray_in.end.z == 0 {
                    r is None
                } else {
                    r matches Some(sr) && sr.pdf == Pdf::Zero && sr.attenuation == albedo
                        && (sr.specular_ray matches Some(sp) && sp.origin == hit.point
                        && sp.time == ray_in.time && sp.setting == ray_in.setting
                        && exists|w: V3|
                            bounded(w, 65536) && sp.end == add_spec(
                            reflect_spec(ray_in.end.norm_spec(), hit.normal), #[trigger]
                            scale_spec(w, fuzz as int)))
                },
                Material::Dielectric { refractive_index } => if ray_in.end.x == 0
                    && ray_in.end.y == 0 && ray_in.end.z == 0 {
                    r is None
                } else {
                    r matches Some(sr) && sr.pdf == Pdf::Zero && sr.attenuation == (V3 {
                        x: 65536i64, y: 65536i64, z: 65536i64 }) && (sr.specular_ray matches
                        Some(sp) && sp.origin == hit.point && sp.time == ray_in.time
                        && sp.setting == ray_in.setting && exists|coin: int|
                            0 <= coin < 65536 && sp.end
                                == #[trigger] dielectric_direction_spec(
                            ray_in.end.norm_spec(), hit.normal, eta_spec(hit.front_face,
                            refractive_index as int), coin))
                },
            },
    {
        match self {
            Material::Lambertian { albedo } => {
                let attenuation = albedo.value(hit.u, hit.v, hit.point);
                Some(ScatterRecord {
                    specular_ray: None,
                    attenuation,
                    pdf: Pdf::Cosine(Onb::build_from_w(&hit.normal)),
                })
            },
            Material::Isotropic { albedo } => {
                let attenuation = albedo.value(hit.u, hit.v, hit.point);
                Some(ScatterRecord { specular_ray: None, attenuation, pdf: Pdf::Uniform })
            },
            Material::LightSource { .. } => None,
            Material::Metalic { albedo, fuzz } => {
                if ray_in.end.x == 0 && ray_in.end.y == 0 && ray_in.end.z == 0 {
                    return None;
                }
                let norm = ray_in.end.norm();
                let reflected = reflect(norm, hit.normal);
                let w = get_point_on_sphere(rng);
                proof {
                    lemma_scale_keep(w, *fuzz as int, 65536, 65536, 65536);
                }
                let end = reflected.add(w.scale_by(*fuzz));
                let specular_ray = Ray { origin: hit.point, end, ..*ray_in };
                proof {
                    assert(bounded(w, 65536) && specular_ray.end == add_spec(
                        reflect_spec(ray_in.end.norm_spec(), hit.normal),
                        scale_spec(w, *fuzz as int)));
                }
                Some(ScatterRecord {
                    specular_ray: Some(specular_ray),
                    attenuation: *albedo,
                    pdf: Pdf::Zero,
                })
            },
            Material::Dielectric { refractive_index } => {
                if ray_in.end.x == 0 && ray_in.end.y == 0 && ray_in.end.z == 0 {
                    return None;
                }
                let etai_over_etat: i64 = if hit.front_face {
                    proof {
                        lemma_tdiv_bound(65536int * 65536, *refractive_index as int);
                        crate::math::lemma_mul_le_mono(16384, *refractive_index as int,
                            262144);
                        lemma_tdiv_quot_bound(65536int * 65536, *refractive_index as int,
                            262144);
                    }
                    tdiv_i128(65536 * 65536, *refractive_index as i128) as i64
                } else {
                    *refractive_index
                };
                let unit_direction = ray_in.end.norm();
                let coin = rng.below(65536) as i64;
                let direction = dielectric_direction(unit_direction, hit.normal,
                    etai_over_etat, coin);
                let specular_ray = Ray { origin: hit.point, end: direction, ..*ray_in };
                proof {
                    if hit.front_face {
                        assert(etai_over_etat as int == tdiv(65536int * 65536,
                            *refractive_index as int));
                    }
                    assert(0 <= coin < 65536 && specular_ray.end
                        == dielectric_direction_spec(ray_in.end.norm_spec(), hit.normal,
                        eta_spec(hit.front_face, *refractive_index as int), coin as int));
                }
                Some(ScatterRecord {
                    specular_ray: Some(specular_ray),
                    attenuation: V3::new(65536, 65536, 65536),
                    pdf: Pdf::Zero,
                })
            },
        }
    }

    /// Returns the density of the scattered ray under this material's own
    /// scattering law: the clamped cosine over pi for the diffuse laws, the
    /// uniform sphere constant for the medium phase, and zero for specular
    /// materials, which never sample.
    pub fn scattering_pdf(&self, ray_in: &Ray, hit: &Hit, ray_scattered: &Ray) -> (r: i64)
        requires
            ray_scattered.end.in_range(),
            bounded(hit.normal, 2 * scale()),
        ensures
            r == scattering_pdf_spec(*self, *hit, ray_scattered.end),
    {
        match self {
            Material::Lambertian { .. } | Material::LightSource { .. } => {
                if ray_scattered.end.x == 0 && ray_scattered.end.y == 0
                    && ray_scattered.end.z == 0 {
                    return 0;
                }
                let n = ray_scattered.end.norm();
                proof {
                    crate::primitive::lemma_dot_fx_bound(n, hit.normal, 65536, 131072,
                        0x10_0000);
                    lemma_mul_abs_bound(dot_fx(n, hit.normal), scale(), 0x10_0000, 65536);
                    lemma_tdiv_bound(dot_fx(n, hit.normal) * scale(), 205887);
                }
                let c = n.dot_wide(hit.normal);
                if c < 0 {
                    0
                } else {
                    tdiv_i128(wide_mul(c, SCALE), 205887) as i64
                }
            },
            Material::Isotropic { .. } => 5215,
            _ => 0,
        }
    }

    /// Returns the radiance the material emits at the hit: the texture value
    /// on the front face of a light source, black for everything else.
    pub fn color_emitted(&self, ray_in: &Ray, hit: &Hit) -> (r: V3)
        ensures
            r == emitted_spec(*self, *hit),
    {
        match self {
            Material::LightSource { albedo } => {
                if hit.front_face {
                    albedo.value(hit.u, hit.v, hit.point)
                } else {
                    V3::zero()
                }
            },
            _ => V3::zero(),
        }
    }
}

/// Contains materials: an append-only table addressed by stable integer
/// handles, with a default material for unknown handles.
pub struct MaterialContainer {
    /// The registered materials, in insertion order.
    pub materials: Vec<Material>,
    /// The material unknown handles resolve to.
    pub none_material: Material,
}

/// The material a handle resolves to: the table entry, or the default
/// material for handles never returned by an insertion.
pub open spec fn get_spec(c: MaterialContainer, index: usize) -> Material {
    if index < c.materials@.len() {
        c.materials@[index as int]
    } else {
        c.none_material
    }
}

impl MaterialContainer {
    /// Every stored material is representable.
    pub open spec fn wf(self) -> bool {
        (forall|i: int| 0 <= i < self.materials@.len() ==> (#[trigger] self.materials@[i]).wf())
            && self.none_material.wf()
    }

    /// Returns new material container.
    pub fn new() -> (r: MaterialContainer)
        ensures
            r.materials@.len() == 0,
            r.wf(),
    {
        MaterialContainer {
            materials: Vec::new(),
            none_material: Material::Metalic {
                albedo: V3 { x: 52429, y: 52429, z: 58982 },
                fuzz: 65536,
            },
        }
    }

    /// Adds a new material to the container; returns its handle.
    pub fn add(&mut self, mat: Material) -> (r: usize)
        requires
            mat.wf(),
            old(self).wf(),
        ensures
            final(self).materials@ == old(self).materials@.push(mat),
            final(self).none_material == old(self).none_material,
            final(self).wf(),
            r == old(self).materials@.len(),
    {
        self.materials.push(mat);
        proof {
            assert forall|i: int| 0 <= i < self.materials@.len() implies
                (#[trigger] self.materials@[i]).wf() by {
                if i < self.materials@.len() - 1 {
                    assert(self.materials@[i] == old(self).materials@[i]);
                }
            }
        }
        self.materials.len() - 1
    }

    /// Returns the material under the handle, or the default material when
    /// no insertion produced the handle.
    pub fn get(&self, index: usize) -> (r: &Material)
        ensures
            *r == get_spec(*self, index),
    {
        if index < self.materials.len() {
            &self.materials[index]
        } else {
            &self.none_material
        }
    }
}

} // verus!
