//! Material, sampling and end-to-end estimator tests.

use pathtracer::camera::Camera;
use pathtracer::hitables::{BvhNode, Face, HitableList, Mesh, MeshData, Primitive};
use pathtracer::interval::Interval;
use pathtracer::material::{reflect, schlick, Material, MaterialContainer};
use pathtracer::onb::Onb;
use pathtracer::pdf::{mixture_generate, Pdf};
use pathtracer::primitive::{Sphere, XZrect};
use pathtracer::ray::{Ray, RaySetting};
use pathtracer::render::{ImageConfig, Scene};
use pathtracer::rng::RngHandle;
use pathtracer::texture::Texture;
use pathtracer::transform::neg_ln;
use pathtracer::vec3::V3;

const S: i64 = 65536;

fn setting(depth: u16, background: V3) -> RaySetting {
    RaySetting {
        background_color: background,
        depth,
        ray_time: Interval { min: 66, max: 2048 * S },
    }
}

fn camera() -> Camera {
    Camera::new(
        V3::new(0, 0, 5 * S),
        V3::new(0, 0, 0),
        V3::new(0, S, 0),
        S,
        S,
        0,
        S,
        0,
        S,
    )
}

#[test]
fn background_only_at_depth_zero() {
    // A single diffuse sphere with recursion depth zero: rays that miss
    // take the background, rays that strike the sphere gather no light.
    let background = V3::new(S / 2, 7 * S / 10, S);
    let mut materials = MaterialContainer::new();
    let m = materials.add(Material::Lambertian {
        albedo: Texture::Constant(V3::new(S / 2, S / 2, S / 2)),
    });
    let mut list = HitableList::new();
    list.add(Primitive::Sphere(Sphere::new(V3::new(0, 0, 0), S, m)));
    let mut rng = RngHandle::new();
    let world = Primitive::BvhNode(BvhNode::new(&list, &mut rng));
    let scene = Scene { camera: camera(), world, lights: None, materials };

    let st = setting(0, background);
    let miss = Ray { origin: V3::new(10 * S, 0, 5 * S), end: V3::new(0, 0, -S), time: 0, setting: st };
    let c = scene.get_color(&miss, &mut rng);
    assert_eq!((c.x, c.y, c.z), (background.x, background.y, background.z));

    let hit = Ray { origin: V3::new(0, 0, 5 * S), end: V3::new(0, 0, -S), time: 0, setting: st };
    let c = scene.get_color(&hit, &mut rng);
    assert_eq!((c.x, c.y, c.z), (0, 0, 0));
}

#[test]
fn emissive_rectangle_returns_its_color() {
    // A lone emissive face: rays that strike its lit side read its color,
    // all other rays read the background.
    let background = V3::new(S / 4, S / 4, S / 4);
    let emitted = V3::new(S, S / 2, S / 4);
    let mut materials = MaterialContainer::new();
    let m = materials.add(Material::LightSource { albedo: Texture::Constant(emitted) });
    let mut list = HitableList::new();
    list.add(Primitive::XZrect(XZrect::new(-S, S, -S, S, 0, m)));
    let mut rng = RngHandle::new();
    let world = Primitive::BvhNode(BvhNode::new(&list, &mut rng));
    let scene = Scene { camera: camera(), world, lights: None, materials };

    let st = setting(8, background);
    let from_above = Ray { origin: V3::new(0, 5 * S, 0), end: V3::new(0, -S, 0), time: 0, setting: st };
    let c = scene.get_color(&from_above, &mut rng);
    assert_eq!((c.x, c.y, c.z), (emitted.x, emitted.y, emitted.z));

    let miss = Ray { origin: V3::new(10 * S, 5 * S, 0), end: V3::new(0, S, 0), time: 0, setting: st };
    let c = scene.get_color(&miss, &mut rng);
    assert_eq!((c.x, c.y, c.z), (background.x, background.y, background.z));
}

#[test]
fn total_internal_reflection_always_reflects() {
    // Inside glass, past the critical angle: every stochastic trial takes
    // the mirror branch.
    let mut rng = RngHandle::new();
    let glass = Material::Dielectric { refractive_index: 3 * S / 2 };
    let st = setting(8, V3::new(0, 0, 0));
    // A shallow grazing direction against a +z normal, hit from inside.
    let dir = V3::new(60000, 0, -20000);
    let ray = Ray { origin: V3::new(0, 0, 0), end: dir, time: 0, setting: st };
    let hit = pathtracer::hit::Hit {
        t: S,
        point: V3::new(0, 0, 0),
        normal: V3::new(0, 0, S),
        material: 0,
        u: 0,
        v: 0,
        front_face: false,
    };
    let unit = dir.norm();
    let expected = reflect(unit, hit.normal);
    for _ in 0..200 {
        let sr = glass.scatter(&ray, &hit, &mut rng).unwrap();
        let sp = sr.specular_ray.unwrap();
        assert_eq!((sp.end.x, sp.end.y, sp.end.z), (expected.x, expected.y, expected.z));
    }
}

#[test]
fn cosine_pdf_mean_cosine_positive_and_integrates_to_one() {
    let mut rng = RngHandle::new();
    let normal = V3::new(0, 0, S);
    let onb = Onb::build_from_w(&normal);
    let pdf = Pdf::Cosine(onb);
    let mut mean_cos: i64 = 0;
    let n = 2000;
    for _ in 0..n {
        let d = pdf.generate(V3::new(0, 0, 0), &mut rng);
        if d.x == 0 && d.y == 0 && d.z == 0 {
            continue;
        }
        let c = d.norm().dot(normal);
        mean_cos += c;
    }
    mean_cos /= n;
    assert!(mean_cos > S / 4, "mean cosine {} too small", mean_cos);

    // Monte-Carlo integral of the density over the sphere: uniform
    // directions, averaged value times the sphere's solid angle.
    let mut acc: i64 = 0;
    for _ in 0..4000 {
        let d = pathtracer::sampling::get_point_on_sphere(&mut rng);
        acc += pdf.value(V3::new(0, 0, 0), d);
    }
    let mean = acc / 4000;
    // 4 * pi * mean / S should be near one unit.
    let integral = 4 * 205887 * mean / S;
    assert!(integral > S / 2 && integral < 2 * S, "integral {}", integral);
}

#[test]
fn mixture_picks_each_source_about_half_the_time() {
    let mut rng = RngHandle::new();
    let mut lights = HitableList::new();
    lights.add(Primitive::XZrect(XZrect::new(-S, S, -S, S, 5 * S, 0)));
    let zero = Pdf::Zero;
    let mut from_zero = 0usize;
    let n = 4000;
    for _ in 0..n {
        let d = mixture_generate(&lights, &zero, V3::new(0, 0, 0), &mut rng);
        if d.x == 0 && d.y == 0 && d.z == 0 {
            from_zero += 1;
        }
    }
    // Five standard deviations around an even split.
    let sd5 = 160;
    assert!(from_zero > n / 2 - sd5 && from_zero < n / 2 + sd5, "picked {} of {}", from_zero, n);
}

#[test]
fn neg_ln_exact_midpoint() {
    assert_eq!(neg_ln(32768), 43690);
    assert_eq!(neg_ln(65535), 1);
}

#[test]
fn schlick_exact_at_normal_incidence() {
    assert_eq!(schlick(S, 3 * S / 2), 2621);
}

#[test]
fn rng_below_stays_under_bound() {
    let mut rng = RngHandle::new();
    let mut seen_small = false;
    for _ in 0..1000 {
        let v = rng.below(10);
        assert!(v < 10);
        if v < 5 {
            seen_small = true;
        }
    }
    assert!(seen_small);
}

#[test]
fn render_produces_image_of_requested_size() {
    let mut materials = MaterialContainer::new();
    let m = materials.add(Material::Lambertian {
        albedo: Texture::Constant(V3::new(S / 2, S / 2, S / 2)),
    });
    let mut list = HitableList::new();
    list.add(Primitive::Sphere(Sphere::new(V3::new(0, 0, 0), S, m)));
    let mut rng = RngHandle::new();
    let world = Primitive::BvhNode(BvhNode::new(&list, &mut rng));
    let scene = Scene { camera: camera(), world, lights: None, materials };
    let config = ImageConfig {
        nx: 8,
        ny: 6,
        samples_per_pixel: 2,
        ray_setting: setting(2, V3::new(S / 2, 7 * S / 10, S)),
    };
    let img = scene.render(config);
    assert_eq!(img.height, 6);
    assert_eq!(img.width, 8);
}

#[test]
fn mesh_rejects_bad_indices() {
    let mut rng = RngHandle::new();
    let data = MeshData {
        vertices: vec![V3::new(0, 0, 0), V3::new(S, 0, 0), V3::new(0, S, 0)],
        normals: vec![],
        faces: vec![Face { v: (0, 1, 5), n: None }],
    };
    assert!(Mesh::new(&data, 0, &mut rng).is_err());

    let good = MeshData {
        vertices: vec![V3::new(0, 0, 0), V3::new(S, 0, 0), V3::new(0, S, 0)],
        normals: vec![],
        faces: vec![Face { v: (0, 1, 2), n: None }],
    };
    assert!(Mesh::new(&good, 0, &mut rng).is_ok());
}

#[test]
fn uniform_pdf_density_is_one_over_sphere_area() {
    // The isotropic density over the full sphere: 1 / (4 * pi), about
    // 0.0796 of a unit.
    let pdf = Pdf::Uniform;
    assert_eq!(pdf.value(V3::new(0, 0, 0), V3::new(0, 0, S)), 5215);
}

#[test]
fn translated_and_flipped_lights_forward_their_density() {
    // A face's density must survive a translation, evaluated from the
    // equally shifted origin, and a face flip untouched.
    let plain = Primitive::XZrect(XZrect::new(-S, S, -S, S, 5 * S, 0));
    let origin = V3::new(0, 0, 0);
    let dir = V3::new(0, S, 0);
    let base = plain.value(origin, dir);
    assert!(base > 0);

    let offset = V3::new(3 * S, 0, 0);
    let moved = Primitive::XZrect(XZrect::new(-S, S, -S, S, 5 * S, 0)).translate(offset);
    assert_eq!(moved.value(V3::new(3 * S, 0, 0), dir), base);

    let flipped = Primitive::XZrect(XZrect::new(-S, S, -S, S, 5 * S, 0)).flip_face();
    assert_eq!(flipped.value(origin, dir), base);
}

#[test]
fn rectangle_generate_lands_on_the_face() {
    let mut rng = RngHandle::new();
    let rect = Primitive::XZrect(XZrect::new(-S, S, -S, S, 5 * S, 0));
    let origin = V3::new(S / 2, -S, S / 3);
    for _ in 0..200 {
        let d = rect.generate(origin, &mut rng);
        let p = V3::new(origin.x + d.x, origin.y + d.y, origin.z + d.z);
        assert_eq!(p.y, 5 * S);
        assert!(-S <= p.x && p.x < S);
        assert!(-S <= p.z && p.z < S);
    }
}
