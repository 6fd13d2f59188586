//! Geometry, box and traversal tests.

use pathtracer::aabb::Aabb;
use pathtracer::hitables::{BvhNode, HitableList, Primitive};
use pathtracer::interval::Interval;
use pathtracer::primitive::{MovingSphere, Sphere};
use pathtracer::ray::{Ray, RaySetting};
use pathtracer::rng::RngHandle;
use pathtracer::vec3::V3;

const S: i64 = 65536;

fn setting() -> RaySetting {
    RaySetting {
        background_color: V3::new(0, 0, 0),
        depth: 8,
        ray_time: Interval { min: 66, max: 2048 * S },
    }
}

fn ray(origin: V3, end: V3) -> Ray {
    Ray { origin, end, time: 0, setting: setting() }
}

#[test]
fn union_commutative_and_contains() {
    let a = Aabb {
        x: Interval { min: -S, max: S },
        y: Interval { min: 0, max: 2 * S },
        z: Interval { min: -3 * S, max: -S },
    };
    let b = Aabb {
        x: Interval { min: 0, max: 4 * S },
        y: Interval { min: -S, max: S },
        z: Interval { min: -2 * S, max: 0 },
    };
    let ab = a.surrounding_box(b);
    let ba = b.surrounding_box(a);
    assert_eq!(ab, ba);
    assert!(ab.x.min <= a.x.min && a.x.max <= ab.x.max);
    assert!(ab.y.min <= b.y.min && b.y.max <= ab.y.max);
    let c = Aabb {
        x: Interval { min: 9 * S, max: 10 * S },
        y: Interval { min: 9 * S, max: 10 * S },
        z: Interval { min: 9 * S, max: 10 * S },
    };
    assert_eq!(a.surrounding_box(b).surrounding_box(c), a.surrounding_box(b.surrounding_box(c)));
}

#[test]
fn pad_grows_thin_axis_to_threshold() {
    let thin = Aabb {
        x: Interval { min: 0, max: 2 },
        y: Interval { min: 0, max: S },
        z: Interval { min: 5, max: 5 },
    };
    let p = thin.pad();
    assert_eq!(p.x.max - p.x.min, 8);
    assert_eq!(p.z.max - p.z.min, 8);
    assert_eq!(p.y.min, 0);
    assert_eq!(p.y.max, S);
    assert!(p.x.min <= 0 && p.x.max >= 2);
}

#[test]
fn unit_sphere_hit_distance() {
    // A sphere of diameter one unit, struck from five units out along -z:
    // the hit stands at parameter 4.5.
    let s = Sphere::new(V3::new(0, 0, 0), S / 2, 0);
    let r = ray(V3::new(0, 0, 5 * S), V3::new(0, 0, -S));
    let h = s.hit(&r).unwrap();
    assert_eq!(h.t, 4 * S + S / 2);
    assert!(h.front_face);

    let off = ray(V3::new(2 * S, 0, 5 * S), V3::new(0, 0, -S));
    assert!(s.hit(&off).is_none());
}

fn random_scene(n: usize, rng: &mut rand::rngs::ThreadRng) -> HitableList {
    let mut list = HitableList::new();
    for i in 0..n {
        let cx = rand::RngExt::random_range(&mut *rng, -50i64..50) * S + i as i64;
        let cy = rand::RngExt::random_range(&mut *rng, -50i64..50) * S;
        let cz = rand::RngExt::random_range(&mut *rng, -50i64..50) * S;
        let rad = rand::RngExt::random_range(&mut *rng, 1i64..5) * S / 2 + i as i64 + 1;
        list.add(Primitive::Sphere(Sphere::new(V3::new(cx, cy, cz), rad, i)));
    }
    list
}

#[test]
fn bvh_matches_linear_scan() {
    let mut trng = rand::rng();
    let mut rng = RngHandle::new();
    for &n in &[1usize, 2, 3, 100] {
        let list = random_scene(n, &mut trng);
        let tree = Primitive::BvhNode(BvhNode::new(&list, &mut rng));
        for _ in 0..50 {
            let o = V3::new(
                rand::RngExt::random_range(&mut trng, -80i64..80) * S,
                rand::RngExt::random_range(&mut trng, -80i64..80) * S,
                rand::RngExt::random_range(&mut trng, -80i64..80) * S,
            );
            let d = V3::new(
                rand::RngExt::random_range(&mut trng, -S..S),
                rand::RngExt::random_range(&mut trng, -S..S),
                rand::RngExt::random_range(&mut trng, -S..S),
            );
            if d.x == 0 && d.y == 0 && d.z == 0 {
                continue;
            }
            let r = ray(o, d);
            let from_tree = tree.hit(&r, &mut rng);
            let from_scan = list.hit(&r, &mut rng);
            match (from_tree, from_scan) {
                (None, None) => {},
                (Some(a), Some(b)) => assert_eq!(a.t, b.t),
                (a, b) => panic!("tree and scan disagree: {:?} vs {:?}", a.is_some(), b.is_some()),
            }
        }
    }
}

#[test]
fn translated_entity_matches_shifted_ray() {
    let mut rng = RngHandle::new();
    let s = Sphere::new(V3::new(0, 0, 0), S, 7);
    let offset = V3::new(3 * S, -2 * S, S);
    let moved = Primitive::Sphere(s).translate(offset);

    let r_at = ray(V3::new(3 * S, -2 * S, 6 * S), V3::new(0, 0, -S));
    let r_local = ray(V3::new(0, 0, 5 * S), V3::new(0, 0, -S));

    let ht = moved.hit(&r_at, &mut rng).unwrap();
    let hl = Sphere::new(V3::new(0, 0, 0), S, 7).hit(&r_local).unwrap();
    assert_eq!(ht.t, hl.t);
    assert_eq!(ht.point.x, hl.point.x + offset.x);
    assert_eq!(ht.point.y, hl.point.y + offset.y);
    assert_eq!(ht.point.z, hl.point.z + offset.z);
}

#[test]
fn flip_face_swaps_classification() {
    let mut rng = RngHandle::new();
    let s = Primitive::Sphere(Sphere::new(V3::new(0, 0, 0), S, 0));
    let flipped = s.flip_face();
    let r = ray(V3::new(0, 0, 5 * S), V3::new(0, 0, -S));
    let h = flipped.hit(&r, &mut rng).unwrap();
    assert!(!h.front_face);
}

#[test]
fn medium_scatters_inside_boundary_or_not_at_all() {
    let mut rng = RngHandle::new();
    let boxed = pathtracer::primitive::HitBox::new(
        V3::new(-2 * S, -2 * S, -2 * S),
        V3::new(2 * S, 2 * S, 2 * S),
        0,
    );
    let medium = Primitive::HitBox(boxed).into_constant_medium(S, 1);
    let r = ray(V3::new(0, 0, 10 * S), V3::new(0, 0, -S));
    for _ in 0..200 {
        if let Some(h) = medium.hit(&r, &mut rng) {
            assert!(h.t >= 66);
            assert!(h.t <= 13 * S);
            assert_eq!(h.material, 1);
        }
    }
}

#[test]
fn moving_sphere_follows_its_centers() {
    let s = MovingSphere::new(
        (V3::new(0, 0, 0), V3::new(4 * S, 0, 0)),
        (0, 4 * S),
        S,
        0,
    );
    // At the start of the motion the sphere stands at the origin.
    let mut r_early = ray(V3::new(0, 0, 5 * S), V3::new(0, 0, -S));
    r_early.time = 0;
    assert!(s.hit(&r_early).is_some());
    // At the same moment nothing stands at the end position.
    let mut r_far = ray(V3::new(4 * S, 0, 5 * S), V3::new(0, 0, -S));
    r_far.time = 0;
    assert!(s.hit(&r_far).is_none());
    // At the end of the motion the situation is reversed.
    let mut r_late = ray(V3::new(4 * S, 0, 5 * S), V3::new(0, 0, -S));
    r_late.time = 4 * S;
    assert!(s.hit(&r_late).is_some());
}

#[test]
fn zero_angle_rotation_changes_nothing() {
    let mut rng = RngHandle::new();
    let plain = Primitive::Sphere(Sphere::new(V3::new(2 * S, 0, 0), S, 3));
    let rotated = Primitive::Sphere(Sphere::new(V3::new(2 * S, 0, 0), S, 3))
        .rotate(V3::new(0, S, 0), 0, S);
    let r = ray(V3::new(2 * S, 0, 5 * S), V3::new(0, 0, -S));
    let a = plain.hit(&r, &mut rng).unwrap();
    let b = rotated.hit(&r, &mut rng).unwrap();
    assert_eq!(a.t, b.t);
    assert_eq!((a.point.x, a.point.y, a.point.z), (b.point.x, b.point.y, b.point.z));
}

#[test]
fn vector_arithmetic_exact_values() {
    let a = V3::new(2 * S, -3 * S, S / 2);
    let b = V3::new(S, S, 4 * S);
    let d = a.dot(b);
    assert_eq!(d, 2 * S - 3 * S + 2 * S);
    let c = V3::new(S, 0, 0).cross(V3::new(0, S, 0));
    assert_eq!((c.x, c.y, c.z), (0, 0, S));
    assert_eq!(V3::new(3 * S, 0, 4 * S).length(), 5 * S);
    let n = V3::new(0, 0, 9 * S).norm();
    assert_eq!((n.x, n.y, n.z), (0, 0, S));
    assert_eq!(a.min(b).y, -3 * S);
    assert_eq!(a.max(b).z, 4 * S);
    assert_eq!(b.min_component(), S);
    assert_eq!(a.max_component(), 2 * S);
    assert!(V3::new(0, 0, 0).near_zero());
    assert!(!V3::new(1, 0, 0).near_zero());
    let ry = V3::new(S, 0, 0).rot_y(S, 0);
    assert_eq!((ry.x, ry.y, ry.z), (0, 0, -S));
}

#[test]
fn moving_sphere_rejects_roots_on_the_interval_edge() {
    // With the parameter interval pinched to exactly the first root, the
    // static sphere (closed interval) reports the hit while the moving
    // sphere (open interval) reports none.
    let st = RaySetting {
        background_color: V3::new(0, 0, 0),
        depth: 8,
        ray_time: Interval { min: 4 * S, max: 4 * S },
    };
    let r = Ray { origin: V3::new(0, 0, 5 * S), end: V3::new(0, 0, -S), time: 0, setting: st };

    let fixed = Sphere::new(V3::new(0, 0, 0), S, 0);
    let hit = fixed.hit(&r).expect("closed interval accepts the root");
    assert_eq!(hit.t, 4 * S);

    let moving = MovingSphere::new(
        (V3::new(0, 0, 0), V3::new(0, 0, 0)),
        (0, S),
        S,
        0,
    );
    assert!(moving.hit(&r).is_none());
}
