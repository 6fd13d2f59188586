//! Hit events, created when a ray strikes an entity.

use vstd::prelude::*;

use crate::math::{scale, tdiv};
use crate::ray::Ray;
use crate::vec3::{dot_raw, V3};

verus! {

/// Hit event, created when ray hits some object.
#[derive(Copy, Clone, Debug, PartialEq, Eq, Structural)]
pub struct Hit {
    /// Ray parameter at which the collision occurred.
    pub t: i64,
    /// Point on the object where hit occurred.
    pub point: V3,
    /// Normal vector to the surface where hit occurred, oriented against
    /// the incoming ray.
    pub normal: V3,
    /// Object hit material index.
    pub material: usize,
    /// First position on the texture.
    pub u: i64,
    /// Second position on the texture.
    pub v: i64,
    /// True if ray hit the object from the exterior.
    pub front_face: bool,
}

/// The ray meets the surface from outside: its direction points against the
/// outward normal.
pub open spec fn front_face_spec(r: Ray, outward_normal: V3) -> bool {
    tdiv(dot_raw(r.end, outward_normal), scale()) < 0
}

/// The hit record [`Hit::new`] builds: the outward normal is kept on front
/// faces and reversed on back faces, so it always opposes the ray.
pub open spec fn hit_spec(
    r: Ray,
    outward_normal: V3,
    t: i64,
    point: V3,
    material: usize,
    u: i64,
    v: i64,
) -> Hit {
    Hit {
        t,
        point,
        normal: if front_face_spec(r, outward_normal) {
            outward_normal
        } else {
            V3 {
                x: (-outward_normal.x) as i64,
                y: (-outward_normal.y) as i64,
                z: (-outward_normal.z) as i64,
            }
        },
        material,
        u,
        v,
        front_face: front_face_spec(r, outward_normal),
    }
}

impl Hit {
    /// Method to create new hit struct; it imposes a normal vector oriented
    /// against the incoming ray and records on which side the hit fell.
    pub fn new(
        r: &Ray,
        outward_normal: V3,
        t: i64,
        point: V3,
        material: usize,
        u: i64,
        v: i64,
    ) -> (h: Hit)
        requires
            r.end.in_range(),
            outward_normal.in_range(),
        ensures
            h == hit_spec(*r, outward_normal, t, point, material, u, v),
    {
        let front_face = r.end.dot(outward_normal) < 0;
        let normal = if front_face {
            outward_normal
        } else {
            outward_normal.neg()
        };

        Hit { t, point, normal, material, u, v, front_face }
    }

    /// Returns hit event with front face attribute flipped, making a hit
    /// from the interior count as one from the exterior and vice versa.
    pub fn flip_front_face(self) -> (h: Hit)
        ensures
            h == (Hit { front_face: !self.front_face, ..self }),
    {
        Hit { front_face: !self.front_face, ..self }
    }
}

} // verus!
