//! The closed set of intersectable entities: primitive shapes, structural
//! wrappers, lists and the bounding-volume tree.

use vstd::prelude::*;

use crate::aabb::{box_wf, slab_hit, union_box, Aabb};
use crate::hit::{hit_spec as make_hit_spec, Hit};
use crate::interval::Interval;
use crate::math::{abs, scale, tdiv};
use crate::primitive::{
    nearer, nearer_opt, HitBox, MovingSphere, Sphere, Triangle, XYrect, XZrect, YZrect,
};
use crate::ray::{Ray, RaySetting, TMAX};
use crate::rng::RngHandle;
use crate::transform::{ConstantMedium, FlipFace, Rotated, Translated};
use crate::vec3::{add_spec, bounded, cmax, neg_spec, rot_spec, sub_spec, V3};

verus! {

/// A hittable entity: a tagged union of the primitive shapes and the
/// structural wrappers around them.
#[derive(Debug)]
pub enum Primitive {
    /// A sphere.
    Sphere(Sphere),
    /// A sphere moving between two centers over a time range.
    MovingSphere(MovingSphere),
    /// A rectangle in an XY plane.
    XYrect(XYrect),
    /// A rectangle in an XZ plane.
    XZrect(XZrect),
    /// A rectangle in a YZ plane.
    YZrect(YZrect),
    /// A triangle.
    Triangle(Triangle),
    /// A cuboid of six rectangles.
    HitBox(HitBox),
    /// A mesh of triangles behind its own bounding-volume tree.
    Mesh(Mesh),
    /// An inner node of a bounding-volume tree.
    BvhNode(BvhNode),
    /// An entity whose front and back faces are swapped.
    FlipFace(FlipFace),
    /// An entity rotated around an axis.
    Rotated(Rotated),
    /// An entity shifted by an offset.
    Translated(Translated),
    /// A bounded entity reinterpreted as a homogeneous scattering medium.
    ConstantMedium(ConstantMedium),
}

/// Inner node of a bounding-volume tree: owns two children and caches the
/// box around both.
#[derive(Debug)]
pub struct BvhNode {
    /// The union box of both children.
    pub boxx: Aabb,
    /// Left child.
    pub left: Box<Primitive>,
    /// Right child.
    pub right: Box<Primitive>,
}

/// A triangle mesh: its triangles behind a private bounding-volume tree,
/// exposed as one opaque bounded entity.
#[derive(Debug)]
pub struct Mesh {
    /// The tree over the mesh's triangles.
    pub triangles: Box<Primitive>,
    /// The box around all triangles.
    pub bounding_box: Aabb,
}

/// Hitable objects aggregated into a list: the scene container handed to
/// the tree builder, and the collection of light-emitting entities.
#[derive(Debug)]
pub struct HitableList {
    /// Underlying list of hitable objects.
    pub list: Vec<Primitive>,
}

/// Every field of the entity is representable, and every stored box is a
/// valid box.
pub open spec fn prim_wf(p: Primitive) -> bool
    decreases p,
{
    match p {
        Primitive::Sphere(s) => s.wf(),
        Primitive::MovingSphere(s) => s.wf(),
        Primitive::XYrect(r) => r.wf(),
        Primitive::XZrect(r) => r.wf(),
        Primitive::YZrect(r) => r.wf(),
        Primitive::Triangle(t) => t.wf(),
        Primitive::HitBox(b) => b.wf(),
        Primitive::Mesh(m) => prim_wf(*m.triangles) && box_wf(m.bounding_box),
        Primitive::BvhNode(b) => prim_wf(*b.left) && prim_wf(*b.right) && box_wf(b.boxx)
            && b.boxx == union_box(bounding_box_spec(*b.left), bounding_box_spec(*b.right)),
        Primitive::FlipFace(f) => prim_wf(*f.hittable),
        Primitive::Rotated(r) => prim_wf(*r.hittable) && r.axis.in_range() && !(r.axis.x == 0
            && r.axis.y == 0 && r.axis.z == 0) && abs(r.sin_theta as int) <= 65536
            && abs(r.cos_theta as int) <= 65536 && box_wf(r.bounding_box),
        Primitive::Translated(t) => prim_wf(*t.hittable) && t.offset.in_range(),
        Primitive::ConstantMedium(m) => prim_wf(*m.boundary) && m.neg_inv_density < 0
            && abs(m.neg_inv_density as int) <= 0x1_0000_0000,
    }
}

/// No participating medium occurs in the entity: its intersection draws no
/// randomness, so it is a function of the ray alone.
pub open spec fn media_free(p: Primitive) -> bool
    decreases p,
{
    match p {
        Primitive::Mesh(m) => media_free(*m.triangles),
        Primitive::BvhNode(b) => media_free(*b.left) && media_free(*b.right),
        Primitive::FlipFace(f) => media_free(*f.hittable),
        Primitive::Rotated(r) => media_free(*r.hittable),
        Primitive::Translated(t) => media_free(*t.hittable),
        Primitive::ConstantMedium(_) => false,
        _ => true,
    }
}

/// No rotation wrapper stands on the entity's density-forwarding chain.
/// Density evaluation and direction sampling are not forwarded through a
/// rotation, so a rotated light source is rejected at the call site rather
/// than silently given a wrong density.
pub open spec fn rotation_free(p: Primitive) -> bool
    decreases p,
{
    match p {
        Primitive::Rotated(_) => false,
        Primitive::Translated(t) => rotation_free(*t.hittable),
        Primitive::FlipFace(f) => rotation_free(*f.hittable),
        _ => true,
    }
}

/// Every entity in the sequence is free of rotation wrappers on its
/// density-forwarding chain.
pub open spec fn all_rotation_free(s: Seq<Primitive>) -> bool {
    forall|i: int| 0 <= i < s.len() ==> rotation_free(#[trigger] s[i])
}

/// What a media-free entity reports for a ray: each shape by its own
/// intersection rule; the tree node tests its box and returns the nearer of
/// its children's results; wrappers adjust the ray going in and the hit
/// coming out.
pub open spec fn hit_spec(p: Primitive, ray: Ray) -> Option<Hit>
    decreases p, 0int,
{
    match p {
        Primitive::Sphere(s) => crate::primitive::sphere_hit_spec(s.center, s.radius,
            s.material, ray),
        Primitive::MovingSphere(s) => s.hit_sphere_spec(ray),
        Primitive::XYrect(r) => r.hit_rect_spec(ray),
        Primitive::XZrect(r) => r.hit_rect_spec(ray),
        Primitive::YZrect(r) => r.hit_rect_spec(ray),
        Primitive::Triangle(t) => t.hit_tri_spec(ray),
        Primitive::HitBox(b) => b.hit_box_spec(ray),
        Primitive::Mesh(m) => hit_spec(*m.triangles, ray),
        Primitive::BvhNode(b) => if slab_hit(b.boxx, ray.origin, ray.end) {
            nearer_opt(hit_spec(*b.left, ray), hit_spec(*b.right, ray))
        } else {
            None
        },
        Primitive::FlipFace(f) => match hit_spec(*f.hittable, ray) {
            Some(h) => Some(Hit { front_face: !h.front_face, ..h }),
            None => None,
        },
        Primitive::Rotated(r) => rotated_hit_spec(r, ray),
        Primitive::Translated(t) => translated_hit_spec(t, ray),
        Primitive::ConstantMedium(_) => arbitrary(),
    }
}

/// A translated entity's hit: the ray is shifted into the child's frame,
/// and the hit point is shifted back.  An origin that leaves the coordinate
/// range is a miss.
pub open spec fn translated_hit_spec(t: Translated, ray: Ray) -> Option<Hit>
    decreases *t.hittable, 1int,
{
    let o2 = sub_spec(ray.origin, t.offset);
    if !bounded(o2, cmax()) {
        None
    } else {
        match hit_spec(*t.hittable, Ray { origin: o2, ..ray }) {
            Some(h) => if !bounded(h.point, 0x3fff_ffff_c000_0000) {
                None
            } else if !bounded(add_spec(h.point, t.offset), 0x4000_0000_0000_0000) {
                None
            } else {
                Some(Hit { point: add_spec(h.point, t.offset), ..h })
            },
            None => None,
        }
    }
}

/// A rotated entity's hit: the ray is rotated into the child's frame, and
/// the hit's point and normal are rotated back.  Values that leave the
/// coordinate range are a miss.
pub open spec fn rotated_hit_spec(r: Rotated, ray: Ray) -> Option<Hit>
    decreases *r.hittable, 1int,
{
    let o2 = rot_spec(ray.origin, neg_spec(r.axis), r.sin_theta as int, r.cos_theta as int);
    let e2 = rot_spec(ray.end, neg_spec(r.axis), r.sin_theta as int, r.cos_theta as int);
    if !(bounded(o2, cmax()) && bounded(e2, cmax())) {
        None
    } else {
        let ray2 = Ray { origin: o2, end: e2, ..ray };
        match hit_spec(*r.hittable, ray2) {
            Some(h) => if !(bounded(h.normal, cmax()) && bounded(h.point, cmax())) {
                None
            } else {
                let n2 = rot_spec(h.normal, r.axis, r.sin_theta as int, r.cos_theta as int);
                let p2 = rot_spec(h.point, r.axis, r.sin_theta as int, r.cos_theta as int);
                if !(bounded(n2, cmax()) && bounded(p2, cmax())) {
                    None
                } else {
                    Some(make_hit_spec(ray2, n2, h.t, p2, h.material, h.u, h.v))
                }
            },
            None => None,
        }
    }
}

/// The box each entity reports: primitives bound themselves; trees, meshes
/// and rotations return their cached box; the flip wrapper passes its
/// child's box through; the translation shifts its child's box; the medium
/// bounds as its boundary does.
pub open spec fn bounding_box_spec(p: Primitive) -> Aabb
    decreases p,
{
    match p {
        Primitive::Sphere(s) => s.bounding_box_spec(),
        Primitive::MovingSphere(s) => s.bounding_box_spec(),
        Primitive::XYrect(r) => r.bounding_box_spec(),
        Primitive::XZrect(r) => r.bounding_box_spec(),
        Primitive::YZrect(r) => r.bounding_box_spec(),
        Primitive::Triangle(t) => t.bounding_box_spec(),
        Primitive::HitBox(b) => b.bounding_box_spec(),
        Primitive::Mesh(m) => m.bounding_box,
        Primitive::BvhNode(b) => b.boxx,
        Primitive::FlipFace(f) => bounding_box_spec(*f.hittable),
        Primitive::Rotated(r) => r.bounding_box,
        Primitive::Translated(t) => shift_box_spec(bounding_box_spec(*t.hittable), t.offset),
        Primitive::ConstantMedium(m) => bounding_box_spec(*m.boundary),
    }
}

/// A box shifted by an offset, each bound clamped to the representable box
/// range.
pub open spec fn shift_box_spec(b: Aabb, off: V3) -> Aabb {
    Aabb {
        x: Interval {
            min: clamp_spec(b.x.min + off.x),
            max: clamp_spec(b.x.max + off.x),
        },
        y: Interval {
            min: clamp_spec(b.y.min + off.y),
            max: clamp_spec(b.y.max + off.y),
        },
        z: Interval {
            min: clamp_spec(b.z.min + off.z),
            max: clamp_spec(b.z.max + off.z),
        },
    }
}

/// A scalar clamped to the representable box range.
pub open spec fn clamp_spec(v: int) -> i64 {
    if v < -0x1_0000_0000 {
        (-0x1_0000_0000) as i64
    } else if v > 0x1_0000_0000 {
        0x1_0000_0000 as i64
    } else {
        v as i64
    }
}

/// Clamps a scalar to the representable box range.
fn clamp_exec(v: i64) -> (r: i64)
    ensures
        r == clamp_spec(v as int),
{
    if v < -0x1_0000_0000 {
        -0x1_0000_0000
    } else if v > 0x1_0000_0000 {
        0x1_0000_0000
    } else {
        v
    }
}

impl Primitive {
    /// Returns a Hit if the ray strikes the entity within its parameter
    /// interval.  On a media-free entity the result is the one
    /// [`hit_spec`] gives; an entity containing a participating medium
    /// draws its scatter distance from the generator, and what each draw
    /// yields is specified on [`ConstantMedium::hit`].
    pub fn hit(&self, ray: &Ray, rng: &mut RngHandle) -> (r: Option<Hit>)
        requires
            prim_wf(*self),
            ray.wf(),
        ensures
            media_free(*self) ==> r == hit_spec(*self, *ray),
        decreases *self, 1int,
    {
        match self {
            Primitive::Sphere(s) => s.hit(ray),
            Primitive::MovingSphere(s) => s.hit(ray),
            Primitive::XYrect(re) => re.hit(ray),
            Primitive::XZrect(re) => re.hit(ray),
            Primitive::YZrect(re) => re.hit(ray),
            Primitive::Triangle(t) => t.hit(ray),
            Primitive::HitBox(b) => b.hit(ray),
            Primitive::Mesh(m) => m.triangles.hit(ray, rng),
            Primitive::BvhNode(b) => {
                if b.boxx.hit(ray) {
                    let hit_right = b.right.hit(ray, rng);
                    let hit_left = b.left.hit(ray, rng);
                    match hit_left {
                        Some(hl) => match hit_right {
                            Some(hr) => if hl.t < hr.t {
                                Some(hl)
                            } else {
                                Some(hr)
                            },
                            None => Some(hl),
                        },
                        None => hit_right,
                    }
                } else {
                    None
                }
            },
            Primitive::FlipFace(f) => {
                let h = f.hittable.hit(ray, rng);
                match h {
                    Some(hh) => Some(hh.flip_front_face()),
                    None => None,
                }
            },
            Primitive::Rotated(ro) => {
                let na = ro.axis.neg();
                proof {
                    assert(na == neg_spec(ro.axis));
                }
                let o2 = ray.origin.rot(na, ro.sin_theta, ro.cos_theta);
                let e2 = ray.end.rot(na, ro.sin_theta, ro.cos_theta);
                proof {
                    assert(hit_spec(*self, *ray) == rotated_hit_spec(*ro, *ray));
                    assert(o2 == rot_spec(ray.origin, neg_spec(ro.axis),
                        ro.sin_theta as int, ro.cos_theta as int));
                    assert(e2 == rot_spec(ray.end, neg_spec(ro.axis),
                        ro.sin_theta as int, ro.cos_theta as int));
                }
                if !(o2.is_in_range() && e2.is_in_range()) {
                    proof {
                        assert(rotated_hit_spec(*ro, *ray) is None);
                    }
                    return None;
                }
                let ray2 = Ray { origin: o2, end: e2, ..*ray };
                let inner = ro.hittable.hit(&ray2, rng);
                proof {
                    if media_free(*self) {
                        assert(inner == hit_spec(*ro.hittable, ray2));
                    }
                }
                match inner {
                    Some(h) => {
                        if !(h.normal.is_in_range() && h.point.is_in_range()) {
                            return None;
                        }
                        let n2 = h.normal.rot(ro.axis, ro.sin_theta, ro.cos_theta);
                        let p2 = h.point.rot(ro.axis, ro.sin_theta, ro.cos_theta);
                        if !(n2.is_in_range() && p2.is_in_range()) {
                            return None;
                        }
                        Some(Hit::new(&ray2, n2, h.t, p2, h.material, h.u, h.v))
                    },
                    None => None,
                }
            },
            Primitive::Translated(tr) => {
                proof {
                    assert(ray.origin.x - tr.offset.x < 0x8000_0000_0000_0000
                        && -0x8000_0000_0000_0000 <= ray.origin.x - tr.offset.x);
                }
                let o2 = ray.origin.sub(tr.offset);
                proof {
                    assert(o2 == sub_spec(ray.origin, tr.offset));
                    assert(hit_spec(*self, *ray) == translated_hit_spec(*tr, *ray));
                }
                if !o2.is_in_range() {
                    proof {
                        assert(!bounded(sub_spec(*&ray.origin, tr.offset), cmax()));
                        assert(translated_hit_spec(*tr, *ray) is None);
                    }
                    return None;
                }
                let ray2 = Ray { origin: o2, ..*ray };
                let inner = tr.hittable.hit(&ray2, rng);
                proof {
                    if media_free(*self) {
                        assert(inner == hit_spec(*tr.hittable, ray2));
                    }
                }
                match inner {
                    Some(h) => {
                        if h.point.x > CMAX_SHIFT || h.point.x < -CMAX_SHIFT
                            || h.point.y > CMAX_SHIFT || h.point.y < -CMAX_SHIFT
                            || h.point.z > CMAX_SHIFT || h.point.z < -CMAX_SHIFT {
                            proof {
                                assert(!bounded(h.point, 0x3fff_ffff_c000_0000));
                            }
                            return None;
                        }
                        let p = h.point.add(tr.offset);
                        proof {
                            assert(p == add_spec(h.point, tr.offset));
                        }
                        if p.x > CMAX_WIDE || p.x < -CMAX_WIDE || p.y > CMAX_WIDE
                            || p.y < -CMAX_WIDE || p.z > CMAX_WIDE || p.z < -CMAX_WIDE {
                            None
                        } else {
                            Some(Hit { point: p, ..h })
                        }
                    },
                    None => None,
                }
            },
            Primitive::ConstantMedium(m) => m.hit(ray, rng),
        }
    }

    /// Returns bounding box of the entity.
    pub fn bounding_box(&self) -> (r: Aabb)
        requires
            prim_wf(*self),
        ensures
            r == bounding_box_spec(*self),
            box_wf(r),
        decreases *self,
    {
        match self {
            Primitive::Sphere(s) => s.bounding_box(),
            Primitive::MovingSphere(s) => s.bounding_box(),
            Primitive::XYrect(re) => re.bounding_box(),
            Primitive::XZrect(re) => re.bounding_box(),
            Primitive::YZrect(re) => re.bounding_box(),
            Primitive::Triangle(t) => t.bounding_box(),
            Primitive::HitBox(b) => b.bounding_box(),
            Primitive::Mesh(m) => m.bounding_box,
            Primitive::BvhNode(b) => b.boxx,
            Primitive::FlipFace(f) => f.hittable.bounding_box(),
            Primitive::Rotated(ro) => ro.bounding_box,
            Primitive::Translated(tr) => {
                let cb = tr.hittable.bounding_box();
                Aabb {
                    x: Interval {
                        min: clamp_exec(cb.x.min + tr.offset.x),
                        max: clamp_exec(cb.x.max + tr.offset.x),
                    },
                    y: Interval {
                        min: clamp_exec(cb.y.min + tr.offset.y),
                        max: clamp_exec(cb.y.max + tr.offset.y),
                    },
                    z: Interval {
                        min: clamp_exec(cb.z.min + tr.offset.z),
                        max: clamp_exec(cb.z.max + tr.offset.z),
                    },
                }
            },
            Primitive::ConstantMedium(m) => m.boundary.bounding_box(),
        }
    }

    /// A deep copy of the entity, equal to the original.
    pub fn duplicate(&self) -> (r: Primitive)
        ensures
            r == *self,
        decreases *self,
    {
        match self {
            Primitive::Sphere(s) => Primitive::Sphere(*s),
            Primitive::MovingSphere(s) => Primitive::MovingSphere(*s),
            Primitive::XYrect(re) => Primitive::XYrect(*re),
            Primitive::XZrect(re) => Primitive::XZrect(*re),
            Primitive::YZrect(re) => Primitive::YZrect(*re),
            Primitive::Triangle(t) => Primitive::Triangle(*t),
            Primitive::HitBox(b) => Primitive::HitBox(*b),
            Primitive::Mesh(m) => Primitive::Mesh(Mesh {
                triangles: Box::new(m.triangles.duplicate()),
                bounding_box: m.bounding_box,
            }),
            Primitive::BvhNode(b) => Primitive::BvhNode(BvhNode {
                boxx: b.boxx,
                left: Box::new(b.left.duplicate()),
                right: Box::new(b.right.duplicate()),
            }),
            Primitive::FlipFace(f) => Primitive::FlipFace(FlipFace {
                hittable: Box::new(f.hittable.duplicate()),
            }),
            Primitive::Rotated(ro) => Primitive::Rotated(Rotated {
                sin_theta: ro.sin_theta,
                cos_theta: ro.cos_theta,
                axis: ro.axis,
                bounding_box: ro.bounding_box,
                hittable: Box::new(ro.hittable.duplicate()),
            }),
            Primitive::Translated(tr) => Primitive::Translated(Translated {
                offset: tr.offset,
                hittable: Box::new(tr.hittable.duplicate()),
            }),
            Primitive::ConstantMedium(m) => Primitive::ConstantMedium(ConstantMedium {
                boundary: Box::new(m.boundary.duplicate()),
                phase_function: m.phase_function,
                neg_inv_density: m.neg_inv_density,
            }),
        }
    }
}

/// Largest coordinate a hit point may have before a shift.
pub const CMAX_SHIFT: i64 = 0x3fff_ffff_c000_0000;

/// Largest coordinate a shifted hit point may keep.
pub const CMAX_WIDE: i64 = 0x4000_0000_0000_0000;

/// The nearest hit over a list prefix, folded left to right; a later entity
/// wins a tie, as the original scan kept the last minimum.
pub open spec fn list_hit_spec(s: Seq<Primitive>, ray: Ray) -> Option<Hit>
    decreases s.len(),
{
    if s.len() == 0 {
        None
    } else {
        nearer_opt(list_hit_spec(s.drop_last(), ray), hit_spec(s.last(), ray))
    }
}

/// Every entity in the sequence is well formed.
pub open spec fn all_wf(s: Seq<Primitive>) -> bool {
    forall|i: int| 0 <= i < s.len() ==> prim_wf(#[trigger] s[i])
}

/// No entity in the sequence contains a participating medium.
pub open spec fn all_media_free(s: Seq<Primitive>) -> bool {
    forall|i: int| 0 <= i < s.len() ==> media_free(#[trigger] s[i])
}

impl HitableList {
    /// Every member entity is well formed.
    pub open spec fn wf(self) -> bool {
        all_wf(self.list@)
    }

    /// Creates new list.
    pub fn new() -> (r: HitableList)
        ensures
            r.list@.len() == 0,
            r.wf(),
    {
        HitableList { list: Vec::new() }
    }

    /// Adds object to the list.
    pub fn add(&mut self, object: Primitive)
        requires
            prim_wf(object),
            old(self).wf(),
        ensures
            final(self).list@ == old(self).list@.push(object),
            final(self).wf(),
    {
        self.list.push(object);
        proof {
            assert forall|i: int| 0 <= i < self.list@.len() implies
                prim_wf(#[trigger] self.list@[i]) by {
                if i < self.list@.len() - 1 {
                    assert(self.list@[i] == old(self).list@[i]);
                }
            }
        }
    }

    /// The nearest hit over all members, or nothing if no member is struck.
    pub fn hit(&self, ray: &Ray, rng: &mut RngHandle) -> (r: Option<Hit>)
        requires
            self.wf(),
            ray.wf(),
        ensures
            all_media_free(self.list@) ==> r == list_hit_spec(self.list@, *ray),
    {
        let mut best: Option<Hit> = None;
        let mut i: usize = 0;
        proof {
            assert(self.list@.take(0int) =~= Seq::<Primitive>::empty());
        }
        while i < self.list.len()
            invariant
                self.wf(),
                ray.wf(),
                i <= self.list@.len(),
                all_media_free(self.list@) ==> best == list_hit_spec(
                    self.list@.take(i as int), *ray),
            decreases self.list@.len() - i,
        {
            let h = self.list[i].hit(ray, rng);
            best = nearer(best, h);
            proof {
                assert(self.list@.take(i + 1int).drop_last() =~= self.list@.take(i as int));
                assert(self.list@.take(i + 1int).last() == self.list@[i as int]);
            }
            i = i + 1;
        }
        proof {
            assert(self.list@.take(self.list@.len() as int) =~= self.list@);
        }
        best
    }

    /// The union of all members' boxes; the list must not be empty.
    pub fn bounding_box(&self) -> (r: Aabb)
        requires
            self.wf(),
            self.list@.len() > 0,
        ensures
            box_wf(r),
            r == list_box_spec(self.list@),
    {
        let mut r = self.list[0].bounding_box();
        let mut i: usize = 1;
        proof {
            assert(self.list@.take(1int) =~= seq![self.list@[0]]);
            assert(self.list@.take(1int)[0] == self.list@[0]);
        }
        while i < self.list.len()
            invariant
                self.wf(),
                0 < self.list@.len(),
                1 <= i <= self.list@.len(),
                box_wf(r),
                r == list_box_spec(self.list@.take(i as int)),
            decreases self.list@.len() - i,
        {
            r = r.surrounding_box(self.list[i].bounding_box());
            proof {
                assert(self.list@.take(i + 1int).drop_last() =~= self.list@.take(i as int));
                assert(self.list@.take(i + 1int).last() == self.list@[i as int]);
            }
            i = i + 1;
        }
        proof {
            assert(self.list@.take(self.list@.len() as int) =~= self.list@);
        }
        r
    }

    /// A deep copy of the list.
    pub fn duplicate(&self) -> (r: HitableList)
        ensures
            r.list@ == self.list@,
    {
        let mut out: Vec<Primitive> = Vec::new();
        let mut i: usize = 0;
        while i < self.list.len()
            invariant
                i <= self.list@.len(),
                out@.len() == i,
                forall|j: int| 0 <= j < i ==> out@[j] == self.list@[j],
            decreases self.list@.len() - i,
        {
            out.push(self.list[i].duplicate());
            i = i + 1;
        }
        proof {
            assert(out@ =~= self.list@);
        }
        HitableList { list: out }
    }
}

/// The union of the boxes of a non-empty prefix of entities, folded left to
/// right from the first member's box.
pub open spec fn list_box_spec(s: Seq<Primitive>) -> Aabb
    decreases s.len(),
{
    if s.len() <= 1 {
        bounding_box_spec(s[0])
    } else {
        union_box(list_box_spec(s.drop_last()), bounding_box_spec(s.last()))
    }
}

/// The leaf entities of a bounding-volume tree: everything below the inner
/// nodes that is not itself an inner node.
pub open spec fn tree_leaves(p: Primitive) -> Set<Primitive>
    decreases p,
{
    match p {
        Primitive::BvhNode(b) => tree_leaves(*b.left).union(tree_leaves(*b.right)),
        _ => Set::empty().insert(p),
    }
}

/// The leaf entities below all members of a sequence of entities.
pub open spec fn members_leaves(s: Seq<Primitive>) -> Set<Primitive> {
    Set::new(|q: Primitive| exists|i: int|
        0 <= i < s.len() && #[trigger] tree_leaves(s[i]).contains(q))
}

/// Two sequences holding the same entities, in any order, have the same
/// leaf entities below their members.
proof fn lemma_members_leaves_perm(a: Seq<Primitive>, b: Seq<Primitive>)
    requires
        a.to_multiset() == b.to_multiset(),
    ensures
        members_leaves(a) == members_leaves(b),
{
    broadcast use vstd::seq_lib::group_to_multiset_ensures;

    assert forall|q: Primitive| members_leaves(a).contains(q)
        <==> members_leaves(b).contains(q) by {
        if members_leaves(a).contains(q) {
            let i = choose|i: int| 0 <= i < a.len() && #[trigger] tree_leaves(
                a[i]).contains(q);
            assert(a.contains(a[i]));
            assert(a.to_multiset().count(a[i]) > 0);
            assert(b.contains(a[i]));
            let j = choose|j: int| 0 <= j < b.len() && b[j] == a[i];
            assert(tree_leaves(b[j]).contains(q));
        }
        if members_leaves(b).contains(q) {
            let i = choose|i: int| 0 <= i < b.len() && #[trigger] tree_leaves(
                b[i]).contains(q);
            assert(b.contains(b[i]));
            assert(b.to_multiset().count(b[i]) > 0);
            assert(a.contains(b[i]));
            let j = choose|j: int| 0 <= j < a.len() && a[j] == b[i];
            assert(tree_leaves(a[j]).contains(q));
        }
    }
    assert(members_leaves(a) =~= members_leaves(b));
}

/// Cutting a sequence anywhere splits the leaf entities below its members
/// into the union over the two parts.
proof fn lemma_members_leaves_split(s: Seq<Primitive>, k: int)
    requires
        0 <= k <= s.len(),
    ensures
        members_leaves(s) == members_leaves(s.take(k)).union(members_leaves(s.subrange(k,
            s.len() as int))),
{
    let lhs = members_leaves(s);
    let rhs = members_leaves(s.take(k)).union(members_leaves(s.subrange(k, s.len() as int)));
    assert forall|q: Primitive| lhs.contains(q) implies rhs.contains(q) by {
        let i = choose|i: int| 0 <= i < s.len() && #[trigger] tree_leaves(s[i]).contains(q);
        if i < k {
            assert(tree_leaves(s.take(k)[i]).contains(q));
        } else {
            assert(tree_leaves(s.subrange(k, s.len() as int)[i - k]).contains(q));
        }
    }
    assert forall|q: Primitive| rhs.contains(q) implies lhs.contains(q) by {
        if members_leaves(s.take(k)).contains(q) {
            let i = choose|i: int| 0 <= i < s.take(k).len() && #[trigger] tree_leaves(
                s.take(k)[i]).contains(q);
            assert(tree_leaves(s[i]).contains(q));
        } else {
            let i = choose|i: int| 0 <= i < s.subrange(k, s.len() as int).len()
                && #[trigger] tree_leaves(s.subrange(k, s.len() as int)[i]).contains(q);
            assert(tree_leaves(s[i + k]).contains(q));
        }
    }
    assert(lhs =~= rhs);
}

/// The leaf entities below a one- or two-member sequence are the union of
/// the members' own leaves.
proof fn lemma_members_leaves_small(s: Seq<Primitive>)
    requires
        1 <= s.len() <= 2,
    ensures
        s.len() == 1 ==> members_leaves(s) == tree_leaves(s[0]),
        s.len() == 2 ==> members_leaves(s) == tree_leaves(s[0]).union(tree_leaves(s[1])),
{
    if s.len() == 1 {
        assert forall|q: Primitive| members_leaves(s).contains(q)
            <==> tree_leaves(s[0]).contains(q) by {
            if members_leaves(s).contains(q) {
                let i = choose|i: int| 0 <= i < s.len() && #[trigger] tree_leaves(
                    s[i]).contains(q);
                assert(i == 0);
            }
            if tree_leaves(s[0]).contains(q) {
                assert(members_leaves(s).contains(q));
            }
        }
        assert(members_leaves(s) =~= tree_leaves(s[0]));
    } else {
        assert forall|q: Primitive| members_leaves(s).contains(q)
            <==> tree_leaves(s[0]).union(tree_leaves(s[1])).contains(q) by {
            if members_leaves(s).contains(q) {
                let i = choose|i: int| 0 <= i < s.len() && #[trigger] tree_leaves(
                    s[i]).contains(q);
                assert(i == 0 || i == 1);
            }
            if tree_leaves(s[0]).contains(q) {
                assert(members_leaves(s).contains(q));
            }
            if tree_leaves(s[1]).contains(q) {
                assert(members_leaves(s).contains(q));
            }
        }
        assert(members_leaves(s) =~= tree_leaves(s[0]).union(tree_leaves(s[1])));
    }
}

impl BvhNode {
    /// Builds the tree over the list's entities by recursively splitting
    /// them in half along an axis chosen at random at every call: entities
    /// are sorted by the lower bound of their box along that axis and the
    /// sorted order is cut at its midpoint.  One entity becomes a leaf whose
    /// children both alias it; two become one child each.  The tree holds
    /// exactly the leaf entities below the list's members, and every node's
    /// box is the union of its children's boxes.  The list must not be
    /// empty.
    pub fn new(hlist: &HitableList, rng: &mut RngHandle) -> (r: BvhNode)
        requires
            hlist.wf(),
            hlist.list@.len() > 0,
        ensures
            prim_wf(Primitive::BvhNode(r)),
            all_media_free(hlist.list@) ==> media_free(Primitive::BvhNode(r)),
            r.boxx == union_box(bounding_box_spec(*r.left), bounding_box_spec(*r.right)),
            tree_leaves(Primitive::BvhNode(r)) == members_leaves(hlist.list@),
    {
        let copy = hlist.duplicate();
        BvhNode::build(copy.list, rng)
    }

    /// The recursive tree builder; consumes its slice of the entity list.
    /// The built tree holds exactly the leaf entities below the list's
    /// members, and every inner node's box is the union of its children's.
    fn build(list: Vec<Primitive>, rng: &mut RngHandle) -> (r: BvhNode)
        requires
            all_wf(list@),
            list@.len() > 0,
        ensures
            prim_wf(Primitive::BvhNode(r)),
            all_media_free(list@) ==> media_free(Primitive::BvhNode(r)),
            r.boxx == union_box(bounding_box_spec(*r.left), bounding_box_spec(*r.right)),
            tree_leaves(Primitive::BvhNode(r)) == members_leaves(list@),
        decreases list@.len(),
    {
        let ghost before = list@;
        let axis = rng.below(3);
        let mut sorted = list;
        sort_by_axis(&mut sorted, axis);
        proof {
            lemma_members_leaves_perm(before, sorted@);
        }

        if sorted.len() == 1 {
            let ghost gl = sorted@;
            let e = sorted.pop().unwrap();
            proof {
                assert(e == gl[0]);
            }
            let dup = e.duplicate();
            let bb = e.bounding_box();
            let boxx = bb.surrounding_box(dup.bounding_box());
            let r = BvhNode { boxx, left: Box::new(dup), right: Box::new(e) };
            proof {
                lemma_members_leaves_small(gl);
                assert(tree_leaves(Primitive::BvhNode(r))
                    =~= members_leaves(before));
            }
            r
        } else if sorted.len() == 2 {
            let ghost gl = sorted@;
            let second = sorted.pop().unwrap();
            let first = sorted.pop().unwrap();
            proof {
                assert(second == gl[1] && first == gl[0]);
            }
            let boxx = first.bounding_box().surrounding_box(second.bounding_box());
            let r = BvhNode { boxx, left: Box::new(first), right: Box::new(second) };
            proof {
                lemma_members_leaves_small(gl);
                assert(tree_leaves(Primitive::BvhNode(r))
                    =~= members_leaves(before));
            }
            r
        } else {
            let mid = sorted.len() / 2;
            let mut left_vec: Vec<Primitive> = Vec::new();
            let mut right_vec: Vec<Primitive> = Vec::new();
            let mut i: usize = 0;
            let n = sorted.len();
            while i < n
                invariant
                    n == sorted@.len(),
                    all_wf(sorted@),
                    i <= n,
                    n >= 3,
                    mid == n / 2,
                    i <= mid ==> left_vec@ == sorted@.take(i as int)
                        && right_vec@.len() == 0,
                    i > mid ==> left_vec@ == sorted@.take(mid as int)
                        && right_vec@ == sorted@.subrange(mid as int, i as int),
                    all_wf(left_vec@),
                    all_wf(right_vec@),
                    all_media_free(sorted@) ==> all_media_free(left_vec@)
                        && all_media_free(right_vec@),
                decreases n - i,
            {
                let e = sorted[i].duplicate();
                if i < mid {
                    left_vec.push(e);
                    proof {
                        assert(left_vec@ =~= sorted@.take(i + 1int));
                    }
                } else {
                    right_vec.push(e);
                    proof {
                        assert(right_vec@ =~= sorted@.subrange(mid as int, i + 1int));
                        assert(left_vec@ == sorted@.take(mid as int));
                    }
                }
                proof {
                    assert(all_wf(left_vec@)) by {
                        assert forall|j: int| 0 <= j < left_vec@.len() implies
                            prim_wf(#[trigger] left_vec@[j]) by {}
                    }
                    assert(all_wf(right_vec@)) by {
                        assert forall|j: int| 0 <= j < right_vec@.len() implies
                            prim_wf(#[trigger] right_vec@[j]) by {}
                    }
                }
                i = i + 1;
            }
            proof {
                assert(0 < mid < n);
                assert(left_vec@ == sorted@.take(mid as int));
                assert(right_vec@ == sorted@.subrange(mid as int, n as int));
                lemma_members_leaves_split(sorted@, mid as int);
            }
            let ghost gl = sorted@;
            let left = BvhNode::build(left_vec, rng);
            let right = BvhNode::build(right_vec, rng);
            let boxx = left.boxx.surrounding_box(right.boxx);
            let r = BvhNode {
                boxx,
                left: Box::new(Primitive::BvhNode(left)),
                right: Box::new(Primitive::BvhNode(right)),
            };
            proof {
                assert(tree_leaves(Primitive::BvhNode(r))
                    =~= members_leaves(before));
            }
            r
        }
    }
}

/// Sorts the entities by the lower bound of their bounding box along the
/// chosen axis (0 for x, 1 for y, otherwise z), by insertion.  The result
/// holds exactly the input's entities, reordered.
fn sort_by_axis(list: &mut Vec<Primitive>, axis: u64)
    requires
        all_wf(old(list)@),
    ensures
        final(list)@.len() == old(list)@.len(),
        all_wf(final(list)@),
        all_media_free(old(list)@) ==> all_media_free(final(list)@),
        final(list)@.to_multiset() == old(list)@.to_multiset(),
{
    broadcast use vstd::seq_lib::group_to_multiset_ensures;

    let ghost orig_mf = all_media_free(list@);
    let mut i: usize = 1;
    while i < list.len()
        invariant
            all_wf(list@),
            orig_mf == all_media_free(old(list)@),
            orig_mf ==> all_media_free(list@),
            list@.len() == old(list)@.len(),
            list@.to_multiset() == old(list)@.to_multiset(),
        decreases list@.len() - i,
    {
        let ghost prev = list@;
        let x = list.remove(i);
        proof {
            assert(prev.contains(prev[i as int]));
            assert(list@ == prev.remove(i as int));
            vstd::seq_lib::to_multiset_remove::<Primitive>(prev, i as int);
            assert(list@.to_multiset() == prev.to_multiset().remove(x));
            assert(all_wf(list@)) by {
                assert forall|j: int| 0 <= j < list@.len() implies
                    prim_wf(#[trigger] list@[j]) by {}
            }
        }
        let key = axis_key(&x, axis);
        let mut j: usize = 0;
        while j < i
            invariant
                all_wf(list@),
                prim_wf(x),
                i < old(list)@.len(),
                list@.len() == old(list)@.len() - 1,
                list@.to_multiset() == prev.to_multiset().remove(x),
                j <= i,
            decreases i - j,
        {
            if axis_key(&list[j], axis) > key {
                break;
            }
            j = j + 1;
        }
        let ghost mid = list@;
        list.insert(j, x);
        proof {
            assert(list@ == mid.insert(j as int, x));
            vstd::seq_lib::to_multiset_insert::<Primitive>(mid, j as int, x);
            assert(list@.to_multiset() == mid.to_multiset().insert(x));
            vstd::seq_lib::to_multiset_contains::<Primitive>(prev, x);
            assert(prev.to_multiset().count(x) > 0);
            assert(list@.to_multiset() =~= prev.to_multiset());
            assert(all_wf(list@)) by {
                assert forall|k: int| 0 <= k < list@.len() implies
                    prim_wf(#[trigger] list@[k]) by {}
            }
            if orig_mf {
                assert(all_media_free(list@)) by {
                    assert forall|k: int| 0 <= k < list@.len() implies
                        media_free(#[trigger] list@[k]) by {}
                }
            }
        }
        i = i + 1;
    }
}

/// The lower bound of the entity's box along the chosen axis.
fn axis_key(p: &Primitive, axis: u64) -> (r: i64)
    requires
        prim_wf(*p),
{
    let bb = p.bounding_box();
    if axis == 0 {
        bb.x.min
    } else if axis == 1 {
        bb.y.min
    } else {
        bb.z.min
    }
}


/// Per-vertex face of a triangle mesh: indices into the vertex table, and
/// optionally into the normal table.
#[derive(Clone, Copy, Debug, PartialEq, Eq)]
pub struct Face {
    /// The three vertex indices, counterclockwise.
    pub v: (usize, usize, usize),
    /// The three normal indices, if the model supplies normals.
    pub n: Option<(usize, usize, usize)>,
}

/// A triangle soup as plain values: what a model importer hands the mesh
/// builder.
#[derive(Clone, Debug)]
pub struct MeshData {
    /// The vertex table.
    pub vertices: Vec<V3>,
    /// The normal table.
    pub normals: Vec<V3>,
    /// The faces, as indices into the two tables.
    pub faces: Vec<Face>,
}

/// The mesh data is buildable: it has at least one face, every index lands
/// in its table, every vertex is representable and every normal near unit.
pub open spec fn mesh_data_valid(d: MeshData) -> bool {
    &&& d.faces@.len() >= 1
    &&& forall|i: int| 0 <= i < d.vertices@.len() ==> (#[trigger] d.vertices@[i]).in_range()
    &&& forall|i: int| 0 <= i < d.normals@.len() ==> bounded(#[trigger] d.normals@[i],
        131072)
    &&& forall|i: int|
        0 <= i < d.faces@.len() ==> {
            let f = #[trigger] d.faces@[i];
            &&& f.v.0 < d.vertices@.len()
            &&& f.v.1 < d.vertices@.len()
            &&& f.v.2 < d.vertices@.len()
            &&& match f.n {
                Some(n) => n.0 < d.normals@.len() && n.1 < d.normals@.len() && n.2
                    < d.normals@.len(),
                None => true,
            }
        }
}

/// The triangle a face of the soup resolves to: its vertices and optional
/// normals looked up in the tables, carrying the mesh's material.
pub open spec fn mesh_triangle_spec(d: MeshData, material: usize, i: int) -> Primitive {
    let f = d.faces@[i];
    Primitive::Triangle(Triangle {
        verticles: (d.vertices@[f.v.0 as int], d.vertices@[f.v.1 as int],
            d.vertices@[f.v.2 as int]),
        normals: match f.n {
            Some(n) => Some((d.normals@[n.0 as int], d.normals@[n.1 as int],
                d.normals@[n.2 as int])),
            None => None,
        },
        material,
    })
}

/// All the soup's triangles, one per face, in face order.
pub open spec fn mesh_tri_seq(d: MeshData, material: usize) -> Seq<Primitive> {
    Seq::new(d.faces@.len(), |i: int| mesh_triangle_spec(d, material, i))
}

impl Mesh {
    /// Builds a polygon model from a triangle soup, if it can be made:
    /// every face is resolved against the tables into a triangle, the
    /// triangles go behind their own bounding-volume tree, and the whole
    /// mesh is bounded once.  The tree holds exactly the soup's triangles
    /// and the stored box is the union of their boxes.  Malformed data, an
    /// out-of-range vertex or an empty soup is a construction-time failure.
    pub fn new(data: &MeshData, material: usize, rng: &mut RngHandle) -> (r: Result<
        Primitive,
        &'static str,
    >)
        ensures
            r is Ok <==> mesh_data_valid(*data),
            r matches Ok(p) ==> prim_wf(p) && media_free(p) && p is Mesh,
            r matches Ok(p) ==> p matches Primitive::Mesh(me)
                && tree_leaves(*me.triangles) == members_leaves(mesh_tri_seq(*data, material))
                && me.bounding_box == list_box_spec(mesh_tri_seq(*data, material)),
    {
        if data.faces.len() == 0 {
            return Err("mesh has no faces");
        }
        let mut i: usize = 0;
        let nv = data.vertices.len();
        while i < nv
            invariant
                i <= nv,
                nv == data.vertices@.len(),
                forall|j: int| 0 <= j < i ==> (#[trigger] data.vertices@[j]).in_range(),
            decreases nv - i,
        {
            if !data.vertices[i].is_in_range() {
                return Err("mesh vertex out of range");
            }
            i = i + 1;
        }
        let mut i: usize = 0;
        let nn = data.normals.len();
        while i < nn
            invariant
                i <= nn,
                nn == data.normals@.len(),
                forall|j: int| 0 <= j < i ==> bounded(#[trigger] data.normals@[j], 131072),
            decreases nn - i,
        {
            let n = data.normals[i];
            if n.x > 131072 || n.x < -131072 || n.y > 131072 || n.y < -131072 || n.z > 131072
                || n.z < -131072 {
                return Err("mesh normal out of range");
            }
            i = i + 1;
        }
        let mut list = HitableList::new();
        let mut i: usize = 0;
        let nf = data.faces.len();
        while i < nf
            invariant
                i <= nf,
                nf == data.faces@.len(),
                nv == data.vertices@.len(),
                nn == data.normals@.len(),
                forall|j: int| 0 <= j < nv ==> (#[trigger] data.vertices@[j]).in_range(),
                forall|j: int| 0 <= j < nn ==> bounded(#[trigger] data.normals@[j], 131072),
                forall|j: int|
                    0 <= j < i ==> {
                        let f = #[trigger] data.faces@[j];
                        &&& f.v.0 < nv && f.v.1 < nv && f.v.2 < nv
                        &&& match f.n {
                            Some(n) => n.0 < nn && n.1 < nn && n.2 < nn,
                            None => true,
                        }
                    },
                list.wf(),
                all_media_free(list.list@),
                list.list@.len() == i,
                forall|j: int| 0 <= j < i ==> list.list@[j] == mesh_triangle_spec(*data,
                    material, j),
            decreases nf - i,
        {
            let f = data.faces[i];
            if !(f.v.0 < nv && f.v.1 < nv && f.v.2 < nv) {
                return Err("mesh face vertex index out of range");
            }
            let normals = match f.n {
                Some(n) => {
                    if !(n.0 < nn && n.1 < nn && n.2 < nn) {
                        return Err("mesh face normal index out of range");
                    }
                    Some((data.normals[n.0], data.normals[n.1], data.normals[n.2]))
                },
                None => None,
            };
            let tri = crate::primitive::Triangle::new(
                (data.vertices[f.v.0], data.vertices[f.v.1], data.vertices[f.v.2]),
                normals,
                material,
            );
            list.add(Primitive::Triangle(tri));
            i = i + 1;
        }
        proof {
            assert(list.list@ =~= mesh_tri_seq(*data, material));
        }
        let bounding_box = list.bounding_box();
        let tree = BvhNode::new(&list, rng);
        Ok(Primitive::Mesh(Mesh {
            triangles: Box::new(Primitive::BvhNode(tree)),
            bounding_box,
        }))
    }
}

impl Primitive {
    /// Wraps the entity so that it stands shifted by `offset`.
    pub fn translate(self, offset: V3) -> (r: Primitive)
        requires
            prim_wf(self),
            offset.in_range(),
        ensures
            r == Primitive::Translated(Translated {
                offset,
                hittable: Box::new(self),
            }),
            prim_wf(r),
            media_free(self) ==> media_free(r),
    {
        Primitive::Translated(Translated { offset, hittable: Box::new(self) })
    }

    /// Wraps the entity so that its front and back faces are swapped.
    pub fn flip_face(self) -> (r: Primitive)
        requires
            prim_wf(self),
        ensures
            r == Primitive::FlipFace(FlipFace { hittable: Box::new(self) }),
            prim_wf(r),
            media_free(self) ==> media_free(r),
    {
        Primitive::FlipFace(FlipFace { hittable: Box::new(self) })
    }

    /// Reinterprets the bounded entity as a homogeneous participating
    /// medium of the given density, scattering with the phase material.
    pub fn into_constant_medium(self, density: i64, phase_function: usize) -> (r: Primitive)
        requires
            prim_wf(self),
            0 < density <= 0x1_0000_0000,
        ensures
            r matches Primitive::ConstantMedium(m) && *m.boundary == self
                && m.phase_function == phase_function && m.neg_inv_density == -tdiv(
                65536int * 65536, density as int),
            prim_wf(r),
    {
        proof {
            crate::math::lemma_tdiv_bound(65536int * 65536, density as int);
            assert(tdiv(65536int * 65536, density as int) >= 1) by {
                assert(65536int * 65536 / density as int >= 1) by (nonlinear_arith)
                    requires 0 < density as int <= 0x1_0000_0000;
            }
        }
        let nid = -(crate::math::tdiv_i128(65536 * 65536, density as i128) as i64);
        Primitive::ConstantMedium(ConstantMedium {
            boundary: Box::new(self),
            phase_function,
            neg_inv_density: nid,
        })
    }

    /// Wraps the entity so that it stands rotated around `axis`; `sin` and
    /// `cos` belong to half the rotation angle, as the quaternion form
    /// needs.  The stored box is recomputed by rotating the corners of the
    /// child's box and bounding them again.
    pub fn rotate(self, axis: V3, sin: i64, cos: i64) -> (r: Primitive)
        requires
            prim_wf(self),
            axis.in_range(),
            !(axis.x == 0 && axis.y == 0 && axis.z == 0),
            abs(sin as int) <= 65536,
            abs(cos as int) <= 65536,
        ensures
            r matches Primitive::Rotated(ro) && *ro.hittable == self && ro.axis == axis
                && ro.sin_theta == sin && ro.cos_theta == cos && ro.bounding_box
                == rotated_box_spec(bounding_box_spec(self), axis, sin as int, cos as int),
            prim_wf(r),
            media_free(self) ==> media_free(r),
    {
        let bb = self.bounding_box();
        let bounding_box = rotate_box(bb, axis, sin, cos);
        Primitive::Rotated(Rotated {
            sin_theta: sin,
            cos_theta: cos,
            axis,
            bounding_box,
            hittable: Box::new(self),
        })
    }
}

/// A rotated corner, clamped back into the representable box range.
#[verifier::opaque]
pub open spec fn rot_corner_spec(c: V3, axis: V3, sin: int, cos: int) -> V3 {
    let p = rot_spec(c, axis, sin, cos);
    V3 { x: clamp_spec(p.x as int), y: clamp_spec(p.y as int), z: clamp_spec(p.z as int) }
}

/// The componentwise minimum of two vectors.
#[verifier::opaque]
pub open spec fn vmin_spec(a: V3, b: V3) -> V3 {
    V3 {
        x: if a.x <= b.x { a.x } else { b.x },
        y: if a.y <= b.y { a.y } else { b.y },
        z: if a.z <= b.z { a.z } else { b.z },
    }
}

/// The componentwise maximum of two vectors.
#[verifier::opaque]
pub open spec fn vmax_spec(a: V3, b: V3) -> V3 {
    V3 {
        x: if a.x >= b.x { a.x } else { b.x },
        y: if a.y >= b.y { a.y } else { b.y },
        z: if a.z >= b.z { a.z } else { b.z },
    }
}

/// The box around the rotated corners of a box: every corner is rotated and
/// clamped, and the results are bounded again.
pub open spec fn rotated_box_spec(b: Aabb, axis: V3, sin: int, cos: int) -> Aabb {
    let c0 = rot_corner_spec(V3 { x: b.x.max, y: b.y.max, z: b.z.max }, axis, sin, cos);
    let c1 = rot_corner_spec(V3 { x: b.x.max, y: b.y.max, z: b.z.min }, axis, sin, cos);
    let c2 = rot_corner_spec(V3 { x: b.x.max, y: b.y.min, z: b.z.max }, axis, sin, cos);
    let c3 = rot_corner_spec(V3 { x: b.x.max, y: b.y.min, z: b.z.min }, axis, sin, cos);
    let c4 = rot_corner_spec(V3 { x: b.x.min, y: b.y.max, z: b.z.max }, axis, sin, cos);
    let c5 = rot_corner_spec(V3 { x: b.x.min, y: b.y.max, z: b.z.min }, axis, sin, cos);
    let c6 = rot_corner_spec(V3 { x: b.x.min, y: b.y.min, z: b.z.max }, axis, sin, cos);
    let c7 = rot_corner_spec(V3 { x: b.x.min, y: b.y.min, z: b.z.min }, axis, sin, cos);
    let lo = vmin_spec(vmin_spec(vmin_spec(vmin_spec(vmin_spec(vmin_spec(vmin_spec(c0, c1),
        c2), c3), c4), c5), c6), c7);
    let hi = vmax_spec(vmax_spec(vmax_spec(vmax_spec(vmax_spec(vmax_spec(vmax_spec(c0, c1),
        c2), c3), c4), c5), c6), c7);
    Aabb {
        x: Interval { min: lo.x, max: hi.x },
        y: Interval { min: lo.y, max: hi.y },
        z: Interval { min: lo.z, max: hi.z },
    }
}

/// Re-bounds a box after a rotation: every corner is rotated and clamped,
/// and the results are bounded again.
#[verifier::rlimit(100)]
#[verifier::spinoff_prover]
fn rotate_box(bb: Aabb, axis: V3, sin: i64, cos: i64) -> (r: Aabb)
    requires
        box_wf(bb),
        axis.in_range(),
        !(axis.x == 0 && axis.y == 0 && axis.z == 0),
        abs(sin as int) <= 65536,
        abs(cos as int) <= 65536,
    ensures
        r == rotated_box_spec(bb, axis, sin as int, cos as int),
        box_wf(r),
{
    let c0 = rot_clamped(V3 { x: bb.x.max, y: bb.y.max, z: bb.z.max }, axis, sin, cos);
    let c1 = rot_clamped(V3 { x: bb.x.max, y: bb.y.max, z: bb.z.min }, axis, sin, cos);
    let c2 = rot_clamped(V3 { x: bb.x.max, y: bb.y.min, z: bb.z.max }, axis, sin, cos);
    let c3 = rot_clamped(V3 { x: bb.x.max, y: bb.y.min, z: bb.z.min }, axis, sin, cos);
    let c4 = rot_clamped(V3 { x: bb.x.min, y: bb.y.max, z: bb.z.max }, axis, sin, cos);
    let c5 = rot_clamped(V3 { x: bb.x.min, y: bb.y.max, z: bb.z.min }, axis, sin, cos);
    let c6 = rot_clamped(V3 { x: bb.x.min, y: bb.y.min, z: bb.z.max }, axis, sin, cos);
    let c7 = rot_clamped(V3 { x: bb.x.min, y: bb.y.min, z: bb.z.min }, axis, sin, cos);
    let lo = vmin(vmin(vmin(vmin(vmin(vmin(vmin(c0, c1), c2), c3), c4), c5), c6), c7);
    let hi = vmax(vmax(vmax(vmax(vmax(vmax(vmax(c0, c1), c2), c3), c4), c5), c6), c7);
    Aabb {
        x: Interval { min: lo.x, max: hi.x },
        y: Interval { min: lo.y, max: hi.y },
        z: Interval { min: lo.z, max: hi.z },
    }
}

/// Computes the componentwise minimum of two vectors.
fn vmin(a: V3, b: V3) -> (r: V3)
    ensures
        r == vmin_spec(a, b),
        r.x <= a.x && r.x <= b.x && (r.x == a.x || r.x == b.x),
        r.y <= a.y && r.y <= b.y && (r.y == a.y || r.y == b.y),
        r.z <= a.z && r.z <= b.z && (r.z == a.z || r.z == b.z),
{
    proof {
        reveal(vmin_spec);
    }
    a.min(b)
}

/// Computes the componentwise maximum of two vectors.
fn vmax(a: V3, b: V3) -> (r: V3)
    ensures
        r == vmax_spec(a, b),
        r.x >= a.x && r.x >= b.x && (r.x == a.x || r.x == b.x),
        r.y >= a.y && r.y >= b.y && (r.y == a.y || r.y == b.y),
        r.z >= a.z && r.z >= b.z && (r.z == a.z || r.z == b.z),
{
    proof {
        reveal(vmax_spec);
    }
    a.max(b)
}

/// Rotates a box corner and clamps it back into the representable range.
fn rot_clamped(c: V3, axis: V3, sin: i64, cos: i64) -> (r: V3)
    requires
        bounded(c, 4 * cmax()),
        axis.in_range(),
        !(axis.x == 0 && axis.y == 0 && axis.z == 0),
        abs(sin as int) <= 65536,
        abs(cos as int) <= 65536,
    ensures
        r == rot_corner_spec(c, axis, sin as int, cos as int),
        bounded(r, 4 * cmax()),
    {
    proof {
        reveal(rot_corner_spec);
    }
    let p = c.rot(axis, sin, cos);
    V3 { x: clamp_exec(p.x), y: clamp_exec(p.y), z: clamp_exec(p.z) }
}


/// Translation consistency: intersecting a translated entity with a ray
/// matches intersecting the untranslated entity with the ray shifted into
/// its frame, with the reported hit point shifted back; the two agree
/// whenever the shifted values stay in the coordinate range.
pub proof fn lemma_translate_consistency(t: Translated, ray: Ray)
    requires
        bounded(sub_spec(ray.origin, t.offset), cmax()),
    ensures
        ({
            let inner = hit_spec(*t.hittable, Ray {
                origin: sub_spec(ray.origin, t.offset),
                ..ray
            });
            match inner {
                Some(h) => bounded(h.point, 0x3fff_ffff_c000_0000) && bounded(
                    add_spec(h.point, t.offset), 0x4000_0000_0000_0000)
                    ==> hit_spec(Primitive::Translated(t), ray) == Some(Hit {
                        point: add_spec(h.point, t.offset),
                        ..h
                    }),
                None => hit_spec(Primitive::Translated(t), ray) is None,
            }
        }),
{
    assert(hit_spec(Primitive::Translated(t), ray) == translated_hit_spec(t, ray));
}

/// A tree leaf whose children both alias one entity behaves as that entity
/// wherever its box admits the ray, and misses where the box rejects it.
pub proof fn lemma_bvh_leaf(b: BvhNode, ray: Ray)
    requires
        *b.left == *b.right,
    ensures
        slab_hit(b.boxx, ray.origin, ray.end) ==> hit_spec(Primitive::BvhNode(b), ray)
            == hit_spec(*b.left, ray),
        !slab_hit(b.boxx, ray.origin, ray.end) ==> hit_spec(Primitive::BvhNode(b), ray)
            is None,
{
}

/// A tree node over two entities returns, wherever its box admits the ray,
/// exactly what a linear scan of the two returns.
pub proof fn lemma_bvh_pair(b: BvhNode, ray: Ray)
    ensures
        slab_hit(b.boxx, ray.origin, ray.end) ==> hit_spec(Primitive::BvhNode(b), ray)
            == list_hit_spec(seq![*b.left, *b.right], ray),
        !slab_hit(b.boxx, ray.origin, ray.end) ==> hit_spec(Primitive::BvhNode(b), ray)
            is None,
{
    let s = seq![*b.left, *b.right];
    assert(s.drop_last() =~= seq![*b.left]);
    assert(s.last() == *b.right);
    let s1 = s.drop_last();
    assert(s1.drop_last() =~= Seq::<Primitive>::empty());
    assert(s1.last() == *b.left);
    assert(list_hit_spec(s1.drop_last(), ray) is None);
    assert(list_hit_spec(s1, ray) == nearer_opt(None, hit_spec(*b.left, ray)));
}

} // verus!


