//! Axis-aligned bounding boxes and the ray-slab rejection test.

use vstd::prelude::*;

use crate::interval::Interval;
use crate::math::{abs, wide_mul};
use crate::ray::Ray;
use crate::vec3::{cmax, V3};

verus! {

/// Axes thinner than this fixed-point threshold are grown to it, so that
/// co-planar geometry still has a box a ray can strike.
pub const DELTA: i64 = 8;

/// Bounding box, to use with the bounding-volume tree.
#[derive(Copy, Clone, Debug, PartialEq, Eq, Structural)]
pub struct Aabb {
    /// Extent of the box on the x axis.
    pub x: Interval,
    /// Extent of the box on the y axis.
    pub y: Interval,
    /// Extent of the box on the z axis.
    pub z: Interval,
}

/// Each axis interval is ordered and within four times the coordinate
/// range: boxes around representable geometry, with room for padding,
/// shifts and re-bounding after rotation.
pub open spec fn box_wf(b: Aabb) -> bool {
    &&& b.x.wf() && b.y.wf() && b.z.wf()
    &&& abs(b.x.min as int) <= 4 * cmax() && abs(b.x.max as int) <= 4 * cmax()
    &&& abs(b.y.min as int) <= 4 * cmax() && abs(b.y.max as int) <= 4 * cmax()
    &&& abs(b.z.min as int) <= 4 * cmax() && abs(b.z.max as int) <= 4 * cmax()
}

/// Each axis interval is ordered and within the coordinate range proper,
/// as boxes built directly from representable points are.
pub open spec fn box_tight(b: Aabb) -> bool {
    &&& b.x.wf() && b.y.wf() && b.z.wf()
    &&& abs(b.x.min as int) <= cmax() && abs(b.x.max as int) <= cmax()
    &&& abs(b.y.min as int) <= cmax() && abs(b.y.max as int) <= cmax()
    &&& abs(b.z.min as int) <= cmax() && abs(b.z.max as int) <= cmax()
}

/// `outer` contains every point of `inner`.
pub open spec fn contains_box(outer: Aabb, inner: Aabb) -> bool {
    &&& outer.x.min <= inner.x.min && inner.x.max <= outer.x.max
    &&& outer.y.min <= inner.y.min && inner.y.max <= outer.y.max
    &&& outer.z.min <= inner.z.min && inner.z.max <= outer.z.max
}

/// The smallest box containing both arguments: the componentwise minimum of
/// the lower bounds and maximum of the upper bounds.
pub open spec fn union_box(a: Aabb, b: Aabb) -> Aabb {
    Aabb {
        x: Interval {
            min: if a.x.min <= b.x.min { a.x.min } else { b.x.min },
            max: if a.x.max >= b.x.max { a.x.max } else { b.x.max },
        },
        y: Interval {
            min: if a.y.min <= b.y.min { a.y.min } else { b.y.min },
            max: if a.y.max >= b.y.max { a.y.max } else { b.y.max },
        },
        z: Interval {
            min: if a.z.min <= b.z.min { a.z.min } else { b.z.min },
            max: if a.z.max >= b.z.max { a.z.max } else { b.z.max },
        },
    }
}

/// The union of boxes does not depend on the order of its operands.
pub proof fn lemma_union_commutative(a: Aabb, b: Aabb)
    ensures
        union_box(a, b) == union_box(b, a),
{
}

/// The union of boxes does not depend on how operands are grouped.
pub proof fn lemma_union_associative(a: Aabb, b: Aabb, c: Aabb)
    ensures
        union_box(union_box(a, b), c) == union_box(a, union_box(b, c)),
{
}

/// The union of two boxes contains both of them.
pub proof fn lemma_union_contains(a: Aabb, b: Aabb)
    ensures
        contains_box(union_box(a, b), a),
        contains_box(union_box(a, b), b),
{
}

/// Containment of boxes is transitive, so a tree of unions contains every
/// leaf box.
pub proof fn lemma_contains_transitive(a: Aabb, b: Aabb, c: Aabb)
    requires
        contains_box(a, b),
        contains_box(b, c),
    ensures
        contains_box(a, c),
{
}

/// On an axis where the ray does not advance, the slab is struck exactly
/// when the origin already lies inside it.
pub open spec fn axis_ok(iv: Interval, o: int, d: int) -> bool {
    d != 0 || (iv.min <= o && o <= iv.max)
}

/// Numerator of the parameter at which the ray enters the slab, normalized
/// to a positive denominator `abs(d)`.
pub open spec fn lo_num(iv: Interval, o: int, d: int) -> int {
    if d > 0 {
        iv.min - o
    } else {
        o - iv.max
    }
}

/// Numerator of the parameter at which the ray leaves the slab, normalized
/// to a positive denominator `abs(d)`.
pub open spec fn hi_num(iv: Interval, o: int, d: int) -> int {
    if d > 0 {
        iv.max - o
    } else {
        o - iv.min
    }
}

/// The entry parameter of slab `i` is no later than the exit parameter of
/// slab `j`: the exact comparison of the two rationals
/// `lo_i / abs(d_i) <= hi_j / abs(d_j)`, cleared of denominators.
pub open spec fn pair_le(
    iv_i: Interval,
    o_i: int,
    d_i: int,
    iv_j: Interval,
    o_j: int,
    d_j: int,
) -> bool {
    lo_num(iv_i, o_i, d_i) * abs(d_j) <= hi_num(iv_j, o_j, d_j) * abs(d_i)
}

/// The exact ray-slab test: on every axis along which the ray advances the
/// per-axis parameter intervals pairwise intersect, and on every axis along
/// which it does not the origin lies inside the slab.  This is the
/// fixed-point counterpart of the reciprocal-direction slab test: the same
/// parameter intervals are compared as exact rationals instead of floats.
pub open spec fn slab_hit(b: Aabb, o: V3, d: V3) -> bool {
    &&& axis_ok(b.x, o.x as int, d.x as int)
    &&& axis_ok(b.y, o.y as int, d.y as int)
    &&& axis_ok(b.z, o.z as int, d.z as int)
    &&& (d.x != 0 && d.y != 0 ==> pair_le(
        b.x, o.x as int, d.x as int, b.y, o.y as int, d.y as int,
    ) && pair_le(b.y, o.y as int, d.y as int, b.x, o.x as int, d.x as int))
    &&& (d.x != 0 && d.z != 0 ==> pair_le(
        b.x, o.x as int, d.x as int, b.z, o.z as int, d.z as int,
    ) && pair_le(b.z, o.z as int, d.z as int, b.x, o.x as int, d.x as int))
    &&& (d.y != 0 && d.z != 0 ==> pair_le(
        b.y, o.y as int, d.y as int, b.z, o.z as int, d.z as int,
    ) && pair_le(b.z, o.z as int, d.z as int, b.y, o.y as int, d.y as int))
}

/// One exact rational comparison of a slab entry parameter against a slab
/// exit parameter.
fn pair_le_exec(iv_i: Interval, o_i: i64, d_i: i64, iv_j: Interval, o_j: i64, d_j: i64) -> (r:
    bool)
    requires
        iv_i.wf(),
        iv_j.wf(),
        abs(iv_i.min as int) <= 4 * cmax() && abs(iv_i.max as int) <= 4 * cmax(),
        abs(iv_j.min as int) <= 4 * cmax() && abs(iv_j.max as int) <= 4 * cmax(),
        abs(o_i as int) <= cmax() && abs(o_j as int) <= cmax(),
        abs(d_i as int) <= cmax(),
        abs(d_j as int) <= cmax(),
        d_i != 0,
        d_j != 0,
    ensures
        r == pair_le(iv_i, o_i as int, d_i as int, iv_j, o_j as int, d_j as int),
{
    let lo_i: i64 = if d_i > 0 { iv_i.min - o_i } else { o_i - iv_i.max };
    let hi_j: i64 = if d_j > 0 { iv_j.max - o_j } else { o_j - iv_j.min };
    let den_i: i64 = if d_i > 0 { d_i } else { -d_i };
    let den_j: i64 = if d_j > 0 { d_j } else { -d_j };
    wide_mul(lo_i, den_j) <= wide_mul(hi_j, den_i)
}

impl Aabb {
    /// Takes the two points as extrema for the bounding box, then grows any
    /// axis thinner than [`DELTA`] to exactly that threshold.
    pub fn new(a: V3, b: V3) -> (r: Aabb)
        requires
            a.in_range(),
            b.in_range(),
        ensures
            r == (Aabb {
                x: Interval::new_spec(a.x, b.x),
                y: Interval::new_spec(a.y, b.y),
                z: Interval::new_spec(a.z, b.z),
            }).pad_spec(),
            box_wf(r),
    {
        Aabb {
            x: Interval { min: if a.x <= b.x { a.x } else { b.x }, max: if a.x <= b.x { b.x } else { a.x } },
            y: Interval { min: if a.y <= b.y { a.y } else { b.y }, max: if a.y <= b.y { b.y } else { a.y } },
            z: Interval { min: if a.z <= b.z { a.z } else { b.z }, max: if a.z <= b.z { b.z } else { a.z } },
        }.pad()
    }

    /// Checks if Ray intersects with this bounding box, at any parameter.
    pub fn hit(&self, ray: &Ray) -> (r: bool)
        requires
            box_wf(*self),
            ray.origin.in_range(),
            ray.end.in_range(),
        ensures
            r == slab_hit(*self, ray.origin, ray.end),
    {
        let o = ray.origin;
        let d = ray.end;
        let ok_x = d.x != 0 || (self.x.min <= o.x && o.x <= self.x.max);
        let ok_y = d.y != 0 || (self.y.min <= o.y && o.y <= self.y.max);
        let ok_z = d.z != 0 || (self.z.min <= o.z && o.z <= self.z.max);
        if !(ok_x && ok_y && ok_z) {
            return false;
        }
        if d.x != 0 && d.y != 0 {
            if !pair_le_exec(self.x, o.x, d.x, self.y, o.y, d.y) {
                return false;
            }
            if !pair_le_exec(self.y, o.y, d.y, self.x, o.x, d.x) {
                return false;
            }
        }
        if d.x != 0 && d.z != 0 {
            if !pair_le_exec(self.x, o.x, d.x, self.z, o.z, d.z) {
                return false;
            }
            if !pair_le_exec(self.z, o.z, d.z, self.x, o.x, d.x) {
                return false;
            }
        }
        if d.y != 0 && d.z != 0 {
            if !pair_le_exec(self.y, o.y, d.y, self.z, o.z, d.z) {
                return false;
            }
            if !pair_le_exec(self.z, o.z, d.z, self.y, o.y, d.y) {
                return false;
            }
        }
        true
    }

    /// Creates new bounding box that surrounds two bounding boxes.
    pub fn surrounding_box(&self, second: Aabb) -> (r: Aabb)
        ensures
            r == union_box(*self, second),
    {
        Aabb {
            x: Interval {
                min: if self.x.min <= second.x.min { self.x.min } else { second.x.min },
                max: if self.x.max >= second.x.max { self.x.max } else { second.x.max },
            },
            y: Interval {
                min: if self.y.min <= second.y.min { self.y.min } else { second.y.min },
                max: if self.y.max >= second.y.max { self.y.max } else { second.y.max },
            },
            z: Interval {
                min: if self.z.min <= second.z.min { self.z.min } else { second.z.min },
                max: if self.z.max >= second.z.max { self.z.max } else { second.z.max },
            },
        }
    }

    /// The corner of the box selected by three booleans, one per axis: the
    /// lower bound where the flag is set, else the upper bound.
    pub open spec fn corner(self, low_x: bool, low_y: bool, low_z: bool) -> V3 {
        V3 {
            x: if low_x { self.x.min } else { self.x.max },
            y: if low_y { self.y.min } else { self.y.max },
            z: if low_z { self.z.min } else { self.z.max },
        }
    }

    /// Returns list of vertices of this bounding box.
    pub fn get_box_points(&self) -> (r: Vec<V3>)
        ensures
            r@.len() == 8,
            r@[0] == self.corner(false, false, false),
            r@[1] == self.corner(false, false, true),
            r@[2] == self.corner(false, true, false),
            r@[3] == self.corner(false, true, true),
            r@[4] == self.corner(true, false, false),
            r@[5] == self.corner(true, false, true),
            r@[6] == self.corner(true, true, false),
            r@[7] == self.corner(true, true, true),
    {
        let mut points: Vec<V3> = Vec::new();
        points.push(V3 { x: self.x.max, y: self.y.max, z: self.z.max });
        points.push(V3 { x: self.x.max, y: self.y.max, z: self.z.min });
        points.push(V3 { x: self.x.max, y: self.y.min, z: self.z.max });
        points.push(V3 { x: self.x.max, y: self.y.min, z: self.z.min });
        points.push(V3 { x: self.x.min, y: self.y.max, z: self.z.max });
        points.push(V3 { x: self.x.min, y: self.y.max, z: self.z.min });
        points.push(V3 { x: self.x.min, y: self.y.min, z: self.z.max });
        points.push(V3 { x: self.x.min, y: self.y.min, z: self.z.min });
        points
    }

    /// The box after growing every axis thinner than [`DELTA`] to exactly
    /// [`DELTA`]; thicker axes are unchanged.
    pub open spec fn pad_spec(self) -> Aabb {
        Aabb {
            x: pad_axis_spec(self.x),
            y: pad_axis_spec(self.y),
            z: pad_axis_spec(self.z),
        }
    }

    /// Add padding to this bounding box to overcome numerical problems:
    /// axes thinner than [`DELTA`] are grown to exactly that size,
    /// symmetrically up to one fixed-point step; other axes are unchanged.
    pub fn pad(&self) -> (r: Aabb)
        requires
            box_tight(*self),
        ensures
            r == self.pad_spec(),
            box_wf(r),
    {
        Aabb {
            x: if self.x.max - self.x.min >= DELTA {
                self.x
            } else {
                self.x.grow_to(DELTA)
            },
            y: if self.y.max - self.y.min >= DELTA {
                self.y
            } else {
                self.y.grow_to(DELTA)
            },
            z: if self.z.max - self.z.min >= DELTA {
                self.z
            } else {
                self.z.grow_to(DELTA)
            },
        }
    }
}

/// One axis of [`Aabb::pad_spec`]: an interval thinner than [`DELTA`] grown
/// to exactly [`DELTA`], the lower bound taking the larger half of the
/// growth when it is odd.
pub open spec fn pad_axis_spec(iv: Interval) -> Interval {
    if iv.max - iv.min >= 8 {
        iv
    } else {
        let growth = 8 - (iv.max - iv.min);
        Interval {
            min: (iv.min - (growth - growth / 2)) as i64,
            max: (iv.max + growth / 2) as i64,
        }
    }
}

} // verus!
