//! Orthonormal basis.

use vstd::prelude::*;

use crate::math::{abs, scale};
use crate::vec3::{add_spec, bounded, cmax, cross_spec, lemma_cross_bound, scale_spec, V3};

verus! {

/// Onb represents an orthonormal basis.
#[derive(Clone, Copy, Debug, PartialEq, Eq)]
pub struct Onb {
    /// The three basis vectors: `u`, `v` and `w`.
    pub axis: (V3, V3, V3),
}

/// The basis [`Onb::build_from_w`] constructs: `w` is the normalized input,
/// `v` is normal to `w` and to whichever coordinate axis is far from `w`,
/// and `u` completes the triple.  Degenerate cross products fall back to
/// the coordinate axes.
pub open spec fn build_from_w_spec(n: V3) -> Onb {
    let w = n.norm_spec();
    let a = if abs(w.x as int) > 58982 {
        V3 { x: 0i64, y: 65536i64, z: 0i64 }
    } else {
        V3 { x: 65536i64, y: 0i64, z: 0i64 }
    };
    let c = cross_spec(w, a);
    if c.x == 0 && c.y == 0 && c.z == 0 {
        Onb {
            axis: (
                V3 { x: 65536i64, y: 0i64, z: 0i64 },
                V3 { x: 0i64, y: 65536i64, z: 0i64 },
                w,
            ),
        }
    } else {
        let v = c.norm_spec();
        let u = cross_spec(w, v);
        Onb { axis: (u, v, w) }
    }
}

impl Onb {
    /// All basis vectors have near-unit coordinates.
    pub open spec fn wf(self) -> bool {
        bounded(self.axis.0, 4 * scale()) && bounded(self.axis.1, 4 * scale()) && bounded(
            self.axis.2, 4 * scale())
    }

    /// Returns `u` component of orthonormal basis.
    pub fn u(&self) -> (r: V3)
        ensures
            r == self.axis.0,
    {
        self.axis.0
    }

    /// Returns `v` component of orthonormal basis.
    pub fn v(&self) -> (r: V3)
        ensures
            r == self.axis.1,
    {
        self.axis.1
    }

    /// Returns `w` component of orthonormal basis.
    pub fn w(&self) -> (r: V3)
        ensures
            r == self.axis.2,
    {
        self.axis.2
    }

    /// Builds orthonormal basis from a `w` vector.
    pub fn build_from_w(n: &V3) -> (r: Onb)
        requires
            bounded(*n, 2 * cmax()),
            !(n.x == 0 && n.y == 0 && n.z == 0),
        ensures
            r == build_from_w_spec(*n),
            r.wf(),
    {
        let w = n.norm();
        let a = if (w.x >= 0 && w.x > 58982) || (w.x < 0 && -w.x > 58982) {
            V3::new(0, 65536, 0)
        } else {
            V3::new(65536, 0, 0)
        };
        proof {
            lemma_cross_bound(w, a, 65536, 65536, 131072);
        }
        let c = w.cross(a);
        if c.x == 0 && c.y == 0 && c.z == 0 {
            Onb { axis: (V3::new(65536, 0, 0), V3::new(0, 65536, 0), w) }
        } else {
            let v = c.norm();
            proof {
                lemma_cross_bound(w, v, 131072, 65536, 262144);
            }
            let u = w.cross(v);
            Onb { axis: (u, v, w) }
        }
    }

    /// The linear combination of the basis by three coefficients.
    pub open spec fn local_spec(self, a: int, b: int, c: int) -> V3 {
        add_spec(
            add_spec(scale_spec(self.axis.0, a), scale_spec(self.axis.1, b)),
            scale_spec(self.axis.2, c),
        )
    }

    /// Returns the point with the given basis coordinates in the standard
    /// basis.
    pub fn local(&self, a: i64, b: i64, c: i64) -> (r: V3)
        requires
            self.wf(),
            abs(a as int) <= 2 * scale(),
            abs(b as int) <= 2 * scale(),
            abs(c as int) <= 2 * scale(),
        ensures
            r == self.local_spec(a as int, b as int, c as int),
            bounded(r, 24 * scale()),
    {
        proof {
            lemma_onb_term(self.axis.0, a as int);
            lemma_onb_term(self.axis.1, b as int);
            lemma_onb_term(self.axis.2, c as int);
        }
        self.axis.0.scale_by(a).add(self.axis.1.scale_by(b)).add(self.axis.2.scale_by(c))
    }

    /// The linear combination of the basis by the components of a vector.
    pub open spec fn local_vec_spec(self, a: V3) -> V3 {
        self.local_spec(a.x as int, a.y as int, a.z as int)
    }

    /// Returns the point whose basis coordinates are the components of `a`.
    pub fn local_from_vec(&self, a: &V3) -> (r: V3)
        requires
            self.wf(),
            bounded(*a, 2 * scale()),
        ensures
            r == self.local_spec(a.x as int, a.y as int, a.z as int),
            r == self.local_vec_spec(*a),
            bounded(r, 24 * scale()),
    {
        self.local(a.x, a.y, a.z)
    }
}

/// One term of a basis combination stays within a few units.
proof fn lemma_onb_term(v: V3, s: int)
    requires
        bounded(v, 4 * scale()),
        abs(s) <= 2 * scale(),
    ensures
        bounded(scale_spec(v, s), 8 * scale()),
{
    crate::math::lemma_mul_abs_bound(v.x as int, s, 262144, 131072);
    crate::math::lemma_mul_abs_bound(v.y as int, s, 262144, 131072);
    crate::math::lemma_mul_abs_bound(v.z as int, s, 262144, 131072);
    crate::math::lemma_tdiv_quot_bound(v.x * s, scale(), 524288);
    crate::math::lemma_tdiv_quot_bound(v.y * s, scale(), 524288);
    crate::math::lemma_tdiv_quot_bound(v.z * s, scale(), 524288);
}

} // verus!
