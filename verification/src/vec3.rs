//! Simple 3d vector library over fixed-point scalars.

use vstd::prelude::*;

use crate::math::{
    abs, div_fx, isqrt, lemma_mul_abs_bound, lemma_sqrt_floor_bounds,
    lemma_tdiv_bound, lemma_tdiv_quot_bound, mul_fx, scale, sqrt_floor, tdiv, tdiv_i128,
    wide_mul, SCALE,
};

verus! {

/// Largest magnitude a coordinate may have while every product this module
/// forms still fits its machine type.
pub const CMAX: i64 = 0x4000_0000;

/// [`CMAX`] as a mathematical integer, for use in specifications.
pub open spec fn cmax() -> int {
    0x4000_0000
}

/// Simple 3d vector of fixed-point scalars.
#[derive(Copy, Debug, PartialEq, Eq, Structural, Clone)]
pub struct V3 {
    /// X component of vector.
    pub x: i64,
    /// Y component of vector.
    pub y: i64,
    /// Z component of vector.
    pub z: i64,
}

/// Every component's magnitude stays within `m`.
pub open spec fn bounded(v: V3, m: int) -> bool {
    abs(v.x as int) <= m && abs(v.y as int) <= m && abs(v.z as int) <= m
}

/// Unscaled inner product: the sum of the componentwise products, which
/// carries two factors of the fixed-point scale.
pub open spec fn dot_raw(a: V3, b: V3) -> int {
    a.x * b.x + a.y * b.y + a.z * b.z
}

/// A vector's squared length is nonnegative, vanishes exactly on the zero
/// vector, and dominates the square of every component.
pub proof fn lemma_dot_raw_self(v: V3)
    ensures
        dot_raw(v, v) >= 0,
        dot_raw(v, v) == 0 <==> (v.x == 0 && v.y == 0 && v.z == 0),
        v.x * v.x <= dot_raw(v, v),
        v.y * v.y <= dot_raw(v, v),
        v.z * v.z <= dot_raw(v, v),
{
    assert(v.x * v.x >= 0 && v.y * v.y >= 0 && v.z * v.z >= 0
        && (v.x != 0 ==> v.x * v.x > 0)
        && (v.y != 0 ==> v.y * v.y > 0)
        && (v.z != 0 ==> v.z * v.z > 0)) by (nonlinear_arith);
}

/// No component's magnitude exceeds the vector's length.
pub proof fn lemma_component_le_length(c: int, n: int)
    requires
        n >= 0,
        c * c <= n,
    ensures
        abs(c) <= sqrt_floor(n),
{
    lemma_sqrt_floor_bounds(n);
    let s = sqrt_floor(n);
    if abs(c) > s {
        assert((s + 1) * (s + 1) <= abs(c) * abs(c)) by (nonlinear_arith)
            requires 0 <= s, s < abs(c);
        assert(abs(c) * abs(c) == c * c) by (nonlinear_arith);
    }
}

/// Two in-range coordinates multiply to a product whose rescaled quotient
/// fits a machine scalar.
proof fn lemma_prod_fits(a: int, b: int, m: int, n: int)
    requires
        abs(a) <= m,
        abs(b) <= n,
        0 <= m,
        0 <= n,
        m * n <= 0x7fff_ffff_ffff_ffff * 65536,
    ensures
        abs(a * b) <= m * n,
        -0x8000_0000_0000_0000 <= tdiv(a * b, scale()),
        tdiv(a * b, scale()) < 0x8000_0000_0000_0000,
        abs(tdiv(a * b, scale())) <= m * n,
{
    lemma_mul_abs_bound(a, b, m, n);
    lemma_tdiv_bound(a * b, scale());
    lemma_tdiv_quot_bound(a * b, scale(), 0x7fff_ffff_ffff_ffff);
}

impl V3 {
    /// Returns new Vector.
    #[inline]
    pub fn new(x: i64, y: i64, z: i64) -> (r: V3)
        ensures
            r == (V3 { x, y, z }),
    {
        V3 { x, y, z }
    }

    /// The zero vector.
    pub fn zero() -> (r: V3)
        ensures
            r == (V3 { x: 0i64, y: 0i64, z: 0i64 }),
    {
        V3 { x: 0, y: 0, z: 0 }
    }

    /// All components lie within [`CMAX`].
    pub open spec fn in_range(self) -> bool {
        bounded(self, cmax())
    }

    /// Runtime check for [`V3::in_range`].
    pub fn is_in_range(&self) -> (r: bool)
        ensures
            r == self.in_range(),
    {
        -CMAX <= self.x && self.x <= CMAX && -CMAX <= self.y && self.y <= CMAX
            && -CMAX <= self.z && self.z <= CMAX
    }

    /// Componentwise sum.
    pub fn add(self, other: V3) -> (r: V3)
        requires
            -0x8000_0000_0000_0000 <= self.x + other.x < 0x8000_0000_0000_0000,
            -0x8000_0000_0000_0000 <= self.y + other.y < 0x8000_0000_0000_0000,
            -0x8000_0000_0000_0000 <= self.z + other.z < 0x8000_0000_0000_0000,
        ensures
            r.x == self.x + other.x,
            r.y == self.y + other.y,
            r.z == self.z + other.z,
    {
        V3 { x: self.x + other.x, y: self.y + other.y, z: self.z + other.z }
    }

    /// Componentwise difference.
    pub fn sub(self, other: V3) -> (r: V3)
        requires
            -0x8000_0000_0000_0000 <= self.x - other.x < 0x8000_0000_0000_0000,
            -0x8000_0000_0000_0000 <= self.y - other.y < 0x8000_0000_0000_0000,
            -0x8000_0000_0000_0000 <= self.z - other.z < 0x8000_0000_0000_0000,
        ensures
            r.x == self.x - other.x,
            r.y == self.y - other.y,
            r.z == self.z - other.z,
    {
        V3 { x: self.x - other.x, y: self.y - other.y, z: self.z - other.z }
    }

    /// Componentwise negation.
    pub fn neg(self) -> (r: V3)
        requires
            self.x != i64::MIN,
            self.y != i64::MIN,
            self.z != i64::MIN,
        ensures
            r.x == -self.x,
            r.y == -self.y,
            r.z == -self.z,
    {
        V3 { x: -self.x, y: -self.y, z: -self.z }
    }

    /// Multiply Vector by a scalar.
    pub fn scale_by(self, s: i64) -> (r: V3)
        requires
            self.in_range(),
            abs(s as int) <= 0x1_2000_0000,
        ensures
            r.x == tdiv(self.x * s, scale()),
            r.y == tdiv(self.y * s, scale()),
            r.z == tdiv(self.z * s, scale()),
            bounded(r, cmax() * 0x1_2000_0000),
    {
        proof {
            lemma_prod_fits(self.x as int, s as int, cmax(), 0x1_2000_0000);
            lemma_prod_fits(self.y as int, s as int, cmax(), 0x1_2000_0000);
            lemma_prod_fits(self.z as int, s as int, cmax(), 0x1_2000_0000);
        }
        V3 { x: mul_fx(self.x, s), y: mul_fx(self.y, s), z: mul_fx(self.z, s) }
    }

    /// Multiply Vector by another Vector element-wise.
    pub fn mul(self, other: V3) -> (r: V3)
        requires
            self.in_range(),
            other.in_range(),
        ensures
            r.x == tdiv(self.x * other.x, scale()),
            r.y == tdiv(self.y * other.y, scale()),
            r.z == tdiv(self.z * other.z, scale()),
    {
        proof {
            lemma_prod_fits(self.x as int, other.x as int, cmax(), cmax());
            lemma_prod_fits(self.y as int, other.y as int, cmax(), cmax());
            lemma_prod_fits(self.z as int, other.z as int, cmax(), cmax());
        }
        V3 {
            x: mul_fx(self.x, other.x),
            y: mul_fx(self.y, other.y),
            z: mul_fx(self.z, other.z),
        }
    }

    /// Divide Vector by another Vector element-wise.
    pub fn div(self, other: V3) -> (r: V3)
        requires
            self.in_range(),
            other.x != 0,
            other.y != 0,
            other.z != 0,
        ensures
            r.x == tdiv(self.x * scale(), other.x as int),
            r.y == tdiv(self.y * scale(), other.y as int),
            r.z == tdiv(self.z * scale(), other.z as int),
    {
        proof {
            lemma_prod_fits(self.x as int, scale(), cmax(), scale());
            lemma_prod_fits(self.y as int, scale(), cmax(), scale());
            lemma_prod_fits(self.z as int, scale(), cmax(), scale());
            lemma_tdiv_bound(self.x * scale(), other.x as int);
            lemma_tdiv_bound(self.y * scale(), other.y as int);
            lemma_tdiv_bound(self.z * scale(), other.z as int);
        }
        V3 {
            x: div_fx(self.x, other.x),
            y: div_fx(self.y, other.y),
            z: div_fx(self.z, other.z),
        }
    }

    /// Dot product of two Vectors.
    pub fn dot(self, other: V3) -> (r: i64)
        requires
            self.in_range(),
            other.in_range(),
        ensures
            r == tdiv(dot_raw(self, other), scale()),
            abs(r as int) <= 3 * cmax() * cmax(),
    {
        proof {
            lemma_mul_abs_bound(self.x as int, other.x as int, cmax(), cmax());
            lemma_mul_abs_bound(self.y as int, other.y as int, cmax(), cmax());
            lemma_mul_abs_bound(self.z as int, other.z as int, cmax(), cmax());
            lemma_tdiv_bound(dot_raw(self, other), scale());
        }
        let p = wide_mul(self.x, other.x) + wide_mul(self.y, other.y)
            + wide_mul(self.z, other.z);
        let q = tdiv_i128(p, 65536);
        q as i64
    }

    /// Dot product of two Vectors whose coordinates may exceed the plain
    /// coordinate range, as long as the products still fit.
    pub fn dot_wide(self, other: V3) -> (r: i64)
        requires
            abs(self.x * other.x) + abs(self.y * other.y) + abs(self.z * other.z)
                <= 0x1000_0000_0000_0000_0000_0000_0000_0000,
            abs(dot_raw(self, other)) <= 0x7fff_ffff_ffff_ffff * 65536,
        ensures
            r == dot_fx(self, other),
    {
        proof {
            lemma_tdiv_quot_bound(dot_raw(self, other), scale(), 0x7fff_ffff_ffff_ffff);
        }
        let p = wide_mul(self.x, other.x) + wide_mul(self.y, other.y)
            + wide_mul(self.z, other.z);
        let q = tdiv_i128(p, 65536);
        q as i64
    }

    /// Cross product of two Vectors.
    pub fn cross(self, other: V3) -> (r: V3)
        requires
            bounded(self, 2 * cmax()),
            bounded(other, 2 * cmax()),
        ensures
            r == cross_spec(self, other),
            r.x == tdiv(self.y * other.z - self.z * other.y, scale()),
            r.y == tdiv(self.z * other.x - self.x * other.z, scale()),
            r.z == tdiv(self.x * other.y - self.y * other.x, scale()),
    {
        proof {
            lemma_mul_abs_bound(self.y as int, other.z as int, 2 * cmax(), 2 * cmax());
            lemma_mul_abs_bound(self.z as int, other.y as int, 2 * cmax(), 2 * cmax());
            lemma_mul_abs_bound(self.z as int, other.x as int, 2 * cmax(), 2 * cmax());
            lemma_mul_abs_bound(self.x as int, other.z as int, 2 * cmax(), 2 * cmax());
            lemma_mul_abs_bound(self.x as int, other.y as int, 2 * cmax(), 2 * cmax());
            lemma_mul_abs_bound(self.y as int, other.x as int, 2 * cmax(), 2 * cmax());
            lemma_tdiv_bound(self.y * other.z - self.z * other.y, scale());
            lemma_tdiv_bound(self.z * other.x - self.x * other.z, scale());
            lemma_tdiv_bound(self.x * other.y - self.y * other.x, scale());
            lemma_tdiv_quot_bound(self.y * other.z - self.z * other.y, scale(),
                0x7fff_ffff_ffff_ffff);
            lemma_tdiv_quot_bound(self.z * other.x - self.x * other.z, scale(),
                0x7fff_ffff_ffff_ffff);
            lemma_tdiv_quot_bound(self.x * other.y - self.y * other.x, scale(),
                0x7fff_ffff_ffff_ffff);
        }
        let rx = tdiv_i128(
            wide_mul(self.y, other.z) - wide_mul(self.z, other.y),
            65536,
        );
        let ry = tdiv_i128(
            wide_mul(self.z, other.x) - wide_mul(self.x, other.z),
            65536,
        );
        let rz = tdiv_i128(
            wide_mul(self.x, other.y) - wide_mul(self.y, other.x),
            65536,
        );
        V3 { x: rx as i64, y: ry as i64, z: rz as i64 }
    }

    /// Squared length before rescaling, as the dot product of the vector
    /// with itself.
    pub open spec fn length_sq_raw(self) -> int {
        dot_raw(self, self)
    }

    /// Fixed-point length of the vector.
    pub open spec fn length_spec(self) -> int {
        sqrt_floor(self.length_sq_raw())
    }

    /// Returns length of the vector.
    pub fn length(self) -> (r: i64)
        requires
            bounded(self, 0x8000_0000_0000),
        ensures
            r == self.length_spec(),
            0 <= r <= 0x1_0000_0000_0000,
    {
        proof {
            lemma_dot_raw_self(self);
            lemma_mul_abs_bound(self.x as int, self.x as int, 0x8000_0000_0000,
                0x8000_0000_0000);
            lemma_mul_abs_bound(self.y as int, self.y as int, 0x8000_0000_0000,
                0x8000_0000_0000);
            lemma_mul_abs_bound(self.z as int, self.z as int, 0x8000_0000_0000,
                0x8000_0000_0000);
        }
        let p = wide_mul(self.x, self.x) + wide_mul(self.y, self.y)
            + wide_mul(self.z, self.z);
        let s = isqrt(p as u128);
        proof {
            lemma_sqrt_floor_bounds(self.length_sq_raw());
            if self.length_spec() > 0x1_0000_0000_0000 {
                assert(0x1_0000_0000_0000 * 0x1_0000_0000_0000
                    <= (self.length_spec() - 1) * (self.length_spec() - 1))
                    by (nonlinear_arith)
                    requires self.length_spec() > 0x1_0000_0000_0000;
                assert((self.length_spec() - 1) * (self.length_spec() - 1)
                    < self.length_spec() * self.length_spec()) by (nonlinear_arith)
                    requires self.length_spec() >= 1;
            }
        }
        s as i64
    }

    /// The normalized vector: each component rescaled by the length.
    pub open spec fn norm_spec(self) -> V3 {
        div_by_spec(self, self.length_spec())
    }

    /// Returns normalized vector, whose length equals one unit.
    pub fn norm(self) -> (r: V3)
        requires
            bounded(self, 0x8000_0000_0000),
            !(self.x == 0 && self.y == 0 && self.z == 0),
        ensures
            r == self.norm_spec(),
            r.x == tdiv(self.x * scale(), self.length_spec()),
            r.y == tdiv(self.y * scale(), self.length_spec()),
            r.z == tdiv(self.z * scale(), self.length_spec()),
            bounded(r, scale()),
    {
        proof {
            lemma_dot_raw_self(self);
            lemma_sqrt_floor_bounds(self.length_sq_raw());
        }
        let len = self.length();
        proof {
            lemma_component_le_length(self.x as int, self.length_sq_raw());
            lemma_component_le_length(self.y as int, self.length_sq_raw());
            lemma_component_le_length(self.z as int, self.length_sq_raw());
            lemma_norm_component(self.x as int, len as int);
            lemma_norm_component(self.y as int, len as int);
            lemma_norm_component(self.z as int, len as int);
        }
        V3 {
            x: div_fx(self.x, len),
            y: div_fx(self.y, len),
            z: div_fx(self.z, len),
        }
    }

    /// Returns vector rotated around Y axis by some angle, whose sine and
    /// cosine are supplied as fixed-point scalars.
    pub fn rot_y(self, sin: i64, cos: i64) -> (r: V3)
        requires
            self.in_range(),
            abs(sin as int) <= scale(),
            abs(cos as int) <= scale(),
        ensures
            r.x == tdiv(self.x * cos + self.z * sin, scale()),
            r.y == self.y,
            r.z == tdiv(cos * self.z - sin * self.x, scale()),
            bounded(r, 2 * cmax()),
    {
        proof {
            lemma_mul_abs_bound(self.x as int, cos as int, cmax(), scale());
            lemma_mul_abs_bound(self.z as int, sin as int, cmax(), scale());
            lemma_mul_abs_bound(cos as int, self.z as int, scale(), cmax());
            lemma_mul_abs_bound(sin as int, self.x as int, scale(), cmax());
            lemma_tdiv_bound(self.x * cos + self.z * sin, scale());
            lemma_tdiv_bound(cos * self.z - sin * self.x, scale());
            lemma_tdiv_quot_bound(self.x * cos + self.z * sin, scale(), 2 * cmax());
            lemma_tdiv_quot_bound(cos * self.z - sin * self.x, scale(), 2 * cmax());
        }
        let rx = tdiv_i128(wide_mul(self.x, cos) + wide_mul(self.z, sin), 65536);
        let rz = tdiv_i128(wide_mul(cos, self.z) - wide_mul(sin, self.x), 65536);
        V3 { x: rx as i64, y: self.y, z: rz as i64 }
    }

    /// Returns new vector, combined from two vectors, with smaller elements.
    pub fn min(self, other: V3) -> (r: V3)
        ensures
            r.x == if self.x <= other.x { self.x } else { other.x },
            r.y == if self.y <= other.y { self.y } else { other.y },
            r.z == if self.z <= other.z { self.z } else { other.z },
    {
        V3 {
            x: if self.x <= other.x { self.x } else { other.x },
            y: if self.y <= other.y { self.y } else { other.y },
            z: if self.z <= other.z { self.z } else { other.z },
        }
    }

    /// Returns new vector, combined from two vectors, with bigger elements.
    pub fn max(self, other: V3) -> (r: V3)
        ensures
            r.x == if self.x >= other.x { self.x } else { other.x },
            r.y == if self.y >= other.y { self.y } else { other.y },
            r.z == if self.z >= other.z { self.z } else { other.z },
    {
        V3 {
            x: if self.x >= other.x { self.x } else { other.x },
            y: if self.y >= other.y { self.y } else { other.y },
            z: if self.z >= other.z { self.z } else { other.z },
        }
    }

    /// Returns the smallest component from vector.
    pub fn min_component(self) -> (r: i64)
        ensures
            r == self.x || r == self.y || r == self.z,
            r <= self.x && r <= self.y && r <= self.z,
    {
        let m = if self.y <= self.z { self.y } else { self.z };
        if self.x <= m { self.x } else { m }
    }

    /// Returns the biggest component from vector.
    pub fn max_component(self) -> (r: i64)
        ensures
            r == self.x || r == self.y || r == self.z,
            r >= self.x && r >= self.y && r >= self.z,
    {
        let m = if self.y >= self.z { self.y } else { self.z };
        if self.x >= m { self.x } else { m }
    }

    /// Checks if the vector is indistinguishable from zero at fixed-point
    /// resolution.
    pub fn near_zero(&self) -> (r: bool)
        ensures
            r == (self.x == 0 && self.y == 0 && self.z == 0),
    {
        self.x == 0 && self.y == 0 && self.z == 0
    }
}

/// Componentwise sum, at the specification level.
pub open spec fn add_spec(a: V3, b: V3) -> V3 {
    V3 { x: (a.x + b.x) as i64, y: (a.y + b.y) as i64, z: (a.z + b.z) as i64 }
}

/// Componentwise difference, at the specification level.
pub open spec fn sub_spec(a: V3, b: V3) -> V3 {
    V3 { x: (a.x - b.x) as i64, y: (a.y - b.y) as i64, z: (a.z - b.z) as i64 }
}

/// Componentwise negation, at the specification level.
pub open spec fn neg_spec(a: V3) -> V3 {
    V3 { x: (-a.x) as i64, y: (-a.y) as i64, z: (-a.z) as i64 }
}

/// The vector scaled by a fixed-point scalar, at the specification level.
pub open spec fn scale_spec(a: V3, s: int) -> V3 {
    V3 {
        x: tdiv(a.x * s, scale()) as i64,
        y: tdiv(a.y * s, scale()) as i64,
        z: tdiv(a.z * s, scale()) as i64,
    }
}

/// The fixed-point dot product, at the specification level.
pub open spec fn dot_fx(a: V3, b: V3) -> int {
    tdiv(dot_raw(a, b), scale())
}

/// The fixed-point cross product, at the specification level.
pub open spec fn cross_spec(a: V3, b: V3) -> V3 {
    V3 {
        x: tdiv(a.y * b.z - a.z * b.y, scale()) as i64,
        y: tdiv(a.z * b.x - a.x * b.z, scale()) as i64,
        z: tdiv(a.x * b.y - a.y * b.x, scale()) as i64,
    }
}

/// A cross product of vectors with known coordinate bounds is bounded.
pub proof fn lemma_cross_bound(a: V3, b: V3, m: int, n: int, q: int)
    requires
        bounded(a, m),
        bounded(b, n),
        0 <= m,
        0 <= n,
        0 <= q,
        2 * (m * n) <= q * 65536,
    ensures
        bounded(cross_spec(a, b), q),
{
    lemma_mul_abs_bound(a.y as int, b.z as int, m, n);
    lemma_mul_abs_bound(a.z as int, b.y as int, m, n);
    lemma_mul_abs_bound(a.z as int, b.x as int, m, n);
    lemma_mul_abs_bound(a.x as int, b.z as int, m, n);
    lemma_mul_abs_bound(a.x as int, b.y as int, m, n);
    lemma_mul_abs_bound(a.y as int, b.x as int, m, n);
    lemma_tdiv_quot_bound(a.y * b.z - a.z * b.y, scale(), q);
    lemma_tdiv_quot_bound(a.z * b.x - a.x * b.z, scale(), q);
    lemma_tdiv_quot_bound(a.x * b.y - a.y * b.x, scale(), q);
}

/// The vector divided by a fixed-point scalar, at the specification level.
pub open spec fn div_by_spec(a: V3, s: int) -> V3 {
    V3 {
        x: tdiv(a.x * scale(), s) as i64,
        y: tdiv(a.y * scale(), s) as i64,
        z: tdiv(a.z * scale(), s) as i64,
    }
}

impl V3 {
    /// Divide Vector by a fixed-point scalar.
    pub fn div_by(self, s: i64) -> (r: V3)
        requires
            self.in_range(),
            s != 0,
        ensures
            r == div_by_spec(self, s as int),
    {
        proof {
            lemma_prod_fits(self.x as int, scale(), cmax(), scale());
            lemma_prod_fits(self.y as int, scale(), cmax(), scale());
            lemma_prod_fits(self.z as int, scale(), cmax(), scale());
            lemma_tdiv_bound(self.x * scale(), s as int);
            lemma_tdiv_bound(self.y * scale(), s as int);
            lemma_tdiv_bound(self.z * scale(), s as int);
        }
        V3 { x: div_fx(self.x, s), y: div_fx(self.y, s), z: div_fx(self.z, s) }
    }
}

/// The rotation of point `p` around `axis` by the angle whose half-angle
/// sine and cosine are `sin` and `cos`: the quaternion rotation matrix,
/// evaluated in fixed point.  The axis is normalized and scaled by the sine
/// to form the quaternion's imaginary part.
pub open spec fn rot_spec(p: V3, axis: V3, sin: int, cos: int) -> V3 {
    let al = axis.length_spec();
    let s_over = tdiv(sin * scale(), al);
    let q = scale_spec(axis, s_over);
    let s2 = tdiv(cos * cos, scale());
    let x2 = tdiv(q.x * q.x, scale());
    let y2 = tdiv(q.y * q.y, scale());
    let z2 = tdiv(q.z * q.z, scale());
    let xy = tdiv(q.x * q.y, scale());
    let xz = tdiv(q.x * q.z, scale());
    let yz = tdiv(q.y * q.z, scale());
    let sx = tdiv(cos * q.x, scale());
    let sy = tdiv(cos * q.y, scale());
    let sz = tdiv(cos * q.z, scale());
    let m00 = 2 * (s2 + x2) - scale();
    let m01 = 2 * (xy - sz);
    let m02 = 2 * (sy + xz);
    let m10 = 2 * (sz + xy);
    let m11 = 2 * (s2 + y2) - scale();
    let m12 = 2 * (yz - sx);
    let m20 = 2 * (xz - sy);
    let m21 = 2 * (sx + yz);
    let m22 = 2 * (s2 + z2) - scale();
    V3 {
        x: tdiv(m00 * p.x + m01 * p.y + m02 * p.z, scale()) as i64,
        y: tdiv(m10 * p.x + m11 * p.y + m12 * p.z, scale()) as i64,
        z: tdiv(m20 * p.x + m21 * p.y + m22 * p.z, scale()) as i64,
    }
}

/// A quaternion-component product of two near-unit scalars, rescaled, stays
/// near unit.
proof fn lemma_quat_prod(a: int, b: int)
    requires
        abs(a) <= 65536,
        abs(b) <= 65536,
    ensures
        abs(tdiv(a * b, scale())) <= 65536,
        -65536 <= tdiv(a * b, scale()) <= 65536,
{
    lemma_mul_abs_bound(a, b, 65536, 65536);
    lemma_tdiv_quot_bound(a * b, scale(), 65536);
    lemma_tdiv_bound(a * b, scale());
}

/// One row of the rotation matrix applied to an in-range point stays within
/// the wide scalar range.
proof fn lemma_rot_row(m0: int, m1: int, m2: int, p: V3)
    requires
        abs(m0) <= 327680,
        abs(m1) <= 327680,
        abs(m2) <= 327680,
        bounded(p, 4 * cmax()),
    ensures
        abs(m0 * p.x) + abs(m1 * p.y) + abs(m2 * p.z) <= 3 * 0x5_0000_0000_0000,
        abs(tdiv(m0 * p.x + m1 * p.y + m2 * p.z, scale())) <= 0x10_0000_0000,
{
    lemma_mul_abs_bound(m0, p.x as int, 327680, 4 * cmax());
    lemma_mul_abs_bound(m1, p.y as int, 327680, 4 * cmax());
    lemma_mul_abs_bound(m2, p.z as int, 327680, 4 * cmax());
    lemma_tdiv_quot_bound(m0 * p.x + m1 * p.y + m2 * p.z, scale(), 0x10_0000_0000);
}

impl V3 {
    /// Rotates the point around `axis`; `sin` and `cos` are precomputed and
    /// belong to half of the rotation angle, as the quaternion form needs.
    pub fn rot(self, axis: V3, sin: i64, cos: i64) -> (r: V3)
        requires
            bounded(self, 4 * cmax()),
            axis.in_range(),
            !(axis.x == 0 && axis.y == 0 && axis.z == 0),
            abs(sin as int) <= 65536,
            abs(cos as int) <= 65536,
        ensures
            r == rot_spec(self, axis, sin as int, cos as int),
            bounded(r, 0x10_0000_0000),
    {
        proof {
            lemma_dot_raw_self(axis);
            lemma_sqrt_floor_bounds(axis.length_sq_raw());
            if axis.length_spec() < 1 {
                assert(false);
            }
        }
        let al = axis.length();
        proof {
            lemma_mul_abs_bound(sin as int, scale(), 65536, scale());
            lemma_tdiv_bound(sin as int * scale(), al as int);
            crate::math::lemma_tdiv_mul_bound(sin as int * scale(), al as int);
        }
        let s_over = div_fx(sin, al);
        proof {
            lemma_component_le_length(axis.x as int, axis.length_sq_raw());
            lemma_component_le_length(axis.y as int, axis.length_sq_raw());
            lemma_component_le_length(axis.z as int, axis.length_sq_raw());
            lemma_axis_scaled_unit(axis.x as int, s_over as int, al as int, sin as int);
            lemma_axis_scaled_unit(axis.y as int, s_over as int, al as int, sin as int);
            lemma_axis_scaled_unit(axis.z as int, s_over as int, al as int, sin as int);
        }
        let q = axis.scale_by(s_over);
        proof {
            lemma_quat_prod(cos as int, cos as int);
            lemma_quat_prod(q.x as int, q.x as int);
            lemma_quat_prod(q.y as int, q.y as int);
            lemma_quat_prod(q.z as int, q.z as int);
            lemma_quat_prod(q.x as int, q.y as int);
            lemma_quat_prod(q.x as int, q.z as int);
            lemma_quat_prod(q.y as int, q.z as int);
            lemma_quat_prod(cos as int, q.x as int);
            lemma_quat_prod(cos as int, q.y as int);
            lemma_quat_prod(cos as int, q.z as int);
        }
        let s2 = mul_fx(cos, cos);
        let x2 = mul_fx(q.x, q.x);
        let y2 = mul_fx(q.y, q.y);
        let z2 = mul_fx(q.z, q.z);
        let xy = mul_fx(q.x, q.y);
        let xz = mul_fx(q.x, q.z);
        let yz = mul_fx(q.y, q.z);
        let sx = mul_fx(cos, q.x);
        let sy = mul_fx(cos, q.y);
        let sz = mul_fx(cos, q.z);
        let m00 = 2 * (s2 + x2) - SCALE;
        let m01 = 2 * (xy - sz);
        let m02 = 2 * (sy + xz);
        let m10 = 2 * (sz + xy);
        let m11 = 2 * (s2 + y2) - SCALE;
        let m12 = 2 * (yz - sx);
        let m20 = 2 * (xz - sy);
        let m21 = 2 * (sx + yz);
        let m22 = 2 * (s2 + z2) - SCALE;
        proof {
            lemma_rot_row(m00 as int, m01 as int, m02 as int, self);
            lemma_rot_row(m10 as int, m11 as int, m12 as int, self);
            lemma_rot_row(m20 as int, m21 as int, m22 as int, self);
        }
        let rx = tdiv_i128(
            wide_mul(m00, self.x) + wide_mul(m01, self.y) + wide_mul(m02, self.z),
            65536,
        );
        let ry = tdiv_i128(
            wide_mul(m10, self.x) + wide_mul(m11, self.y) + wide_mul(m12, self.z),
            65536,
        );
        let rz = tdiv_i128(
            wide_mul(m20, self.x) + wide_mul(m21, self.y) + wide_mul(m22, self.z),
            65536,
        );
        V3 { x: rx as i64, y: ry as i64, z: rz as i64 }
    }
}

/// A normalized axis component scaled by the half-angle sine stays within
/// one fixed-point unit.
proof fn lemma_axis_scaled_unit(c: int, s_over: int, al: int, sin: int)
    requires
        al >= 1,
        abs(c) <= al,
        abs(s_over * al) <= abs(sin * 65536),
        abs(sin) <= 65536,
        s_over == tdiv(sin * 65536, al),
    ensures
        abs(c * s_over) <= 65536 * 65536,
        abs(tdiv(c * s_over, scale())) <= 65536,
        -0x8000_0000_0000_0000 <= tdiv(c * s_over, scale()),
        tdiv(c * s_over, scale()) < 0x8000_0000_0000_0000,
        abs(s_over) <= 0x1_0000_0000,
{
    lemma_mul_abs_bound(sin, 65536, 65536, 65536);
    assert(abs(c * s_over) <= al * abs(s_over)) by (nonlinear_arith)
        requires abs(c) <= al, al >= 1;
    assert(al * abs(s_over) == abs(s_over * al)) by (nonlinear_arith)
        requires al >= 1;
    lemma_tdiv_quot_bound(c * s_over, scale(), 65536);
    lemma_tdiv_bound(c * s_over, scale());
    assert(abs(s_over) <= 0x1_0000_0000) by (nonlinear_arith)
        requires abs(s_over * al) <= 65536 * 65536, al >= 1;
}

/// An in-range vector's length fits well within the coordinate range.
pub proof fn lemma_length_in_range(v: V3)
    requires
        v.in_range(),
    ensures
        0 <= v.length_spec() <= 0x8000_0000,
{
    lemma_dot_raw_self(v);
    lemma_mul_abs_bound(v.x as int, v.x as int, cmax(), cmax());
    lemma_mul_abs_bound(v.y as int, v.y as int, cmax(), cmax());
    lemma_mul_abs_bound(v.z as int, v.z as int, cmax(), cmax());
    lemma_sqrt_floor_bounds(v.length_sq_raw());
    if v.length_spec() > 0x8000_0000 {
        assert(0x8000_0000 * 0x8000_0000 <= (v.length_spec() - 1) * (v.length_spec() - 1))
            by (nonlinear_arith)
            requires v.length_spec() > 0x8000_0000;
        assert((v.length_spec() - 1) * (v.length_spec() - 1)
            < v.length_spec() * v.length_spec()) by (nonlinear_arith)
            requires v.length_spec() >= 1;
        assert(v.length_spec() * v.length_spec() <= v.length_sq_raw());
    }
}

/// A coordinate bound on a vector bounds its length.
pub proof fn lemma_length_le(v: V3, m: int, l: int)
    requires
        bounded(v, m),
        0 <= m,
        1 <= l,
        3 * (m * m) < l * l,
    ensures
        0 <= v.length_spec() <= l,
{
    lemma_dot_raw_self(v);
    lemma_mul_abs_bound(v.x as int, v.x as int, m, m);
    lemma_mul_abs_bound(v.y as int, v.y as int, m, m);
    lemma_mul_abs_bound(v.z as int, v.z as int, m, m);
    lemma_sqrt_floor_bounds(v.length_sq_raw());
    if v.length_spec() > l {
        assert(l * l <= (v.length_spec() - 1) * (v.length_spec() - 1)) by (nonlinear_arith)
            requires 1 <= l, v.length_spec() > l;
        assert((v.length_spec() - 1) * (v.length_spec() - 1)
            < v.length_spec() * v.length_spec()) by (nonlinear_arith)
            requires v.length_spec() >= 1;
        assert(v.length_spec() * v.length_spec() <= v.length_sq_raw());
    }
}

/// A component of a normalized vector stays within one unit.
proof fn lemma_norm_component(c: int, len: int)
    requires
        len >= 1,
        abs(c) <= len,
    ensures
        abs(tdiv(c * scale(), len)) <= scale(),
        -0x8000_0000_0000_0000 <= tdiv(c * scale(), len),
        tdiv(c * scale(), len) < 0x8000_0000_0000_0000,
{
    lemma_mul_abs_bound(c, scale(), len, scale());
    lemma_tdiv_bound(c * scale(), len);
    assert(abs(c * scale()) <= len * scale()) by (nonlinear_arith)
        requires abs(c) <= len;
    assert(abs(c * scale()) / len <= scale()) by (nonlinear_arith)
        requires len >= 1, abs(c * scale()) <= len * scale();
}

} // verus!
