//! Vector and matrix primitives on exact integer coordinates.
//!
//! All components are `i64` values in whatever unit the caller chooses;
//! every operation states its result exactly. The homogeneous transform
//! performs its perspective divide with Euclidean division, which is also
//! stated exactly.

use vstd::prelude::*;

verus! {

/// Bound on coordinates and matrix entries accepted by the arithmetic
/// operations, chosen so that all intermediate products fit in `i64`.
pub const MAX_COORD: i64 = 0x2000_0000;

/// Does `v` lie within the coordinate range the operations accept?
pub open spec fn in_range(v: i64) -> bool {
    -MAX_COORD <= v <= MAX_COORD
}

/// A 2-component integer vector.
#[derive(Clone, Copy, Debug, PartialEq, Eq, Structural)]
pub struct Vec2 {
    pub x: i64,
    pub y: i64,
}

/// A 3-component integer vector.
#[derive(Clone, Copy, Debug, PartialEq, Eq, Structural)]
pub struct Vec3 {
    pub x: i64,
    pub y: i64,
    pub z: i64,
}

/// Are all components of `v` within the accepted coordinate range?
pub open spec fn vec3_in_range(v: Vec3) -> bool {
    in_range(v.x) && in_range(v.y) && in_range(v.z)
}

/// `|a * b| <= m * n` when `|a| <= m` and `|b| <= n`.
pub proof fn lemma_mul_bound(a: int, b: int, m: int, n: int)
    by (nonlinear_arith)
    requires
        -m <= a <= m,
        -n <= b <= n,
        0 <= m,
        0 <= n,
    ensures
        -(m * n) <= a * b <= m * n,
{
}

impl Vec2 {
    /// Builds a vector from its components.
    pub fn new(x: i64, y: i64) -> (v: Vec2)
        ensures
            v == (Vec2 { x, y }),
    {
        Vec2 { x, y }
    }

    /// Builds a vector with both components equal to `d`.
    pub fn splat(d: i64) -> (v: Vec2)
        ensures
            v == (Vec2 { x: d, y: d }),
    {
        Vec2 { x: d, y: d }
    }

    /// Drops the `z` component of a 3-component vector.
    pub fn from_vec3(vec: &Vec3) -> (v: Vec2)
        ensures
            v == (Vec2 { x: vec.x, y: vec.y }),
    {
        Vec2 { x: vec.x, y: vec.y }
    }
}

impl Vec3 {
    /// Builds a vector from its components.
    pub fn new(x: i64, y: i64, z: i64) -> (v: Vec3)
        ensures
            v == (Vec3 { x, y, z }),
    {
        Vec3 { x, y, z }
    }

    /// Builds a vector with all three components equal to `d`.
    pub fn splat(d: i64) -> (v: Vec3)
        ensures
            v == (Vec3 { x: d, y: d, z: d }),
    {
        Vec3 { x: d, y: d, z: d }
    }

    /// Extends a 2-component vector with a `z` component.
    pub fn from_vec2(vec: &Vec2, z: i64) -> (v: Vec3)
        ensures
            v == (Vec3 { x: vec.x, y: vec.y, z }),
    {
        Vec3 { x: vec.x, y: vec.y, z }
    }

    /// Vector dot product, exact.
    pub fn dot(&self, v: &Vec3) -> (r: i64)
        requires
            vec3_in_range(*self),
            vec3_in_range(*v),
        ensures
            r == self.x * v.x + self.y * v.y + self.z * v.z,
    {
        proof {
            lemma_mul_bound(self.x as int, v.x as int, MAX_COORD as int, MAX_COORD as int);
            lemma_mul_bound(self.y as int, v.y as int, MAX_COORD as int, MAX_COORD as int);
            lemma_mul_bound(self.z as int, v.z as int, MAX_COORD as int, MAX_COORD as int);
        }
        self.x * v.x + self.y * v.y + self.z * v.z
    }

    /// Vector cross product, exact.
    pub fn cross(&self, v: &Vec3) -> (r: Vec3)
        requires
            vec3_in_range(*self),
            vec3_in_range(*v),
        ensures
            r.x == self.y * v.z - self.z * v.y,
            r.y == self.z * v.x - self.x * v.z,
            r.z == self.x * v.y - self.y * v.x,
    {
        proof {
            lemma_mul_bound(self.y as int, v.z as int, MAX_COORD as int, MAX_COORD as int);
            lemma_mul_bound(self.z as int, v.y as int, MAX_COORD as int, MAX_COORD as int);
            lemma_mul_bound(self.z as int, v.x as int, MAX_COORD as int, MAX_COORD as int);
            lemma_mul_bound(self.x as int, v.z as int, MAX_COORD as int, MAX_COORD as int);
            lemma_mul_bound(self.x as int, v.y as int, MAX_COORD as int, MAX_COORD as int);
            lemma_mul_bound(self.y as int, v.x as int, MAX_COORD as int, MAX_COORD as int);
        }
        Vec3 {
            x: self.y * v.z - self.z * v.y,
            y: self.z * v.x - self.x * v.z,
            z: self.x * v.y - self.y * v.x,
        }
    }

    /// Multiplies by the upper-left 3x3 part of `matrix`, treating `self`
    /// as a row vector. Exact.
    pub fn mult_matrix(&self, matrix: &Matrix44) -> (r: Vec3)
        requires
            vec3_in_range(*self),
            matrix.in_range(),
        ensures
            r.x == self.x * matrix.m00 + self.y * matrix.m10 + self.z * matrix.m20,
            r.y == self.x * matrix.m01 + self.y * matrix.m11 + self.z * matrix.m21,
            r.z == self.x * matrix.m02 + self.y * matrix.m12 + self.z * matrix.m22,
    {
        Vec3 {
            x: dot3(self.x, self.y, self.z, matrix.m00, matrix.m10, matrix.m20),
            y: dot3(self.x, self.y, self.z, matrix.m01, matrix.m11, matrix.m21),
            z: dot3(self.x, self.y, self.z, matrix.m02, matrix.m12, matrix.m22),
        }
    }

    /// Multiplies by the full 4x4 matrix as the homogeneous row vector
    /// `(x, y, z, 1)`, then converts back to cartesian coordinates by
    /// dividing by the resulting homogeneous weight (Euclidean division).
    pub fn homogeneous_mult_matrix(&self, matrix: &Matrix44) -> (r: Vec3)
        requires
            vec3_in_range(*self),
            matrix.in_range(),
            hom_w(*self, *matrix) != 0,
        ensures
            r.x == hom_x(*self, *matrix) / hom_w(*self, *matrix),
            r.y == hom_y(*self, *matrix) / hom_w(*self, *matrix),
            r.z == hom_z(*self, *matrix) / hom_w(*self, *matrix),
            -hom_result_bound() <= r.x <= hom_result_bound(),
            -hom_result_bound() <= r.y <= hom_result_bound(),
            -hom_result_bound() <= r.z <= hom_result_bound(),
    {
        let t0 = dot3(self.x, self.y, self.z, matrix.m00, matrix.m10, matrix.m20) + matrix.m30;
        let t1 = dot3(self.x, self.y, self.z, matrix.m01, matrix.m11, matrix.m21) + matrix.m31;
        let t2 = dot3(self.x, self.y, self.z, matrix.m02, matrix.m12, matrix.m22) + matrix.m32;
        let t3 = dot3(self.x, self.y, self.z, matrix.m03, matrix.m13, matrix.m23) + matrix.m33;
        Vec3 {
            x: div_euclid_i64(t0, t3),
            y: div_euclid_i64(t1, t3),
            z: div_euclid_i64(t2, t3),
        }
    }
}

/// Sum of three products of range-bounded values; used by the matrix
/// operations. Exact.
fn dot3(a0: i64, a1: i64, a2: i64, b0: i64, b1: i64, b2: i64) -> (r: i64)
    requires
        in_range(a0) && in_range(a1) && in_range(a2),
        in_range(b0) && in_range(b1) && in_range(b2),
    ensures
        r == a0 * b0 + a1 * b1 + a2 * b2,
        -3 * (MAX_COORD as int) * (MAX_COORD as int) <= r <= 3 * (MAX_COORD as int) * (MAX_COORD as int),
{
    proof {
        lemma_mul_bound(a0 as int, b0 as int, MAX_COORD as int, MAX_COORD as int);
        lemma_mul_bound(a1 as int, b1 as int, MAX_COORD as int, MAX_COORD as int);
        lemma_mul_bound(a2 as int, b2 as int, MAX_COORD as int, MAX_COORD as int);
    }
    a0 * b0 + a1 * b1 + a2 * b2
}

/// Euclidean quotient of two `i64` values; the quotient has magnitude
/// at most that of the dividend, so it stays in `i64` range.
pub(crate) fn div_euclid_i64(a: i64, b: i64) -> (r: i64)
    requires
        b != 0,
        a > i64::MIN,
    ensures
        r == a as int / b as int,
        a >= 0 ==> -(a as int) <= r <= a,
        a <= 0 ==> a <= r <= -(a as int),
{
    proof {
        assert((a as int) * 1 == a as int);
        lemma_scaled_quotient_range(a as int, 1, b as int);
    }
    match a.checked_div_euclid(b) {
        Some(q) => q,
        None => {
            proof {
                assert(false);  // the quotient was proved to be in range
            }
            0
        },
    }
}

/// For `1 <= zn <= |d|` the Euclidean quotient `(a * zn) / d` has
/// magnitude at most `|a|`.
pub proof fn lemma_scaled_quotient_range(a: int, zn: int, d: int)
    requires
        1 <= zn,
        zn <= d || d <= -zn,
    ensures
        a >= 0 ==> -a <= (a * zn) / d <= a,
        a <= 0 ==> a <= (a * zn) / d <= -a,
{
    let n = a * zn;
    vstd::arithmetic::div_mod::lemma_fundamental_div_mod(n, d);
    let q = n / d;
    let r = n % d;
    assert(0 <= r < (if d > 0 { d } else { -d }));
    assert((a >= 0 ==> -a <= q <= a) && (a <= 0 ==> a <= q <= -a)) by (nonlinear_arith)
        requires
            n == d * q + r,
            0 <= r < (if d > 0 { d } else { -d }),
            n == a * zn,
            1 <= zn,
            zn <= d || d <= -zn,
    ;
}

/// Bound on the components a homogeneous transform of range-bounded
/// inputs can produce.
pub open spec fn hom_result_bound() -> int {
    3 * (MAX_COORD as int) * (MAX_COORD as int) + MAX_COORD
}

/// The homogeneous x component of `(v, 1) * m` before the divide.
pub open spec fn hom_x(v: Vec3, m: Matrix44) -> int {
    v.x * m.m00 + v.y * m.m10 + v.z * m.m20 + m.m30
}

/// The homogeneous y component of `(v, 1) * m` before the divide.
pub open spec fn hom_y(v: Vec3, m: Matrix44) -> int {
    v.x * m.m01 + v.y * m.m11 + v.z * m.m21 + m.m31
}

/// The homogeneous z component of `(v, 1) * m` before the divide.
pub open spec fn hom_z(v: Vec3, m: Matrix44) -> int {
    v.x * m.m02 + v.y * m.m12 + v.z * m.m22 + m.m32
}

/// The homogeneous weight of `(v, 1) * m`.
pub open spec fn hom_w(v: Vec3, m: Matrix44) -> int {
    v.x * m.m03 + v.y * m.m13 + v.z * m.m23 + m.m33
}

/// A 4x4 integer matrix in row-major order: `mIJ` is row `I`, column `J`.
#[derive(Clone, Copy, Debug, PartialEq, Eq, Structural)]
pub struct Matrix44 {
    pub m00: i64, pub m01: i64, pub m02: i64, pub m03: i64,
    pub m10: i64, pub m11: i64, pub m12: i64, pub m13: i64,
    pub m20: i64, pub m21: i64, pub m22: i64, pub m23: i64,
    pub m30: i64, pub m31: i64, pub m32: i64, pub m33: i64,
}

impl Matrix44 {
    /// Are all entries within the accepted coordinate range?
    pub open spec fn in_range(&self) -> bool {
        in_range(self.m00) && in_range(self.m01) && in_range(self.m02) && in_range(self.m03)
        && in_range(self.m10) && in_range(self.m11) && in_range(self.m12) && in_range(self.m13)
        && in_range(self.m20) && in_range(self.m21) && in_range(self.m22) && in_range(self.m23)
        && in_range(self.m30) && in_range(self.m31) && in_range(self.m32) && in_range(self.m33)
    }

    /// Builds a matrix from a row-major array of rows.
    pub fn new(m: [[i64; 4]; 4]) -> (r: Matrix44)
        ensures
            r.m00 == m[0][0] && r.m01 == m[0][1] && r.m02 == m[0][2] && r.m03 == m[0][3],
            r.m10 == m[1][0] && r.m11 == m[1][1] && r.m12 == m[1][2] && r.m13 == m[1][3],
            r.m20 == m[2][0] && r.m21 == m[2][1] && r.m22 == m[2][2] && r.m23 == m[2][3],
            r.m30 == m[3][0] && r.m31 == m[3][1] && r.m32 == m[3][2] && r.m33 == m[3][3],
    {
        Matrix44 {
            m00: m[0][0], m01: m[0][1], m02: m[0][2], m03: m[0][3],
            m10: m[1][0], m11: m[1][1], m12: m[1][2], m13: m[1][3],
            m20: m[2][0], m21: m[2][1], m22: m[2][2], m23: m[2][3],
            m30: m[3][0], m31: m[3][1], m32: m[3][2], m33: m[3][3],
        }
    }

    /// The identity matrix.
    pub fn identity() -> (r: Matrix44)
        ensures
            r == Matrix44::identity_spec(),
    {
        Matrix44 {
            m00: 1, m01: 0, m02: 0, m03: 0,
            m10: 0, m11: 1, m12: 0, m13: 0,
            m20: 0, m21: 0, m22: 1, m23: 0,
            m30: 0, m31: 0, m32: 0, m33: 1,
        }
    }

    /// The identity matrix as a spec value.
    pub open spec fn identity_spec() -> Matrix44 {
        Matrix44 {
            m00: 1, m01: 0, m02: 0, m03: 0,
            m10: 0, m11: 1, m12: 0, m13: 0,
            m20: 0, m21: 0, m22: 1, m23: 0,
            m30: 0, m31: 0, m32: 0, m33: 1,
        }
    }

    /// The transpose of `self`.
    pub fn transpose(&self) -> (r: Matrix44)
        ensures
            r.m00 == self.m00 && r.m01 == self.m10 && r.m02 == self.m20 && r.m03 == self.m30,
            r.m10 == self.m01 && r.m11 == self.m11 && r.m12 == self.m21 && r.m13 == self.m31,
            r.m20 == self.m02 && r.m21 == self.m12 && r.m22 == self.m22 && r.m23 == self.m32,
            r.m30 == self.m03 && r.m31 == self.m13 && r.m32 == self.m23 && r.m33 == self.m33,
    {
        Matrix44 {
            m00: self.m00, m01: self.m10, m02: self.m20, m03: self.m30,
            m10: self.m01, m11: self.m11, m12: self.m21, m13: self.m31,
            m20: self.m02, m21: self.m12, m22: self.m22, m23: self.m32,
            m30: self.m03, m31: self.m13, m32: self.m23, m33: self.m33,
        }
    }

    /// Standard matrix multiplication `self * rhs` (row times column
    /// sums), exact.
    pub fn multiply(&self, rhs: &Matrix44) -> (r: Matrix44)
        requires
            self.in_range(),
            rhs.in_range(),
        ensures
            r.m00 == Matrix44::mul_entry(*self, *rhs, 0, 0),
            r.m01 == Matrix44::mul_entry(*self, *rhs, 0, 1),
            r.m02 == Matrix44::mul_entry(*self, *rhs, 0, 2),
            r.m03 == Matrix44::mul_entry(*self, *rhs, 0, 3),
            r.m10 == Matrix44::mul_entry(*self, *rhs, 1, 0),
            r.m11 == Matrix44::mul_entry(*self, *rhs, 1, 1),
            r.m12 == Matrix44::mul_entry(*self, *rhs, 1, 2),
            r.m13 == Matrix44::mul_entry(*self, *rhs, 1, 3),
            r.m20 == Matrix44::mul_entry(*self, *rhs, 2, 0),
            r.m21 == Matrix44::mul_entry(*self, *rhs, 2, 1),
            r.m22 == Matrix44::mul_entry(*self, *rhs, 2, 2),
            r.m23 == Matrix44::mul_entry(*self, *rhs, 2, 3),
            r.m30 == Matrix44::mul_entry(*self, *rhs, 3, 0),
            r.m31 == Matrix44::mul_entry(*self, *rhs, 3, 1),
            r.m32 == Matrix44::mul_entry(*self, *rhs, 3, 2),
            r.m33 == Matrix44::mul_entry(*self, *rhs, 3, 3),
    {
        Matrix44 {
            m00: dot4(self.m00, self.m01, self.m02, self.m03, rhs.m00, rhs.m10, rhs.m20, rhs.m30),
            m01: dot4(self.m00, self.m01, self.m02, self.m03, rhs.m01, rhs.m11, rhs.m21, rhs.m31),
            m02: dot4(self.m00, self.m01, self.m02, self.m03, rhs.m02, rhs.m12, rhs.m22, rhs.m32),
            m03: dot4(self.m00, self.m01, self.m02, self.m03, rhs.m03, rhs.m13, rhs.m23, rhs.m33),
            m10: dot4(self.m10, self.m11, self.m12, self.m13, rhs.m00, rhs.m10, rhs.m20, rhs.m30),
            m11: dot4(self.m10, self.m11, self.m12, self.m13, rhs.m01, rhs.m11, rhs.m21, rhs.m31),
            m12: dot4(self.m10, self.m11, self.m12, self.m13, rhs.m02, rhs.m12, rhs.m22, rhs.m32),
            m13: dot4(self.m10, self.m11, self.m12, self.m13, rhs.m03, rhs.m13, rhs.m23, rhs.m33),
            m20: dot4(self.m20, self.m21, self.m22, self.m23, rhs.m00, rhs.m10, rhs.m20, rhs.m30),
            m21: dot4(self.m20, self.m21, self.m22, self.m23, rhs.m01, rhs.m11, rhs.m21, rhs.m31),
            m22: dot4(self.m20, self.m21, self.m22, self.m23, rhs.m02, rhs.m12, rhs.m22, rhs.m32),
            m23: dot4(self.m20, self.m21, self.m22, self.m23, rhs.m03, rhs.m13, rhs.m23, rhs.m33),
            m30: dot4(self.m30, self.m31, self.m32, self.m33, rhs.m00, rhs.m10, rhs.m20, rhs.m30),
            m31: dot4(self.m30, self.m31, self.m32, self.m33, rhs.m01, rhs.m11, rhs.m21, rhs.m31),
            m32: dot4(self.m30, self.m31, self.m32, self.m33, rhs.m02, rhs.m12, rhs.m22, rhs.m32),
            m33: dot4(self.m30, self.m31, self.m32, self.m33, rhs.m03, rhs.m13, rhs.m23, rhs.m33),
        }
    }

    /// Entry `(i, j)` of the product of two matrices.
    pub open spec fn mul_entry(a: Matrix44, b: Matrix44, i: int, j: int) -> int {
        a.row(i, 0) * b.row(0, j) + a.row(i, 1) * b.row(1, j) + a.row(i, 2) * b.row(2, j)
            + a.row(i, 3) * b.row(3, j)
    }

    /// Entry `(i, j)` of `self`, as a spec value.
    pub open spec fn row(&self, i: int, j: int) -> i64 {
        if i == 0 {
            if j == 0 { self.m00 } else if j == 1 { self.m01 } else if j == 2 { self.m02 } else { self.m03 }
        } else if i == 1 {
            if j == 0 { self.m10 } else if j == 1 { self.m11 } else if j == 2 { self.m12 } else { self.m13 }
        } else if i == 2 {
            if j == 0 { self.m20 } else if j == 1 { self.m21 } else if j == 2 { self.m22 } else { self.m23 }
        } else {
            if j == 0 { self.m30 } else if j == 1 { self.m31 } else if j == 2 { self.m32 } else { self.m33 }
        }
    }
}

/// Sum of four products of range-bounded values; used by the matrix
/// multiplication. Exact.
fn dot4(a0: i64, a1: i64, a2: i64, a3: i64, b0: i64, b1: i64, b2: i64, b3: i64) -> (r: i64)
    requires
        in_range(a0) && in_range(a1) && in_range(a2) && in_range(a3),
        in_range(b0) && in_range(b1) && in_range(b2) && in_range(b3),
    ensures
        r == a0 * b0 + a1 * b1 + a2 * b2 + a3 * b3,
{
    proof {
        lemma_mul_bound(a0 as int, b0 as int, MAX_COORD as int, MAX_COORD as int);
        lemma_mul_bound(a1 as int, b1 as int, MAX_COORD as int, MAX_COORD as int);
        lemma_mul_bound(a2 as int, b2 as int, MAX_COORD as int, MAX_COORD as int);
        lemma_mul_bound(a3 as int, b3 as int, MAX_COORD as int, MAX_COORD as int);
    }
    a0 * b0 + a1 * b1 + a2 * b2 + a3 * b3
}

} // verus!
