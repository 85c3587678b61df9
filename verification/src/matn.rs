//! Fixed-dimension square matrices over the fixed-point scalar.
//!
//! Matrices are built from row vectors; a column is gathered, not stored.
//! Every operation carries an exact contract over the entries' raw counts.
//! Compound operations (products, inverses) take inputs bounded by the
//! named magnitude limits, which keep every intermediate inside the
//! machine word.

use vstd::prelude::*;
use crate::fx::{Fx, FX_ONE, fxmul, fxdiv, fx_fits, isqrt, isqrt_u128, sabs, tdiv, lemma_isqrt,
    lemma_isqrt_unique, lemma_tdiv_mag, lemma_tdiv_rem, lemma_fxmul_bound};
use crate::vecn::{Vec2, Vec3, Vec4, dot2, dot3, dot4, dot2_ok, dot3_ok, dot4_ok,
    lemma_sq_bound, lemma_norm_dominates, lemma_unit_bound};

verus! {

/// Magnitude limit on entries fed to products: 2^31 raw counts, that is
/// 2^15 units.
pub const MAT_LIM: i64 = 0x8000_0000;

/// Magnitude limit on entries fed to sums: half the machine word.
pub const ADD_LIM: i64 = 0x3FFF_FFFF_FFFF_FFFF;

/// Magnitude limit on entries fed to inverses: 2^24 raw counts, that is
/// 2^8 units.
pub const INV_LIM: i64 = 0x100_0000;

/// Magnitude limit on entries fed to matrix norms: 2^60 raw counts.
pub const MNORM_LIM: i64 = 0xFFF_FFFF_FFFF_FFFF;

pub open spec fn v2_lim(v: Vec2, b: int) -> bool {
    &&& -b <= v.x@ <= b
    &&& -b <= v.y@ <= b
}

pub open spec fn v3_lim(v: Vec3, b: int) -> bool {
    &&& -b <= v.x@ <= b
    &&& -b <= v.y@ <= b
    &&& -b <= v.z@ <= b
}

pub open spec fn v4_lim(v: Vec4, b: int) -> bool {
    &&& -b <= v.x@ <= b
    &&& -b <= v.y@ <= b
    &&& -b <= v.z@ <= b
    &&& -b <= v.w@ <= b
}

pub open spec fn m2_lim(m: Mat2, b: int) -> bool {
    v2_lim(m.r0, b) && v2_lim(m.r1, b)
}

pub open spec fn m3_lim(m: Mat3, b: int) -> bool {
    v3_lim(m.r0, b) && v3_lim(m.r1, b) && v3_lim(m.r2, b)
}

pub open spec fn m4_lim(m: Mat4, b: int) -> bool {
    v4_lim(m.r0, b) && v4_lim(m.r1, b) && v4_lim(m.r2, b) && v4_lim(m.r3, b)
}

/// Dot products of product-bounded 2-vectors fit, and are bounded by
/// 2 * 2^46.
pub proof fn lemma_dot2_lim(a: Vec2, b: Vec2)
    requires
        v2_lim(a, MAT_LIM as int),
        v2_lim(b, MAT_LIM as int),
    ensures
        dot2_ok(a, b),
        -0x8000_0000_0000 <= dot2(a, b) <= 0x8000_0000_0000,
{
    lemma_fxmul_bound(a.x@, b.x@, MAT_LIM as int, MAT_LIM as int);
    lemma_fxmul_bound(a.y@, b.y@, MAT_LIM as int, MAT_LIM as int);
}

/// Dot products of product-bounded 3-vectors fit, and are bounded by
/// 3 * 2^46.
pub proof fn lemma_dot3_lim(a: Vec3, b: Vec3)
    requires
        v3_lim(a, MAT_LIM as int),
        v3_lim(b, MAT_LIM as int),
    ensures
        dot3_ok(a, b),
        -0xC000_0000_0000 <= dot3(a, b) <= 0xC000_0000_0000,
{
    lemma_fxmul_bound(a.x@, b.x@, MAT_LIM as int, MAT_LIM as int);
    lemma_fxmul_bound(a.y@, b.y@, MAT_LIM as int, MAT_LIM as int);
    lemma_fxmul_bound(a.z@, b.z@, MAT_LIM as int, MAT_LIM as int);
}

/// Dot products of product-bounded 4-vectors fit, and are bounded by 2^48.
pub proof fn lemma_dot4_lim(a: Vec4, b: Vec4)
    requires
        v4_lim(a, MAT_LIM as int),
        v4_lim(b, MAT_LIM as int),
    ensures
        dot4_ok(a, b),
        -0x1_0000_0000_0000 <= dot4(a, b) <= 0x1_0000_0000_0000,
{
    lemma_fxmul_bound(a.x@, b.x@, MAT_LIM as int, MAT_LIM as int);
    lemma_fxmul_bound(a.y@, b.y@, MAT_LIM as int, MAT_LIM as int);
    lemma_fxmul_bound(a.z@, b.z@, MAT_LIM as int, MAT_LIM as int);
    lemma_fxmul_bound(a.w@, b.w@, MAT_LIM as int, MAT_LIM as int);
}

/// A 2x2 matrix of fixed-point entries, two row vectors.
#[derive(Clone, Copy, Debug, PartialEq, Eq, Structural)]
pub struct Mat2 {
    pub r0: Vec2,
    pub r1: Vec2,
}

/// A 3x3 matrix of fixed-point entries, three row vectors.
#[derive(Clone, Copy, Debug, PartialEq, Eq, Structural)]
pub struct Mat3 {
    pub r0: Vec3,
    pub r1: Vec3,
    pub r2: Vec3,
}

/// A 4x4 matrix of fixed-point entries, four row vectors.
#[derive(Clone, Copy, Debug, PartialEq, Eq, Structural)]
pub struct Mat4 {
    pub r0: Vec4,
    pub r1: Vec4,
    pub r2: Vec4,
    pub r3: Vec4,
}

/// The `j`-th column of a 2x2 matrix.
pub open spec fn col2_spec(m: Mat2, j: int) -> Vec2 {
    if j == 0 {
        Vec2 { x: m.r0.x, y: m.r1.x }
    } else {
        Vec2 { x: m.r0.y, y: m.r1.y }
    }
}

/// The `j`-th column of a 3x3 matrix.
pub open spec fn col3_spec(m: Mat3, j: int) -> Vec3 {
    if j == 0 {
        Vec3 { x: m.r0.x, y: m.r1.x, z: m.r2.x }
    } else if j == 1 {
        Vec3 { x: m.r0.y, y: m.r1.y, z: m.r2.y }
    } else {
        Vec3 { x: m.r0.z, y: m.r1.z, z: m.r2.z }
    }
}

/// The `j`-th column of a 4x4 matrix.
pub open spec fn col4_spec(m: Mat4, j: int) -> Vec4 {
    if j == 0 {
        Vec4 { x: m.r0.x, y: m.r1.x, z: m.r2.x, w: m.r3.x }
    } else if j == 1 {
        Vec4 { x: m.r0.y, y: m.r1.y, z: m.r2.y, w: m.r3.y }
    } else if j == 2 {
        Vec4 { x: m.r0.z, y: m.r1.z, z: m.r2.z, w: m.r3.z }
    } else {
        Vec4 { x: m.r0.w, y: m.r1.w, z: m.r2.w, w: m.r3.w }
    }
}

/// Row/column swap of a 2x2 matrix.
pub open spec fn transpose2(m: Mat2) -> Mat2 {
    Mat2 { r0: col2_spec(m, 0), r1: col2_spec(m, 1) }
}

/// Row/column swap of a 3x3 matrix.
pub open spec fn transpose3(m: Mat3) -> Mat3 {
    Mat3 { r0: col3_spec(m, 0), r1: col3_spec(m, 1), r2: col3_spec(m, 2) }
}

/// Row/column swap of a 4x4 matrix.
pub open spec fn transpose4(m: Mat4) -> Mat4 {
    Mat4 { r0: col4_spec(m, 0), r1: col4_spec(m, 1), r2: col4_spec(m, 2), r3: col4_spec(m, 3) }
}

/// Transposing twice gives the matrix back, for every 2x2 matrix.
pub proof fn lemma_transpose2_involutive(m: Mat2)
    ensures
        transpose2(transpose2(m)) == m,
{
}

/// Transposing twice gives the matrix back, for every 3x3 matrix.
pub proof fn lemma_transpose3_involutive(m: Mat3)
    ensures
        transpose3(transpose3(m)) == m,
{
}

/// Transposing twice gives the matrix back, for every 4x4 matrix.
pub proof fn lemma_transpose4_involutive(m: Mat4)
    ensures
        transpose4(transpose4(m)) == m,
{
}

/// Whether `r` is the matrix product of `a` and `b`: entry `(i, j)` is
/// the truncating dot product of row `i` of `a` with column `j` of `b`.
pub open spec fn is_mul2(r: Mat2, a: Mat2, b: Mat2) -> bool {
    &&& r.r0.x@ == dot2(a.r0, col2_spec(b, 0))
    &&& r.r0.y@ == dot2(a.r0, col2_spec(b, 1))
    &&& r.r1.x@ == dot2(a.r1, col2_spec(b, 0))
    &&& r.r1.y@ == dot2(a.r1, col2_spec(b, 1))
}

/// Whether `r` is the matrix product of `a` and `b`, for 3x3 matrices.
pub open spec fn is_mul3(r: Mat3, a: Mat3, b: Mat3) -> bool {
    &&& r.r0.x@ == dot3(a.r0, col3_spec(b, 0))
    &&& r.r0.y@ == dot3(a.r0, col3_spec(b, 1))
    &&& r.r0.z@ == dot3(a.r0, col3_spec(b, 2))
    &&& r.r1.x@ == dot3(a.r1, col3_spec(b, 0))
    &&& r.r1.y@ == dot3(a.r1, col3_spec(b, 1))
    &&& r.r1.z@ == dot3(a.r1, col3_spec(b, 2))
    &&& r.r2.x@ == dot3(a.r2, col3_spec(b, 0))
    &&& r.r2.y@ == dot3(a.r2, col3_spec(b, 1))
    &&& r.r2.z@ == dot3(a.r2, col3_spec(b, 2))
}

/// Whether `r` is the matrix product of `a` and `b`, for 4x4 matrices.
pub open spec fn is_mul4(r: Mat4, a: Mat4, b: Mat4) -> bool {
    &&& r.r0.x@ == dot4(a.r0, col4_spec(b, 0))
    &&& r.r0.y@ == dot4(a.r0, col4_spec(b, 1))
    &&& r.r0.z@ == dot4(a.r0, col4_spec(b, 2))
    &&& r.r0.w@ == dot4(a.r0, col4_spec(b, 3))
    &&& r.r1.x@ == dot4(a.r1, col4_spec(b, 0))
    &&& r.r1.y@ == dot4(a.r1, col4_spec(b, 1))
    &&& r.r1.z@ == dot4(a.r1, col4_spec(b, 2))
    &&& r.r1.w@ == dot4(a.r1, col4_spec(b, 3))
    &&& r.r2.x@ == dot4(a.r2, col4_spec(b, 0))
    &&& r.r2.y@ == dot4(a.r2, col4_spec(b, 1))
    &&& r.r2.z@ == dot4(a.r2, col4_spec(b, 2))
    &&& r.r2.w@ == dot4(a.r2, col4_spec(b, 3))
    &&& r.r3.x@ == dot4(a.r3, col4_spec(b, 0))
    &&& r.r3.y@ == dot4(a.r3, col4_spec(b, 1))
    &&& r.r3.z@ == dot4(a.r3, col4_spec(b, 2))
    &&& r.r3.w@ == dot4(a.r3, col4_spec(b, 3))
}

/// The identity matrix as a value.
pub open spec fn ident4() -> Mat4 {
    Mat4 {
        r0: Vec4 {
            x: crate::fx::fxv(FX_ONE as int),
            y: crate::fx::fxv(0),
            z: crate::fx::fxv(0),
            w: crate::fx::fxv(0),
        },
        r1: Vec4 {
            x: crate::fx::fxv(0),
            y: crate::fx::fxv(FX_ONE as int),
            z: crate::fx::fxv(0),
            w: crate::fx::fxv(0),
        },
        r2: Vec4 {
            x: crate::fx::fxv(0),
            y: crate::fx::fxv(0),
            z: crate::fx::fxv(FX_ONE as int),
            w: crate::fx::fxv(0),
        },
        r3: Vec4 {
            x: crate::fx::fxv(0),
            y: crate::fx::fxv(0),
            z: crate::fx::fxv(0),
            w: crate::fx::fxv(FX_ONE as int),
        },
    }
}

/// A product of bounded matrices is bounded by four scaled-down bound
/// products.
pub proof fn lemma_mul4_bound(r: Mat4, a: Mat4, b: Mat4, la: int, lb: int)
    requires
        is_mul4(r, a, b),
        m4_lim(a, la),
        m4_lim(b, lb),
        0 <= la,
        0 <= lb,
        (la * lb) / (FX_ONE as int) <= 0x1000_0000_0000_0000,
    ensures
        m4_lim(r, 4 * ((la * lb) / (FX_ONE as int))),
{
    crate::vecn::lemma_dot4_bound(a.r0, col4_spec(b, 0), la, lb);
    crate::vecn::lemma_dot4_bound(a.r0, col4_spec(b, 1), la, lb);
    crate::vecn::lemma_dot4_bound(a.r0, col4_spec(b, 2), la, lb);
    crate::vecn::lemma_dot4_bound(a.r0, col4_spec(b, 3), la, lb);
    crate::vecn::lemma_dot4_bound(a.r1, col4_spec(b, 0), la, lb);
    crate::vecn::lemma_dot4_bound(a.r1, col4_spec(b, 1), la, lb);
    crate::vecn::lemma_dot4_bound(a.r1, col4_spec(b, 2), la, lb);
    crate::vecn::lemma_dot4_bound(a.r1, col4_spec(b, 3), la, lb);
    crate::vecn::lemma_dot4_bound(a.r2, col4_spec(b, 0), la, lb);
    crate::vecn::lemma_dot4_bound(a.r2, col4_spec(b, 1), la, lb);
    crate::vecn::lemma_dot4_bound(a.r2, col4_spec(b, 2), la, lb);
    crate::vecn::lemma_dot4_bound(a.r2, col4_spec(b, 3), la, lb);
    crate::vecn::lemma_dot4_bound(a.r3, col4_spec(b, 0), la, lb);
    crate::vecn::lemma_dot4_bound(a.r3, col4_spec(b, 1), la, lb);
    crate::vecn::lemma_dot4_bound(a.r3, col4_spec(b, 2), la, lb);
    crate::vecn::lemma_dot4_bound(a.r3, col4_spec(b, 3), la, lb);
}

/// The identity 3x3 matrix as a value.
pub open spec fn ident3() -> Mat3 {
    Mat3 {
        r0: Vec3 { x: crate::fx::fxv(FX_ONE as int), y: crate::fx::fxv(0), z: crate::fx::fxv(0) },
        r1: Vec3 { x: crate::fx::fxv(0), y: crate::fx::fxv(FX_ONE as int), z: crate::fx::fxv(0) },
        r2: Vec3 { x: crate::fx::fxv(0), y: crate::fx::fxv(0), z: crate::fx::fxv(FX_ONE as int) },
    }
}

/// A 4x4 matrix applied to a column vector, as a value: each component
/// is the truncating dot product of a row with the vector.
pub open spec fn mulv4(m: Mat4, v: Vec4) -> Vec4 {
    Vec4 {
        x: crate::fx::fxv(dot4(m.r0, v)),
        y: crate::fx::fxv(dot4(m.r1, v)),
        z: crate::fx::fxv(dot4(m.r2, v)),
        w: crate::fx::fxv(dot4(m.r3, v)),
    }
}

/// The 4x4 matrix product as a value: entry `(i, j)` holds the
/// truncating dot product of row `i` of `a` with column `j` of `b`.
pub open spec fn mul4(a: Mat4, b: Mat4) -> Mat4 {
    Mat4 {
        r0: Vec4 {
            x: crate::fx::fxv(dot4(a.r0, col4_spec(b, 0))),
            y: crate::fx::fxv(dot4(a.r0, col4_spec(b, 1))),
            z: crate::fx::fxv(dot4(a.r0, col4_spec(b, 2))),
            w: crate::fx::fxv(dot4(a.r0, col4_spec(b, 3))),
        },
        r1: Vec4 {
            x: crate::fx::fxv(dot4(a.r1, col4_spec(b, 0))),
            y: crate::fx::fxv(dot4(a.r1, col4_spec(b, 1))),
            z: crate::fx::fxv(dot4(a.r1, col4_spec(b, 2))),
            w: crate::fx::fxv(dot4(a.r1, col4_spec(b, 3))),
        },
        r2: Vec4 {
            x: crate::fx::fxv(dot4(a.r2, col4_spec(b, 0))),
            y: crate::fx::fxv(dot4(a.r2, col4_spec(b, 1))),
            z: crate::fx::fxv(dot4(a.r2, col4_spec(b, 2))),
            w: crate::fx::fxv(dot4(a.r2, col4_spec(b, 3))),
        },
        r3: Vec4 {
            x: crate::fx::fxv(dot4(a.r3, col4_spec(b, 0))),
            y: crate::fx::fxv(dot4(a.r3, col4_spec(b, 1))),
            z: crate::fx::fxv(dot4(a.r3, col4_spec(b, 2))),
            w: crate::fx::fxv(dot4(a.r3, col4_spec(b, 3))),
        },
    }
}

/// Raw count of the 2x2 determinant, products truncated as the machine
/// truncates them.
pub open spec fn det2(m: Mat2) -> int {
    fxmul(m.r0.x@, m.r1.y@) - fxmul(m.r1.x@, m.r0.y@)
}

impl Mat2 {
    /// The zero matrix.
    pub fn new() -> (r: Mat2)
        ensures
            r == (Mat2 { r0: Vec2 { x: Fx { raw: 0 }, y: Fx { raw: 0 } },
                r1: Vec2 { x: Fx { raw: 0 }, y: Fx { raw: 0 } } }),
    {
        Mat2 { r0: Vec2::new(), r1: Vec2::new() }
    }

    /// Every entry set to `v`.
    pub fn fill(v: Fx) -> (r: Mat2)
        ensures
            r == (Mat2 { r0: Vec2 { x: v, y: v }, r1: Vec2 { x: v, y: v } }),
    {
        Mat2 { r0: Vec2::fill(v), r1: Vec2::fill(v) }
    }

    /// A matrix from its row vectors.
    pub fn from(r0: Vec2, r1: Vec2) -> (r: Mat2)
        ensures
            r == (Mat2 { r0, r1 }),
    {
        Mat2 { r0, r1 }
    }

    /// A matrix from its column vectors.
    pub fn from_col(c0: Vec2, c1: Vec2) -> (r: Mat2)
        ensures
            r == transpose2(Mat2 { r0: c0, r1: c1 }),
    {
        Mat2::from(c0, c1).transpose()
    }

    /// Replaces the first row.
    pub fn r0(self, v: Vec2) -> (r: Mat2)
        ensures
            r == (Mat2 { r0: v, ..self }),
    {
        Mat2 { r0: v, ..self }
    }

    /// Replaces the second row.
    pub fn r1(self, v: Vec2) -> (r: Mat2)
        ensures
            r == (Mat2 { r1: v, ..self }),
    {
        Mat2 { r1: v, ..self }
    }

    /// Gathers the `index`-th column.
    pub fn col(&self, index: usize) -> (r: Vec2)
        requires
            index < 2,
        ensures
            r == col2_spec(*self, index as int),
    {
        if index == 0 {
            Vec2::from(self.r0.x, self.r1.x)
        } else {
            Vec2::from(self.r0.y, self.r1.y)
        }
    }

    /// Matrix times column vector: each result component is the dot
    /// product of a row with the vector.
    pub fn mul_vec(&self, rhs: &Vec2) -> (r: Vec2)
        requires
            m2_lim(*self, MAT_LIM as int),
            v2_lim(*rhs, MAT_LIM as int),
        ensures
            r.x@ == dot2(self.r0, *rhs),
            r.y@ == dot2(self.r1, *rhs),
    {
        proof {
            lemma_dot2_lim(self.r0, *rhs);
            lemma_dot2_lim(self.r1, *rhs);
        }
        Vec2::from(self.r0.dot(*rhs), self.r1.dot(*rhs))
    }

    /// Matrix product: entry `(i, j)` is the dot product of row `i` of
    /// `self` with column `j` of `rhs`.
    pub fn mul_mat(&self, rhs: &Mat2) -> (r: Mat2)
        requires
            m2_lim(*self, MAT_LIM as int),
            m2_lim(*rhs, MAT_LIM as int),
        ensures
            is_mul2(r, *self, *rhs),
    {
        let c0 = rhs.col(0);
        let c1 = rhs.col(1);
        proof {
            lemma_dot2_lim(self.r0, c0);
            lemma_dot2_lim(self.r0, c1);
            lemma_dot2_lim(self.r1, c0);
            lemma_dot2_lim(self.r1, c1);
        }
        Mat2 {
            r0: Vec2::from(self.r0.dot(c0), self.r0.dot(c1)),
            r1: Vec2::from(self.r1.dot(c0), self.r1.dot(c1)),
        }
    }

    /// Row/column swap.
    pub fn transpose(&self) -> (r: Mat2)
        ensures
            r == transpose2(*self),
    {
        Mat2 { r0: self.col(0), r1: self.col(1) }
    }

    /// The matrix with `v` on the diagonal and zero elsewhere.
    pub fn eye(v: Fx) -> (r: Mat2)
        ensures
            r == (Mat2 {
                r0: Vec2 { x: v, y: Fx { raw: 0 } },
                r1: Vec2 { x: Fx { raw: 0 }, y: v },
            }),
    {
        Mat2 {
            r0: Vec2::from(v, Fx::zero()),
            r1: Vec2::from(Fx::zero(), v),
        }
    }

    /// The matrix with the vector's components on the diagonal.
    pub fn diag(v: &Vec2) -> (r: Mat2)
        ensures
            r == (Mat2 {
                r0: Vec2 { x: v.x, y: Fx { raw: 0 } },
                r1: Vec2 { x: Fx { raw: 0 }, y: v.y },
            }),
    {
        Mat2 {
            r0: Vec2::from(v.x, Fx::zero()),
            r1: Vec2::from(Fx::zero(), v.y),
        }
    }

    /// Inverse by the adjugate formula: each entry of the adjugate divided
    /// by the determinant, truncated as the machine truncates.
    pub fn inverse(&self) -> (r: Mat2)
        requires
            m2_lim(*self, INV_LIM as int),
            det2(*self) != 0,
        ensures
            r.r0.x@ == fxdiv(self.r1.y@, det2(*self)),
            r.r0.y@ == fxdiv(-self.r0.y@, det2(*self)),
            r.r1.x@ == fxdiv(-self.r1.x@, det2(*self)),
            r.r1.y@ == fxdiv(self.r0.x@, det2(*self)),
    {
        proof {
            lemma_fxmul_bound(self.r0.x@, self.r1.y@, INV_LIM as int, INV_LIM as int);
            lemma_fxmul_bound(self.r1.x@, self.r0.y@, INV_LIM as int, INV_LIM as int);
        }
        let d = self.r0.x.mul(self.r1.y).sub(self.r1.x.mul(self.r0.y));
        proof {
            lemma_tdiv_mag(self.r1.y@ * (FX_ONE as int), d@);
            lemma_tdiv_mag(-self.r0.y@ * (FX_ONE as int), d@);
            lemma_tdiv_mag(-self.r1.x@ * (FX_ONE as int), d@);
            lemma_tdiv_mag(self.r0.x@ * (FX_ONE as int), d@);
        }
        Mat2 {
            r0: Vec2::from(self.r1.y.div(d), self.r0.y.neg().div(d)),
            r1: Vec2::from(self.r1.x.neg().div(d), self.r0.x.div(d)),
        }
    }
}

/// The adjugate law behind the 2x2 inverse: over exact integers, the
/// adjugate `[d, -b; -c, a]` multiplied against `[a, b; c, d]` gives the
/// determinant on the diagonal and zero elsewhere, for every matrix.
pub proof fn lemma_adjugate2(a: int, b: int, c: int, d: int) by (nonlinear_arith)
    ensures
        d * a + (-b) * c == a * d - b * c,
        d * b + (-b) * d == 0,
        (-c) * a + a * c == 0,
        (-c) * b + a * d == a * d - b * c,
{
}

/// One entry of a truncated adjugate product: the row `(p, q)` scaled
/// by the determinant and truncated, folded against the column
/// `(u, v)` with truncating products, lands near the exact combination
/// `p * u + q * v` scaled into determinant units. The miss, scaled by
/// one unit times the determinant to stay in integers, is below
/// `(2 * lim + 2 * FX_ONE) * |dt|`.
proof fn lemma_inv2_entry(p: int, q: int, u: int, v: int, dt: int, lim: int)
    requires
        0 < lim,
        -lim <= u <= lim,
        -lim <= v <= lim,
        dt != 0,
    ensures
        ({
            let k = FX_ONE as int;
            let ent = fxmul(fxdiv(p, dt), u) + fxmul(fxdiv(q, dt), v);
            -((2 * lim + 2 * k) * sabs(dt)) < ent * (k * dt) - k * (p * u + q * v) < (2 * lim + 2
                * k) * sabs(dt)
        }),
{
    let k = FX_ONE as int;
    let adt = sabs(dt);
    let wp = tdiv(p * k, dt);
    let wq = tdiv(q * k, dt);
    lemma_tdiv_rem(p * k, dt);
    lemma_tdiv_rem(q * k, dt);
    let rp = p * k - wp * dt;
    let rq = q * k - wq * dt;
    assert(-adt < rp < adt && -adt < rq < adt) by (nonlinear_arith)
        requires
            rp * rp < dt * dt,
            rq * rq < dt * dt,
            adt == dt || adt == -dt,
            adt >= 1,
    ;
    lemma_tdiv_rem(wp * u, k);
    lemma_tdiv_rem(wq * v, k);
    let t1 = wp * u - tdiv(wp * u, k) * k;
    let t2 = wq * v - tdiv(wq * v, k) * k;
    assert(-k < t1 < k && -k < t2 < k) by (nonlinear_arith)
        requires
            t1 * t1 < k * k,
            t2 * t2 < k * k,
            k == 65536,
    ;
    let ent = tdiv(wp * u, k) + tdiv(wq * v, k);
    assert(ent * k == wp * u + wq * v - t1 - t2);
    assert((wp * u) * dt == u * (p * k) - u * rp) by (nonlinear_arith)
        requires
            wp * dt == p * k - rp,
    ;
    assert((wq * v) * dt == v * (q * k) - v * rq) by (nonlinear_arith)
        requires
            wq * dt == q * k - rq,
    ;
    assert(ent * (k * dt) == (wp * u) * dt + (wq * v) * dt - t1 * dt - t2 * dt)
        by (nonlinear_arith)
        requires
            ent * k == wp * u + wq * v - t1 - t2,
    ;
    assert(u * (p * k) + v * (q * k) == k * (p * u + q * v)) by (nonlinear_arith);
    assert(ent * (k * dt) - k * (p * u + q * v) == -(u * rp) - v * rq - t1 * dt - t2 * dt);
    assert(-(lim * adt) <= u * rp <= lim * adt && -(lim * adt) <= v * rq <= lim * adt)
        by (nonlinear_arith)
        requires
            -lim <= u <= lim,
            -lim <= v <= lim,
            -adt < rp < adt,
            -adt < rq < adt,
            0 < lim,
            adt >= 1,
    ;
    assert(-(k * adt) < t1 * dt < k * adt && -(k * adt) < t2 * dt < k * adt) by (nonlinear_arith)
        requires
            -k < t1 < k,
            -k < t2 < k,
            adt == dt || adt == -dt,
            adt >= 1,
            k == 65536,
    ;
    assert(-((2 * lim + 2 * k) * adt) < ent * (k * dt) - k * (p * u + q * v) < (2 * lim + 2 * k)
        * adt) by (nonlinear_arith)
        requires
            ent * (k * dt) - k * (p * u + q * v) == -(u * rp) - v * rq - t1 * dt - t2 * dt,
            -(lim * adt) <= u * rp <= lim * adt,
            -(lim * adt) <= v * rq <= lim * adt,
            -(k * adt) < t1 * dt < k * adt,
            -(k * adt) < t2 * dt < k * adt,
    ;
}

/// Law: the truncated adjugate inverse undoes the matrix. For any
/// non-singular 2x2 matrix with entries within `lim`, the product of
/// [`Mat2::inverse`] against the matrix lands entry by entry on the
/// identity, up to the truncation error: scaled by one unit times the
/// determinant to stay in integers, each diagonal entry misses one
/// unit by less than `(2 * lim + 2 * FX_ONE) * |det| + 2 * FX_ONE^2`
/// and each off-diagonal entry misses zero by less than
/// `(2 * lim + 2 * FX_ONE) * |det|`, so the error only grows as the
/// matrix degenerates toward a zero determinant.
pub proof fn lemma_inverse2_times_matrix(m: Mat2, lim: int)
    requires
        0 < lim,
        m2_lim(m, lim),
        det2(m) != 0,
    ensures
        ({
            let k = FX_ONE as int;
            let dt = det2(m);
            let a = m.r0.x@;
            let b = m.r0.y@;
            let c = m.r1.x@;
            let d = m.r1.y@;
            let p00 = fxmul(fxdiv(d, dt), a) + fxmul(fxdiv(-b, dt), c);
            let p01 = fxmul(fxdiv(d, dt), b) + fxmul(fxdiv(-b, dt), d);
            let p10 = fxmul(fxdiv(-c, dt), a) + fxmul(fxdiv(a, dt), c);
            let p11 = fxmul(fxdiv(-c, dt), b) + fxmul(fxdiv(a, dt), d);
            let ebnd = (2 * lim + 2 * k) * sabs(dt);
            &&& -(ebnd + 2 * k * k) < (p00 - k) * (k * dt) < ebnd + 2 * k * k
            &&& -ebnd < p01 * (k * dt) < ebnd
            &&& -ebnd < p10 * (k * dt) < ebnd
            &&& -(ebnd + 2 * k * k) < (p11 - k) * (k * dt) < ebnd + 2 * k * k
        }),
{
    let k = FX_ONE as int;
    let a = m.r0.x@;
    let b = m.r0.y@;
    let c = m.r1.x@;
    let d = m.r1.y@;
    let dt = det2(m);
    lemma_tdiv_rem(a * d, k);
    lemma_tdiv_rem(c * b, k);
    let s1 = a * d - fxmul(a, d) * k;
    let s2 = c * b - fxmul(c, b) * k;
    assert(-k < s1 < k && -k < s2 < k) by (nonlinear_arith)
        requires
            s1 * s1 < k * k,
            s2 * s2 < k * k,
            k == 65536,
    ;
    assert(k * dt == (a * d - c * b) - (s1 - s2));
    lemma_inv2_entry(d, -b, a, c, dt, lim);
    lemma_inv2_entry(d, -b, b, d, dt, lim);
    lemma_inv2_entry(-c, a, a, c, dt, lim);
    lemma_inv2_entry(-c, a, b, d, dt, lim);
    assert(d * a + (-b) * c == a * d - c * b) by (nonlinear_arith);
    assert(d * b + (-b) * d == 0) by (nonlinear_arith);
    assert((-c) * a + a * c == 0) by (nonlinear_arith);
    assert((-c) * b + a * d == a * d - c * b) by (nonlinear_arith);
    let p00 = fxmul(fxdiv(d, dt), a) + fxmul(fxdiv(-b, dt), c);
    let p11 = fxmul(fxdiv(-c, dt), b) + fxmul(fxdiv(a, dt), d);
    let ebnd = (2 * lim + 2 * k) * sabs(dt);
    assert((p00 - k) * (k * dt) == (p00 * (k * dt) - k * (a * d - c * b)) + k * (s1 - s2))
        by (nonlinear_arith)
        requires
            k * dt == (a * d - c * b) - (s1 - s2),
    ;
    assert((p11 - k) * (k * dt) == (p11 * (k * dt) - k * (a * d - c * b)) + k * (s1 - s2))
        by (nonlinear_arith)
        requires
            k * dt == (a * d - c * b) - (s1 - s2),
    ;
    assert(-(2 * k * k) < k * (s1 - s2) < 2 * k * k) by (nonlinear_arith)
        requires
            -k < s1 < k,
            -k < s2 < k,
            k == 65536,
    ;
    assert(-(ebnd + 2 * k * k) < (p00 - k) * (k * dt) < ebnd + 2 * k * k);
    assert(-(ebnd + 2 * k * k) < (p11 - k) * (k * dt) < ebnd + 2 * k * k);
}

/// The adjugate law behind the 3x3 inverse, row by row: over exact
/// integers, each row of the transposed cofactor matrix against each
/// column of the matrix gives the determinant or zero, for every matrix.
pub proof fn lemma_adjugate3(
    a: int, b: int, c: int,
    d: int, e: int, f: int,
    g: int, h: int, i: int,
)
    ensures
        ({
            let det = a * (e * i - f * h) - b * (d * i - f * g) + c * (d * h - e * g);
            &&& (e * i - f * h) * a + (-(b * i - c * h)) * d + (b * f - c * e) * g == det
            &&& (e * i - f * h) * b + (-(b * i - c * h)) * e + (b * f - c * e) * h == 0
            &&& (e * i - f * h) * c + (-(b * i - c * h)) * f + (b * f - c * e) * i == 0
            &&& (-(d * i - f * g)) * a + (a * i - c * g) * d + (-(a * f - c * d)) * g == 0
            &&& (-(d * i - f * g)) * b + (a * i - c * g) * e + (-(a * f - c * d)) * h == det
            &&& (-(d * i - f * g)) * c + (a * i - c * g) * f + (-(a * f - c * d)) * i == 0
            &&& (d * h - e * g) * a + (-(a * h - b * g)) * d + (a * e - b * d) * g == 0
            &&& (d * h - e * g) * b + (-(a * h - b * g)) * e + (a * e - b * d) * h == 0
            &&& (d * h - e * g) * c + (-(a * h - b * g)) * f + (a * e - b * d) * i == det
        }),
{
    assert((e * i - f * h) * a == a * (e * i - f * h)) by (nonlinear_arith);
    assert((-(b * i - c * h)) * d + (b * f - c * e) * g == -(b * (d * i - f * g)) + c * (d * h
        - e * g)) by {
        vstd::arithmetic::mul::lemma_mul_unary_negation(b * i - c * h, d);
        vstd::arithmetic::mul::lemma_mul_is_distributive_sub_other_way(d, b * i, c * h);
        vstd::arithmetic::mul::lemma_mul_is_distributive_sub_other_way(g, b * f, c * e);
        vstd::arithmetic::mul::lemma_mul_is_distributive_sub(b, d * i, f * g);
        vstd::arithmetic::mul::lemma_mul_is_distributive_sub(c, d * h, e * g);
        assert((b * i) * d == b * (d * i)) by (nonlinear_arith);
        assert((c * h) * d == c * (d * h)) by (nonlinear_arith);
        assert((b * f) * g == b * (f * g)) by (nonlinear_arith);
        assert((c * e) * g == c * (e * g)) by (nonlinear_arith);
    };
    assert((e * i - f * h) * b + (-(b * i - c * h)) * e + (b * f - c * e) * h == 0)
        by (nonlinear_arith);
    assert((e * i - f * h) * c + (-(b * i - c * h)) * f + (b * f - c * e) * i == 0)
        by (nonlinear_arith);
    assert((-(d * i - f * g)) * a + (a * i - c * g) * d + (-(a * f - c * d)) * g == 0)
        by (nonlinear_arith);
    assert((-(d * i - f * g)) * b == -(b * (d * i - f * g))) by (nonlinear_arith);
    assert((a * i - c * g) * e + (-(a * f - c * d)) * h == a * (e * i - f * h) + c * (d * h - e
        * g)) by {
        vstd::arithmetic::mul::lemma_mul_is_distributive_sub_other_way(e, a * i, c * g);
        vstd::arithmetic::mul::lemma_mul_unary_negation(a * f - c * d, h);
        vstd::arithmetic::mul::lemma_mul_is_distributive_sub_other_way(h, a * f, c * d);
        vstd::arithmetic::mul::lemma_mul_is_distributive_sub(a, e * i, f * h);
        vstd::arithmetic::mul::lemma_mul_is_distributive_sub(c, d * h, e * g);
        assert((a * i) * e == a * (e * i)) by (nonlinear_arith);
        assert((c * g) * e == c * (e * g)) by (nonlinear_arith);
        assert((a * f) * h == a * (f * h)) by (nonlinear_arith);
        assert((c * d) * h == c * (d * h)) by (nonlinear_arith);
    };
    assert((-(d * i - f * g)) * c + (a * i - c * g) * f + (-(a * f - c * d)) * i == 0)
        by (nonlinear_arith);
    assert((d * h - e * g) * a + (-(a * h - b * g)) * d + (a * e - b * d) * g == 0)
        by (nonlinear_arith);
    assert((d * h - e * g) * b + (-(a * h - b * g)) * e + (a * e - b * d) * h == 0)
        by (nonlinear_arith);
    assert((d * h - e * g) * c == c * (d * h - e * g)) by (nonlinear_arith);
    assert((-(a * h - b * g)) * f + (a * e - b * d) * i == a * (e * i - f * h) - b * (d * i - f
        * g)) by {
        vstd::arithmetic::mul::lemma_mul_unary_negation(a * h - b * g, f);
        vstd::arithmetic::mul::lemma_mul_is_distributive_sub_other_way(f, a * h, b * g);
        vstd::arithmetic::mul::lemma_mul_is_distributive_sub_other_way(i, a * e, b * d);
        vstd::arithmetic::mul::lemma_mul_is_distributive_sub(a, e * i, f * h);
        vstd::arithmetic::mul::lemma_mul_is_distributive_sub(b, d * i, f * g);
        assert((a * h) * f == a * (f * h)) by (nonlinear_arith);
        assert((b * g) * f == b * (f * g)) by (nonlinear_arith);
        assert((a * e) * i == a * (e * i)) by (nonlinear_arith);
        assert((b * d) * i == b * (d * i)) by (nonlinear_arith);
    };
}

/// Raw count of one inner 2x2 cofactor of a 3x3 determinant.
pub open spec fn cof2(a: int, b: int, c: int, d: int) -> int {
    fxmul(a, b) - fxmul(c, d)
}

/// Raw count of the 3x3 determinant: expansion along the first row, every
/// product truncated as the machine truncates it.
pub open spec fn det3(m: Mat3) -> int {
    fxmul(m.r0.x@, cof2(m.r1.y@, m.r2.z@, m.r1.z@, m.r2.y@))
        - fxmul(m.r0.y@, cof2(m.r1.x@, m.r2.z@, m.r1.z@, m.r2.x@))
        + fxmul(m.r0.z@, cof2(m.r1.x@, m.r2.y@, m.r1.y@, m.r2.x@))
}

/// Every intermediate of an inverse-bounded 2x2 cofactor fits, and the
/// cofactor is bounded by 2^33.
pub proof fn lemma_cof2_lim(a: int, b: int, c: int, d: int)
    requires
        -(INV_LIM as int) <= a <= INV_LIM as int,
        -(INV_LIM as int) <= b <= INV_LIM as int,
        -(INV_LIM as int) <= c <= INV_LIM as int,
        -(INV_LIM as int) <= d <= INV_LIM as int,
    ensures
        fx_fits(fxmul(a, b)),
        fx_fits(fxmul(c, d)),
        fx_fits(cof2(a, b, c, d)),
        -0x2_0000_0000 <= cof2(a, b, c, d) <= 0x2_0000_0000,
{
    lemma_fxmul_bound(a, b, INV_LIM as int, INV_LIM as int);
    lemma_fxmul_bound(c, d, INV_LIM as int, INV_LIM as int);
}

impl Mat3 {
    /// The zero matrix.
    pub fn new() -> (r: Mat3)
        ensures
            r.r0.x@ == 0 && r.r0.y@ == 0 && r.r0.z@ == 0,
            r.r1.x@ == 0 && r.r1.y@ == 0 && r.r1.z@ == 0,
            r.r2.x@ == 0 && r.r2.y@ == 0 && r.r2.z@ == 0,
    {
        Mat3 { r0: Vec3::new(), r1: Vec3::new(), r2: Vec3::new() }
    }

    /// Every entry set to `v`.
    pub fn fill(v: Fx) -> (r: Mat3)
        ensures
            r.r0 == (Vec3 { x: v, y: v, z: v }),
            r.r1 == (Vec3 { x: v, y: v, z: v }),
            r.r2 == (Vec3 { x: v, y: v, z: v }),
    {
        Mat3 { r0: Vec3::fill(v), r1: Vec3::fill(v), r2: Vec3::fill(v) }
    }

    /// A matrix from its row vectors.
    pub fn from(r0: Vec3, r1: Vec3, r2: Vec3) -> (r: Mat3)
        ensures
            r == (Mat3 { r0, r1, r2 }),
    {
        Mat3 { r0, r1, r2 }
    }

    /// A matrix from its column vectors.
    pub fn from_col(c0: Vec3, c1: Vec3, c2: Vec3) -> (r: Mat3)
        ensures
            r == transpose3(Mat3 { r0: c0, r1: c1, r2: c2 }),
    {
        Mat3::from(c0, c1, c2).transpose()
    }

    /// Replaces the first row.
    pub fn r0(self, v: Vec3) -> (r: Mat3)
        ensures
            r == (Mat3 { r0: v, ..self }),
    {
        Mat3 { r0: v, ..self }
    }

    /// Replaces the second row.
    pub fn r1(self, v: Vec3) -> (r: Mat3)
        ensures
            r == (Mat3 { r1: v, ..self }),
    {
        Mat3 { r1: v, ..self }
    }

    /// Replaces the third row.
    pub fn r2(self, v: Vec3) -> (r: Mat3)
        ensures
            r == (Mat3 { r2: v, ..self }),
    {
        Mat3 { r2: v, ..self }
    }

    /// Gathers the `index`-th column.
    pub fn col(&self, index: usize) -> (r: Vec3)
        requires
            index < 3,
        ensures
            r == col3_spec(*self, index as int),
    {
        if index == 0 {
            Vec3::from(self.r0.x, self.r1.x, self.r2.x)
        } else if index == 1 {
            Vec3::from(self.r0.y, self.r1.y, self.r2.y)
        } else {
            Vec3::from(self.r0.z, self.r1.z, self.r2.z)
        }
    }

    /// Matrix times column vector.
    pub fn mul_vec(&self, rhs: &Vec3) -> (r: Vec3)
        requires
            m3_lim(*self, MAT_LIM as int),
            v3_lim(*rhs, MAT_LIM as int),
        ensures
            r.x@ == dot3(self.r0, *rhs),
            r.y@ == dot3(self.r1, *rhs),
            r.z@ == dot3(self.r2, *rhs),
    {
        proof {
            lemma_dot3_lim(self.r0, *rhs);
            lemma_dot3_lim(self.r1, *rhs);
            lemma_dot3_lim(self.r2, *rhs);
        }
        Vec3::from(self.r0.dot(*rhs), self.r1.dot(*rhs), self.r2.dot(*rhs))
    }

    /// Matrix product: entry `(i, j)` is the dot product of row `i` of
    /// `self` with column `j` of `rhs`.
    pub fn mul_mat(&self, rhs: &Mat3) -> (r: Mat3)
        requires
            m3_lim(*self, MAT_LIM as int),
            m3_lim(*rhs, MAT_LIM as int),
        ensures
            is_mul3(r, *self, *rhs),
    {
        let c0 = rhs.col(0);
        let c1 = rhs.col(1);
        let c2 = rhs.col(2);
        proof {
            lemma_dot3_lim(self.r0, c0);
            lemma_dot3_lim(self.r0, c1);
            lemma_dot3_lim(self.r0, c2);
            lemma_dot3_lim(self.r1, c0);
            lemma_dot3_lim(self.r1, c1);
            lemma_dot3_lim(self.r1, c2);
            lemma_dot3_lim(self.r2, c0);
            lemma_dot3_lim(self.r2, c1);
            lemma_dot3_lim(self.r2, c2);
        }
        Mat3 {
            r0: Vec3::from(self.r0.dot(c0), self.r0.dot(c1), self.r0.dot(c2)),
            r1: Vec3::from(self.r1.dot(c0), self.r1.dot(c1), self.r1.dot(c2)),
            r2: Vec3::from(self.r2.dot(c0), self.r2.dot(c1), self.r2.dot(c2)),
        }
    }

    /// Row/column swap.
    pub fn transpose(&self) -> (r: Mat3)
        ensures
            r == transpose3(*self),
    {
        Mat3 { r0: self.col(0), r1: self.col(1), r2: self.col(2) }
    }

    /// The matrix with `v` on the diagonal and zero elsewhere.
    pub fn eye(v: Fx) -> (r: Mat3)
        ensures
            r.r0 == (Vec3 { x: v, y: Fx { raw: 0 }, z: Fx { raw: 0 } }),
            r.r1 == (Vec3 { x: Fx { raw: 0 }, y: v, z: Fx { raw: 0 } }),
            r.r2 == (Vec3 { x: Fx { raw: 0 }, y: Fx { raw: 0 }, z: v }),
    {
        Mat3 {
            r0: Vec3::from(v, Fx::zero(), Fx::zero()),
            r1: Vec3::from(Fx::zero(), v, Fx::zero()),
            r2: Vec3::from(Fx::zero(), Fx::zero(), v),
        }
    }

    /// The matrix with the vector's components on the diagonal.
    pub fn diag(v: &Vec3) -> (r: Mat3)
        ensures
            r.r0 == (Vec3 { x: v.x, y: Fx { raw: 0 }, z: Fx { raw: 0 } }),
            r.r1 == (Vec3 { x: Fx { raw: 0 }, y: v.y, z: Fx { raw: 0 } }),
            r.r2 == (Vec3 { x: Fx { raw: 0 }, y: Fx { raw: 0 }, z: v.z }),
    {
        Mat3 {
            r0: Vec3::from(v.x, Fx::zero(), Fx::zero()),
            r1: Vec3::from(Fx::zero(), v.y, Fx::zero()),
            r2: Vec3::from(Fx::zero(), Fx::zero(), v.z),
        }
    }

    /// Widens to a 4x4 matrix: each row gains `v` as fourth component and
    /// the fourth row is filled with `v`.
    pub fn to_mat4(&self, v: Fx) -> (r: Mat4)
        ensures
            r.r0 == (Vec4 { x: self.r0.x, y: self.r0.y, z: self.r0.z, w: v }),
            r.r1 == (Vec4 { x: self.r1.x, y: self.r1.y, z: self.r1.z, w: v }),
            r.r2 == (Vec4 { x: self.r2.x, y: self.r2.y, z: self.r2.z, w: v }),
            r.r3 == (Vec4 { x: v, y: v, z: v, w: v }),
    {
        Mat4 {
            r0: self.r0.to_vec4(v),
            r1: self.r1.to_vec4(v),
            r2: self.r2.to_vec4(v),
            r3: Vec4::fill(v),
        }
    }

    /// Inverse by the cofactor formula: each entry of the transposed
    /// cofactor matrix divided by the determinant.
    pub fn inverse(&self) -> (r: Mat3)
        requires
            m3_lim(*self, INV_LIM as int),
            det3(*self) != 0,
        ensures
            r.r0.x@ == fxdiv(cof2(self.r1.y@, self.r2.z@, self.r1.z@, self.r2.y@), det3(*self)),
            r.r0.y@ == fxdiv(-cof2(self.r0.y@, self.r2.z@, self.r0.z@, self.r2.y@), det3(*self)),
            r.r0.z@ == fxdiv(cof2(self.r0.y@, self.r1.z@, self.r0.z@, self.r1.y@), det3(*self)),
            r.r1.x@ == fxdiv(-cof2(self.r1.x@, self.r2.z@, self.r1.z@, self.r2.x@), det3(*self)),
            r.r1.y@ == fxdiv(cof2(self.r0.x@, self.r2.z@, self.r0.z@, self.r2.x@), det3(*self)),
            r.r1.z@ == fxdiv(-cof2(self.r0.x@, self.r1.z@, self.r0.z@, self.r1.x@), det3(*self)),
            r.r2.x@ == fxdiv(cof2(self.r1.x@, self.r2.y@, self.r1.y@, self.r2.x@), det3(*self)),
            r.r2.y@ == fxdiv(-cof2(self.r0.x@, self.r2.y@, self.r0.y@, self.r2.x@), det3(*self)),
            r.r2.z@ == fxdiv(cof2(self.r0.x@, self.r1.y@, self.r0.y@, self.r1.x@), det3(*self)),
    {
        let d = self.det();
        let c00 = cof2_fx(self.r1.y, self.r2.z, self.r1.z, self.r2.y);
        let c01 = cof2_fx(self.r0.y, self.r2.z, self.r0.z, self.r2.y);
        let c02 = cof2_fx(self.r0.y, self.r1.z, self.r0.z, self.r1.y);
        let c10 = cof2_fx(self.r1.x, self.r2.z, self.r1.z, self.r2.x);
        let c11 = cof2_fx(self.r0.x, self.r2.z, self.r0.z, self.r2.x);
        let c12 = cof2_fx(self.r0.x, self.r1.z, self.r0.z, self.r1.x);
        let c20 = cof2_fx(self.r1.x, self.r2.y, self.r1.y, self.r2.x);
        let c21 = cof2_fx(self.r0.x, self.r2.y, self.r0.y, self.r2.x);
        let c22 = cof2_fx(self.r0.x, self.r1.y, self.r0.y, self.r1.x);
        proof {
            lemma_tdiv_mag(c00@ * (FX_ONE as int), d@);
            lemma_tdiv_mag(-c01@ * (FX_ONE as int), d@);
            lemma_tdiv_mag(c02@ * (FX_ONE as int), d@);
            lemma_tdiv_mag(-c10@ * (FX_ONE as int), d@);
            lemma_tdiv_mag(c11@ * (FX_ONE as int), d@);
            lemma_tdiv_mag(-c12@ * (FX_ONE as int), d@);
            lemma_tdiv_mag(c20@ * (FX_ONE as int), d@);
            lemma_tdiv_mag(-c21@ * (FX_ONE as int), d@);
            lemma_tdiv_mag(c22@ * (FX_ONE as int), d@);
        }
        Mat3 {
            r0: Vec3::from(c00.div(d), c01.neg().div(d), c02.div(d)),
            r1: Vec3::from(c10.neg().div(d), c11.div(d), c12.neg().div(d)),
            r2: Vec3::from(c20.div(d), c21.neg().div(d), c22.div(d)),
        }
    }

    /// The determinant, expanded along the first row.
    pub fn det(&self) -> (r: Fx)
        requires
            m3_lim(*self, INV_LIM as int),
        ensures
            r@ == det3(*self),
            -0x4000_0000_0000 <= r@ <= 0x4000_0000_0000,
    {
        let c0 = cof2_fx(self.r1.y, self.r2.z, self.r1.z, self.r2.y);
        let c1 = cof2_fx(self.r1.x, self.r2.z, self.r1.z, self.r2.x);
        let c2 = cof2_fx(self.r1.x, self.r2.y, self.r1.y, self.r2.x);
        proof {
            lemma_fxmul_bound(self.r0.x@, c0@, INV_LIM as int, 0x2_0000_0000);
            lemma_fxmul_bound(self.r0.y@, c1@, INV_LIM as int, 0x2_0000_0000);
            lemma_fxmul_bound(self.r0.z@, c2@, INV_LIM as int, 0x2_0000_0000);
        }
        self.r0.x.mul(c0).sub(self.r0.y.mul(c1)).add(self.r0.z.mul(c2))
    }
}

/// Raw count of the entry in row `i`, column `j` of a 4x4 matrix.
pub open spec fn ent4(m: Mat4, i: int, j: int) -> int {
    let row = if i == 0 {
        m.r0
    } else if i == 1 {
        m.r1
    } else if i == 2 {
        m.r2
    } else {
        m.r3
    };
    if j == 0 {
        row.x@
    } else if j == 1 {
        row.y@
    } else if j == 2 {
        row.z@
    } else {
        row.w@
    }
}

/// Raw count of a 3x3 determinant of nine raw values, expanded along the
/// first row with truncating products.
pub open spec fn minor3v(
    a: int, b: int, c: int,
    d: int, e: int, f: int,
    g: int, h: int, i: int,
) -> int {
    fxmul(a, cof2(e, i, f, h)) - fxmul(b, cof2(d, i, f, g)) + fxmul(c, cof2(d, h, e, g))
}

/// Raw count of the 3x3 minor of a 4x4 matrix with row `i` and column `j`
/// removed.
pub open spec fn m4_minor(m: Mat4, i: int, j: int) -> int {
    let r0 = if i == 0 { 1int } else { 0int };
    let r1 = if i <= 1 { 2int } else { 1int };
    let r2 = if i <= 2 { 3int } else { 2int };
    let c0 = if j == 0 { 1int } else { 0int };
    let c1 = if j <= 1 { 2int } else { 1int };
    let c2 = if j <= 2 { 3int } else { 2int };
    minor3v(
        ent4(m, r0, c0), ent4(m, r0, c1), ent4(m, r0, c2),
        ent4(m, r1, c0), ent4(m, r1, c1), ent4(m, r1, c2),
        ent4(m, r2, c0), ent4(m, r2, c1), ent4(m, r2, c2),
    )
}

/// Raw count of the 4x4 determinant: cofactor expansion along the first
/// row, every product truncated as the machine truncates it.
pub open spec fn det4(m: Mat4) -> int {
    fxmul(m.r0.x@, m4_minor(m, 0, 0)) - fxmul(m.r0.y@, m4_minor(m, 0, 1)) + fxmul(
        m.r0.z@,
        m4_minor(m, 0, 2),
    ) - fxmul(m.r0.w@, m4_minor(m, 0, 3))
}

/// Exact sum of the squared raw counts of all sixteen entries.
pub open spec fn msq4(m: Mat4) -> int {
    m.r0.x@ * m.r0.x@ + m.r0.y@ * m.r0.y@ + m.r0.z@ * m.r0.z@ + m.r0.w@ * m.r0.w@
        + m.r1.x@ * m.r1.x@ + m.r1.y@ * m.r1.y@ + m.r1.z@ * m.r1.z@ + m.r1.w@ * m.r1.w@
        + m.r2.x@ * m.r2.x@ + m.r2.y@ * m.r2.y@ + m.r2.z@ * m.r2.z@ + m.r2.w@ * m.r2.w@
        + m.r3.x@ * m.r3.x@ + m.r3.y@ * m.r3.y@ + m.r3.z@ * m.r3.z@ + m.r3.w@ * m.r3.w@
}

/// Raw count of the Frobenius norm of a 4x4 matrix.
pub open spec fn mnorm4(m: Mat4) -> int {
    isqrt(msq4(m))
}

impl Mat4 {
    /// The zero matrix.
    pub fn new() -> (r: Mat4)
        ensures
            r.r0.x@ == 0 && r.r0.y@ == 0 && r.r0.z@ == 0 && r.r0.w@ == 0,
            r.r1.x@ == 0 && r.r1.y@ == 0 && r.r1.z@ == 0 && r.r1.w@ == 0,
            r.r2.x@ == 0 && r.r2.y@ == 0 && r.r2.z@ == 0 && r.r2.w@ == 0,
            r.r3.x@ == 0 && r.r3.y@ == 0 && r.r3.z@ == 0 && r.r3.w@ == 0,
    {
        Mat4 { r0: Vec4::new(), r1: Vec4::new(), r2: Vec4::new(), r3: Vec4::new() }
    }

    /// Every entry set to `v`.
    pub fn fill(v: Fx) -> (r: Mat4)
        ensures
            r.r0 == (Vec4 { x: v, y: v, z: v, w: v }),
            r.r1 == (Vec4 { x: v, y: v, z: v, w: v }),
            r.r2 == (Vec4 { x: v, y: v, z: v, w: v }),
            r.r3 == (Vec4 { x: v, y: v, z: v, w: v }),
    {
        Mat4 { r0: Vec4::fill(v), r1: Vec4::fill(v), r2: Vec4::fill(v), r3: Vec4::fill(v) }
    }

    /// A matrix from its row vectors.
    pub fn from(r0: Vec4, r1: Vec4, r2: Vec4, r3: Vec4) -> (r: Mat4)
        ensures
            r == (Mat4 { r0, r1, r2, r3 }),
    {
        Mat4 { r0, r1, r2, r3 }
    }

    /// A matrix from its column vectors.
    pub fn from_col(c0: Vec4, c1: Vec4, c2: Vec4, c3: Vec4) -> (r: Mat4)
        ensures
            r == transpose4(Mat4 { r0: c0, r1: c1, r2: c2, r3: c3 }),
    {
        Mat4::from(c0, c1, c2, c3).transpose()
    }

    /// Replaces the first row.
    pub fn r0(self, v: Vec4) -> (r: Mat4)
        ensures
            r == (Mat4 { r0: v, ..self }),
    {
        Mat4 { r0: v, ..self }
    }

    /// Replaces the second row.
    pub fn r1(self, v: Vec4) -> (r: Mat4)
        ensures
            r == (Mat4 { r1: v, ..self }),
    {
        Mat4 { r1: v, ..self }
    }

    /// Replaces the third row.
    pub fn r2(self, v: Vec4) -> (r: Mat4)
        ensures
            r == (Mat4 { r2: v, ..self }),
    {
        Mat4 { r2: v, ..self }
    }

    /// Replaces the fourth row.
    pub fn r3(self, v: Vec4) -> (r: Mat4)
        ensures
            r == (Mat4 { r3: v, ..self }),
    {
        Mat4 { r3: v, ..self }
    }

    /// Gathers the `index`-th column.
    pub fn col(&self, index: usize) -> (r: Vec4)
        requires
            index < 4,
        ensures
            r == col4_spec(*self, index as int),
    {
        if index == 0 {
            Vec4::from(self.r0.x, self.r1.x, self.r2.x, self.r3.x)
        } else if index == 1 {
            Vec4::from(self.r0.y, self.r1.y, self.r2.y, self.r3.y)
        } else if index == 2 {
            Vec4::from(self.r0.z, self.r1.z, self.r2.z, self.r3.z)
        } else {
            Vec4::from(self.r0.w, self.r1.w, self.r2.w, self.r3.w)
        }
    }

    /// Matrix times column vector.
    pub fn mul_vec(&self, rhs: &Vec4) -> (r: Vec4)
        requires
            m4_lim(*self, MAT_LIM as int),
            v4_lim(*rhs, MAT_LIM as int),
        ensures
            r.x@ == dot4(self.r0, *rhs),
            r.y@ == dot4(self.r1, *rhs),
            r.z@ == dot4(self.r2, *rhs),
            r.w@ == dot4(self.r3, *rhs),
            r == mulv4(*self, *rhs),
            v4_lim(r, 0x1_0000_0000_0000),
    {
        proof {
            lemma_dot4_lim(self.r0, *rhs);
            lemma_dot4_lim(self.r1, *rhs);
            lemma_dot4_lim(self.r2, *rhs);
            lemma_dot4_lim(self.r3, *rhs);
        }
        Vec4::from(self.r0.dot(*rhs), self.r1.dot(*rhs), self.r2.dot(*rhs), self.r3.dot(*rhs))
    }

    /// Matrix product: entry `(i, j)` is the dot product of row `i` of
    /// `self` with column `j` of `rhs`.
    pub fn mul_mat(&self, rhs: &Mat4) -> (r: Mat4)
        requires
            m4_lim(*self, MAT_LIM as int),
            m4_lim(*rhs, MAT_LIM as int),
        ensures
            is_mul4(r, *self, *rhs),
            r == mul4(*self, *rhs),
            m4_lim(r, 0x1_0000_0000_0000),
    {
        let c0 = self.mul_col(rhs, 0);
        let c1 = self.mul_col(rhs, 1);
        let c2 = self.mul_col(rhs, 2);
        let c3 = self.mul_col(rhs, 3);
        Mat4 {
            r0: Vec4::from(c0.x, c1.x, c2.x, c3.x),
            r1: Vec4::from(c0.y, c1.y, c2.y, c3.y),
            r2: Vec4::from(c0.z, c1.z, c2.z, c3.z),
            r3: Vec4::from(c0.w, c1.w, c2.w, c3.w),
        }
    }

    /// The dot products of every row of `self` with column `j` of `rhs`.
    fn mul_col(&self, rhs: &Mat4, j: usize) -> (r: Vec4)
        requires
            j < 4,
            m4_lim(*self, MAT_LIM as int),
            m4_lim(*rhs, MAT_LIM as int),
        ensures
            r.x@ == dot4(self.r0, col4_spec(*rhs, j as int)),
            r.y@ == dot4(self.r1, col4_spec(*rhs, j as int)),
            r.z@ == dot4(self.r2, col4_spec(*rhs, j as int)),
            r.w@ == dot4(self.r3, col4_spec(*rhs, j as int)),
            v4_lim(r, 0x1_0000_0000_0000),
    {
        let c = rhs.col(j);
        proof {
            lemma_dot4_lim(self.r0, c);
            lemma_dot4_lim(self.r1, c);
            lemma_dot4_lim(self.r2, c);
            lemma_dot4_lim(self.r3, c);
        }
        Vec4::from(self.r0.dot(c), self.r1.dot(c), self.r2.dot(c), self.r3.dot(c))
    }

    /// Row/column swap.
    pub fn transpose(&self) -> (r: Mat4)
        ensures
            r == transpose4(*self),
    {
        Mat4 { r0: self.col(0), r1: self.col(1), r2: self.col(2), r3: self.col(3) }
    }

    /// The matrix with `v` on the diagonal and zero elsewhere.
    pub fn eye(v: Fx) -> (r: Mat4)
        ensures
            r.r0 == (Vec4 { x: v, y: Fx { raw: 0 }, z: Fx { raw: 0 }, w: Fx { raw: 0 } }),
            r.r1 == (Vec4 { x: Fx { raw: 0 }, y: v, z: Fx { raw: 0 }, w: Fx { raw: 0 } }),
            r.r2 == (Vec4 { x: Fx { raw: 0 }, y: Fx { raw: 0 }, z: v, w: Fx { raw: 0 } }),
            r.r3 == (Vec4 { x: Fx { raw: 0 }, y: Fx { raw: 0 }, z: Fx { raw: 0 }, w: v }),
    {
        Mat4 {
            r0: Vec4::from(v, Fx::zero(), Fx::zero(), Fx::zero()),
            r1: Vec4::from(Fx::zero(), v, Fx::zero(), Fx::zero()),
            r2: Vec4::from(Fx::zero(), Fx::zero(), v, Fx::zero()),
            r3: Vec4::from(Fx::zero(), Fx::zero(), Fx::zero(), v),
        }
    }

    /// The matrix with the vector's components on the diagonal.
    pub fn diag(v: &Vec4) -> (r: Mat4)
        ensures
            r.r0 == (Vec4 { x: v.x, y: Fx { raw: 0 }, z: Fx { raw: 0 }, w: Fx { raw: 0 } }),
            r.r1 == (Vec4 { x: Fx { raw: 0 }, y: v.y, z: Fx { raw: 0 }, w: Fx { raw: 0 } }),
            r.r2 == (Vec4 { x: Fx { raw: 0 }, y: Fx { raw: 0 }, z: v.z, w: Fx { raw: 0 } }),
            r.r3 == (Vec4 { x: Fx { raw: 0 }, y: Fx { raw: 0 }, z: Fx { raw: 0 }, w: v.w }),
    {
        Mat4 {
            r0: Vec4::from(v.x, Fx::zero(), Fx::zero(), Fx::zero()),
            r1: Vec4::from(Fx::zero(), v.y, Fx::zero(), Fx::zero()),
            r2: Vec4::from(Fx::zero(), Fx::zero(), v.z, Fx::zero()),
            r3: Vec4::from(Fx::zero(), Fx::zero(), Fx::zero(), v.w),
        }
    }

    /// Narrows to the upper-left 3x3 block.
    pub fn to_mat3(&self) -> (r: Mat3)
        ensures
            r.r0 == (Vec3 { x: self.r0.x, y: self.r0.y, z: self.r0.z }),
            r.r1 == (Vec3 { x: self.r1.x, y: self.r1.y, z: self.r1.z }),
            r.r2 == (Vec3 { x: self.r2.x, y: self.r2.y, z: self.r2.z }),
    {
        Mat3 { r0: self.r0.to_vec3(), r1: self.r1.to_vec3(), r2: self.r2.to_vec3() }
    }

    /// Exact entry-wise sum.
    pub fn add(self, o: Mat4) -> (r: Mat4)
        requires
            m4_lim(self, ADD_LIM as int),
            m4_lim(o, ADD_LIM as int),
        ensures
            r.r0.x@ == self.r0.x@ + o.r0.x@ && r.r0.y@ == self.r0.y@ + o.r0.y@
                && r.r0.z@ == self.r0.z@ + o.r0.z@ && r.r0.w@ == self.r0.w@ + o.r0.w@,
            r.r1.x@ == self.r1.x@ + o.r1.x@ && r.r1.y@ == self.r1.y@ + o.r1.y@
                && r.r1.z@ == self.r1.z@ + o.r1.z@ && r.r1.w@ == self.r1.w@ + o.r1.w@,
            r.r2.x@ == self.r2.x@ + o.r2.x@ && r.r2.y@ == self.r2.y@ + o.r2.y@
                && r.r2.z@ == self.r2.z@ + o.r2.z@ && r.r2.w@ == self.r2.w@ + o.r2.w@,
            r.r3.x@ == self.r3.x@ + o.r3.x@ && r.r3.y@ == self.r3.y@ + o.r3.y@
                && r.r3.z@ == self.r3.z@ + o.r3.z@ && r.r3.w@ == self.r3.w@ + o.r3.w@,
    {
        Mat4 {
            r0: self.r0.add(o.r0),
            r1: self.r1.add(o.r1),
            r2: self.r2.add(o.r2),
            r3: self.r3.add(o.r3),
        }
    }

    /// Exact entry-wise difference.
    pub fn sub(self, o: Mat4) -> (r: Mat4)
        requires
            m4_lim(self, ADD_LIM as int),
            m4_lim(o, ADD_LIM as int),
        ensures
            r.r0.x@ == self.r0.x@ - o.r0.x@ && r.r0.y@ == self.r0.y@ - o.r0.y@
                && r.r0.z@ == self.r0.z@ - o.r0.z@ && r.r0.w@ == self.r0.w@ - o.r0.w@,
            r.r1.x@ == self.r1.x@ - o.r1.x@ && r.r1.y@ == self.r1.y@ - o.r1.y@
                && r.r1.z@ == self.r1.z@ - o.r1.z@ && r.r1.w@ == self.r1.w@ - o.r1.w@,
            r.r2.x@ == self.r2.x@ - o.r2.x@ && r.r2.y@ == self.r2.y@ - o.r2.y@
                && r.r2.z@ == self.r2.z@ - o.r2.z@ && r.r2.w@ == self.r2.w@ - o.r2.w@,
            r.r3.x@ == self.r3.x@ - o.r3.x@ && r.r3.y@ == self.r3.y@ - o.r3.y@
                && r.r3.z@ == self.r3.z@ - o.r3.z@ && r.r3.w@ == self.r3.w@ - o.r3.w@,
    {
        Mat4 {
            r0: self.r0.sub(o.r0),
            r1: self.r1.sub(o.r1),
            r2: self.r2.sub(o.r2),
            r3: self.r3.sub(o.r3),
        }
    }

    /// Exact sum of a scalar onto every entry.
    pub fn add_s(self, s: Fx) -> (r: Mat4)
        requires
            m4_lim(self, ADD_LIM as int),
            -(ADD_LIM as int) <= s@ <= ADD_LIM as int,
        ensures
            r.r0.x@ == self.r0.x@ + s@ && r.r0.y@ == self.r0.y@ + s@
                && r.r0.z@ == self.r0.z@ + s@ && r.r0.w@ == self.r0.w@ + s@,
            r.r1.x@ == self.r1.x@ + s@ && r.r1.y@ == self.r1.y@ + s@
                && r.r1.z@ == self.r1.z@ + s@ && r.r1.w@ == self.r1.w@ + s@,
            r.r2.x@ == self.r2.x@ + s@ && r.r2.y@ == self.r2.y@ + s@
                && r.r2.z@ == self.r2.z@ + s@ && r.r2.w@ == self.r2.w@ + s@,
            r.r3.x@ == self.r3.x@ + s@ && r.r3.y@ == self.r3.y@ + s@
                && r.r3.z@ == self.r3.z@ + s@ && r.r3.w@ == self.r3.w@ + s@,
    {
        Mat4 {
            r0: self.r0.add_s(s),
            r1: self.r1.add_s(s),
            r2: self.r2.add_s(s),
            r3: self.r3.add_s(s),
        }
    }

    /// Exact difference of a scalar from every entry.
    pub fn sub_s(self, s: Fx) -> (r: Mat4)
        requires
            m4_lim(self, ADD_LIM as int),
            -(ADD_LIM as int) <= s@ <= ADD_LIM as int,
        ensures
            r.r0.x@ == self.r0.x@ - s@ && r.r0.y@ == self.r0.y@ - s@
                && r.r0.z@ == self.r0.z@ - s@ && r.r0.w@ == self.r0.w@ - s@,
            r.r1.x@ == self.r1.x@ - s@ && r.r1.y@ == self.r1.y@ - s@
                && r.r1.z@ == self.r1.z@ - s@ && r.r1.w@ == self.r1.w@ - s@,
            r.r2.x@ == self.r2.x@ - s@ && r.r2.y@ == self.r2.y@ - s@
                && r.r2.z@ == self.r2.z@ - s@ && r.r2.w@ == self.r2.w@ - s@,
            r.r3.x@ == self.r3.x@ - s@ && r.r3.y@ == self.r3.y@ - s@
                && r.r3.z@ == self.r3.z@ - s@ && r.r3.w@ == self.r3.w@ - s@,
    {
        Mat4 {
            r0: self.r0.sub_s(s),
            r1: self.r1.sub_s(s),
            r2: self.r2.sub_s(s),
            r3: self.r3.sub_s(s),
        }
    }

    /// Truncating product of every entry with a scalar.
    pub fn mul_s(self, s: Fx) -> (r: Mat4)
        requires
            m4_lim(self, MAT_LIM as int),
            -(MAT_LIM as int) <= s@ <= MAT_LIM as int,
        ensures
            r.r0.x@ == fxmul(self.r0.x@, s@) && r.r0.y@ == fxmul(self.r0.y@, s@)
                && r.r0.z@ == fxmul(self.r0.z@, s@) && r.r0.w@ == fxmul(self.r0.w@, s@),
            r.r1.x@ == fxmul(self.r1.x@, s@) && r.r1.y@ == fxmul(self.r1.y@, s@)
                && r.r1.z@ == fxmul(self.r1.z@, s@) && r.r1.w@ == fxmul(self.r1.w@, s@),
            r.r2.x@ == fxmul(self.r2.x@, s@) && r.r2.y@ == fxmul(self.r2.y@, s@)
                && r.r2.z@ == fxmul(self.r2.z@, s@) && r.r2.w@ == fxmul(self.r2.w@, s@),
            r.r3.x@ == fxmul(self.r3.x@, s@) && r.r3.y@ == fxmul(self.r3.y@, s@)
                && r.r3.z@ == fxmul(self.r3.z@, s@) && r.r3.w@ == fxmul(self.r3.w@, s@),
    {
        proof {
            lemma_fxmul_bound(self.r0.x@, s@, MAT_LIM as int, MAT_LIM as int);
            lemma_fxmul_bound(self.r0.y@, s@, MAT_LIM as int, MAT_LIM as int);
            lemma_fxmul_bound(self.r0.z@, s@, MAT_LIM as int, MAT_LIM as int);
            lemma_fxmul_bound(self.r0.w@, s@, MAT_LIM as int, MAT_LIM as int);
            lemma_fxmul_bound(self.r1.x@, s@, MAT_LIM as int, MAT_LIM as int);
            lemma_fxmul_bound(self.r1.y@, s@, MAT_LIM as int, MAT_LIM as int);
            lemma_fxmul_bound(self.r1.z@, s@, MAT_LIM as int, MAT_LIM as int);
            lemma_fxmul_bound(self.r1.w@, s@, MAT_LIM as int, MAT_LIM as int);
            lemma_fxmul_bound(self.r2.x@, s@, MAT_LIM as int, MAT_LIM as int);
            lemma_fxmul_bound(self.r2.y@, s@, MAT_LIM as int, MAT_LIM as int);
            lemma_fxmul_bound(self.r2.z@, s@, MAT_LIM as int, MAT_LIM as int);
            lemma_fxmul_bound(self.r2.w@, s@, MAT_LIM as int, MAT_LIM as int);
            lemma_fxmul_bound(self.r3.x@, s@, MAT_LIM as int, MAT_LIM as int);
            lemma_fxmul_bound(self.r3.y@, s@, MAT_LIM as int, MAT_LIM as int);
            lemma_fxmul_bound(self.r3.z@, s@, MAT_LIM as int, MAT_LIM as int);
            lemma_fxmul_bound(self.r3.w@, s@, MAT_LIM as int, MAT_LIM as int);
        }
        Mat4 {
            r0: self.r0.mul_s(s),
            r1: self.r1.mul_s(s),
            r2: self.r2.mul_s(s),
            r3: self.r3.mul_s(s),
        }
    }

    /// Truncating quotient of every entry by a scalar.
    pub fn div_s(self, s: Fx) -> (r: Mat4)
        requires
            m4_lim(self, MAT_LIM as int),
            s@ != 0,
        ensures
            r.r0.x@ == fxdiv(self.r0.x@, s@) && r.r0.y@ == fxdiv(self.r0.y@, s@)
                && r.r0.z@ == fxdiv(self.r0.z@, s@) && r.r0.w@ == fxdiv(self.r0.w@, s@),
            r.r1.x@ == fxdiv(self.r1.x@, s@) && r.r1.y@ == fxdiv(self.r1.y@, s@)
                && r.r1.z@ == fxdiv(self.r1.z@, s@) && r.r1.w@ == fxdiv(self.r1.w@, s@),
            r.r2.x@ == fxdiv(self.r2.x@, s@) && r.r2.y@ == fxdiv(self.r2.y@, s@)
                && r.r2.z@ == fxdiv(self.r2.z@, s@) && r.r2.w@ == fxdiv(self.r2.w@, s@),
            r.r3.x@ == fxdiv(self.r3.x@, s@) && r.r3.y@ == fxdiv(self.r3.y@, s@)
                && r.r3.z@ == fxdiv(self.r3.z@, s@) && r.r3.w@ == fxdiv(self.r3.w@, s@),
    {
        proof {
            lemma_tdiv_mag(self.r0.x@ * (FX_ONE as int), s@);
            lemma_tdiv_mag(self.r0.y@ * (FX_ONE as int), s@);
            lemma_tdiv_mag(self.r0.z@ * (FX_ONE as int), s@);
            lemma_tdiv_mag(self.r0.w@ * (FX_ONE as int), s@);
            lemma_tdiv_mag(self.r1.x@ * (FX_ONE as int), s@);
            lemma_tdiv_mag(self.r1.y@ * (FX_ONE as int), s@);
            lemma_tdiv_mag(self.r1.z@ * (FX_ONE as int), s@);
            lemma_tdiv_mag(self.r1.w@ * (FX_ONE as int), s@);
            lemma_tdiv_mag(self.r2.x@ * (FX_ONE as int), s@);
            lemma_tdiv_mag(self.r2.y@ * (FX_ONE as int), s@);
            lemma_tdiv_mag(self.r2.z@ * (FX_ONE as int), s@);
            lemma_tdiv_mag(self.r2.w@ * (FX_ONE as int), s@);
            lemma_tdiv_mag(self.r3.x@ * (FX_ONE as int), s@);
            lemma_tdiv_mag(self.r3.y@ * (FX_ONE as int), s@);
            lemma_tdiv_mag(self.r3.z@ * (FX_ONE as int), s@);
            lemma_tdiv_mag(self.r3.w@ * (FX_ONE as int), s@);
        }
        Mat4 {
            r0: self.r0.div_s(s),
            r1: self.r1.div_s(s),
            r2: self.r2.div_s(s),
            r3: self.r3.div_s(s),
        }
    }

    /// Inverse by the cofactor formula: entry `(i, j)` is the signed 3x3
    /// minor with row `j` and column `i` removed, divided by the
    /// determinant, every product and quotient truncated.
    pub fn inverse(&self) -> (r: Mat4)
        requires
            m4_lim(*self, INV_LIM as int),
            det4(*self) != 0,
        ensures
            r.r0.x@ == fxdiv(m4_minor(*self, 0, 0), det4(*self)),
            r.r0.y@ == fxdiv(-m4_minor(*self, 1, 0), det4(*self)),
            r.r0.z@ == fxdiv(m4_minor(*self, 2, 0), det4(*self)),
            r.r0.w@ == fxdiv(-m4_minor(*self, 3, 0), det4(*self)),
            r.r1.x@ == fxdiv(-m4_minor(*self, 0, 1), det4(*self)),
            r.r1.y@ == fxdiv(m4_minor(*self, 1, 1), det4(*self)),
            r.r1.z@ == fxdiv(-m4_minor(*self, 2, 1), det4(*self)),
            r.r1.w@ == fxdiv(m4_minor(*self, 3, 1), det4(*self)),
            r.r2.x@ == fxdiv(m4_minor(*self, 0, 2), det4(*self)),
            r.r2.y@ == fxdiv(-m4_minor(*self, 1, 2), det4(*self)),
            r.r2.z@ == fxdiv(m4_minor(*self, 2, 2), det4(*self)),
            r.r2.w@ == fxdiv(-m4_minor(*self, 3, 2), det4(*self)),
            r.r3.x@ == fxdiv(-m4_minor(*self, 0, 3), det4(*self)),
            r.r3.y@ == fxdiv(m4_minor(*self, 1, 3), det4(*self)),
            r.r3.z@ == fxdiv(-m4_minor(*self, 2, 3), det4(*self)),
            r.r3.w@ == fxdiv(m4_minor(*self, 3, 3), det4(*self)),
    {
        let d = self.det();
        let m00 = self.minor(0, 0);
        let m01 = self.minor(0, 1);
        let m02 = self.minor(0, 2);
        let m03 = self.minor(0, 3);
        let m10 = self.minor(1, 0);
        let m11 = self.minor(1, 1);
        let m12 = self.minor(1, 2);
        let m13 = self.minor(1, 3);
        let m20 = self.minor(2, 0);
        let m21 = self.minor(2, 1);
        let m22 = self.minor(2, 2);
        let m23 = self.minor(2, 3);
        let m30 = self.minor(3, 0);
        let m31 = self.minor(3, 1);
        let m32 = self.minor(3, 2);
        let m33 = self.minor(3, 3);
        proof {
            lemma_tdiv_mag(m00@ * (FX_ONE as int), d@);
            lemma_tdiv_mag(-m10@ * (FX_ONE as int), d@);
            lemma_tdiv_mag(m20@ * (FX_ONE as int), d@);
            lemma_tdiv_mag(-m30@ * (FX_ONE as int), d@);
            lemma_tdiv_mag(-m01@ * (FX_ONE as int), d@);
            lemma_tdiv_mag(m11@ * (FX_ONE as int), d@);
            lemma_tdiv_mag(-m21@ * (FX_ONE as int), d@);
            lemma_tdiv_mag(m31@ * (FX_ONE as int), d@);
            lemma_tdiv_mag(m02@ * (FX_ONE as int), d@);
            lemma_tdiv_mag(-m12@ * (FX_ONE as int), d@);
            lemma_tdiv_mag(m22@ * (FX_ONE as int), d@);
            lemma_tdiv_mag(-m32@ * (FX_ONE as int), d@);
            lemma_tdiv_mag(-m03@ * (FX_ONE as int), d@);
            lemma_tdiv_mag(m13@ * (FX_ONE as int), d@);
            lemma_tdiv_mag(-m23@ * (FX_ONE as int), d@);
            lemma_tdiv_mag(m33@ * (FX_ONE as int), d@);
        }
        Mat4 {
            r0: Vec4::from(m00.div(d), m10.neg().div(d), m20.div(d), m30.neg().div(d)),
            r1: Vec4::from(m01.neg().div(d), m11.div(d), m21.neg().div(d), m31.div(d)),
            r2: Vec4::from(m02.div(d), m12.neg().div(d), m22.div(d), m32.neg().div(d)),
            r3: Vec4::from(m03.neg().div(d), m13.div(d), m23.neg().div(d), m33.div(d)),
        }
    }

    /// The determinant, expanded along the first row.
    pub fn det(&self) -> (r: Fx)
        requires
            m4_lim(*self, INV_LIM as int),
        ensures
            r@ == det4(*self),
            -0x18_0000_0000_0000 <= r@ <= 0x18_0000_0000_0000,
    {
        let m00 = self.minor(0, 0);
        let m01 = self.minor(0, 1);
        let m02 = self.minor(0, 2);
        let m03 = self.minor(0, 3);
        proof {
            lemma_fxmul_bound(self.r0.x@, m00@, INV_LIM as int, 0x600_0000_0000);
            lemma_fxmul_bound(self.r0.y@, m01@, INV_LIM as int, 0x600_0000_0000);
            lemma_fxmul_bound(self.r0.z@, m02@, INV_LIM as int, 0x600_0000_0000);
            lemma_fxmul_bound(self.r0.w@, m03@, INV_LIM as int, 0x600_0000_0000);
        }
        self.r0.x.mul(m00).sub(self.r0.y.mul(m01)).add(self.r0.z.mul(m02)).sub(
            self.r0.w.mul(m03),
        )
    }

    /// The 3x3 minor with row `i` and column `j` removed.
    fn minor(&self, i: usize, j: usize) -> (r: Fx)
        requires
            i < 4,
            j < 4,
            m4_lim(*self, INV_LIM as int),
        ensures
            r@ == m4_minor(*self, i as int, j as int),
            -0x600_0000_0000 <= r@ <= 0x600_0000_0000,
    {
        let r0: usize = if i == 0 { 1 } else { 0 };
        let r1: usize = if i <= 1 { 2 } else { 1 };
        let r2: usize = if i <= 2 { 3 } else { 2 };
        let c0: usize = if j == 0 { 1 } else { 0 };
        let c1: usize = if j <= 1 { 2 } else { 1 };
        let c2: usize = if j <= 2 { 3 } else { 2 };
        let a = self.entry(r0, c0);
        let b = self.entry(r0, c1);
        let c = self.entry(r0, c2);
        let d = self.entry(r1, c0);
        let e = self.entry(r1, c1);
        let f = self.entry(r1, c2);
        let g = self.entry(r2, c0);
        let h = self.entry(r2, c1);
        let k = self.entry(r2, c2);
        let p0 = cof2_fx(e, k, f, h);
        let p1 = cof2_fx(d, k, f, g);
        let p2 = cof2_fx(d, h, e, g);
        proof {
            lemma_fxmul_bound(a@, p0@, INV_LIM as int, 0x2_0000_0000);
            lemma_fxmul_bound(b@, p1@, INV_LIM as int, 0x2_0000_0000);
            lemma_fxmul_bound(c@, p2@, INV_LIM as int, 0x2_0000_0000);
        }
        a.mul(p0).sub(b.mul(p1)).add(c.mul(p2))
    }

    /// The entry in row `i`, column `j`.
    pub fn entry(&self, i: usize, j: usize) -> (r: Fx)
        requires
            i < 4,
            j < 4,
        ensures
            r@ == ent4(*self, i as int, j as int),
    {
        let row = if i == 0 {
            self.r0
        } else if i == 1 {
            self.r1
        } else if i == 2 {
            self.r2
        } else {
            self.r3
        };
        if j == 0 {
            row.x
        } else if j == 1 {
            row.y
        } else if j == 2 {
            row.z
        } else {
            row.w
        }
    }

    /// Frobenius norm: integer square root of the exact sum of all
    /// squared raw counts.
    pub fn norm(&self) -> (r: Fx)
        requires
            m4_lim(*self, MNORM_LIM as int),
        ensures
            r@ == mnorm4(*self),
            r@ >= 0,
            r@ * r@ <= msq4(*self),
            msq4(*self) < (r@ + 1) * (r@ + 1),
    {
        proof {
            lemma_msq4_bounds(*self);
        }
        let s0: i128 = row_sq(self.r0);
        let s1: i128 = row_sq(self.r1);
        let s2: i128 = row_sq(self.r2);
        let s3: i128 = row_sq(self.r3);
        let n: u128 = (s0 + s1 + s2 + s3) as u128;
        let r = isqrt_u128(n);
        proof {
            lemma_isqrt(n as int);
            lemma_isqrt_unique(n as int, r as int, isqrt(n as int));
            assert((r as int) < 0x8000_0000_0000_0000) by (nonlinear_arith)
                requires
                    0 <= r as int,
                    (r as int) * (r as int) <= n as int,
                    (n as int) < 0x4000_0000_0000_0000_0000_0000_0000_0000,
            ;
        }
        Fx { raw: r as i64 }
    }

    /// Scales the matrix to unit Frobenius norm, each entry truncated.
    pub fn normalize(&self) -> (r: Mat4)
        requires
            m4_lim(*self, MNORM_LIM as int),
            msq4(*self) >= 1,
        ensures
            r.r0.x@ == fxdiv(self.r0.x@, mnorm4(*self)),
            r.r0.y@ == fxdiv(self.r0.y@, mnorm4(*self)),
            r.r0.z@ == fxdiv(self.r0.z@, mnorm4(*self)),
            r.r0.w@ == fxdiv(self.r0.w@, mnorm4(*self)),
            r.r1.x@ == fxdiv(self.r1.x@, mnorm4(*self)),
            r.r1.y@ == fxdiv(self.r1.y@, mnorm4(*self)),
            r.r1.z@ == fxdiv(self.r1.z@, mnorm4(*self)),
            r.r1.w@ == fxdiv(self.r1.w@, mnorm4(*self)),
            r.r2.x@ == fxdiv(self.r2.x@, mnorm4(*self)),
            r.r2.y@ == fxdiv(self.r2.y@, mnorm4(*self)),
            r.r2.z@ == fxdiv(self.r2.z@, mnorm4(*self)),
            r.r2.w@ == fxdiv(self.r2.w@, mnorm4(*self)),
            r.r3.x@ == fxdiv(self.r3.x@, mnorm4(*self)),
            r.r3.y@ == fxdiv(self.r3.y@, mnorm4(*self)),
            r.r3.z@ == fxdiv(self.r3.z@, mnorm4(*self)),
            r.r3.w@ == fxdiv(self.r3.w@, mnorm4(*self)),
    {
        let n = self.norm();
        proof {
            lemma_msq4_bounds(*self);
            assert(n@ >= 1) by (nonlinear_arith)
                requires
                    n@ >= 0,
                    msq4(*self) >= 1,
                    msq4(*self) < (n@ + 1) * (n@ + 1),
            ;
            lemma_m4_unit_rows(*self, n@);
        }
        Mat4 {
            r0: self.r0.div_s(n),
            r1: self.r1.div_s(n),
            r2: self.r2.div_s(n),
            r3: self.r3.div_s(n),
        }
    }
}

/// Squares of all entries of a norm-bounded matrix are nonnegative and
/// bounded, so the total fits below 2^126.
proof fn lemma_msq4_bounds(m: Mat4)
    requires
        m4_lim(m, MNORM_LIM as int),
    ensures
        0 <= msq4(m),
        msq4(m) < 0x4000_0000_0000_0000_0000_0000_0000_0000,
        m.r0.x@ * m.r0.x@ <= msq4(m) && m.r0.y@ * m.r0.y@ <= msq4(m),
        m.r0.z@ * m.r0.z@ <= msq4(m) && m.r0.w@ * m.r0.w@ <= msq4(m),
        m.r1.x@ * m.r1.x@ <= msq4(m) && m.r1.y@ * m.r1.y@ <= msq4(m),
        m.r1.z@ * m.r1.z@ <= msq4(m) && m.r1.w@ * m.r1.w@ <= msq4(m),
        m.r2.x@ * m.r2.x@ <= msq4(m) && m.r2.y@ * m.r2.y@ <= msq4(m),
        m.r2.z@ * m.r2.z@ <= msq4(m) && m.r2.w@ * m.r2.w@ <= msq4(m),
        m.r3.x@ * m.r3.x@ <= msq4(m) && m.r3.y@ * m.r3.y@ <= msq4(m),
        m.r3.z@ * m.r3.z@ <= msq4(m) && m.r3.w@ * m.r3.w@ <= msq4(m),
{
    lemma_sq_bound(m.r0.x@, MNORM_LIM as int);
    lemma_sq_bound(m.r0.y@, MNORM_LIM as int);
    lemma_sq_bound(m.r0.z@, MNORM_LIM as int);
    lemma_sq_bound(m.r0.w@, MNORM_LIM as int);
    lemma_sq_bound(m.r1.x@, MNORM_LIM as int);
    lemma_sq_bound(m.r1.y@, MNORM_LIM as int);
    lemma_sq_bound(m.r1.z@, MNORM_LIM as int);
    lemma_sq_bound(m.r1.w@, MNORM_LIM as int);
    lemma_sq_bound(m.r2.x@, MNORM_LIM as int);
    lemma_sq_bound(m.r2.y@, MNORM_LIM as int);
    lemma_sq_bound(m.r2.z@, MNORM_LIM as int);
    lemma_sq_bound(m.r2.w@, MNORM_LIM as int);
    lemma_sq_bound(m.r3.x@, MNORM_LIM as int);
    lemma_sq_bound(m.r3.y@, MNORM_LIM as int);
    lemma_sq_bound(m.r3.z@, MNORM_LIM as int);
    lemma_sq_bound(m.r3.w@, MNORM_LIM as int);
}

/// Every entry scaled by the Frobenius norm stays within one unit and
/// within the machine word.
proof fn lemma_m4_unit_rows(m: Mat4, n: int)
    requires
        m4_lim(m, MNORM_LIM as int),
        1 <= n,
        n * n <= msq4(m),
        msq4(m) < (n + 1) * (n + 1),
    ensures
        fx_fits(fxdiv(m.r0.x@, n)) && fx_fits(fxdiv(m.r0.y@, n)),
        fx_fits(fxdiv(m.r0.z@, n)) && fx_fits(fxdiv(m.r0.w@, n)),
        fx_fits(fxdiv(m.r1.x@, n)) && fx_fits(fxdiv(m.r1.y@, n)),
        fx_fits(fxdiv(m.r1.z@, n)) && fx_fits(fxdiv(m.r1.w@, n)),
        fx_fits(fxdiv(m.r2.x@, n)) && fx_fits(fxdiv(m.r2.y@, n)),
        fx_fits(fxdiv(m.r2.z@, n)) && fx_fits(fxdiv(m.r2.w@, n)),
        fx_fits(fxdiv(m.r3.x@, n)) && fx_fits(fxdiv(m.r3.y@, n)),
        fx_fits(fxdiv(m.r3.z@, n)) && fx_fits(fxdiv(m.r3.w@, n)),
{
    lemma_msq4_bounds(m);
    let s = msq4(m);
    lemma_norm_dominates(n, s, m.r0.x@);
    lemma_norm_dominates(n, s, m.r0.y@);
    lemma_norm_dominates(n, s, m.r0.z@);
    lemma_norm_dominates(n, s, m.r0.w@);
    lemma_norm_dominates(n, s, m.r1.x@);
    lemma_norm_dominates(n, s, m.r1.y@);
    lemma_norm_dominates(n, s, m.r1.z@);
    lemma_norm_dominates(n, s, m.r1.w@);
    lemma_norm_dominates(n, s, m.r2.x@);
    lemma_norm_dominates(n, s, m.r2.y@);
    lemma_norm_dominates(n, s, m.r2.z@);
    lemma_norm_dominates(n, s, m.r2.w@);
    lemma_norm_dominates(n, s, m.r3.x@);
    lemma_norm_dominates(n, s, m.r3.y@);
    lemma_norm_dominates(n, s, m.r3.z@);
    lemma_norm_dominates(n, s, m.r3.w@);
    lemma_unit_bound(m.r0.x@, n);
    lemma_unit_bound(m.r0.y@, n);
    lemma_unit_bound(m.r0.z@, n);
    lemma_unit_bound(m.r0.w@, n);
    lemma_unit_bound(m.r1.x@, n);
    lemma_unit_bound(m.r1.y@, n);
    lemma_unit_bound(m.r1.z@, n);
    lemma_unit_bound(m.r1.w@, n);
    lemma_unit_bound(m.r2.x@, n);
    lemma_unit_bound(m.r2.y@, n);
    lemma_unit_bound(m.r2.z@, n);
    lemma_unit_bound(m.r2.w@, n);
    lemma_unit_bound(m.r3.x@, n);
    lemma_unit_bound(m.r3.y@, n);
    lemma_unit_bound(m.r3.z@, n);
    lemma_unit_bound(m.r3.w@, n);
}

/// Exact sum of the squared raw counts of one row, in a wide word.
fn row_sq(v: Vec4) -> (r: i128)
    requires
        -(MNORM_LIM as int) <= v.x@ <= MNORM_LIM as int,
        -(MNORM_LIM as int) <= v.y@ <= MNORM_LIM as int,
        -(MNORM_LIM as int) <= v.z@ <= MNORM_LIM as int,
        -(MNORM_LIM as int) <= v.w@ <= MNORM_LIM as int,
    ensures
        r as int == v.x@ * v.x@ + v.y@ * v.y@ + v.z@ * v.z@ + v.w@ * v.w@,
        0 <= r as int,
        r as int <= 0x400_0000_0000_0000_0000_0000_0000_0000,
{
    proof {
        lemma_sq_bound(v.x@, MNORM_LIM as int);
        lemma_sq_bound(v.y@, MNORM_LIM as int);
        lemma_sq_bound(v.z@, MNORM_LIM as int);
        lemma_sq_bound(v.w@, MNORM_LIM as int);
    }
    let sx: i128 = (v.x.raw as i128) * (v.x.raw as i128);
    let sy: i128 = (v.y.raw as i128) * (v.y.raw as i128);
    let sz: i128 = (v.z.raw as i128) * (v.z.raw as i128);
    let sw: i128 = (v.w.raw as i128) * (v.w.raw as i128);
    sx + sy + sz + sw
}

/// One 2x2 cofactor `a*b - c*d` with truncating products, for entries
/// bounded by the inverse limit.
fn cof2_fx(a: Fx, b: Fx, c: Fx, d: Fx) -> (r: Fx)
    requires
        -(INV_LIM as int) <= a@ <= INV_LIM as int,
        -(INV_LIM as int) <= b@ <= INV_LIM as int,
        -(INV_LIM as int) <= c@ <= INV_LIM as int,
        -(INV_LIM as int) <= d@ <= INV_LIM as int,
    ensures
        r@ == cof2(a@, b@, c@, d@),
        -0x2_0000_0000 <= r@ <= 0x2_0000_0000,
{
    proof {
        lemma_cof2_lim(a@, b@, c@, d@);
    }
    a.mul(b).sub(c.mul(d))
}

} // verus!
