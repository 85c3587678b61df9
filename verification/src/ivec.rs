//! Fixed-dimension vectors and matrices over plain integers.
//!
//! The integer instantiation of the vector/matrix family: every
//! operation is exact machine-integer arithmetic, with truncating
//! division, and converts to and from the fixed-point family by whole
//! units.

use vstd::prelude::*;
use crate::fx::{Fx, FX_ONE, fx_fits, tdiv, lemma_tdiv_mag};
use crate::vecn::{Vec2, Vec3, Vec4};

verus! {

/// A vector of two integer components.
#[derive(Clone, Copy, Debug, PartialEq, Eq, Structural)]
pub struct Vec2i {
    pub x: i64,
    pub y: i64,
}

/// A vector of three integer components.
#[derive(Clone, Copy, Debug, PartialEq, Eq, Structural)]
pub struct Vec3i {
    pub x: i64,
    pub y: i64,
    pub z: i64,
}

/// A vector of four integer components.
#[derive(Clone, Copy, Debug, PartialEq, Eq, Structural)]
pub struct Vec4i {
    pub x: i64,
    pub y: i64,
    pub z: i64,
    pub w: i64,
}

/// Truncating division of two machine integers.
fn idiv(a: i64, b: i64) -> (r: i64)
    requires
        b != 0,
        fx_fits(tdiv(a as int, b as int)),
    ensures
        r as int == tdiv(a as int, b as int),
{
    proof {
        lemma_tdiv_mag(a as int, b as int);
    }
    match a.checked_div(b) {
        Some(q) => q,
        None => 0,
    }
}

impl Vec2i {
    pub fn new() -> (r: Vec2i)
        ensures
            r.x == 0 && r.y == 0,
    {
        Vec2i { x: 0, y: 0 }
    }

    pub fn fill(v: i64) -> (r: Vec2i)
        ensures
            r.x == v && r.y == v,
    {
        Vec2i { x: v, y: v }
    }

    pub fn from(x: i64, y: i64) -> (r: Vec2i)
        ensures
            r.x == x && r.y == y,
    {
        Vec2i { x, y }
    }

    pub fn x(self, v: i64) -> (r: Vec2i)
        ensures
            r == (Vec2i { x: v, ..self }),
    {
        Vec2i { x: v, ..self }
    }

    pub fn y(self, v: i64) -> (r: Vec2i)
        ensures
            r == (Vec2i { y: v, ..self }),
    {
        Vec2i { y: v, ..self }
    }

    /// Exact dot product.
    pub fn dot(self, o: Vec2i) -> (r: i64)
        requires
            fx_fits(self.x * o.x),
            fx_fits(self.y * o.y),
            fx_fits(self.x * o.x + self.y * o.y),
        ensures
            r as int == self.x * o.x + self.y * o.y,
    {
        self.x * o.x + self.y * o.y
    }

    /// Exact component-wise sum.
    pub fn add(self, o: Vec2i) -> (r: Vec2i)
        requires
            fx_fits(self.x + o.x),
            fx_fits(self.y + o.y),
        ensures
            r.x == self.x + o.x,
            r.y == self.y + o.y,
    {
        Vec2i { x: self.x + o.x, y: self.y + o.y }
    }

    /// Exact component-wise difference.
    pub fn sub(self, o: Vec2i) -> (r: Vec2i)
        requires
            fx_fits(self.x - o.x),
            fx_fits(self.y - o.y),
        ensures
            r.x == self.x - o.x,
            r.y == self.y - o.y,
    {
        Vec2i { x: self.x - o.x, y: self.y - o.y }
    }

    /// Exact sum of a scalar onto every component.
    pub fn add_s(self, s: i64) -> (r: Vec2i)
        requires
            fx_fits(self.x + s),
            fx_fits(self.y + s),
        ensures
            r.x == self.x + s,
            r.y == self.y + s,
    {
        Vec2i { x: self.x + s, y: self.y + s }
    }

    /// The fixed-point vector standing for the same whole units.
    pub fn to_fx(self) -> (r: Vec2)
        requires
            fx_fits(self.x * (FX_ONE as int)),
            fx_fits(self.y * (FX_ONE as int)),
        ensures
            r.x@ == self.x * (FX_ONE as int),
            r.y@ == self.y * (FX_ONE as int),
    {
        Vec2 { x: Fx::from_int(self.x), y: Fx::from_int(self.y) }
    }
}

impl Vec3i {
    pub fn new() -> (r: Vec3i)
        ensures
            r.x == 0 && r.y == 0 && r.z == 0,
    {
        Vec3i { x: 0, y: 0, z: 0 }
    }

    pub fn fill(v: i64) -> (r: Vec3i)
        ensures
            r.x == v && r.y == v && r.z == v,
    {
        Vec3i { x: v, y: v, z: v }
    }

    pub fn from(x: i64, y: i64, z: i64) -> (r: Vec3i)
        ensures
            r.x == x && r.y == y && r.z == z,
    {
        Vec3i { x, y, z }
    }

    pub fn x(self, v: i64) -> (r: Vec3i)
        ensures
            r == (Vec3i { x: v, ..self }),
    {
        Vec3i { x: v, ..self }
    }

    pub fn y(self, v: i64) -> (r: Vec3i)
        ensures
            r == (Vec3i { y: v, ..self }),
    {
        Vec3i { y: v, ..self }
    }

    pub fn z(self, v: i64) -> (r: Vec3i)
        ensures
            r == (Vec3i { z: v, ..self }),
    {
        Vec3i { z: v, ..self }
    }

    /// Exact dot product.
    pub fn dot(self, o: Vec3i) -> (r: i64)
        requires
            fx_fits(self.x * o.x),
            fx_fits(self.y * o.y),
            fx_fits(self.z * o.z),
            fx_fits(self.x * o.x + self.y * o.y),
            fx_fits(self.x * o.x + self.y * o.y + self.z * o.z),
        ensures
            r as int == self.x * o.x + self.y * o.y + self.z * o.z,
    {
        self.x * o.x + self.y * o.y + self.z * o.z
    }

    /// Exact cross product.
    pub fn cross(self, o: Vec3i) -> (r: Vec3i)
        requires
            fx_fits(self.y * o.z),
            fx_fits(self.z * o.y),
            fx_fits(self.z * o.x),
            fx_fits(self.x * o.z),
            fx_fits(self.x * o.y),
            fx_fits(self.y * o.x),
            fx_fits(self.y * o.z - self.z * o.y),
            fx_fits(self.z * o.x - self.x * o.z),
            fx_fits(self.x * o.y - self.y * o.x),
        ensures
            r.x == self.y * o.z - self.z * o.y,
            r.y == self.z * o.x - self.x * o.z,
            r.z == self.x * o.y - self.y * o.x,
    {
        Vec3i {
            x: self.y * o.z - self.z * o.y,
            y: self.z * o.x - self.x * o.z,
            z: self.x * o.y - self.y * o.x,
        }
    }

    /// Exact component-wise sum.
    pub fn add(self, o: Vec3i) -> (r: Vec3i)
        requires
            fx_fits(self.x + o.x),
            fx_fits(self.y + o.y),
            fx_fits(self.z + o.z),
        ensures
            r.x == self.x + o.x,
            r.y == self.y + o.y,
            r.z == self.z + o.z,
    {
        Vec3i { x: self.x + o.x, y: self.y + o.y, z: self.z + o.z }
    }

    /// Exact component-wise difference.
    pub fn sub(self, o: Vec3i) -> (r: Vec3i)
        requires
            fx_fits(self.x - o.x),
            fx_fits(self.y - o.y),
            fx_fits(self.z - o.z),
        ensures
            r.x == self.x - o.x,
            r.y == self.y - o.y,
            r.z == self.z - o.z,
    {
        Vec3i { x: self.x - o.x, y: self.y - o.y, z: self.z - o.z }
    }

    /// The fixed-point vector standing for the same whole units.
    pub fn to_fx(self) -> (r: Vec3)
        requires
            fx_fits(self.x * (FX_ONE as int)),
            fx_fits(self.y * (FX_ONE as int)),
            fx_fits(self.z * (FX_ONE as int)),
        ensures
            r.x@ == self.x * (FX_ONE as int),
            r.y@ == self.y * (FX_ONE as int),
            r.z@ == self.z * (FX_ONE as int),
    {
        Vec3 { x: Fx::from_int(self.x), y: Fx::from_int(self.y), z: Fx::from_int(self.z) }
    }
}

impl Vec4i {
    pub fn new() -> (r: Vec4i)
        ensures
            r.x == 0 && r.y == 0 && r.z == 0 && r.w == 0,
    {
        Vec4i { x: 0, y: 0, z: 0, w: 0 }
    }

    pub fn fill(v: i64) -> (r: Vec4i)
        ensures
            r.x == v && r.y == v && r.z == v && r.w == v,
    {
        Vec4i { x: v, y: v, z: v, w: v }
    }

    pub fn from(x: i64, y: i64, z: i64, w: i64) -> (r: Vec4i)
        ensures
            r.x == x && r.y == y && r.z == z && r.w == w,
    {
        Vec4i { x, y, z, w }
    }

    pub fn from_array(v: &[i64; 4]) -> (r: Vec4i)
        ensures
            r.x == v[0] && r.y == v[1] && r.z == v[2] && r.w == v[3],
    {
        Vec4i { x: v[0], y: v[1], z: v[2], w: v[3] }
    }

    pub fn x(self, v: i64) -> (r: Vec4i)
        ensures
            r == (Vec4i { x: v, ..self }),
    {
        Vec4i { x: v, ..self }
    }

    pub fn y(self, v: i64) -> (r: Vec4i)
        ensures
            r == (Vec4i { y: v, ..self }),
    {
        Vec4i { y: v, ..self }
    }

    pub fn z(self, v: i64) -> (r: Vec4i)
        ensures
            r == (Vec4i { z: v, ..self }),
    {
        Vec4i { z: v, ..self }
    }

    pub fn w(self, v: i64) -> (r: Vec4i)
        ensures
            r == (Vec4i { w: v, ..self }),
    {
        Vec4i { w: v, ..self }
    }

    /// Exact dot product.
    pub fn dot(self, o: Vec4i) -> (r: i64)
        requires
            fx_fits(self.x * o.x),
            fx_fits(self.y * o.y),
            fx_fits(self.z * o.z),
            fx_fits(self.w * o.w),
            fx_fits(self.x * o.x + self.y * o.y),
            fx_fits(self.x * o.x + self.y * o.y + self.z * o.z),
            fx_fits(self.x * o.x + self.y * o.y + self.z * o.z + self.w * o.w),
        ensures
            r as int == self.x * o.x + self.y * o.y + self.z * o.z + self.w * o.w,
    {
        self.x * o.x + self.y * o.y + self.z * o.z + self.w * o.w
    }

    /// Exact sum of a scalar onto every component.
    pub fn add_s(self, s: i64) -> (r: Vec4i)
        requires
            fx_fits(self.x + s),
            fx_fits(self.y + s),
            fx_fits(self.z + s),
            fx_fits(self.w + s),
        ensures
            r.x == self.x + s && r.y == self.y + s && r.z == self.z + s && r.w == self.w + s,
    {
        Vec4i { x: self.x + s, y: self.y + s, z: self.z + s, w: self.w + s }
    }

    /// Exact difference of a scalar from every component.
    pub fn sub_s(self, s: i64) -> (r: Vec4i)
        requires
            fx_fits(self.x - s),
            fx_fits(self.y - s),
            fx_fits(self.z - s),
            fx_fits(self.w - s),
        ensures
            r.x == self.x - s && r.y == self.y - s && r.z == self.z - s && r.w == self.w - s,
    {
        Vec4i { x: self.x - s, y: self.y - s, z: self.z - s, w: self.w - s }
    }

    /// Exact product of every component with a scalar.
    pub fn mul_s(self, s: i64) -> (r: Vec4i)
        requires
            fx_fits(self.x * s),
            fx_fits(self.y * s),
            fx_fits(self.z * s),
            fx_fits(self.w * s),
        ensures
            r.x == self.x * s && r.y == self.y * s && r.z == self.z * s && r.w == self.w * s,
    {
        Vec4i { x: self.x * s, y: self.y * s, z: self.z * s, w: self.w * s }
    }

    /// Truncating quotient of every component by a scalar.
    pub fn div_s(self, s: i64) -> (r: Vec4i)
        requires
            s != 0,
            fx_fits(tdiv(self.x as int, s as int)),
            fx_fits(tdiv(self.y as int, s as int)),
            fx_fits(tdiv(self.z as int, s as int)),
            fx_fits(tdiv(self.w as int, s as int)),
        ensures
            r.x as int == tdiv(self.x as int, s as int),
            r.y as int == tdiv(self.y as int, s as int),
            r.z as int == tdiv(self.z as int, s as int),
            r.w as int == tdiv(self.w as int, s as int),
    {
        Vec4i { x: idiv(self.x, s), y: idiv(self.y, s), z: idiv(self.z, s), w: idiv(self.w, s) }
    }

    /// The fixed-point vector standing for the same whole units.
    pub fn to_fx(self) -> (r: Vec4)
        requires
            fx_fits(self.x * (FX_ONE as int)),
            fx_fits(self.y * (FX_ONE as int)),
            fx_fits(self.z * (FX_ONE as int)),
            fx_fits(self.w * (FX_ONE as int)),
        ensures
            r.x@ == self.x * (FX_ONE as int),
            r.y@ == self.y * (FX_ONE as int),
            r.z@ == self.z * (FX_ONE as int),
            r.w@ == self.w * (FX_ONE as int),
    {
        Vec4 {
            x: Fx::from_int(self.x),
            y: Fx::from_int(self.y),
            z: Fx::from_int(self.z),
            w: Fx::from_int(self.w),
        }
    }
}

/// A 4x4 matrix of integer entries, four row vectors.
#[derive(Clone, Copy, Debug, PartialEq, Eq, Structural)]
pub struct Mat4i {
    pub r0: Vec4i,
    pub r1: Vec4i,
    pub r2: Vec4i,
    pub r3: Vec4i,
}

/// The `j`-th column of an integer 4x4 matrix.
pub open spec fn icol4(m: Mat4i, j: int) -> Vec4i {
    if j == 0 {
        Vec4i { x: m.r0.x, y: m.r1.x, z: m.r2.x, w: m.r3.x }
    } else if j == 1 {
        Vec4i { x: m.r0.y, y: m.r1.y, z: m.r2.y, w: m.r3.y }
    } else if j == 2 {
        Vec4i { x: m.r0.z, y: m.r1.z, z: m.r2.z, w: m.r3.z }
    } else {
        Vec4i { x: m.r0.w, y: m.r1.w, z: m.r2.w, w: m.r3.w }
    }
}

/// Row/column swap of an integer 4x4 matrix.
pub open spec fn itranspose4(m: Mat4i) -> Mat4i {
    Mat4i { r0: icol4(m, 0), r1: icol4(m, 1), r2: icol4(m, 2), r3: icol4(m, 3) }
}

/// Transposing twice gives the matrix back.
pub proof fn lemma_itranspose4_involutive(m: Mat4i)
    ensures
        itranspose4(itranspose4(m)) == m,
{
}

/// Entries small enough for products and sums to stay exact.
pub open spec fn v4i_lim(v: Vec4i, b: int) -> bool {
    &&& -b <= v.x <= b
    &&& -b <= v.y <= b
    &&& -b <= v.z <= b
    &&& -b <= v.w <= b
}

pub open spec fn m4i_lim(m: Mat4i, b: int) -> bool {
    v4i_lim(m.r0, b) && v4i_lim(m.r1, b) && v4i_lim(m.r2, b) && v4i_lim(m.r3, b)
}

/// Products of entries bounded by 2^30 fit, with all the dot product's
/// intermediates.
proof fn lemma_idot_lim(a: Vec4i, b: Vec4i)
    requires
        v4i_lim(a, 0x2000_0000),
        v4i_lim(b, 0x2000_0000),
    ensures
        fx_fits(a.x * b.x),
        fx_fits(a.y * b.y),
        fx_fits(a.z * b.z),
        fx_fits(a.w * b.w),
        fx_fits(a.x * b.x + a.y * b.y),
        fx_fits(a.x * b.x + a.y * b.y + a.z * b.z),
        fx_fits(a.x * b.x + a.y * b.y + a.z * b.z + a.w * b.w),
        -0x1000_0000_0000_0000 <= a.x * b.x + a.y * b.y + a.z * b.z + a.w * b.w
            <= 0x1000_0000_0000_0000,
{
    assert(-0x400_0000_0000_0000 <= a.x * b.x <= 0x400_0000_0000_0000) by (nonlinear_arith)
        requires
            -0x2000_0000 <= a.x <= 0x2000_0000,
            -0x2000_0000 <= b.x <= 0x2000_0000,
    ;
    assert(-0x400_0000_0000_0000 <= a.y * b.y <= 0x400_0000_0000_0000) by (nonlinear_arith)
        requires
            -0x2000_0000 <= a.y <= 0x2000_0000,
            -0x2000_0000 <= b.y <= 0x2000_0000,
    ;
    assert(-0x400_0000_0000_0000 <= a.z * b.z <= 0x400_0000_0000_0000) by (nonlinear_arith)
        requires
            -0x2000_0000 <= a.z <= 0x2000_0000,
            -0x2000_0000 <= b.z <= 0x2000_0000,
    ;
    assert(-0x400_0000_0000_0000 <= a.w * b.w <= 0x400_0000_0000_0000) by (nonlinear_arith)
        requires
            -0x2000_0000 <= a.w <= 0x2000_0000,
            -0x2000_0000 <= b.w <= 0x2000_0000,
    ;
}

impl Mat4i {
    pub fn new() -> (r: Mat4i)
        ensures
            r.r0 == (Vec4i { x: 0, y: 0, z: 0, w: 0 }),
            r.r1 == (Vec4i { x: 0, y: 0, z: 0, w: 0 }),
            r.r2 == (Vec4i { x: 0, y: 0, z: 0, w: 0 }),
            r.r3 == (Vec4i { x: 0, y: 0, z: 0, w: 0 }),
    {
        Mat4i { r0: Vec4i::new(), r1: Vec4i::new(), r2: Vec4i::new(), r3: Vec4i::new() }
    }

    pub fn fill(v: i64) -> (r: Mat4i)
        ensures
            r.r0 == (Vec4i { x: v, y: v, z: v, w: v }),
            r.r1 == (Vec4i { x: v, y: v, z: v, w: v }),
            r.r2 == (Vec4i { x: v, y: v, z: v, w: v }),
            r.r3 == (Vec4i { x: v, y: v, z: v, w: v }),
    {
        Mat4i { r0: Vec4i::fill(v), r1: Vec4i::fill(v), r2: Vec4i::fill(v), r3: Vec4i::fill(v) }
    }

    pub fn from(r0: Vec4i, r1: Vec4i, r2: Vec4i, r3: Vec4i) -> (r: Mat4i)
        ensures
            r == (Mat4i { r0, r1, r2, r3 }),
    {
        Mat4i { r0, r1, r2, r3 }
    }

    pub fn from_array(v: &[[i64; 4]; 4]) -> (r: Mat4i)
        ensures
            r.r0.x == v[0][0] && r.r0.y == v[0][1] && r.r0.z == v[0][2] && r.r0.w == v[0][3],
            r.r1.x == v[1][0] && r.r1.y == v[1][1] && r.r1.z == v[1][2] && r.r1.w == v[1][3],
            r.r2.x == v[2][0] && r.r2.y == v[2][1] && r.r2.z == v[2][2] && r.r2.w == v[2][3],
            r.r3.x == v[3][0] && r.r3.y == v[3][1] && r.r3.z == v[3][2] && r.r3.w == v[3][3],
    {
        Mat4i {
            r0: Vec4i::from_array(&v[0]),
            r1: Vec4i::from_array(&v[1]),
            r2: Vec4i::from_array(&v[2]),
            r3: Vec4i::from_array(&v[3]),
        }
    }

    pub fn r0(self, v: Vec4i) -> (r: Mat4i)
        ensures
            r == (Mat4i { r0: v, ..self }),
    {
        Mat4i { r0: v, ..self }
    }

    pub fn r1(self, v: Vec4i) -> (r: Mat4i)
        ensures
            r == (Mat4i { r1: v, ..self }),
    {
        Mat4i { r1: v, ..self }
    }

    pub fn r2(self, v: Vec4i) -> (r: Mat4i)
        ensures
            r == (Mat4i { r2: v, ..self }),
    {
        Mat4i { r2: v, ..self }
    }

    pub fn r3(self, v: Vec4i) -> (r: Mat4i)
        ensures
            r == (Mat4i { r3: v, ..self }),
    {
        Mat4i { r3: v, ..self }
    }

    /// The matrix with `v` on the diagonal.
    pub fn eye(v: i64) -> (r: Mat4i)
        ensures
            r.r0 == (Vec4i { x: v, y: 0, z: 0, w: 0 }),
            r.r1 == (Vec4i { x: 0, y: v, z: 0, w: 0 }),
            r.r2 == (Vec4i { x: 0, y: 0, z: v, w: 0 }),
            r.r3 == (Vec4i { x: 0, y: 0, z: 0, w: v }),
    {
        Mat4i {
            r0: Vec4i::from(v, 0, 0, 0),
            r1: Vec4i::from(0, v, 0, 0),
            r2: Vec4i::from(0, 0, v, 0),
            r3: Vec4i::from(0, 0, 0, v),
        }
    }

    /// The matrix with the vector's components on the diagonal.
    pub fn diag(v: &Vec4i) -> (r: Mat4i)
        ensures
            r.r0 == (Vec4i { x: v.x, y: 0, z: 0, w: 0 }),
            r.r1 == (Vec4i { x: 0, y: v.y, z: 0, w: 0 }),
            r.r2 == (Vec4i { x: 0, y: 0, z: v.z, w: 0 }),
            r.r3 == (Vec4i { x: 0, y: 0, z: 0, w: v.w }),
    {
        Mat4i {
            r0: Vec4i::from(v.x, 0, 0, 0),
            r1: Vec4i::from(0, v.y, 0, 0),
            r2: Vec4i::from(0, 0, v.z, 0),
            r3: Vec4i::from(0, 0, 0, v.w),
        }
    }

    /// Gathers the `index`-th column.
    pub fn col(&self, index: usize) -> (r: Vec4i)
        requires
            index < 4,
        ensures
            r == icol4(*self, index as int),
    {
        if index == 0 {
            Vec4i::from(self.r0.x, self.r1.x, self.r2.x, self.r3.x)
        } else if index == 1 {
            Vec4i::from(self.r0.y, self.r1.y, self.r2.y, self.r3.y)
        } else if index == 2 {
            Vec4i::from(self.r0.z, self.r1.z, self.r2.z, self.r3.z)
        } else {
            Vec4i::from(self.r0.w, self.r1.w, self.r2.w, self.r3.w)
        }
    }

    /// Matrix times column vector, exactly.
    pub fn mul_vec(&self, rhs: &Vec4i) -> (r: Vec4i)
        requires
            m4i_lim(*self, 0x2000_0000),
            v4i_lim(*rhs, 0x2000_0000),
        ensures
            r.x as int == self.r0.x * rhs.x + self.r0.y * rhs.y + self.r0.z * rhs.z + self.r0.w
                * rhs.w,
            r.y as int == self.r1.x * rhs.x + self.r1.y * rhs.y + self.r1.z * rhs.z + self.r1.w
                * rhs.w,
            r.z as int == self.r2.x * rhs.x + self.r2.y * rhs.y + self.r2.z * rhs.z + self.r2.w
                * rhs.w,
            r.w as int == self.r3.x * rhs.x + self.r3.y * rhs.y + self.r3.z * rhs.z + self.r3.w
                * rhs.w,
    {
        proof {
            lemma_idot_lim(self.r0, *rhs);
            lemma_idot_lim(self.r1, *rhs);
            lemma_idot_lim(self.r2, *rhs);
            lemma_idot_lim(self.r3, *rhs);
        }
        Vec4i::from(self.r0.dot(*rhs), self.r1.dot(*rhs), self.r2.dot(*rhs), self.r3.dot(*rhs))
    }

    /// Row/column swap.
    pub fn transpose(&self) -> (r: Mat4i)
        ensures
            r == itranspose4(*self),
    {
        Mat4i { r0: self.col(0), r1: self.col(1), r2: self.col(2), r3: self.col(3) }
    }

    /// Exact sum of a scalar onto every entry.
    pub fn add_s(self, s: i64) -> (r: Mat4i)
        requires
            m4i_lim(self, 0x3FFF_FFFF_FFFF_FFFF),
            -0x3FFF_FFFF_FFFF_FFFF <= s <= 0x3FFF_FFFF_FFFF_FFFF,
        ensures
            r.r0.x == self.r0.x + s && r.r0.y == self.r0.y + s && r.r0.z == self.r0.z + s
                && r.r0.w == self.r0.w + s,
            r.r1.x == self.r1.x + s && r.r1.y == self.r1.y + s && r.r1.z == self.r1.z + s
                && r.r1.w == self.r1.w + s,
            r.r2.x == self.r2.x + s && r.r2.y == self.r2.y + s && r.r2.z == self.r2.z + s
                && r.r2.w == self.r2.w + s,
            r.r3.x == self.r3.x + s && r.r3.y == self.r3.y + s && r.r3.z == self.r3.z + s
                && r.r3.w == self.r3.w + s,
    {
        Mat4i {
            r0: self.r0.add_s(s),
            r1: self.r1.add_s(s),
            r2: self.r2.add_s(s),
            r3: self.r3.add_s(s),
        }
    }

    /// Exact difference of a scalar from every entry.
    pub fn sub_s(self, s: i64) -> (r: Mat4i)
        requires
            m4i_lim(self, 0x3FFF_FFFF_FFFF_FFFF),
            -0x3FFF_FFFF_FFFF_FFFF <= s <= 0x3FFF_FFFF_FFFF_FFFF,
        ensures
            r.r0.x == self.r0.x - s && r.r0.y == self.r0.y - s && r.r0.z == self.r0.z - s
                && r.r0.w == self.r0.w - s,
            r.r1.x == self.r1.x - s && r.r1.y == self.r1.y - s && r.r1.z == self.r1.z - s
                && r.r1.w == self.r1.w - s,
            r.r2.x == self.r2.x - s && r.r2.y == self.r2.y - s && r.r2.z == self.r2.z - s
                && r.r2.w == self.r2.w - s,
            r.r3.x == self.r3.x - s && r.r3.y == self.r3.y - s && r.r3.z == self.r3.z - s
                && r.r3.w == self.r3.w - s,
    {
        Mat4i {
            r0: self.r0.sub_s(s),
            r1: self.r1.sub_s(s),
            r2: self.r2.sub_s(s),
            r3: self.r3.sub_s(s),
        }
    }

    /// Exact product of every entry with a scalar.
    pub fn mul_s(self, s: i64) -> (r: Mat4i)
        requires
            m4i_lim(self, 0x2000_0000),
            -0x2000_0000 <= s <= 0x2000_0000,
        ensures
            r.r0.x == self.r0.x * s && r.r0.y == self.r0.y * s && r.r0.z == self.r0.z * s
                && r.r0.w == self.r0.w * s,
            r.r1.x == self.r1.x * s && r.r1.y == self.r1.y * s && r.r1.z == self.r1.z * s
                && r.r1.w == self.r1.w * s,
            r.r2.x == self.r2.x * s && r.r2.y == self.r2.y * s && r.r2.z == self.r2.z * s
                && r.r2.w == self.r2.w * s,
            r.r3.x == self.r3.x * s && r.r3.y == self.r3.y * s && r.r3.z == self.r3.z * s
                && r.r3.w == self.r3.w * s,
    {
        proof {
            lemma_idot_lim(self.r0, Vec4i { x: s, y: s, z: s, w: s });
            lemma_idot_lim(self.r1, Vec4i { x: s, y: s, z: s, w: s });
            lemma_idot_lim(self.r2, Vec4i { x: s, y: s, z: s, w: s });
            lemma_idot_lim(self.r3, Vec4i { x: s, y: s, z: s, w: s });
        }
        Mat4i {
            r0: self.r0.mul_s(s),
            r1: self.r1.mul_s(s),
            r2: self.r2.mul_s(s),
            r3: self.r3.mul_s(s),
        }
    }

    /// Truncating quotient of every entry by a scalar.
    pub fn div_s(self, s: i64) -> (r: Mat4i)
        requires
            s != 0,
            m4i_lim(self, 0x3FFF_FFFF_FFFF_FFFF),
        ensures
            r.r0.x as int == tdiv(self.r0.x as int, s as int),
            r.r0.y as int == tdiv(self.r0.y as int, s as int),
            r.r0.z as int == tdiv(self.r0.z as int, s as int),
            r.r0.w as int == tdiv(self.r0.w as int, s as int),
            r.r1.x as int == tdiv(self.r1.x as int, s as int),
            r.r1.y as int == tdiv(self.r1.y as int, s as int),
            r.r1.z as int == tdiv(self.r1.z as int, s as int),
            r.r1.w as int == tdiv(self.r1.w as int, s as int),
            r.r2.x as int == tdiv(self.r2.x as int, s as int),
            r.r2.y as int == tdiv(self.r2.y as int, s as int),
            r.r2.z as int == tdiv(self.r2.z as int, s as int),
            r.r2.w as int == tdiv(self.r2.w as int, s as int),
            r.r3.x as int == tdiv(self.r3.x as int, s as int),
            r.r3.y as int == tdiv(self.r3.y as int, s as int),
            r.r3.z as int == tdiv(self.r3.z as int, s as int),
            r.r3.w as int == tdiv(self.r3.w as int, s as int),
    {
        proof {
            lemma_tdiv_mag(self.r0.x as int, s as int);
            lemma_tdiv_mag(self.r0.y as int, s as int);
            lemma_tdiv_mag(self.r0.z as int, s as int);
            lemma_tdiv_mag(self.r0.w as int, s as int);
            lemma_tdiv_mag(self.r1.x as int, s as int);
            lemma_tdiv_mag(self.r1.y as int, s as int);
            lemma_tdiv_mag(self.r1.z as int, s as int);
            lemma_tdiv_mag(self.r1.w as int, s as int);
            lemma_tdiv_mag(self.r2.x as int, s as int);
            lemma_tdiv_mag(self.r2.y as int, s as int);
            lemma_tdiv_mag(self.r2.z as int, s as int);
            lemma_tdiv_mag(self.r2.w as int, s as int);
            lemma_tdiv_mag(self.r3.x as int, s as int);
            lemma_tdiv_mag(self.r3.y as int, s as int);
            lemma_tdiv_mag(self.r3.z as int, s as int);
            lemma_tdiv_mag(self.r3.w as int, s as int);
        }
        Mat4i {
            r0: self.r0.div_s(s),
            r1: self.r1.div_s(s),
            r2: self.r2.div_s(s),
            r3: self.r3.div_s(s),
        }
    }
}

} // verus!
