//! Fixed-dimension vectors over the fixed-point scalar.
//!
//! Three value types of two, three and four components. Every operation
//! carries an exact contract over the components' raw counts: sums are
//! exact, products and quotients truncate toward zero as [`crate::fx`]
//! states, and norms are integer square roots of the exact sum of squared
//! raw counts.

use vstd::prelude::*;
use crate::fx::{Fx, FX_ONE, fxv, fxmul, fxdiv, fx_fits, tdiv, isqrt, isqrt_u128, lemma_isqrt,
    lemma_isqrt_unique, lemma_tdiv_bound, lemma_tdiv_rem};

verus! {

/// A vector of two fixed-point components.
#[derive(Clone, Copy, Debug, PartialEq, Eq, Structural)]
pub struct Vec2 {
    pub x: Fx,
    pub y: Fx,
}

/// A vector of three fixed-point components.
#[derive(Clone, Copy, Debug, PartialEq, Eq, Structural)]
pub struct Vec3 {
    pub x: Fx,
    pub y: Fx,
    pub z: Fx,
}

/// A vector of four fixed-point components.
#[derive(Clone, Copy, Debug, PartialEq, Eq, Structural)]
pub struct Vec4 {
    pub x: Fx,
    pub y: Fx,
    pub z: Fx,
    pub w: Fx,
}

/// Raw count of the dot product of two 2-vectors.
pub open spec fn dot2(a: Vec2, b: Vec2) -> int {
    fxmul(a.x@, b.x@) + fxmul(a.y@, b.y@)
}

/// Every intermediate of the 2-vector dot product fits the machine word.
pub open spec fn dot2_ok(a: Vec2, b: Vec2) -> bool {
    &&& fx_fits(fxmul(a.x@, b.x@))
    &&& fx_fits(fxmul(a.y@, b.y@))
    &&& fx_fits(dot2(a, b))
}

/// Raw count of the dot product of two 3-vectors.
pub open spec fn dot3(a: Vec3, b: Vec3) -> int {
    fxmul(a.x@, b.x@) + fxmul(a.y@, b.y@) + fxmul(a.z@, b.z@)
}

/// Every intermediate of the 3-vector dot product fits the machine word.
pub open spec fn dot3_ok(a: Vec3, b: Vec3) -> bool {
    &&& fx_fits(fxmul(a.x@, b.x@))
    &&& fx_fits(fxmul(a.y@, b.y@))
    &&& fx_fits(fxmul(a.z@, b.z@))
    &&& fx_fits(fxmul(a.x@, b.x@) + fxmul(a.y@, b.y@))
    &&& fx_fits(dot3(a, b))
}

/// Raw count of the dot product of two 4-vectors.
pub open spec fn dot4(a: Vec4, b: Vec4) -> int {
    fxmul(a.x@, b.x@) + fxmul(a.y@, b.y@) + fxmul(a.z@, b.z@) + fxmul(a.w@, b.w@)
}

/// Every intermediate of the 4-vector dot product fits the machine word.
pub open spec fn dot4_ok(a: Vec4, b: Vec4) -> bool {
    &&& fx_fits(fxmul(a.x@, b.x@))
    &&& fx_fits(fxmul(a.y@, b.y@))
    &&& fx_fits(fxmul(a.z@, b.z@))
    &&& fx_fits(fxmul(a.w@, b.w@))
    &&& fx_fits(fxmul(a.x@, b.x@) + fxmul(a.y@, b.y@))
    &&& fx_fits(fxmul(a.x@, b.x@) + fxmul(a.y@, b.y@) + fxmul(a.z@, b.z@))
    &&& fx_fits(dot4(a, b))
}

/// Raw counts of the cross product of two 3-vectors, one component each.
pub open spec fn cross_x(a: Vec3, b: Vec3) -> int {
    fxmul(a.y@, b.z@) - fxmul(a.z@, b.y@)
}

pub open spec fn cross_y(a: Vec3, b: Vec3) -> int {
    fxmul(a.z@, b.x@) - fxmul(a.x@, b.z@)
}

pub open spec fn cross_z(a: Vec3, b: Vec3) -> int {
    fxmul(a.x@, b.y@) - fxmul(a.y@, b.x@)
}

/// Every intermediate of the cross product fits the machine word.
pub open spec fn cross_ok(a: Vec3, b: Vec3) -> bool {
    &&& fx_fits(fxmul(a.y@, b.z@))
    &&& fx_fits(fxmul(a.z@, b.y@))
    &&& fx_fits(fxmul(a.z@, b.x@))
    &&& fx_fits(fxmul(a.x@, b.z@))
    &&& fx_fits(fxmul(a.x@, b.y@))
    &&& fx_fits(fxmul(a.y@, b.x@))
    &&& fx_fits(cross_x(a, b))
    &&& fx_fits(cross_y(a, b))
    &&& fx_fits(cross_z(a, b))
}

/// Exact sum of the squared raw counts of a 3-vector.
pub open spec fn sqn3(a: Vec3) -> int {
    a.x@ * a.x@ + a.y@ * a.y@ + a.z@ * a.z@
}

/// Exact sum of the squared raw counts of a 4-vector.
pub open spec fn sqn4(a: Vec4) -> int {
    a.x@ * a.x@ + a.y@ * a.y@ + a.z@ * a.z@ + a.w@ * a.w@
}

/// Raw count of the Euclidean norm of a 3-vector: the integer square root
/// of the exact sum of squared raw counts.
pub open spec fn norm3(a: Vec3) -> int {
    isqrt(sqn3(a))
}

/// Raw count of the Euclidean norm of a 4-vector.
pub open spec fn norm4(a: Vec4) -> int {
    isqrt(sqn4(a))
}

/// The 3-vector with the given raw counts.
pub open spec fn v3s(x: int, y: int, z: int) -> Vec3 {
    Vec3 { x: fxv(x), y: fxv(y), z: fxv(z) }
}

/// The 2-vector with the given raw counts.
pub open spec fn v2s(x: int, y: int) -> Vec2 {
    Vec2 { x: fxv(x), y: fxv(y) }
}

/// The 4-vector with the given raw counts.
pub open spec fn v4s(x: int, y: int, z: int, w: int) -> Vec4 {
    Vec4 { x: fxv(x), y: fxv(y), z: fxv(z), w: fxv(w) }
}

/// The exact component-wise difference of two 3-vectors.
pub open spec fn sub3(a: Vec3, b: Vec3) -> Vec3 {
    v3s(a.x@ - b.x@, a.y@ - b.y@, a.z@ - b.z@)
}

/// The unit vector of `a`: each component scaled by the norm.
pub open spec fn unit3(a: Vec3) -> Vec3 {
    v3s(fxdiv(a.x@, norm3(a)), fxdiv(a.y@, norm3(a)), fxdiv(a.z@, norm3(a)))
}

/// The cross product of two 3-vectors, as a value.
pub open spec fn cross3(a: Vec3, b: Vec3) -> Vec3 {
    v3s(cross_x(a, b), cross_y(a, b), cross_z(a, b))
}

/// Magnitude bound under which norms can be computed: 2^62 - 1 raw counts.
pub const NORM_LIM: i64 = 0x3FFF_FFFF_FFFF_FFFF;

/// All components within the norm bound.
pub open spec fn v3_norm_ok(a: Vec3) -> bool {
    &&& -(NORM_LIM as int) <= a.x@ <= NORM_LIM as int
    &&& -(NORM_LIM as int) <= a.y@ <= NORM_LIM as int
    &&& -(NORM_LIM as int) <= a.z@ <= NORM_LIM as int
}

pub open spec fn v4_norm_ok(a: Vec4) -> bool {
    &&& -(NORM_LIM as int) <= a.x@ <= NORM_LIM as int
    &&& -(NORM_LIM as int) <= a.y@ <= NORM_LIM as int
    &&& -(NORM_LIM as int) <= a.z@ <= NORM_LIM as int
    &&& -(NORM_LIM as int) <= a.w@ <= NORM_LIM as int
}

/// A dot product of magnitude-bounded 3-vectors fits, with all its
/// intermediates, and is bounded by three scaled-down bound products.
pub proof fn lemma_dot3_bound(a: Vec3, b: Vec3, m: int, n: int)
    requires
        0 <= m,
        0 <= n,
        (m * n) / (FX_ONE as int) <= 0x2000_0000_0000_0000,
        -m <= a.x@ <= m && -m <= a.y@ <= m && -m <= a.z@ <= m,
        -n <= b.x@ <= n && -n <= b.y@ <= n && -n <= b.z@ <= n,
    ensures
        dot3_ok(a, b),
        -3 * ((m * n) / (FX_ONE as int)) <= dot3(a, b) <= 3 * ((m * n) / (FX_ONE as int)),
{
    crate::fx::lemma_fxmul_bound(a.x@, b.x@, m, n);
    crate::fx::lemma_fxmul_bound(a.y@, b.y@, m, n);
    crate::fx::lemma_fxmul_bound(a.z@, b.z@, m, n);
}

/// A cross product of magnitude-bounded 3-vectors fits, with all its
/// intermediates, and each component is bounded by two scaled-down bound
/// products.
pub proof fn lemma_cross3_bound(a: Vec3, b: Vec3, m: int, n: int)
    requires
        0 <= m,
        0 <= n,
        (m * n) / (FX_ONE as int) <= 0x2000_0000_0000_0000,
        -m <= a.x@ <= m && -m <= a.y@ <= m && -m <= a.z@ <= m,
        -n <= b.x@ <= n && -n <= b.y@ <= n && -n <= b.z@ <= n,
    ensures
        cross_ok(a, b),
        -2 * ((m * n) / (FX_ONE as int)) <= cross_x(a, b) <= 2 * ((m * n) / (FX_ONE as int)),
        -2 * ((m * n) / (FX_ONE as int)) <= cross_y(a, b) <= 2 * ((m * n) / (FX_ONE as int)),
        -2 * ((m * n) / (FX_ONE as int)) <= cross_z(a, b) <= 2 * ((m * n) / (FX_ONE as int)),
{
    crate::fx::lemma_fxmul_bound(a.y@, b.z@, m, n);
    crate::fx::lemma_fxmul_bound(a.z@, b.y@, m, n);
    crate::fx::lemma_fxmul_bound(a.z@, b.x@, m, n);
    crate::fx::lemma_fxmul_bound(a.x@, b.z@, m, n);
    crate::fx::lemma_fxmul_bound(a.x@, b.y@, m, n);
    crate::fx::lemma_fxmul_bound(a.y@, b.x@, m, n);
}

/// A dot product of magnitude-bounded 4-vectors fits, with all its
/// intermediates, and is bounded by four scaled-down bound products.
pub proof fn lemma_dot4_bound(a: Vec4, b: Vec4, m: int, n: int)
    requires
        0 <= m,
        0 <= n,
        (m * n) / (FX_ONE as int) <= 0x1000_0000_0000_0000,
        -m <= a.x@ <= m && -m <= a.y@ <= m && -m <= a.z@ <= m && -m <= a.w@ <= m,
        -n <= b.x@ <= n && -n <= b.y@ <= n && -n <= b.z@ <= n && -n <= b.w@ <= n,
    ensures
        dot4_ok(a, b),
        -4 * ((m * n) / (FX_ONE as int)) <= dot4(a, b) <= 4 * ((m * n) / (FX_ONE as int)),
{
    crate::fx::lemma_fxmul_bound(a.x@, b.x@, m, n);
    crate::fx::lemma_fxmul_bound(a.y@, b.y@, m, n);
    crate::fx::lemma_fxmul_bound(a.z@, b.z@, m, n);
    crate::fx::lemma_fxmul_bound(a.w@, b.w@, m, n);
}

/// The square of a bounded value is bounded by the squared bound.
pub proof fn lemma_sq_bound(a: int, m: int) by (nonlinear_arith)
    requires
        0 <= m,
        -m <= a <= m,
    ensures
        0 <= a * a <= m * m,
{
}

/// The norm is at least the magnitude of every component.
pub proof fn lemma_norm_dominates(n: int, s: int, c: int)
    requires
        0 <= n,
        n * n <= s,
        s < (n + 1) * (n + 1),
        c * c <= s,
    ensures
        -n <= c <= n,
{
    if c > n {
        assert((n + 1) * (n + 1) <= c * c) by (nonlinear_arith)
            requires
                0 <= n,
                n + 1 <= c,
        ;
    }
    if c < -n {
        assert((n + 1) * (n + 1) <= c * c) by (nonlinear_arith)
            requires
                0 <= n,
                c <= -(n + 1),
        ;
    }
}

/// A component scaled to units of the norm is at most one unit.
pub proof fn lemma_unit_bound(c: int, n: int)
    requires
        1 <= n,
        -n <= c <= n,
    ensures
        -(FX_ONE as int) <= tdiv(c * (FX_ONE as int), n) <= FX_ONE as int,
        fx_fits(tdiv(c * (FX_ONE as int), n)),
{
    assert(-(n * (FX_ONE as int)) <= c * (FX_ONE as int) <= n * (FX_ONE as int))
        by (nonlinear_arith)
        requires
            1 <= n,
            -n <= c <= n,
    ;
    lemma_tdiv_bound(c * (FX_ONE as int), n, n * (FX_ONE as int));
    vstd::arithmetic::div_mod::lemma_div_multiples_vanish(FX_ONE as int, n);
}

/// The square of one truncated unit component times the squared norm:
/// at most the exact scaled square, and short of it by less than
/// `2 * FX_ONE * n * n`.
proof fn lemma_unit_sq(c: int, n: int)
    requires
        1 <= n,
        -n <= c <= n,
    ensures
        ({
            let k = FX_ONE as int;
            let q = tdiv(c * k, n);
            &&& (q * q) * (n * n) <= (c * c) * (k * k)
            &&& (q * q) * (n * n) >= (c * c) * (k * k) - 2 * k * (n * n)
        }),
{
    let k = FX_ONE as int;
    let x = c * k;
    let q = tdiv(x, n);
    lemma_tdiv_rem(x, n);
    let rho = x - q * n;
    assert(x * x <= (n * n) * (k * k)) by (nonlinear_arith)
        requires
            x == c * k,
            -n <= c <= n,
            k == 65536,
    ;
    assert((x * rho) * (x * rho) <= ((n * n) * (k * k)) * (n * n)) by (nonlinear_arith)
        requires
            x * x <= (n * n) * (k * k),
            rho * rho < n * n,
            1 <= n,
    ;
    assert(x * rho <= k * (n * n)) by (nonlinear_arith)
        requires
            x * rho >= 0,
            (x * rho) * (x * rho) <= ((n * n) * (k * k)) * (n * n),
            1 <= n,
            k == 65536,
    ;
    assert(rho * rho >= 0) by (nonlinear_arith);
    assert((q * q) * (n * n) <= (c * c) * (k * k) && (q * q) * (n * n) >= (c * c) * (k * k) - 2 * k
        * (n * n)) by (nonlinear_arith)
        requires
            (q * n) * (q * n) <= x * x,
            rho == x - q * n,
            rho * rho >= 0,
            x * rho <= k * (n * n),
            x == c * k,
    ;
}

/// Law: normalizing scales to unit length. For any vector at least one
/// unit long, the norm of its unit vector lies within four raw steps
/// below one: the truncations toward zero can only lose length. Shorter
/// vectors magnify the truncation error and are left out.
pub proof fn lemma_normalize_unit_norm(v: Vec3)
    requires
        sqn3(v) >= (FX_ONE as int) * (FX_ONE as int),
    ensures
        (FX_ONE as int) - 4 <= norm3(unit3(v)) <= FX_ONE as int,
{
    let k = FX_ONE as int;
    let s = sqn3(v);
    let n = norm3(v);
    let cx = v.x@;
    let cy = v.y@;
    let cz = v.z@;
    assert(s >= 0 && cx * cx <= s && cy * cy <= s && cz * cz <= s) by (nonlinear_arith)
        requires
            s == cx * cx + cy * cy + cz * cz,
    ;
    lemma_isqrt(s);
    assert(n >= k) by (nonlinear_arith)
        requires
            s >= k * k,
            s < (n + 1) * (n + 1),
            n >= 0,
            k == 65536,
    ;
    lemma_norm_dominates(n, s, cx);
    lemma_norm_dominates(n, s, cy);
    lemma_norm_dominates(n, s, cz);
    let qx = tdiv(cx * k, n);
    let qy = tdiv(cy * k, n);
    let qz = tdiv(cz * k, n);
    lemma_unit_bound(cx, n);
    lemma_unit_bound(cy, n);
    lemma_unit_bound(cz, n);
    assert(unit3(v).x@ == qx && unit3(v).y@ == qy && unit3(v).z@ == qz);
    lemma_unit_sq(cx, n);
    lemma_unit_sq(cy, n);
    lemma_unit_sq(cz, n);
    let m = sqn3(unit3(v));
    assert(m == qx * qx + qy * qy + qz * qz);
    assert(m * (n * n) <= s * (k * k)) by (nonlinear_arith)
        requires
            m == qx * qx + qy * qy + qz * qz,
            (qx * qx) * (n * n) <= (cx * cx) * (k * k),
            (qy * qy) * (n * n) <= (cy * cy) * (k * k),
            (qz * qz) * (n * n) <= (cz * cz) * (k * k),
            s == cx * cx + cy * cy + cz * cz,
    ;
    assert(m * (n * n) >= s * (k * k) - 6 * k * (n * n)) by (nonlinear_arith)
        requires
            m == qx * qx + qy * qy + qz * qz,
            (qx * qx) * (n * n) >= (cx * cx) * (k * k) - 2 * k * (n * n),
            (qy * qy) * (n * n) >= (cy * cy) * (k * k) - 2 * k * (n * n),
            (qz * qz) * (n * n) >= (cz * cz) * (k * k) - 2 * k * (n * n),
            s == cx * cx + cy * cy + cz * cz,
    ;
    assert(m <= k * k + 2 * k) by (nonlinear_arith)
        requires
            m * (n * n) <= s * (k * k),
            s < (n + 1) * (n + 1),
            n >= k,
            k == 65536,
    ;
    assert(m >= k * k - 6 * k) by (nonlinear_arith)
        requires
            m * (n * n) >= s * (k * k) - 6 * k * (n * n),
            s >= n * n,
            n >= k,
            k == 65536,
    ;
    lemma_isqrt(m);
    let r = isqrt(m);
    assert(r <= k) by (nonlinear_arith)
        requires
            r * r <= m,
            m <= k * k + 2 * k,
            r >= 0,
            k == 65536,
    ;
    assert(r >= k - 4) by (nonlinear_arith)
        requires
            m < (r + 1) * (r + 1),
            m >= k * k - 6 * k,
            r >= 0,
            k == 65536,
    ;
}

impl Vec2 {
    /// The zero vector.
    pub fn new() -> (r: Vec2)
        ensures
            r.x@ == 0 && r.y@ == 0,
    {
        Vec2 { x: Fx::zero(), y: Fx::zero() }
    }

    /// Every component set to `v`.
    pub fn fill(v: Fx) -> (r: Vec2)
        ensures
            r.x == v && r.y == v,
    {
        Vec2 { x: v, y: v }
    }

    /// A vector from its components.
    pub fn from(x: Fx, y: Fx) -> (r: Vec2)
        ensures
            r.x == x && r.y == y,
    {
        Vec2 { x, y }
    }

    /// Replaces the first component.
    pub fn x(self, v: Fx) -> (r: Vec2)
        ensures
            r == (Vec2 { x: v, ..self }),
    {
        Vec2 { x: v, ..self }
    }

    /// Replaces the second component.
    pub fn y(self, v: Fx) -> (r: Vec2)
        ensures
            r == (Vec2 { y: v, ..self }),
    {
        Vec2 { y: v, ..self }
    }

    /// Exact component-wise sum.
    pub fn add(self, o: Vec2) -> (r: Vec2)
        requires
            fx_fits(self.x@ + o.x@),
            fx_fits(self.y@ + o.y@),
        ensures
            r.x@ == self.x@ + o.x@,
            r.y@ == self.y@ + o.y@,
    {
        Vec2 { x: self.x.add(o.x), y: self.y.add(o.y) }
    }

    /// Exact component-wise difference.
    pub fn sub(self, o: Vec2) -> (r: Vec2)
        requires
            fx_fits(self.x@ - o.x@),
            fx_fits(self.y@ - o.y@),
        ensures
            r.x@ == self.x@ - o.x@,
            r.y@ == self.y@ - o.y@,
    {
        Vec2 { x: self.x.sub(o.x), y: self.y.sub(o.y) }
    }

    /// Truncating component-wise product.
    pub fn mul(self, o: Vec2) -> (r: Vec2)
        requires
            fx_fits(fxmul(self.x@, o.x@)),
            fx_fits(fxmul(self.y@, o.y@)),
        ensures
            r.x@ == fxmul(self.x@, o.x@),
            r.y@ == fxmul(self.y@, o.y@),
    {
        Vec2 { x: self.x.mul(o.x), y: self.y.mul(o.y) }
    }

    /// Exact sum of a scalar onto every component.
    pub fn add_s(self, s: Fx) -> (r: Vec2)
        requires
            fx_fits(self.x@ + s@),
            fx_fits(self.y@ + s@),
        ensures
            r.x@ == self.x@ + s@,
            r.y@ == self.y@ + s@,
    {
        Vec2 { x: self.x.add(s), y: self.y.add(s) }
    }

    /// Exact difference of a scalar from every component.
    pub fn sub_s(self, s: Fx) -> (r: Vec2)
        requires
            fx_fits(self.x@ - s@),
            fx_fits(self.y@ - s@),
        ensures
            r.x@ == self.x@ - s@,
            r.y@ == self.y@ - s@,
    {
        Vec2 { x: self.x.sub(s), y: self.y.sub(s) }
    }

    /// Truncating product of every component with a scalar.
    pub fn mul_s(self, s: Fx) -> (r: Vec2)
        requires
            fx_fits(fxmul(self.x@, s@)),
            fx_fits(fxmul(self.y@, s@)),
        ensures
            r.x@ == fxmul(self.x@, s@),
            r.y@ == fxmul(self.y@, s@),
    {
        Vec2 { x: self.x.mul(s), y: self.y.mul(s) }
    }

    /// Truncating quotient of every component by a scalar.
    pub fn div_s(self, s: Fx) -> (r: Vec2)
        requires
            s@ != 0,
            fx_fits(fxdiv(self.x@, s@)),
            fx_fits(fxdiv(self.y@, s@)),
        ensures
            r.x@ == fxdiv(self.x@, s@),
            r.y@ == fxdiv(self.y@, s@),
    {
        Vec2 { x: self.x.div(s), y: self.y.div(s) }
    }

    /// Exact negation.
    pub fn neg(self) -> (r: Vec2)
        requires
            fx_fits(-self.x@),
            fx_fits(-self.y@),
        ensures
            r.x@ == -self.x@,
            r.y@ == -self.y@,
    {
        Vec2 { x: self.x.neg(), y: self.y.neg() }
    }

    /// Truncating dot product.
    pub fn dot(self, o: Vec2) -> (r: Fx)
        requires
            dot2_ok(self, o),
        ensures
            r@ == dot2(self, o),
    {
        self.x.mul(o.x).add(self.y.mul(o.y))
    }

    /// Euclidean norm: the integer square root of the exact sum of the
    /// squared raw counts.
    pub fn norm(self) -> (r: Fx)
        requires
            -(NORM_LIM as int) <= self.x@ <= NORM_LIM as int,
            -(NORM_LIM as int) <= self.y@ <= NORM_LIM as int,
        ensures
            r@ == isqrt(self.x@ * self.x@ + self.y@ * self.y@),
            r@ >= 0,
            r@ * r@ <= self.x@ * self.x@ + self.y@ * self.y@,
            self.x@ * self.x@ + self.y@ * self.y@ < (r@ + 1) * (r@ + 1),
    {
        proof {
            lemma_sq_bound(self.x@, NORM_LIM as int);
            lemma_sq_bound(self.y@, NORM_LIM as int);
        }
        let sx: i128 = (self.x.raw as i128) * (self.x.raw as i128);
        let sy: i128 = (self.y.raw as i128) * (self.y.raw as i128);
        let n: u128 = (sx + sy) as u128;
        let r = isqrt_u128(n);
        proof {
            lemma_isqrt(n as int);
            lemma_isqrt_unique(n as int, r as int, isqrt(n as int));
            assert((r as int) < 0x8000_0000_0000_0000) by (nonlinear_arith)
                requires
                    0 <= r as int,
                    (r as int) * (r as int) <= n as int,
                    (n as int) < 0x4000_0000_0000_0000_0000_0000_0000_0000,
            ;
        }
        Fx { raw: r as i64 }
    }

    /// Scales the vector to unit length, as for three components.
    pub fn normalize(self) -> (r: Vec2)
        requires
            -(NORM_LIM as int) <= self.x@ <= NORM_LIM as int,
            -(NORM_LIM as int) <= self.y@ <= NORM_LIM as int,
            self.x@ * self.x@ + self.y@ * self.y@ >= 1,
        ensures
            r.x@ == fxdiv(self.x@, isqrt(self.x@ * self.x@ + self.y@ * self.y@)),
            r.y@ == fxdiv(self.y@, isqrt(self.x@ * self.x@ + self.y@ * self.y@)),
            -(FX_ONE as int) <= r.x@ <= FX_ONE as int,
            -(FX_ONE as int) <= r.y@ <= FX_ONE as int,
    {
        let n = self.norm();
        proof {
            let s = self.x@ * self.x@ + self.y@ * self.y@;
            lemma_sq_bound(self.x@, NORM_LIM as int);
            lemma_sq_bound(self.y@, NORM_LIM as int);
            assert(n@ >= 1) by (nonlinear_arith)
                requires
                    n@ >= 0,
                    s >= 1,
                    s < (n@ + 1) * (n@ + 1),
            ;
            lemma_norm_dominates(n@, s, self.x@);
            lemma_norm_dominates(n@, s, self.y@);
            lemma_unit_bound(self.x@, n@);
            lemma_unit_bound(self.y@, n@);
        }
        Vec2 { x: self.x.div(n), y: self.y.div(n) }
    }

    /// Widens with a third component.
    pub fn to_vec3(self, v: Fx) -> (r: Vec3)
        ensures
            r == (Vec3 { x: self.x, y: self.y, z: v }),
    {
        Vec3 { x: self.x, y: self.y, z: v }
    }

    /// Widens with `v` as both third and fourth component.
    pub fn to_vec4(self, v: Fx) -> (r: Vec4)
        ensures
            r == (Vec4 { x: self.x, y: self.y, z: v, w: v }),
    {
        Vec4 { x: self.x, y: self.y, z: v, w: v }
    }
}

impl Vec3 {
    /// The zero vector.
    pub fn new() -> (r: Vec3)
        ensures
            r.x@ == 0 && r.y@ == 0 && r.z@ == 0,
    {
        Vec3 { x: Fx::zero(), y: Fx::zero(), z: Fx::zero() }
    }

    /// Every component set to `v`.
    pub fn fill(v: Fx) -> (r: Vec3)
        ensures
            r.x == v && r.y == v && r.z == v,
    {
        Vec3 { x: v, y: v, z: v }
    }

    /// A vector from its components.
    pub fn from(x: Fx, y: Fx, z: Fx) -> (r: Vec3)
        ensures
            r.x == x && r.y == y && r.z == z,
    {
        Vec3 { x, y, z }
    }

    /// Replaces the first component.
    pub fn x(self, v: Fx) -> (r: Vec3)
        ensures
            r == (Vec3 { x: v, ..self }),
    {
        Vec3 { x: v, ..self }
    }

    /// Replaces the second component.
    pub fn y(self, v: Fx) -> (r: Vec3)
        ensures
            r == (Vec3 { y: v, ..self }),
    {
        Vec3 { y: v, ..self }
    }

    /// Replaces the third component.
    pub fn z(self, v: Fx) -> (r: Vec3)
        ensures
            r == (Vec3 { z: v, ..self }),
    {
        Vec3 { z: v, ..self }
    }

    /// Exact component-wise sum.
    pub fn add(self, o: Vec3) -> (r: Vec3)
        requires
            fx_fits(self.x@ + o.x@),
            fx_fits(self.y@ + o.y@),
            fx_fits(self.z@ + o.z@),
        ensures
            r.x@ == self.x@ + o.x@,
            r.y@ == self.y@ + o.y@,
            r.z@ == self.z@ + o.z@,
    {
        Vec3 { x: self.x.add(o.x), y: self.y.add(o.y), z: self.z.add(o.z) }
    }

    /// Exact component-wise difference.
    pub fn sub(self, o: Vec3) -> (r: Vec3)
        requires
            fx_fits(self.x@ - o.x@),
            fx_fits(self.y@ - o.y@),
            fx_fits(self.z@ - o.z@),
        ensures
            r.x@ == self.x@ - o.x@,
            r.y@ == self.y@ - o.y@,
            r.z@ == self.z@ - o.z@,
    {
        Vec3 { x: self.x.sub(o.x), y: self.y.sub(o.y), z: self.z.sub(o.z) }
    }

    /// Truncating component-wise product.
    pub fn mul(self, o: Vec3) -> (r: Vec3)
        requires
            fx_fits(fxmul(self.x@, o.x@)),
            fx_fits(fxmul(self.y@, o.y@)),
            fx_fits(fxmul(self.z@, o.z@)),
        ensures
            r.x@ == fxmul(self.x@, o.x@),
            r.y@ == fxmul(self.y@, o.y@),
            r.z@ == fxmul(self.z@, o.z@),
    {
        Vec3 { x: self.x.mul(o.x), y: self.y.mul(o.y), z: self.z.mul(o.z) }
    }

    /// Exact sum of a scalar onto every component.
    pub fn add_s(self, s: Fx) -> (r: Vec3)
        requires
            fx_fits(self.x@ + s@),
            fx_fits(self.y@ + s@),
            fx_fits(self.z@ + s@),
        ensures
            r.x@ == self.x@ + s@,
            r.y@ == self.y@ + s@,
            r.z@ == self.z@ + s@,
    {
        Vec3 { x: self.x.add(s), y: self.y.add(s), z: self.z.add(s) }
    }

    /// Exact difference of a scalar from every component.
    pub fn sub_s(self, s: Fx) -> (r: Vec3)
        requires
            fx_fits(self.x@ - s@),
            fx_fits(self.y@ - s@),
            fx_fits(self.z@ - s@),
        ensures
            r.x@ == self.x@ - s@,
            r.y@ == self.y@ - s@,
            r.z@ == self.z@ - s@,
    {
        Vec3 { x: self.x.sub(s), y: self.y.sub(s), z: self.z.sub(s) }
    }

    /// Truncating product of every component with a scalar.
    pub fn mul_s(self, s: Fx) -> (r: Vec3)
        requires
            fx_fits(fxmul(self.x@, s@)),
            fx_fits(fxmul(self.y@, s@)),
            fx_fits(fxmul(self.z@, s@)),
        ensures
            r.x@ == fxmul(self.x@, s@),
            r.y@ == fxmul(self.y@, s@),
            r.z@ == fxmul(self.z@, s@),
    {
        Vec3 { x: self.x.mul(s), y: self.y.mul(s), z: self.z.mul(s) }
    }

    /// Truncating quotient of every component by a scalar.
    pub fn div_s(self, s: Fx) -> (r: Vec3)
        requires
            s@ != 0,
            fx_fits(fxdiv(self.x@, s@)),
            fx_fits(fxdiv(self.y@, s@)),
            fx_fits(fxdiv(self.z@, s@)),
        ensures
            r.x@ == fxdiv(self.x@, s@),
            r.y@ == fxdiv(self.y@, s@),
            r.z@ == fxdiv(self.z@, s@),
    {
        Vec3 { x: self.x.div(s), y: self.y.div(s), z: self.z.div(s) }
    }

    /// Exact negation.
    pub fn neg(self) -> (r: Vec3)
        requires
            fx_fits(-self.x@),
            fx_fits(-self.y@),
            fx_fits(-self.z@),
        ensures
            r.x@ == -self.x@,
            r.y@ == -self.y@,
            r.z@ == -self.z@,
    {
        Vec3 { x: self.x.neg(), y: self.y.neg(), z: self.z.neg() }
    }

    /// Truncating dot product.
    pub fn dot(self, o: Vec3) -> (r: Fx)
        requires
            dot3_ok(self, o),
        ensures
            r@ == dot3(self, o),
    {
        self.x.mul(o.x).add(self.y.mul(o.y)).add(self.z.mul(o.z))
    }

    /// The dot product of the vector with itself.
    pub fn squared_norm(self) -> (r: Fx)
        requires
            dot3_ok(self, self),
        ensures
            r@ == dot3(self, self),
    {
        self.dot(self)
    }

    /// Cross product, each component a difference of truncating products.
    pub fn cross(self, o: Vec3) -> (r: Vec3)
        requires
            cross_ok(self, o),
        ensures
            r.x@ == cross_x(self, o),
            r.y@ == cross_y(self, o),
            r.z@ == cross_z(self, o),
    {
        Vec3 {
            x: self.y.mul(o.z).sub(self.z.mul(o.y)),
            y: self.z.mul(o.x).sub(self.x.mul(o.z)),
            z: self.x.mul(o.y).sub(self.y.mul(o.x)),
        }
    }

    /// Euclidean norm: the integer square root of the exact sum of the
    /// squared raw counts, so the result is again a raw count.
    pub fn norm(self) -> (r: Fx)
        requires
            v3_norm_ok(self),
        ensures
            r@ == norm3(self),
            r@ >= 0,
            r@ * r@ <= sqn3(self),
            sqn3(self) < (r@ + 1) * (r@ + 1),
    {
        proof {
            lemma_sq_bound(self.x@, NORM_LIM as int);
            lemma_sq_bound(self.y@, NORM_LIM as int);
            lemma_sq_bound(self.z@, NORM_LIM as int);
        }
        let sx: i128 = (self.x.raw as i128) * (self.x.raw as i128);
        let sy: i128 = (self.y.raw as i128) * (self.y.raw as i128);
        let sz: i128 = (self.z.raw as i128) * (self.z.raw as i128);
        let n: u128 = (sx + sy + sz) as u128;
        let r = isqrt_u128(n);
        proof {
            lemma_isqrt(n as int);
            lemma_isqrt_unique(n as int, r as int, isqrt(n as int));
            assert((r as int) < 0x8000_0000_0000_0000) by (nonlinear_arith)
                requires
                    0 <= r as int,
                    (r as int) * (r as int) <= n as int,
                    (n as int) < 0x4000_0000_0000_0000_0000_0000_0000_0000,
            ;
        }
        Fx { raw: r as i64 }
    }

    /// Scales the vector to unit length: each component becomes its raw
    /// count times 65536, divided by the norm, truncated toward zero. The
    /// result's components are therefore at most one unit in magnitude.
    pub fn normalize(self) -> (r: Vec3)
        requires
            v3_norm_ok(self),
            sqn3(self) >= 1,
        ensures
            r.x@ == fxdiv(self.x@, norm3(self)),
            r.y@ == fxdiv(self.y@, norm3(self)),
            r.z@ == fxdiv(self.z@, norm3(self)),
            -(FX_ONE as int) <= r.x@ <= FX_ONE as int,
            -(FX_ONE as int) <= r.y@ <= FX_ONE as int,
            -(FX_ONE as int) <= r.z@ <= FX_ONE as int,
    {
        let n = self.norm();
        proof {
            lemma_sq_bound(self.x@, NORM_LIM as int);
            lemma_sq_bound(self.y@, NORM_LIM as int);
            lemma_sq_bound(self.z@, NORM_LIM as int);
            assert(n@ >= 1) by (nonlinear_arith)
                requires
                    n@ >= 0,
                    sqn3(self) >= 1,
                    sqn3(self) < (n@ + 1) * (n@ + 1),
            ;
            lemma_norm_dominates(n@, sqn3(self), self.x@);
            lemma_norm_dominates(n@, sqn3(self), self.y@);
            lemma_norm_dominates(n@, sqn3(self), self.z@);
            lemma_unit_bound(self.x@, n@);
            lemma_unit_bound(self.y@, n@);
            lemma_unit_bound(self.z@, n@);
        }
        Vec3 { x: self.x.div(n), y: self.y.div(n), z: self.z.div(n) }
    }

    /// Narrows to the first two components.
    pub fn to_vec2(self) -> (r: Vec2)
        ensures
            r == (Vec2 { x: self.x, y: self.y }),
    {
        Vec2 { x: self.x, y: self.y }
    }

    /// Widens with a fourth component.
    pub fn to_vec4(self, v: Fx) -> (r: Vec4)
        ensures
            r == (Vec4 { x: self.x, y: self.y, z: self.z, w: v }),
    {
        Vec4 { x: self.x, y: self.y, z: self.z, w: v }
    }
}

impl Vec4 {
    /// The zero vector.
    pub fn new() -> (r: Vec4)
        ensures
            r.x@ == 0 && r.y@ == 0 && r.z@ == 0 && r.w@ == 0,
    {
        Vec4 { x: Fx::zero(), y: Fx::zero(), z: Fx::zero(), w: Fx::zero() }
    }

    /// Every component set to `v`.
    pub fn fill(v: Fx) -> (r: Vec4)
        ensures
            r.x == v && r.y == v && r.z == v && r.w == v,
    {
        Vec4 { x: v, y: v, z: v, w: v }
    }

    /// A vector from its components.
    pub fn from(x: Fx, y: Fx, z: Fx, w: Fx) -> (r: Vec4)
        ensures
            r.x == x && r.y == y && r.z == z && r.w == w,
    {
        Vec4 { x, y, z, w }
    }

    /// Replaces the first component.
    pub fn x(self, v: Fx) -> (r: Vec4)
        ensures
            r == (Vec4 { x: v, ..self }),
    {
        Vec4 { x: v, ..self }
    }

    /// Replaces the second component.
    pub fn y(self, v: Fx) -> (r: Vec4)
        ensures
            r == (Vec4 { y: v, ..self }),
    {
        Vec4 { y: v, ..self }
    }

    /// Replaces the third component.
    pub fn z(self, v: Fx) -> (r: Vec4)
        ensures
            r == (Vec4 { z: v, ..self }),
    {
        Vec4 { z: v, ..self }
    }

    /// Replaces the fourth component.
    pub fn w(self, v: Fx) -> (r: Vec4)
        ensures
            r == (Vec4 { w: v, ..self }),
    {
        Vec4 { w: v, ..self }
    }

    /// Exact component-wise sum.
    pub fn add(self, o: Vec4) -> (r: Vec4)
        requires
            fx_fits(self.x@ + o.x@),
            fx_fits(self.y@ + o.y@),
            fx_fits(self.z@ + o.z@),
            fx_fits(self.w@ + o.w@),
        ensures
            r.x@ == self.x@ + o.x@,
            r.y@ == self.y@ + o.y@,
            r.z@ == self.z@ + o.z@,
            r.w@ == self.w@ + o.w@,
    {
        Vec4 { x: self.x.add(o.x), y: self.y.add(o.y), z: self.z.add(o.z), w: self.w.add(o.w) }
    }

    /// Exact component-wise difference.
    pub fn sub(self, o: Vec4) -> (r: Vec4)
        requires
            fx_fits(self.x@ - o.x@),
            fx_fits(self.y@ - o.y@),
            fx_fits(self.z@ - o.z@),
            fx_fits(self.w@ - o.w@),
        ensures
            r.x@ == self.x@ - o.x@,
            r.y@ == self.y@ - o.y@,
            r.z@ == self.z@ - o.z@,
            r.w@ == self.w@ - o.w@,
    {
        Vec4 { x: self.x.sub(o.x), y: self.y.sub(o.y), z: self.z.sub(o.z), w: self.w.sub(o.w) }
    }

    /// Truncating component-wise product.
    pub fn mul(self, o: Vec4) -> (r: Vec4)
        requires
            fx_fits(fxmul(self.x@, o.x@)),
            fx_fits(fxmul(self.y@, o.y@)),
            fx_fits(fxmul(self.z@, o.z@)),
            fx_fits(fxmul(self.w@, o.w@)),
        ensures
            r.x@ == fxmul(self.x@, o.x@),
            r.y@ == fxmul(self.y@, o.y@),
            r.z@ == fxmul(self.z@, o.z@),
            r.w@ == fxmul(self.w@, o.w@),
    {
        Vec4 { x: self.x.mul(o.x), y: self.y.mul(o.y), z: self.z.mul(o.z), w: self.w.mul(o.w) }
    }

    /// Exact sum of a scalar onto every component.
    pub fn add_s(self, s: Fx) -> (r: Vec4)
        requires
            fx_fits(self.x@ + s@),
            fx_fits(self.y@ + s@),
            fx_fits(self.z@ + s@),
            fx_fits(self.w@ + s@),
        ensures
            r.x@ == self.x@ + s@,
            r.y@ == self.y@ + s@,
            r.z@ == self.z@ + s@,
            r.w@ == self.w@ + s@,
    {
        Vec4 { x: self.x.add(s), y: self.y.add(s), z: self.z.add(s), w: self.w.add(s) }
    }

    /// Exact difference of a scalar from every component.
    pub fn sub_s(self, s: Fx) -> (r: Vec4)
        requires
            fx_fits(self.x@ - s@),
            fx_fits(self.y@ - s@),
            fx_fits(self.z@ - s@),
            fx_fits(self.w@ - s@),
        ensures
            r.x@ == self.x@ - s@,
            r.y@ == self.y@ - s@,
            r.z@ == self.z@ - s@,
            r.w@ == self.w@ - s@,
    {
        Vec4 { x: self.x.sub(s), y: self.y.sub(s), z: self.z.sub(s), w: self.w.sub(s) }
    }

    /// Truncating product of every component with a scalar.
    pub fn mul_s(self, s: Fx) -> (r: Vec4)
        requires
            fx_fits(fxmul(self.x@, s@)),
            fx_fits(fxmul(self.y@, s@)),
            fx_fits(fxmul(self.z@, s@)),
            fx_fits(fxmul(self.w@, s@)),
        ensures
            r.x@ == fxmul(self.x@, s@),
            r.y@ == fxmul(self.y@, s@),
            r.z@ == fxmul(self.z@, s@),
            r.w@ == fxmul(self.w@, s@),
    {
        Vec4 { x: self.x.mul(s), y: self.y.mul(s), z: self.z.mul(s), w: self.w.mul(s) }
    }

    /// Truncating quotient of every component by a scalar.
    pub fn div_s(self, s: Fx) -> (r: Vec4)
        requires
            s@ != 0,
            fx_fits(fxdiv(self.x@, s@)),
            fx_fits(fxdiv(self.y@, s@)),
            fx_fits(fxdiv(self.z@, s@)),
            fx_fits(fxdiv(self.w@, s@)),
        ensures
            r.x@ == fxdiv(self.x@, s@),
            r.y@ == fxdiv(self.y@, s@),
            r.z@ == fxdiv(self.z@, s@),
            r.w@ == fxdiv(self.w@, s@),
    {
        Vec4 { x: self.x.div(s), y: self.y.div(s), z: self.z.div(s), w: self.w.div(s) }
    }

    /// Exact negation.
    pub fn neg(self) -> (r: Vec4)
        requires
            fx_fits(-self.x@),
            fx_fits(-self.y@),
            fx_fits(-self.z@),
            fx_fits(-self.w@),
        ensures
            r.x@ == -self.x@,
            r.y@ == -self.y@,
            r.z@ == -self.z@,
            r.w@ == -self.w@,
    {
        Vec4 { x: self.x.neg(), y: self.y.neg(), z: self.z.neg(), w: self.w.neg() }
    }

    /// Truncating dot product.
    pub fn dot(self, o: Vec4) -> (r: Fx)
        requires
            dot4_ok(self, o),
        ensures
            r@ == dot4(self, o),
    {
        self.x.mul(o.x).add(self.y.mul(o.y)).add(self.z.mul(o.z)).add(self.w.mul(o.w))
    }

    /// The dot product of the vector with itself.
    pub fn squared_norm(self) -> (r: Fx)
        requires
            dot4_ok(self, self),
        ensures
            r@ == dot4(self, self),
    {
        self.dot(self)
    }

    /// Euclidean norm, as for three components.
    pub fn norm(self) -> (r: Fx)
        requires
            v4_norm_ok(self),
        ensures
            r@ == norm4(self),
            r@ >= 0,
            r@ * r@ <= sqn4(self),
            sqn4(self) < (r@ + 1) * (r@ + 1),
    {
        proof {
            lemma_sq_bound(self.x@, NORM_LIM as int);
            lemma_sq_bound(self.y@, NORM_LIM as int);
            lemma_sq_bound(self.z@, NORM_LIM as int);
            lemma_sq_bound(self.w@, NORM_LIM as int);
        }
        let sx: i128 = (self.x.raw as i128) * (self.x.raw as i128);
        let sy: i128 = (self.y.raw as i128) * (self.y.raw as i128);
        let sz: i128 = (self.z.raw as i128) * (self.z.raw as i128);
        let sw: i128 = (self.w.raw as i128) * (self.w.raw as i128);
        let n: u128 = (sx + sy + sz + sw) as u128;
        let r = isqrt_u128(n);
        proof {
            lemma_isqrt(n as int);
            lemma_isqrt_unique(n as int, r as int, isqrt(n as int));
            assert((r as int) < 0x8000_0000_0000_0000) by (nonlinear_arith)
                requires
                    0 <= r as int,
                    (r as int) * (r as int) <= n as int,
                    (n as int) < 0x4000_0000_0000_0000_0000_0000_0000_0000,
            ;
        }
        Fx { raw: r as i64 }
    }

    /// Scales the vector to unit length, as for three components.
    pub fn normalize(self) -> (r: Vec4)
        requires
            v4_norm_ok(self),
            sqn4(self) >= 1,
        ensures
            r.x@ == fxdiv(self.x@, norm4(self)),
            r.y@ == fxdiv(self.y@, norm4(self)),
            r.z@ == fxdiv(self.z@, norm4(self)),
            r.w@ == fxdiv(self.w@, norm4(self)),
            -(FX_ONE as int) <= r.x@ <= FX_ONE as int,
            -(FX_ONE as int) <= r.y@ <= FX_ONE as int,
            -(FX_ONE as int) <= r.z@ <= FX_ONE as int,
            -(FX_ONE as int) <= r.w@ <= FX_ONE as int,
    {
        let n = self.norm();
        proof {
            lemma_sq_bound(self.x@, NORM_LIM as int);
            lemma_sq_bound(self.y@, NORM_LIM as int);
            lemma_sq_bound(self.z@, NORM_LIM as int);
            lemma_sq_bound(self.w@, NORM_LIM as int);
            assert(n@ >= 1) by (nonlinear_arith)
                requires
                    n@ >= 0,
                    sqn4(self) >= 1,
                    sqn4(self) < (n@ + 1) * (n@ + 1),
            ;
            lemma_norm_dominates(n@, sqn4(self), self.x@);
            lemma_norm_dominates(n@, sqn4(self), self.y@);
            lemma_norm_dominates(n@, sqn4(self), self.z@);
            lemma_norm_dominates(n@, sqn4(self), self.w@);
            lemma_unit_bound(self.x@, n@);
            lemma_unit_bound(self.y@, n@);
            lemma_unit_bound(self.z@, n@);
            lemma_unit_bound(self.w@, n@);
        }
        Vec4 { x: self.x.div(n), y: self.y.div(n), z: self.z.div(n), w: self.w.div(n) }
    }

    /// Narrows to the first two components.
    pub fn to_vec2(self) -> (r: Vec2)
        ensures
            r == (Vec2 { x: self.x, y: self.y }),
    {
        Vec2 { x: self.x, y: self.y }
    }

    /// Narrows to the first three components.
    pub fn to_vec3(self) -> (r: Vec3)
        ensures
            r == (Vec3 { x: self.x, y: self.y, z: self.z }),
    {
        Vec3 { x: self.x, y: self.y, z: self.z }
    }
}

} // verus!
