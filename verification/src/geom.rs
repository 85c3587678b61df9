//! Geometric transforms and intersection helpers.
//!
//! Every function carries an exact contract over raw fixed-point counts:
//! the transform builders state each entry of the matrix they produce,
//! and the composed forms state the truncating dot products of the
//! composition, so a caller knows the result to the last raw step.

use vstd::prelude::*;
use crate::fx::{Fx, FX_ONE, PI_RAW, DEG_HALF_TURN, ANG_LIM, fxv, fxmul, fxdiv, tdiv, isqrt,
    sabs, sin_spec, cos_spec, lemma_tdiv_mag, lemma_tdiv_bound, lemma_fxmul_bound,
    lemma_tdiv_rem, lemma_i64_prod_fits};
use crate::vecn::{Vec2, Vec3, Vec4, v3s, sub3, unit3, cross3, dot3, cross_x, cross_y,
    cross_z, sqn3, norm3, v3_norm_ok, lemma_dot3_bound, lemma_cross3_bound};
use crate::matn::{Mat3, Mat4, col4_spec, is_mul4, m4_lim, v2_lim, v3_lim, v4_lim, MAT_LIM};

verus! {

/// An angle, tagged as degrees or radians, both as fixed-point scalars.
#[derive(Clone, Copy, Debug)]
pub enum Angle {
    /// Degrees.
    Ang(Fx),
    /// Radians.
    Rad(Fx),
}

/// The raw radian count of an angle: degrees are scaled by pi / 180 in
/// one exact wide step.
pub open spec fn rad_of(a: Angle) -> int {
    match a {
        Angle::Ang(v) => tdiv(v@ * (PI_RAW as int), DEG_HALF_TURN as int),
        Angle::Rad(v) => v@,
    }
}

/// The raw degree count of an angle.
pub open spec fn ang_of(a: Angle) -> int {
    match a {
        Angle::Ang(v) => v@,
        Angle::Rad(v) => tdiv(v@ * (DEG_HALF_TURN as int), PI_RAW as int),
    }
}

/// Whether the angle's scalar is small enough for exact conversion and
/// reduction.
pub open spec fn angle_ok(a: Angle) -> bool {
    match a {
        Angle::Ang(v) => -(ANG_LIM as int) <= v@ <= ANG_LIM as int,
        Angle::Rad(v) => -(ANG_LIM as int) <= v@ <= ANG_LIM as int,
    }
}

impl Angle {
    /// The angle in degrees.
    pub fn to_ang(&self) -> (r: Fx)
        requires
            angle_ok(*self),
        ensures
            r@ == ang_of(*self),
    {
        match *self {
            Angle::Ang(a) => a,
            Angle::Rad(v) => {
                proof {
                    lemma_i64_prod_fits(v@, DEG_HALF_TURN as int);
                    lemma_tdiv_bound(
                        v@ * (DEG_HALF_TURN as int),
                        PI_RAW as int,
                        (ANG_LIM as int) * (DEG_HALF_TURN as int),
                    );
                }
                v.mul_div(DEG_HALF_TURN, PI_RAW)
            },
        }
    }

    /// The angle in radians, small enough for the trigonometric
    /// functions.
    pub fn to_rad(&self) -> (r: Fx)
        requires
            angle_ok(*self),
        ensures
            r@ == rad_of(*self),
            -(ANG_LIM as int) <= r@ <= ANG_LIM as int,
    {
        match *self {
            Angle::Ang(v) => {
                proof {
                    lemma_i64_prod_fits(v@, PI_RAW as int);
                    lemma_tdiv_bound(
                        v@ * (PI_RAW as int),
                        DEG_HALF_TURN as int,
                        (ANG_LIM as int) * (PI_RAW as int),
                    );
                }
                v.mul_div(PI_RAW, DEG_HALF_TURN)
            },
            Angle::Rad(v) => v,
        }
    }
}

/// The scaling matrix with `s` on the diagonal and one in the corner.
pub open spec fn scale_mat(s: Vec3) -> Mat4 {
    Mat4 {
        r0: Vec4 { x: s.x, y: fxv(0), z: fxv(0), w: fxv(0) },
        r1: Vec4 { x: fxv(0), y: s.y, z: fxv(0), w: fxv(0) },
        r2: Vec4 { x: fxv(0), y: fxv(0), z: s.z, w: fxv(0) },
        r3: Vec4 { x: fxv(0), y: fxv(0), z: fxv(0), w: fxv(FX_ONE as int) },
    }
}

/// Right-multiplies `m` by the scaling matrix of `s`.
pub fn scale(m: &Mat4, s: &Vec3) -> (r: Mat4)
    requires
        m4_lim(*m, MAT_LIM as int),
        v3_lim(*s, MAT_LIM as int),
    ensures
        is_mul4(r, *m, scale_mat(*s)),
{
    let ms = Mat4::diag(&s.to_vec4(Fx::one()));
    proof {
        assert(ms == scale_mat(*s));
    }
    m.mul_mat(&ms)
}

/// The translation matrix that moves by `t`.
pub open spec fn translate_mat(t: Vec3) -> Mat4 {
    Mat4 {
        r0: Vec4 { x: fxv(FX_ONE as int), y: fxv(0), z: fxv(0), w: t.x },
        r1: Vec4 { x: fxv(0), y: fxv(FX_ONE as int), z: fxv(0), w: t.y },
        r2: Vec4 { x: fxv(0), y: fxv(0), z: fxv(FX_ONE as int), w: t.z },
        r3: Vec4 { x: fxv(0), y: fxv(0), z: fxv(0), w: fxv(FX_ONE as int) },
    }
}

/// Right-multiplies `m` by the translation matrix of `t`.
pub fn translate(m: &Mat4, t: &Vec3) -> (r: Mat4)
    requires
        m4_lim(*m, MAT_LIM as int),
        v3_lim(*t, MAT_LIM as int),
    ensures
        is_mul4(r, *m, translate_mat(*t)),
{
    let one = Fx::one();
    let zero = Fx::zero();
    let mt = Mat4::from(
        Vec4::from(one, zero, zero, t.x),
        Vec4::from(zero, one, zero, t.y),
        Vec4::from(zero, zero, one, t.z),
        Vec4::from(zero, zero, zero, one),
    );
    proof {
        assert(mt == translate_mat(*t));
    }
    m.mul_mat(&mt)
}

/// The rotation matrix around the unit axis `(ax, ay, az)` with sine `s`
/// and cosine `c`, by Rodrigues' formula with truncating products.
pub open spec fn rot_mat(ax: int, ay: int, az: int, s: int, c: int) -> Mat4 {
    let k = FX_ONE as int - c;
    Mat4 {
        r0: Vec4 {
            x: fxv(c + fxmul(fxmul(ax, ax), k)),
            y: fxv(fxmul(fxmul(ax, ay), k) - fxmul(az, s)),
            z: fxv(fxmul(fxmul(ax, az), k) + fxmul(ay, s)),
            w: fxv(0),
        },
        r1: Vec4 {
            x: fxv(fxmul(fxmul(ay, ax), k) + fxmul(az, s)),
            y: fxv(c + fxmul(fxmul(ay, ay), k)),
            z: fxv(fxmul(fxmul(ay, az), k) - fxmul(ax, s)),
            w: fxv(0),
        },
        r2: Vec4 {
            x: fxv(fxmul(fxmul(az, ax), k) - fxmul(ay, s)),
            y: fxv(fxmul(fxmul(az, ay), k) + fxmul(ax, s)),
            z: fxv(c + fxmul(fxmul(az, az), k)),
            w: fxv(0),
        },
        r3: Vec4 { x: fxv(0), y: fxv(0), z: fxv(0), w: fxv(FX_ONE as int) },
    }
}

/// Right-multiplies `m` by the rotation matrix around axis `a` (scaled
/// to unit length first) by the angle `t`.
pub fn rotate(m: &Mat4, a: &Vec3, t: Angle) -> (r: Mat4)
    requires
        m4_lim(*m, MAT_LIM as int),
        v3_norm_ok(*a),
        sqn3(*a) >= 1,
        angle_ok(t),
    ensures
        ({
            let u = unit3(*a);
            is_mul4(r, *m, rot_mat(u.x@, u.y@, u.z@, sin_spec(rad_of(t)), cos_spec(rad_of(t))))
        }),
{
    let rad = t.to_rad();
    let sint = rad.sin();
    let cost = rad.cos();
    let u = a.normalize();
    let one = Fx::one();
    let zero = Fx::zero();
    let k = one.sub(cost);
    proof {
        lemma_fxmul_bound(u.x@, u.x@, 0x1_0000, 0x1_0000);
        lemma_fxmul_bound(u.x@, u.y@, 0x1_0000, 0x1_0000);
        lemma_fxmul_bound(u.x@, u.z@, 0x1_0000, 0x1_0000);
        lemma_fxmul_bound(u.y@, u.x@, 0x1_0000, 0x1_0000);
        lemma_fxmul_bound(u.y@, u.y@, 0x1_0000, 0x1_0000);
        lemma_fxmul_bound(u.y@, u.z@, 0x1_0000, 0x1_0000);
        lemma_fxmul_bound(u.z@, u.x@, 0x1_0000, 0x1_0000);
        lemma_fxmul_bound(u.z@, u.y@, 0x1_0000, 0x1_0000);
        lemma_fxmul_bound(u.z@, u.z@, 0x1_0000, 0x1_0000);
        lemma_fxmul_bound(u.x@, sint@, 0x1_0000, 0x400_0000);
        lemma_fxmul_bound(u.y@, sint@, 0x1_0000, 0x400_0000);
        lemma_fxmul_bound(u.z@, sint@, 0x1_0000, 0x400_0000);
    }
    let xx = u.x.mul(u.x);
    let xy = u.x.mul(u.y);
    let xz = u.x.mul(u.z);
    let yx = u.y.mul(u.x);
    let yy = u.y.mul(u.y);
    let yz = u.y.mul(u.z);
    let zx = u.z.mul(u.x);
    let zy = u.z.mul(u.y);
    let zz = u.z.mul(u.z);
    let xs = u.x.mul(sint);
    let ys = u.y.mul(sint);
    let zs = u.z.mul(sint);
    proof {
        lemma_fxmul_bound(xx@, k@, 0x1_0000, 0x800_0000);
        lemma_fxmul_bound(xy@, k@, 0x1_0000, 0x800_0000);
        lemma_fxmul_bound(xz@, k@, 0x1_0000, 0x800_0000);
        lemma_fxmul_bound(yx@, k@, 0x1_0000, 0x800_0000);
        lemma_fxmul_bound(yy@, k@, 0x1_0000, 0x800_0000);
        lemma_fxmul_bound(yz@, k@, 0x1_0000, 0x800_0000);
        lemma_fxmul_bound(zx@, k@, 0x1_0000, 0x800_0000);
        lemma_fxmul_bound(zy@, k@, 0x1_0000, 0x800_0000);
        lemma_fxmul_bound(zz@, k@, 0x1_0000, 0x800_0000);
    }
    let mr = Mat4::from(
        Vec4::from(cost.add(xx.mul(k)), xy.mul(k).sub(zs), xz.mul(k).add(ys), zero),
        Vec4::from(yx.mul(k).add(zs), cost.add(yy.mul(k)), yz.mul(k).sub(xs), zero),
        Vec4::from(zx.mul(k).sub(ys), zy.mul(k).add(xs), cost.add(zz.mul(k)), zero),
        Vec4::from(zero, zero, zero, one),
    );
    proof {
        assert(mr == rot_mat(u.x@, u.y@, u.z@, sint@, cost@));
    }
    m.mul_mat(&mr)
}

/// The camera view matrix: an orthogonal basis built from the viewing
/// direction and the up reference, composed with a translation by the
/// negated eye position.
pub fn look_at(eye: &Vec3, center: &Vec3, up: &Vec3) -> (r: Mat4)
    requires
        v3_lim(*eye, MAT_LIM as int),
        v3_lim(*center, MAT_LIM as int),
        v3_lim(*up, MAT_LIM as int),
        sqn3(sub3(*center, *eye)) >= 1,
        sqn3(cross3(unit3(sub3(*center, *eye)), *up)) >= 1,
    ensures
        ({
            let d = unit3(sub3(*center, *eye));
            let rt = unit3(cross3(d, *up));
            let u = cross3(rt, d);
            let v = Mat4 {
                r0: Vec4 { x: rt.x, y: rt.y, z: rt.z, w: fxv(0) },
                r1: Vec4 { x: u.x, y: u.y, z: u.z, w: fxv(0) },
                r2: Vec4 { x: fxv(-d.x@), y: fxv(-d.y@), z: fxv(-d.z@), w: fxv(0) },
                r3: Vec4 { x: fxv(0), y: fxv(0), z: fxv(0), w: fxv(FX_ONE as int) },
            };
            let p = Mat4 {
                r0: Vec4 { x: fxv(FX_ONE as int), y: fxv(0), z: fxv(0), w: fxv(-eye.x@) },
                r1: Vec4 { x: fxv(0), y: fxv(FX_ONE as int), z: fxv(0), w: fxv(-eye.y@) },
                r2: Vec4 { x: fxv(0), y: fxv(0), z: fxv(FX_ONE as int), w: fxv(-eye.z@) },
                r3: Vec4 { x: fxv(0), y: fxv(0), z: fxv(0), w: fxv(FX_ONE as int) },
            };
            is_mul4(r, v, p)
        }),
{
    let dv = (*center).sub(*eye);
    proof {
        assert(dv == sub3(*center, *eye));
    }
    let d = dv.normalize();
    proof {
        assert(d == unit3(dv));
        lemma_fxmul_bound(d.y@, up.z@, 0x1_0000, MAT_LIM as int);
        lemma_fxmul_bound(d.z@, up.y@, 0x1_0000, MAT_LIM as int);
        lemma_fxmul_bound(d.z@, up.x@, 0x1_0000, MAT_LIM as int);
        lemma_fxmul_bound(d.x@, up.z@, 0x1_0000, MAT_LIM as int);
        lemma_fxmul_bound(d.x@, up.y@, 0x1_0000, MAT_LIM as int);
        lemma_fxmul_bound(d.y@, up.x@, 0x1_0000, MAT_LIM as int);
    }
    let cr = d.cross(*up);
    proof {
        assert(cr == cross3(d, *up));
    }
    let rt = cr.normalize();
    proof {
        assert(rt == unit3(cr));
        lemma_fxmul_bound(rt.y@, d.z@, 0x1_0000, 0x1_0000);
        lemma_fxmul_bound(rt.z@, d.y@, 0x1_0000, 0x1_0000);
        lemma_fxmul_bound(rt.z@, d.x@, 0x1_0000, 0x1_0000);
        lemma_fxmul_bound(rt.x@, d.z@, 0x1_0000, 0x1_0000);
        lemma_fxmul_bound(rt.x@, d.y@, 0x1_0000, 0x1_0000);
        lemma_fxmul_bound(rt.y@, d.x@, 0x1_0000, 0x1_0000);
    }
    let u = rt.cross(d);
    proof {
        assert(u == cross3(rt, d));
    }
    let one = Fx::one();
    let zero = Fx::zero();
    let v = Mat4::from(
        rt.to_vec4(zero),
        u.to_vec4(zero),
        d.neg().to_vec4(zero),
        Vec4::from(zero, zero, zero, one),
    );
    let p = Mat4::from(
        Vec4::from(one, zero, zero, eye.x.neg()),
        Vec4::from(zero, one, zero, eye.y.neg()),
        Vec4::from(zero, zero, one, eye.z.neg()),
        Vec4::from(zero, zero, zero, one),
    );
    v.mul_mat(&p)
}

/// The orthographic projection matrix mapping the box bounded by the six
/// planes onto the unit cube.
pub fn ortho(left: Fx, right: Fx, bottom: Fx, top: Fx, near: Fx, far: Fx) -> (r: Mat4)
    requires
        -0x4000_0000 <= left@ <= 0x4000_0000,
        -0x4000_0000 <= right@ <= 0x4000_0000,
        -0x4000_0000 <= bottom@ <= 0x4000_0000,
        -0x4000_0000 <= top@ <= 0x4000_0000,
        -0x4000_0000 <= near@ <= 0x4000_0000,
        -0x4000_0000 <= far@ <= 0x4000_0000,
        right@ != left@,
        top@ != bottom@,
        near@ != far@,
    ensures
        r.r0.x@ == fxdiv(2 * (FX_ONE as int), right@ - left@),
        r.r0.y@ == 0 && r.r0.z@ == 0,
        r.r0.w@ == fxdiv(-(right@ + left@), right@ - left@),
        r.r1.x@ == 0 && r.r1.z@ == 0,
        r.r1.y@ == fxdiv(2 * (FX_ONE as int), top@ - bottom@),
        r.r1.w@ == fxdiv(-(top@ + bottom@), top@ - bottom@),
        r.r2.x@ == 0 && r.r2.y@ == 0,
        r.r2.z@ == fxdiv(2 * (FX_ONE as int), near@ - far@),
        r.r2.w@ == fxdiv(near@ + far@, near@ - far@),
        r.r3.x@ == 0 && r.r3.y@ == 0 && r.r3.z@ == 0,
        r.r3.w@ == FX_ONE as int,
    {
    let two = Fx::from_int(2);
    let zero = Fx::zero();
    let rl = right.sub(left);
    let tb = top.sub(bottom);
    let nf = near.sub(far);
    proof {
        lemma_tdiv_mag(2 * (FX_ONE as int) * (FX_ONE as int), rl@);
        lemma_tdiv_mag(2 * (FX_ONE as int) * (FX_ONE as int), tb@);
        lemma_tdiv_mag(2 * (FX_ONE as int) * (FX_ONE as int), nf@);
        lemma_tdiv_mag(-(right@ + left@) * (FX_ONE as int), rl@);
        lemma_tdiv_mag(-(top@ + bottom@) * (FX_ONE as int), tb@);
        lemma_tdiv_mag((near@ + far@) * (FX_ONE as int), nf@);
    }
    Mat4::from(
        Vec4::from(two.div(rl), zero, zero, right.add(left).neg().div(rl)),
        Vec4::from(zero, two.div(tb), zero, top.add(bottom).neg().div(tb)),
        Vec4::from(zero, zero, two.div(nf), near.add(far).div(nf)),
        Vec4::from(zero, zero, zero, Fx::one()),
    )
}

/// The half-height of the near plane for a field of view: the tangent of
/// half the angle, as a quotient of the truncated sine and cosine.
pub open spec fn persp_half(fovy: Angle) -> int {
    let rh = tdiv(rad_of(fovy), 2);
    fxdiv(sin_spec(rh), cos_spec(rh))
}

/// The symmetric perspective projection matrix.
pub fn persp(fovy: Angle, aspect: Fx, near: Fx, far: Fx) -> (r: Mat4)
    requires
        angle_ok(fovy),
        -0x100_0000 <= near@ <= 0x100_0000,
        -0x100_0000 <= far@ <= 0x100_0000,
        -0x1_0000_0000 <= aspect@ <= 0x1_0000_0000,
        -0x1_0000_0000 <= persp_half(fovy) <= 0x1_0000_0000,
        near@ != far@,
        cos_spec(tdiv(rad_of(fovy), 2)) != 0,
        persp_half(fovy) != 0,
        fxmul(persp_half(fovy), aspect@) != 0,
    ensures
        r.r0.x@ == fxdiv(FX_ONE as int, fxmul(persp_half(fovy), aspect@)),
        r.r0.y@ == 0 && r.r0.z@ == 0 && r.r0.w@ == 0,
        r.r1.x@ == 0 && r.r1.z@ == 0 && r.r1.w@ == 0,
        r.r1.y@ == fxdiv(FX_ONE as int, persp_half(fovy)),
        r.r2.x@ == 0 && r.r2.y@ == 0,
        r.r2.z@ == fxdiv(near@ + far@, near@ - far@),
        r.r2.w@ == fxdiv(fxmul(fxmul(2 * (FX_ONE as int), near@), far@), near@ - far@),
        r.r3.x@ == 0 && r.r3.y@ == 0 && r.r3.w@ == 0,
        r.r3.z@ == -(FX_ONE as int),
    {
    let rad = fovy.to_rad();
    proof {
        lemma_tdiv_mag(rad@, 2);
    }
    let rh = rad.div_int(2);
    let s = rh.sin();
    let c = rh.cos();
    proof {
        lemma_tdiv_mag(s@ * (FX_ONE as int), c@);
    }
    let half = s.div(c);
    proof {
        lemma_fxmul_bound(half@, aspect@, 0x1_0000_0000, 0x1_0000_0000);
        lemma_tdiv_mag(FX_ONE as int * (FX_ONE as int), fxmul(half@, aspect@));
        lemma_tdiv_mag(FX_ONE as int * (FX_ONE as int), half@);
        lemma_fxmul_bound(2 * (FX_ONE as int), near@, 2 * (FX_ONE as int), 0x100_0000);
        lemma_fxmul_bound(fxmul(2 * (FX_ONE as int), near@), far@, 0x200_0000, 0x100_0000);
        lemma_tdiv_mag((near@ + far@) * (FX_ONE as int), near@ - far@);
        lemma_tdiv_mag(fxmul(fxmul(2 * (FX_ONE as int), near@), far@) * (FX_ONE as int),
            near@ - far@);
    }
    let ha = half.mul(aspect);
    let zero = Fx::zero();
    let one = Fx::one();
    let two = Fx::from_int(2);
    let nf = near.sub(far);
    Mat4::from(
        Vec4::from(one.div(ha), zero, zero, zero),
        Vec4::from(zero, one.div(half), zero, zero),
        Vec4::from(zero, zero, near.add(far).div(nf), two.mul(near).mul(far).div(nf)),
        Vec4::from(zero, zero, one.neg(), zero),
    )
}

/// The viewport matrix mapping the unit cube to the pixel rectangle at
/// `(x, y)` of size `width` by `height`, with depth halved into `[0, 1]`.
pub fn viewport(x: Fx, y: Fx, width: Fx, height: Fx) -> (r: Mat4)
    requires
        -0x4000_0000 <= x@ <= 0x4000_0000,
        -0x4000_0000 <= y@ <= 0x4000_0000,
        -0x4000_0000 <= width@ <= 0x4000_0000,
        -0x4000_0000 <= height@ <= 0x4000_0000,
    ensures
        r.r0.x@ == tdiv(width@, 2),
        r.r0.y@ == 0 && r.r0.z@ == 0,
        r.r0.w@ == x@ + tdiv(width@, 2),
        r.r1.x@ == 0 && r.r1.z@ == 0,
        r.r1.y@ == tdiv(height@, 2),
        r.r1.w@ == y@ + tdiv(height@, 2),
        r.r2.x@ == 0 && r.r2.y@ == 0,
        r.r2.z@ == 32768 && r.r2.w@ == 32768,
        r.r3.x@ == 0 && r.r3.y@ == 0 && r.r3.z@ == 0,
        r.r3.w@ == FX_ONE as int,
    {
    proof {
        lemma_tdiv_mag(width@, 2);
        lemma_tdiv_mag(height@, 2);
    }
    let w2 = width.div_int(2);
    let h2 = height.div_int(2);
    let half = Fx::from_raw(32768);
    let zero = Fx::zero();
    Mat4::from(
        Vec4::from(w2, zero, zero, x.add(w2)),
        Vec4::from(zero, h2, zero, y.add(h2)),
        Vec4::from(zero, zero, half, half),
        Vec4::from(zero, zero, zero, Fx::one()),
    )
}

/// Linear interpolation of two scalars: `a * (1 - t) + b * t` with
/// truncating products.
pub fn lerp_s(a: Fx, b: Fx, t: Fx) -> (r: Fx)
    requires
        -(MAT_LIM as int) <= a@ <= MAT_LIM as int,
        -(MAT_LIM as int) <= b@ <= MAT_LIM as int,
        -(MAT_LIM as int) <= t@ <= MAT_LIM as int,
    ensures
        r@ == fxmul(a@, FX_ONE as int - t@) + fxmul(b@, t@),
{
    let it = Fx::one().sub(t);
    proof {
        lemma_fxmul_bound(a@, it@, MAT_LIM as int, MAT_LIM as int + FX_ONE as int);
        lemma_fxmul_bound(b@, t@, MAT_LIM as int, MAT_LIM as int);
    }
    a.mul(it).add(b.mul(t))
}

/// Linear interpolation of two 3-vectors, component by component.
pub fn lerp(a: &Vec3, b: &Vec3, t: Fx) -> (r: Vec3)
    requires
        v3_lim(*a, MAT_LIM as int),
        v3_lim(*b, MAT_LIM as int),
        -(MAT_LIM as int) <= t@ <= MAT_LIM as int,
    ensures
        r.x@ == fxmul(a.x@, FX_ONE as int - t@) + fxmul(b.x@, t@),
        r.y@ == fxmul(a.y@, FX_ONE as int - t@) + fxmul(b.y@, t@),
        r.z@ == fxmul(a.z@, FX_ONE as int - t@) + fxmul(b.z@, t@),
{
    Vec3::from(lerp_s(a.x, b.x, t), lerp_s(a.y, b.y, t), lerp_s(a.z, b.z, t))
}

/// Weighted sum of three scalars by a barycentric coordinate.
pub fn interpolate_s(bc: &Vec3, a: Fx, b: Fx, c: Fx) -> (r: Fx)
    requires
        v3_lim(*bc, MAT_LIM as int),
        -(MAT_LIM as int) <= a@ <= MAT_LIM as int,
        -(MAT_LIM as int) <= b@ <= MAT_LIM as int,
        -(MAT_LIM as int) <= c@ <= MAT_LIM as int,
    ensures
        r@ == fxmul(a@, bc.x@) + fxmul(b@, bc.y@) + fxmul(c@, bc.z@),
{
    proof {
        lemma_fxmul_bound(a@, bc.x@, MAT_LIM as int, MAT_LIM as int);
        lemma_fxmul_bound(b@, bc.y@, MAT_LIM as int, MAT_LIM as int);
        lemma_fxmul_bound(c@, bc.z@, MAT_LIM as int, MAT_LIM as int);
    }
    a.mul(bc.x).add(b.mul(bc.y)).add(c.mul(bc.z))
}

/// Weighted sum of three 3-vectors by a barycentric coordinate.
pub fn interpolate(bc: &Vec3, a: &Vec3, b: &Vec3, c: &Vec3) -> (r: Vec3)
    requires
        v3_lim(*bc, MAT_LIM as int),
        v3_lim(*a, MAT_LIM as int),
        v3_lim(*b, MAT_LIM as int),
        v3_lim(*c, MAT_LIM as int),
    ensures
        r.x@ == fxmul(a.x@, bc.x@) + fxmul(b.x@, bc.y@) + fxmul(c.x@, bc.z@),
        r.y@ == fxmul(a.y@, bc.x@) + fxmul(b.y@, bc.y@) + fxmul(c.y@, bc.z@),
        r.z@ == fxmul(a.z@, bc.x@) + fxmul(b.z@, bc.y@) + fxmul(c.z@, bc.z@),
{
    Vec3::from(
        interpolate_s(bc, a.x, b.x, c.x),
        interpolate_s(bc, a.y, b.y, c.y),
        interpolate_s(bc, a.z, b.z, c.z),
    )
}

/// Weighted sum of three 4-vectors by a barycentric coordinate.
pub fn interpolate4(bc: &Vec3, a: &Vec4, b: &Vec4, c: &Vec4) -> (r: Vec4)
    requires
        v3_lim(*bc, MAT_LIM as int),
        v4_lim(*a, MAT_LIM as int),
        v4_lim(*b, MAT_LIM as int),
        v4_lim(*c, MAT_LIM as int),
    ensures
        r.x@ == fxmul(a.x@, bc.x@) + fxmul(b.x@, bc.y@) + fxmul(c.x@, bc.z@),
        r.y@ == fxmul(a.y@, bc.x@) + fxmul(b.y@, bc.y@) + fxmul(c.y@, bc.z@),
        r.z@ == fxmul(a.z@, bc.x@) + fxmul(b.z@, bc.y@) + fxmul(c.z@, bc.z@),
        r.w@ == fxmul(a.w@, bc.x@) + fxmul(b.w@, bc.y@) + fxmul(c.w@, bc.z@),
{
    Vec4::from(
        interpolate_s(bc, a.x, b.x, c.x),
        interpolate_s(bc, a.y, b.y, c.y),
        interpolate_s(bc, a.z, b.z, c.z),
        interpolate_s(bc, a.w, b.w, c.w),
    )
}

/// Weighted sum of three scalars by a wide coordinate: the weights may
/// be as large as the fragment-stage bound, the scalars as large as the
/// screen range.
pub fn interpolate_wide(bc: &Vec3, a: Fx, b: Fx, c: Fx) -> (r: Fx)
    requires
        -0x1_0000_0000_0000 <= bc.x@ <= 0x1_0000_0000_0000,
        -0x1_0000_0000_0000 <= bc.y@ <= 0x1_0000_0000_0000,
        -0x1_0000_0000_0000 <= bc.z@ <= 0x1_0000_0000_0000,
        -0x2000_0000 <= a@ <= 0x2000_0000,
        -0x2000_0000 <= b@ <= 0x2000_0000,
        -0x2000_0000 <= c@ <= 0x2000_0000,
    ensures
        r@ == fxmul(a@, bc.x@) + fxmul(b@, bc.y@) + fxmul(c@, bc.z@),
{
    proof {
        lemma_fxmul_bound(a@, bc.x@, 0x2000_0000, 0x1_0000_0000_0000);
        lemma_fxmul_bound(b@, bc.y@, 0x2000_0000, 0x1_0000_0000_0000);
        lemma_fxmul_bound(c@, bc.z@, 0x2000_0000, 0x1_0000_0000_0000);
    }
    a.mul(bc.x).add(b.mul(bc.y)).add(c.mul(bc.z))
}

/// Magnitude limit on screen-space points fed to the barycentric solve
/// and the bounding box: 2^29 raw counts, that is 2^13 units.
pub const BARY_LIM: i64 = 0x2000_0000;

/// The screen point at the center of pixel `(i, j)`.
pub open spec fn pixel_pt(i: int, j: int) -> Vec2 {
    crate::vecn::v2s(i * (FX_ONE as int), j * (FX_ONE as int))
}

/// The two auxiliary vectors the barycentric solve crosses: the x
/// spreads and the y spreads of the triangle edges and the point offset.
pub open spec fn bary_vx(a: Vec2, b: Vec2, c: Vec2, p: Vec2) -> Vec3 {
    v3s(c.x@ - a.x@, b.x@ - a.x@, a.x@ - p.x@)
}

pub open spec fn bary_vy(a: Vec2, b: Vec2, c: Vec2, p: Vec2) -> Vec3 {
    v3s(c.y@ - a.y@, b.y@ - a.y@, a.y@ - p.y@)
}

/// The cross vector the barycentric weights are read from.
pub open spec fn bary_r(a: Vec2, b: Vec2, c: Vec2, p: Vec2) -> Vec3 {
    cross3(bary_vx(a, b, c, p), bary_vy(a, b, c, p))
}

/// The three barycentric weights: one minus the two scaled minors, and
/// the two scaled minors.
pub open spec fn bary_w0(a: Vec2, b: Vec2, c: Vec2, p: Vec2) -> int {
    FX_ONE as int - (bary_w2(a, b, c, p) + bary_w1(a, b, c, p))
}

pub open spec fn bary_w1(a: Vec2, b: Vec2, c: Vec2, p: Vec2) -> int {
    let r = bary_r(a, b, c, p);
    fxdiv(r.y@, r.z@)
}

pub open spec fn bary_w2(a: Vec2, b: Vec2, c: Vec2, p: Vec2) -> int {
    let r = bary_r(a, b, c, p);
    fxdiv(r.x@, r.z@)
}

/// The barycentric coordinate of `p` in the triangle `abc`: `None` when
/// the triangle is degenerate (zero cross pivot) or when `p` lies
/// outside (a negative weight); otherwise the weight triple, whose first
/// weight completes the other two to one.
pub fn barycentric(abc: &[Vec2; 3], p: Vec2) -> (r: Option<Vec3>)
    requires
        v2_lim(abc[0], BARY_LIM as int),
        v2_lim(abc[1], BARY_LIM as int),
        v2_lim(abc[2], BARY_LIM as int),
        v2_lim(p, BARY_LIM as int),
    ensures
        ({
            let rz = bary_r(abc[0], abc[1], abc[2], p).z@;
            let w0 = bary_w0(abc[0], abc[1], abc[2], p);
            let w1 = bary_w1(abc[0], abc[1], abc[2], p);
            let w2 = bary_w2(abc[0], abc[1], abc[2], p);
            match r {
                None => rz == 0 || w0 < 0 || w1 < 0 || w2 < 0,
                Some(v) => {
                    &&& rz != 0
                    &&& w0 >= 0 && w1 >= 0 && w2 >= 0
                    &&& v.x@ == w0 && v.y@ == w1 && v.z@ == w2
                },
            }
        }),
{
    let a = abc[0];
    let b = abc[1];
    let c = abc[2];
    let vx = Vec3::from(c.x.sub(a.x), b.x.sub(a.x), a.x.sub(p.x));
    let vy = Vec3::from(c.y.sub(a.y), b.y.sub(a.y), a.y.sub(p.y));
    proof {
        assert(vx == bary_vx(a, b, c, p));
        assert(vy == bary_vy(a, b, c, p));
        lemma_cross3_bound(vx, vy, 0x4000_0000, 0x4000_0000);
    }
    let cr = vx.cross(vy);
    proof {
        assert(cr == bary_r(a, b, c, p));
    }
    if cr.z.is_zero() {
        return None;
    }
    proof {
        lemma_tdiv_mag(cr.x@ * (FX_ONE as int), cr.z@);
        lemma_tdiv_mag(cr.y@ * (FX_ONE as int), cr.z@);
        lemma_tdiv_mag(cr.z@ * (FX_ONE as int), cr.z@);
    }
    let rd = cr.div_s(cr.z);
    let w = Vec3::from(Fx::one().sub(rd.x.add(rd.y)), rd.y, rd.x);
    if w.x.lt(Fx::zero()) || w.y.lt(Fx::zero()) || w.z.lt(Fx::zero()) {
        None
    } else {
        Some(w)
    }
}

/// The least `x` raw count among the first `n` points, seeded with the
/// largest raw count.
pub open spec fn min_x_upto(s: Seq<Vec2>, n: int) -> int
    decreases n,
{
    if n <= 0 {
        i64::MAX as int
    } else {
        let m = min_x_upto(s, n - 1);
        if s[n - 1].x@ <= m {
            s[n - 1].x@
        } else {
            m
        }
    }
}

pub open spec fn min_y_upto(s: Seq<Vec2>, n: int) -> int
    decreases n,
{
    if n <= 0 {
        i64::MAX as int
    } else {
        let m = min_y_upto(s, n - 1);
        if s[n - 1].y@ <= m {
            s[n - 1].y@
        } else {
            m
        }
    }
}

/// The greatest `x` raw count among the first `n` points, seeded with
/// the smallest raw count.
pub open spec fn max_x_upto(s: Seq<Vec2>, n: int) -> int
    decreases n,
{
    if n <= 0 {
        i64::MIN as int
    } else {
        let m = max_x_upto(s, n - 1);
        if s[n - 1].x@ >= m {
            s[n - 1].x@
        } else {
            m
        }
    }
}

pub open spec fn max_y_upto(s: Seq<Vec2>, n: int) -> int
    decreases n,
{
    if n <= 0 {
        i64::MIN as int
    } else {
        let m = max_y_upto(s, n - 1);
        if s[n - 1].y@ >= m {
            s[n - 1].y@
        } else {
            m
        }
    }
}

/// The Cramer law behind the barycentric solve: over exact integers,
/// the weights read off the cross vector recombine the three vertices
/// into the queried point, scaled by the pivot, and they sum to the
/// pivot, for every triangle and point.
pub proof fn lemma_bary_recombines(
    ax: int, ay: int, bx: int, by: int, cx: int, cy: int, px: int, py: int,
)
    ensures
        ({
            let rx = (bx - ax) * (ay - py) - (ax - px) * (by - ay);
            let ry = (ax - px) * (cy - ay) - (cx - ax) * (ay - py);
            let rz = (cx - ax) * (by - ay) - (bx - ax) * (cy - ay);
            &&& (rz - rx - ry) + ry + rx == rz
            &&& (rz - rx - ry) * ax + ry * bx + rx * cx == rz * px
            &&& (rz - rx - ry) * ay + ry * by + rx * cy == rz * py
        }),
{
    let rx = (bx - ax) * (ay - py) - (ax - px) * (by - ay);
    let ry = (ax - px) * (cy - ay) - (cx - ax) * (ay - py);
    let rz = (cx - ax) * (by - ay) - (bx - ax) * (cy - ay);
    lemma_cross_cancel_x(bx - ax, by - ay, cx - ax, cy - ay, ax - px, ay - py);
    lemma_bary_comb(ax, bx, cx, px, rx, ry, rz);
    lemma_cross_cancel_y(bx - ax, by - ay, cx - ax, cy - ay, ax - px, ay - py);
    lemma_bary_comb(ay, by, cy, py, rx, ry, rz);
}

/// The three pairwise cross minors of three planar vectors, weighted by
/// the vectors' first components, cancel.
proof fn lemma_cross_cancel_x(u1: int, u2: int, v1: int, v2: int, w1: int, w2: int)
    ensures
        (v1 * u2 - u1 * v2) * w1 + (u1 * w2 - w1 * u2) * v1 + (w1 * v2 - v1 * w2) * u1 == 0,
{
    vstd::arithmetic::mul::lemma_mul_is_distributive_sub_other_way(w1, v1 * u2, u1 * v2);
    vstd::arithmetic::mul::lemma_mul_is_distributive_sub_other_way(v1, u1 * w2, w1 * u2);
    vstd::arithmetic::mul::lemma_mul_is_distributive_sub_other_way(u1, w1 * v2, v1 * w2);
    assert((v1 * u2) * w1 == (w1 * u2) * v1) by (nonlinear_arith);
    assert((u1 * v2) * w1 == (w1 * v2) * u1) by (nonlinear_arith);
    assert((u1 * w2) * v1 == (v1 * w2) * u1) by (nonlinear_arith);
}

/// The same cancellation weighted by the second components.
proof fn lemma_cross_cancel_y(u1: int, u2: int, v1: int, v2: int, w1: int, w2: int)
    ensures
        (v1 * u2 - u1 * v2) * w2 + (u1 * w2 - w1 * u2) * v2 + (w1 * v2 - v1 * w2) * u2 == 0,
{
    vstd::arithmetic::mul::lemma_mul_is_distributive_sub_other_way(w2, v1 * u2, u1 * v2);
    vstd::arithmetic::mul::lemma_mul_is_distributive_sub_other_way(v2, u1 * w2, w1 * u2);
    vstd::arithmetic::mul::lemma_mul_is_distributive_sub_other_way(u2, w1 * v2, v1 * w2);
    assert((v1 * u2) * w2 == (v1 * w2) * u2) by (nonlinear_arith);
    assert((u1 * v2) * w2 == (u1 * w2) * v2) by (nonlinear_arith);
    assert((w1 * u2) * v2 == (w1 * v2) * u2) by (nonlinear_arith);
}

/// Rearranging the cancelled combination into the recombination form.
proof fn lemma_bary_comb(a: int, b: int, c: int, p: int, rx: int, ry: int, rz: int)
    requires
        rz * (a - p) + rx * (c - a) + ry * (b - a) == 0,
    ensures
        (rz - rx - ry) * a + ry * b + rx * c == rz * p,
{
    vstd::arithmetic::mul::lemma_mul_is_distributive_sub(rz, a, p);
    vstd::arithmetic::mul::lemma_mul_is_distributive_sub(rx, c, a);
    vstd::arithmetic::mul::lemma_mul_is_distributive_sub(ry, b, a);
    vstd::arithmetic::mul::lemma_mul_is_distributive_sub_other_way(a, rz - rx, ry);
    vstd::arithmetic::mul::lemma_mul_is_distributive_sub_other_way(a, rz, rx);
}

/// One coordinate of the truncated recombination: with the exact
/// Cramer identity in hand and each truncated cross value within two
/// units of its exact minor, recombining the vertex coordinates by the
/// truncated weights lands near the queried coordinate. The error,
/// scaled by one unit times the pivot to stay in integers, is below
/// `(3 * FX_ONE + 4 * lim) * |pivot| + 12 * FX_ONE * lim`.
proof fn lemma_recombine_err(
    va: int,
    vb: int,
    vc: int,
    vp: int,
    mx: int,
    my: int,
    mz: int,
    rxv: int,
    ryv: int,
    rzv: int,
    lim: int,
)
    requires
        0 < lim,
        -lim <= va <= lim,
        -lim <= vb <= lim,
        -lim <= vc <= lim,
        -lim <= vp <= lim,
        (mz - mx - my) * va + my * vb + mx * vc == mz * vp,
        -2 * (FX_ONE as int) < (FX_ONE as int) * rxv - mx < 2 * (FX_ONE as int),
        -2 * (FX_ONE as int) < (FX_ONE as int) * ryv - my < 2 * (FX_ONE as int),
        -2 * (FX_ONE as int) < (FX_ONE as int) * rzv - mz < 2 * (FX_ONE as int),
        rzv != 0,
    ensures
        ({
            let k = FX_ONE as int;
            let w1 = tdiv(ryv * k, rzv);
            let w2 = tdiv(rxv * k, rzv);
            let w0 = k - w1 - w2;
            let q = tdiv(va * w0, k) + tdiv(vb * w1, k) + tdiv(vc * w2, k);
            let bnd = (3 * k + 4 * lim) * sabs(rzv) + 12 * k * lim;
            -bnd < (q - vp) * (k * rzv) < bnd
        }),
{
    let k = FX_ONE as int;
    let az = sabs(rzv);
    let w1 = tdiv(ryv * k, rzv);
    let w2 = tdiv(rxv * k, rzv);
    let w0 = k - w1 - w2;
    lemma_tdiv_rem(ryv * k, rzv);
    lemma_tdiv_rem(rxv * k, rzv);
    let rho1 = ryv * k - w1 * rzv;
    let rho2 = rxv * k - w2 * rzv;
    assert(-az < rho1 < az && -az < rho2 < az) by (nonlinear_arith)
        requires
            rho1 * rho1 < rzv * rzv,
            rho2 * rho2 < rzv * rzv,
            az == sabs(rzv) && (az == rzv || az == -rzv) && az >= 1,
    ;
    let s = va * w0 + vb * w1 + vc * w2;
    let sigx = mx - k * rxv;
    let sigy = my - k * ryv;
    let sigz = mz - k * rzv;
    let u1 = w1 * rzv;
    let u2 = w2 * rzv;
    assert(s * rzv == (va * (k - w1 - w2)) * rzv + (vb * w1) * rzv + (vc * w2) * rzv)
        by (nonlinear_arith)
        requires
            s == va * (k - w1 - w2) + vb * w1 + vc * w2,
    ;
    assert((va * (k - w1 - w2)) * rzv == va * k * rzv - va * u1 - va * u2) by (nonlinear_arith)
        requires
            u1 == w1 * rzv,
            u2 == w2 * rzv,
    ;
    assert((vb * w1) * rzv == vb * u1) by (nonlinear_arith)
        requires
            u1 == w1 * rzv,
    ;
    assert((vc * w2) * rzv == vc * u2) by (nonlinear_arith)
        requires
            u2 == w2 * rzv,
    ;
    assert(u1 == my - sigy - rho1);
    assert(u2 == mx - sigx - rho2);
    assert(vb * u1 - va * u1 == my * (vb - va) - sigy * (vb - va) - rho1 * (vb - va))
        by (nonlinear_arith)
        requires
            u1 == my - sigy - rho1,
    ;
    assert(vc * u2 - va * u2 == mx * (vc - va) - sigx * (vc - va) - rho2 * (vc - va))
        by (nonlinear_arith)
        requires
            u2 == mx - sigx - rho2,
    ;
    assert(my * (vb - va) + mx * (vc - va) == mz * (vp - va)) by (nonlinear_arith)
        requires
            (mz - mx - my) * va + my * vb + mx * vc == mz * vp,
    ;
    assert(mz * (vp - va) == (k * rzv) * (vp - va) + sigz * (vp - va)) by (nonlinear_arith)
        requires
            mz == k * rzv + sigz,
    ;
    assert(va * k * rzv + (k * rzv) * (vp - va) == k * rzv * vp) by (nonlinear_arith);
    assert(s * rzv == k * rzv * vp + sigz * (vp - va) - sigy * (vb - va) - sigx * (vc - va) - rho1
        * (vb - va) - rho2 * (vc - va));
    assert(-(4 * k * lim) < sigz * (vp - va) < 4 * k * lim) by (nonlinear_arith)
        requires
            -2 * k < sigz < 2 * k,
            -(2 * lim) <= vp - va <= 2 * lim,
            k == 65536,
            0 < lim,
    ;
    assert(-(4 * k * lim) < sigy * (vb - va) < 4 * k * lim) by (nonlinear_arith)
        requires
            -2 * k < sigy < 2 * k,
            -(2 * lim) <= vb - va <= 2 * lim,
            k == 65536,
            0 < lim,
    ;
    assert(-(4 * k * lim) < sigx * (vc - va) < 4 * k * lim) by (nonlinear_arith)
        requires
            -2 * k < sigx < 2 * k,
            -(2 * lim) <= vc - va <= 2 * lim,
            k == 65536,
            0 < lim,
    ;
    assert(-(2 * lim * az) < rho1 * (vb - va) < 2 * lim * az) by (nonlinear_arith)
        requires
            -az < rho1 < az,
            -(2 * lim) <= vb - va <= 2 * lim,
            az >= 1,
            0 < lim,
    ;
    assert(-(2 * lim * az) < rho2 * (vc - va) < 2 * lim * az) by (nonlinear_arith)
        requires
            -az < rho2 < az,
            -(2 * lim) <= vc - va <= 2 * lim,
            az >= 1,
            0 < lim,
    ;
    assert(-(4 * lim * az + 12 * k * lim) < s * rzv - k * rzv * vp < 4 * lim * az + 12 * k * lim)
        by (nonlinear_arith)
        requires
            s * rzv == k * rzv * vp + sigz * (vp - va) - sigy * (vb - va) - sigx * (vc - va)
                - rho1 * (vb - va) - rho2 * (vc - va),
            -(4 * k * lim) < sigz * (vp - va) < 4 * k * lim,
            -(4 * k * lim) < sigy * (vb - va) < 4 * k * lim,
            -(4 * k * lim) < sigx * (vc - va) < 4 * k * lim,
            -(2 * lim * az) < rho1 * (vb - va) < 2 * lim * az,
            -(2 * lim * az) < rho2 * (vc - va) < 2 * lim * az,
    ;
    lemma_tdiv_rem(va * w0, k);
    lemma_tdiv_rem(vb * w1, k);
    lemma_tdiv_rem(vc * w2, k);
    let t0 = va * w0 - tdiv(va * w0, k) * k;
    let t1 = vb * w1 - tdiv(vb * w1, k) * k;
    let t2 = vc * w2 - tdiv(vc * w2, k) * k;
    assert(-k < t0 < k && -k < t1 < k && -k < t2 < k) by (nonlinear_arith)
        requires
            t0 * t0 < k * k,
            t1 * t1 < k * k,
            t2 * t2 < k * k,
            k == 65536,
    ;
    let q = tdiv(va * w0, k) + tdiv(vb * w1, k) + tdiv(vc * w2, k);
    assert(q * k == s - t0 - t1 - t2);
    assert((q - vp) * (k * rzv) == (s * rzv - k * rzv * vp) - (t0 + t1 + t2) * rzv)
        by (nonlinear_arith)
        requires
            q * k == s - t0 - t1 - t2,
    ;
    assert(-(3 * k * az) < (t0 + t1 + t2) * rzv < 3 * k * az) by (nonlinear_arith)
        requires
            -k < t0 < k,
            -k < t1 < k,
            -k < t2 < k,
            az == rzv || az == -rzv,
            az >= 1,
            rzv != 0,
            k == 65536,
    ;
    assert(-((3 * k + 4 * lim) * az + 12 * k * lim) < (q - vp) * (k * rzv) < (3 * k + 4 * lim)
        * az + 12 * k * lim) by (nonlinear_arith)
        requires
            (q - vp) * (k * rzv) == (s * rzv - k * rzv * vp) - (t0 + t1 + t2) * rzv,
            -(4 * lim * az + 12 * k * lim) < s * rzv - k * rzv * vp < 4 * lim * az + 12 * k
                * lim,
            -(3 * k * az) < (t0 + t1 + t2) * rzv < 3 * k * az,
            az >= 1,
            0 < lim,
            k == 65536,
    ;
}

/// Law: interpolation inverts the barycentric solve. For a
/// non-degenerate triangle and any point, all with coordinates within
/// `lim`, recombining the vertices by the point's barycentric weights
/// lands back on the point, coordinate by coordinate, up to the
/// truncation error: scaled by one unit times the pivot to stay in
/// integers, the miss is below `(3 * FX_ONE + 4 * lim) * |pivot| +
/// 12 * FX_ONE * lim`, so a pixel-sized triangle recovers its interior
/// points to a few raw steps and the error only grows as the triangle
/// degenerates toward a zero pivot.
pub proof fn lemma_bary_round_trip(a: Vec2, b: Vec2, c: Vec2, p: Vec2, lim: int)
    requires
        0 < lim <= BARY_LIM as int,
        v2_lim(a, lim),
        v2_lim(b, lim),
        v2_lim(c, lim),
        v2_lim(p, lim),
        bary_r(a, b, c, p).z@ != 0,
    ensures
        ({
            let k = FX_ONE as int;
            let rz = bary_r(a, b, c, p).z@;
            let w0 = bary_w0(a, b, c, p);
            let w1 = bary_w1(a, b, c, p);
            let w2 = bary_w2(a, b, c, p);
            let qx = fxmul(a.x@, w0) + fxmul(b.x@, w1) + fxmul(c.x@, w2);
            let qy = fxmul(a.y@, w0) + fxmul(b.y@, w1) + fxmul(c.y@, w2);
            let bnd = (3 * k + 4 * lim) * sabs(rz) + 12 * k * lim;
            &&& -bnd < (qx - p.x@) * (k * rz) < bnd
            &&& -bnd < (qy - p.y@) * (k * rz) < bnd
        }),
{
    let k = FX_ONE as int;
    let ax = a.x@;
    let ay = a.y@;
    let bx = b.x@;
    let by = b.y@;
    let cx = c.x@;
    let cy = c.y@;
    let px = p.x@;
    let py = p.y@;
    lemma_bary_recombines(ax, ay, bx, by, cx, cy, px, py);
    let mx = (bx - ax) * (ay - py) - (ax - px) * (by - ay);
    let my = (ax - px) * (cy - ay) - (cx - ax) * (ay - py);
    let mz = (cx - ax) * (by - ay) - (bx - ax) * (cy - ay);
    let vx = bary_vx(a, b, c, p);
    let vy = bary_vy(a, b, c, p);
    assert(vx.x@ == cx - ax && vx.y@ == bx - ax && vx.z@ == ax - px);
    assert(vy.x@ == cy - ay && vy.y@ == by - ay && vy.z@ == ay - py);
    lemma_fxmul_bound(vx.y@, vy.z@, 2 * lim, 2 * lim);
    lemma_fxmul_bound(vx.z@, vy.y@, 2 * lim, 2 * lim);
    lemma_fxmul_bound(vx.z@, vy.x@, 2 * lim, 2 * lim);
    lemma_fxmul_bound(vx.x@, vy.z@, 2 * lim, 2 * lim);
    lemma_fxmul_bound(vx.x@, vy.y@, 2 * lim, 2 * lim);
    lemma_fxmul_bound(vx.y@, vy.x@, 2 * lim, 2 * lim);
    assert((2 * lim) * (2 * lim) / (FX_ONE as int) <= 0x1_0000_0000_0000) by (nonlinear_arith)
        requires
            0 < lim <= 0x2000_0000,
    ;
    let r = bary_r(a, b, c, p);
    assert(r.x@ == cross_x(vx, vy) && r.y@ == cross_y(vx, vy) && r.z@ == cross_z(vx, vy));
    let rxv = r.x@;
    let ryv = r.y@;
    let rzv = r.z@;
    lemma_tdiv_rem(vx.y@ * vy.z@, k);
    lemma_tdiv_rem(vx.z@ * vy.y@, k);
    lemma_tdiv_rem(vx.z@ * vy.x@, k);
    lemma_tdiv_rem(vx.x@ * vy.z@, k);
    lemma_tdiv_rem(vx.x@ * vy.y@, k);
    lemma_tdiv_rem(vx.y@ * vy.x@, k);
    let s1 = vx.y@ * vy.z@ - fxmul(vx.y@, vy.z@) * k;
    let s2 = vx.z@ * vy.y@ - fxmul(vx.z@, vy.y@) * k;
    let s3 = vx.z@ * vy.x@ - fxmul(vx.z@, vy.x@) * k;
    let s4 = vx.x@ * vy.z@ - fxmul(vx.x@, vy.z@) * k;
    let s5 = vx.x@ * vy.y@ - fxmul(vx.x@, vy.y@) * k;
    let s6 = vx.y@ * vy.x@ - fxmul(vx.y@, vy.x@) * k;
    assert(-k < s1 < k && -k < s2 < k && -k < s3 < k && -k < s4 < k && -k < s5 < k && -k < s6
        < k) by (nonlinear_arith)
        requires
            s1 * s1 < k * k,
            s2 * s2 < k * k,
            s3 * s3 < k * k,
            s4 * s4 < k * k,
            s5 * s5 < k * k,
            s6 * s6 < k * k,
            k == 65536,
    ;
    assert(k * rxv - mx == -(s1 - s2) && -2 * k < k * rxv - mx < 2 * k);
    assert(k * ryv - my == -(s3 - s4) && -2 * k < k * ryv - my < 2 * k);
    assert(k * rzv - mz == -(s5 - s6) && -2 * k < k * rzv - mz < 2 * k);
    lemma_recombine_err(ax, bx, cx, px, mx, my, mz, rxv, ryv, rzv, lim);
    lemma_recombine_err(ay, by, cy, py, mx, my, mz, rxv, ryv, rzv, lim);
}

/// Every point of the set lies between the running extrema, so the
/// expanded box of `bound_box` contains each point with a full unit to
/// spare on every side; truncating the box corners to integer pixels
/// therefore cannot drop a covered point, which is what closes the seam
/// between triangles sharing an edge.
pub proof fn lemma_box_contains(s: Seq<Vec2>, n: int, i: int)
    requires
        0 <= i < n,
        n <= s.len(),
    ensures
        min_x_upto(s, n) <= s[i].x@,
        min_y_upto(s, n) <= s[i].y@,
        max_x_upto(s, n) >= s[i].x@,
        max_y_upto(s, n) >= s[i].y@,
    decreases n,
{
    if i < n - 1 {
        lemma_box_contains(s, n - 1, i);
    }
}

/// The axis-aligned bounding box of a point set, expanded by one unit
/// on every side past the true extrema, so that truncation to integer
/// pixel coordinates cannot drop a covered pixel.
pub fn bound_box(points: &[Vec2]) -> (r: (Vec2, Vec2))
    requires
        forall|i: int| 0 <= i < points@.len() ==> v2_lim(#[trigger] points@[i], BARY_LIM as int),
    ensures
        r.0.x@ == min_x_upto(points@, points@.len() as int) - (FX_ONE as int),
        r.0.y@ == min_y_upto(points@, points@.len() as int) - (FX_ONE as int),
        r.1.x@ == max_x_upto(points@, points@.len() as int) + (FX_ONE as int),
        r.1.y@ == max_y_upto(points@, points@.len() as int) + (FX_ONE as int),
        points@.len() > 0 ==> {
            &&& r.1.x@ <= BARY_LIM as int + FX_ONE as int
            &&& r.1.y@ <= BARY_LIM as int + FX_ONE as int
            &&& r.0.x@ >= -(BARY_LIM as int) - (FX_ONE as int)
            &&& r.0.y@ >= -(BARY_LIM as int) - (FX_ONE as int)
        },
{
    let mut lb = Vec2::fill(Fx::from_raw(i64::MAX));
    let mut rt = Vec2::fill(Fx::from_raw(i64::MIN));
    let mut i: usize = 0;
    while i < points.len()
        invariant
            0 <= i <= points@.len(),
            forall|j: int| 0 <= j < points@.len() ==> v2_lim(#[trigger] points@[j], BARY_LIM as int),
            lb.x@ == min_x_upto(points@, i as int),
            lb.y@ == min_y_upto(points@, i as int),
            rt.x@ == max_x_upto(points@, i as int),
            rt.y@ == max_y_upto(points@, i as int),
            i > 0 ==> -(BARY_LIM as int) <= lb.x@ <= BARY_LIM as int,
            i > 0 ==> -(BARY_LIM as int) <= lb.y@ <= BARY_LIM as int,
            i > 0 ==> -(BARY_LIM as int) <= rt.x@ <= BARY_LIM as int,
            i > 0 ==> -(BARY_LIM as int) <= rt.y@ <= BARY_LIM as int,
        decreases points@.len() - i,
    {
        let p = points[i];
        lb.x = lb.x.min(p.x);
        lb.y = lb.y.min(p.y);
        rt.x = rt.x.max(p.x);
        rt.y = rt.y.max(p.y);
        i = i + 1;
    }
    let one = Fx::one();
    (lb.sub_s(one), rt.add_s(one))
}

/// The mirror direction: `i - n * (i . n) * 2`, products truncated.
pub fn reflect(i: &Vec3, n: &Vec3) -> (r: Vec3)
    requires
        v3_lim(*i, 0x100_0000),
        v3_lim(*n, 0x100_0000),
    ensures
        ({
            let d = dot3(*i, *n);
            &&& r.x@ == i.x@ - fxmul(fxmul(n.x@, d), 2 * (FX_ONE as int))
            &&& r.y@ == i.y@ - fxmul(fxmul(n.y@, d), 2 * (FX_ONE as int))
            &&& r.z@ == i.z@ - fxmul(fxmul(n.z@, d), 2 * (FX_ONE as int))
        }),
{
    proof {
        lemma_dot3_bound(*i, *n, 0x100_0000, 0x100_0000);
    }
    let d = i.dot(*n);
    proof {
        lemma_fxmul_bound(n.x@, d@, 0x100_0000, 0xC_0000_0000);
        lemma_fxmul_bound(n.y@, d@, 0x100_0000, 0xC_0000_0000);
        lemma_fxmul_bound(n.z@, d@, 0x100_0000, 0xC_0000_0000);
        lemma_fxmul_bound(fxmul(n.x@, d@), 2 * (FX_ONE as int), 0xC00_0000_0000, 0x2_0000);
        lemma_fxmul_bound(fxmul(n.y@, d@), 2 * (FX_ONE as int), 0xC00_0000_0000, 0x2_0000);
        lemma_fxmul_bound(fxmul(n.z@, d@), 2 * (FX_ONE as int), 0xC00_0000_0000, 0x2_0000);
    }
    let two = Fx::from_int(2);
    let t = n.mul_s(d).mul_s(two);
    i.sub(t)
}

/// The refracted direction: `None` of this formula is the zero vector,
/// which signals total internal reflection.
pub fn refract(i: &Vec3, n: &Vec3, ior: Fx) -> (r: Vec3)
    requires
        v3_lim(*i, 0x100_0000),
        v3_lim(*n, 0x100_0000),
        ior@ != 0,
        -0x1_0000_0000 <= ior@ <= 0x1_0000_0000,
    ensures
        ({
            let d0 = dot3(*i, *n);
            let ci0 = if d0 < -(FX_ONE as int) {
                -(FX_ONE as int)
            } else if d0 > FX_ONE as int {
                FX_ONE as int
            } else {
                d0
            };
            let entering = ci0 < 0;
            let ci = if entering { -ci0 } else { ci0 };
            let eta = if entering { fxdiv(FX_ONE as int, ior@) } else { ior@ };
            let nx = if entering { n.x@ } else { -n.x@ };
            let ny = if entering { n.y@ } else { -n.y@ };
            let nz = if entering { n.z@ } else { -n.z@ };
            let k = FX_ONE as int - fxmul(fxmul(eta, eta), FX_ONE as int - fxmul(ci, ci));
            if k < 0 {
                r.x@ == 0 && r.y@ == 0 && r.z@ == 0
            } else {
                let s = isqrt(k * (FX_ONE as int));
                let t = fxmul(eta, ci) - s;
                &&& r.x@ == fxmul(i.x@, eta) + fxmul(nx, t)
                &&& r.y@ == fxmul(i.y@, eta) + fxmul(ny, t)
                &&& r.z@ == fxmul(i.z@, eta) + fxmul(nz, t)
            }
        }),
{
    proof {
        lemma_dot3_bound(*i, *n, 0x100_0000, 0x100_0000);
    }
    let one = Fx::one();
    let d = i.dot(*n);
    let cosi0 = d.clamp(one.neg(), one);
    proof {
        lemma_tdiv_mag((FX_ONE as int) * (FX_ONE as int), ior@);
    }
    let (cosi, nn, eta) = if cosi0.lt(Fx::zero()) {
        (cosi0.neg(), *n, one.div(ior))
    } else {
        (cosi0, n.neg(), ior)
    };
    proof {
        lemma_fxmul_bound(eta@, eta@, 0x1_0000_0000, 0x1_0000_0000);
        lemma_fxmul_bound(cosi@, cosi@, 0x1_0000, 0x1_0000);
        lemma_fxmul_bound(fxmul(eta@, eta@), FX_ONE as int - fxmul(cosi@, cosi@),
            0x1_0000_0000_0000, 0x2_0000);
    }
    let e2 = eta.mul(eta);
    let c2 = cosi.mul(cosi);
    let kk = one.sub(e2.mul(one.sub(c2)));
    if kk.lt(Fx::zero()) {
        Vec3::fill(Fx::zero())
    } else {
        let s = kk.sqrt();
        proof {
            assert(s@ <= 0x4_0000_0000) by (nonlinear_arith)
                requires
                    0 <= s@,
                    s@ * s@ <= kk@ * (FX_ONE as int),
                    kk@ <= 0x4_0000_0000_0000,
            ;
            lemma_fxmul_bound(eta@, cosi@, 0x1_0000_0000, 0x1_0000);
            lemma_fxmul_bound(i.x@, eta@, 0x100_0000, 0x1_0000_0000);
            lemma_fxmul_bound(i.y@, eta@, 0x100_0000, 0x1_0000_0000);
            lemma_fxmul_bound(i.z@, eta@, 0x100_0000, 0x1_0000_0000);
        }
        let t = eta.mul(cosi).sub(s);
        proof {
            lemma_fxmul_bound(nn.x@, t@, 0x100_0000, 0x5_0000_0000);
            lemma_fxmul_bound(nn.y@, t@, 0x100_0000, 0x5_0000_0000);
            lemma_fxmul_bound(nn.z@, t@, 0x100_0000, 0x5_0000_0000);
        }
        i.mul_s(eta).add(nn.mul_s(t))
    }
}

/// Magnitude limit on quadratic coefficients: 2^28 raw counts.
pub const SOLVE_LIM: i64 = 0x1000_0000;

/// The discriminant `b*b - 4*a*c`, products truncated left to right.
pub open spec fn quad_discr(a: int, b: int, c: int) -> int {
    fxmul(b, b) - fxmul(fxmul(4 * (FX_ONE as int), a), c)
}

/// The roots the stable quadratic solve produces: `None` for a zero
/// leading coefficient, a negative discriminant or a vanishing
/// intermediate `q`; otherwise the two roots in order.
pub open spec fn quad_sol(a: int, b: int, c: int) -> Option<(int, int)> {
    let discr = quad_discr(a, b, c);
    if a == 0 {
        None
    } else if discr < 0 {
        None
    } else if discr == 0 {
        let x = fxdiv(tdiv(-b, 2), a);
        Some((x, x))
    } else {
        let s = isqrt(discr * (FX_ONE as int));
        let q = if b > 0 {
            tdiv(-(b + s), 2)
        } else {
            tdiv(-(b - s), 2)
        };
        if q == 0 {
            None
        } else {
            let x0 = fxdiv(q, a);
            let x1 = fxdiv(c, q);
            if x0 < x1 {
                Some((x0, x1))
            } else {
                Some((x1, x0))
            }
        }
    }
}

/// Solves `a*x*x + b*x + c == 0`, branching on the sign of `b` to avoid
/// cancellation; the roots come out in order.
pub fn solve_quadratic(a: Fx, b: Fx, c: Fx) -> (r: Option<(Fx, Fx)>)
    requires
        -(SOLVE_LIM as int) <= a@ <= SOLVE_LIM as int,
        -(SOLVE_LIM as int) <= b@ <= SOLVE_LIM as int,
        -(SOLVE_LIM as int) <= c@ <= SOLVE_LIM as int,
    ensures
        ({
            match (r, quad_sol(a@, b@, c@)) {
                (None, None) => true,
                (Some(p), Some(q)) => p.0@ == q.0 && p.1@ == q.1 && p.0@ <= p.1@,
                _ => false,
            }
        }),
{
    if a.is_zero() {
        return None;
    }
    proof {
        lemma_fxmul_bound(b@, b@, SOLVE_LIM as int, SOLVE_LIM as int);
        lemma_fxmul_bound(4 * (FX_ONE as int), a@, 0x4_0000, SOLVE_LIM as int);
        lemma_fxmul_bound(fxmul(4 * (FX_ONE as int), a@), c@, 0x4000_0000, SOLVE_LIM as int);
    }
    let four = Fx::from_int(4);
    let discr = b.mul(b).sub(four.mul(a).mul(c));
    if discr.lt(Fx::zero()) {
        return None;
    }
    if discr.is_zero() {
        proof {
            lemma_tdiv_mag(-b@, 2);
            lemma_tdiv_mag(tdiv(-b@, 2) * (FX_ONE as int), a@);
        }
        let x = b.neg().div_int(2).div(a);
        return Some((x, x));
    }
    let s = discr.sqrt();
    proof {
        assert(s@ <= 0x4000_0000) by (nonlinear_arith)
            requires
                0 <= s@,
                s@ * s@ <= discr@ * (FX_ONE as int),
                discr@ <= 0x800_0000_0000,
        ;
        lemma_tdiv_mag(-(b@ + s@), 2);
        lemma_tdiv_mag(-(b@ - s@), 2);
    }
    let q = if Fx::zero().lt(b) {
        b.add(s).neg().div_int(2)
    } else {
        b.sub(s).neg().div_int(2)
    };
    if q.is_zero() {
        return None;
    }
    proof {
        lemma_tdiv_mag(q@ * (FX_ONE as int), a@);
        lemma_tdiv_mag(c@ * (FX_ONE as int), q@);
    }
    let x0 = q.div(a);
    let x1 = c.div(q);
    if x0.lt(x1) {
        Some((x0, x1))
    } else {
        Some((x1, x0))
    }
}

/// Magnitude limit on ray and solid coordinates fed to the intersection
/// helpers: 2^20 raw counts, that is 16 units.
pub const RAY_LIM: i64 = 0x10_0000;

/// The nearest nonnegative ray parameter at which the ray from `ori`
/// along `dir` meets the sphere, through the stable quadratic solve.
pub fn intersect_sphere(center: &Vec3, radius: Fx, ori: &Vec3, dir: &Vec3) -> (r: Option<Fx>)
    requires
        v3_lim(*center, RAY_LIM as int),
        v3_lim(*ori, RAY_LIM as int),
        v3_lim(*dir, RAY_LIM as int),
        -(RAY_LIM as int) <= radius@ <= RAY_LIM as int,
    ensures
        ({
            let l = sub3(*ori, *center);
            let qa = dot3(*dir, *dir);
            let qb = fxmul(dot3(*dir, l), 2 * (FX_ONE as int));
            let qc = dot3(l, l) - fxmul(radius@, radius@);
            match (r, quad_sol(qa, qb, qc)) {
                (None, None) => true,
                (None, Some(p)) => p.0 < 0 && p.1 < 0,
                (Some(t), Some(p)) => if p.0 >= 0 {
                    t@ == p.0
                } else {
                    p.1 >= 0 && t@ == p.1
                },
                (Some(_), None) => false,
            }
        }),
{
    let l = (*ori).sub(*center);
    proof {
        assert(l == sub3(*ori, *center));
        lemma_dot3_bound(*dir, *dir, RAY_LIM as int, RAY_LIM as int);
        lemma_dot3_bound(*dir, l, RAY_LIM as int, 0x20_0000);
        lemma_dot3_bound(l, l, 0x20_0000, 0x20_0000);
        lemma_fxmul_bound(radius@, radius@, RAY_LIM as int, RAY_LIM as int);
    }
    let qa = dir.dot(*dir);
    let db = dir.dot(l);
    proof {
        lemma_fxmul_bound(db@, 2 * (FX_ONE as int), 0x600_0000, 0x2_0000);
    }
    let two = Fx::from_int(2);
    let qb = db.mul(two);
    let qc = l.dot(l).sub(radius.mul(radius));
    match solve_quadratic(qa, qb, qc) {
        Some((x0, x1)) => {
            if Fx::zero().le(x0) {
                Some(x0)
            } else if Fx::zero().le(x1) {
                Some(x1)
            } else {
                None
            }
        },
        None => None,
    }
}

/// The ray parameter and barycentric coordinate at which the ray meets
/// the triangle, by the cross-and-dot solve of the triangle's edge
/// system; `None` for a parallel ray, a vanishing pivot, or a hit
/// outside the triangle.
pub fn intersect_triangle(abc: &[Vec3; 3], ori: &Vec3, dir: &Vec3) -> (r: Option<(Fx, Vec3)>)
    requires
        v3_lim(abc[0], RAY_LIM as int),
        v3_lim(abc[1], RAY_LIM as int),
        v3_lim(abc[2], RAY_LIM as int),
        v3_lim(*ori, RAY_LIM as int),
        v3_lim(*dir, RAY_LIM as int),
    ensures
        ({
            let e1 = sub3(abc[1], abc[0]);
            let e2 = sub3(abc[2], abc[0]);
            let s0 = sub3(*ori, abc[0]);
            let s1 = cross3(*dir, e2);
            let s2 = cross3(s0, e1);
            let den = dot3(s1, e1);
            let t = fxdiv(dot3(s2, e2), den);
            let u = fxdiv(dot3(s1, s0), den);
            let v = fxdiv(dot3(s2, *dir), den);
            match r {
                None => den == 0 || t < 0 || u < 0 || v < 0 || u + v > FX_ONE as int,
                Some(p) => {
                    &&& den != 0
                    &&& t >= 0 && u >= 0 && v >= 0 && u + v <= FX_ONE as int
                    &&& p.0@ == t
                    &&& p.1.x@ == FX_ONE as int - u - v
                    &&& p.1.y@ == u
                    &&& p.1.z@ == v
                },
            }
        }),
{
    let a = abc[0];
    let b = abc[1];
    let c = abc[2];
    let e1 = b.sub(a);
    let e2 = c.sub(a);
    let s0 = (*ori).sub(a);
    proof {
        assert(e1 == sub3(abc[1], abc[0]));
        assert(e2 == sub3(abc[2], abc[0]));
        assert(s0 == sub3(*ori, abc[0]));
        lemma_cross3_bound(*dir, e2, RAY_LIM as int, 0x20_0000);
        lemma_cross3_bound(s0, e1, 0x20_0000, 0x20_0000);
    }
    let s1 = dir.cross(e2);
    let s2 = s0.cross(e1);
    proof {
        assert(s1 == cross3(*dir, e2));
        assert(s2 == cross3(s0, e1));
        lemma_dot3_bound(s1, e1, 0x400_0000, 0x20_0000);
        lemma_dot3_bound(s2, e2, 0x800_0000, 0x20_0000);
        lemma_dot3_bound(s1, s0, 0x400_0000, 0x20_0000);
        lemma_dot3_bound(s2, *dir, 0x800_0000, RAY_LIM as int);
    }
    let den = s1.dot(e1);
    if den.is_zero() {
        return None;
    }
    proof {
        lemma_tdiv_mag(dot3(s2, e2) * (FX_ONE as int), den@);
        lemma_tdiv_mag(dot3(s1, s0) * (FX_ONE as int), den@);
        lemma_tdiv_mag(dot3(s2, *dir) * (FX_ONE as int), den@);
    }
    let sv = Vec3::from(s2.dot(e2), s1.dot(s0), s2.dot(*dir)).div_s(den);
    let t = sv.x;
    let u = sv.y;
    let v = sv.z;
    let zero = Fx::zero();
    let one = Fx::one();
    if zero.le(t) && zero.le(u) && zero.le(v) && u.add(v).le(one) {
        Some((t, Vec3::from(one.sub(u).sub(v), u, v)))
    } else {
        None
    }
}

} // verus!
