//! The rasterizer: color and depth buffers, the direct line and
//! triangle draws, and the depth test.
//!
//! The buffers are dense row-major arrays of `width * height` entries.
//! Out-of-range pixel coordinates are silently dropped, which is the
//! pipeline's implicit clipping. The depth test and the color write
//! carry exact contracts; the draw helpers promise that they keep the
//! rasterizer well formed and touch nothing but the color buffer.

use vstd::prelude::*;
use crate::fx::{Fx, FX_ONE, fxv, fxmul, fxdiv, sabs, imax, imin, tdiv, lemma_tdiv_mag,
    lemma_tdiv_bound, lemma_fxmul_bound};
use crate::vecn::{Vec2, Vec3, Vec4, v2s, lemma_unit_bound};
use crate::matn::{Mat4, m4_lim, v2_lim, v4_lim, MAT_LIM};
use crate::geom::{viewport, bound_box, barycentric, interpolate4, bary_r, bary_w0, bary_w1,
    bary_w2, min_x_upto, min_y_upto, max_x_upto, max_y_upto, pixel_pt, BARY_LIM};
use crate::shader::GlslVars;

verus! {

/// Whether a stored depth lets a new depth through: the new depth must
/// lie in the unit range and be strictly nearer than the stored one.
pub open spec fn depth_pass(buf: int, z: int) -> bool {
    -(FX_ONE as int) <= z <= FX_ONE as int && buf > z
}

/// The stored depth after testing a new one.
pub open spec fn depth_after(buf: int, z: int) -> int {
    if depth_pass(buf, z) {
        z
    } else {
        buf
    }
}

/// One pixel visibility step: the stored depth and color after one
/// fragment of depth `z` and color `col` is tested against them.
pub open spec fn depth_step(s: (int, int), z: int, col: int) -> (int, int) {
    if depth_pass(s.0, z) {
        (z, col)
    } else {
        s
    }
}

/// Depth-test ordering: when two fragments overlap one pixel and the
/// nearer one passes the stored depth at all, the pixel ends with the
/// nearer fragment's color and depth, whichever order they are drawn in.
pub proof fn lemma_depth_order(d0: int, c0: int, z1: int, c1: int, z2: int, c2: int)
    requires
        -(FX_ONE as int) <= z1 <= FX_ONE as int,
        -(FX_ONE as int) <= z2 <= FX_ONE as int,
        z1 < z2,
        z1 < d0,
    ensures
        depth_step(depth_step((d0, c0), z1, c1), z2, c2) == (z1, c1),
        depth_step(depth_step((d0, c0), z2, c2), z1, c1) == (z1, c1),
{
}

/// The byte a color channel becomes: the channel clamped into the unit
/// range, scaled by 255, truncated to an integer.
pub open spec fn byte_of(c: int) -> int {
    let cc = if c < 0 {
        0
    } else if c > FX_ONE as int {
        FX_ONE as int
    } else {
        c
    };
    tdiv(fxmul(cc, 255 * (FX_ONE as int)), FX_ONE as int)
}

/// The channel byte always fits a byte.
pub proof fn lemma_byte_range(c: int)
    ensures
        0 <= byte_of(c) <= 255,
{
    let cc = if c < 0 {
        0
    } else if c > FX_ONE as int {
        FX_ONE as int
    } else {
        c
    };
    assert(0 <= cc * (255 * (FX_ONE as int)) <= 65536 * (255 * 65536)) by (nonlinear_arith)
        requires
            0 <= cc <= 65536,
    ;
    lemma_tdiv_mag(cc * (255 * (FX_ONE as int)), FX_ONE as int);
    lemma_tdiv_bound(cc * (255 * (FX_ONE as int)), FX_ONE as int, 65536int * (255 * 65536));
    lemma_tdiv_mag(fxmul(cc, 255 * (FX_ONE as int)), FX_ONE as int);
    lemma_tdiv_bound(fxmul(cc, 255 * (FX_ONE as int)), FX_ONE as int, 255int * 65536);
}

/// The four bytes a color becomes.
pub open spec fn rgba_of(c: Vec4) -> [u8; 4] {
    [byte_of(c.x@) as u8, byte_of(c.y@) as u8, byte_of(c.z@) as u8, byte_of(c.w@) as u8]
}

/// The software rasterizer: screen size, the viewport matrix, and the
/// pipeline state with its buffers.
pub struct Rasterizer {
    /// Screen size `(width, height)` in pixels.
    pub sz: (u32, u32),
    /// The viewport matrix built for that size.
    pub mat_viewport: Mat4,
    /// The pipeline state and buffers.
    pub gv: GlslVars,
}

/// Well-formedness: both buffers hold one entry per pixel, the screen
/// is bounded, and the viewport matrix entries are bounded.
pub open spec fn ras_wf(r: Rasterizer) -> bool {
    &&& r.gv.cbuf@.len() == (r.sz.0 as int) * (r.sz.1 as int)
    &&& r.gv.zbuf@.len() == (r.sz.0 as int) * (r.sz.1 as int)
    &&& r.sz.0 <= 0x2000
    &&& r.sz.1 <= 0x2000
    &&& m4_lim(r.mat_viewport, MAT_LIM as int)
}

/// The parts a color write must not touch.
pub open spec fn same_but_cbuf(a: Rasterizer, b: Rasterizer) -> bool {
    &&& a.sz == b.sz
    &&& a.mat_viewport == b.mat_viewport
    &&& a.gv.gl_Postion == b.gv.gl_Postion
    &&& a.gv.gl_FrontFacing == b.gv.gl_FrontFacing
    &&& a.gv.gl_FragCoord == b.gv.gl_FragCoord
    &&& a.gv.zbuf@ == b.gv.zbuf@
    &&& a.gv.en_wire_frame == b.gv.en_wire_frame
    &&& a.gv.en_cull_back_face == b.gv.en_cull_back_face
}

/// The parts a depth write must not touch.
pub open spec fn same_but_zbuf(a: Rasterizer, b: Rasterizer) -> bool {
    &&& a.sz == b.sz
    &&& a.mat_viewport == b.mat_viewport
    &&& a.gv.gl_Postion == b.gv.gl_Postion
    &&& a.gv.gl_FrontFacing == b.gv.gl_FrontFacing
    &&& a.gv.gl_FragCoord == b.gv.gl_FragCoord
    &&& a.gv.cbuf@ == b.gv.cbuf@
    &&& a.gv.en_wire_frame == b.gv.en_wire_frame
    &&& a.gv.en_cull_back_face == b.gv.en_cull_back_face
}

/// A negative pixel count clamped to zero.
pub open spec fn clamp0(t: int) -> int {
    if t < 0 {
        0
    } else {
        t
    }
}

/// The pixel bounds of the direct fill's expanded bounding box: the
/// true extrema moved out by one unit, truncated to whole pixels, the
/// lower corners clamped to zero.
pub open spec fn tri_box_lo_x(p0: Vec2, p1: Vec2, p2: Vec2) -> int {
    clamp0(tdiv(imin(p2.x@, imin(p1.x@, p0.x@)) - (FX_ONE as int), FX_ONE as int))
}

pub open spec fn tri_box_lo_y(p0: Vec2, p1: Vec2, p2: Vec2) -> int {
    clamp0(tdiv(imin(p2.y@, imin(p1.y@, p0.y@)) - (FX_ONE as int), FX_ONE as int))
}

pub open spec fn tri_box_hi_x(p0: Vec2, p1: Vec2, p2: Vec2) -> int {
    clamp0(tdiv(imax(p2.x@, imax(p1.x@, p0.x@)) + (FX_ONE as int), FX_ONE as int))
}

pub open spec fn tri_box_hi_y(p0: Vec2, p1: Vec2, p2: Vec2) -> int {
    clamp0(tdiv(imax(p2.y@, imax(p1.y@, p0.y@)) + (FX_ONE as int), FX_ONE as int))
}

/// Whether pixel `(i, j)` lies inside the triangle by the barycentric
/// test: nonzero pivot and no negative weight.
pub open spec fn tri_inside(p0: Vec2, p1: Vec2, p2: Vec2, i: int, j: int) -> bool {
    let p = pixel_pt(i, j);
    &&& bary_r(p0, p1, p2, p).z@ != 0
    &&& bary_w0(p0, p1, p2, p) >= 0
    &&& bary_w1(p0, p1, p2, p) >= 0
    &&& bary_w2(p0, p1, p2, p) >= 0
}

/// The fill color at pixel `(i, j)`: the three vertex colors
/// interpolated by the pixel's weights when three are given, the first
/// color otherwise.
pub open spec fn tri_color(p0: Vec2, p1: Vec2, p2: Vec2, cs: Seq<Vec4>, i: int, j: int) -> Vec4 {
    let p = pixel_pt(i, j);
    let w0 = bary_w0(p0, p1, p2, p);
    let w1 = bary_w1(p0, p1, p2, p);
    let w2 = bary_w2(p0, p1, p2, p);
    if cs.len() >= 3 {
        Vec4 {
            x: fxv(fxmul(cs[0].x@, w0) + fxmul(cs[1].x@, w1) + fxmul(cs[2].x@, w2)),
            y: fxv(fxmul(cs[0].y@, w0) + fxmul(cs[1].y@, w1) + fxmul(cs[2].y@, w2)),
            z: fxv(fxmul(cs[0].z@, w0) + fxmul(cs[1].z@, w1) + fxmul(cs[2].z@, w2)),
            w: fxv(fxmul(cs[0].w@, w0) + fxmul(cs[1].w@, w1) + fxmul(cs[2].w@, w2)),
        }
    } else {
        cs[0]
    }
}

/// A truncated walk coordinate clamped into the unsigned pixel range.
pub open spec fn clampu(t: int) -> int {
    if t < 0 {
        0
    } else if t > 0xFFFF_FFFF {
        0xFFFF_FFFF
    } else {
        t
    }
}

/// The pixel column the fixed-step walk paints at step `k`.
pub open spec fn walk_x(p0: Vec2, d: Vec2, k: int) -> int {
    clampu(tdiv(p0.x@ + (k + 1) * d.x@, FX_ONE as int))
}

/// The pixel row the fixed-step walk paints at step `k`.
pub open spec fn walk_y(p0: Vec2, d: Vec2, k: int) -> int {
    clampu(tdiv(p0.y@ + (k + 1) * d.y@, FX_ONE as int))
}

/// The color buffer after the first `n` steps of the walk from `p0`
/// along `d`: each on-screen step writes the flat color's bytes.
pub open spec fn line_paint(
    cb: Seq<[u8; 4]>,
    p0: Vec2,
    d: Vec2,
    col: Vec4,
    n: int,
    w: int,
    h: int,
) -> Seq<[u8; 4]>
    decreases n,
{
    if n <= 0 {
        cb
    } else {
        let prev = line_paint(cb, p0, d, col, n - 1, w, h);
        let ui = walk_x(p0, d, n - 1);
        let vi = walk_y(p0, d, n - 1);
        if ui < w && vi < h {
            prev.update(ui + vi * w, rgba_of(col))
        } else {
            prev
        }
    }
}

/// Distinct on-screen pixels have distinct row-major buffer indices.
pub(crate) proof fn lemma_idx_unique(w: int, i1: int, j1: int, i2: int, j2: int)
    requires
        0 < w,
        0 <= i1 < w,
        0 <= i2 < w,
        0 <= j1,
        0 <= j2,
        i1 + j1 * w == i2 + j2 * w,
    ensures
        i1 == i2 && j1 == j2,
{
    vstd::arithmetic::div_mod::lemma_fundamental_div_mod_converse(i1 + j1 * w, w, j1, i1);
    vstd::arithmetic::div_mod::lemma_fundamental_div_mod_converse(i2 + j2 * w, w, j2, i2);
}

/// One step of the direct fill: after pixel `(i, j)` the pointwise
/// color-buffer description moves from "scanned before (i, j)" to
/// "scanned through (i, j)".
proof fn lemma_tri_step(
    r0: Rasterizer,
    r1: Rasterizer,
    prev: Seq<[u8; 4]>,
    p0: Vec2,
    p1: Vec2,
    p2: Vec2,
    cs: Seq<Vec4>,
    i: int,
    j: int,
    xlo: int,
    xhi: int,
    ylo: int,
    yhi: int,
)
    requires
        ras_wf(r0),
        ras_wf(r1),
        r0.sz == r1.sz,
        0 <= xlo <= i < xhi,
        0 <= ylo <= j < yhi,
        prev.len() == r0.gv.cbuf@.len(),
        r1.gv.cbuf@.len() == prev.len(),
        forall|i2: int, j2: int|
            0 <= i2 < r0.sz.0 && 0 <= j2 < r0.sz.1 ==> (#[trigger] prev[i2 + j2 * (
            r0.sz.0 as int)]) == ({
                if xlo <= i2 && ylo <= j2 && i2 < xhi && j2 < yhi && (i2 < i || (i2 == i && j2
                    < j)) && tri_inside(p0, p1, p2, i2, j2) {
                    rgba_of(tri_color(p0, p1, p2, cs, i2, j2))
                } else {
                    r0.gv.cbuf@[i2 + j2 * (r0.sz.0 as int)]
                }
            }),
        ({
            if tri_inside(p0, p1, p2, i, j) && i < r0.sz.0 && j < r0.sz.1 {
                r1.gv.cbuf@ == prev.update(
                    i + j * (r0.sz.0 as int),
                    rgba_of(tri_color(p0, p1, p2, cs, i, j)),
                )
            } else {
                r1.gv.cbuf@ == prev
            }
        }),
    ensures
        forall|i2: int, j2: int|
            0 <= i2 < r0.sz.0 && 0 <= j2 < r0.sz.1 ==> (#[trigger] r1.gv.cbuf@[i2 + j2 * (
            r0.sz.0 as int)]) == ({
                if xlo <= i2 && ylo <= j2 && i2 < xhi && j2 < yhi && (i2 < i || (i2 == i && j2
                    < j + 1)) && tri_inside(p0, p1, p2, i2, j2) {
                    rgba_of(tri_color(p0, p1, p2, cs, i2, j2))
                } else {
                    r0.gv.cbuf@[i2 + j2 * (r0.sz.0 as int)]
                }
            }),
{
    let w = r0.sz.0 as int;
    assert forall|i2: int, j2: int| 0 <= i2 < r0.sz.0 && 0 <= j2 < r0.sz.1 implies (
    #[trigger] r1.gv.cbuf@[i2 + j2 * w]) == ({
        if xlo <= i2 && ylo <= j2 && i2 < xhi && j2 < yhi && (i2 < i || (i2 == i && j2 < j + 1))
            && tri_inside(p0, p1, p2, i2, j2) {
            rgba_of(tri_color(p0, p1, p2, cs, i2, j2))
        } else {
            r0.gv.cbuf@[i2 + j2 * w]
        }
    }) by {
        assert(j2 * w + i2 < (r0.sz.0 as int) * (r0.sz.1 as int) && 0 <= j2 * w + i2)
            by (nonlinear_arith)
            requires
                0 <= i2 < r0.sz.0,
                0 <= j2 < r0.sz.1,
                w == r0.sz.0 as int,
        ;
        if tri_inside(p0, p1, p2, i, j) && i < r0.sz.0 && j < r0.sz.1 {
            assert(j * w + i < (r0.sz.0 as int) * (r0.sz.1 as int) && 0 <= j * w + i)
                by (nonlinear_arith)
                requires
                    0 <= i < r0.sz.0,
                    0 <= j < r0.sz.1,
                    w == r0.sz.0 as int,
            ;
            if i2 + j2 * w == i + j * w {
                lemma_idx_unique(w, i, j, i2, j2);
            } else {
                assert(prev[i2 + j2 * w] == r1.gv.cbuf@[i2 + j2 * w]);
            }
        }
    }
}

/// The parts a whole draw call must not touch: everything but the two
/// buffers and the per-primitive registers.
pub open spec fn same_core(a: Rasterizer, b: Rasterizer) -> bool {
    &&& a.sz == b.sz
    &&& a.mat_viewport == b.mat_viewport
    &&& a.gv.en_wire_frame == b.gv.en_wire_frame
    &&& a.gv.en_cull_back_face == b.gv.en_cull_back_face
}

impl Rasterizer {
    /// A rasterizer for a screen of `sz.0` by `sz.1` pixels, with its
    /// viewport matrix and fresh buffers.
    pub fn new(sz: (u32, u32)) -> (r: Rasterizer)
        requires
            sz.0 <= 0x2000,
            sz.1 <= 0x2000,
        ensures
            ras_wf(r),
            r.sz == sz,
            r.gv.en_wire_frame == true,
            r.gv.en_cull_back_face == true,
            ({
                let hw = tdiv(sz.0 as int * (FX_ONE as int), 2);
                let hh = tdiv(sz.1 as int * (FX_ONE as int), 2);
                r.mat_viewport == (Mat4 {
                    r0: crate::vecn::v4s(hw, 0, 0, hw),
                    r1: crate::vecn::v4s(0, hh, 0, hh),
                    r2: crate::vecn::v4s(0, 0, 32768, 32768),
                    r3: crate::vecn::v4s(0, 0, 0, FX_ONE as int),
                })
            }),
            r.gv.cbuf@.len() == (sz.0 as int) * (sz.1 as int),
            r.gv.zbuf@.len() == (sz.0 as int) * (sz.1 as int),
            forall|i: int| 0 <= i < r.gv.cbuf@.len() ==> r.gv.cbuf@[i] == [0u8, 0u8, 0u8, 0u8],
            forall|i: int| 0 <= i < r.gv.zbuf@.len() ==> (#[trigger] r.gv.zbuf@[i])@ == 65536,
    {
        proof {
            assert((sz.0 as int) * (sz.1 as int) <= 0x1000_0000) by (nonlinear_arith)
                requires
                    sz.0 <= 0x2000,
                    sz.1 <= 0x2000,
            ;
        }
        let w = Fx::from_int(sz.0 as i64);
        let h = Fx::from_int(sz.1 as i64);
        let mv = viewport(Fx::zero(), Fx::zero(), w, h);
        proof {
            lemma_tdiv_mag(sz.0 as int * (FX_ONE as int), 2);
            lemma_tdiv_mag(sz.1 as int * (FX_ONE as int), 2);
        }
        Rasterizer { sz, mat_viewport: mv, gv: GlslVars::new(sz) }
    }

    /// Read access to the color buffer.
    pub fn get_color(&self) -> (r: &Vec<[u8; 4]>)
        ensures
            r@ == self.gv.cbuf@,
    {
        &self.gv.cbuf
    }

    /// Fills the color buffer with one color.
    pub fn clear_color(&mut self, color: &Vec4)
        requires
            ras_wf(*old(self)),
        ensures
            ras_wf(*final(self)),
            same_but_cbuf(*old(self), *final(self)),
            final(self).gv.cbuf@.len() == old(self).gv.cbuf@.len(),
            forall|i: int|
                0 <= i < final(self).gv.cbuf@.len() ==> final(self).gv.cbuf@[i] == rgba_of(
                    *color,
                ),
    {
        let b = color_bytes(color);
        let n = self.gv.cbuf.len();
        self.gv.cbuf = crate::shader::filled_bytes(n, b);
    }

    /// Read access to the depth buffer.
    pub fn get_depth(&self) -> (r: &Vec<Fx>)
        ensures
            r@ == self.gv.zbuf@,
    {
        &self.gv.zbuf
    }

    /// Fills the depth buffer with the farthest representable depth.
    pub fn clear_depth(&mut self)
        requires
            ras_wf(*old(self)),
        ensures
            ras_wf(*final(self)),
            same_but_zbuf(*old(self), *final(self)),
            final(self).gv.zbuf@.len() == old(self).gv.zbuf@.len(),
            forall|i: int|
                0 <= i < final(self).gv.zbuf@.len()
                    ==> (#[trigger] final(self).gv.zbuf@[i])@ == i64::MAX as int,
    {
        let n = self.gv.zbuf.len();
        self.gv.zbuf = crate::shader::filled_fx(n, Fx::from_raw(i64::MAX));
    }

    /// Writes one pixel of the color buffer, when the coordinates lie on
    /// the screen; off-screen writes are dropped.
    pub fn set_color(&mut self, i: u32, j: u32, color: &Vec4)
        requires
            ras_wf(*old(self)),
        ensures
            ras_wf(*final(self)),
            same_but_cbuf(*old(self), *final(self)),
            i < old(self).sz.0 && j < old(self).sz.1 ==> final(self).gv.cbuf@ == old(
                self,
            ).gv.cbuf@.update(i + j * old(self).sz.0, rgba_of(*color)),
            !(i < old(self).sz.0 && j < old(self).sz.1) ==> final(self).gv.cbuf@ == old(
                self,
            ).gv.cbuf@,
    {
        if i < self.sz.0 && j < self.sz.1 {
            let b = color_bytes(color);
            proof {
                assert((j as int) * (self.sz.0 as int) + (i as int) < (self.sz.0 as int) * (
                self.sz.1 as int) && (j as int) * (self.sz.0 as int) < 0x1000_0000)
                    by (nonlinear_arith)
                    requires
                        i < self.sz.0,
                        j < self.sz.1,
                        self.sz.0 <= 0x2000,
                        self.sz.1 <= 0x2000,
                ;
            }
            let idx: usize = (i + j * self.sz.0) as usize;
            self.gv.cbuf.set(idx, b);
        }
    }

    /// The depth test at buffer index `i`: a depth in the unit range
    /// that is nearer than the stored one is stored and passes.
    pub fn test_depth(&mut self, i: usize, z: Fx) -> (r: bool)
        requires
            ras_wf(*old(self)),
            i < old(self).gv.zbuf@.len(),
        ensures
            ras_wf(*final(self)),
            same_but_zbuf(*old(self), *final(self)),
            r == depth_pass(old(self).gv.zbuf@[i as int]@, z@),
            r ==> final(self).gv.zbuf@ == old(self).gv.zbuf@.update(i as int, z),
            !r ==> final(self).gv.zbuf@ == old(self).gv.zbuf@,
            final(self).gv.zbuf@[i as int]@ == depth_after(old(self).gv.zbuf@[i as int]@, z@),
            final(self).gv.zbuf@.len() == old(self).gv.zbuf@.len(),
    {
        let lo = Fx::from_raw(-FX_ONE);
        let hi = Fx::one();
        if lo.le(z) && z.le(hi) && z.lt(self.gv.zbuf[i]) {
            self.gv.zbuf.set(i, z);
            true
        } else {
            false
        }
    }

    /// Draws the segment between the two points by fixed steps along the
    /// dominant axis, writing the flat color at every step's truncated,
    /// clamped coordinates; off-screen steps are dropped. Screen-space
    /// stepping, so the walk is not perspective-correct.
    pub fn line(&mut self, points: &[Vec2; 2], color: Vec4)
        requires
            ras_wf(*old(self)),
            v2_lim(points[0], BARY_LIM as int),
            v2_lim(points[1], BARY_LIM as int),
        ensures
            ras_wf(*final(self)),
            same_but_cbuf(*old(self), *final(self)),
            final(self).gv.cbuf@.len() == old(self).gv.cbuf@.len(),
            ({
                let a = points[0];
                let dx = points[1].x@ - a.x@;
                let dy = points[1].y@ - a.y@;
                let num = imax(sabs(dx), sabs(dy));
                if num == 0 {
                    final(self).gv.cbuf@ == old(self).gv.cbuf@
                } else {
                    final(self).gv.cbuf@ == line_paint(
                        old(self).gv.cbuf@,
                        a,
                        v2s(fxdiv(dx, num), fxdiv(dy, num)),
                        color,
                        tdiv(num, FX_ONE as int),
                        old(self).sz.0 as int,
                        old(self).sz.1 as int,
                    )
                }
            }),
    {
        let a = points[0];
        let b = points[1];
        let ab = b.sub(a);
        let num = ab.x.abs().max(ab.y.abs());
        if num.is_zero() {
            return ;
        }
        proof {
            lemma_unit_bound(ab.x@, num@);
            lemma_unit_bound(ab.y@, num@);
            lemma_tdiv_mag(num@, FX_ONE as int);
            lemma_tdiv_bound(num@, FX_ONE as int, 0x4000_0000);
        }
        let dxy = ab.div_s(num);
        let steps = num.to_int();
        let mut p = a;
        let mut k: i64 = 0;
        while k < steps
            invariant
                ras_wf(*self),
                same_but_cbuf(*old(self), *self),
                self.gv.cbuf@.len() == old(self).gv.cbuf@.len(),
                0 <= k <= steps,
                0 <= steps <= 0x4000_0000,
                -(FX_ONE as int) <= dxy.x@ <= FX_ONE as int,
                -(FX_ONE as int) <= dxy.y@ <= FX_ONE as int,
                p.x@ == a.x@ + k * dxy.x@,
                p.y@ == a.y@ + k * dxy.y@,
                -(BARY_LIM as int) - k * (FX_ONE as int) <= p.x@,
                p.x@ <= BARY_LIM as int + k * (FX_ONE as int),
                -(BARY_LIM as int) - k * (FX_ONE as int) <= p.y@,
                p.y@ <= BARY_LIM as int + k * (FX_ONE as int),
                v2_lim(a, BARY_LIM as int),
                self.gv.cbuf@ == line_paint(
                    old(self).gv.cbuf@,
                    a,
                    dxy,
                    color,
                    k as int,
                    old(self).sz.0 as int,
                    old(self).sz.1 as int,
                ),
            decreases steps - k,
        {
            proof {
                assert(k * (FX_ONE as int) <= 0x4000_0000 * (FX_ONE as int)) by (nonlinear_arith)
                    requires
                        0 <= k <= 0x4000_0000,
                ;
                assert((k + 1) * (FX_ONE as int) == k * (FX_ONE as int) + (FX_ONE as int))
                    by (nonlinear_arith);
                assert((k + 1) * dxy.x@ == k * dxy.x@ + dxy.x@) by (nonlinear_arith);
                assert((k + 1) * dxy.y@ == k * dxy.y@ + dxy.y@) by (nonlinear_arith);
            }
            p = p.add(dxy);
            let xi = p.x.to_int();
            let yi = p.y.to_int();
            proof {
                lemma_tdiv_mag(p.x@, FX_ONE as int);
                lemma_tdiv_mag(p.y@, FX_ONE as int);
            }
            let ui: u32 = if xi < 0 {
                0
            } else if xi > 0xFFFF_FFFF {
                0xFFFF_FFFF
            } else {
                xi as u32
            };
            let vi: u32 = if yi < 0 {
                0
            } else if yi > 0xFFFF_FFFF {
                0xFFFF_FFFF
            } else {
                yi as u32
            };
            proof {
                assert(ui as int == walk_x(a, dxy, k as int));
                assert(vi as int == walk_y(a, dxy, k as int));
            }
            self.set_color(ui, vi, &color);
            k = k + 1;
        }
    }

    /// Fills the triangle over its expanded bounding box with the
    /// barycentric inside test, interpolating the three vertex colors
    /// when three are given and using the first otherwise. No
    /// perspective correction and no depth test: a flat screen-space
    /// fill. Exactly the on-screen box pixels inside the triangle take
    /// the fill color's bytes.
    pub fn triangle(&mut self, points: &[Vec2; 3], colors: &[Vec4])
        requires
            ras_wf(*old(self)),
            v2_lim(points[0], BARY_LIM as int),
            v2_lim(points[1], BARY_LIM as int),
            v2_lim(points[2], BARY_LIM as int),
            colors@.len() >= 1,
            forall|i: int| 0 <= i < colors@.len() ==> v4_lim(#[trigger] colors@[i], MAT_LIM as int),
        ensures
            ras_wf(*final(self)),
            same_but_cbuf(*old(self), *final(self)),
            final(self).gv.cbuf@.len() == old(self).gv.cbuf@.len(),
            forall|i: int, j: int|
                0 <= i < old(self).sz.0 && 0 <= j < old(self).sz.1 ==> (#[trigger] final(self).gv.cbuf@[i + j * (old(self).sz.0 as int)]) == ({
                    let p0 = points[0];
                    let p1 = points[1];
                    let p2 = points[2];
                    if tri_box_lo_x(p0, p1, p2) <= i < tri_box_hi_x(p0, p1, p2) && tri_box_lo_y(
                        p0,
                        p1,
                        p2,
                    ) <= j < tri_box_hi_y(p0, p1, p2) && tri_inside(p0, p1, p2, i, j) {
                        rgba_of(tri_color(p0, p1, p2, colors@, i, j))
                    } else {
                        old(self).gv.cbuf@[i + j * (old(self).sz.0 as int)]
                    }
                }),
    {
        let p0 = points[0];
        let p1 = points[1];
        let p2 = points[2];
        let (lb, rt) = bound_box(points.as_slice());
        proof {
            assert(min_x_upto(points@, 0) == i64::MAX as int);
            assert(min_y_upto(points@, 0) == i64::MAX as int);
            assert(max_x_upto(points@, 0) == i64::MIN as int);
            assert(max_y_upto(points@, 0) == i64::MIN as int);
            assert(min_x_upto(points@, 1) == p0.x@);
            assert(min_x_upto(points@, 2) == imin(p1.x@, p0.x@));
            assert(min_x_upto(points@, 3) == imin(p2.x@, imin(p1.x@, p0.x@)));
            assert(min_y_upto(points@, 1) == p0.y@);
            assert(min_y_upto(points@, 2) == imin(p1.y@, p0.y@));
            assert(min_y_upto(points@, 3) == imin(p2.y@, imin(p1.y@, p0.y@)));
            assert(max_x_upto(points@, 1) == p0.x@);
            assert(max_x_upto(points@, 2) == imax(p1.x@, p0.x@));
            assert(max_x_upto(points@, 3) == imax(p2.x@, imax(p1.x@, p0.x@)));
            assert(max_y_upto(points@, 1) == p0.y@);
            assert(max_y_upto(points@, 2) == imax(p1.y@, p0.y@));
            assert(max_y_upto(points@, 3) == imax(p2.y@, imax(p1.y@, p0.y@)));
            lemma_tdiv_mag(lb.x@, FX_ONE as int);
            lemma_tdiv_mag(lb.y@, FX_ONE as int);
            lemma_tdiv_mag(rt.x@, FX_ONE as int);
            lemma_tdiv_mag(rt.y@, FX_ONE as int);
            lemma_tdiv_bound(rt.x@, FX_ONE as int, BARY_LIM as int + FX_ONE as int);
            lemma_tdiv_bound(rt.y@, FX_ONE as int, BARY_LIM as int + FX_ONE as int);
        }
        let xl = lb.x.to_int();
        let yl = lb.y.to_int();
        let xlo: u32 = if xl < 0 {
            0
        } else {
            xl as u32
        };
        let ylo: u32 = if yl < 0 {
            0
        } else {
            yl as u32
        };
        let xh = rt.x.to_int();
        let yh = rt.y.to_int();
        let xhi: u32 = if xh < 0 {
            0
        } else {
            xh as u32
        };
        let yhi: u32 = if yh < 0 {
            0
        } else {
            yh as u32
        };
        proof {
            assert(xlo as int == tri_box_lo_x(p0, p1, p2));
            assert(ylo as int == tri_box_lo_y(p0, p1, p2));
            assert(xhi as int == tri_box_hi_x(p0, p1, p2));
            assert(yhi as int == tri_box_hi_y(p0, p1, p2));
        }
        let mut i: u32 = xlo;
        while i < xhi
            invariant
                ras_wf(*self),
                same_but_cbuf(*old(self), *self),
                self.gv.cbuf@.len() == old(self).gv.cbuf@.len(),
                p0 == points[0] && p1 == points[1] && p2 == points[2],
                xlo as int == tri_box_lo_x(p0, p1, p2),
                ylo as int == tri_box_lo_y(p0, p1, p2),
                xhi as int == tri_box_hi_x(p0, p1, p2),
                yhi as int == tri_box_hi_y(p0, p1, p2),
                xlo <= i <= xhi || i == xlo,
                xhi <= 0x2001,
                yhi <= 0x2001,
                v2_lim(p0, BARY_LIM as int),
                v2_lim(p1, BARY_LIM as int),
                v2_lim(p2, BARY_LIM as int),
                colors@.len() >= 1,
                forall|q: int|
                    0 <= q < colors@.len() ==> v4_lim(#[trigger] colors@[q], MAT_LIM as int),
                forall|i2: int, j2: int|
                    0 <= i2 < old(self).sz.0 && 0 <= j2 < old(self).sz.1 ==> (#[trigger] self.gv.cbuf@[i2 + j2 * (old(self).sz.0 as int)]) == ({
                        if xlo <= i2 < i && ylo <= j2 < yhi && i2 < xhi && tri_inside(
                            p0,
                            p1,
                            p2,
                            i2,
                            j2,
                        ) {
                            rgba_of(tri_color(p0, p1, p2, colors@, i2, j2))
                        } else {
                            old(self).gv.cbuf@[i2 + j2 * (old(self).sz.0 as int)]
                        }
                    }),
            decreases xhi - i,
        {
            let mut j: u32 = ylo;
            while j < yhi
                invariant
                    ras_wf(*self),
                    same_but_cbuf(*old(self), *self),
                    self.gv.cbuf@.len() == old(self).gv.cbuf@.len(),
                    p0 == points[0] && p1 == points[1] && p2 == points[2],
                    xlo as int == tri_box_lo_x(p0, p1, p2),
                    ylo as int == tri_box_lo_y(p0, p1, p2),
                    xhi as int == tri_box_hi_x(p0, p1, p2),
                    yhi as int == tri_box_hi_y(p0, p1, p2),
                    xlo <= i < xhi,
                    ylo <= j <= yhi || j == ylo,
                    xhi <= 0x2001,
                    yhi <= 0x2001,
                    v2_lim(p0, BARY_LIM as int),
                    v2_lim(p1, BARY_LIM as int),
                    v2_lim(p2, BARY_LIM as int),
                    colors@.len() >= 1,
                    forall|q: int|
                        0 <= q < colors@.len() ==> v4_lim(#[trigger] colors@[q], MAT_LIM as int),
                    forall|i2: int, j2: int|
                        0 <= i2 < old(self).sz.0 && 0 <= j2 < old(self).sz.1 ==> (#[trigger] self.gv.cbuf@[i2 + j2 * (old(self).sz.0 as int)]) == ({
                            if xlo <= i2 && ylo <= j2 && i2 < xhi && j2 < yhi && (i2 < i || (i2
                                == i && j2 < j)) && tri_inside(p0, p1, p2, i2, j2) {
                                rgba_of(tri_color(p0, p1, p2, colors@, i2, j2))
                            } else {
                                old(self).gv.cbuf@[i2 + j2 * (old(self).sz.0 as int)]
                            }
                        }),
                decreases yhi - j,
            {
                let ghost prev = self.gv.cbuf@;
                self.tri_pixel(p0, p1, p2, points, colors, i, j);
                proof {
                    lemma_tri_step(
                        *old(self),
                        *self,
                        prev,
                        p0,
                        p1,
                        p2,
                        colors@,
                        i as int,
                        j as int,
                        xlo as int,
                        xhi as int,
                        ylo as int,
                        yhi as int,
                    );
                }
                j = j + 1;
            }
            i = i + 1;
        }
    }

    /// One pixel of the direct triangle fill: the inside test and, on a
    /// hit, the color write.
    fn tri_pixel(
        &mut self,
        p0: Vec2,
        p1: Vec2,
        p2: Vec2,
        points: &[Vec2; 3],
        colors: &[Vec4],
        i: u32,
        j: u32,
    )
        requires
            ras_wf(*old(self)),
            v2_lim(p0, BARY_LIM as int),
            v2_lim(p1, BARY_LIM as int),
            v2_lim(p2, BARY_LIM as int),
            p0 == points[0] && p1 == points[1] && p2 == points[2],
            colors@.len() >= 1,
            forall|q: int| 0 <= q < colors@.len() ==> v4_lim(#[trigger] colors@[q], MAT_LIM as int),
            i <= 0x2000,
            j <= 0x2000,
        ensures
            ras_wf(*final(self)),
            same_but_cbuf(*old(self), *final(self)),
            final(self).gv.cbuf@.len() == old(self).gv.cbuf@.len(),
            ({
                if tri_inside(p0, p1, p2, i as int, j as int) && (i as int) < old(self).sz.0 && (
                j as int) < old(self).sz.1 {
                    final(self).gv.cbuf@ == old(self).gv.cbuf@.update(
                        i + j * (old(self).sz.0 as int),
                        rgba_of(tri_color(p0, p1, p2, colors@, i as int, j as int)),
                    )
                } else {
                    final(self).gv.cbuf@ == old(self).gv.cbuf@
                }
            }),
    {
        let px = Vec2::from(Fx::from_int(i as i64), Fx::from_int(j as i64));
        proof {
            assert(px == pixel_pt(i as int, j as int));
        }
        match barycentric(points, px) {
            Some(bc) => {
                proof {
                    assert(0 <= bc.x@ <= FX_ONE as int);
                    assert(0 <= bc.y@ <= FX_ONE as int);
                    assert(0 <= bc.z@ <= FX_ONE as int);
                }
                let c = if colors.len() >= 3 {
                    interpolate4(&bc, &colors[0], &colors[1], &colors[2])
                } else {
                    colors[0]
                };
                proof {
                    assert(c == tri_color(p0, p1, p2, colors@, i as int, j as int));
                }
                self.set_color(i, j, &c);
            },
            None => {
                proof {
                    assert(!tri_inside(p0, p1, p2, i as int, j as int));
                }
            },
        }
    }

    /// The pipeline state, for callers that only read.
    pub fn glsl_vars(&self) -> (r: &GlslVars)
        ensures
            *r == self.gv,
    {
        &self.gv
    }

    /// Switches wireframe drawing on or off.
    pub fn enable_wire_frame(&mut self, val: bool)
        ensures
            final(self).gv == (GlslVars { en_wire_frame: val, ..old(self).gv }),
            final(self).sz == old(self).sz,
            final(self).mat_viewport == old(self).mat_viewport,
    {
        self.gv.en_wire_frame = val;
    }

    /// Switches back-face culling on or off.
    pub fn enable_cull_face(&mut self, val: bool)
        ensures
            final(self).gv == (GlslVars { en_cull_back_face: val, ..old(self).gv }),
            final(self).sz == old(self).sz,
            final(self).mat_viewport == old(self).mat_viewport,
    {
        self.gv.en_cull_back_face = val;
    }
}

/// The four bytes of a color, channels clamped and scaled.
fn color_bytes(color: &Vec4) -> (r: [u8; 4])
    ensures
        r == rgba_of(*color),
{
    let bx = channel_byte(color.x);
    let by = channel_byte(color.y);
    let bz = channel_byte(color.z);
    let bw = channel_byte(color.w);
    [bx, by, bz, bw]
}

/// One color channel clamped into the unit range and scaled to a byte.
fn channel_byte(c: Fx) -> (r: u8)
    ensures
        r as int == byte_of(c@),
{
    proof {
        lemma_byte_range(c@);
    }
    let cc = c.clamp(Fx::zero(), Fx::one());
    proof {
        lemma_fxmul_bound(cc@, 255 * (FX_ONE as int), FX_ONE as int, 255 * (FX_ONE as int));
        lemma_tdiv_mag(fxmul(cc@, 255 * (FX_ONE as int)), FX_ONE as int);
    }
    let s = cc.mul(Fx::from_int(255));
    let v = s.to_int();
    v as u8
}

} // verus!
