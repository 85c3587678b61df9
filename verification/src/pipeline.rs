//! The staged rasterization pipeline, driven once per triangle index:
//! vertex stage, screen mapping with the perspective divide, back-face
//! culling, scan rasterization with perspective-corrected barycentric
//! coordinates and the depth test, and the fragment stage.
//!
//! The scan and fragment stages carry full functional contracts: which
//! pixels come out of the scan, what the depth buffer holds afterwards,
//! and what every shaded pixel's bytes become.

use vstd::prelude::*;
use crate::fx::{Fx, FX_ONE, fxv, fxmul, fxdiv, fx_fits, tdiv, imax, sabs, lemma_tdiv_mag,
    lemma_tdiv_bound, lemma_fxmul_bound};
use crate::vecn::{Vec2, Vec3, Vec4, v2s, v3s, v4s, dot4};
use crate::matn::{Mat4, m4_lim, v2_lim, v4_lim, mulv4, MAT_LIM};
use crate::geom::{barycentric, bound_box, interpolate_wide, bary_r, bary_w0, bary_w1, bary_w2,
    max_x_upto, max_y_upto, pixel_pt, BARY_LIM};
use crate::rasterizer::{Rasterizer, ras_wf, same_but_zbuf, same_but_cbuf, same_core, depth_pass,
    rgba_of, line_paint, lemma_idx_unique};
use crate::shader::{IShader, IPrimitive, BC_LIM};

verus! {

/// Magnitude limit on the clip-space coordinates the vertex stage may
/// hand back: 2^40 raw counts.
pub const CLIP_LIM: i64 = 0x100_0000_0000;

/// The perspective divide: every component scaled by the vertex's `w`.
pub open spec fn pdiv(v: Vec4) -> Vec4 {
    v4s(fxdiv(v.x@, v.w@), fxdiv(v.y@, v.w@), fxdiv(v.z@, v.w@), fxdiv(v.w@, v.w@))
}

/// The viewport matrix applied to a vector.
pub open spec fn vp_apply(m: Mat4, v: Vec4) -> Vec4 {
    mulv4(m, v)
}

/// Whether one clip-space vertex survives screen mapping: bounded, off
/// the camera plane, and landing on the bounded screen range after the
/// divide and the viewport map.
pub open spec fn map_ok1(m: Mat4, v: Vec4) -> bool {
    &&& v4_lim(v, CLIP_LIM as int)
    &&& v.w@ != 0
    &&& v4_lim(pdiv(v), MAT_LIM as int)
    &&& v4_lim(vp_apply(m, pdiv(v)), BARY_LIM as int)
}

/// The screen coordinate of one mapped vertex, with the clip-space `w`
/// kept for the later perspective correction.
pub open spec fn mapped1(m: Mat4, v: Vec4) -> Vec4 {
    let s = vp_apply(m, pdiv(v));
    v4s(s.x@, s.y@, s.z@, v.w@)
}

/// A mapped screen vertex: coordinates on the bounded screen range and
/// a nonzero, bounded clip `w`.
pub open spec fn frag1_ok(v: Vec4) -> bool {
    &&& -(BARY_LIM as int) <= v.x@ <= BARY_LIM as int
    &&& -(BARY_LIM as int) <= v.y@ <= BARY_LIM as int
    &&& -(BARY_LIM as int) <= v.z@ <= BARY_LIM as int
    &&& v.w@ != 0
    &&& -(CLIP_LIM as int) <= v.w@ <= CLIP_LIM as int
}

/// All three screen vertices are ready for rasterization.
pub open spec fn frag_ok(r: Rasterizer) -> bool {
    &&& frag1_ok(r.gv.gl_FragCoord.0)
    &&& frag1_ok(r.gv.gl_FragCoord.1)
    &&& frag1_ok(r.gv.gl_FragCoord.2)
}

/// The screen xy coordinates alone are on the bounded range, which is
/// all the culling stage reads.
pub open spec fn frag_xy_ok(r: Rasterizer) -> bool {
    ({
        let (a, b, c) = r.gv.gl_FragCoord;
        &&& v2_lim(scr2(a), BARY_LIM as int)
        &&& v2_lim(scr2(b), BARY_LIM as int)
        &&& v2_lim(scr2(c), BARY_LIM as int)
    })
}

/// The screen-space face orientation the culling stage reads: the z
/// component of the cross product of the projected edges, positive for
/// a front-facing triangle.
pub open spec fn face_sign(a: Vec4, b: Vec4, c: Vec4) -> int {
    fxmul(b.x@ - a.x@, c.y@ - a.y@) - fxmul(b.y@ - a.y@, c.x@ - a.x@)
}

/// The screen 2D corner of a mapped vertex.
pub open spec fn scr2(v: Vec4) -> Vec2 {
    Vec2 { x: v.x, y: v.y }
}

/// Whether pixel `(i, j)` lies inside the screen triangle by the
/// barycentric test: nonzero pivot and no negative weight.
pub open spec fn px_inside(a: Vec4, b: Vec4, c: Vec4, i: int, j: int) -> bool {
    let p = pixel_pt(i, j);
    &&& bary_r(scr2(a), scr2(b), scr2(c), p).z@ != 0
    &&& bary_w0(scr2(a), scr2(b), scr2(c), p) >= 0
    &&& bary_w1(scr2(a), scr2(b), scr2(c), p) >= 0
    &&& bary_w2(scr2(a), scr2(b), scr2(c), p) >= 0
}

/// The linear (screen-space) barycentric weights at the pixel.
pub open spec fn px_bc(a: Vec4, b: Vec4, c: Vec4, i: int, j: int) -> Vec3 {
    let p = pixel_pt(i, j);
    v3s(
        bary_w0(scr2(a), scr2(b), scr2(c), p),
        bary_w1(scr2(a), scr2(b), scr2(c), p),
        bary_w2(scr2(a), scr2(b), scr2(c), p),
    )
}

/// The weights corrected by each vertex's retained clip `w`.
pub open spec fn px_bcc(a: Vec4, b: Vec4, c: Vec4, i: int, j: int) -> Vec3 {
    let u = px_bc(a, b, c, i, j);
    v3s(fxdiv(u.x@, a.w@), fxdiv(u.y@, b.w@), fxdiv(u.z@, c.w@))
}

/// The corrected weights' sum, the renormalization pivot.
pub open spec fn px_sum(a: Vec4, b: Vec4, c: Vec4, i: int, j: int) -> int {
    let t = px_bcc(a, b, c, i, j);
    t.x@ + t.y@ + t.z@
}

/// The perspective-corrected, renormalized barycentric coordinate at
/// the pixel.
pub open spec fn px_bc2(a: Vec4, b: Vec4, c: Vec4, i: int, j: int) -> Vec3 {
    let t = px_bcc(a, b, c, i, j);
    let s = px_sum(a, b, c, i, j);
    v3s(fxdiv(t.x@, s), fxdiv(t.y@, s), fxdiv(t.z@, s))
}

/// The depth interpolated with the corrected weights.
pub open spec fn px_depth(a: Vec4, b: Vec4, c: Vec4, i: int, j: int) -> int {
    let u = px_bc2(a, b, c, i, j);
    fxmul(a.z@, u.x@) + fxmul(b.z@, u.y@) + fxmul(c.z@, u.z@)
}

/// Whether the scan of the triangle `(a, b, c)` accepts pixel `(i, j)`
/// against the entry depth buffer `zb` of row length `w`: inside the
/// triangle, nonzero corrected-weight sum, and a depth in range that
/// beats the stored one.
pub open spec fn px_acc(a: Vec4, b: Vec4, c: Vec4, zb: Seq<Fx>, w: int, i: int, j: int) -> bool {
    &&& px_inside(a, b, c, i, j)
    &&& px_sum(a, b, c, i, j) != 0
    &&& depth_pass(zb[i + j * w]@, px_depth(a, b, c, i, j))
}

/// Whether the scan accepts pixel `(i, j)` against the entry state.
pub open spec fn px_accept(r0: Rasterizer, i: int, j: int) -> bool {
    let (a, b, c) = r0.gv.gl_FragCoord;
    px_acc(a, b, c, r0.gv.zbuf@, r0.sz.0 as int, i, j)
}

/// An expanded box corner truncated to a whole pixel count and clipped
/// into the screen range.
pub open spec fn scan_hi(m: int, limit: int) -> int {
    let t = tdiv(m + (FX_ONE as int), FX_ONE as int);
    if t < 0 {
        0
    } else if t >= limit {
        limit
    } else {
        t
    }
}

/// The exclusive column bound of the scan of the triangle `(a, b, c)`
/// on a screen `w` pixels wide: the expanded bounding box corner,
/// clipped to the screen.
pub open spec fn scan_xh(a: Vec4, b: Vec4, c: Vec4, w: int) -> int {
    scan_hi(imax(imax(a.x@, b.x@), c.x@), w)
}

/// The exclusive row bound of the same scan on a screen `h` pixels
/// tall.
pub open spec fn scan_yh(a: Vec4, b: Vec4, c: Vec4, h: int) -> int {
    scan_hi(imax(imax(a.y@, b.y@), c.y@), h)
}

/// The scan's exclusive column bound against the entry state.
pub open spec fn scan_x_hi(r0: Rasterizer) -> int {
    let (a, b, c) = r0.gv.gl_FragCoord;
    scan_xh(a, b, c, r0.sz.0 as int)
}

/// The scan's exclusive row bound against the entry state.
pub open spec fn scan_y_hi(r0: Rasterizer) -> int {
    let (a, b, c) = r0.gv.gl_FragCoord;
    scan_yh(a, b, c, r0.sz.1 as int)
}

/// The depth buffer after one triangle's scan: every accepted pixel of
/// the clipped scan box takes its interpolated depth, every other entry
/// keeps its value.
pub open spec fn z_scan(a: Vec4, b: Vec4, c: Vec4, zb: Seq<Fx>, w: int, h: int) -> Seq<Fx> {
    Seq::new(
        zb.len(),
        |k: int|
            {
                let i = k % w;
                let j = k / w;
                if i < scan_xh(a, b, c, w) && j < scan_yh(a, b, c, h) && px_acc(
                    a,
                    b,
                    c,
                    zb,
                    w,
                    i,
                    j,
                ) {
                    fxv(px_depth(a, b, c, i, j))
                } else {
                    zb[k]
                }
            },
    )
}

/// The accepted pixels of scan column `i` with rows below `n`, in scan
/// order, each with its corrected barycentric coordinate.
pub open spec fn col_px(a: Vec4, b: Vec4, c: Vec4, zb: Seq<Fx>, w: int, i: int, n: int) -> Seq<
    (u32, u32, Vec3),
>
    decreases n,
{
    if n <= 0 {
        Seq::empty()
    } else {
        let rest = col_px(a, b, c, zb, w, i, n - 1);
        if px_acc(a, b, c, zb, w, i, n - 1) {
            rest.push((i as u32, (n - 1) as u32, px_bc2(a, b, c, i, n - 1)))
        } else {
            rest
        }
    }
}

/// The accepted pixels of the scan columns below `n`, in scan order.
pub open spec fn scan_px(a: Vec4, b: Vec4, c: Vec4, zb: Seq<Fx>, w: int, h: int, n: int) -> Seq<
    (u32, u32, Vec3),
>
    decreases n,
{
    if n <= 0 {
        Seq::empty()
    } else {
        scan_px(a, b, c, zb, w, h, n - 1) + col_px(a, b, c, zb, w, n - 1, scan_yh(a, b, c, h))
    }
}

/// Every pixel one triangle's scan accepts against the entry depth
/// buffer, in scan order: columns left to right, rows bottom-up within
/// a column.
pub open spec fn scan_list(a: Vec4, b: Vec4, c: Vec4, zb: Seq<Fx>, w: int, h: int) -> Seq<
    (u32, u32, Vec3),
> {
    scan_px(a, b, c, zb, w, h, scan_xh(a, b, c, w))
}

/// The color buffer after the first `n` listed pixels are shaded: each
/// on-screen pixel takes the bytes of the shader's color for its
/// coordinate, later entries overwriting earlier ones.
pub open spec fn painted<P: IShader>(
    p: &P,
    pidx: int,
    cb: Seq<[u8; 4]>,
    pixels: Seq<(u32, u32, Vec3)>,
    n: int,
    w: int,
    h: int,
) -> Seq<[u8; 4]>
    decreases n,
{
    if n <= 0 {
        cb
    } else {
        let prev = painted(p, pidx, cb, pixels, n - 1, w, h);
        let px = pixels[n - 1];
        if px.0 < w && px.1 < h {
            prev.update(px.0 + px.1 * w, rgba_of(p.frag_spec(pidx, px.2)))
        } else {
            prev
        }
    }
}

/// The two buffers after the first `n` triangles of the primitive have
/// gone through the filled pipeline against the viewport matrix `vp`
/// and the culling toggle `cull`: a triangle whose three clip-space
/// vertices all survive screen mapping and, when culling is on, whose
/// mapped face looks toward the viewer has the depths of exactly its
/// accepted pixels written and those same pixels shaded in scan order;
/// every other triangle leaves both buffers unchanged.
pub open spec fn fill_state<P: IShader>(
    p: &P,
    vp: Mat4,
    cull: bool,
    w: int,
    h: int,
    zb: Seq<Fx>,
    cb: Seq<[u8; 4]>,
    n: int,
) -> (Seq<Fx>, Seq<[u8; 4]>)
    decreases n,
{
    if n <= 0 {
        (zb, cb)
    } else {
        let prev = fill_state(p, vp, cull, w, h, zb, cb, n - 1);
        let (va, vb, vc) = p.vertex_spec(n - 1);
        if map_ok1(vp, va) && map_ok1(vp, vb) && map_ok1(vp, vc) {
            let ma = mapped1(vp, va);
            let mb = mapped1(vp, vb);
            let mc = mapped1(vp, vc);
            if cull && face_sign(ma, mb, mc) <= 0 {
                prev
            } else {
                let px = scan_list(ma, mb, mc, prev.0, w, h);
                (
                    z_scan(ma, mb, mc, prev.0, w, h),
                    painted(p, n - 1, prev.1, px, px.len() as int, w, h),
                )
            }
        } else {
            prev
        }
    }
}

/// The color buffer after the fixed-step walk of one segment, exactly
/// as [`Rasterizer::line`] paints it.
pub open spec fn wire_line(cb: Seq<[u8; 4]>, p: Vec2, q: Vec2, col: Vec4, w: int, h: int) -> Seq<
    [u8; 4],
> {
    let dx = q.x@ - p.x@;
    let dy = q.y@ - p.y@;
    let num = imax(sabs(dx), sabs(dy));
    if num == 0 {
        cb
    } else {
        line_paint(cb, p, v2s(fxdiv(dx, num), fxdiv(dy, num)), col, tdiv(num, FX_ONE as int), w, h)
    }
}

/// The color buffer after one triangle's three projected edges are
/// walked in one color.
pub open spec fn wire_tri(
    cb: Seq<[u8; 4]>,
    a: Vec2,
    b: Vec2,
    c: Vec2,
    col: Vec4,
    w: int,
    h: int,
) -> Seq<[u8; 4]> {
    wire_line(wire_line(wire_line(cb, a, b, col, w, h), a, c, col, w, h), b, c, col, w, h)
}

/// The wireframe foreground color, for front faces: opaque white.
pub open spec fn wire_fg() -> Vec4 {
    v4s(FX_ONE as int, FX_ONE as int, FX_ONE as int, FX_ONE as int)
}

/// The wireframe background color, for back faces: opaque three-fifths
/// grey.
pub open spec fn wire_bg() -> Vec4 {
    let g = tdiv(3 * (FX_ONE as int), 5);
    v4s(g, g, g, FX_ONE as int)
}

/// The color buffer after the first `n` triangles of the primitive are
/// drawn as wireframes: each triangle whose three clip-space vertices
/// survive screen mapping has its three projected edges walked, in the
/// foreground color when the mapped face looks toward the viewer and in
/// the background color otherwise; a triangle dropped by mapping leaves
/// the buffer unchanged.
pub open spec fn wire_state<P: IShader>(
    p: &P,
    vp: Mat4,
    w: int,
    h: int,
    cb: Seq<[u8; 4]>,
    n: int,
) -> Seq<[u8; 4]>
    decreases n,
{
    if n <= 0 {
        cb
    } else {
        let prev = wire_state(p, vp, w, h, cb, n - 1);
        let (va, vb, vc) = p.vertex_spec(n - 1);
        if map_ok1(vp, va) && map_ok1(vp, vb) && map_ok1(vp, vc) {
            let ma = mapped1(vp, va);
            let mb = mapped1(vp, vb);
            let mc = mapped1(vp, vc);
            let col = if face_sign(ma, mb, mc) > 0 {
                wire_fg()
            } else {
                wire_bg()
            };
            wire_tri(prev, scr2(ma), scr2(mb), scr2(mc), col, w, h)
        } else {
            prev
        }
    }
}

/// A flat row-major buffer index decomposes into its pixel column and
/// row.
proof fn lemma_flat_to_grid(w: int, h: int, k: int)
    requires
        0 < w,
        0 <= k < w * h,
    ensures
        ({
            let j = k / w;
            let i = k % w;
            0 <= i < w && 0 <= j < h && i + j * w == k
        }),
{
    vstd::arithmetic::div_mod::lemma_fundamental_div_mod(k, w);
    vstd::arithmetic::div_mod::lemma_mod_division_less_than_divisor(k, w);
    vstd::arithmetic::mul::lemma_mul_is_commutative(w, k / w);
    if k / w >= h {
        assert(w * (k / w) >= w * h) by (nonlinear_arith)
            requires
                k / w >= h,
                w > 0,
        ;
    }
    if k / w < 0 {
        assert(w * (k / w) <= w * (-1)) by (nonlinear_arith)
            requires
                k / w <= -1,
                w > 0,
        ;
    }
}

impl Rasterizer {
    /// The vertex stage: asks the primitive for the three clip-space
    /// positions of triangle `pidx` and stores them.
    pub fn vertex<P: IShader>(&mut self, primitive: &P, pidx: usize)
        requires
            ras_wf(*old(self)),
            pidx < primitive.prim_count(),
        ensures
            ras_wf(*final(self)),
            same_core(*old(self), *final(self)),
            final(self).gv.gl_Postion == primitive.vertex_spec(pidx as int),
            final(self).gv.cbuf@ == old(self).gv.cbuf@,
            final(self).gv.zbuf@ == old(self).gv.zbuf@,
            final(self).gv.gl_FragCoord == old(self).gv.gl_FragCoord,
            final(self).gv.gl_FrontFacing == old(self).gv.gl_FrontFacing,
    {
        self.gv.gl_Postion = primitive.vertex(pidx);
    }

    /// Screen mapping: perspective-divides each vertex by its `w`,
    /// applies the viewport matrix, and keeps the original `w`. Returns
    /// false, changing nothing, when a vertex sits exactly on the
    /// camera plane (`w` zero) or falls out of the mappable range; that
    /// triangle is dropped, which is the pipeline's clipping.
    pub fn mapping(&mut self) -> (r: bool)
        requires
            ras_wf(*old(self)),
        ensures
            ras_wf(*final(self)),
            same_core(*old(self), *final(self)),
            final(self).gv.cbuf@ == old(self).gv.cbuf@,
            final(self).gv.zbuf@ == old(self).gv.zbuf@,
            final(self).gv.gl_Postion == old(self).gv.gl_Postion,
            final(self).gv.gl_FrontFacing == old(self).gv.gl_FrontFacing,
            r == ({
                let m = old(self).mat_viewport;
                map_ok1(m, old(self).gv.gl_Postion.0) && map_ok1(m, old(self).gv.gl_Postion.1)
                    && map_ok1(m, old(self).gv.gl_Postion.2)
            }),
            r ==> final(self).gv.gl_FragCoord == (
                mapped1(old(self).mat_viewport, old(self).gv.gl_Postion.0),
                mapped1(old(self).mat_viewport, old(self).gv.gl_Postion.1),
                mapped1(old(self).mat_viewport, old(self).gv.gl_Postion.2),
            ),
            r ==> frag_ok(*final(self)),
            !r ==> final(self).gv.gl_FragCoord == old(self).gv.gl_FragCoord,
    {
        let (a, b, c) = self.gv.gl_Postion;
        if !(v4_within(&a, CLIP_LIM) && v4_within(&b, CLIP_LIM) && v4_within(&c, CLIP_LIM)) {
            return false;
        }
        if a.w.is_zero() || b.w.is_zero() || c.w.is_zero() {
            return false;
        }
        proof {
            lemma_pdiv_fits(a);
            lemma_pdiv_fits(b);
            lemma_pdiv_fits(c);
        }
        let da = a.div_s(a.w);
        let db = b.div_s(b.w);
        let dc = c.div_s(c.w);
        proof {
            assert(da == pdiv(a));
            assert(db == pdiv(b));
            assert(dc == pdiv(c));
        }
        if !(v4_within(&da, MAT_LIM) && v4_within(&db, MAT_LIM) && v4_within(&dc, MAT_LIM)) {
            return false;
        }
        let ma = self.mat_viewport.mul_vec(&da);
        let mb = self.mat_viewport.mul_vec(&db);
        let mc = self.mat_viewport.mul_vec(&dc);
        proof {
            assert(ma == vp_apply(self.mat_viewport, da));
            assert(mb == vp_apply(self.mat_viewport, db));
            assert(mc == vp_apply(self.mat_viewport, dc));
        }
        if !(v4_within(&ma, BARY_LIM) && v4_within(&mb, BARY_LIM) && v4_within(&mc, BARY_LIM)) {
            return false;
        }
        self.gv.gl_FragCoord = (ma.w(a.w), mb.w(b.w), mc.w(c.w));
        true
    }

    /// Back-face culling: reads the screen-space face sign from the
    /// projected 2D edges alone and records whether the face looks
    /// toward the viewer.
    pub fn culling(&mut self) -> (r: bool)
        requires
            ras_wf(*old(self)),
            frag_xy_ok(*old(self)),
        ensures
            ras_wf(*final(self)),
            same_core(*old(self), *final(self)),
            final(self).gv.cbuf@ == old(self).gv.cbuf@,
            final(self).gv.zbuf@ == old(self).gv.zbuf@,
            final(self).gv.gl_Postion == old(self).gv.gl_Postion,
            final(self).gv.gl_FragCoord == old(self).gv.gl_FragCoord,
            r == (face_sign(
                old(self).gv.gl_FragCoord.0,
                old(self).gv.gl_FragCoord.1,
                old(self).gv.gl_FragCoord.2,
            ) > 0),
            final(self).gv.gl_FrontFacing == r,
    {
        let (a, b, c) = self.gv.gl_FragCoord;
        proof {
            lemma_fxmul_bound(b.x@ - a.x@, c.y@ - a.y@, 0x4000_0000, 0x4000_0000);
            lemma_fxmul_bound(b.y@ - a.y@, c.x@ - a.x@, 0x4000_0000, 0x4000_0000);
        }
        let s = b.x.sub(a.x).mul(c.y.sub(a.y)).sub(b.y.sub(a.y).mul(c.x.sub(a.x)));
        let front = Fx::zero().lt(s);
        self.gv.gl_FrontFacing = front;
        front
    }

    /// Scan rasterization: walks the integer pixels of the triangle's
    /// expanded bounding box clipped to the screen; a pixel inside the
    /// triangle has its weights corrected by each vertex's clip `w` and
    /// renormalized, its depth interpolated and depth-tested. Exactly
    /// the accepted pixels come back, with their corrected coordinates,
    /// and the depth buffer is updated at exactly their indices.
    #[verifier::rlimit(100)]
    pub fn rasterization(&mut self) -> (r: Vec<(u32, u32, Vec3)>)
        requires
            ras_wf(*old(self)),
            frag_ok(*old(self)),
        ensures
            ras_wf(*final(self)),
            same_but_zbuf(*old(self), *final(self)),
            final(self).gv.zbuf@.len() == old(self).gv.zbuf@.len(),
            forall|i: int, j: int|
                0 <= i < old(self).sz.0 && 0 <= j < old(self).sz.1 ==> (#[trigger] final(self).gv.zbuf@[i + j * (old(self).sz.0 as int)])@ == ({
                    let (a, b, c) = old(self).gv.gl_FragCoord;
                    if i < scan_x_hi(*old(self)) && j < scan_y_hi(*old(self)) && px_accept(
                        *old(self),
                        i,
                        j,
                    ) {
                        px_depth(a, b, c, i, j)
                    } else {
                        old(self).gv.zbuf@[i + j * (old(self).sz.0 as int)]@
                    }
                }),
            forall|k: int|
                0 <= k < r@.len() ==> ({
                    let (a, b, c) = old(self).gv.gl_FragCoord;
                    let px = #[trigger] r@[k];
                    &&& (px.0 as int) < scan_x_hi(*old(self))
                    &&& (px.1 as int) < scan_y_hi(*old(self))
                    &&& px_accept(*old(self), px.0 as int, px.1 as int)
                    &&& px.2 == px_bc2(a, b, c, px.0 as int, px.1 as int)
                    &&& -(BC_LIM as int) <= px.2.x@ <= BC_LIM as int
                    &&& -(BC_LIM as int) <= px.2.y@ <= BC_LIM as int
                    &&& -(BC_LIM as int) <= px.2.z@ <= BC_LIM as int
                }),
            forall|i: int, j: int|
                0 <= i < scan_x_hi(*old(self)) && 0 <= j < scan_y_hi(*old(self))
                    && #[trigger] px_accept(*old(self), i, j) ==> exists|k: int|
                    ({
                        let (a, b, c) = old(self).gv.gl_FragCoord;
                        0 <= k < r@.len() && #[trigger] r@[k] == (
                        i as u32,
                        j as u32,
                        px_bc2(a, b, c, i, j),
                        )
                    }),
            ({
                let (a, b, c) = old(self).gv.gl_FragCoord;
                let w = old(self).sz.0 as int;
                let h = old(self).sz.1 as int;
                &&& final(self).gv.zbuf@ == z_scan(a, b, c, old(self).gv.zbuf@, w, h)
                &&& r@ == scan_list(a, b, c, old(self).gv.zbuf@, w, h)
            }),
    {
        let (a, b, c) = self.gv.gl_FragCoord;
        let a2 = a.to_vec2();
        let b2 = b.to_vec2();
        let c2 = c.to_vec2();
        let pts = [a2, b2, c2];
        proof {
            assert(pts@.len() == 3);
            assert(pts@[0] == a2 && pts@[1] == b2 && pts@[2] == c2);
        }
        let (lb, rt) = bound_box(pts.as_slice());
        proof {
            assert(max_x_upto(pts@, 0) == i64::MIN as int);
            assert(max_y_upto(pts@, 0) == i64::MIN as int);
            assert(max_x_upto(pts@, 1) == a.x@);
            assert(max_x_upto(pts@, 2) == imax(a.x@, b.x@));
            assert(max_x_upto(pts@, 3) == imax(imax(a.x@, b.x@), c.x@));
            assert(max_y_upto(pts@, 1) == a.y@);
            assert(max_y_upto(pts@, 2) == imax(a.y@, b.y@));
            assert(max_y_upto(pts@, 3) == imax(imax(a.y@, b.y@), c.y@));
            lemma_tdiv_mag(rt.x@, FX_ONE as int);
            lemma_tdiv_mag(rt.y@, FX_ONE as int);
            lemma_tdiv_bound(rt.x@, FX_ONE as int, BARY_LIM as int + FX_ONE as int);
            lemma_tdiv_bound(rt.y@, FX_ONE as int, BARY_LIM as int + FX_ONE as int);
        }
        let xt = rt.x.to_int();
        let yt = rt.y.to_int();
        let xhi: u32 = if xt < 0 {
            0
        } else if xt >= self.sz.0 as i64 {
            self.sz.0
        } else {
            xt as u32
        };
        let yhi: u32 = if yt < 0 {
            0
        } else if yt >= self.sz.1 as i64 {
            self.sz.1
        } else {
            yt as u32
        };
        proof {
            assert(xhi as int == scan_x_hi(*old(self)));
            assert(yhi as int == scan_y_hi(*old(self)));
        }
        let mut pixels: Vec<(u32, u32, Vec3)> = Vec::new();
        let mut i: u32 = 0;
        proof {
            assert(pixels@ =~= scan_px(
                a,
                b,
                c,
                old(self).gv.zbuf@,
                old(self).sz.0 as int,
                old(self).sz.1 as int,
                0,
            ));
        }
        while i < xhi
            invariant
                ras_wf(*self),
                same_but_zbuf(*old(self), *self),
                a == old(self).gv.gl_FragCoord.0,
                b == old(self).gv.gl_FragCoord.1,
                c == old(self).gv.gl_FragCoord.2,
                frag1_ok(a) && frag1_ok(b) && frag1_ok(c),
                pts@.len() == 3,
                pts@[0] == (Vec2 { x: a.x, y: a.y }) && pts@[1] == (Vec2 { x: b.x, y: b.y })
                    && pts@[2] == (Vec2 { x: c.x, y: c.y }),
                xhi as int == scan_x_hi(*old(self)),
                yhi as int == scan_y_hi(*old(self)),
                xhi <= self.sz.0,
                yhi <= self.sz.1,
                i <= xhi,
                self.gv.zbuf@.len() == old(self).gv.zbuf@.len(),
                forall|i2: int, j2: int|
                    0 <= i2 < old(self).sz.0 && 0 <= j2 < old(self).sz.1 ==> (#[trigger] self
                        .gv
                        .zbuf@[i2 + j2 * (old(self).sz.0 as int)])@ == ({
                        if i2 < i && j2 < yhi && px_accept(*old(self), i2, j2) {
                            px_depth(a, b, c, i2, j2)
                        } else {
                            old(self).gv.zbuf@[i2 + j2 * (old(self).sz.0 as int)]@
                        }
                    }),
                forall|k: int|
                    0 <= k < pixels@.len() ==> ({
                        let px = #[trigger] pixels@[k];
                        &&& (px.0 as int) < scan_x_hi(*old(self))
                        &&& (px.1 as int) < scan_y_hi(*old(self))
                        &&& px_accept(*old(self), px.0 as int, px.1 as int)
                        &&& px.2 == px_bc2(a, b, c, px.0 as int, px.1 as int)
                        &&& -(BC_LIM as int) <= px.2.x@ <= BC_LIM as int
                        &&& -(BC_LIM as int) <= px.2.y@ <= BC_LIM as int
                        &&& -(BC_LIM as int) <= px.2.z@ <= BC_LIM as int
                    }),
                forall|i2: int, j2: int|
                    0 <= i2 < i && 0 <= j2 < yhi && #[trigger] px_accept(*old(self), i2, j2)
                        ==> exists|k: int|
                        0 <= k < pixels@.len() && #[trigger] pixels@[k] == (
                        i2 as u32,
                        j2 as u32,
                        px_bc2(a, b, c, i2, j2),
                        ),
                pixels@ == scan_px(
                    a,
                    b,
                    c,
                    old(self).gv.zbuf@,
                    old(self).sz.0 as int,
                    old(self).sz.1 as int,
                    i as int,
                ),
            decreases xhi - i,
        {
            let mut j: u32 = 0;
            proof {
                assert(pixels@ =~= scan_px(
                    a,
                    b,
                    c,
                    old(self).gv.zbuf@,
                    old(self).sz.0 as int,
                    old(self).sz.1 as int,
                    i as int,
                ) + col_px(
                    a,
                    b,
                    c,
                    old(self).gv.zbuf@,
                    old(self).sz.0 as int,
                    i as int,
                    0,
                ));
            }
            while j < yhi
                invariant
                    ras_wf(*self),
                    same_but_zbuf(*old(self), *self),
                    a == old(self).gv.gl_FragCoord.0,
                    b == old(self).gv.gl_FragCoord.1,
                    c == old(self).gv.gl_FragCoord.2,
                    frag1_ok(a) && frag1_ok(b) && frag1_ok(c),
                    pts@.len() == 3,
                    pts@[0] == (Vec2 { x: a.x, y: a.y }) && pts@[1] == (Vec2 { x: b.x, y: b.y })
                        && pts@[2] == (Vec2 { x: c.x, y: c.y }),
                    xhi as int == scan_x_hi(*old(self)),
                    yhi as int == scan_y_hi(*old(self)),
                    xhi <= self.sz.0,
                    yhi <= self.sz.1,
                    i < xhi,
                    j <= yhi,
                    self.gv.zbuf@.len() == old(self).gv.zbuf@.len(),
                    forall|i2: int, j2: int|
                        0 <= i2 < old(self).sz.0 && 0 <= j2 < old(self).sz.1 ==> (
                        #[trigger] self.gv.zbuf@[i2 + j2 * (old(self).sz.0 as int)])@ == ({
                            if (i2 < i || (i2 == i && j2 < j)) && i2 < xhi && j2 < yhi
                                && px_accept(*old(self), i2, j2) {
                                px_depth(a, b, c, i2, j2)
                            } else {
                                old(self).gv.zbuf@[i2 + j2 * (old(self).sz.0 as int)]@
                            }
                        }),
                    forall|k: int|
                        0 <= k < pixels@.len() ==> ({
                            let px = #[trigger] pixels@[k];
                            &&& (px.0 as int) < scan_x_hi(*old(self))
                            &&& (px.1 as int) < scan_y_hi(*old(self))
                            &&& px_accept(*old(self), px.0 as int, px.1 as int)
                            &&& px.2 == px_bc2(a, b, c, px.0 as int, px.1 as int)
                            &&& -(BC_LIM as int) <= px.2.x@ <= BC_LIM as int
                            &&& -(BC_LIM as int) <= px.2.y@ <= BC_LIM as int
                            &&& -(BC_LIM as int) <= px.2.z@ <= BC_LIM as int
                        }),
                    forall|i2: int, j2: int|
                        0 <= i2 < xhi && 0 <= j2 < yhi && (i2 < i || (i2 == i && j2 < j))
                            && #[trigger] px_accept(*old(self), i2, j2) ==> exists|k: int|
                            0 <= k < pixels@.len() && #[trigger] pixels@[k] == (
                            i2 as u32,
                            j2 as u32,
                            px_bc2(a, b, c, i2, j2),
                            ),
                    pixels@ == scan_px(
                        a,
                        b,
                        c,
                        old(self).gv.zbuf@,
                        old(self).sz.0 as int,
                        old(self).sz.1 as int,
                        i as int,
                    ) + col_px(
                        a,
                        b,
                        c,
                        old(self).gv.zbuf@,
                        old(self).sz.0 as int,
                        i as int,
                        j as int,
                    ),
                decreases yhi - j,
            {
                proof {
                    assert((j as int) * (self.sz.0 as int) + (i as int) < (self.sz.0 as int) * (
                    self.sz.1 as int) && (j as int) * (self.sz.0 as int) >= 0)
                        by (nonlinear_arith)
                        requires
                            i < self.sz.0,
                            j < self.sz.1,
                            self.sz.0 <= 0x2000,
                            self.sz.1 <= 0x2000,
                    ;
                    assert(self.gv.zbuf@[i as int + (j as int) * (old(self).sz.0 as int)]@ == old(
                        self,
                    ).gv.zbuf@[i as int + (j as int) * (old(self).sz.0 as int)]@);
                }
                let ghost prev = self.gv.zbuf@;
                let ro = self.scan_pixel(a, b, c, &pts, i, j);
                proof {
                    lemma_scan_step(
                        *old(self),
                        *self,
                        prev,
                        a,
                        b,
                        c,
                        i as int,
                        j as int,
                        xhi as int,
                        yhi as int,
                    );
                }
                let ghost pre_pixels = pixels@;
                match ro {
                    Some(bc2) => {
                        pixels.push((i, j, bc2));
                    },
                    None => {},
                }
                proof {
                    assert forall|i2: int, j2: int|
                        0 <= i2 < xhi && 0 <= j2 < yhi && (i2 < i || (i2 == i && j2 < j + 1))
                            && #[trigger] px_accept(*old(self), i2, j2) implies exists|k: int|
                        0 <= k < pixels@.len() && (#[trigger] pixels@[k]) == (
                        i2 as u32,
                        j2 as u32,
                        px_bc2(a, b, c, i2, j2),
                        ) by {
                        if i2 == i as int && j2 == j as int {
                            assert(pixels@[pixels@.len() - 1] == (
                            i2 as u32,
                            j2 as u32,
                            px_bc2(a, b, c, i2, j2),
                            ));
                        } else {
                            let k0 = choose|k: int|
                                0 <= k < pre_pixels.len() && pre_pixels[k] == (
                                i2 as u32,
                                j2 as u32,
                                px_bc2(a, b, c, i2, j2),
                                );
                            assert(pixels@[k0] == pre_pixels[k0]);
                        }
                    };
                    let zb0 = old(self).gv.zbuf@;
                    let wI = old(self).sz.0 as int;
                    let hI = old(self).sz.1 as int;
                    let cp = col_px(a, b, c, zb0, wI, i as int, j as int + 1);
                    if px_acc(a, b, c, zb0, wI, i as int, j as int) {
                        assert((i as int) as u32 == i);
                        assert((j as int) as u32 == j);
                        assert(cp == col_px(a, b, c, zb0, wI, i as int, j as int).push(
                            (i, j, px_bc2(a, b, c, i as int, j as int)),
                        ));
                        assert(pixels@ =~= scan_px(a, b, c, zb0, wI, hI, i as int) + cp);
                    } else {
                        assert(cp == col_px(a, b, c, zb0, wI, i as int, j as int));
                        assert(pixels@ == scan_px(a, b, c, zb0, wI, hI, i as int) + cp);
                    }
                }
                j = j + 1;
            }
            proof {
                let zb0 = old(self).gv.zbuf@;
                let wI = old(self).sz.0 as int;
                let hI = old(self).sz.1 as int;
                assert(j as int == scan_yh(a, b, c, hI));
                assert(scan_px(a, b, c, zb0, wI, hI, i as int + 1) == scan_px(
                    a,
                    b,
                    c,
                    zb0,
                    wI,
                    hI,
                    i as int,
                ) + col_px(a, b, c, zb0, wI, i as int, scan_yh(a, b, c, hI)));
                assert(pixels@ == scan_px(a, b, c, zb0, wI, hI, i as int + 1));
            }
            i = i + 1;
        }
        proof {
            let zb0 = old(self).gv.zbuf@;
            let wI = old(self).sz.0 as int;
            let hI = old(self).sz.1 as int;
            assert(i as int == scan_xh(a, b, c, wI));
            assert(pixels@ == scan_list(a, b, c, zb0, wI, hI));
            let zs = z_scan(a, b, c, zb0, wI, hI);
            assert(self.gv.zbuf@.len() == zs.len());
            assert forall|k: int| 0 <= k < zs.len() implies self.gv.zbuf@[k] == zs[k] by {
                if wI == 0 {
                    assert(wI * hI == 0) by (nonlinear_arith)
                        requires
                            wI == 0,
                    ;
                }
                lemma_flat_to_grid(wI, hI, k);
                let j2 = k / wI;
                let i2 = k % wI;
                assert(self.gv.zbuf@[i2 + j2 * wI]@ == ({
                    if i2 < scan_x_hi(*old(self)) && j2 < scan_y_hi(*old(self)) && px_accept(
                        *old(self),
                        i2,
                        j2,
                    ) {
                        px_depth(a, b, c, i2, j2)
                    } else {
                        zb0[i2 + j2 * wI]@
                    }
                }));
                if i2 < scan_xh(a, b, c, wI) && j2 < scan_yh(a, b, c, hI) && px_acc(
                    a,
                    b,
                    c,
                    zb0,
                    wI,
                    i2,
                    j2,
                ) {
                    assert(fxv(px_depth(a, b, c, i2, j2))@ == px_depth(a, b, c, i2, j2));
                    assert(self.gv.zbuf@[k].raw == zs[k].raw);
                } else {
                    assert(self.gv.zbuf@[k].raw == zs[k].raw);
                }
            };
            assert(self.gv.zbuf@ =~= zs);
        }
        pixels
    }

    /// One pixel of the scan: the barycentric inside test, the
    /// perspective correction and renormalization, the depth
    /// interpolation and the depth test. The corrected coordinate comes
    /// back exactly when the pixel is accepted, and the depth buffer
    /// entry of the pixel is then the interpolated depth.
    fn scan_pixel(&mut self, a: Vec4, b: Vec4, c: Vec4, pts: &[Vec2; 3], i: u32, j: u32) -> (r:
        Option<Vec3>)
        requires
            ras_wf(*old(self)),
            frag1_ok(a) && frag1_ok(b) && frag1_ok(c),
            pts@.len() == 3,
            pts@[0] == (Vec2 { x: a.x, y: a.y }),
            pts@[1] == (Vec2 { x: b.x, y: b.y }),
            pts@[2] == (Vec2 { x: c.x, y: c.y }),
            i < old(self).sz.0,
            j < old(self).sz.1,
        ensures
            ras_wf(*final(self)),
            same_but_zbuf(*old(self), *final(self)),
            final(self).gv.zbuf@.len() == old(self).gv.zbuf@.len(),
            ({
                let idx = i + j * (old(self).sz.0 as int);
                let d = px_depth(a, b, c, i as int, j as int);
                let ok = px_inside(a, b, c, i as int, j as int) && px_sum(
                    a,
                    b,
                    c,
                    i as int,
                    j as int,
                ) != 0 && depth_pass(old(self).gv.zbuf@[idx]@, d);
                match r {
                    Some(bc) => {
                        &&& ok
                        &&& bc == px_bc2(a, b, c, i as int, j as int)
                        &&& -(BC_LIM as int) <= bc.x@ <= BC_LIM as int
                        &&& -(BC_LIM as int) <= bc.y@ <= BC_LIM as int
                        &&& -(BC_LIM as int) <= bc.z@ <= BC_LIM as int
                        &&& fx_fits(d)
                        &&& final(self).gv.zbuf@ == old(self).gv.zbuf@.update(idx, fxv(d))
                    },
                    None => !ok && final(self).gv.zbuf@ == old(self).gv.zbuf@,
                }
            }),
    {
        let px = Vec2::from(Fx::from_int(i as i64), Fx::from_int(j as i64));
        proof {
            assert(px == pixel_pt(i as int, j as int));
        }
        let bc = match barycentric(pts, px) {
            Some(bc) => bc,
            None => {
                proof {
                    assert(!px_inside(a, b, c, i as int, j as int));
                }
                return None;
            },
        };
        proof {
            assert(bc == px_bc(a, b, c, i as int, j as int));
            assert(0 <= bc.x@ <= FX_ONE as int);
            assert(0 <= bc.y@ <= FX_ONE as int);
            assert(0 <= bc.z@ <= FX_ONE as int);
            lemma_tdiv_mag(bc.x@ * (FX_ONE as int), a.w@);
            lemma_tdiv_mag(bc.y@ * (FX_ONE as int), b.w@);
            lemma_tdiv_mag(bc.z@ * (FX_ONE as int), c.w@);
        }
        let bcc = Vec3::from(bc.x.div(a.w), bc.y.div(b.w), bc.z.div(c.w));
        let sum = bcc.x.add(bcc.y).add(bcc.z);
        proof {
            assert(bcc == px_bcc(a, b, c, i as int, j as int));
            assert(sum@ == px_sum(a, b, c, i as int, j as int));
        }
        if sum.is_zero() {
            return None;
        }
        proof {
            lemma_tdiv_mag(bcc.x@ * (FX_ONE as int), sum@);
            lemma_tdiv_mag(bcc.y@ * (FX_ONE as int), sum@);
            lemma_tdiv_mag(bcc.z@ * (FX_ONE as int), sum@);
        }
        let bc2 = bcc.div_s(sum);
        proof {
            assert(bc2 == px_bc2(a, b, c, i as int, j as int));
        }
        let z = interpolate_wide(&bc2, a.z, b.z, c.z);
        proof {
            assert(z@ == px_depth(a, b, c, i as int, j as int));
            assert((j as int) * (self.sz.0 as int) + (i as int) < (self.sz.0 as int) * (
            self.sz.1 as int) && (j as int) * (self.sz.0 as int) < 0x1000_0000)
                by (nonlinear_arith)
                requires
                    i < self.sz.0,
                    j < self.sz.1,
                    self.sz.0 <= 0x2000,
                    self.sz.1 <= 0x2000,
            ;
        }
        let idx: usize = (i + j * self.sz.0) as usize;
        if self.test_depth(idx, z) {
            Some(bc2)
        } else {
            None
        }
    }

    /// The fragment stage: asks the primitive for the color of every
    /// listed pixel and writes its bytes; pixels not listed keep their
    /// bytes.
    pub fn fragment<P: IShader>(
        &mut self,
        primitive: &P,
        pidx: usize,
        pixels: &Vec<(u32, u32, Vec3)>,
    )
        requires
            ras_wf(*old(self)),
            pidx < primitive.prim_count(),
            forall|k: int|
                0 <= k < pixels@.len() ==> ({
                    let px = #[trigger] pixels@[k];
                    &&& -(BC_LIM as int) <= px.2.x@ <= BC_LIM as int
                    &&& -(BC_LIM as int) <= px.2.y@ <= BC_LIM as int
                    &&& -(BC_LIM as int) <= px.2.z@ <= BC_LIM as int
                }),
        ensures
            ras_wf(*final(self)),
            same_but_cbuf(*old(self), *final(self)),
            final(self).gv.cbuf@ == painted(
                primitive,
                pidx as int,
                old(self).gv.cbuf@,
                pixels@,
                pixels@.len() as int,
                old(self).sz.0 as int,
                old(self).sz.1 as int,
            ),
    {
        let mut k: usize = 0;
        while k < pixels.len()
            invariant
                ras_wf(*self),
                same_but_cbuf(*old(self), *self),
                k <= pixels@.len(),
                pidx < primitive.prim_count(),
                forall|q: int|
                    0 <= q < pixels@.len() ==> ({
                        let px = #[trigger] pixels@[q];
                        &&& -(BC_LIM as int) <= px.2.x@ <= BC_LIM as int
                        &&& -(BC_LIM as int) <= px.2.y@ <= BC_LIM as int
                        &&& -(BC_LIM as int) <= px.2.z@ <= BC_LIM as int
                    }),
                self.gv.cbuf@ == painted(
                    primitive,
                    pidx as int,
                    old(self).gv.cbuf@,
                    pixels@,
                    k as int,
                    old(self).sz.0 as int,
                    old(self).sz.1 as int,
                ),
            decreases pixels@.len() - k,
        {
            let (i, j, bc) = pixels[k];
            let col = primitive.fragment(pidx, &bc);
            self.set_color(i, j, &col);
            k = k + 1;
        }
    }

    /// Draws one primitive: with the wireframe toggle on, exactly the
    /// effect of [`Rasterizer::draw_wire`]; with it off, exactly that of
    /// [`Rasterizer::draw_fill`]. Across the whole draw the depth buffer
    /// only ever moves nearer.
    pub fn draw<P: IPrimitive>(&mut self, primitive: &P)
        requires
            ras_wf(*old(self)),
        ensures
            ras_wf(*final(self)),
            same_core(*old(self), *final(self)),
            final(self).gv.cbuf@.len() == old(self).gv.cbuf@.len(),
            final(self).gv.zbuf@.len() == old(self).gv.zbuf@.len(),
            forall|k: int|
                0 <= k < final(self).gv.zbuf@.len() ==> (#[trigger] final(self).gv.zbuf@[k])@ <= old(self).gv.zbuf@[k]@,
            old(self).gv.en_wire_frame ==> final(self).gv.zbuf@ == old(self).gv.zbuf@
                && final(self).gv.cbuf@ == wire_state(
                primitive,
                old(self).mat_viewport,
                old(self).sz.0 as int,
                old(self).sz.1 as int,
                old(self).gv.cbuf@,
                primitive.prim_count() as int,
            ),
            !old(self).gv.en_wire_frame ==> (final(self).gv.zbuf@, final(self).gv.cbuf@)
                == fill_state(
                primitive,
                old(self).mat_viewport,
                old(self).gv.en_cull_back_face,
                old(self).sz.0 as int,
                old(self).sz.1 as int,
                old(self).gv.zbuf@,
                old(self).gv.cbuf@,
                primitive.prim_count() as int,
            ),
    {
        if self.gv.en_wire_frame {
            self.draw_wire(primitive);
        } else {
            self.draw_fill(primitive);
        }
    }

    /// Draws every triangle of the primitive through the full staged
    /// pipeline: vertex stage, mapping, optional culling, rasterization
    /// with the depth test, and the fragment stage. Both buffers end
    /// exactly as [`fill_state`] folds the per-triangle step over the
    /// whole index range, and the depth buffer only ever moves nearer.
    pub fn draw_fill<P: IPrimitive>(&mut self, primitive: &P)
        requires
            ras_wf(*old(self)),
        ensures
            ras_wf(*final(self)),
            same_core(*old(self), *final(self)),
            final(self).gv.cbuf@.len() == old(self).gv.cbuf@.len(),
            final(self).gv.zbuf@.len() == old(self).gv.zbuf@.len(),
            forall|k: int|
                0 <= k < final(self).gv.zbuf@.len() ==> (#[trigger] final(self).gv.zbuf@[k])@ <= old(self).gv.zbuf@[k]@,
            (final(self).gv.zbuf@, final(self).gv.cbuf@) == fill_state(
                primitive,
                old(self).mat_viewport,
                old(self).gv.en_cull_back_face,
                old(self).sz.0 as int,
                old(self).sz.1 as int,
                old(self).gv.zbuf@,
                old(self).gv.cbuf@,
                primitive.prim_count() as int,
            ),
    {
        let ghost vp = old(self).mat_viewport;
        let ghost cull = old(self).gv.en_cull_back_face;
        let ghost wI = old(self).sz.0 as int;
        let ghost hI = old(self).sz.1 as int;
        let ghost zb0 = old(self).gv.zbuf@;
        let ghost cb0 = old(self).gv.cbuf@;
        let (start, end) = primitive.indices();
        let mut pidx: usize = start;
        while pidx < end
            invariant
                ras_wf(*self),
                same_core(*old(self), *self),
                end == primitive.prim_count(),
                pidx <= end,
                vp == old(self).mat_viewport,
                cull == old(self).gv.en_cull_back_face,
                wI == old(self).sz.0 as int,
                hI == old(self).sz.1 as int,
                zb0 == old(self).gv.zbuf@,
                cb0 == old(self).gv.cbuf@,
                self.gv.cbuf@.len() == old(self).gv.cbuf@.len(),
                self.gv.zbuf@.len() == old(self).gv.zbuf@.len(),
                forall|k: int|
                    0 <= k < self.gv.zbuf@.len() ==> (#[trigger] self.gv.zbuf@[k])@ <= old(self).gv.zbuf@[k]@,
                (self.gv.zbuf@, self.gv.cbuf@) == fill_state(
                    primitive,
                    vp,
                    cull,
                    wI,
                    hI,
                    zb0,
                    cb0,
                    pidx as int,
                ),
            decreases end - pidx,
        {
            let ghost sp = fill_state(primitive, vp, cull, wI, hI, zb0, cb0, pidx as int);
            let ghost vs = primitive.vertex_spec(pidx as int);
            self.vertex(primitive, pidx);
            if self.mapping() {
                proof {
                    assert(map_ok1(vp, vs.0) && map_ok1(vp, vs.1) && map_ok1(vp, vs.2));
                    assert(self.gv.gl_FragCoord == (
                        mapped1(vp, vs.0),
                        mapped1(vp, vs.1),
                        mapped1(vp, vs.2),
                    ));
                }
                let proceed = if self.gv.en_cull_back_face {
                    self.culling()
                } else {
                    true
                };
                if proceed {
                    let ghost pre = *self;
                    let px = self.rasterization();
                    proof {
                        assert forall|k: int| 0 <= k < self.gv.zbuf@.len() implies (
                        #[trigger] self.gv.zbuf@[k])@ <= pre.gv.zbuf@[k]@ by {
                            let w = pre.sz.0 as int;
                            let h = pre.sz.1 as int;
                            if w > 0 {
                                lemma_flat_to_grid(w, h, k);
                                let jj = k / w;
                                let ii = k % w;
                                assert(self.gv.zbuf@[ii + jj * w]@ <= pre.gv.zbuf@[ii + jj
                                    * w]@);
                            } else {
                                assert(w * h == 0) by (nonlinear_arith)
                                    requires
                                        w == 0,
                                ;
                            }
                        };
                    }
                    self.fragment(primitive, pidx, &px);
                    proof {
                        let ma = mapped1(vp, vs.0);
                        let mb = mapped1(vp, vs.1);
                        let mc = mapped1(vp, vs.2);
                        let lst = scan_list(ma, mb, mc, sp.0, wI, hI);
                        assert(px@ == lst);
                        assert(self.gv.zbuf@ == z_scan(ma, mb, mc, sp.0, wI, hI));
                        assert(self.gv.cbuf@ == painted(
                            primitive,
                            pidx as int,
                            sp.1,
                            lst,
                            lst.len() as int,
                            wI,
                            hI,
                        ));
                        assert((self.gv.zbuf@, self.gv.cbuf@) == fill_state(
                            primitive,
                            vp,
                            cull,
                            wI,
                            hI,
                            zb0,
                            cb0,
                            pidx as int + 1,
                        ));
                    }
                } else {
                    proof {
                        assert((self.gv.zbuf@, self.gv.cbuf@) == fill_state(
                            primitive,
                            vp,
                            cull,
                            wI,
                            hI,
                            zb0,
                            cb0,
                            pidx as int + 1,
                        ));
                    }
                }
            } else {
                proof {
                    assert((self.gv.zbuf@, self.gv.cbuf@) == fill_state(
                        primitive,
                        vp,
                        cull,
                        wI,
                        hI,
                        zb0,
                        cb0,
                        pidx as int + 1,
                    ));
                }
            }
            pidx = pidx + 1;
        }
    }

    /// Draws every triangle of the primitive as its three projected
    /// edges: the foreground color for front faces and the distinct
    /// background color for back faces, which are drawn whether or not
    /// culling is on. The color buffer ends exactly as [`wire_state`]
    /// folds the three edge walks over the whole index range, and the
    /// depth buffer never changes.
    pub fn draw_wire<P: IPrimitive>(&mut self, primitive: &P)
        requires
            ras_wf(*old(self)),
        ensures
            ras_wf(*final(self)),
            same_core(*old(self), *final(self)),
            final(self).gv.cbuf@.len() == old(self).gv.cbuf@.len(),
            final(self).gv.zbuf@ == old(self).gv.zbuf@,
            final(self).gv.cbuf@ == wire_state(
                primitive,
                old(self).mat_viewport,
                old(self).sz.0 as int,
                old(self).sz.1 as int,
                old(self).gv.cbuf@,
                primitive.prim_count() as int,
            ),
    {
        let ghost vp = old(self).mat_viewport;
        let ghost wI = old(self).sz.0 as int;
        let ghost hI = old(self).sz.1 as int;
        let ghost cb0 = old(self).gv.cbuf@;
        let fg = Vec4::fill(Fx::one());
        let bg = Vec4::fill(Fx::from_ratio(3, 5)).w(Fx::one());
        proof {
            assert(fg == wire_fg());
            assert(bg == wire_bg());
        }
        let (start, end) = primitive.indices();
        let mut pidx: usize = start;
        while pidx < end
            invariant
                ras_wf(*self),
                same_core(*old(self), *self),
                end == primitive.prim_count(),
                pidx <= end,
                vp == old(self).mat_viewport,
                wI == old(self).sz.0 as int,
                hI == old(self).sz.1 as int,
                cb0 == old(self).gv.cbuf@,
                fg == wire_fg(),
                bg == wire_bg(),
                self.gv.cbuf@.len() == old(self).gv.cbuf@.len(),
                self.gv.zbuf@ == old(self).gv.zbuf@,
                self.gv.cbuf@ == wire_state(primitive, vp, wI, hI, cb0, pidx as int),
            decreases end - pidx,
        {
            let ghost sp = wire_state(primitive, vp, wI, hI, cb0, pidx as int);
            let ghost vs = primitive.vertex_spec(pidx as int);
            self.vertex(primitive, pidx);
            if self.mapping() {
                proof {
                    assert(map_ok1(vp, vs.0) && map_ok1(vp, vs.1) && map_ok1(vp, vs.2));
                    assert(self.gv.gl_FragCoord == (
                        mapped1(vp, vs.0),
                        mapped1(vp, vs.1),
                        mapped1(vp, vs.2),
                    ));
                }
                let front = self.culling();
                let color = if front {
                    fg
                } else {
                    bg
                };
                let (a, b, c) = self.gv.gl_FragCoord;
                let a2 = a.to_vec2();
                let b2 = b.to_vec2();
                let c2 = c.to_vec2();
                let ghost cb1 = self.gv.cbuf@;
                self.line(&[a2, b2], color);
                proof {
                    assert(self.gv.cbuf@ == wire_line(cb1, a2, b2, color, wI, hI));
                }
                let ghost cb2 = self.gv.cbuf@;
                self.line(&[a2, c2], color);
                proof {
                    assert(self.gv.cbuf@ == wire_line(cb2, a2, c2, color, wI, hI));
                }
                let ghost cb3 = self.gv.cbuf@;
                self.line(&[b2, c2], color);
                proof {
                    assert(self.gv.cbuf@ == wire_line(cb3, b2, c2, color, wI, hI));
                    let ma = mapped1(vp, vs.0);
                    let mb = mapped1(vp, vs.1);
                    let mc = mapped1(vp, vs.2);
                    assert(a2 == scr2(ma) && b2 == scr2(mb) && c2 == scr2(mc));
                    assert(self.gv.cbuf@ == wire_tri(sp, a2, b2, c2, color, wI, hI));
                    assert(self.gv.cbuf@ == wire_state(
                        primitive,
                        vp,
                        wI,
                        hI,
                        cb0,
                        pidx as int + 1,
                    ));
                }
            } else {
                proof {
                    assert(self.gv.cbuf@ == wire_state(
                        primitive,
                        vp,
                        wI,
                        hI,
                        cb0,
                        pidx as int + 1,
                    ));
                }
            }
            pidx = pidx + 1;
        }
    }
}

/// One scan step: after the depth test at pixel `(i, j)` the pointwise
/// depth-buffer description moves from "scanned before (i, j)" to
/// "scanned through (i, j)".
proof fn lemma_scan_step(
    r0: Rasterizer,
    r1: Rasterizer,
    prev: Seq<Fx>,
    a: Vec4,
    b: Vec4,
    c: Vec4,
    i: int,
    j: int,
    xhi: int,
    yhi: int,
)
    requires
        ras_wf(r0),
        r0.sz == r1.sz,
        (a, b, c) == r0.gv.gl_FragCoord,
        0 <= i < xhi,
        0 <= j < yhi,
        xhi <= r0.sz.0,
        yhi <= r0.sz.1,
        ras_wf(r1),
        prev.len() == r0.gv.zbuf@.len(),
        r1.gv.zbuf@.len() == prev.len(),
        forall|i2: int, j2: int|
            0 <= i2 < r0.sz.0 && 0 <= j2 < r0.sz.1 ==> (#[trigger] prev[i2 + j2 * (
            r0.sz.0 as int)])@ == ({
                if (i2 < i || (i2 == i && j2 < j)) && i2 < xhi && j2 < yhi && px_accept(
                    r0,
                    i2,
                    j2,
                ) {
                    px_depth(a, b, c, i2, j2)
                } else {
                    r0.gv.zbuf@[i2 + j2 * (r0.sz.0 as int)]@
                }
            }),
        ({
            let idx = i + j * (r0.sz.0 as int);
            if px_accept(r0, i, j) {
                r1.gv.zbuf@ == prev.update(idx, fxv(px_depth(a, b, c, i, j)))
                    && fx_fits(px_depth(a, b, c, i, j))
            } else {
                r1.gv.zbuf@ == prev
            }
        }),
    ensures
        forall|i2: int, j2: int|
            0 <= i2 < r0.sz.0 && 0 <= j2 < r0.sz.1 ==> (#[trigger] r1.gv.zbuf@[i2 + j2 * (
            r0.sz.0 as int)])@ == ({
                if (i2 < i || (i2 == i && j2 < j + 1)) && i2 < xhi && j2 < yhi && px_accept(
                    r0,
                    i2,
                    j2,
                ) {
                    px_depth(a, b, c, i2, j2)
                } else {
                    r0.gv.zbuf@[i2 + j2 * (r0.sz.0 as int)]@
                }
            }),
{
    let w = r0.sz.0 as int;
    assert forall|i2: int, j2: int| 0 <= i2 < r0.sz.0 && 0 <= j2 < r0.sz.1 implies (
    #[trigger] r1.gv.zbuf@[i2 + j2 * w])@ == ({
        if (i2 < i || (i2 == i && j2 < j + 1)) && i2 < xhi && j2 < yhi && px_accept(r0, i2, j2) {
            px_depth(a, b, c, i2, j2)
        } else {
            r0.gv.zbuf@[i2 + j2 * w]@
        }
    }) by {
        assert(j2 * w + i2 < (r0.sz.0 as int) * (r0.sz.1 as int) && j * w + i < (
        r0.sz.0 as int) * (r0.sz.1 as int) && 0 <= j2 * w + i2 && 0 <= j * w + i)
            by (nonlinear_arith)
            requires
                0 <= i2 < r0.sz.0,
                0 <= j2 < r0.sz.1,
                0 <= i < r0.sz.0,
                0 <= j < r0.sz.1,
                w == r0.sz.0 as int,
        ;
        if i2 + j2 * w == i + j * w {
            lemma_idx_unique(w, i, j, i2, j2);
        } else {
            assert(prev[i2 + j2 * w] == r1.gv.zbuf@[i2 + j2 * w]);
        }
    }
}

/// Whether every component of the vector lies within the bound.
fn v4_within(v: &Vec4, lim: i64) -> (r: bool)
    requires
        lim > 0,
    ensures
        r == v4_lim(*v, lim as int),
{
    -lim <= v.x.raw && v.x.raw <= lim && -lim <= v.y.raw && v.y.raw <= lim && -lim <= v.z.raw
        && v.z.raw <= lim && -lim <= v.w.raw && v.w.raw <= lim
}

/// The perspective divide of a bounded vertex with nonzero `w` fits the
/// machine word in every component.
proof fn lemma_pdiv_fits(v: Vec4)
    requires
        v4_lim(v, CLIP_LIM as int),
        v.w@ != 0,
    ensures
        fx_fits(fxdiv(v.x@, v.w@)),
        fx_fits(fxdiv(v.y@, v.w@)),
        fx_fits(fxdiv(v.z@, v.w@)),
        fx_fits(fxdiv(v.w@, v.w@)),
{
    lemma_tdiv_mag(v.x@ * (FX_ONE as int), v.w@);
    lemma_tdiv_mag(v.y@ * (FX_ONE as int), v.w@);
    lemma_tdiv_mag(v.z@ * (FX_ONE as int), v.w@);
    lemma_tdiv_mag(v.w@ * (FX_ONE as int), v.w@);
}

} // verus!
