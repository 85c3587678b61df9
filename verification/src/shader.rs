//! The shader contract and the uniform transform bundle.
//!
//! A drawable primitive implements [`IShader`]: asked for a primitive
//! index it hands back three clip-space vertex positions, and asked for a
//! barycentric coordinate it hands back a final color. [`UniformMatrix`]
//! is the transform bundle a scene passes into the shader each frame.

#![allow(non_snake_case)]

use vstd::prelude::*;
use crate::fx::{Fx, fxdiv};
use crate::vecn::{Vec3, Vec4, v4s};
use crate::matn::{Mat3, Mat4, mul4, ident4, ident3, m4_lim, det4, m4_minor, lemma_mul4_bound,
    INV_LIM, MAT_LIM};

verus! {

/// The per-primitive pipeline state, named after the built-in shader
/// variables it mirrors: clip-space vertex positions, the facing flag,
/// the screen-space fragment coordinates, and the color and depth
/// buffers with the two pipeline toggles.
pub struct GlslVars {
    /// The three clip-space vertex positions the vertex stage produced.
    pub gl_Postion: (Vec4, Vec4, Vec4),
    /// Whether the current face looks toward the viewer.
    pub gl_FrontFacing: bool,
    /// The three screen-space vertex coordinates after the perspective
    /// divide and the viewport map; each keeps its clip-space `w`.
    pub gl_FragCoord: (Vec4, Vec4, Vec4),
    /// One RGBA byte quadruple per pixel, row-major.
    pub cbuf: Vec<[u8; 4]>,
    /// One fixed-point depth per pixel, row-major.
    pub zbuf: Vec<Fx>,
    /// Draw edges instead of filling.
    pub en_wire_frame: bool,
    /// Skip faces that look away from the viewer.
    pub en_cull_back_face: bool,
}

impl GlslVars {
    /// Fresh state for a screen of `sz.0` by `sz.1` pixels: black color
    /// buffer, depth buffer filled with one, both toggles on.
    pub fn new(sz: (u32, u32)) -> (r: GlslVars)
        requires
            (sz.0 as int) * (sz.1 as int) <= 0x1000_0000,
        ensures
            r.cbuf@.len() == (sz.0 as int) * (sz.1 as int),
            r.zbuf@.len() == (sz.0 as int) * (sz.1 as int),
            forall|i: int| 0 <= i < r.cbuf@.len() ==> r.cbuf@[i] == [0u8, 0u8, 0u8, 0u8],
            forall|i: int| 0 <= i < r.zbuf@.len() ==> (#[trigger] r.zbuf@[i])@ == 65536,
            r.gl_Postion == (v4s(0, 0, 0, 0), v4s(0, 0, 0, 0), v4s(0, 0, 0, 0)),
            r.gl_FragCoord == (v4s(0, 0, 0, 0), v4s(0, 0, 0, 0), v4s(0, 0, 0, 0)),
            r.gl_FrontFacing == true,
            r.en_wire_frame == true && r.en_cull_back_face == true,
    {
        let max: usize = (sz.0 as usize) * (sz.1 as usize);
        GlslVars {
            gl_Postion: (Vec4::new(), Vec4::new(), Vec4::new()),
            gl_FrontFacing: true,
            gl_FragCoord: (Vec4::new(), Vec4::new(), Vec4::new()),
            cbuf: filled_bytes(max, [0u8, 0u8, 0u8, 0u8]),
            zbuf: filled_fx(max, Fx::one()),
            en_wire_frame: true,
            en_cull_back_face: true,
        }
    }
}

/// A vector of `n` copies of one byte quadruple.
pub fn filled_bytes(n: usize, v: [u8; 4]) -> (r: Vec<[u8; 4]>)
    ensures
        r@.len() == n,
        forall|i: int| 0 <= i < n ==> r@[i] == v,
{
    let mut out: Vec<[u8; 4]> = Vec::new();
    let mut i: usize = 0;
    while i < n
        invariant
            0 <= i <= n,
            out@.len() == i,
            forall|j: int| 0 <= j < i ==> out@[j] == v,
        decreases n - i,
    {
        out.push(v);
        i = i + 1;
    }
    out
}

/// A vector of `n` copies of one scalar.
pub fn filled_fx(n: usize, v: Fx) -> (r: Vec<Fx>)
    ensures
        r@.len() == n,
        forall|i: int| 0 <= i < n ==> r@[i] == v,
{
    let mut out: Vec<Fx> = Vec::new();
    let mut i: usize = 0;
    while i < n
        invariant
            0 <= i <= n,
            out@.len() == i,
            forall|j: int| 0 <= j < i ==> out@[j] == v,
        decreases n - i,
    {
        out.push(v);
        i = i + 1;
    }
    out
}

/// Magnitude limit on the barycentric weights handed to the fragment
/// stage: 2^48 raw counts. Weights of a triangle in front of the viewer
/// stay within one unit; a behind-viewer correction can push them this
/// far out.
pub const BC_LIM: i64 = 0x1_0000_0000_0000;

/// The shader contract a drawable primitive implements. The two spec
/// methods name the values the two stages hand back, so that the
/// pipeline's contracts can speak of them.
pub trait IShader: Sized {
    /// How many triangles the primitive holds.
    spec fn prim_count(&self) -> nat;

    /// The clip-space positions the vertex stage hands back.
    spec fn vertex_spec(&self, pidx: int) -> (Vec4, Vec4, Vec4);

    /// The color the fragment stage hands back.
    spec fn frag_spec(&self, pidx: int, bc: Vec3) -> Vec4;

    /// Takes over a fresh transform bundle for the next frame.
    fn set_uniforms(&mut self, u: UniformMatrix)
        ensures
            final(self).prim_count() == old(self).prim_count(),
    ;

    /// The three clip-space vertex positions of triangle `pidx`.
    fn vertex(&self, pidx: usize) -> (r: (Vec4, Vec4, Vec4))
        requires
            pidx < self.prim_count(),
        ensures
            r == self.vertex_spec(pidx as int),
    ;

    /// The final color for the barycentric coordinate `bc` inside
    /// triangle `pidx`.
    fn fragment(&self, pidx: usize, bc: &Vec3) -> (r: Vec4)
        requires
            pidx < self.prim_count(),
            -(BC_LIM as int) <= bc.x@ <= BC_LIM as int,
            -(BC_LIM as int) <= bc.y@ <= BC_LIM as int,
            -(BC_LIM as int) <= bc.z@ <= BC_LIM as int,
        ensures
            r == self.frag_spec(pidx as int, *bc),
    ;
}

/// A drawable primitive: a shader together with its triangle index
/// range.
pub trait IPrimitive: IShader {
    /// The index range, one entry per triangle.
    fn indices(&self) -> (r: (usize, usize))
        ensures
            r.0 == 0,
            r.1 == self.prim_count(),
    ;
}

/// The transform bundle a scene hands to its shaders each frame.
#[derive(Clone, Copy, Debug)]
pub struct UniformMatrix {
    /// Object to world.
    pub model: Mat4,
    /// World to camera.
    pub view: Mat4,
    /// Camera to clip space.
    pub proj: Mat4,
    /// The normal-correction matrix: the inverse of the model matrix,
    /// transposed and narrowed.
    pub mit: Mat3,
    /// The combined model-view-projection matrix.
    pub mvp: Mat4,
}

impl UniformMatrix {
    /// Identity transforms all around.
    pub fn new() -> (r: UniformMatrix)
        ensures
            r.model == ident4(),
            r.view == ident4(),
            r.proj == ident4(),
            r.mit == ident3(),
            r.mvp == ident4(),
    {
        UniformMatrix {
            model: Mat4::eye(Fx::one()),
            view: Mat4::eye(Fx::one()),
            proj: Mat4::eye(Fx::one()),
            mit: Mat3::eye(Fx::one()),
            mvp: Mat4::eye(Fx::one()),
        }
    }

    /// Rebuilds the normal-correction matrix: the transposed inverse of
    /// the model matrix, narrowed to 3x3, so entry `(i, j)` is the
    /// signed minor of the model with row `i` and column `j` removed,
    /// divided by the determinant.
    pub fn calc_mit(&mut self)
        requires
            m4_lim(old(self).model, INV_LIM as int),
            det4(old(self).model) != 0,
        ensures
            ({
                let m = old(self).model;
                let d = det4(m);
                &&& final(self).mit.r0.x@ == fxdiv(m4_minor(m, 0, 0), d)
                &&& final(self).mit.r0.y@ == fxdiv(-m4_minor(m, 0, 1), d)
                &&& final(self).mit.r0.z@ == fxdiv(m4_minor(m, 0, 2), d)
                &&& final(self).mit.r1.x@ == fxdiv(-m4_minor(m, 1, 0), d)
                &&& final(self).mit.r1.y@ == fxdiv(m4_minor(m, 1, 1), d)
                &&& final(self).mit.r1.z@ == fxdiv(-m4_minor(m, 1, 2), d)
                &&& final(self).mit.r2.x@ == fxdiv(m4_minor(m, 2, 0), d)
                &&& final(self).mit.r2.y@ == fxdiv(-m4_minor(m, 2, 1), d)
                &&& final(self).mit.r2.z@ == fxdiv(m4_minor(m, 2, 2), d)
            }),
            final(self).model == old(self).model,
            final(self).view == old(self).view,
            final(self).proj == old(self).proj,
            final(self).mvp == old(self).mvp,
    {
        self.mit = self.model.inverse().transpose().to_mat3();
    }

    /// Rebuilds the combined matrix: projection times view, times model.
    pub fn calc_mvp(&mut self)
        requires
            m4_lim(old(self).proj, 0x40_0000),
            m4_lim(old(self).view, 0x40_0000),
            m4_lim(old(self).model, MAT_LIM as int),
        ensures
            final(self).mvp == mul4(mul4(old(self).proj, old(self).view), old(self).model),
            final(self).model == old(self).model,
            final(self).view == old(self).view,
            final(self).proj == old(self).proj,
            final(self).mit == old(self).mit,
    {
        let pv = self.proj.mul_mat(&self.view);
        proof {
            lemma_mul4_bound(pv, self.proj, self.view, 0x40_0000, 0x40_0000);
        }
        self.mvp = pv.mul_mat(&self.model);
    }
}

} // verus!
