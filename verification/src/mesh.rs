//! Built-in triangle meshes: the face index records every mesh keeps,
//! and the frustum and cube models with their hard-coded vertex data.

use vstd::prelude::*;
use crate::fx::{Fx, FX_ONE, fxv, fxmul, tdiv, lemma_tdiv_mag};
use crate::vecn::{Vec3, Vec4};
use crate::matn::{Mat4, mulv4, m4_lim, v3_lim, v4_lim, MAT_LIM};
use crate::shader::{IShader, IPrimitive, UniformMatrix, BC_LIM};

verus! {

/// The attribute indices of a triangle's three vertices.
#[derive(Clone, Copy, Debug, PartialEq, Eq, Structural)]
pub struct FaceAttrIdx(pub usize, pub usize, pub usize);

/// The per-triangle index record: positions, texture coordinates, and
/// normals.
#[derive(Clone, Copy, Debug, PartialEq, Eq, Structural)]
pub struct FaceIdx {
    pub v: FaceAttrIdx,
    pub vt: FaceAttrIdx,
    pub vn: FaceAttrIdx,
}

impl FaceIdx {
    /// A record from its three attribute index triples.
    pub fn new(v: FaceAttrIdx, vt: FaceAttrIdx, vn: FaceAttrIdx) -> (r: FaceIdx)
        ensures
            r == (FaceIdx { v, vt, vn }),
    {
        FaceIdx { v, vt, vn }
    }
}

/// The flavor a mesh is shaded with.
pub enum EMesh {
    /// Full material maps and lighting.
    Standard,
    /// Only the diffuse map.
    Lite,
    /// Normal visualization.
    Debug,
}

/// Magnitude limit on the stored vertex coordinates: 16 units.
pub const MESH_LIM: i64 = 0x10_0000;

/// A mesh whose triangles are hard-coded: positions, vertex colors, one
/// face record per triangle, and the combined transform its shader
/// applies.
pub struct MFrustum {
    faces: Vec<FaceIdx>,
    pos: Vec<Vec3>,
    color: Vec<Vec3>,
    mvp: Mat4,
}

impl MFrustum {
    /// All stored data is mutually consistent: every face indexes real
    /// vertices and colors, and every coordinate is bounded.
    #[verifier::type_invariant]
    pub closed spec fn inv(self) -> bool {
        &&& self.pos@.len() == self.color@.len()
        &&& forall|k: int|
            0 <= k < self.faces@.len() ==> {
                &&& (#[trigger] self.faces@[k]).v.0 < self.pos@.len()
                &&& self.faces@[k].v.1 < self.pos@.len()
                &&& self.faces@[k].v.2 < self.pos@.len()
            }
        &&& forall|k: int|
            0 <= k < self.pos@.len() ==> v3_lim(#[trigger] self.pos@[k], MESH_LIM as int)
        &&& forall|k: int|
            0 <= k < self.color@.len() ==> v3_lim(#[trigger] self.color@[k], MESH_LIM as int)
        &&& m4_lim(self.mvp, MAT_LIM as int)
    }

    /// A frustum: a wide back face, a narrow front face, and the four
    /// sides, two triangles each, with one color per side.
    pub fn new() -> (r: MFrustum)
        ensures
            r.prim_count() == 12,
    {
        let mut faces: Vec<FaceIdx> = Vec::new();
        let mut pos: Vec<Vec3> = Vec::new();
        let mut color: Vec<Vec3> = Vec::new();
        let red = rgb(10, 0, 0);
        let green = rgb(0, 10, 0);
        let blue = rgb(0, 0, 10);
        let white = rgb(10, 10, 10);
        let black = rgb(0, 0, 0);
        let magenta = rgb(10, 0, 10);
        // back
        add_tri(&mut faces, &mut pos, &mut color, pt(-5, -5, -5), pt(5, 5, -5), pt(5, -5, -5),
            red, green, blue);
        add_tri(&mut faces, &mut pos, &mut color, pt(5, 5, -5), pt(-5, -5, -5), pt(-5, 5, -5),
            white, black, black);
        // front
        add_tri(&mut faces, &mut pos, &mut color, pt(-2, -2, 5), pt(2, -2, 5), pt(2, 2, 5),
            white, white, white);
        add_tri(&mut faces, &mut pos, &mut color, pt(2, 2, 5), pt(-2, 2, 5), pt(-2, -2, 5),
            white, white, white);
        // left
        add_tri(&mut faces, &mut pos, &mut color, pt(-2, 2, 5), pt(-5, 5, -5), pt(-5, -5, -5),
            red, red, red);
        add_tri(&mut faces, &mut pos, &mut color, pt(-5, -5, -5), pt(-2, -2, 5), pt(-2, 2, 5),
            red, red, red);
        // right
        add_tri(&mut faces, &mut pos, &mut color, pt(2, 2, 5), pt(5, -5, -5), pt(5, 5, -5),
            blue, blue, blue);
        add_tri(&mut faces, &mut pos, &mut color, pt(5, -5, -5), pt(2, 2, 5), pt(2, -2, 5),
            blue, blue, blue);
        // down
        add_tri(&mut faces, &mut pos, &mut color, pt(-5, -5, -5), pt(5, -5, -5), pt(2, -2, 5),
            green, green, green);
        add_tri(&mut faces, &mut pos, &mut color, pt(2, -2, 5), pt(-2, -2, 5), pt(-5, -5, -5),
            green, green, green);
        // up
        add_tri(&mut faces, &mut pos, &mut color, pt(-5, 5, -5), pt(2, 2, 5), pt(5, 5, -5),
            magenta, magenta, magenta);
        add_tri(&mut faces, &mut pos, &mut color, pt(2, 2, 5), pt(-5, 5, -5), pt(-2, 2, 5),
            magenta, magenta, magenta);
        MFrustum { faces, pos, color, mvp: Mat4::eye(Fx::one()) }
    }

    /// A unit cube, two white triangles per side.
    pub fn new_cube() -> (r: MFrustum)
        ensures
            r.prim_count() == 12,
    {
        let mut faces: Vec<FaceIdx> = Vec::new();
        let mut pos: Vec<Vec3> = Vec::new();
        let mut color: Vec<Vec3> = Vec::new();
        let white = rgb(10, 10, 10);
        // back
        add_tri(&mut faces, &mut pos, &mut color, pt(-5, -5, -5), pt(5, 5, -5), pt(5, -5, -5),
            white, white, white);
        add_tri(&mut faces, &mut pos, &mut color, pt(5, 5, -5), pt(-5, -5, -5), pt(-5, 5, -5),
            white, white, white);
        // front
        add_tri(&mut faces, &mut pos, &mut color, pt(-5, -5, 5), pt(5, -5, 5), pt(5, 5, 5),
            white, white, white);
        add_tri(&mut faces, &mut pos, &mut color, pt(5, 5, 5), pt(-5, 5, 5), pt(-5, -5, 5),
            white, white, white);
        // left
        add_tri(&mut faces, &mut pos, &mut color, pt(-5, 5, 5), pt(-5, 5, -5), pt(-5, -5, -5),
            white, white, white);
        add_tri(&mut faces, &mut pos, &mut color, pt(-5, -5, -5), pt(-5, -5, 5), pt(-5, 5, 5),
            white, white, white);
        // right
        add_tri(&mut faces, &mut pos, &mut color, pt(5, 5, 5), pt(5, -5, -5), pt(5, 5, -5),
            white, white, white);
        add_tri(&mut faces, &mut pos, &mut color, pt(5, -5, -5), pt(5, 5, 5), pt(5, -5, 5),
            white, white, white);
        // down
        add_tri(&mut faces, &mut pos, &mut color, pt(-5, -5, -5), pt(5, -5, -5), pt(5, -5, 5),
            white, white, white);
        add_tri(&mut faces, &mut pos, &mut color, pt(5, -5, 5), pt(-5, -5, 5), pt(-5, -5, -5),
            white, white, white);
        // up
        add_tri(&mut faces, &mut pos, &mut color, pt(-5, 5, -5), pt(5, 5, 5), pt(5, 5, -5),
            white, white, white);
        add_tri(&mut faces, &mut pos, &mut color, pt(5, 5, 5), pt(-5, 5, -5), pt(-5, 5, 5),
            white, white, white);
        MFrustum { faces, pos, color, mvp: Mat4::eye(Fx::one()) }
    }
}

/// A coordinate in tenths of a unit.
fn pt(x: i64, y: i64, z: i64) -> (r: Vec3)
    requires
        -10 <= x <= 10,
        -10 <= y <= 10,
        -10 <= z <= 10,
    ensures
        r.x@ == tdiv(x * (FX_ONE as int), 10),
        r.y@ == tdiv(y * (FX_ONE as int), 10),
        r.z@ == tdiv(z * (FX_ONE as int), 10),
        v3_lim(r, MESH_LIM as int),
{
    proof {
        lemma_tdiv_mag(x * (FX_ONE as int), 10);
        lemma_tdiv_mag(y * (FX_ONE as int), 10);
        lemma_tdiv_mag(z * (FX_ONE as int), 10);
    }
    Vec3 { x: Fx::from_ratio(x, 10), y: Fx::from_ratio(y, 10), z: Fx::from_ratio(z, 10) }
}

/// A color in tenths of full intensity.
fn rgb(r: i64, g: i64, b: i64) -> (c: Vec3)
    requires
        0 <= r <= 10,
        0 <= g <= 10,
        0 <= b <= 10,
    ensures
        v3_lim(c, MESH_LIM as int),
{
    pt(r, g, b)
}

/// Appends one triangle: three positions, three colors, and a face
/// record indexing them.
fn add_tri(
    faces: &mut Vec<FaceIdx>,
    pos: &mut Vec<Vec3>,
    color: &mut Vec<Vec3>,
    p0: Vec3,
    p1: Vec3,
    p2: Vec3,
    c0: Vec3,
    c1: Vec3,
    c2: Vec3,
)
    requires
        old(pos)@.len() == old(color)@.len(),
        old(pos)@.len() + 3 <= usize::MAX,
        forall|k: int|
            0 <= k < old(faces)@.len() ==> {
                &&& (#[trigger] old(faces)@[k]).v.0 < old(pos)@.len()
                &&& old(faces)@[k].v.1 < old(pos)@.len()
                &&& old(faces)@[k].v.2 < old(pos)@.len()
            },
        forall|k: int|
            0 <= k < old(pos)@.len() ==> v3_lim(#[trigger] old(pos)@[k], MESH_LIM as int),
        forall|k: int|
            0 <= k < old(color)@.len() ==> v3_lim(#[trigger] old(color)@[k], MESH_LIM as int),
        v3_lim(p0, MESH_LIM as int),
        v3_lim(p1, MESH_LIM as int),
        v3_lim(p2, MESH_LIM as int),
        v3_lim(c0, MESH_LIM as int),
        v3_lim(c1, MESH_LIM as int),
        v3_lim(c2, MESH_LIM as int),
    ensures
        final(pos)@.len() == old(pos)@.len() + 3,
        final(color)@.len() == old(color)@.len() + 3,
        final(faces)@.len() == old(faces)@.len() + 1,
        forall|k: int|
            0 <= k < final(faces)@.len() ==> {
                &&& (#[trigger] final(faces)@[k]).v.0 < final(pos)@.len()
                &&& final(faces)@[k].v.1 < final(pos)@.len()
                &&& final(faces)@[k].v.2 < final(pos)@.len()
            },
        forall|k: int|
            0 <= k < final(pos)@.len() ==> v3_lim(#[trigger] final(pos)@[k], MESH_LIM as int),
        forall|k: int|
            0 <= k < final(color)@.len() ==> v3_lim(#[trigger] final(color)@[k], MESH_LIM as int),
{
    let n = pos.len();
    pos.push(p0);
    pos.push(p1);
    pos.push(p2);
    color.push(c0);
    color.push(c1);
    color.push(c2);
    let idx = FaceAttrIdx(n, n + 1, n + 2);
    faces.push(FaceIdx::new(idx, idx, idx));
}

/// Whether every entry of the matrix lies within the bound.
fn m4_within(m: &Mat4, lim: i64) -> (r: bool)
    requires
        lim > 0,
    ensures
        r == m4_lim(*m, lim as int),
{
    row_within(&m.r0, lim) && row_within(&m.r1, lim) && row_within(&m.r2, lim) && row_within(
        &m.r3,
        lim,
    )
}

/// Whether every component of the row lies within the bound.
fn row_within(v: &Vec4, lim: i64) -> (r: bool)
    requires
        lim > 0,
    ensures
        r == v4_lim(*v, lim as int),
{
    -lim <= v.x.raw && v.x.raw <= lim && -lim <= v.y.raw && v.y.raw <= lim && -lim <= v.z.raw
        && v.z.raw <= lim && -lim <= v.w.raw && v.w.raw <= lim
}

/// A position widened to a homogeneous point.
pub open spec fn homog(p: Vec3) -> Vec4 {
    Vec4 { x: p.x, y: p.y, z: p.z, w: fxv(FX_ONE as int) }
}

impl IShader for MFrustum {
    closed spec fn prim_count(&self) -> nat {
        self.faces@.len()
    }

    closed spec fn vertex_spec(&self, pidx: int) -> (Vec4, Vec4, Vec4) {
        let idx = self.faces@[pidx];
        (
            mulv4(self.mvp, homog(self.pos@[idx.v.0 as int])),
            mulv4(self.mvp, homog(self.pos@[idx.v.1 as int])),
            mulv4(self.mvp, homog(self.pos@[idx.v.2 as int])),
        )
    }

    closed spec fn frag_spec(&self, pidx: int, bc: Vec3) -> Vec4 {
        let idx = self.faces@[pidx];
        let a = self.color@[idx.v.0 as int];
        let b = self.color@[idx.v.1 as int];
        let c = self.color@[idx.v.2 as int];
        Vec4 {
            x: fxv(fxmul(a.x@, bc.x@) + fxmul(b.x@, bc.y@) + fxmul(c.x@, bc.z@)),
            y: fxv(fxmul(a.y@, bc.x@) + fxmul(b.y@, bc.y@) + fxmul(c.y@, bc.z@)),
            z: fxv(fxmul(a.z@, bc.x@) + fxmul(b.z@, bc.y@) + fxmul(c.z@, bc.z@)),
            w: fxv(FX_ONE as int),
        }
    }

    /// Takes the bundle's combined matrix when it is bounded enough to
    /// transform with; an unbounded one is dropped.
    fn set_uniforms(&mut self, u: UniformMatrix) {
        proof {
            use_type_invariant(&*self);
        }
        if m4_within(&u.mvp, MAT_LIM) {
            self.mvp = u.mvp;
        }
    }

    fn vertex(&self, pidx: usize) -> (r: (Vec4, Vec4, Vec4)) {
        proof {
            use_type_invariant(self);
        }
        let idx = self.faces[pidx];
        let one = Fx::one();
        (
            self.mvp.mul_vec(&self.pos[idx.v.0].to_vec4(one)),
            self.mvp.mul_vec(&self.pos[idx.v.1].to_vec4(one)),
            self.mvp.mul_vec(&self.pos[idx.v.2].to_vec4(one)),
        )
    }

    fn fragment(&self, pidx: usize, bc: &Vec3) -> (r: Vec4) {
        proof {
            use_type_invariant(self);
        }
        let idx = self.faces[pidx];
        let ca = self.color[idx.v.0];
        let cb = self.color[idx.v.1];
        let cc = self.color[idx.v.2];
        Vec4::from(
            crate::geom::interpolate_wide(bc, ca.x, cb.x, cc.x),
            crate::geom::interpolate_wide(bc, ca.y, cb.y, cc.y),
            crate::geom::interpolate_wide(bc, ca.z, cb.z, cc.z),
            Fx::one(),
        )
    }
}

impl IPrimitive for MFrustum {
    fn indices(&self) -> (r: (usize, usize)) {
        (0, self.faces.len())
    }
}

} // verus!
