//! The rasterizer and the staged pipeline: direct draws, the depth
//! test's ordering, the no-seam property of adjacent triangles, and a
//! full draw of the built-in cube.

use magx::fx::Fx;
use magx::vecn::{Vec2, Vec4};
use magx::rasterizer::Rasterizer;
use magx::model::ModelLight;
use magx::mesh::MFrustum;
use magx::shader::{IShader, UniformMatrix};

fn hi(v: i64) -> Fx {
    Fx::from_int(v)
}

fn hv(x: Fx) -> f64 {
    x.raw as f64 / 65536.0
}

#[test]
fn rasterizer_test() {
    let mut r = Rasterizer::new((640, 480));
    let a = Vec2::from(hi(10), hi(10));
    let b = Vec2::from(hi(50), hi(460));
    let c = Vec2::from(hi(630), hi(430));
    let d = Vec2::from(hi(600), hi(100));
    let colors = vec![
        Vec4::from(hi(1), hi(0), hi(0), hi(1)),
        Vec4::from(hi(0), hi(1), hi(0), hi(1)),
        Vec4::from(hi(0), hi(0), hi(1), hi(1)),
    ];
    r.line(&[a, b], colors[0]);
    r.line(&[b, c], colors[1]);
    r.triangle(&[a, c, d], &colors);

    let buf = r.get_color();
    assert_eq!(buf.len(), 640 * 480);
    // a pixel well inside the triangle was shaded
    let inside = buf[(413 + 180 * 640) as usize];
    assert!(inside != [0u8, 0u8, 0u8, 0u8]);
    // a pixel far outside every shape stayed black
    let outside = buf[(5 + 240 * 640) as usize];
    assert_eq!(outside, [0u8, 0u8, 0u8, 0u8]);
}

#[test]
fn clear_buffers() {
    let mut r = Rasterizer::new((8, 8));
    r.clear_color(&Vec4::from(hi(1), hi(0), hi(0), hi(1)));
    assert_eq!(r.get_color()[0], [255u8, 0u8, 0u8, 255u8]);
    assert_eq!(r.get_color()[63], [255u8, 0u8, 0u8, 255u8]);
    r.clear_depth();
    assert_eq!(r.get_depth()[0].raw, i64::MAX);
}

#[test]
fn depth_ordering() {
    // two fragments at the same pixel leave the nearer depth, in either
    // draw order
    let near = Fx::from_ratio(1, 4);
    let far = Fx::from_ratio(3, 4);

    let mut r = Rasterizer::new((4, 4));
    assert!(r.test_depth(0, near));
    assert!(!r.test_depth(0, far));
    assert_eq!(r.get_depth()[0], near);

    let mut r = Rasterizer::new((4, 4));
    assert!(r.test_depth(0, far));
    assert!(r.test_depth(0, near));
    assert_eq!(r.get_depth()[0], near);

    // out-of-range depths never pass
    let mut r = Rasterizer::new((4, 4));
    assert!(!r.test_depth(0, hi(2)));
    assert!(!r.test_depth(0, hi(-2)));
}

#[test]
fn shared_edge_no_seam() {
    // two triangles sharing the diagonal of a square: no pixel of the
    // square's interior is left unshaded
    let mut r = Rasterizer::new((128, 128));
    let a = Vec2::from(hi(10), hi(10));
    let b = Vec2::from(hi(110), hi(10));
    let c = Vec2::from(hi(10), hi(110));
    let d = Vec2::from(hi(110), hi(110));
    let red = vec![Vec4::from(hi(1), hi(0), hi(0), hi(1))];
    let blue = vec![Vec4::from(hi(0), hi(0), hi(1), hi(1))];
    r.triangle(&[a, b, c], &red);
    r.triangle(&[b, d, c], &blue);
    let buf = r.get_color();
    for y in 12..108 {
        for x in 12..108 {
            let px = buf[(x + y * 128) as usize];
            assert!(px != [0u8, 0u8, 0u8, 0u8], "gap at ({}, {})", x, y);
        }
    }
}

#[test]
fn cube_pipeline() {
    // the whole staged pipeline on the built-in cube with identity
    // transforms: the screen center is shaded white, a corner is not
    let mut r = Rasterizer::new((200, 200));
    r.enable_wire_frame(false);
    r.enable_cull_face(false);
    let cube = MFrustum::new_cube();
    r.draw(&cube);
    let buf = r.get_color();
    assert_eq!(buf[(100 + 100 * 200) as usize], [255u8, 255u8, 255u8, 255u8]);
    assert_eq!(buf[(2 + 2 * 200) as usize], [0u8, 0u8, 0u8, 0u8]);
    // the depth buffer recorded the nearer face
    let z = r.get_depth()[(100 + 100 * 200) as usize];
    assert!(hv(z) < 0.5);
}

#[test]
fn light_marker_cube() {
    let m = ModelLight::new();
    let mut r = Rasterizer::new((64, 64));
    r.enable_wire_frame(false);
    r.enable_cull_face(false);
    r.draw(&m.cube);
    assert!(r.get_color()[(32 + 32 * 64) as usize] != [0u8, 0u8, 0u8, 0u8]);
}

#[test]
fn behind_viewer_vertices_map() {
    // a vertex with negative clip w is still perspective-divided and
    // mapped; its w is retained for the perspective correction
    let mut r = Rasterizer::new((64, 64));
    let mw = Fx::from_raw(-65536);
    r.gv.gl_Postion = (
        Vec4::from(hi(0), hi(0), hi(0), mw),
        Vec4::from(hi(0), hi(0), hi(0), mw),
        Vec4::from(hi(0), hi(0), hi(0), mw),
    );
    assert!(r.mapping());
    assert_eq!(r.gv.gl_FragCoord.0.w, mw);
    // a vertex exactly on the camera plane drops the triangle
    r.gv.gl_Postion = (
        Vec4::from(hi(0), hi(0), hi(0), hi(0)),
        Vec4::from(hi(0), hi(0), hi(0), hi(1)),
        Vec4::from(hi(0), hi(0), hi(0), hi(1)),
    );
    assert!(!r.mapping());
}

#[test]
fn uniforms_update() {
    let mut u = UniformMatrix::new();
    u.calc_mvp();
    // identity transforms compose to the identity
    assert_eq!(u.mvp.r0.x.raw, 65536);
    assert_eq!(u.mvp.r0.y.raw, 0);
    assert_eq!(u.mvp.r3.w.raw, 65536);
    u.calc_mit();
    assert_eq!(u.mit.r0.x.raw, 65536);
    assert_eq!(u.mit.r1.y.raw, 65536);
    assert_eq!(u.mit.r0.y.raw, 0);

    // the wireframe toggle reaches the mesh through set_uniforms
    let mut cube = MFrustum::new_cube();
    cube.set_uniforms(u);
    let mut r = Rasterizer::new((64, 64));
    r.enable_wire_frame(false);
    r.enable_cull_face(false);
    r.draw(&cube);
    assert!(r.get_color()[(32 + 32 * 64) as usize] != [0u8, 0u8, 0u8, 0u8]);
}

#[test]
fn wireframe_draws_edges() {
    let mut r = Rasterizer::new((100, 100));
    r.enable_wire_frame(true);
    r.enable_cull_face(false);
    let cube = MFrustum::new_cube();
    r.draw(&cube);
    // an edge pixel of the projected cube is shaded
    let buf = r.get_color();
    let mut any = false;
    for i in 0..(100 * 100) {
        if buf[i as usize] != [0u8, 0u8, 0u8, 0u8] {
            any = true;
        }
    }
    assert!(any);
}
