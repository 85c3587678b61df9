//! Transforms, projections, interpolation and intersections, checked
//! against known values.

use magx::fx::Fx;
use magx::vecn::{Vec2, Vec3, Vec4};
use magx::matn::Mat4;
use magx::geom::{Angle, scale, translate, rotate, look_at, ortho, persp, viewport, lerp,
    barycentric, interpolate, bound_box, reflect, refract, solve_quadratic, intersect_sphere,
    intersect_triangle};

fn gv(x: Fx) -> f64 {
    x.raw as f64 / 65536.0
}

fn geq(a: f64, b: f64, eps: f64) -> bool {
    (a - b).abs() < eps
}

fn gi(v: i64) -> Fx {
    Fx::from_int(v)
}

fn gr(n: i64, d: i64) -> Fx {
    Fx::from_ratio(n, d)
}

fn mat_close(m: &Mat4, expect: &[[f64; 4]; 4], eps: f64) {
    let rows = [m.r0, m.r1, m.r2, m.r3];
    for i in 0..4 {
        assert!(geq(gv(rows[i].x), expect[i][0], eps), "row {} x", i);
        assert!(geq(gv(rows[i].y), expect[i][1], eps), "row {} y", i);
        assert!(geq(gv(rows[i].z), expect[i][2], eps), "row {} z", i);
        assert!(geq(gv(rows[i].w), expect[i][3], eps), "row {} w", i);
    }
}

#[test]
fn transformation() {
    let m = Mat4::eye(Fx::one());
    let m = translate(&m, &Vec3::from(gi(1), gi(1), gi(1)));
    let m = scale(&m, &Vec3::from(gi(5), gi(5), gi(5)));
    let m = rotate(&m, &Vec3::from(gi(0), gi(1), gi(0)), Angle::Ang(gi(90)));
    mat_close(
        &m,
        &[
            [0.0, 0.0, 5.0, 1.0],
            [0.0, 5.0, 0.0, 1.0],
            [-5.0, 0.0, 0.0, 1.0],
            [0.0, 0.0, 0.0, 1.0],
        ],
        0.01,
    );

    let v = Vec4::from(gi(1), gi(2), gi(3), gi(1));
    let p = m.mul_vec(&v);
    assert!(geq(gv(p.x), 16.0, 0.01));
    assert!(geq(gv(p.y), 11.0, 0.01));
    assert!(geq(gv(p.z), -4.0, 0.01));
    assert!(geq(gv(p.w), 1.0, 0.01));
}

#[test]
fn calculation() {
    let c = look_at(
        &Vec3::from(gi(1), gi(2), gi(3)),
        &Vec3::from(gi(-1), gi(-1), gi(-1)),
        &Vec3::from(gi(0), gi(1), gi(0)),
    );
    mat_close(
        &c,
        &[
            [0.894427, 0.000000, -0.447214, 0.447214],
            [-0.249136, 0.830455, -0.498273, 0.083045],
            [0.371391, 0.557086, 0.742781, -3.713907],
            [0.000000, 0.000000, 0.000000, 1.000000],
        ],
        0.001,
    );

    let proj = ortho(gi(-160), gi(160), gi(-160), gi(160), gi(-1), gi(10));
    mat_close(
        &proj,
        &[
            [0.006250, 0.0, 0.0, 0.0],
            [0.0, 0.006250, 0.0, 0.0],
            [0.0, 0.0, -0.181818, -0.818182],
            [0.0, 0.0, 0.0, 1.0],
        ],
        0.0001,
    );

    let proj = persp(Angle::Ang(gi(45)), gi(2), gr(1, 10), gi(10));
    mat_close(
        &proj,
        &[
            [1.207107, 0.0, 0.0, 0.0],
            [0.0, 2.414214, 0.0, 0.0],
            [0.0, 0.0, -1.020202, -0.202020],
            [0.0, 0.0, -1.0, 0.0],
        ],
        0.002,
    );
}

#[test]
fn interpolation() {
    let a = Vec3::from(gi(1), gi(0), gi(2));
    let b = Vec3::from(gi(0), gi(1), gi(3));
    let o = lerp(&a, &b, gr(1, 2));
    assert!(geq(gv(o.x), 0.5, 0.0001));
    assert!(geq(gv(o.y), 0.5, 0.0001));
    assert!(geq(gv(o.z), 2.5, 0.0001));

    let bc = Vec3::fill(gr(1, 3));
    let o = interpolate(
        &bc,
        &Vec3::from(gi(1), gi(0), gi(0)),
        &Vec3::from(gi(0), gi(1), gi(0)),
        &Vec3::from(gi(0), gi(0), gi(1)),
    );
    assert!(geq(gv(o.x), 1.0 / 3.0, 0.001));
    assert!(geq(gv(o.y), 1.0 / 3.0, 0.001));
    assert!(geq(gv(o.z), 1.0 / 3.0, 0.001));
}

#[test]
fn reflect_refract() {
    let i = Vec3::fill(gi(-1));
    let n = Vec3::from(gi(0), gi(0), gi(1));
    let o = reflect(&i, &n);
    assert!(geq(gv(o.x), -1.0, 0.0001));
    assert!(geq(gv(o.y), -1.0, 0.0001));
    assert!(geq(gv(o.z), 1.0, 0.0001));

    let o = refract(&i, &n, gi(1));
    assert!(geq(gv(o.x), -1.0, 0.0001));
    assert!(geq(gv(o.y), -1.0, 0.0001));
    assert!(geq(gv(o.z), -1.0, 0.0001));
}

#[test]
fn intersection() {
    let center = Vec3::fill(gi(0));
    let radius = gi(1);
    let ori = Vec3::from(gi(-5), gi(0), gi(0));
    let dir = Vec3::from(gi(10), gi(0), gi(1)).normalize();
    let t = intersect_sphere(&center, radius, &ori, &dir);
    match t {
        Some(t) => assert!(geq(gv(t), 4.108, 0.001)),
        None => panic!("missed the sphere"),
    }

    let abc = [
        Vec3::from(gi(1), gi(0), gi(0)),
        Vec3::from(gi(0), gi(1), gi(0)),
        Vec3::from(gi(0), gi(0), gi(1)),
    ];
    let ori = Vec3::from(gi(0), gi(0), gi(0));
    let dir = Vec3::from(gi(1), gi(1), gi(1)).normalize();
    match intersect_triangle(&abc, &ori, &dir) {
        Some((t, bc)) => {
            assert!(geq(gv(t), 0.577, 0.001));
            assert!(geq(gv(bc.x), 1.0 / 3.0, 0.001));
            assert!(geq(gv(bc.y), 1.0 / 3.0, 0.001));
            assert!(geq(gv(bc.z), 1.0 / 3.0, 0.001));
        },
        None => panic!("missed the triangle"),
    }
}

#[test]
fn quadratic_roots() {
    // x*x - 3x + 2: roots 1 and 2
    match solve_quadratic(gi(1), gi(-3), gi(2)) {
        Some((x0, x1)) => {
            assert!(geq(gv(x0), 1.0, 0.001));
            assert!(geq(gv(x1), 2.0, 0.001));
        },
        None => panic!("roots expected"),
    }
    // x*x + 1: no real roots
    assert!(solve_quadratic(gi(1), gi(0), gi(1)).is_none());
    // a vanishing leading coefficient is a degenerate input: no result
    assert!(solve_quadratic(gi(0), gi(1), gi(1)).is_none());
}

#[test]
fn rotate_preserves_norm() {
    // rotating a vector leaves its length unchanged, up to quantization
    let m = rotate(
        &Mat4::eye(Fx::one()),
        &Vec3::from(gi(1), gi(2), gi(2)),
        Angle::Ang(gi(37)),
    );
    let v = Vec4::from(gi(3), gi(-1), gi(2), gi(0));
    let r = m.mul_vec(&v);
    let before = (gv(v.x).powi(2) + gv(v.y).powi(2) + gv(v.z).powi(2)).sqrt();
    let after = (gv(r.x).powi(2) + gv(r.y).powi(2) + gv(r.z).powi(2)).sqrt();
    assert!(geq(before, after, 0.01));
}

#[test]
fn normalize_unit_norm() {
    // the norm of a normalized vector is one, up to quantization
    let v = Vec3::from(gr(17, 10), gi(-3), gr(1, 2));
    let n = v.normalize();
    assert!(geq(gv(n.norm()), 1.0, 0.001));
    let tiny = Vec3::from(gr(1, 100), gr(-3, 100), gr(1, 50));
    let n = tiny.normalize();
    assert!(geq(gv(n.norm()), 1.0, 0.001));
}

#[test]
fn barycentric_round_trip() {
    // a point strictly inside recombines from the weights
    let tri = [
        Vec2::from(gi(10), gi(10)),
        Vec2::from(gi(80), gi(20)),
        Vec2::from(gi(30), gi(90)),
    ];
    let p = Vec2::from(gi(40), gi(35));
    match barycentric(&tri, p) {
        Some(bc) => {
            let sum = gv(bc.x) + gv(bc.y) + gv(bc.z);
            assert!(geq(sum, 1.0, 0.001));
            let rx = gv(bc.x) * gv(tri[0].x) + gv(bc.y) * gv(tri[1].x) + gv(bc.z) * gv(tri[2].x);
            let ry = gv(bc.x) * gv(tri[0].y) + gv(bc.y) * gv(tri[1].y) + gv(bc.z) * gv(tri[2].y);
            assert!(geq(rx, 40.0, 0.01));
            assert!(geq(ry, 35.0, 0.01));
        },
        None => panic!("point is inside"),
    }
    // a point outside is rejected
    assert!(barycentric(&tri, Vec2::from(gi(0), gi(0))).is_none());
}

#[test]
fn box_expansion() {
    let pts = vec![Vec2::from(gi(3), gi(7)), Vec2::from(gi(-2), gi(4))];
    let (lb, rt) = bound_box(&pts);
    assert!(geq(gv(lb.x), -3.0, 0.0001));
    assert!(geq(gv(lb.y), 3.0, 0.0001));
    assert!(geq(gv(rt.x), 4.0, 0.0001));
    assert!(geq(gv(rt.y), 8.0, 0.0001));
    // the box follows the true extrema even for all-negative points
    let pts = vec![Vec2::from(gi(-5), gi(-3)), Vec2::from(gi(-2), gi(-7))];
    let (lb, rt) = bound_box(&pts);
    assert!(geq(gv(lb.x), -6.0, 0.0001));
    assert!(geq(gv(lb.y), -8.0, 0.0001));
    assert!(geq(gv(rt.x), -1.0, 0.0001));
    assert!(geq(gv(rt.y), -2.0, 0.0001));
}

#[test]
fn viewport_corners() {
    let m = viewport(gi(0), gi(0), gi(400), gi(300));
    // the clip corner (1, 1, 1) lands at the far screen corner
    let p = m.mul_vec(&Vec4::from(gi(1), gi(1), gi(1), gi(1)));
    assert!(geq(gv(p.x), 400.0, 0.0001));
    assert!(geq(gv(p.y), 300.0, 0.0001));
    assert!(geq(gv(p.z), 1.0, 0.0001));
    // the clip corner (-1, -1, -1) lands at the origin with depth zero
    let p = m.mul_vec(&Vec4::from(gi(-1), gi(-1), gi(-1), gi(1)));
    assert!(geq(gv(p.x), 0.0, 0.0001));
    assert!(geq(gv(p.y), 0.0, 0.0001));
    assert!(geq(gv(p.z), 0.0, 0.0001));
}

#[test]
fn scalar_math() {
    assert_eq!(gi(4).sqrt().raw, 2 * 65536);
    assert!(geq(gv(gi(2).sqrt()), 1.41421, 0.0001));
    assert_eq!(gr(1, 2).powi(2).raw, 16384);
    assert!(geq(gv(Angle::Ang(gi(90)).to_rad()), std::f64::consts::FRAC_PI_2, 0.0001));
    assert!(geq(gv(Angle::Ang(gi(90)).to_rad().sin()), 1.0, 0.001));
    assert!(geq(gv(Angle::Ang(gi(60)).to_rad().cos()), 0.5, 0.001));
    assert!(geq(gv(Angle::Ang(gi(-90)).to_rad().sin()), -1.0, 0.001));
}
