//! Vector and matrix algebra, in both the fixed-point and the integer
//! instantiation, checked against known values.

use magx::fx::Fx;
use magx::vecn::{Vec2, Vec3, Vec4};
use magx::matn::{Mat2, Mat3, Mat4};
use magx::ivec::{Vec2i, Vec3i, Vec4i, Mat4i};
use magx::reps::{rep_count, rep_sum, rep_join, rep_bump};

fn fv(x: Fx) -> f64 {
    x.raw as f64 / 65536.0
}

fn feq(a: f64, b: f64, eps: f64) -> bool {
    (a - b).abs() < eps
}

fn fi(v: i64) -> Fx {
    Fx::from_int(v)
}

#[test]
fn vecn_initialization() {
    let v2 = Vec2::new().x(fi(1)).y(fi(2));
    let v3 = Vec3::random();
    let v4 = Vec4::from(fi(1), fi(2), fi(3), fi(4));
    println!("iv2: ({}, {})", v2.x.to_int(), v2.y.to_int());
    println!("iv3: ({}, {}, {})", v3.x.to_int(), v3.y.to_int(), v3.z.to_int());
    println!("iv4: ({}, {}, {}, {})", v4.x.to_int(), v4.y.to_int(), v4.z.to_int(), v4.w.to_int());

    let v2 = Vec2i::new().x(1).y(2);
    let v3 = Vec3i::fill(2);
    let v4 = Vec4i::from_array(&[1, 2, 3, 4]);
    println!("v2: {:?}", v2.to_fx());
    println!("v3: {:?}", v3.to_fx());
    println!("v4: {:?}", v4.to_fx());
    assert_eq!(v4, Vec4i::from(1, 2, 3, 4));
}

#[test]
fn vecn_calculation() {
    let v2 = Vec2::new().x(fi(1)).y(fi(2));
    let v3 = Vec3::new().x(fi(1)).y(fi(2)).z(fi(3));
    let v4 = Vec4::new().x(fi(1)).y(fi(2)).z(fi(3)).w(fi(4));
    assert!(feq(fv(v2.dot(v2)), 5.0, 0.000001));
    assert!(feq(fv(v3.dot(v3)), 14.0, 0.000001));
    assert!(feq(fv(v4.dot(v4)), 30.0, 0.000001));
    let n2 = v2.normalize();
    assert!(feq(fv(n2.x), 0.4472136, 0.001));
    assert!(feq(fv(n2.y), 0.89442719, 0.001));
    let n3 = v3.normalize();
    assert!(feq(fv(n3.x), 0.26726, 0.001));
    assert!(feq(fv(n3.y), 0.53452, 0.001));
    assert!(feq(fv(n3.z), 0.80178, 0.001));
    let n4 = v4.normalize();
    assert!(feq(fv(n4.x), 0.18257419, 0.001));
    assert!(feq(fv(n4.y), 0.36514837, 0.001));
    assert!(feq(fv(n4.z), 0.54772256, 0.001));
    assert!(feq(fv(n4.w), 0.73029674, 0.001));
    let u = Vec3::from(fi(1), fi(2), fi(3));
    let v = Vec3::from(fi(3), fi(2), fi(1));
    let c = u.cross(v);
    assert!(feq(fv(c.x), -4.0, 0.000001));
    assert!(feq(fv(c.y), 8.0, 0.000001));
    assert!(feq(fv(c.z), -4.0, 0.000001));

    let v2 = Vec2i::from(1, 2);
    let v3 = Vec3i::from(1, 2, 3);
    let v4 = Vec4i::from(1, 2, 3, 4);
    assert_eq!((5, 14, 30), (v2.dot(v2), v3.dot(v3), v4.dot(v4)));
    let u = Vec3i::from(1, 2, 3);
    let v = Vec3i::from(3, 2, 1);
    assert_eq!(Vec3i::from(-4, 8, -4), u.cross(v));
}

#[test]
fn vecn_operators() {
    let v4 = Vec4::new().x(fi(1)).y(fi(2)).z(fi(3)).w(fi(4));
    let v4 = v4.add_s(fi(2)).sub_s(fi(1)).mul_s(fi(6)).div_s(fi(2));
    assert!(feq(fv(v4.x), 6.0, 0.000001));
    assert!(feq(fv(v4.y), 9.0, 0.000001));
    assert!(feq(fv(v4.z), 12.0, 0.000001));
    assert!(feq(fv(v4.w), 15.0, 0.000001));

    let v4 = Vec4i::new().x(1).y(2).z(3).w(4);
    let v4 = v4.add_s(2).sub_s(1).mul_s(6).div_s(2);
    assert_eq!(v4, Vec4i::from(6, 9, 12, 15));
}

#[test]
fn matn_initialization() {
    let m2 = Mat2::new().r0(Vec2::fill(fi(1))).r1(Vec2::fill(fi(2)));
    let m3 = Mat3::fill(fi(2));
    let m4 = Mat4::from(
        Vec4::fill(fi(1)),
        Vec4::fill(fi(2)),
        Vec4::fill(fi(3)),
        Vec4::fill(fi(4)),
    );
    println!("im2: {:?}", m2);
    println!("im3: {:?}", m3);
    println!("im4: {:?}", m4);

    let m4i = Mat4i::from_array(&[[1, 2, 3, 4], [2, 4, 6, 8], [0, 0, 0, 0], [0, 0, 0, 0]]);
    assert_eq!(m4i.r1, Vec4i::from(2, 4, 6, 8));
    let e = Mat4i::eye(5);
    assert_eq!(e.r2, Vec4i::from(0, 0, 5, 0));
    let d = Mat4i::diag(&Vec4i::from(6, 7, 8, 9));
    assert_eq!(d.r3, Vec4i::from(0, 0, 0, 9));
    let dm = Mat2::diag(&Vec2::from(fi(6), fi(7)));
    assert!(feq(fv(dm.r0.x), 6.0, 0.000001));
    assert!(feq(fv(dm.r1.y), 7.0, 0.000001));
    let dm = Mat3::diag(&Vec3::from(fi(6), fi(7), fi(8)));
    assert!(feq(fv(dm.r2.z), 8.0, 0.000001));
    let dm = Mat4::diag(&Vec4::from(fi(6), fi(7), fi(8), fi(9)));
    assert!(feq(fv(dm.r3.w), 9.0, 0.000001));
}

#[test]
fn matn_calculation() {
    // matrix times vector
    let n = Mat4i::from(
        Vec4i::from(1, 2, 3, 4),
        Vec4i::from(2, 3, 4, 5),
        Vec4i::from(3, 4, 5, 6),
        Vec4i::from(4, 5, 6, 7),
    );
    let v = Vec4i::from(1, 2, 3, 4);
    println!("nxv: {:?}", n.mul_vec(&v));
    assert_eq!(n.mul_vec(&v), Vec4i::from(30, 40, 50, 60));

    // product against a diagonal matrix
    let n = Mat4::from(
        Vec4::from(fi(1), fi(2), fi(3), fi(4)),
        Vec4::from(fi(2), fi(3), fi(4), fi(5)),
        Vec4::from(fi(3), fi(4), fi(5), fi(6)),
        Vec4::from(fi(4), fi(5), fi(6), fi(7)),
    );
    let m = Mat4::diag(&Vec4::from(fi(1), fi(2), fi(3), fi(4)));
    let p = n.mul_mat(&m);
    let expect = [
        [1.0, 4.0, 9.0, 16.0],
        [2.0, 6.0, 12.0, 20.0],
        [3.0, 8.0, 15.0, 24.0],
        [4.0, 10.0, 18.0, 28.0],
    ];
    let rows = [p.r0, p.r1, p.r2, p.r3];
    for i in 0..4 {
        assert!(feq(fv(rows[i].x), expect[i][0], 0.000001));
        assert!(feq(fv(rows[i].y), expect[i][1], 0.000001));
        assert!(feq(fv(rows[i].z), expect[i][2], 0.000001));
        assert!(feq(fv(rows[i].w), expect[i][3], 0.000001));
    }

    // Frobenius norm and normalization
    let m = Mat4::diag(&Vec4::from(fi(1), fi(2), fi(3), fi(4)));
    let norm = (1.0f64 * 1.0 + 2.0 * 2.0 + 3.0 * 3.0 + 4.0 * 4.0).sqrt();
    assert!(feq(fv(m.norm()), norm, 0.001));
    let nm = m.normalize();
    assert!(feq(fv(nm.r0.x), 1.0 / norm, 0.001));
    assert!(feq(fv(nm.r3.w), 4.0 / norm, 0.001));

    // transpose round trip
    let m = Mat4i::from_array(&[[1, 1, 1, 1], [2, 2, 2, 2], [3, 3, 3, 3], [4, 4, 4, 4]]);
    assert_eq!(
        m.transpose(),
        Mat4i::from_array(&[[1, 2, 3, 4], [1, 2, 3, 4], [1, 2, 3, 4], [1, 2, 3, 4]])
    );
    assert_eq!(m.transpose().transpose(), m);

    // inverses
    let m = Mat2::from(Vec2::from(fi(1), fi(2)), Vec2::from(fi(3), fi(4)));
    let im = m.inverse();
    assert!(feq(fv(im.r0.x), -2.0, 0.001));
    assert!(feq(fv(im.r0.y), 1.0, 0.001));
    assert!(feq(fv(im.r1.x), 1.5, 0.001));
    assert!(feq(fv(im.r1.y), -0.5, 0.001));

    let fr = |n: i64| Fx::from_ratio(n, 1000);
    let m = Mat3::from(
        Vec3::from(fr(1707), fr(293), fr(1000)),
        Vec3::from(fr(439), fr(2561), fr(-1500)),
        Vec3::from(fr(-2500), fr(2500), fr(3536)),
    );
    let im = m.inverse();
    assert!(feq(fv(im.r0.x), 0.427, 0.01));
    assert!(feq(fv(im.r0.y), 0.049, 0.01));
    assert!(feq(fv(im.r0.z), -0.100, 0.01));
    assert!(feq(fv(im.r1.x), 0.073, 0.01));
    assert!(feq(fv(im.r1.y), 0.285, 0.01));
    assert!(feq(fv(im.r1.z), 0.100, 0.01));
    assert!(feq(fv(im.r2.x), 0.250, 0.01));
    assert!(feq(fv(im.r2.y), -0.167, 0.01));
    assert!(feq(fv(im.r2.z), 0.141, 0.01));

    let m = Mat4::from(
        Vec4::from(fr(3732), fr(268), fr(1414), fr(5000)),
        Vec4::from(fr(201), fr(2799), fr(-1061), fr(2000)),
        Vec4::from(fr(-1768), fr(1768), fr(4330), fr(3000)),
        Vec4::from(fr(0), fr(0), fr(0), fr(1000)),
    );
    let im = m.inverse();
    assert!(feq(fv(im.r0.x), 0.233, 0.01));
    assert!(feq(fv(im.r0.y), 0.022, 0.01));
    assert!(feq(fv(im.r0.z), -0.071, 0.01));
    assert!(feq(fv(im.r0.w), -0.999, 0.01));
    assert!(feq(fv(im.r1.y), 0.311, 0.01));
    assert!(feq(fv(im.r1.w), -0.918, 0.01));
    assert!(feq(fv(im.r2.z), 0.173, 0.01));
    assert!(feq(fv(im.r2.w), -0.726, 0.01));
    assert!(feq(fv(im.r3.w), 1.000, 0.01));

    // inverse of the transpose against the transposed inverse
    let a = m.inverse().transpose();
    let b = m.transpose().inverse();
    assert!(feq(fv(a.r0.x), fv(b.r0.x), 0.01));
    assert!(feq(fv(a.r1.y), fv(b.r1.y), 0.01));
    assert!(feq(fv(a.r3.x), fv(b.r3.x), 0.01));
}

#[test]
fn matn_operators() {
    let m4 = Mat4::from(
        Vec4::fill(fi(1)),
        Vec4::fill(fi(2)),
        Vec4::fill(fi(3)),
        Vec4::fill(fi(4)),
    );
    let m4 = m4.add_s(fi(2)).sub_s(fi(1)).mul_s(fi(6)).div_s(fi(2));
    assert!(feq(fv(m4.r0.x), 6.0, 0.000001));
    assert!(feq(fv(m4.r1.y), 9.0, 0.000001));
    assert!(feq(fv(m4.r2.z), 12.0, 0.000001));
    assert!(feq(fv(m4.r3.w), 15.0, 0.000001));

    let m4 = Mat4i::from(
        Vec4i::fill(1),
        Vec4i::fill(2),
        Vec4i::fill(3),
        Vec4i::fill(4),
    );
    let m4 = m4.add_s(2).sub_s(1).mul_s(6).div_s(2);
    assert_eq!(
        m4,
        Mat4i::from(Vec4i::fill(6), Vec4i::fill(9), Vec4i::fill(12), Vec4i::fill(15))
    );
}

#[test]
fn inverse_times_matrix() {
    // the inverse against the matrix lands on the identity, within the
    // fixed-point margin, in every dimension
    let m2 = Mat2::from(Vec2::from(fi(1), fi(2)), Vec2::from(fi(3), fi(4)));
    let p = m2.inverse().mul_mat(&m2);
    assert!(feq(fv(p.r0.x), 1.0, 0.001));
    assert!(feq(fv(p.r0.y), 0.0, 0.001));
    assert!(feq(fv(p.r1.x), 0.0, 0.001));
    assert!(feq(fv(p.r1.y), 1.0, 0.001));

    let m3 = Mat3::from(
        Vec3::from(fi(2), fi(0), fi(1)),
        Vec3::from(fi(1), fi(3), fi(-1)),
        Vec3::from(fi(0), fi(1), fi(4)),
    );
    let p = m3.inverse().mul_mat(&m3);
    let rows = [p.r0, p.r1, p.r2];
    for i in 0..3 {
        let want = |j: usize| if i == j { 1.0 } else { 0.0 };
        assert!(feq(fv(rows[i].x), want(0), 0.001));
        assert!(feq(fv(rows[i].y), want(1), 0.001));
        assert!(feq(fv(rows[i].z), want(2), 0.001));
    }

    let m4 = Mat4::from(
        Vec4::from(fi(1), fi(0), fi(2), fi(0)),
        Vec4::from(fi(0), fi(3), fi(0), fi(1)),
        Vec4::from(fi(-1), fi(0), fi(1), fi(0)),
        Vec4::from(fi(0), fi(1), fi(0), fi(2)),
    );
    let p = m4.inverse().mul_mat(&m4);
    let rows = [p.r0, p.r1, p.r2, p.r3];
    for i in 0..4 {
        let want = |j: usize| if i == j { 1.0 } else { 0.0 };
        assert!(feq(fv(rows[i].x), want(0), 0.001));
        assert!(feq(fv(rows[i].y), want(1), 0.001));
        assert!(feq(fv(rows[i].z), want(2), 0.001));
        assert!(feq(fv(rows[i].w), want(3), 0.001));
    }
}

#[test]
fn macro_repetions() {
    let none: Vec<i64> = Vec::new();
    assert_eq!(0, rep_count(&none));
    assert_eq!(1, rep_count(&vec![5]));
    assert_eq!("ccc", "c".repeat(rep_count(&vec![1, 1, 5])));

    assert_eq!(15, rep_sum(&vec![1, 2, 3, 4, 5]));

    assert_eq!("s;s;s", rep_join("s", ";", rep_count(&vec![1, 2, 5])));

    let mut v: Vec<usize> = vec![0, 1, 2, 3];
    rep_bump(&mut v, 10);
    assert_eq!(v, vec![10, 11, 12, 13]);
}
