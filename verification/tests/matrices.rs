use softrender::fx::{Fx, FX_ONE};
use softrender::matrix::Matrix4x4;
use softrender::vec::{Vec3, Vec4};

fn fx(v: f64) -> Fx {
    Fx::from_raw((v * 65536.0).round() as i64)
}

fn to_f64(v: Fx) -> f64 {
    v.raw() as f64 / 65536.0
}

fn entry(m: &Matrix4x4, r: usize, c: usize) -> f64 {
    to_f64(m.mat[r][c])
}

#[test]
fn multiplying_by_identity_is_exact_no_op() {
    let m = Matrix4x4::new([
        [fx(1.25), fx(-2.0), fx(0.5), fx(3.0)],
        [fx(0.0), fx(7.125), fx(-0.25), fx(1.0)],
        [fx(4.0), fx(-1.5), fx(2.75), fx(0.0)],
        [fx(-3.0), fx(0.125), fx(9.0), fx(1.0)],
    ]);
    let i = Matrix4x4::identity();
    let mi = m.multiply(&i);
    let im = i.multiply(&m);
    for r in 0..4 {
        for c in 0..4 {
            assert_eq!(mi.mat[r][c].raw(), m.mat[r][c].raw());
            assert_eq!(im.mat[r][c].raw(), m.mat[r][c].raw());
        }
    }
}

#[test]
fn matrix_multiplication_is_associative_within_tolerance() {
    let a = Matrix4x4::z_rotation(fx(0.7));
    let b = Matrix4x4::x_rotation(fx(-1.1));
    let c = Matrix4x4::translation(fx(1.0), fx(-2.0), fx(4.0));
    let left = a.multiply(&b).multiply(&c);
    let right = a.multiply(&b.multiply(&c));
    for r in 0..4 {
        for col in 0..4 {
            assert!(
                (entry(&left, r, col) - entry(&right, r, col)).abs() < 1e-3,
                "entry {} {} differs: {} vs {}",
                r,
                col,
                entry(&left, r, col),
                entry(&right, r, col)
            );
        }
    }
}

#[test]
fn empty_and_identity_entries() {
    let e = Matrix4x4::empty();
    let i = Matrix4x4::identity();
    for r in 0..4 {
        for c in 0..4 {
            assert_eq!(e.mat[r][c].raw(), 0);
            assert_eq!(i.mat[r][c].raw(), if r == c { FX_ONE } else { 0 });
        }
    }
}

#[test]
fn translation_moves_homogeneous_points() {
    let t = Matrix4x4::translation(fx(1.0), fx(2.0), fx(3.0));
    let p = Vec4::from_vec3(Vec3::new(fx(5.0), fx(5.0), fx(5.0)), Fx::one());
    let q = p.mul_matrix(&t);
    assert_eq!(q.x.raw(), 6 * FX_ONE);
    assert_eq!(q.y.raw(), 7 * FX_ONE);
    assert_eq!(q.z.raw(), 8 * FX_ONE);
    assert_eq!(q.w.raw(), FX_ONE);
}

#[test]
fn projection_matrix_entries() {
    // aspect ratio 0.5, fov scale 1, near 0.1, far 1000.
    let m = Matrix4x4::projection(fx(0.5), fx(1.0), fx(0.1), fx(1000.0));
    assert!((entry(&m, 0, 0) - 0.5).abs() < 1e-3);
    assert!((entry(&m, 1, 1) - 1.0).abs() < 1e-3);
    assert!((entry(&m, 2, 2) - 1000.0 / 999.9).abs() < 1e-3);
    assert!((entry(&m, 2, 3) - 1.0).abs() < 1e-4);
    assert!((entry(&m, 3, 2) - (-1000.0 * 0.1) / 999.9).abs() < 1e-2);
    assert_eq!(m.mat[3][3].raw(), 0);
}

#[test]
fn rotation_matrices_have_expected_shape() {
    let theta = 0.5_f64;
    // The x-axis spin halves its angle before taking sine and cosine.
    let mx = Matrix4x4::x_rotation(fx(theta));
    assert!((entry(&mx, 1, 1) - (theta / 2.0).cos()).abs() < 1e-2);
    assert!((entry(&mx, 1, 2) - (theta / 2.0).sin()).abs() < 1e-2);
    assert!((entry(&mx, 2, 1) + (theta / 2.0).sin()).abs() < 1e-2);
    assert_eq!(mx.mat[0][0].raw(), FX_ONE);

    let mz = Matrix4x4::z_rotation(fx(theta));
    assert!((entry(&mz, 0, 0) - theta.cos()).abs() < 1e-2);
    assert!((entry(&mz, 0, 1) - theta.sin()).abs() < 1e-2);
    assert!((entry(&mz, 1, 0) + theta.sin()).abs() < 1e-2);
    assert_eq!(mz.mat[2][2].raw(), FX_ONE);

    let my = Matrix4x4::y_rotation(fx(theta));
    assert!((entry(&my, 0, 0) - theta.cos()).abs() < 1e-2);
    assert!((entry(&my, 0, 2) - theta.sin()).abs() < 1e-2);
    assert_eq!(my.mat[1][1].raw(), FX_ONE);
}

#[test]
fn point_at_inverse_undoes_point_at_within_tolerance() {
    let pos = Vec3::new(fx(1.0), fx(2.0), fx(-3.0));
    let target = Vec3::new(fx(2.0), fx(2.5), fx(-1.0));
    let up = Vec3::new(fx(0.0), fx(1.0), fx(0.0));
    let pa = Matrix4x4::point_at(pos, target, up);
    let inv = Matrix4x4::point_at_inverse(&pa);
    let p = Vec4::from_vec3(Vec3::new(fx(0.5), fx(-0.75), fx(4.0)), Fx::one());
    let roundtrip = p.mul_matrix(&pa).mul_matrix(&inv);
    assert!((to_f64(roundtrip.x) - 0.5).abs() < 2e-2);
    assert!((to_f64(roundtrip.y) + 0.75).abs() < 2e-2);
    assert!((to_f64(roundtrip.z) - 4.0).abs() < 2e-2);
}

#[test]
fn trig_matches_std_within_tolerance() {
    for k in -12..=12 {
        let a = k as f64 * 0.5;
        let s = to_f64(softrender::trig::sin_fx(fx(a)));
        let c = to_f64(softrender::trig::cos_fx(fx(a)));
        assert!((s - a.sin()).abs() < 5e-3, "sin({}) = {} vs {}", a, s, a.sin());
        assert!((c - a.cos()).abs() < 5e-3, "cos({}) = {} vs {}", a, c, a.cos());
    }
}
