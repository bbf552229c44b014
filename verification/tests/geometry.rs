use softrender::fx::{Fx, FX_ONE};
use softrender::vec::Vec3;

fn fx(v: f64) -> Fx {
    Fx::from_raw((v * 65536.0).round() as i64)
}

fn v3(x: f64, y: f64, z: f64) -> Vec3 {
    Vec3::new(fx(x), fx(y), fx(z))
}

fn to_f64(v: Fx) -> f64 {
    v.raw() as f64 / 65536.0
}

fn magnitude(v: Vec3) -> f64 {
    let x = to_f64(v.x);
    let y = to_f64(v.y);
    let z = to_f64(v.z);
    (x * x + y * y + z * z).sqrt()
}

#[test]
fn normalized_of_unit_vectors_has_magnitude_one() {
    let cases = [
        v3(1.0, 0.0, 0.0),
        v3(0.0, 1.0, 0.0),
        v3(0.0, 0.0, 1.0),
        v3(0.6, 0.8, 0.0),
        v3(0.267261, 0.534522, 0.801784),
        v3(-0.577350, 0.577350, -0.577350),
    ];
    for v in cases {
        let n = v.normalized();
        assert!((magnitude(n) - 1.0).abs() < 1e-3, "magnitude {}", magnitude(n));
    }
}

#[test]
fn normalized_is_idempotent_within_tolerance() {
    let cases = [v3(3.0, 4.0, 0.0), v3(-1.0, 2.0, 2.0), v3(10.0, -10.0, 5.0)];
    for v in cases {
        let once = v.normalized();
        let twice = once.normalized();
        assert!((to_f64(once.x) - to_f64(twice.x)).abs() < 1e-3);
        assert!((to_f64(once.y) - to_f64(twice.y)).abs() < 1e-3);
        assert!((to_f64(once.z) - to_f64(twice.z)).abs() < 1e-3);
    }
}

#[test]
fn normalized_along_z_axis_is_exact() {
    let v = v3(0.0, 0.0, 5.0);
    let n = v.normalized();
    assert_eq!(n.x.raw(), 0);
    assert_eq!(n.y.raw(), 0);
    assert_eq!(n.z.raw(), FX_ONE);
}

#[test]
fn normalize_of_zero_vector_stays_zero() {
    let mut v = v3(0.0, 0.0, 0.0);
    v.normalize();
    assert_eq!(v.x.raw(), 0);
    assert_eq!(v.y.raw(), 0);
    assert_eq!(v.z.raw(), 0);
}

#[test]
fn dot_product_exact_value() {
    let a = v3(1.0, 2.0, 3.0);
    let b = v3(4.0, 5.0, 6.0);
    assert_eq!(a.dot(&b).raw(), 32 * FX_ONE);
}

#[test]
fn cross_product_of_axes() {
    let x = v3(1.0, 0.0, 0.0);
    let y = v3(0.0, 1.0, 0.0);
    let c = x.cross(&y);
    assert_eq!(c.x.raw(), 0);
    assert_eq!(c.y.raw(), 0);
    assert_eq!(c.z.raw(), FX_ONE);
}

#[test]
fn vector_arithmetic_exact() {
    let a = v3(1.5, -2.0, 0.25);
    let b = v3(0.5, 1.0, 0.75);
    let s = a.add(b);
    assert_eq!(s.x.raw(), 2 * FX_ONE);
    assert_eq!(s.y.raw(), -FX_ONE);
    assert_eq!(s.z.raw(), FX_ONE);
    let d = a.sub(b);
    assert_eq!(d.x.raw(), FX_ONE);
    assert_eq!(d.y.raw(), -3 * FX_ONE);
    let m = a.mul(b);
    assert_eq!(m.x.raw(), 3 * FX_ONE / 4);
    let q = b.div(v3(0.5, 0.5, 0.5));
    assert_eq!(q.x.raw(), FX_ONE);
    assert_eq!(q.y.raw(), 2 * FX_ONE);
}

#[test]
fn division_by_zero_component_yields_zero() {
    let a = v3(1.0, 2.0, 3.0);
    let q = a.div(v3(0.0, 1.0, 0.0));
    assert_eq!(q.x.raw(), 0);
    assert_eq!(q.y.raw(), 2 * FX_ONE);
    assert_eq!(q.z.raw(), 0);
}

#[test]
fn plane_intersect_midpoint_of_crossing_segment() {
    let plane_p = v3(0.0, 0.0, 0.0);
    let plane_n = v3(0.0, 0.0, 1.0);
    let start = v3(0.0, 0.0, -1.0);
    let end = v3(0.0, 0.0, 1.0);
    let hit = Vec3::plane_intersect(plane_p, plane_n, start, end);
    assert!(to_f64(hit.z).abs() < 1e-3);
}

#[test]
fn plane_intersect_keeps_lateral_coordinates() {
    let plane_p = v3(0.0, 0.0, 2.0);
    let plane_n = v3(0.0, 0.0, 1.0);
    let start = v3(1.0, -1.0, 0.0);
    let end = v3(1.0, -1.0, 4.0);
    let hit = Vec3::plane_intersect(plane_p, plane_n, start, end);
    assert!((to_f64(hit.x) - 1.0).abs() < 1e-3);
    assert!((to_f64(hit.y) + 1.0).abs() < 1e-3);
    assert!((to_f64(hit.z) - 2.0).abs() < 1e-3);
}

#[test]
fn fx_saturating_and_truncating_behaviour() {
    let big = Fx::from_raw(i64::MAX);
    let sum = big.add(big);
    assert_eq!(sum.raw(), i64::MAX);
    let neg = big.neg();
    assert_eq!(neg.raw(), -i64::MAX);
    let q = Fx::from_int(7).div_int(2);
    assert_eq!(q.raw(), 7 * FX_ONE / 2);
    let t = Fx::from_raw(-3).div_int(2);
    assert_eq!(t.raw(), -1);
    assert_eq!(Fx::from_int(3).div(Fx::from_int(0)).raw(), 0);
}
