use softrender::fx::Fx;
use softrender::triangle::{Color, Triangle};
use softrender::vec::Vec3;

fn fx(v: f64) -> Fx {
    Fx::from_raw((v * 65536.0).round() as i64)
}

fn v3(x: f64, y: f64, z: f64) -> Vec3 {
    Vec3::new(fx(x), fx(y), fx(z))
}

fn to_f64(v: Fx) -> f64 {
    v.raw() as f64 / 65536.0
}

fn p64(v: Vec3) -> (f64, f64, f64) {
    (to_f64(v.x), to_f64(v.y), to_f64(v.z))
}

/// Signed distance of `p` to the plane through `pp` with unit normal `pn`.
fn dist(pp: Vec3, pn: Vec3, p: Vec3) -> f64 {
    let (nx, ny, nz) = p64(pn);
    let (px, py, pz) = p64(p);
    let (ox, oy, oz) = p64(pp);
    nx * px + ny * py + nz * pz - (nx * ox + ny * oy + nz * oz)
}

fn area(t: &Triangle) -> f64 {
    let (ax, ay, az) = p64(t.points[0]);
    let (bx, by, bz) = p64(t.points[1]);
    let (cx, cy, cz) = p64(t.points[2]);
    let ux = bx - ax;
    let uy = by - ay;
    let uz = bz - az;
    let vx = cx - ax;
    let vy = cy - ay;
    let vz = cz - az;
    let cxx = uy * vz - uz * vy;
    let cyy = uz * vx - ux * vz;
    let czz = ux * vy - uy * vx;
    0.5 * (cxx * cxx + cyy * cyy + czz * czz).sqrt()
}

#[test]
fn clip_fully_inside_returns_input_unchanged() {
    let mut t = Triangle::new(v3(0.0, 0.0, 1.0), v3(1.0, 0.0, 2.0), v3(0.0, 1.0, 3.0));
    t.set_color(Color::rgb(10, 20, 30));
    let out = t.clip_against_plane(v3(0.0, 0.0, 0.5), v3(0.0, 0.0, 1.0));
    assert_eq!(out.len(), 1);
    for k in 0..3 {
        assert_eq!(out[0].points[k].x.raw(), t.points[k].x.raw());
        assert_eq!(out[0].points[k].y.raw(), t.points[k].y.raw());
        assert_eq!(out[0].points[k].z.raw(), t.points[k].z.raw());
    }
    assert_eq!(out[0].get_color(), Color::rgb(10, 20, 30));
}

#[test]
fn clip_fully_outside_returns_empty() {
    let t = Triangle::new(v3(0.0, 0.0, -1.0), v3(1.0, 0.0, -2.0), v3(0.0, 1.0, -3.0));
    let out = t.clip_against_plane(v3(0.0, 0.0, 0.5), v3(0.0, 0.0, 1.0));
    assert_eq!(out.len(), 0);
}

#[test]
fn clip_one_inside_returns_one_triangle() {
    let t = Triangle::new(v3(0.0, 0.0, 1.0), v3(1.0, 0.0, -1.0), v3(0.0, 1.0, -1.0));
    let out = t.clip_against_plane(v3(0.0, 0.0, 0.0), v3(0.0, 0.0, 1.0));
    assert_eq!(out.len(), 1);
}

#[test]
fn clip_two_inside_returns_two_triangles() {
    let t = Triangle::new(v3(0.0, 0.0, 1.0), v3(1.0, 0.0, 1.0), v3(0.0, 1.0, -1.0));
    let out = t.clip_against_plane(v3(0.0, 0.0, 0.0), v3(0.0, 0.0, 1.0));
    assert_eq!(out.len(), 2);
}

#[test]
fn clip_inherits_color_on_split() {
    let mut t = Triangle::new(v3(0.0, 0.0, 1.0), v3(1.0, 0.0, 1.0), v3(0.0, 1.0, -1.0));
    t.set_color(Color::rgb(7, 8, 9));
    let out = t.clip_against_plane(v3(0.0, 0.0, 0.0), v3(0.0, 0.0, 1.0));
    assert_eq!(out.len(), 2);
    for tri in &out {
        assert_eq!(tri.get_color(), Color::rgb(7, 8, 9));
    }
}

#[test]
fn clip_never_keeps_a_vertex_meaningfully_outside() {
    let plane_p = v3(0.1, -0.2, 0.3);
    let mut plane_n = v3(0.3, 0.5, 0.8);
    plane_n.normalize();
    let cases = [
        Triangle::new(v3(0.0, 0.0, 1.0), v3(1.0, 0.0, -1.0), v3(0.0, 1.0, -1.0)),
        Triangle::new(v3(2.0, 1.0, 0.5), v3(-1.0, 0.3, 1.25), v3(0.0, -2.0, -0.75)),
        Triangle::new(v3(-3.0, 2.0, 1.0), v3(1.5, -0.5, 2.0), v3(0.25, 0.25, -4.0)),
        Triangle::new(v3(0.0, 0.0, 0.0), v3(1.0, 1.0, 1.0), v3(-1.0, 2.0, -2.0)),
    ];
    let eps = 0.01;
    for t in cases {
        for out in t.clip_against_plane(plane_p, plane_n) {
            for k in 0..3 {
                assert!(
                    dist(plane_p, plane_n, out.points[k]) >= -eps,
                    "vertex left outside by {}",
                    dist(plane_p, plane_n, out.points[k])
                );
            }
        }
    }
}

#[test]
fn clip_preserves_area_of_inside_part() {
    // A triangle split by the plane z = 0: one vertex inside, two outside.
    let t = Triangle::new(v3(0.0, 0.0, 1.0), v3(2.0, 0.0, -1.0), v3(-2.0, 0.0, -1.0));
    let out = t.clip_against_plane(v3(0.0, 0.0, 0.0), v3(0.0, 0.0, 1.0));
    assert_eq!(out.len(), 1);
    // The inside part is the top quarter of the triangle: area scales by t^2.
    let expected = area(&t) * 0.25;
    let got: f64 = out.iter().map(area).sum();
    assert!((got - expected).abs() < 0.02, "area {} vs {}", got, expected);

    // Two inside: the kept quadrilateral covers three quarters.
    let t2 = Triangle::new(v3(2.0, 0.0, 1.0), v3(-2.0, 0.0, 1.0), v3(0.0, 0.0, -1.0));
    let out2 = t2.clip_against_plane(v3(0.0, 0.0, 0.0), v3(0.0, 0.0, 1.0));
    assert_eq!(out2.len(), 2);
    let expected2 = area(&t2) * 0.75;
    let got2: f64 = out2.iter().map(area).sum();
    assert!((got2 - expected2).abs() < 0.02, "area {} vs {}", got2, expected2);
}

#[test]
fn midpoint_is_average_z() {
    let t = Triangle::new(v3(0.0, 0.0, 1.0), v3(0.0, 0.0, 2.0), v3(0.0, 0.0, 6.0));
    assert_eq!(t.midpoint().raw(), 3 * 65536);
}

#[test]
fn triangle_equality_goes_by_midpoint_alone() {
    let a = Triangle::new(v3(0.0, 0.0, 1.0), v3(5.0, 5.0, 2.0), v3(9.0, 9.0, 3.0));
    let b = Triangle::new(v3(7.0, 1.0, 3.0), v3(0.0, 2.0, 2.0), v3(4.0, 3.0, 1.0));
    let c = Triangle::new(v3(0.0, 0.0, 1.0), v3(0.0, 0.0, 1.0), v3(0.0, 0.0, 1.0));
    assert!(a == b);
    assert!(a != c);
}

#[test]
fn triangle_ordering_goes_by_midpoint() {
    let near = Triangle::new(v3(9.0, 9.0, 1.0), v3(0.0, 0.0, 1.0), v3(1.0, 1.0, 1.0));
    let far = Triangle::new(v3(0.0, 0.0, 3.0), v3(1.0, 0.0, 3.0), v3(0.0, 1.0, 3.0));
    assert!(near < far);
    assert!(far > near);
    assert!(near <= far);
    assert!(far >= near);
    assert_eq!(near.partial_cmp(&far), Some(std::cmp::Ordering::Less));
    assert_eq!(near.partial_cmp(&near.clone()), Some(std::cmp::Ordering::Equal));
}

#[test]
fn reverse_color_reads_channels_backwards() {
    let c = Color { r: 1, g: 2, b: 3, a: 4 };
    let r = softrender::triangle::reverse_color(c);
    assert_eq!(r, Color { r: 4, g: 3, b: 2, a: 1 });
}
