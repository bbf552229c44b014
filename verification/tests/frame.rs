use softrender::camera::Camera;
use softrender::clock::{Clock, Timer};
use softrender::fx::{Fx, FX_ONE};
use softrender::matrix::Matrix4x4;
use softrender::mesh::Mesh;
use softrender::pipeline;
use softrender::triangle::Triangle;
use softrender::vec::Vec3;

fn fx(v: f64) -> Fx {
    Fx::from_raw((v * 65536.0).round() as i64)
}

fn v3(x: f64, y: f64, z: f64) -> Vec3 {
    Vec3::new(fx(x), fx(y), fx(z))
}

fn to_f64(v: Fx) -> f64 {
    v.raw() as f64 / 65536.0
}

fn tri_at_z(z: f64) -> Triangle {
    Triangle::new(v3(0.0, 0.0, z), v3(1.0, 0.0, z), v3(0.0, 1.0, z))
}

#[test]
fn sort_back_to_front_orders_midpoints_descending() {
    let mut ts = vec![tri_at_z(3.0), tri_at_z(1.0), tri_at_z(2.0)];
    pipeline::sort_back_to_front(&mut ts);
    let mids: Vec<f64> = ts.iter().map(|t| to_f64(t.midpoint())).collect();
    assert_eq!(mids, vec![3.0, 2.0, 1.0]);
}

#[test]
fn sort_keeps_every_triangle() {
    let mut ts = vec![tri_at_z(5.0), tri_at_z(-1.0), tri_at_z(0.5), tri_at_z(5.0)];
    pipeline::sort_back_to_front(&mut ts);
    assert_eq!(ts.len(), 4);
    let mids: Vec<f64> = ts.iter().map(|t| to_f64(t.midpoint())).collect();
    assert_eq!(mids, vec![5.0, 5.0, 0.5, -1.0]);
}

#[test]
fn look_at_zero_gives_unit_z_exactly() {
    let mut cam = Camera::new(v3(0.0, 0.0, 0.0), v3(0.0, 0.0, 1.0), fx(0.0), fx(0.0), fx(0.0));
    cam.look_at(Fx::from_raw(0), Fx::from_raw(0));
    assert_eq!(cam.look_direction.x.raw(), 0);
    assert_eq!(cam.look_direction.y.raw(), 0);
    assert_eq!(cam.look_direction.z.raw(), FX_ONE);
}

#[test]
fn look_at_quarter_turn_gives_unit_x() {
    let mut cam = Camera::new(v3(0.0, 0.0, 0.0), v3(0.0, 0.0, 1.0), fx(0.0), fx(0.0), fx(0.0));
    cam.look_at(fx(std::f64::consts::FRAC_PI_2), fx(0.0));
    assert!((to_f64(cam.look_direction.x) - 1.0).abs() < 1e-2);
    assert!(to_f64(cam.look_direction.y).abs() < 1e-2);
    assert!(to_f64(cam.look_direction.z).abs() < 1e-2);
}

#[test]
fn camera_basis_vectors_straight_ahead() {
    let mut cam = Camera::new(v3(0.0, 0.0, 0.0), v3(0.0, 0.0, 1.0), fx(0.0), fx(0.0), fx(0.0));
    cam.look_at(fx(0.0), fx(0.0));
    let front = cam.get_front();
    assert!((to_f64(front.z) - 1.0).abs() < 1e-3 && to_f64(front.x).abs() < 1e-3);
    let right = cam.get_right();
    assert!((to_f64(right.x) - 1.0).abs() < 1e-3);
    let up = cam.get_up();
    assert!((to_f64(up.y) - 1.0).abs() < 1e-3);
    let fwd = cam.get_forward();
    assert_eq!(fwd.z.raw(), cam.look_direction.z.raw());
}

#[test]
fn wrap_angles_clamps_pitch_and_wraps_yaw() {
    let mut cam = Camera::new(v3(0.0, 0.0, 0.0), v3(0.0, 0.0, 1.0), fx(7.0), fx(2.0), fx(0.0));
    cam.wrap_angles();
    assert!((to_f64(cam.pitch) - 1.569).abs() < 1e-2);
    assert!((to_f64(cam.yaw) - (7.0 - 2.0 * std::f64::consts::PI)).abs() < 1e-2);
    let mut cam2 = Camera::new(v3(0.0, 0.0, 0.0), v3(0.0, 0.0, 1.0), fx(-1.0), fx(-2.0), fx(0.0));
    cam2.wrap_angles();
    assert!((to_f64(cam2.pitch) + 1.569).abs() < 1e-2);
    assert!((to_f64(cam2.yaw) + 1.0).abs() < 1e-3);
}

#[test]
fn facing_away_triangle_is_culled() {
    // Counter-clockwise winding seen from behind: normal points away.
    let t = Triangle::new(v3(0.0, 0.0, 4.0), v3(1.0, 0.0, 4.0), v3(0.0, 1.0, 4.0));
    let world = Matrix4x4::identity();
    let view = Matrix4x4::identity();
    let proj = Matrix4x4::projection(fx(0.5), fx(1.0), fx(0.1), fx(1000.0));
    let out = pipeline::process_triangle(&t, &world, &view, &proj, v3(0.0, 0.0, 0.0), 200, 100);
    assert!(out.is_empty());
}

#[test]
fn lighting_floors_at_a_tenth() {
    // A normal pointing straight away from the light still gets 10% gray.
    let n = v3(0.0, -1.0, 1.0).normalized();
    let c = pipeline::light_color(&n);
    let expected = (0.1 * 255.0) as u8;
    assert!(c.r == expected || c.r == expected + 1, "channel {}", c.r);
    assert_eq!(c.r, c.g);
    assert_eq!(c.g, c.b);
}

#[test]
fn clip_to_screen_keeps_interior_triangle() {
    let t = Triangle::new(v3(10.0, 10.0, 1.0), v3(50.0, 10.0, 1.0), v3(10.0, 40.0, 1.0));
    let out = pipeline::clip_to_screen(&t, 200, 100);
    assert_eq!(out.len(), 1);
}

#[test]
fn clip_to_screen_discards_offscreen_triangle() {
    let t = Triangle::new(v3(-50.0, -50.0, 1.0), v3(-10.0, -50.0, 1.0), v3(-10.0, -20.0, 1.0));
    let out = pipeline::clip_to_screen(&t, 200, 100);
    assert!(out.is_empty());
}

#[test]
fn end_to_end_centroid_matches_prediction() {
    // One triangle 4 units straight ahead; 200x100 viewport, 90-degree fov,
    // aspect ratio 0.5. Identity world, camera at the origin looking +z.
    let src = "v 0 0 4\nv 0 1 4\nv 1 0 4\nf 1 2 3";
    let mesh = Mesh::from_str(src).unwrap();
    let world = Matrix4x4::identity();
    let mut cam = Camera::new(v3(0.0, 0.0, 0.0), v3(0.0, 0.0, 1.0), fx(0.0), fx(0.0), fx(0.0));
    cam.look_at(fx(0.0), fx(0.0));
    let view = pipeline::view_matrix(&cam);
    let proj = Matrix4x4::projection(fx(0.5), fx(1.0), fx(0.1), fx(1000.0));
    let out = pipeline::render_frame(&mesh, &world, &view, &proj, cam.pos, 200, 100);
    assert_eq!(out.len(), 1);
    let t = &out[0];
    let cx = (to_f64(t.points[0].x) + to_f64(t.points[1].x) + to_f64(t.points[2].x)) / 3.0;
    let cy = (to_f64(t.points[0].y) + to_f64(t.points[1].y) + to_f64(t.points[2].y)) / 3.0;
    // Predicted: x maps to (1 - x*0.5/4)*100, y to (1 - y/4)*50.
    let ex = (100.0 + 100.0 + 87.5) / 3.0;
    let ey = (50.0 + 37.5 + 50.0) / 3.0;
    assert!((cx - ex).abs() < 1.0, "centroid x {} vs {}", cx, ex);
    assert!((cy - ey).abs() < 1.0, "centroid y {} vs {}", cy, ey);
}

#[test]
fn clock_reports_budget_when_frame_is_fast() {
    let mut clock = Clock::new(100, 1_000_000);
    // 4 ms frame against a 10 ms budget.
    let (dt, sleep) = clock.tick(5_000_000);
    assert_eq!(dt, 10_000_000);
    assert_eq!(sleep, 6_000_000);
    assert_eq!(clock.frame_start, 5_000_000);
}

#[test]
fn clock_reports_overrun_frames_as_measured() {
    let mut clock = Clock::new(100, 0);
    let (dt, sleep) = clock.tick(25_000_000);
    assert_eq!(dt, 25_000_000);
    assert_eq!(sleep, 0);
}

#[test]
fn timer_fires_only_after_budget() {
    let mut timer = Timer::new(100, 0);
    assert!(!timer.tick(4_000_000));
    assert_eq!(timer.frame_start, 0);
    assert!(timer.tick(12_000_000));
    assert_eq!(timer.frame_start, 10_000_000);
    assert!(!timer.tick(15_000_000));
}

#[test]
fn world_up_is_injectable() {
    let mut cam = Camera::new(v3(0.0, 0.0, 0.0), v3(0.0, 0.0, 1.0), fx(0.0), fx(0.0), fx(0.0));
    cam.look_at(fx(0.0), fx(0.0));
    cam.set_world_up(v3(0.0, -1.0, 0.0));
    let right = cam.get_right();
    assert!((to_f64(right.x) + 1.0).abs() < 1e-3);
}
