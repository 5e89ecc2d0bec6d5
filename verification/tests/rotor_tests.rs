use procmesh::fixed::Fx;
use procmesh::rotor::{blade_transforms, pivot_step, rotate_around, QuatX, Transform3};
use procmesh::vec3::Vec3x;

const ONE: i64 = 65536;

fn fx(raw: i64) -> Fx {
    Fx { raw }
}

fn v(x: i64, y: i64, z: i64) -> Vec3x {
    Vec3x { x: fx(x), y: fx(y), z: fx(z) }
}

fn start_blade() -> Transform3 {
    Transform3 { translation: v(0, 2 * ONE, 0), rotation: QuatX::identity() }
}

#[test]
fn zero_speed_leaves_the_transform_unchanged() {
    let mut t = start_blade();
    let before = t;
    for _ in 0..10 {
        pivot_step(&mut t, fx(0), fx(32768), v(0, 2 * ONE, 0));
    }
    assert_eq!(t, before);
}

#[test]
fn half_turn_rotation_is_exact_on_the_axes() {
    // a half turn about z maps (1, 0, 0) to (-1, 0, 0) exactly
    let q = QuatX::from_rotation_z(fx(32768));
    assert_eq!((q.w.raw, q.x.raw, q.y.raw, q.z.raw), (0, 0, 0, ONE));
    let r = q.rotate(v(ONE, 0, 0));
    assert_eq!((r.x.raw, r.y.raw, r.z.raw), (-ONE, 0, 0));
    let r2 = q.rotate(v(0, ONE, 0));
    assert_eq!((r2.x.raw, r2.y.raw, r2.z.raw), (0, -ONE, 0));
    let r3 = q.rotate(v(0, 0, ONE));
    assert_eq!((r3.x.raw, r3.y.raw, r3.z.raw), (0, 0, ONE));
}

#[test]
fn rotate_around_identity_keeps_the_pose() {
    let mut t = start_blade();
    let before = t;
    rotate_around(&mut t, v(7 * ONE, -3 * ONE, ONE), QuatX::identity());
    assert_eq!(t, before);
}

#[test]
fn four_quarter_turns_return_the_blade_tip() {
    // translation (0, 2, 0), pivot offset (0, 2, 0), half a turn per
    // second, half-second ticks: each tick turns a quarter, and four
    // ticks close the circle up to rounding
    let mut t = start_blade();
    let speed = fx(32768);
    let dt = fx(32768);
    let offset = v(0, 2 * ONE, 0);
    let mut samples: Vec<(f64, f64)> = Vec::new();
    for _ in 0..4 {
        pivot_step(&mut t, speed, dt, offset);
        samples.push((
            t.translation.x.raw as f64 / ONE as f64,
            t.translation.y.raw as f64 / ONE as f64,
        ));
    }
    // quarter stops near (-2, 0), (0, -2), (2, 0), back to (0, 2)
    let expect = [(-2.0, 0.0), (0.0, -2.0), (2.0, 0.0), (0.0, 2.0)];
    for (got, want) in samples.iter().zip(expect.iter()) {
        assert!(
            (got.0 - want.0).abs() < 0.08 && (got.1 - want.1).abs() < 0.08,
            "got {:?}, want {:?}",
            got,
            want
        );
    }
    assert_eq!(t.translation.z.raw, 0);
}

#[test]
fn arm_length_is_preserved_within_rounding() {
    let mut t = start_blade();
    let speed = fx(32768);
    let dt = fx(32768);
    let offset = v(0, 2 * ONE, 0);
    for _ in 0..4 {
        pivot_step(&mut t, speed, dt, offset);
        // the hub stays at the origin, so the arm is the translation
        let x = t.translation.x.raw as f64 / ONE as f64;
        let y = t.translation.y.raw as f64 / ONE as f64;
        let arm = (x * x + y * y).sqrt();
        assert!((arm - 2.0).abs() < 0.08, "arm length {}", arm);
    }
}

#[test]
fn stepping_about_z_keeps_the_blade_plane_exactly() {
    let mut t = Transform3 { translation: v(ONE, 2 * ONE, 3 * ONE), rotation: QuatX::identity() };
    let offset = v(0, 2 * ONE, ONE);
    for _ in 0..6 {
        pivot_step(&mut t, fx(11111), fx(7777), offset);
        assert_eq!(t.translation.z.raw, 3 * ONE);
        assert_eq!(t.rotation.x.raw, 0);
        assert_eq!(t.rotation.y.raw, 0);
    }
}

#[test]
fn blade_placement_is_even() {
    let axis = v(0, 85 * ONE, 11 * ONE);
    let blades = blade_transforms(3, fx(40 * ONE), axis);
    assert_eq!(blades.len(), 3);
    // blade 0 is unrotated: half the blade length straight up the y axis
    let b0 = blades[0];
    assert_eq!(
        (b0.translation.x.raw, b0.translation.y.raw, b0.translation.z.raw),
        (0, 105 * ONE, 11 * ONE)
    );
    assert_eq!(
        (b0.rotation.w.raw, b0.rotation.x.raw, b0.rotation.y.raw, b0.rotation.z.raw),
        (ONE, 0, 0, 0)
    );
    // the other two sit a third of a turn apart at the same arm length
    for (i, b) in blades.iter().enumerate().skip(1) {
        let ang = 2.0 * std::f64::consts::PI * (i as f64) / 3.0;
        let want_x = -20.0 * ang.sin();
        let want_y = 85.0 + 20.0 * ang.cos();
        let got_x = b.translation.x.raw as f64 / ONE as f64;
        let got_y = b.translation.y.raw as f64 / ONE as f64;
        assert!(
            (got_x - want_x).abs() < 0.15 && (got_y - want_y).abs() < 0.15,
            "blade {}: got ({}, {}), want ({}, {})",
            i,
            got_x,
            got_y,
            want_x,
            want_y
        );
        assert_eq!(b.translation.z.raw, 11 * ONE);
    }
}
