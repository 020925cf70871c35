//! Tests of the arithmetic kernel, the trigonometry and the orbit
//! geometry.

use orbit_engine::units::{clamp, isqrt, mod_euclid, mul_div, MICRO, QUARTER_TURN, HALF_TURN, TURN};
use orbit_engine::trig::{cos_fx, sin_fx};
use orbit_engine::geometry::{orbit_radius, position2, position2_rotated, position3, Pos2, Pos3};

#[test]
fn mul_div_rounds_towards_zero() {
    assert_eq!(mul_div(7, 3, 2), 10);
    assert_eq!(mul_div(-7, 3, 2), -10);
    assert_eq!(mul_div(7, -3, 2), -10);
    assert_eq!(mul_div(-7, -3, 2), 10);
    assert_eq!(mul_div(5, 0, 9), 0);
}

#[test]
fn mod_euclid_wraps_negatives_upwards() {
    assert_eq!(mod_euclid(7, 5), 2);
    assert_eq!(mod_euclid(-7, 5), 3);
    assert_eq!(mod_euclid(-5, 5), 0);
    assert_eq!(mod_euclid(0, 5), 0);
}

#[test]
fn isqrt_exact_and_floor() {
    assert_eq!(isqrt(0), 0);
    assert_eq!(isqrt(1), 1);
    assert_eq!(isqrt(15), 3);
    assert_eq!(isqrt(16), 4);
    assert_eq!(isqrt(1_000_000_000_000), 1_000_000);
}

#[test]
fn clamp_forces_into_range() {
    assert_eq!(clamp(5, -3, 3), 3);
    assert_eq!(clamp(-5, -3, 3), -3);
    assert_eq!(clamp(1, -3, 3), 1);
}

#[test]
fn sine_and_cosine_exact_at_cardinal_angles() {
    assert_eq!(sin_fx(0), 0);
    assert_eq!(sin_fx(QUARTER_TURN), MICRO);
    assert_eq!(sin_fx(HALF_TURN), 0);
    assert_eq!(sin_fx(3 * QUARTER_TURN), -MICRO);
    assert_eq!(cos_fx(0), MICRO);
    assert_eq!(cos_fx(QUARTER_TURN), 0);
    assert_eq!(cos_fx(HALF_TURN), -MICRO);
    assert_eq!(cos_fx(3 * QUARTER_TURN), 0);
    // periodicity of the reduced angle
    assert_eq!(sin_fx(TURN + QUARTER_TURN), MICRO);
    assert_eq!(cos_fx(-TURN), MICRO);
}

#[test]
fn sine_stays_within_one_unit_and_close_to_true_value() {
    // sin(30 degrees) = 1/2; the kernel is within two thousandths.
    let s = sin_fx(30 * 3600);
    assert!((s - 500_000).abs() < 2_000, "sin 30deg = {s}");
    let c = cos_fx(60 * 3600);
    assert!((c - 500_000).abs() < 2_000, "cos 60deg = {c}");
    for k in 0..100 {
        let a = k * 12_960;
        assert!(sin_fx(a).abs() <= MICRO);
        assert!(cos_fx(a).abs() <= MICRO);
    }
}

#[test]
fn radius_of_circular_orbit_is_semi_major_axis() {
    // Zero eccentricity: the radius is the axis at every angle.
    for k in 0..8 {
        let c = cos_fx(k * (TURN / 8));
        assert_eq!(orbit_radius(MICRO, 0, c), MICRO);
    }
}

#[test]
fn apsis_distances_match_the_orbit_equation() {
    // e = 0.5: the far apsis (angle 0) lies at a(1+e), the near apsis
    // (half a turn) at a(1-e).
    let a = MICRO;
    let e = 500_000;
    let far = position2(a, e, 0);
    assert_eq!(far, Pos2 { x: 1_500_000, y: 0 });
    let near = position2(a, e, HALF_TURN);
    assert_eq!(near, Pos2 { x: -500_000, y: 0 });
}

#[test]
fn zero_radius_body_sits_at_origin() {
    for k in 0..12 {
        let theta = k * 100_000;
        assert_eq!(position2(0, 300_000, theta), Pos2 { x: 0, y: 0 });
        assert_eq!(position3(0, 300_000, 70_000, theta), Pos3 { x: 0, y: 0, z: 0 });
    }
}

#[test]
fn tilted_orbit_splits_x_across_depth() {
    // A quarter-turn inclination sends the whole planar x to the z axis.
    let p = position3(MICRO, 0, QUARTER_TURN, 0);
    assert_eq!(p, Pos3 { x: 0, y: 0, z: MICRO });
    // No inclination keeps the planar coordinates.
    let q = position3(MICRO, 0, 0, QUARTER_TURN);
    assert_eq!(q, Pos3 { x: 0, y: MICRO, z: 0 });
}

#[test]
fn rotated_ellipse_matches_plain_ellipse_when_unrotated() {
    // With the longitude of perihelion at zero, the oriented ellipse's
    // denominator angle is half a turn ahead: angle 0 shows the near
    // apsis instead of the far one.
    let a = 2 * MICRO;
    let e = 250_000;
    let p = position2_rotated(a, e, 0, 0);
    let near = position2(a, e, HALF_TURN);
    assert_eq!(p.x, -near.x);
    assert_eq!(p.y, 0);
}
