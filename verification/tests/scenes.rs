//! Tests of the trajectory sampler, the animation state, the projection
//! and the spirograph coupler, including the end-to-end scenarios.

use orbit_engine::animation::{
    animated_position, push_trail, recentre, uniform_angle, AnimationClock,
};
use orbit_engine::body::{PlanetaryObject, PlanetaryObjectRaw, PlanetarySystem};
use orbit_engine::colour::Colour;
use orbit_engine::geometry::{Pos2, Pos3};
use orbit_engine::kepler::build_angle_time_table;
use orbit_engine::projection::{
    bounds2, fit_zoom_coefficient, project_point, rotation_matrix, to_screen, zoom_factor,
};
use orbit_engine::sampler::{sample_orbit2, sample_orbit3, sample_uniform_line};
use orbit_engine::spiro::{auto_time_step, spirograph_trace, PairSelection};
use orbit_engine::table::TimeAngle;
use orbit_engine::units::{HALF_TURN, MICRO, QUARTER_TURN, TURN};

fn body(name: &str, distance_au: i64, eccentricity: i64, period: i64) -> PlanetaryObject {
    PlanetaryObject {
        name: String::from(name),
        distance_km: 0,
        distance_au,
        eccentricity,
        period_years: period,
        inclination: 0,
        longitude_of_perihelion: 0,
        group: String::from("planets"),
        colour: Colour::white(),
    }
}

#[test]
fn circular_orbit_sampled_at_four_steps_hits_the_cardinal_points() {
    // a = 1 AU, e = 0: four equally spaced steps land at angles 0, a
    // quarter, a half and three quarters of a turn, each at radius 1 AU.
    let path = sample_orbit2(MICRO, 0, 4);
    assert_eq!(path.len(), 5);
    assert_eq!(path[0], Pos2 { x: MICRO, y: 0 });
    assert_eq!(path[1], Pos2 { x: 0, y: MICRO });
    assert_eq!(path[2], Pos2 { x: -MICRO, y: 0 });
    assert_eq!(path[3], Pos2 { x: 0, y: -MICRO });
    assert_eq!(path[4], Pos2 { x: MICRO, y: 0 });
}

#[test]
fn resampling_unchanged_inputs_gives_identical_points() {
    let first = sample_orbit2(3 * MICRO, 123_456, 100);
    let second = sample_orbit2(3 * MICRO, 123_456, 100);
    assert_eq!(first, second);
    let spatial_one = sample_orbit3(2 * MICRO, 77_000, 60_000, 64);
    let spatial_two = sample_orbit3(2 * MICRO, 77_000, 60_000, 64);
    assert_eq!(spatial_one, spatial_two);
}

#[test]
fn zero_radius_body_samples_to_the_origin_everywhere() {
    let path = sample_orbit2(0, 400_000, 16);
    for p in &path {
        assert_eq!(*p, Pos2 { x: 0, y: 0 });
    }
}

#[test]
fn uniform_line_relates_time_and_angle_linearly() {
    let line = sample_uniform_line(2 * MICRO, 4, 1);
    assert_eq!(line.len(), 5);
    assert_eq!(line[0], TimeAngle { time: 0, angle: 0 });
    assert_eq!(line[2], TimeAngle { time: MICRO, angle: HALF_TURN });
    assert_eq!(line[4], TimeAngle { time: 2 * MICRO, angle: TURN });
}

#[test]
fn clock_advances_by_scaled_frame_delta() {
    let mut clock = AnimationClock::new();
    // Half a second at two years per second: one year on the clock.
    clock.advance(500_000, 2 * MICRO);
    assert_eq!(clock.time, MICRO);
    // Negative speed runs the clock backwards.
    clock.advance(500_000, -2 * MICRO);
    assert_eq!(clock.time, 0);
}

#[test]
fn uniform_angle_wraps_by_period() {
    let period = 4 * MICRO;
    assert_eq!(uniform_angle(0, period), 0);
    assert_eq!(uniform_angle(MICRO, period), QUARTER_TURN);
    assert_eq!(uniform_angle(5 * MICRO, period), QUARTER_TURN);
    assert_eq!(uniform_angle(0, 0), 0);
}

#[test]
fn animated_position_moves_a_body_and_skips_a_tableless_one() {
    let o = body("wanderer", MICRO, 0, MICRO);
    let table = build_angle_time_table(o.period_years, o.eccentricity, 1, 10);
    let at_start = animated_position(&o, &table, 0).unwrap();
    // Near the start of the orbit: close to the far apsis on the x axis.
    assert!((at_start.x - MICRO).abs() < 2_000, "{:?}", at_start);
    let empty: Vec<TimeAngle> = Vec::new();
    assert!(animated_position(&o, &empty, 0).is_none());
    let still = body("centre", 0, 0, 0);
    assert_eq!(animated_position(&still, &empty, 0), Some(Pos3 { x: 0, y: 0, z: 0 }));
}

#[test]
fn recentring_puts_the_reference_body_exactly_on_the_origin() {
    let positions = vec![
        Some(Pos3 { x: 10, y: 20, z: 30 }),
        None,
        Some(Pos3 { x: -5, y: 7, z: -9 }),
    ];
    let out = recentre(&positions, 2);
    assert_eq!(out[2], Some(Pos3 { x: 0, y: 0, z: 0 }));
    assert_eq!(out[0], Some(Pos3 { x: 15, y: 13, z: 39 }));
    assert_eq!(out[1], None);
}

#[test]
fn trail_appends_within_budget_then_replaces_the_last_point() {
    let mut trail: Vec<Pos3> = Vec::new();
    let p1 = Pos3 { x: 1, y: 0, z: 0 };
    let p2 = Pos3 { x: 2, y: 0, z: 0 };
    let p3 = Pos3 { x: 3, y: 0, z: 0 };
    // Budget: 2 points per orbit, half an orbit elapsed: one point allowed.
    push_trail(&mut trail, p1, MICRO / 2, MICRO, 2 * MICRO);
    assert_eq!(trail, vec![p1]);
    // Still half an orbit: the budget (one point) is used up; replace.
    push_trail(&mut trail, p2, MICRO / 2, MICRO, 2 * MICRO);
    assert_eq!(trail, vec![p2]);
    // A negative budget always appends.
    push_trail(&mut trail, p3, MICRO / 2, MICRO, -1);
    assert_eq!(trail, vec![p2, p3]);
}

#[test]
fn projection_at_rest_swaps_the_up_axis() {
    let m = rotation_matrix(0, 0);
    let p = project_point(&m, Pos3 { x: 10, y: 20, z: 30 });
    // Unrotated: render x is scene x, render y is scene z, render z is
    // scene y.
    assert_eq!(p, Pos3 { x: 10, y: 30, z: 20 });
}

#[test]
fn quarter_turn_about_x_swaps_depth_and_height() {
    let m = rotation_matrix(QUARTER_TURN, 0);
    let p = project_point(&m, Pos3 { x: 0, y: 5 * MICRO, z: 0 });
    // The swapped vector is (0, 0, y); pitching by a quarter turn brings
    // it onto the render y axis.
    assert_eq!(p.x, 0);
    assert_eq!(p.y, 5 * MICRO);
    assert_eq!(p.z, 0);
}

#[test]
fn zoom_factor_matches_the_quarter_step_ratio() {
    assert_eq!(zoom_factor(0), MICRO);
    // Four quarter steps multiply the scale by roughly eleven tenths.
    let z = zoom_factor(4);
    assert!((z - 1_100_000).abs() < 2_000, "zoom after four steps: {z}");
    // Negative coefficients shrink.
    assert!(zoom_factor(-4) < MICRO);
}

#[test]
fn fit_zoom_coefficient_is_the_floor_of_the_allowance() {
    let c = fit_zoom_coefficient(MICRO);
    assert_eq!(c, 0);
    let c2 = fit_zoom_coefficient(zoom_factor(37));
    assert_eq!(c2, 37);
}

#[test]
fn screen_transform_zooms_then_offsets() {
    let p = to_screen(Pos2 { x: 2 * MICRO, y: -MICRO }, 3 * MICRO, 10, -20, 100, 200);
    assert_eq!(p, Pos2 { x: 100 + 10 + 6 * MICRO, y: 200 - 20 - 3 * MICRO });
}

#[test]
fn bounds_cover_all_points() {
    let pts = vec![
        Pos2 { x: 3, y: -7 },
        Pos2 { x: -4, y: 9 },
        Pos2 { x: 1, y: 0 },
    ];
    assert_eq!(bounds2(&pts), (-4, 3, -7, 9));
}

#[test]
fn pair_selection_toggles_fills_and_evicts_first_in_first_out() {
    let mut sel = PairSelection::new();
    sel.choose_object(4);
    sel.choose_object(7);
    assert_eq!(sel.ordered_pair(), Some((4, 7)));
    // A third pick evicts the earliest choice.
    sel.choose_object(2);
    assert_eq!(sel.ordered_pair(), Some((2, 7)));
    // Picking a chosen body toggles it off.
    sel.choose_object(7);
    assert_eq!(sel.ordered_pair(), None);
    assert_eq!(sel.chosen, vec![2]);
}

#[test]
fn pair_is_independent_of_picking_order() {
    let mut one = PairSelection::new();
    one.choose_object(3);
    one.choose_object(9);
    let mut other = PairSelection::new();
    other.choose_object(9);
    other.choose_object(3);
    assert_eq!(one.ordered_pair(), other.ordered_pair());
}

#[test]
fn spirograph_trace_spans_the_configured_periods() {
    // Two bodies with periods one and two years, e = 0, two periods of
    // the outer body: the trace covers [0, 4) years, one segment per
    // step.
    let inner = body("inner", MICRO, 0, MICRO);
    let outer = body("outer", 2 * MICRO, 0, 2 * MICRO);
    let inner_table = build_angle_time_table(inner.period_years, 0, 1, 10);
    let outer_table = build_angle_time_table(outer.period_years, 0, 1, 10);
    let final_t = 2 * outer.period_years;
    let dt = 10_000;
    let trace = spirograph_trace(&inner, &outer, &inner_table, &outer_table, dt, final_t);
    assert_eq!(trace.len() as i64, final_t / dt);
    // Every segment joins a point of the inner circle to one of the
    // outer circle, within the kernel's tolerance.
    for seg in trace.iter().step_by(37) {
        let r1 = ((seg.inner.x as f64).powi(2) + (seg.inner.y as f64).powi(2)).sqrt();
        let r2 = ((seg.outer.x as f64).powi(2) + (seg.outer.y as f64).powi(2)).sqrt();
        assert!((r1 - MICRO as f64).abs() < 3_000.0, "inner radius {r1}");
        assert!((r2 - 2.0 * MICRO as f64).abs() < 6_000.0, "outer radius {r2}");
    }
}

#[test]
fn auto_time_step_is_a_thousandth_of_the_span() {
    assert_eq!(auto_time_step(2 * MICRO, 10 * MICRO), 2 * MICRO * 10 / 1000);
    assert_eq!(auto_time_step(0, 10 * MICRO), 0);
}

#[test]
fn from_raw_derives_distance_and_colour() {
    let raw = PlanetaryObjectRaw {
        name: String::from("third"),
        distance_km: 149_600_000,
        eccentricity: 16_700,
        period_years: MICRO,
        inclination: 0,
        longitude_of_perihelion: 0,
        group: String::from("planets"),
        colour: Some(String::from("1b4f72ff")),
    };
    let o = PlanetaryObject::from_raw(raw, Colour::white());
    assert_eq!(o.distance_au, MICRO);
    assert_eq!(o.colour, Colour { r: 0x1b, g: 0x4f, b: 0x72, a: 0xff });
    let system = PlanetarySystem::new(vec![o], String::from("home"));
    assert_eq!(system.objects.len(), 1);
    assert_eq!(system.name, "home");
}
