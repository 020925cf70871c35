//! Tests of the scene catalogue, the per-scene data, the third-law fit,
//! the colour parser and the view configuration.

use orbit_engine::body::PlanetaryObject;
use orbit_engine::colour::{parse_colour, parse_hex, Colour};
use orbit_engine::geometry::Pos3;
use orbit_engine::regression::{fit_points, pow_three_halves, PlotPoint};
use orbit_engine::scene::{discrete_zoom_step, SceneConfig};
use orbit_engine::tasks::{
    visible_bodies, Data, Task, Task1Data, Task2Data, Task3Data, Task4Data, Task5AData,
    Task5BData, Task6Data, Task7Data, TASKS_NUM,
};
use orbit_engine::units::{MICRO, QUARTER_TURN};

fn body(name: &str, distance_au: i64, eccentricity: i64, period: i64) -> PlanetaryObject {
    PlanetaryObject {
        name: String::from(name),
        distance_km: 0,
        distance_au,
        eccentricity,
        period_years: period,
        inclination: 0,
        longitude_of_perihelion: 0,
        group: String::from("planets"),
        colour: Colour::white(),
    }
}

#[test]
fn task_indices_round_trip() {
    for i in 0..TASKS_NUM {
        let task = Task::from_index(i);
        assert_eq!(task.task_index(), i);
    }
}

#[test]
fn menu_captions_name_every_scene() {
    assert_eq!(Task::Task1.display_name(), "Task 1");
    assert_eq!(Task::Task2Rotated.display_name(), "Task 2 with rotation");
    assert_eq!(Task::Task5A.display_name(), "Task 5a");
    assert_eq!(Task::Task7.display_name(), "Task 7");
}

#[test]
fn panel_order_and_repaint_flags() {
    assert!(Task::Task1.render_after_top_panel());
    assert!(!Task::Task7.render_after_top_panel());
    assert!(Task::Task7.should_request_repaint());
    assert!(!Task::Task6.should_request_repaint());
}

#[test]
fn hidden_bodies_drop_out_of_the_visible_order() {
    // Distances out of order on purpose; the middle body is hidden.
    let objects = vec![
        body("far", 3 * MICRO, 0, 3 * MICRO),
        body("near", MICRO, 0, MICRO),
        body("middle", 2 * MICRO, 0, 2 * MICRO),
    ];
    let all = visible_bodies(&objects, &vec![true, true, true]);
    assert_eq!(all, vec![1, 2, 0]);
    let some = visible_bodies(&objects, &vec![true, true, false]);
    assert_eq!(some, vec![1, 0]);
    // Flags missing at the tail default to visible.
    let defaulted = visible_bodies(&objects, &vec![false]);
    assert_eq!(defaulted, vec![1, 2]);
}

#[test]
fn perfect_third_law_data_fits_exactly() {
    // y = 2 x exactly: slope two units, coefficient of determination one.
    let points = vec![
        PlotPoint { x: MICRO, y: 2 * MICRO },
        PlotPoint { x: 2 * MICRO, y: 4 * MICRO },
        PlotPoint { x: 3 * MICRO, y: 6 * MICRO },
    ];
    let fit = fit_points(&points);
    assert_eq!(fit.slope, 2 * MICRO);
    assert_eq!(fit.mean_y, 4 * MICRO);
    assert_eq!(fit.r_squared, MICRO);
}

#[test]
fn power_three_halves_on_squares_is_exact() {
    // 4^(3/2) = 8.
    assert_eq!(pow_three_halves(4 * MICRO), 8 * MICRO);
    assert_eq!(pow_three_halves(MICRO), MICRO);
    assert_eq!(pow_three_halves(0), 0);
}

#[test]
fn task1_builds_plot_and_fit_from_visible_bodies() {
    let objects = vec![
        body("one", MICRO, 0, MICRO),
        body("four", 4 * MICRO, 0, 8 * MICRO),
    ];
    let mut data = Task1Data::new();
    data.init(&objects, &vec![true, true]);
    assert_eq!(data.points.len(), 2);
    assert_eq!(data.points[0].x, MICRO);
    assert_eq!(data.points[1].x, 8 * MICRO);
    // Kepler's third law holds exactly for these bodies.
    assert_eq!(data.slope, MICRO);
    assert_eq!(data.r_squared, MICRO);
}

#[test]
fn task2_paths_mark_zero_radius_bodies() {
    let objects = vec![body("centre", 0, 0, 0), body("first", MICRO, 0, MICRO)];
    let mut data = Task2Data::new();
    data.init(&objects, &vec![true, true]);
    assert_eq!(data.points.len(), 2);
    assert!(data.points[0].marker_at_origin);
    assert!(!data.points[1].marker_at_origin);
    assert_eq!(data.points[1].path.len(), 1001);
}

#[test]
fn task3_markers_follow_the_uniform_angle() {
    let objects = vec![body("first", MICRO, 0, 4 * MICRO)];
    let mut data = Task3Data::new();
    data.init(&objects, &vec![true]);
    // One second at one year per second, over a four-year period: a
    // quarter of a turn.
    data.move_markers(&objects, &vec![true], MICRO);
    assert_eq!(data.markers.len(), 1);
    assert_eq!(data.markers[0].pos.x, 0);
    assert_eq!(data.markers[0].pos.y, MICRO);
}

#[test]
fn task4_excludes_zero_radius_bodies_from_paths_but_not_markers() {
    let objects = vec![body("centre", 0, 0, 0), body("first", MICRO, 0, MICRO)];
    let mut data = Task4Data::new();
    data.init(&objects, &vec![true, true]);
    // Only the orbiting body draws a path...
    assert_eq!(data.points.len(), 1);
    assert_eq!(data.points[0].body, 1);
    // ...but both bodies show markers, the point mass at the origin.
    data.move_markers(&objects, &vec![true, true], 0);
    assert_eq!(data.markers.len(), 2);
    assert_eq!(data.markers[0].body, 0);
    assert_eq!(data.markers[0].pos, Pos3 { x: 0, y: 0, z: 0 });
}

#[test]
fn task5a_plots_reference_line_and_solver_curve() {
    let objects = vec![body("first", MICRO, 200_000, MICRO), body("centre", 0, 0, 0)];
    let mut data = Task5AData::new();
    data.init(&objects, &vec![true, true]);
    // The point mass has no period and is left out.
    assert_eq!(data.points.len(), 1);
    assert_eq!(data.points[0].reference.len(), 1001);
    assert_eq!(data.points[0].curve.len(), 180);
}

#[test]
fn task5b_keeps_empty_tables_for_zero_radius_bodies() {
    let objects = vec![body("centre", 0, 0, 0), body("first", MICRO, 0, MICRO)];
    let mut data = Task5BData::new();
    data.init(&objects, &vec![true, true]);
    assert_eq!(data.tables.len(), 2);
    assert!(data.tables[0].is_empty());
    assert_eq!(data.tables[1].len(), 600);
    data.move_markers(&objects, &vec![true, true], 0);
    // Two ring markers; the solver pass adds the orbiting body and the
    // origin-bound point mass.
    assert_eq!(data.markers.len(), 4);
    assert!(data.markers[0].stroke_only);
    assert!(!data.markers[3].stroke_only);
}

#[test]
fn task6_trace_covers_two_periods_of_the_outer_body() {
    let objects = vec![
        body("inner", MICRO, 0, MICRO),
        body("outer", 2 * MICRO, 0, 2 * MICRO),
    ];
    let mut data = Task6Data::new();
    data.number_of_periods = 2 * MICRO;
    data.selection.choose_object(0);
    data.selection.choose_object(1);
    // A pan left over from before the pair was chosen...
    data.config.offset_x = 77;
    data.config.offset_y = -5;
    data.init(&objects, &vec![true, true], 1000, 800);
    assert_eq!(data.orbit_points.len(), 2);
    assert_eq!(data.last_valid_pair, (0, 1));
    // ...is recentred when the new pair arrives, and the zoom is fitted.
    assert_eq!((data.config.offset_x, data.config.offset_y), (0, 0));
    // The freshly fitted time step is a thousandth of the span.
    let span = 2 * (2 * MICRO);
    assert_eq!(data.dt, span / 1000);
    assert_eq!(data.spirograph_line_points.len() as i64, span / data.dt);
    // Re-picking the very same pair is a no-op on the view and the step.
    let view = data.config;
    let dt = data.dt;
    data.config.offset_x = 42;
    data.init(&objects, &vec![true, true], 1000, 800);
    assert_eq!(data.config.offset_x, 42);
    assert_eq!(data.config.zoom_coefficient, view.zoom_coefficient);
    assert_eq!(data.dt, dt);
}

#[test]
fn task6_without_a_pair_builds_no_trace() {
    let objects = vec![body("inner", MICRO, 0, MICRO)];
    let mut data = Task6Data::new();
    data.selection.choose_object(0);
    data.config.offset_y = 9;
    let dt = data.dt;
    data.init(&objects, &vec![true], 1000, 800);
    assert!(data.orbit_points.is_empty());
    assert!(data.spirograph_line_points.is_empty());
    // Idle: the view, the step and the remembered pair are untouched.
    assert_eq!(data.config.offset_y, 9);
    assert_eq!(data.dt, dt);
    assert_eq!(data.last_valid_pair, (0, 0));
}

#[test]
fn task7_recentres_on_the_stationary_body() {
    let objects = vec![
        body("first", MICRO, 0, MICRO),
        body("second", 2 * MICRO, 0, 2 * MICRO),
    ];
    let mut data = Task7Data::new();
    data.init(&objects, &vec![true, true]);
    data.stationary_object_index = 1;
    data.step(&objects, &vec![true, true], 16_667);
    // The stationary body's marker lands exactly on the origin.
    let stationary_marker = data.markers.iter().find(|m| m.body == 1).unwrap();
    assert_eq!(stationary_marker.pos, Pos3 { x: 0, y: 0, z: 0 });
    // Both bodies left one trail point.
    assert_eq!(data.trails.len(), 2);
    assert_eq!(data.trails[0].len(), 1);
    assert_eq!(data.trails[1].len(), 1);
}

#[test]
fn data_dispatch_initialises_the_chosen_scene() {
    let system = orbit_engine::body::PlanetarySystem::new(
        vec![body("first", MICRO, 0, MICRO)],
        String::from("home"),
    );
    let systems = vec![system];
    let mut data = Data::new();
    data.init_task(&Task::Task2, 0, &systems, &vec![true], 1000, 800);
    assert_eq!(data.task_2_data.points.len(), 1);
    data.init_task_by_id(3, 0, &systems, &vec![true], 1000, 800);
    assert_eq!(data.task_3_data.points.len(), 1);
}

#[test]
fn colour_strings_parse_or_fall_back() {
    let default = Colour::white();
    assert_eq!(
        parse_colour(Some("ff8000c0"), default),
        Colour { r: 0xff, g: 0x80, b: 0x00, a: 0xc0 }
    );
    // Short strings denote small values: alpha first.
    assert_eq!(parse_colour(Some("ff"), default), Colour { r: 0, g: 0, b: 0, a: 0xff });
    // Malformed strings and missing strings fall back.
    assert_eq!(parse_colour(Some("not hex"), default), default);
    assert_eq!(parse_colour(Some(""), default), default);
    assert_eq!(parse_colour(None, default), default);
}

#[test]
fn hex_parser_accepts_digits_only() {
    assert_eq!(parse_hex(b"0"), Some(0));
    assert_eq!(parse_hex(b"ff"), Some(255));
    assert_eq!(parse_hex(b"FF"), Some(255));
    assert_eq!(parse_hex(b"10"), Some(16));
    assert_eq!(parse_hex(b""), None);
    assert_eq!(parse_hex(b"-1"), None);
    assert_eq!(parse_hex(b"xyz"), None);
    // Sixteen digits could overflow the value range and are refused.
    assert_eq!(parse_hex(b"1234567890abcdef"), None);
}

#[test]
fn view_input_clamps_the_pitch_axis() {
    let mut config = SceneConfig::new();
    // Drag the pitch far beyond a quarter turn: it saturates.
    config.apply_input(0, 0, 0, 2 * QUARTER_TURN, 0, 0);
    assert_eq!(config.rotate_x, QUARTER_TURN);
    config.apply_input(0, 0, 0, -5 * QUARTER_TURN, 0, 0);
    assert_eq!(config.rotate_x, -QUARTER_TURN);
    // Pan and zoom steps accumulate.
    config.apply_input(3, -4, 0, 0, 1, 0);
    assert_eq!((config.offset_x, config.offset_y), (3, -4));
    assert_eq!(config.zoom_coefficient, 121);
}

#[test]
fn scroll_amounts_become_single_zoom_steps() {
    assert_eq!(discrete_zoom_step(250), 1);
    assert_eq!(discrete_zoom_step(0), 0);
    assert_eq!(discrete_zoom_step(-3), -1);
}
