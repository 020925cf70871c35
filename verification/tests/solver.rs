//! Tests of the Kepler time-angle solver, the table sort and the inverse
//! lookup.

use orbit_engine::kepler::{build_angle_time_table, D_THETA, STEPS_PER_TURN};
use orbit_engine::lookup::{angle_from_time, floor_in_table};
use orbit_engine::table::{sort_table_by_time, TimeAngle};
use orbit_engine::units::{mod_euclid, MICRO, TURN};

fn assert_sorted_by_time(table: &Vec<TimeAngle>) {
    for w in table.windows(2) {
        assert!(w[0].time <= w[1].time, "{} > {}", w[0].time, w[1].time);
    }
}

#[test]
fn sort_is_stable_and_orders_by_time() {
    let rows = vec![
        TimeAngle { time: 5, angle: 0 },
        TimeAngle { time: 1, angle: 1 },
        TimeAngle { time: 5, angle: 2 },
        TimeAngle { time: 0, angle: 3 },
    ];
    let sorted = sort_table_by_time(rows);
    assert_eq!(
        sorted,
        vec![
            TimeAngle { time: 0, angle: 3 },
            TimeAngle { time: 1, angle: 1 },
            TimeAngle { time: 5, angle: 0 },
            TimeAngle { time: 5, angle: 2 },
        ]
    );
}

#[test]
fn table_time_column_non_decreasing_for_many_eccentricities() {
    // The sort guarantee holds across the eccentricity range.
    for e in [0, 100_000, 250_000, 500_000, 750_000, 950_000] {
        let table = build_angle_time_table(MICRO, e, 1, 10);
        assert_eq!(table.len() as i64, STEPS_PER_TURN / 10);
        assert_sorted_by_time(&table);
    }
}

#[test]
fn circular_table_times_are_exact_fractions_of_the_period() {
    // With zero eccentricity the Simpson sum telescopes exactly: the
    // sample at step i carries the time i/steps of a period. The sample
    // at step zero is the one exception: it already holds the opening
    // third of a Simpson step, so its time is small but positive.
    let period = MICRO;
    let table = build_angle_time_table(period, 0, 1, 10);
    assert_eq!(table[0].angle, 0);
    assert!(table[0].time > 0 && table[0].time < 100, "{}", table[0].time);
    for (k, row) in table.iter().enumerate().skip(1) {
        let i = (k as i64) * 10;
        assert_eq!(row.angle, i * D_THETA);
        assert_eq!(row.time, period * i / STEPS_PER_TURN);
    }
}

#[test]
fn angle_time_round_trip_near_zero_and_period() {
    // Looking up time zero lands near angle zero; looking up one full
    // period lands near the same angle again (one turn on).
    let period = MICRO;
    let table = build_angle_time_table(period, 0, 1, 10);
    let at_zero = angle_from_time(&table, 0).unwrap();
    let at_period = angle_from_time(&table, period).unwrap();
    let wrapped_zero = mod_euclid(at_zero, TURN);
    let wrapped_period = mod_euclid(at_period, TURN);
    let diff = mod_euclid(wrapped_period - wrapped_zero, TURN);
    let off_axis = diff.min(TURN - diff);
    assert!(off_axis < 1_000, "round trip drifted by {off_axis} arcseconds");
    // Each individually lies within a milliradian of the axis.
    let zero_off = wrapped_zero.min(TURN - wrapped_zero);
    assert!(zero_off < 1_000, "angle at time zero: {at_zero}");
}

#[test]
fn lookup_reports_no_value_exactly_on_empty_table() {
    let empty: Vec<TimeAngle> = Vec::new();
    assert!(angle_from_time(&empty, 123).is_none());
    let one = vec![TimeAngle { time: 0, angle: 0 }];
    assert_eq!(angle_from_time(&one, 55), Some(0));
}

#[test]
fn floor_search_finds_greatest_index_at_or_below() {
    let table = vec![
        TimeAngle { time: 10, angle: 0 },
        TimeAngle { time: 20, angle: 100 },
        TimeAngle { time: 30, angle: 200 },
    ];
    assert_eq!(floor_in_table(&table, 10), 0);
    assert_eq!(floor_in_table(&table, 19), 0);
    assert_eq!(floor_in_table(&table, 20), 1);
    assert_eq!(floor_in_table(&table, 29), 1);
    assert_eq!(floor_in_table(&table, 99), 2);
}

#[test]
fn lookup_interpolates_and_wraps() {
    let table = vec![
        TimeAngle { time: 10, angle: 0 },
        TimeAngle { time: 20, angle: 100 },
    ];
    // Inside the table: plain linear interpolation.
    assert_eq!(angle_from_time(&table, 15), Some(50));
    assert_eq!(angle_from_time(&table, 12), Some(20));
    // Beyond the last sample: the wrap-around segment extrapolates.
    assert_eq!(angle_from_time(&table, 30), Some(100 + (0 - 100) * (30 - 20) / (10 - 20)));
    // Before the first sample: the wrap-around segment again.
    let below = angle_from_time(&table, 5).unwrap();
    assert_eq!(below, 100 + (0 - 100) * (5 - 20) / (10 - 20));
}

#[test]
fn multi_turn_table_covers_three_turns() {
    let table = build_angle_time_table(MICRO, 200_000, 3, 100);
    assert_eq!(table.len() as i64, 3 * STEPS_PER_TURN / 100);
    assert_sorted_by_time(&table);
    let mut max_angle = 0;
    for row in &table {
        if row.angle > max_angle {
            max_angle = row.angle;
        }
    }
    assert!(max_angle >= 3 * TURN - 100 * D_THETA);
    assert!(max_angle < 3 * TURN);
}
