//! Static trajectory sampling: dense polylines of whole orbits, with the
//! orbit angle stepped uniformly.

use vstd::prelude::*;
use vstd::arithmetic::div_mod::lemma_div_is_ordered;
use vstd::arithmetic::div_mod::lemma_div_multiples_vanish;
use vstd::arithmetic::div_mod::lemma_div_pos_is_pos;
use crate::units::TURN;
use crate::units::muldiv;
use crate::units::mul_div;
use crate::geometry::Pos2;
use crate::geometry::Pos3;
use crate::geometry::valid_distance;
use crate::geometry::valid_eccentricity;
use crate::geometry::valid_angle;
use crate::geometry::pos2_x_spec;
use crate::geometry::pos2_y_spec;
use crate::geometry::pos3_x_spec;
use crate::geometry::pos3_y_spec;
use crate::geometry::pos3_z_spec;
use crate::geometry::pos2_rotated_x_spec;
use crate::geometry::pos2_rotated_y_spec;
use crate::geometry::position2;
use crate::geometry::position3;
use crate::geometry::position2_rotated;
use crate::table::TimeAngle;
use crate::kepler::MAX_PERIOD;

verus! {

/// The most path steps a single polyline may be asked for.
pub const MAX_STEPS: i64 = 100_000;

/// The angle of path point `i` out of `steps`, spread uniformly over
/// `span` arcseconds.
pub open spec fn path_angle(i: int, steps: int, span: int) -> int {
    (i * span) / steps
}

/// The polyline of one full planar orbit: `steps + 1` points.
pub open spec fn orbit_path2_spec(a: int, e: int, steps: int) -> Seq<Pos2> {
    Seq::new(
        (steps + 1) as nat,
        |i: int|
            Pos2 {
                x: pos2_x_spec(a, e, path_angle(i, steps, TURN as int)) as i64,
                y: pos2_y_spec(a, e, path_angle(i, steps, TURN as int)) as i64,
            },
    )
}

/// The polyline of one full tilted orbit in space.
pub open spec fn orbit_path3_spec(a: int, e: int, incl: int, steps: int) -> Seq<Pos3> {
    Seq::new(
        (steps + 1) as nat,
        |i: int|
            Pos3 {
                x: pos3_x_spec(a, e, incl, path_angle(i, steps, TURN as int)) as i64,
                y: pos3_y_spec(a, e, incl, path_angle(i, steps, TURN as int)) as i64,
                z: pos3_z_spec(a, e, incl, path_angle(i, steps, TURN as int)) as i64,
            },
    )
}

/// The polyline of one orbit oriented by its longitude of perihelion.
pub open spec fn orbit_path2_rotated_spec(a: int, e: int, lop: int, steps: int) -> Seq<Pos2> {
    Seq::new(
        (steps + 1) as nat,
        |i: int|
            Pos2 {
                x: pos2_rotated_x_spec(a, e, lop, path_angle(i, steps, TURN as int)) as i64,
                y: pos2_rotated_y_spec(a, e, lop, path_angle(i, steps, TURN as int)) as i64,
            },
    )
}

/// The straight time-versus-angle line of a circular orbit over
/// `orbits` turns: at angle `theta`, the time is `theta / TURN * period`.
pub open spec fn uniform_line_spec(period: int, steps: int, orbits: int) -> Seq<TimeAngle> {
    Seq::new(
        (steps + 1) as nat,
        |i: int|
            TimeAngle {
                time: muldiv(
                    path_angle(i, steps, orbits * (TURN as int)),
                    period,
                    TURN as int,
                ) as i64,
                angle: path_angle(i, steps, orbits * (TURN as int)) as i64,
            },
    )
}

pub proof fn lemma_path_angle_bounds(i: int, steps: int, span: int)
    requires
        0 <= i <= steps,
        1 <= steps,
        0 <= span,
    ensures
        0 <= path_angle(i, steps, span) <= span,
{
    assert(0 <= i * span <= steps * span) by (nonlinear_arith)
        requires 0 <= i <= steps, 0 <= span;
    lemma_div_pos_is_pos(i * span, steps);
    lemma_div_is_ordered(i * span, steps * span, steps);
    lemma_div_multiples_vanish(span, steps);
}

/// Rebuilding a trajectory sample for unchanged inputs yields an
/// identical point sequence.
pub proof fn lemma_resample_identical(
    a: int,
    e: int,
    steps: int,
    s1: Seq<Pos2>,
    s2: Seq<Pos2>,
)
    requires
        s1 == orbit_path2_spec(a, e, steps),
        s2 == orbit_path2_spec(a, e, steps),
    ensures
        s1 == s2,
{
}

/// Sample one planar orbit at `steps + 1` uniform angles.
pub fn sample_orbit2(a: i64, e: i64, steps: i64) -> (r: Vec<Pos2>)
    requires
        valid_distance(a as int),
        valid_eccentricity(e as int),
        1 <= steps <= MAX_STEPS,
    ensures
        r@ == orbit_path2_spec(a as int, e as int, steps as int),
        r@.len() == steps + 1,
{
    let ghost spec_path = orbit_path2_spec(a as int, e as int, steps as int);
    let mut out: Vec<Pos2> = Vec::new();
    let mut i: i64 = 0;
    while i <= steps
        invariant
            0 <= i <= steps + 1,
            1 <= steps <= MAX_STEPS,
            valid_distance(a as int),
            valid_eccentricity(e as int),
            spec_path == orbit_path2_spec(a as int, e as int, steps as int),
            out@.len() == i,
            forall|k: int| 0 <= k < i ==> out@[k] == spec_path[k],
        decreases steps - i + 1,
    {
        proof {
            lemma_path_angle_bounds(i as int, steps as int, TURN as int);
        }
        let theta = mul_div(i, TURN, steps);
        let p = position2(a, e, theta);
        out.push(p);
        i = i + 1;
    }
    proof {
        assert(out@ =~= spec_path);
    }
    out
}

/// Sample one tilted orbit in space at `steps + 1` uniform angles.
pub fn sample_orbit3(a: i64, e: i64, incl: i64, steps: i64) -> (r: Vec<Pos3>)
    requires
        valid_distance(a as int),
        valid_eccentricity(e as int),
        valid_angle(incl as int),
        1 <= steps <= MAX_STEPS,
    ensures
        r@ == orbit_path3_spec(a as int, e as int, incl as int, steps as int),
        r@.len() == steps + 1,
{
    let ghost spec_path = orbit_path3_spec(a as int, e as int, incl as int, steps as int);
    let mut out: Vec<Pos3> = Vec::new();
    let mut i: i64 = 0;
    while i <= steps
        invariant
            0 <= i <= steps + 1,
            1 <= steps <= MAX_STEPS,
            valid_distance(a as int),
            valid_eccentricity(e as int),
            valid_angle(incl as int),
            spec_path == orbit_path3_spec(a as int, e as int, incl as int, steps as int),
            out@.len() == i,
            forall|k: int| 0 <= k < i ==> out@[k] == spec_path[k],
        decreases steps - i + 1,
    {
        proof {
            lemma_path_angle_bounds(i as int, steps as int, TURN as int);
        }
        let theta = mul_div(i, TURN, steps);
        let p = position3(a, e, incl, theta);
        out.push(p);
        i = i + 1;
    }
    proof {
        assert(out@ =~= spec_path);
    }
    out
}

/// Sample one oriented planar orbit at `steps + 1` uniform angles.
pub fn sample_orbit2_rotated(a: i64, e: i64, lop: i64, steps: i64) -> (r: Vec<Pos2>)
    requires
        valid_distance(a as int),
        valid_eccentricity(e as int),
        valid_angle(lop as int),
        1 <= steps <= MAX_STEPS,
    ensures
        r@ == orbit_path2_rotated_spec(a as int, e as int, lop as int, steps as int),
        r@.len() == steps + 1,
{
    let ghost spec_path = orbit_path2_rotated_spec(a as int, e as int, lop as int, steps as int);
    let mut out: Vec<Pos2> = Vec::new();
    let mut i: i64 = 0;
    while i <= steps
        invariant
            0 <= i <= steps + 1,
            1 <= steps <= MAX_STEPS,
            valid_distance(a as int),
            valid_eccentricity(e as int),
            valid_angle(lop as int),
            spec_path == orbit_path2_rotated_spec(a as int, e as int, lop as int, steps as int),
            out@.len() == i,
            forall|k: int| 0 <= k < i ==> out@[k] == spec_path[k],
        decreases steps - i + 1,
    {
        proof {
            lemma_path_angle_bounds(i as int, steps as int, TURN as int);
        }
        let theta = mul_div(i, TURN, steps);
        let p = position2_rotated(a, e, lop, theta);
        out.push(p);
        i = i + 1;
    }
    proof {
        assert(out@ =~= spec_path);
    }
    out
}

/// The straight reference line of the time-versus-angle plot: a body of
/// zero eccentricity covers equal angles in equal times.
pub fn sample_uniform_line(period: i64, steps: i64, orbits: i64) -> (r: Vec<TimeAngle>)
    requires
        0 <= period <= MAX_PERIOD,
        1 <= steps <= MAX_STEPS,
        1 <= orbits <= 3,
    ensures
        r@ == uniform_line_spec(period as int, steps as int, orbits as int),
        r@.len() == steps + 1,
{
    let ghost spec_line = uniform_line_spec(period as int, steps as int, orbits as int);
    let span: i64 = orbits * TURN;
    let mut out: Vec<TimeAngle> = Vec::new();
    let mut i: i64 = 0;
    while i <= steps
        invariant
            0 <= i <= steps + 1,
            1 <= steps <= MAX_STEPS,
            0 <= period <= MAX_PERIOD,
            1 <= orbits <= 3,
            span == orbits * TURN,
            spec_line == uniform_line_spec(period as int, steps as int, orbits as int),
            out@.len() == i,
            forall|k: int| 0 <= k < i ==> out@[k] == spec_line[k],
        decreases steps - i + 1,
    {
        proof {
            lemma_path_angle_bounds(i as int, steps as int, span as int);
        }
        let theta = mul_div(i, span, steps);
        proof {
            assert(0 <= (theta as int) * (period as int) <= (span as int) * (MAX_PERIOD as int))
                by (nonlinear_arith)
                requires
                    0 <= (theta as int) && (theta as int) <= (span as int),
                    0 <= (period as int) && (period as int) <= MAX_PERIOD,
                    0 < (span as int) <= 3888000;
            lemma_div_pos_is_pos((theta as int) * (period as int), TURN as int);
            lemma_div_is_ordered(
                (theta as int) * (period as int),
                (span as int) * (MAX_PERIOD as int),
                TURN as int,
            );
        }
        let time = mul_div(theta, period, TURN);
        out.push(TimeAngle { time, angle: theta });
        i = i + 1;
    }
    proof {
        assert(out@ =~= spec_line);
    }
    out
}

} // verus!
