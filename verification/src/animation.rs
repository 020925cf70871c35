//! Per-scene animation state: the simulation clock, the animated marker
//! positions, recentring on a stationary reference body, and the bounded
//! trailing-orbit buffer.

use vstd::prelude::*;
use vstd::pervasive::VecAdditionalExecFns;
use crate::units::MICRO;
use crate::units::TURN;
use crate::units::muldiv;
use crate::units::mul_div;
use crate::units::mod_euclid;
use crate::units::clamp_spec;
use crate::units::clamp;
use crate::units::iabs;
use crate::geometry::Pos3;
use crate::geometry::MAX_ANGLE;
use crate::geometry::MAX_DISTANCE;
use crate::geometry::pos3_x_spec;
use crate::geometry::pos3_y_spec;
use crate::geometry::pos3_z_spec;
use crate::geometry::position3;
use crate::body::PlanetaryObject;
use crate::body::object_valid;
use crate::table::TimeAngle;
use crate::table::sorted_by_time;
use crate::lookup::angle_from_time;
use crate::lookup::angle_from_time_spec;
use crate::lookup::table_entries_ok;

verus! {

/// The farthest the simulation clock may run, in micro-years.
pub const MAX_SIM_TIME: i64 = 1_000_000_000_000_000;

/// The longest frame delta accepted, in micro-seconds (one hour).
pub const MAX_FRAME_DELTA: i64 = 3_600_000_000;

/// The widest speed accepted, in micro-years per second, either sign.
pub const MAX_SPEED: i64 = 1_000_000_000_000;

/// A scene's simulation clock, in micro-years. It only ever resets when
/// the scene itself is re-initialised.
pub struct AnimationClock {
    pub time: i64,
}

impl AnimationClock {
    pub fn new() -> (c: AnimationClock)
        ensures
            c.time == 0,
    {
        AnimationClock { time: 0 }
    }

    /// Advance by one frame's wall-clock delta, scaled by the speed
    /// factor; the clock saturates at the simulation horizon.
    pub fn advance(&mut self, frame_delta: i64, speed: i64)
        requires
            0 <= frame_delta <= MAX_FRAME_DELTA,
            -MAX_SPEED <= speed <= MAX_SPEED,
            -MAX_SIM_TIME <= old(self).time <= MAX_SIM_TIME,
        ensures
            final(self).time as int == clamp_spec(
                old(self).time + muldiv(frame_delta as int, speed as int, MICRO as int),
                -MAX_SIM_TIME as int,
                MAX_SIM_TIME as int,
            ),
    {
        proof {
            assert(iabs((frame_delta as int) * (speed as int)) <= 3600000000000000000000int)
                by (nonlinear_arith)
                requires
                    0 <= (frame_delta as int) && (frame_delta as int) <= 3600000000,
                    -1000000000000 <= (speed as int) && (speed as int) <= 1000000000000;
            vstd::arithmetic::div_mod::lemma_div_is_ordered(
                iabs((frame_delta as int) * (speed as int)),
                3600000000000000000000int,
                MICRO as int,
            );
            vstd::arithmetic::div_mod::lemma_div_pos_is_pos(
                iabs((frame_delta as int) * (speed as int)),
                MICRO as int,
            );
        }
        let step = mul_div(frame_delta, speed, MICRO);
        let moved = self.time + step;
        self.time = clamp(moved, -MAX_SIM_TIME, MAX_SIM_TIME);
    }
}

/// The orbit angle an animated body stands at when the clock reads
/// `time`: the lookup's answer for the clock wrapped into one period,
/// clamped into the angle range the geometry accepts.
pub open spec fn animated_angle_spec(table: Seq<TimeAngle>, period: int, time: int) -> int {
    clamp_spec(
        angle_from_time_spec(table, time % period),
        -MAX_ANGLE as int,
        MAX_ANGLE as int,
    )
}

/// Where an animated body is drawn, if anywhere: a moving marker needs a
/// positive period and a non-empty table, a body of zero orbital radius
/// sits at the origin, and any other body without a table is skipped.
pub open spec fn animated_position_spec(
    o: PlanetaryObject,
    table: Seq<TimeAngle>,
    time: int,
) -> Option<Pos3> {
    if o.period_years > 0 && table.len() > 0 {
        let theta = animated_angle_spec(table, o.period_years as int, time);
        Some(
            Pos3 {
                x: pos3_x_spec(o.distance_au as int, o.eccentricity as int, o.inclination as int, theta) as i64,
                y: pos3_y_spec(o.distance_au as int, o.eccentricity as int, o.inclination as int, theta) as i64,
                z: pos3_z_spec(o.distance_au as int, o.eccentricity as int, o.inclination as int, theta) as i64,
            },
        )
    } else if o.distance_au == 0 {
        Some(Pos3 { x: 0, y: 0, z: 0 })
    } else {
        None
    }
}

/// Compute one animated body's position at the given clock reading.
pub fn animated_position(o: &PlanetaryObject, table: &Vec<TimeAngle>, time: i64) -> (r: Option<
    Pos3,
>)
    requires
        object_valid(*o),
        sorted_by_time(table@),
        table_entries_ok(table@),
        -MAX_SIM_TIME <= time <= MAX_SIM_TIME,
    ensures
        r == animated_position_spec(*o, table@, time as int),
        r is Some ==> iabs(r->Some_0.x as int) <= 2 * o.distance_au && iabs(r->Some_0.y as int)
            <= 2 * o.distance_au && iabs(r->Some_0.z as int) <= 2 * o.distance_au,
{
    if o.period_years > 0 && table.len() > 0 {
        let wrapped = mod_euclid(time, o.period_years);
        let looked = angle_from_time(table, wrapped);
        proof {
            assert(looked is Some);
        }
        let raw_angle = match looked {
            Some(v) => v,
            None => 0,
        };
        let theta = clamp(raw_angle, -MAX_ANGLE, MAX_ANGLE);
        let p = position3(o.distance_au, o.eccentricity, o.inclination, theta);
        Some(p)
    } else if o.distance_au == 0 {
        Some(Pos3 { x: 0, y: 0, z: 0 })
    } else {
        None
    }
}

/// All coordinates of the listed positions stay within `b`.
pub open spec fn positions_within(s: Seq<Option<Pos3>>, b: int) -> bool {
    forall|i: int|
        0 <= i < s.len() && (#[trigger] s[i]) is Some ==> iabs(s[i]->Some_0.x as int) <= b && iabs(
            s[i]->Some_0.y as int,
        ) <= b && iabs(s[i]->Some_0.z as int) <= b
}

/// Express every position relative to the reference body's simultaneous
/// position. The reference body itself lands exactly on the origin.
pub fn recentre(positions: &Vec<Option<Pos3>>, reference: usize) -> (r: Vec<Option<Pos3>>)
    requires
        reference < positions@.len(),
        positions@[reference as int] is Some,
        positions_within(positions@, 2 * MAX_DISTANCE),
    ensures
        r@.len() == positions@.len(),
        forall|i: int| 0 <= i < r@.len() ==> ((#[trigger] r@[i]) is Some <==> positions@[i] is Some),
        forall|i: int|
            0 <= i < r@.len() && positions@[i] is Some ==> (#[trigger] r@[i])->Some_0 == (Pos3 {
                x: (positions@[i]->Some_0.x - positions@[reference as int]->Some_0.x) as i64,
                y: (positions@[i]->Some_0.y - positions@[reference as int]->Some_0.y) as i64,
                z: (positions@[i]->Some_0.z - positions@[reference as int]->Some_0.z) as i64,
            }),
        r@[reference as int] == Some(Pos3 { x: 0i64, y: 0i64, z: 0i64 }),
        positions_within(r@, 4 * MAX_DISTANCE),
{
    let centre = match positions[reference] {
        Some(p) => p,
        None => Pos3 { x: 0, y: 0, z: 0 },
    };
    let mut out: Vec<Option<Pos3>> = Vec::new();
    let mut i: usize = 0;
    while i < positions.len()
        invariant
            0 <= i <= positions@.len(),
            reference < positions@.len(),
            positions@[reference as int] is Some,
            positions_within(positions@, 2 * MAX_DISTANCE),
            centre == positions@[reference as int]->Some_0,
            out@.len() == i,
            forall|k: int|
                0 <= k < i ==> ((#[trigger] out@[k]) is Some <==> positions@[k] is Some),
            forall|k: int|
                0 <= k < i && positions@[k] is Some ==> (#[trigger] out@[k])->Some_0 == (Pos3 {
                    x: (positions@[k]->Some_0.x - centre.x) as i64,
                    y: (positions@[k]->Some_0.y - centre.y) as i64,
                    z: (positions@[k]->Some_0.z - centre.z) as i64,
                }),
            positions_within(out@, 4 * MAX_DISTANCE),
        decreases positions@.len() - i,
    {
        let entry = match positions[i] {
            Some(p) => Some(
                Pos3 { x: p.x - centre.x, y: p.y - centre.y, z: p.z - centre.z },
            ),
            None => None,
        };
        out.push(entry);
        i = i + 1;
    }
    proof {
        assert(out@[reference as int] is Some);
        assert(out@[reference as int]->Some_0 == (Pos3 { x: 0i64, y: 0i64, z: 0i64 }));
        assert(out@[reference as int] == Some(Pos3 { x: 0i64, y: 0i64, z: 0i64 }));
    }
    out
}

/// Whether the trailing-orbit buffer still has budget for a new point:
/// the kept points may not outnumber the fraction of the orbit completed,
/// scaled by the points-per-orbit setting. (A negative setting bypasses
/// this budget entirely: the buffer then grows by one point every frame,
/// without bound.)
pub open spec fn trail_has_budget(len: int, time: int, period: int, points_per_orbit: int) -> bool {
    len * period * (MICRO as int) < time * points_per_orbit
}

/// Record one animated position in the trailing-orbit buffer: append
/// while the per-orbit point budget allows, afterwards replace the last
/// point so that the trail stays bounded while time advances.
pub fn push_trail(
    trail: &mut Vec<Pos3>,
    position: Pos3,
    time: i64,
    period: i64,
    points_per_orbit: i64,
)
    requires
        old(trail)@.len() <= 10_000_000,
        -MAX_SIM_TIME <= time <= MAX_SIM_TIME,
        0 < period <= crate::kepler::MAX_PERIOD,
        -MAX_SPEED <= points_per_orbit <= MAX_SPEED,
    ensures
        final(trail)@ == if points_per_orbit < 0 || trail_has_budget(
            old(trail)@.len() as int,
            time as int,
            period as int,
            points_per_orbit as int,
        ) {
            old(trail)@.push(position)
        } else if old(trail)@.len() > 0 {
            old(trail)@.update(old(trail)@.len() - 1, position)
        } else {
            old(trail)@
        },
{
    let len = trail.len();
    proof {
        assert(iabs((len as int) * (period as int)) <= 10000000000000000000int)
            by (nonlinear_arith)
            requires 0 <= (len as int) && (len as int) <= 10000000, 0 < (period as int) <= 1000000000000;
        assert(iabs((time as int) * (points_per_orbit as int)) <= 1000000000000000000000000000int)
            by (nonlinear_arith)
            requires
                -1000000000000000 <= (time as int) && (time as int) <= 1000000000000000,
                -1000000000000 <= (points_per_orbit as int) && (points_per_orbit as int)
                    <= 1000000000000;
    }
    let kept: i128 = (len as i128) * (period as i128) * (MICRO as i128);
    let earned: i128 = (time as i128) * (points_per_orbit as i128);
    if points_per_orbit < 0 || kept < earned {
        trail.push(position);
    } else if len > 0 {
        let last = len - 1;
        trail.set(last, position);
    }
}


/// The orbit angle of a body taken as uniformly circular: the elapsed
/// fraction of the period, as a full-turn fraction; a body with no
/// period stands at angle zero.
pub open spec fn uniform_angle_spec(time: int, period: int) -> int {
    if period > 0 {
        muldiv(time % period, TURN as int, period)
    } else {
        0
    }
}

pub fn uniform_angle(time: i64, period: i64) -> (r: i64)
    requires
        -MAX_SIM_TIME <= time <= MAX_SIM_TIME,
        0 <= period <= crate::kepler::MAX_PERIOD,
    ensures
        r as int == uniform_angle_spec(time as int, period as int),
        0 <= r <= TURN,
{
    if period <= 0 {
        return 0;
    }
    let m = mod_euclid(time, period);
    proof {
        assert(0 <= (m as int) * (TURN as int) <= (period as int) * (TURN as int))
            by (nonlinear_arith)
            requires 0 <= (m as int) && (m as int) <= (period as int), TURN == 1296000;
        vstd::arithmetic::div_mod::lemma_div_pos_is_pos(
            (m as int) * (TURN as int),
            period as int,
        );
        vstd::arithmetic::div_mod::lemma_div_is_ordered(
            (m as int) * (TURN as int),
            (period as int) * (TURN as int),
            period as int,
        );
        vstd::arithmetic::div_mod::lemma_div_multiples_vanish(TURN as int, period as int);
    }
    mul_div(m, TURN, period)
}

} // verus!
