//! The spirograph coupler: a two-slot body selection with first-in
//! first-out eviction, and the trace of segments joining the two chosen
//! bodies' simultaneous positions over a shared time axis.

use vstd::prelude::*;
use vstd::arithmetic::div_mod::lemma_fundamental_div_mod_converse_div;
use crate::units::MICRO;
use crate::units::muldiv;
use crate::units::mul_div;
use crate::units::tdiv;
use crate::units::clamp;
use crate::geometry::Pos2;
use crate::geometry::MAX_ANGLE;
use crate::geometry::pos2_x_spec;
use crate::geometry::pos2_y_spec;
use crate::geometry::position2;
use crate::body::PlanetaryObject;
use crate::body::object_valid;
use crate::table::TimeAngle;
use crate::table::sorted_by_time;
use crate::lookup::angle_from_time;
use crate::lookup::angle_from_time_spec;
use crate::lookup::table_entries_ok;
use crate::kepler::sample_count;
use crate::kepler::MAX_TABLE_TIME;
use crate::animation::MAX_SPEED;

verus! {

/// One segment of the spirograph trace: the simultaneous positions of
/// the inner and the outer body.
#[derive(Clone, Copy, PartialEq, Eq, Structural, Debug)]
pub struct SpiroSegment {
    pub inner: Pos2,
    pub outer: Pos2,
}

/// The selection after one more pick: picking a chosen body drops it,
/// picking a new one fills a free slot, and a third pick evicts the
/// earliest-chosen body.
pub open spec fn choose_spec(s: Seq<usize>, pick: usize) -> Seq<usize> {
    if s.len() >= 1 && s[0] == pick {
        s.remove(0)
    } else if s.len() >= 2 && s[1] == pick {
        s.remove(1)
    } else if s.len() < 2 {
        s.push(pick)
    } else {
        s.remove(0).push(pick)
    }
}

/// The chosen pair of bodies, at most two, in the order picked.
pub struct PairSelection {
    pub chosen: Vec<usize>,
}

/// The selection never holds more than two slots, nor one body twice.
pub open spec fn selection_wf(s: Seq<usize>) -> bool {
    s.len() <= 2 && (s.len() == 2 ==> s[0] != s[1])
}

impl PairSelection {
    pub fn new() -> (r: PairSelection)
        ensures
            r.chosen@ == Seq::<usize>::empty(),
            selection_wf(r.chosen@),
    {
        PairSelection { chosen: Vec::new() }
    }

    /// Pick one body: toggles it out if chosen, fills a free slot, or
    /// evicts the earliest choice when both slots are taken.
    pub fn choose_object(&mut self, pick: usize)
        requires
            selection_wf(old(self).chosen@),
        ensures
            final(self).chosen@ == choose_spec(old(self).chosen@, pick),
            selection_wf(final(self).chosen@),
    {
        let n = self.chosen.len();
        if n >= 1 && self.chosen[0] == pick {
            self.chosen.remove(0);
        } else if n >= 2 && self.chosen[1] == pick {
            self.chosen.remove(1);
        } else if n < 2 {
            self.chosen.push(pick);
        } else {
            self.chosen.remove(0);
            self.chosen.push(pick);
        }
    }

    /// The pair in use, inner body first: the order of picking does not
    /// matter to it.
    pub fn ordered_pair(&self) -> (r: Option<(usize, usize)>)
        requires
            selection_wf(self.chosen@),
        ensures
            r is Some <==> self.chosen@.len() == 2,
            r is Some ==> r->Some_0 == ordered_pair_spec(self.chosen@),
    {
        if self.chosen.len() == 2 {
            let a = self.chosen[0];
            let b = self.chosen[1];
            if a < b {
                Some((a, b))
            } else {
                Some((b, a))
            }
        } else {
            None
        }
    }
}

/// The inner-outer pair of a full selection.
pub open spec fn ordered_pair_spec(s: Seq<usize>) -> (usize, usize) {
    if s[0] < s[1] {
        (s[0], s[1])
    } else {
        (s[1], s[0])
    }
}

/// Picking the same two bodies in either order yields the same pair.
pub proof fn lemma_pair_order_independent(a: usize, b: usize)
    requires
        a != b,
    ensures
        ordered_pair_spec(choose_spec(choose_spec(Seq::empty(), a), b)) == ordered_pair_spec(
            choose_spec(choose_spec(Seq::empty(), b), a),
        ),
{
    let sa = choose_spec(choose_spec(Seq::empty(), a), b);
    let sb = choose_spec(choose_spec(Seq::empty(), b), a);
    assert(sa =~= seq![a, b]);
    assert(sb =~= seq![b, a]);
}

/// The default time step: the trace's whole span in a thousand steps.
pub fn auto_time_step(outer_period: i64, number_of_periods: i64) -> (r: i64)
    requires
        0 <= outer_period <= crate::kepler::MAX_PERIOD,
        0 <= number_of_periods <= MAX_SPEED,
    ensures
        r as int == tdiv(
            muldiv(outer_period as int, number_of_periods as int, MICRO as int),
            1000,
        ),
        0 <= r,
{
    proof {
        lemma_nonneg_muldiv(outer_period as int, number_of_periods as int);
        vstd::arithmetic::div_mod::lemma_div_pos_is_pos(
            muldiv(outer_period as int, number_of_periods as int, MICRO as int),
            1000,
        );
    }
    let span = mul_div(outer_period, number_of_periods, MICRO);
    let step = span / 1000;
    proof {
        assert(step as int == tdiv(span as int, 1000));
    }
    step
}

proof fn lemma_nonneg_muldiv(a: int, b: int)
    requires
        0 <= a <= crate::kepler::MAX_PERIOD,
        0 <= b <= MAX_SPEED,
    ensures
        0 <= muldiv(a, b, MICRO as int) <= 1_000_000_000_000_000_000,
{
    assert(0 <= a * b <= 1_000_000_000_000_000_000_000_000int) by (nonlinear_arith)
        requires 0 <= a <= 1_000_000_000_000, 0 <= b <= 1_000_000_000_000;
    vstd::arithmetic::div_mod::lemma_div_pos_is_pos(a * b, MICRO as int);
    vstd::arithmetic::div_mod::lemma_div_is_ordered(
        a * b,
        1_000_000_000_000_000_000_000_000int,
        MICRO as int,
    );
    assert(1_000_000_000_000_000_000_000_000int / (MICRO as int)
        == 1_000_000_000_000_000_000int);
}

/// The trace segment of time step `k`: both bodies looked up at `k dt`
/// and mapped through the orbit geometry.
pub open spec fn spiro_segment_spec(
    inner: PlanetaryObject,
    outer: PlanetaryObject,
    inner_table: Seq<TimeAngle>,
    outer_table: Seq<TimeAngle>,
    dt: int,
    k: int,
) -> SpiroSegment {
    let t = k * dt;
    let th1 = crate::units::clamp_spec(
        angle_from_time_spec(inner_table, t),
        -MAX_ANGLE as int,
        MAX_ANGLE as int,
    );
    let th2 = crate::units::clamp_spec(
        angle_from_time_spec(outer_table, t),
        -MAX_ANGLE as int,
        MAX_ANGLE as int,
    );
    SpiroSegment {
        inner: Pos2 {
            x: pos2_x_spec(inner.distance_au as int, inner.eccentricity as int, th1) as i64,
            y: pos2_y_spec(inner.distance_au as int, inner.eccentricity as int, th1) as i64,
        },
        outer: Pos2 {
            x: pos2_x_spec(outer.distance_au as int, outer.eccentricity as int, th2) as i64,
            y: pos2_y_spec(outer.distance_au as int, outer.eccentricity as int, th2) as i64,
        },
    }
}

/// Step a shared clock from zero to `final_t` in increments of `dt`,
/// joining the two bodies' simultaneous positions. The trace spans the
/// half-open interval `[0, final_t)` and holds exactly one segment per
/// step begun; it is empty when either body has no table.
pub fn spirograph_trace(
    inner: &PlanetaryObject,
    outer: &PlanetaryObject,
    inner_table: &Vec<TimeAngle>,
    outer_table: &Vec<TimeAngle>,
    dt: i64,
    final_t: i64,
) -> (r: Vec<SpiroSegment>)
    requires
        object_valid(*inner),
        object_valid(*outer),
        sorted_by_time(inner_table@),
        table_entries_ok(inner_table@),
        sorted_by_time(outer_table@),
        table_entries_ok(outer_table@),
        0 < dt <= MAX_TABLE_TIME,
        0 <= final_t <= MAX_TABLE_TIME,
    ensures
        inner_table@.len() == 0 || outer_table@.len() == 0 ==> r@.len() == 0,
        inner_table@.len() > 0 && outer_table@.len() > 0 ==> r@.len() == sample_count(
            final_t as int,
            dt as int,
        ),
        forall|k: int|
            0 <= k < r@.len() ==> r@[k] == spiro_segment_spec(
                *inner,
                *outer,
                inner_table@,
                outer_table@,
                dt as int,
                k,
            ),
{
    let mut out: Vec<SpiroSegment> = Vec::new();
    if inner_table.len() == 0 || outer_table.len() == 0 {
        return out;
    }
    let mut t: i64 = 0;
    let ghost mut steps: int = 0;
    while t < final_t
        invariant
            object_valid(*inner),
            object_valid(*outer),
            sorted_by_time(inner_table@),
            table_entries_ok(inner_table@),
            sorted_by_time(outer_table@),
            table_entries_ok(outer_table@),
            inner_table@.len() > 0,
            outer_table@.len() > 0,
            0 < dt <= MAX_TABLE_TIME,
            0 <= final_t <= MAX_TABLE_TIME,
            0 <= steps,
            t as int == steps * (dt as int),
            steps > 0 ==> (steps - 1) * (dt as int) < final_t,
            out@.len() == steps,
            forall|k: int|
                0 <= k < out@.len() ==> out@[k] == spiro_segment_spec(
                    *inner,
                    *outer,
                    inner_table@,
                    outer_table@,
                    dt as int,
                    k,
                ),
        decreases final_t - t + dt,
    {
        let a1 = angle_from_time(inner_table, t);
        let a2 = angle_from_time(outer_table, t);
        let th1 = clamp(
            match a1 {
                Some(v) => v,
                None => 0,
            },
            -MAX_ANGLE,
            MAX_ANGLE,
        );
        let th2 = clamp(
            match a2 {
                Some(v) => v,
                None => 0,
            },
            -MAX_ANGLE,
            MAX_ANGLE,
        );
        let p1 = position2(inner.distance_au, inner.eccentricity, th1);
        let p2 = position2(outer.distance_au, outer.eccentricity, th2);
        out.push(SpiroSegment { inner: p1, outer: p2 });
        proof {
            assert(out@[steps] == spiro_segment_spec(
                *inner,
                *outer,
                inner_table@,
                outer_table@,
                dt as int,
                steps,
            ));
            steps = steps + 1;
            assert((steps - 1) * (dt as int) < final_t);
            assert(steps * (dt as int) == (steps - 1) * (dt as int) + dt) by (nonlinear_arith);
        }
        proof {
            assert(t < final_t);
        }
        t = t + dt;
    }
    proof {
        if steps == 0 {
            assert(final_t <= 0);
            assert(sample_count(final_t as int, dt as int) == 0);
        } else {
            assert(steps * (dt as int) == (steps - 1) * (dt as int) + dt) by (nonlinear_arith);
            assert((steps - 1) * (dt as int) <= final_t - 1);
            assert(final_t <= steps * (dt as int));
            assert(final_t - 1 == (steps - 1) * (dt as int) + (final_t - 1 - (steps - 1) * (
            dt as int)));
            assert(0 <= final_t - 1 - (steps - 1) * (dt as int) < dt);
            lemma_fundamental_div_mod_converse_div(
                final_t as int - 1,
                dt as int,
                steps - 1,
                final_t - 1 - (steps - 1) * (dt as int),
            );
            assert(sample_count(final_t as int, dt as int) == steps);
        }
    }
    out
}

} // verus!
