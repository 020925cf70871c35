//! The Kepler time-angle solver.
//!
//! For one body, the time taken to reach each orbit angle is the integral
//! of `period * (1 - e^2)^(3/2) / (2 pi (1 - e cos theta)^2)`. The solver
//! walks the angle in fixed arcsecond steps, accumulates the integrand
//! with composite Simpson weights, and records one (time, angle) sample
//! every `every` steps. The finished table is sorted by time before use.

use vstd::prelude::*;
use vstd::arithmetic::div_mod::lemma_div_pos_is_pos;
use vstd::arithmetic::div_mod::lemma_div_is_ordered;
use vstd::arithmetic::div_mod::lemma_div_is_ordered_by_denominator;
use vstd::arithmetic::div_mod::lemma_div_multiples_vanish;
use vstd::arithmetic::div_mod::lemma_fundamental_div_mod;
use vstd::arithmetic::div_mod::lemma_fundamental_div_mod_converse_div;
use crate::units::MICRO;
use crate::units::MICRO_SQ;
use crate::units::MICRO_CUBE;
use crate::units::TURN;
use crate::units::tdiv;
use crate::units::muldiv;
use crate::units::iabs;
use crate::units::mul_div;
use crate::units::mod_euclid;
use crate::units::isqrt;
use crate::units::sqrt_floor;
use crate::units::lemma_sqrt_floor;
use crate::units::lemma_sqrt_floor_unique;
use crate::trig::cos_at;
use crate::trig::cos_fx;
use crate::trig::lemma_sin_at_bounds;
use crate::geometry::lemma_scale_within_unit;
use crate::table::TimeAngle;
use crate::table::sorted_by_time;
use crate::table::sort_by_time_spec;
use crate::table::sort_table_by_time;
use crate::table::lemma_sort_by_time_membership;

verus! {

/// The integration step, in arcseconds (about a milliradian).
pub const D_THETA: i64 = 216;

/// Integration steps over one full turn.
pub const STEPS_PER_TURN: i64 = 6000;

/// The longest orbital period the solver accepts, in micro-years.
pub const MAX_PERIOD: i64 = 1_000_000_000_000;

/// The largest eccentricity the solver accepts (0.999 in millionths):
/// nearer one, the integrand ceases to fit the fixed-point range.
pub const MAX_TABLE_ECCENTRICITY: i64 = 999_000;

/// The integrand never exceeds this value for accepted eccentricities.
pub const VAL_MAX: i64 = 1_000_000_000_000;

/// Every time a built table holds lies in `[0, MAX_TABLE_TIME]`.
pub const MAX_TABLE_TIME: i64 = 4_000_000_000_000_000_000;

/// `3 * TURN * MICRO`, the fixed denominator of the sample times.
pub const TIME_DENOM: i64 = 3_888_000_000_000;

/// The denominator `1 - e cos theta` of the integrand, in millionths.
pub open spec fn integrand_denom(e: int, theta: int) -> int {
    MICRO - muldiv(e, cos_at(theta), MICRO as int)
}

/// The integrand `1 / (1 - e cos theta)^2`, in millionths.
pub open spec fn integrand_val(e: int, theta: int) -> int {
    let d = integrand_denom(e, theta);
    (MICRO_CUBE as int) / (d * d)
}

/// The composite Simpson weight that step `i` contributes in all.
pub open spec fn simpson_coef(i: int) -> int {
    if i <= 0 {
        1
    } else if (i - 1) % 2 == 0 {
        4
    } else {
        2
    }
}

/// The weighted integrand sum after step `i` is complete.
pub open spec fn acc_post(e: int, i: int) -> int
    decreases i + 1,
{
    if i < 0 {
        0
    } else {
        acc_post(e, i - 1) + simpson_coef(i) * integrand_val(e, i * D_THETA)
    }
}

/// The weighted integrand sum a sample taken at step `i` sees: the step's
/// own first third is in, its trailing Simpson weight is not.
pub open spec fn acc_pre(e: int, i: int) -> int {
    acc_post(e, i - 1) + integrand_val(e, i * D_THETA)
}

/// `(1 - e^2)^(3/2)`, in millionths.
pub open spec fn shape_factor(e: int) -> int {
    let n = MICRO_SQ - e * e;
    tdiv(n * sqrt_floor(n), MICRO_SQ as int)
}

/// The period scaled by the orbit's shape factor.
pub open spec fn period_shape(p: int, e: int) -> int {
    muldiv(p, shape_factor(e), MICRO as int)
}

/// The time at which the body passes the angle of integration step `i`.
pub open spec fn sample_time(p: int, e: int, i: int) -> int {
    (period_shape(p, e) * acc_pre(e, i) * (D_THETA as int)) / (TIME_DENOM as int)
}

/// How many samples the first `i` integration steps have recorded, one
/// every `every` steps starting at step zero.
pub open spec fn sample_count(i: int, every: int) -> int {
    if i <= 0 {
        0
    } else {
        (i - 1) / every + 1
    }
}

/// The unsorted sample table of `total` integration steps.
pub open spec fn raw_table_spec(p: int, e: int, total: int, every: int) -> Seq<TimeAngle> {
    Seq::new(
        sample_count(total, every) as nat,
        |k: int|
            TimeAngle {
                time: sample_time(p, e, k * every) as i64,
                angle: (k * every * (D_THETA as int)) as i64,
            },
    )
}

/// The finished angle-time table: the samples of `turns` full turns,
/// sorted by time.
pub open spec fn angle_time_table_spec(p: int, e: int, turns: int, every: int) -> Seq<TimeAngle> {
    sort_by_time_spec(raw_table_spec(p, e, turns * (STEPS_PER_TURN as int), every))
}

pub proof fn lemma_integrand_bounds(e: int, theta: int)
    requires
        0 <= e <= MAX_TABLE_ECCENTRICITY,
    ensures
        MICRO - e <= integrand_denom(e, theta) <= MICRO + e,
        0 <= integrand_val(e, theta) <= VAL_MAX,
{
    lemma_sin_at_bounds(theta);
    lemma_scale_within_unit(e, cos_at(theta));
    let d = integrand_denom(e, theta);
    assert(1000 <= d <= 2 * MICRO);
    assert(1000000 <= d * d <= 4 * (MICRO_SQ as int)) by (nonlinear_arith)
        requires 1000 <= d <= 2000000;
    lemma_div_pos_is_pos(MICRO_CUBE as int, d * d);
    lemma_div_is_ordered_by_denominator(MICRO_CUBE as int, 1000000, d * d);
    assert((MICRO_CUBE as int) / 1000000int == VAL_MAX);
}

pub proof fn lemma_acc_post_bounds(e: int, i: int)
    requires
        0 <= e <= MAX_TABLE_ECCENTRICITY,
    ensures
        0 <= acc_post(e, i) <= 4 * (if i < 0 { 0int } else { i + 1 }) * (VAL_MAX as int),
    decreases i + 1,
{
    if i >= 0 {
        lemma_acc_post_bounds(e, i - 1);
        lemma_integrand_bounds(e, i * D_THETA);
        let v = integrand_val(e, i * D_THETA);
        let c = simpson_coef(i);
        assert(1 <= c <= 4);
        assert(0 <= c * v <= 4 * (VAL_MAX as int)) by (nonlinear_arith)
            requires 1 <= c <= 4, 0 <= v <= VAL_MAX, VAL_MAX == 1000000000000;
    }
}


proof fn lemma_integrand_circular(theta: int)
    ensures
        integrand_val(0, theta) == MICRO,
{
    assert(0 * cos_at(theta) == 0) by (nonlinear_arith);
    assert(muldiv(0, cos_at(theta), MICRO as int) == 0);
    assert(integrand_denom(0, theta) == MICRO);
    assert((MICRO as int) * (MICRO as int) == 1000000000000int) by (nonlinear_arith)
        requires MICRO == 1000000;
    assert((MICRO_CUBE as int) / 1000000000000int == MICRO);
}

proof fn lemma_acc_post_circular(i: int)
    requires
        -1 <= i,
    ensures
        acc_post(0, i) == if i < 0 {
            0int
        } else if i % 2 == 0 {
            3 * i * (MICRO as int) + MICRO
        } else {
            3 * i * (MICRO as int) + 2 * MICRO
        },
    decreases i + 1,
{
    if i >= 0 {
        lemma_acc_post_circular(i - 1);
        lemma_integrand_circular(i * D_THETA);
        lemma_fundamental_div_mod(i, 2);
        vstd::arithmetic::div_mod::lemma_mod_bound(i, 2);
        let q = i / 2;
        if i % 2 == 0 {
            if i > 0 {
                assert(i - 1 == (q - 1) * 2 + 1) by (nonlinear_arith)
                    requires i == 2 * q;
                vstd::arithmetic::div_mod::lemma_fundamental_div_mod_converse_mod(
                    i - 1,
                    2,
                    q - 1,
                    1,
                );
            }
        } else {
            assert(i - 1 == q * 2 + 0) by (nonlinear_arith)
                requires i == 2 * q + 1;
            vstd::arithmetic::div_mod::lemma_fundamental_div_mod_converse_mod(i - 1, 2, q, 0);
        }
        assert(3 * (i - 1) * (MICRO as int) + 3 * MICRO == 3 * i * (MICRO as int))
            by (nonlinear_arith);
    }
}

proof fn lemma_shape_factor_circular()
    ensures
        shape_factor(0) == MICRO,
        forall|p: int| 0 <= p ==> #[trigger] period_shape(p, 0) == p,
{
    assert((MICRO_SQ as int) - 0 * 0 == MICRO_SQ) by (nonlinear_arith);
    assert((1000000int) * 1000000 <= MICRO_SQ < (1000000int + 1) * (1000000int + 1));
    lemma_sqrt_floor_unique(MICRO_SQ as int, MICRO as int);
    assert((MICRO_SQ as int) * (MICRO as int) >= 0) by (nonlinear_arith)
        requires MICRO_SQ == 1000000000000, MICRO == 1000000;
    lemma_div_multiples_vanish(MICRO as int, MICRO_SQ as int);
    assert(shape_factor(0) == MICRO);
    assert forall|p: int| 0 <= p implies #[trigger] period_shape(p, 0) == p by {
        assert(p * (MICRO as int) == (MICRO as int) * p) by (nonlinear_arith);
        assert(p * (MICRO as int) >= 0) by (nonlinear_arith)
            requires p >= 0;
        lemma_div_multiples_vanish(p, MICRO as int);
    }
}

/// Cancel a positive common factor out of a truncated quotient of
/// non-negative terms.
proof fn lemma_cancel_common_factor(n: int, d: int, f: int)
    requires
        0 <= n,
        0 < d,
        0 < f,
    ensures
        tdiv(n * f, d * f) == n / d,
{
    assert(0 <= n * f) by (nonlinear_arith)
        requires 0 <= n, 0 < f;
    assert(0 < d * f) by (nonlinear_arith)
        requires 0 < d, 0 < f;
    vstd::arithmetic::div_mod::lemma_div_denominator(n * f, f, d);
    assert(n * f == f * n) by (nonlinear_arith);
    lemma_div_multiples_vanish(n, f);
    assert(f * d == d * f) by (nonlinear_arith);
}

/// A body of zero eccentricity covers equal angles in equal times: the
/// sample taken at integration step `i` carries exactly the period
/// scaled by the step's angle as a fraction of the full turn (the
/// Simpson sum telescopes, so the only rounding is the final division).
/// The sample at step zero is the one exception: it already holds the
/// opening third of one Simpson step.
pub proof fn lemma_circular_sample_time(p: int, i: int)
    requires
        0 <= p,
        0 <= i,
        i % 2 == 0,
    ensures
        i >= 2 ==> sample_time(p, 0, i) == p * (i * (D_THETA as int)) / (TURN as int),
        i == 0 ==> sample_time(p, 0, i) == p / 18000,
{
    lemma_acc_post_circular(i - 1);
    lemma_integrand_circular(i * D_THETA);
    lemma_shape_factor_circular();
    lemma_fundamental_div_mod(i, 2);
    vstd::arithmetic::div_mod::lemma_mod_bound(i, 2);
    if i >= 2 {
        let q = i / 2;
        assert(i - 1 == (q - 1) * 2 + 1) by (nonlinear_arith)
            requires i == 2 * q;
        vstd::arithmetic::div_mod::lemma_fundamental_div_mod_converse_mod(i - 1, 2, q - 1, 1);
        assert(acc_pre(0, i) == 3 * (i - 1) * (MICRO as int) + 2 * MICRO + MICRO);
        assert(3 * (i - 1) * (MICRO as int) + 3 * MICRO == 3 * i * (MICRO as int))
            by (nonlinear_arith);
        let num = p * (3 * i * (MICRO as int)) * (D_THETA as int);
        assert(sample_time(p, 0, i) == tdiv(num, TIME_DENOM as int));
        assert(num == (p * (i * (D_THETA as int))) * (3 * MICRO)) by (nonlinear_arith)
            requires num == p * (3 * i * (MICRO as int)) * (D_THETA as int);
        assert((TIME_DENOM as int) == (TURN as int) * (3 * MICRO)) by (nonlinear_arith)
            requires TIME_DENOM == 3888000000000, TURN == 1296000, MICRO == 1000000;
        assert(0 <= p * (i * (D_THETA as int))) by (nonlinear_arith)
            requires 0 <= p, 0 <= i, D_THETA == 216;
        lemma_cancel_common_factor(p * (i * (D_THETA as int)), TURN as int, 3 * MICRO);
    } else {
        assert(i == 0);
        assert(acc_pre(0, 0) == MICRO);
        let num = p * (MICRO as int) * (D_THETA as int);
        assert(sample_time(p, 0, 0) == tdiv(num, TIME_DENOM as int));
        assert(num == p * (216 * (MICRO as int))) by (nonlinear_arith)
            requires D_THETA == 216, num == p * (MICRO as int) * (D_THETA as int);
        assert((TIME_DENOM as int) == 18000 * (216 * (MICRO as int))) by (nonlinear_arith)
            requires TIME_DENOM == 3888000000000, MICRO == 1000000;
        lemma_cancel_common_factor(p, 18000, 216 * (MICRO as int));
    }
}

/// `(1 - e^2)^(3/2)` stays within one unit.
pub fn shape_factor_fx(e: i64) -> (r: i64)
    requires
        0 <= e < MICRO,
    ensures
        r as int == shape_factor(e as int),
        0 <= r <= MICRO,
{
    proof {
        assert(0 <= (e as int) * (e as int) < MICRO_SQ) by (nonlinear_arith)
            requires 0 <= (e as int) && (e as int) < 1000000, MICRO_SQ == 1000000000000;
    }
    let n: i64 = MICRO_SQ - e * e;
    let s64 = isqrt(n as u128);
    proof {
        lemma_sqrt_floor(n as int);
        assert(sqrt_floor(n as int) <= MICRO) by {
            if sqrt_floor(n as int) > MICRO {
                assert((sqrt_floor(n as int)) * (sqrt_floor(n as int)) > MICRO_SQ)
                    by (nonlinear_arith)
                    requires sqrt_floor(n as int) > 1000000, MICRO_SQ == 1000000000000;
            }
        }
    }
    let s = s64 as i64;
    proof {
        assert(0 <= (n as int) * (s as int) <= (MICRO_SQ as int) * (MICRO as int))
            by (nonlinear_arith)
            requires
                0 <= (n as int) && (n as int) <= 1000000000000,
                0 <= (s as int) && (s as int) <= 1000000,
                MICRO_SQ == 1000000000000,
                MICRO == 1000000;
        lemma_div_is_ordered((n as int) * (s as int), (MICRO_SQ as int) * (MICRO as int),
            MICRO_SQ as int);
        lemma_div_multiples_vanish(MICRO as int, MICRO_SQ as int);
        lemma_div_pos_is_pos((n as int) * (s as int), MICRO_SQ as int);
    }
    let r = mul_div(n, s, MICRO_SQ);
    r
}

proof fn lemma_sample_count_step(i: int, every: int)
    requires
        0 <= i,
        1 <= every,
    ensures
        i % every == 0 ==> sample_count(i + 1, every) == sample_count(i, every) + 1,
        i % every != 0 ==> sample_count(i + 1, every) == sample_count(i, every),
{
    let q = i / every;
    let r = i % every;
    lemma_fundamental_div_mod(i, every);
    vstd::arithmetic::div_mod::lemma_mod_bound(i, every);
    if r == 0 {
        if i == 0 {
            lemma_fundamental_div_mod_converse_div(0, every, 0, 0);
        } else {
            assert(i - 1 == (q - 1) * every + (every - 1)) by (nonlinear_arith)
                requires i == every * q + 0;
            lemma_fundamental_div_mod_converse_div(i - 1, every, q - 1, every - 1);
        }
    } else {
        assert(i - 1 == q * every + (r - 1)) by (nonlinear_arith)
            requires i == every * q + r;
        lemma_fundamental_div_mod_converse_div(i - 1, every, q, r - 1);
    }
}

proof fn lemma_sample_count_exact(i: int, every: int)
    requires
        0 <= i,
        1 <= every,
        i % every == 0,
    ensures
        sample_count(i, every) * every == i,
{
    let q = i / every;
    lemma_fundamental_div_mod(i, every);
    if i == 0 {
        assert(sample_count(0, every) * every == 0) by (nonlinear_arith)
            requires sample_count(0, every) == 0;
    } else {
        assert(q >= 1) by (nonlinear_arith)
            requires i == every * q, i >= 1, every >= 1;
        assert(i - 1 == (q - 1) * every + (every - 1)) by (nonlinear_arith)
            requires i == every * q;
        lemma_fundamental_div_mod_converse_div(i - 1, every, q - 1, every - 1);
        assert(sample_count(i, every) == q);
        assert(q * every == i) by (nonlinear_arith)
            requires i == every * q;
    }
}

/// Build the angle-time table of one body over `turns` full orbits,
/// recording a sample every `every` integration steps, and sort it by
/// time. The time column of the result is non-decreasing for every
/// accepted eccentricity. For a body of zero eccentricity the Simpson
/// sum telescopes (`lemma_circular_sample_time`): each recorded time is
/// exactly the period scaled by the sample's angle as a fraction of the
/// turn, so a circular orbit's angle-time round trip drifts only by the
/// interpolation across the wrap-around segment.
pub fn build_angle_time_table(p: i64, e: i64, turns: i64, every: i64) -> (r: Vec<TimeAngle>)
    requires
        0 <= p <= MAX_PERIOD,
        0 <= e <= MAX_TABLE_ECCENTRICITY,
        1 <= turns <= 3,
        1 <= every <= STEPS_PER_TURN,
    ensures
        r@ == angle_time_table_spec(p as int, e as int, turns as int, every as int),
        sorted_by_time(r@),
        r@.len() == sample_count(turns * (STEPS_PER_TURN as int), every as int),
        forall|k: int|
            0 <= k < r@.len() ==> 0 <= (#[trigger] r@[k]).time <= MAX_TABLE_TIME && 0 <= r@[k].angle
                <= turns * (TURN as int),
{
    let k_shape = shape_factor_fx(e);
    proof {
        lemma_scale_within_unit(p as int, k_shape as int);
    }
    let pk = mul_div(p, k_shape, MICRO);
    proof {
        assert((p as int) * (k_shape as int) >= 0) by (nonlinear_arith)
            requires 0 <= (p as int), 0 <= (k_shape as int);
        lemma_div_pos_is_pos(iabs((p as int) * (k_shape as int)), MICRO as int);
    }
    let end: i64 = turns * TURN;
    let total: i64 = turns * STEPS_PER_TURN;
    proof {
        assert(end as int == (total as int) * (D_THETA as int)) by (nonlinear_arith)
            requires
                end as int == (turns as int) * (TURN as int),
                total as int == (turns as int) * (STEPS_PER_TURN as int),
                TURN == 1296000,
                STEPS_PER_TURN == 6000,
                D_THETA == 216;
    }
    let ghost rawspec = raw_table_spec(p as int, e as int, total as int, every as int);
    let mut raw: Vec<TimeAngle> = Vec::new();
    let mut acc: i128 = 0;
    let mut i: i64 = 0;
    let mut theta: i64 = 0;
    while theta < end
        invariant
            0 <= p <= MAX_PERIOD,
            0 <= e <= MAX_TABLE_ECCENTRICITY,
            1 <= every <= STEPS_PER_TURN,
            1 <= turns <= 3,
            end as int == (total as int) * (D_THETA as int),
            end == turns * TURN,
            total == turns * STEPS_PER_TURN,
            0 <= pk <= p,
            pk as int == period_shape(p as int, e as int),
            0 <= i <= total,
            theta as int == (i as int) * (D_THETA as int),
            acc as int == acc_post(e as int, i as int - 1),
            0 <= acc as int <= 4 * (i as int) * (VAL_MAX as int),
            rawspec == raw_table_spec(p as int, e as int, total as int, every as int),
            raw@.len() == sample_count(i as int, every as int),
            raw@.len() <= rawspec.len(),
            forall|k: int| 0 <= k < raw@.len() ==> raw@[k] == rawspec[k],
            forall|k: int|
                0 <= k < raw@.len() ==> 0 <= (#[trigger] raw@[k]).time <= MAX_TABLE_TIME && 0
                    <= raw@[k].angle <= turns * (TURN as int),
        decreases end - theta,
    {
        proof {
            assert(i < total) by (nonlinear_arith)
                requires
                    (theta as int) < (end as int),
                    theta as int == (i as int) * (D_THETA as int),
                    end as int == (total as int) * (D_THETA as int),
                    D_THETA == 216;
            lemma_integrand_bounds(e as int, theta as int);
            lemma_sin_at_bounds(theta as int);
            lemma_scale_within_unit(e as int, cos_at(theta as int));
            lemma_acc_post_bounds(e as int, i as int - 1);
        }
        let c = cos_fx(theta);
        let ec = mul_div(e, c, MICRO);
        let d = MICRO - ec;
        proof {
            assert(1000 <= d as int <= 2000000);
            assert(1000000 <= (d as int) * (d as int) <= 4000000000000int) by (nonlinear_arith)
                requires 1000 <= (d as int) && (d as int) <= 2000000;
        }
        let val = ((MICRO_CUBE as u64) / ((d as u64) * (d as u64))) as i64;
        proof {
            assert((d as u64) * (d as u64) == (d as int) * (d as int));
            assert(val as int == integrand_val(e as int, theta as int));
            assert(0 <= val <= VAL_MAX);
        }
        acc = acc + val as i128;
        proof {
            assert(acc as int == acc_pre(e as int, i as int));
            lemma_sample_count_step(i as int, every as int);
        }
        let rem = mod_euclid(i, every);
        if rem == 0 {
            proof {
                lemma_sample_count_exact(i as int, every as int);
                assert(0 <= (pk as int) * (acc as int) <= 1000000000000 * (4 * 18000
                    * 1000000000000int)) by (nonlinear_arith)
                    requires
                        0 <= (pk as int) && (pk as int) <= 1000000000000,
                        0 <= (acc as int) && (acc as int) <= 4 * 18000 * 1000000000000int;
            }
            let numer: i128 = (pk as i128) * acc * (D_THETA as i128);
            proof {
                assert(0 <= numer as int <= 15552000000000000000000000000000int);
                lemma_div_pos_is_pos(numer as int, TIME_DENOM as int);
                lemma_div_is_ordered(numer as int, 15552000000000000000000000000000int,
                    TIME_DENOM as int);
                assert(15552000000000000000000000000000int / (TIME_DENOM as int)
                    == MAX_TABLE_TIME);
            }
            let t = ((numer as u128) / (TIME_DENOM as u128)) as i64;
            proof {
                lemma_div_is_ordered(i as int, total as int - 1, every as int);
                assert(sample_count(i as int + 1, every as int) <= sample_count(
                    total as int,
                    every as int,
                ));
                let ki = raw@.len() as int;
                assert(ki * (every as int) == i as int);
                assert(t as int == sample_time(p as int, e as int, i as int));
                assert(rawspec[ki].time == t && rawspec[ki].angle == theta);
            }
            raw.push(TimeAngle { time: t, angle: theta });
        }
        theta = theta + D_THETA;
        if i > 0 {
            let rem2 = mod_euclid(i - 1, 2);
            let extra: i64 = if rem2 == 0 {
                3 * val
            } else {
                val
            };
            acc = acc + extra as i128;
        }
        proof {
            assert(acc as int == acc_post(e as int, i as int));
            lemma_acc_post_bounds(e as int, i as int);
        }
        i = i + 1;
    }
    proof {
        assert(i == total) by (nonlinear_arith)
            requires
                !((theta as int) < (end as int)),
                theta as int == (i as int) * (D_THETA as int),
                end as int == (total as int) * (D_THETA as int),
                (i as int) <= (total as int),
                D_THETA == 216;
        assert(raw@ =~= rawspec);
    }
    let sorted = sort_table_by_time(raw);
    proof {
        lemma_sort_by_time_membership(rawspec);
        assert forall|k: int| 0 <= k < sorted@.len() implies 0 <= (#[trigger] sorted@[k]).time
            <= MAX_TABLE_TIME && 0 <= sorted@[k].angle <= turns * (TURN as int) by {
            assert(rawspec.contains(sorted@[k]));
            let j = choose|j: int| 0 <= j < rawspec.len() && rawspec[j] == sorted@[k];
        }
    }
    sorted
}

} // verus!
