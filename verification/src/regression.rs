//! The least-squares fit through the origin of period against
//! distance-to-the-three-halves, and its coefficient of determination:
//! the check that the loaded bodies follow Kepler's third law.
//!
//! Derived quantities saturate at fixed caps instead of leaving the
//! representable range; data in sane ranges never reaches them.

use vstd::prelude::*;
use vstd::arithmetic::div_mod::lemma_div_pos_is_pos;
use vstd::arithmetic::div_mod::lemma_div_is_ordered;
use crate::units::MICRO;
use crate::units::tdiv;
use crate::units::muldiv;
use crate::units::mul_div;
use crate::units::isqrt;
use crate::units::sqrt_floor;
use crate::units::lemma_sqrt_floor;
use crate::units::clamp_spec;
use crate::units::iabs;
use crate::geometry::MAX_DISTANCE;
use crate::kepler::MAX_PERIOD;

verus! {

/// One point of the fit: `x` the distance to the three halves, `y` the
/// period, both in millionths.
#[derive(Clone, Copy, PartialEq, Eq, Structural, Debug)]
pub struct PlotPoint {
    pub x: i64,
    pub y: i64,
}

/// The largest abscissa a point may carry.
pub const MAX_PLOT_X: i64 = 1_000_000_000_000_000;

/// Residuals are capped here before squaring.
pub const RESIDUAL_CAP: i64 = 1_000_000_000_000;

/// Sums of squared residuals are capped here.
pub const SS_CAP: i64 = 1_000_000_000_000_000_000;

/// The most points one fit accepts.
pub const MAX_POINTS: usize = 10_000;

pub open spec fn plot_point_ok(p: PlotPoint) -> bool {
    0 <= p.x <= MAX_PLOT_X && 0 <= p.y <= MAX_PERIOD
}

pub open spec fn points_ok(s: Seq<PlotPoint>) -> bool {
    s.len() <= MAX_POINTS && forall|i: int| 0 <= i < s.len() ==> plot_point_ok(#[trigger] s[i])
}

/// The distance raised to the power three halves, in millionths.
pub open spec fn pow_three_halves_spec(d: int) -> int {
    tdiv(d * sqrt_floor(d * (MICRO as int)), MICRO as int)
}

pub fn pow_three_halves(d: i64) -> (r: i64)
    requires
        0 <= d <= MAX_DISTANCE,
    ensures
        r as int == pow_three_halves_spec(d as int),
        0 <= r <= MAX_PLOT_X,
{
    proof {
        assert(0 <= (d as int) * (MICRO as int) <= 1_000_000_000_000_000_000int)
            by (nonlinear_arith)
            requires 0 <= (d as int) && (d as int) <= 1_000_000_000_000;
    }
    let dm: i64 = d * MICRO;
    let s64 = isqrt(dm as u128);
    proof {
        lemma_sqrt_floor(dm as int);
        assert(sqrt_floor(dm as int) <= 1_000_000_000) by {
            if sqrt_floor(dm as int) > 1_000_000_000 {
                assert(sqrt_floor(dm as int) * sqrt_floor(dm as int)
                    > 1_000_000_000_000_000_000int) by (nonlinear_arith)
                    requires sqrt_floor(dm as int) > 1_000_000_000;
            }
        }
        assert(0 <= (d as int) * sqrt_floor(dm as int) <= 1_000_000_000_000_000_000_000int)
            by (nonlinear_arith)
            requires
                0 <= (d as int) && (d as int) <= 1_000_000_000_000,
                0 <= sqrt_floor(dm as int) <= 1_000_000_000;
        lemma_div_pos_is_pos((d as int) * sqrt_floor(dm as int), MICRO as int);
        lemma_div_is_ordered(
            (d as int) * sqrt_floor(dm as int),
            1_000_000_000_000_000_000_000int,
            MICRO as int,
        );
    }
    let s = s64 as i64;
    mul_div(d, s, MICRO)
}

/// The plain sum of the ordinates.
pub open spec fn sum_y_spec(s: Seq<PlotPoint>) -> int
    decreases s.len(),
{
    if s.len() == 0 {
        0
    } else {
        sum_y_spec(s.drop_last()) + s.last().y
    }
}

/// The sum of the fixed-point products of the coordinates.
pub open spec fn sum_xy_spec(s: Seq<PlotPoint>) -> int
    decreases s.len(),
{
    if s.len() == 0 {
        0
    } else {
        sum_xy_spec(s.drop_last()) + muldiv(s.last().x as int, s.last().y as int, MICRO as int)
    }
}

/// The sum of the fixed-point squares of the abscissae.
pub open spec fn sum_xx_spec(s: Seq<PlotPoint>) -> int
    decreases s.len(),
{
    if s.len() == 0 {
        0
    } else {
        sum_xx_spec(s.drop_last()) + muldiv(s.last().x as int, s.last().x as int, MICRO as int)
    }
}

/// The slope of the least-squares line through the origin, in
/// millionths; zero when the points carry no spread at all.
pub open spec fn slope_spec(s: Seq<PlotPoint>) -> int {
    if sum_xx_spec(s) == 0 {
        0
    } else {
        clamp_spec(
            tdiv(sum_xy_spec(s) * (MICRO as int), sum_xx_spec(s)),
            -(SS_CAP as int),
            SS_CAP as int,
        )
    }
}

/// One point's residual against the fitted line, capped.
pub open spec fn residual_spec(p: PlotPoint, slope: int) -> int {
    clamp_spec(
        p.y - muldiv(slope, p.x as int, MICRO as int),
        -(RESIDUAL_CAP as int),
        RESIDUAL_CAP as int,
    )
}

/// One point's deviation of the fitted value from the mean, capped.
pub open spec fn explained_spec(p: PlotPoint, slope: int, mean_y: int) -> int {
    clamp_spec(
        muldiv(slope, p.x as int, MICRO as int) - mean_y,
        -(RESIDUAL_CAP as int),
        RESIDUAL_CAP as int,
    )
}

pub open spec fn ss_res_spec(s: Seq<PlotPoint>, slope: int) -> int
    decreases s.len(),
{
    if s.len() == 0 {
        0
    } else {
        let t = ss_res_spec(s.drop_last(), slope) + tdiv(
            residual_spec(s.last(), slope) * residual_spec(s.last(), slope),
            MICRO as int,
        );
        if t > SS_CAP {
            SS_CAP as int
        } else {
            t
        }
    }
}

pub open spec fn ss_tot_spec(s: Seq<PlotPoint>, slope: int, mean_y: int) -> int
    decreases s.len(),
{
    if s.len() == 0 {
        0
    } else {
        let t = ss_tot_spec(s.drop_last(), slope, mean_y) + tdiv(
            explained_spec(s.last(), slope, mean_y) * explained_spec(s.last(), slope, mean_y),
            MICRO as int,
        );
        if t > SS_CAP {
            SS_CAP as int
        } else {
            t
        }
    }
}

/// The coefficient of determination in millionths: one minus the ratio
/// of the residual to the explained sum of squares; one for a degenerate
/// fit with no spread.
pub open spec fn r_squared_spec(s: Seq<PlotPoint>, slope: int, mean_y: int) -> int {
    let tot = ss_tot_spec(s, slope, mean_y);
    if tot == 0 {
        MICRO as int
    } else {
        clamp_spec(
            (MICRO as int) - tdiv(ss_res_spec(s, slope) * (MICRO as int), tot),
            -(SS_CAP as int),
            SS_CAP as int,
        )
    }
}

/// The fit of one point set: the slope, the mean ordinate and the
/// coefficient of determination.
pub struct FitResult {
    pub slope: i64,
    pub mean_y: i64,
    pub r_squared: i64,
}

proof fn lemma_sum_bounds(s: Seq<PlotPoint>)
    requires
        points_ok(s),
    ensures
        0 <= sum_y_spec(s) <= s.len() * (MAX_PERIOD as int),
        0 <= sum_xy_spec(s) <= s.len() * 1_000_000_000_000_000_000_000int,
        0 <= sum_xx_spec(s) <= s.len() * 1_000_000_000_000_000_000_000_000int,
    decreases s.len(),
{
    if s.len() > 0 {
        assert(points_ok(s.drop_last()));
        lemma_sum_bounds(s.drop_last());
        let p = s.last();
        assert(plot_point_ok(p));
        assert(0 <= (p.x as int) * (p.y as int) <= 1_000_000_000_000_000_000_000_000_000int)
            by (nonlinear_arith)
            requires
                0 <= (p.x as int) && (p.x as int) <= 1_000_000_000_000_000,
                0 <= (p.y as int) && (p.y as int) <= 1_000_000_000_000;
        assert(0 <= (p.x as int) * (p.x as int) <= 1_000_000_000_000_000_000_000_000_000_000int)
            by (nonlinear_arith)
            requires 0 <= (p.x as int) && (p.x as int) <= 1_000_000_000_000_000;
        lemma_div_pos_is_pos((p.x as int) * (p.y as int), MICRO as int);
        lemma_div_pos_is_pos((p.x as int) * (p.x as int), MICRO as int);
        lemma_div_is_ordered(
            (p.x as int) * (p.y as int),
            1_000_000_000_000_000_000_000_000_000int,
            MICRO as int,
        );
        lemma_div_is_ordered(
            (p.x as int) * (p.x as int),
            1_000_000_000_000_000_000_000_000_000_000int,
            MICRO as int,
        );
    }
}

/// Fit the points: slope of the line through the origin, mean ordinate,
/// and the coefficient of determination against that line.
pub fn fit_points(points: &Vec<PlotPoint>) -> (r: FitResult)
    requires
        points_ok(points@),
        points@.len() > 0,
    ensures
        r.slope as int == slope_spec(points@),
        r.mean_y as int == tdiv(sum_y_spec(points@), points@.len() as int),
        r.r_squared as int == r_squared_spec(points@, r.slope as int, r.mean_y as int),
{
    let n = points.len();
    let mut sum_y: i128 = 0;
    let mut sum_xy: i128 = 0;
    let mut sum_xx: i128 = 0;
    let mut i: usize = 0;
    while i < n
        invariant
            0 <= i <= n,
            n == points@.len(),
            points_ok(points@),
            sum_y as int == sum_y_spec(points@.take(i as int)),
            sum_xy as int == sum_xy_spec(points@.take(i as int)),
            sum_xx as int == sum_xx_spec(points@.take(i as int)),
        decreases n - i,
    {
        proof {
            assert(points@.take(i as int + 1).drop_last() =~= points@.take(i as int));
            assert(points@.take(i as int + 1).last() == points@[i as int]);
            assert(points_ok(points@.take(i as int)));
            assert(points_ok(points@.take(i as int + 1)));
            lemma_sum_bounds(points@.take(i as int));
            lemma_sum_bounds(points@.take(i as int + 1));
        }
        let p = points[i];
        proof {
            assert(0 <= (p.x as int) * (p.y as int) <= 1_000_000_000_000_000_000_000_000_000int
                && 0 <= (p.x as int) * (p.x as int)
                    <= 1_000_000_000_000_000_000_000_000_000_000int) by (nonlinear_arith)
                requires
                    0 <= (p.x as int) && (p.x as int) <= 1_000_000_000_000_000,
                    0 <= (p.y as int) && (p.y as int) <= 1_000_000_000_000;
        }
        sum_y = sum_y + (p.y as i128);
        let xy: u128 = ((p.x as u128) * (p.y as u128)) / (MICRO as u128);
        let xx: u128 = ((p.x as u128) * (p.x as u128)) / (MICRO as u128);
        sum_xy = sum_xy + (xy as i128);
        sum_xx = sum_xx + (xx as i128);
        i = i + 1;
    }
    proof {
        assert(points@.take(n as int) =~= points@);
        lemma_sum_bounds(points@);
    }
    let slope: i64 = if sum_xx == 0 {
        0
    } else {
        let q: u128 = ((sum_xy as u128) * (MICRO as u128)) / (sum_xx as u128);
        proof {
            lemma_div_pos_is_pos((sum_xy as int) * (MICRO as int), sum_xx as int);
            assert(0 <= (sum_xy as int) * (MICRO as int)
                <= 10_000_000_000_000_000_000_000_000_000_000int) by (nonlinear_arith)
                requires 0 <= (sum_xy as int) && (sum_xy as int)
                    <= 10_000_000_000_000_000_000_000_000int;
        }
        if q > (SS_CAP as u128) {
            SS_CAP
        } else {
            q as i64
        }
    };
    let mean_y: i64 = ((sum_y as u128) / (n as u128)) as i64;
    proof {
        lemma_div_pos_is_pos(sum_y as int, n as int);
        lemma_div_is_ordered(sum_y as int, (n as int) * (MAX_PERIOD as int), n as int);
        vstd::arithmetic::div_mod::lemma_div_multiples_vanish(MAX_PERIOD as int, n as int);
        assert((n as int) * (MAX_PERIOD as int) == (MAX_PERIOD as int) * (n as int));
    }
    let mut ss_res: i64 = 0;
    let mut ss_tot: i64 = 0;
    let mut j: usize = 0;
    while j < n
        invariant
            0 <= j <= n,
            n == points@.len(),
            points_ok(points@),
            -SS_CAP <= slope <= SS_CAP,
            0 <= mean_y <= MAX_PERIOD,
            ss_res as int == ss_res_spec(points@.take(j as int), slope as int),
            ss_tot as int == ss_tot_spec(points@.take(j as int), slope as int, mean_y as int),
            0 <= ss_res <= SS_CAP,
            0 <= ss_tot <= SS_CAP,
        decreases n - j,
    {
        proof {
            assert(points@.take(j as int + 1).drop_last() =~= points@.take(j as int));
            assert(points@.take(j as int + 1).last() == points@[j as int]);
        }
        let p = points[j];
        let fitted = residual_step(p, slope, mean_y);
        let res_sq = square_capped(fitted.0);
        let exp_sq = square_capped(fitted.1);
        ss_res = if ss_res + res_sq > SS_CAP {
            SS_CAP
        } else {
            ss_res + res_sq
        };
        ss_tot = if ss_tot + exp_sq > SS_CAP {
            SS_CAP
        } else {
            ss_tot + exp_sq
        };
        j = j + 1;
    }
    proof {
        assert(points@.take(n as int) =~= points@);
    }
    let r_squared: i64 = if ss_tot == 0 {
        MICRO
    } else {
        proof {
            assert(0 <= (ss_res as int) * (MICRO as int)
                <= 1_000_000_000_000_000_000_000_000int) by (nonlinear_arith)
                requires 0 <= (ss_res as int) && (ss_res as int) <= 1_000_000_000_000_000_000;
            lemma_div_pos_is_pos((ss_res as int) * (MICRO as int), ss_tot as int);
        }
        let q: u128 = ((ss_res as u128) * (MICRO as u128)) / (ss_tot as u128);
        let lowered: i128 = (MICRO as i128) - (q as i128);
        if lowered < -(SS_CAP as i128) {
            -SS_CAP
        } else {
            lowered as i64
        }
    };
    FitResult { slope, mean_y, r_squared }
}

/// The capped residual and explained deviation of one point.
fn residual_step(p: PlotPoint, slope: i64, mean_y: i64) -> (r: (i64, i64))
    requires
        plot_point_ok(p),
        -SS_CAP <= slope <= SS_CAP,
        0 <= mean_y <= MAX_PERIOD,
    ensures
        r.0 as int == residual_spec(p, slope as int),
        r.1 as int == explained_spec(p, slope as int, mean_y as int),
        -RESIDUAL_CAP <= r.0 <= RESIDUAL_CAP,
        -RESIDUAL_CAP <= r.1 <= RESIDUAL_CAP,
{
    proof {
        assert(iabs((slope as int) * (p.x as int))
            <= 1_000_000_000_000_000_000_000_000_000_000_000_000int) by (nonlinear_arith)
            requires
                -1_000_000_000_000_000_000 <= (slope as int) && (slope as int)
                    <= 1_000_000_000_000_000_000,
                0 <= (p.x as int) && (p.x as int) <= 1_000_000_000_000_000;
        lemma_div_is_ordered(
            iabs((slope as int) * (p.x as int)),
            1_000_000_000_000_000_000_000_000_000_000_000_000int,
            MICRO as int,
        );
        lemma_div_pos_is_pos(iabs((slope as int) * (p.x as int)), MICRO as int);
    }
    let sx: i128 = (slope as i128) * (p.x as i128);
    let fitted_m: u128 = if sx < 0 {
        ((-sx) as u128) / (MICRO as u128)
    } else {
        (sx as u128) / (MICRO as u128)
    };
    let fitted: i128 = if sx < 0 {
        -(fitted_m as i128)
    } else {
        fitted_m as i128
    };
    proof {
        assert(fitted as int == muldiv(slope as int, p.x as int, MICRO as int));
    }
    let res128: i128 = (p.y as i128) - fitted;
    let exp128: i128 = fitted - (mean_y as i128);
    let res: i64 = if res128 < -(RESIDUAL_CAP as i128) {
        -RESIDUAL_CAP
    } else if res128 > (RESIDUAL_CAP as i128) {
        RESIDUAL_CAP
    } else {
        res128 as i64
    };
    let exp: i64 = if exp128 < -(RESIDUAL_CAP as i128) {
        -RESIDUAL_CAP
    } else if exp128 > (RESIDUAL_CAP as i128) {
        RESIDUAL_CAP
    } else {
        exp128 as i64
    };
    (res, exp)
}

/// The fixed-point square of a capped value.
fn square_capped(v: i64) -> (r: i64)
    requires
        -RESIDUAL_CAP <= v <= RESIDUAL_CAP,
    ensures
        r as int == tdiv(v as int * v as int, MICRO as int),
        0 <= r <= 1_000_000_000_000_000_000,
{
    proof {
        assert(0 <= (v as int) * (v as int) <= 1_000_000_000_000_000_000_000_000int)
            by (nonlinear_arith)
            requires -1_000_000_000_000 <= (v as int) && (v as int) <= 1_000_000_000_000;
        lemma_div_pos_is_pos((v as int) * (v as int), MICRO as int);
        lemma_div_is_ordered(
            (v as int) * (v as int),
            1_000_000_000_000_000_000_000_000int,
            MICRO as int,
        );
    }
    let vv: i128 = (v as i128) * (v as i128);
    let q = (vv as u128) / (MICRO as u128);
    proof {
        assert(q as int == tdiv((v as int) * (v as int), MICRO as int));
    }
    q as i64
}

} // verus!
