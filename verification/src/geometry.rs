//! Orbit geometry: the polar orbit equation mapped to Cartesian points.
//!
//! `r = a (1 - e^2) / (1 - e cos theta)` in fixed point, with `theta`
//! counted in arcseconds from the point where the denominator is
//! smallest, so the far apsis lies at `theta == 0` and the near apsis at
//! half a turn.

use vstd::prelude::*;
use vstd::arithmetic::div_mod::lemma_div_pos_is_pos;
use vstd::arithmetic::div_mod::lemma_div_is_ordered;
use vstd::arithmetic::div_mod::lemma_div_multiples_vanish;
use vstd::arithmetic::div_mod::lemma_div_denominator;
use crate::units::MICRO;
use crate::units::MICRO_SQ;
use crate::units::HALF_TURN;
use crate::units::iabs;
use crate::units::tdiv;
use crate::units::muldiv;
use crate::units::mul_div;
use crate::trig::cos_at;
use crate::trig::sin_at;
use crate::trig::cos_fx;
use crate::trig::sin_fx;
use crate::trig::lemma_sin_at_bounds;
use crate::trig::lemma_trig_cardinal;

verus! {

/// The largest orbital radius the engine accepts, in micro-AU.
pub const MAX_DISTANCE: i64 = 1_000_000_000_000;

/// The widest angle arguments the engine accepts, in arcseconds.
pub const MAX_ANGLE: i64 = 1_000_000_000;

/// A point of the orbital plane, in micro-AU.
#[derive(Clone, Copy, PartialEq, Eq, Structural, Debug)]
pub struct Pos2 {
    pub x: i64,
    pub y: i64,
}

/// A point of space, in micro-AU.
#[derive(Clone, Copy, PartialEq, Eq, Structural, Debug)]
pub struct Pos3 {
    pub x: i64,
    pub y: i64,
    pub z: i64,
}

/// An eccentricity the orbit equation is defined for: `[0, 1)` in
/// millionths.
pub open spec fn valid_eccentricity(e: int) -> bool {
    0 <= e < MICRO
}

/// A semi-major axis the engine accepts.
pub open spec fn valid_distance(a: int) -> bool {
    0 <= a <= MAX_DISTANCE
}

/// An angle argument the engine accepts.
pub open spec fn valid_angle(t: int) -> bool {
    -MAX_ANGLE <= t <= MAX_ANGLE
}

/// The orbit equation: the distance from the focus at the orbit angle
/// whose cosine (in millionths) is `c`.
pub open spec fn radius_spec(a: int, e: int, c: int) -> int {
    tdiv(a * (MICRO_SQ - e * e), MICRO_SQ - e * c)
}

/// The planar position at orbit angle `theta`, x coordinate.
pub open spec fn pos2_x_spec(a: int, e: int, theta: int) -> int {
    muldiv(radius_spec(a, e, cos_at(theta)), cos_at(theta), MICRO as int)
}

/// The planar position at orbit angle `theta`, y coordinate.
pub open spec fn pos2_y_spec(a: int, e: int, theta: int) -> int {
    muldiv(radius_spec(a, e, cos_at(theta)), sin_at(theta), MICRO as int)
}

/// The spatial position of an orbit tilted by `incl`: the plane's x is
/// split over the render x and z axes.
pub open spec fn pos3_x_spec(a: int, e: int, incl: int, theta: int) -> int {
    muldiv(pos2_x_spec(a, e, theta), cos_at(incl), MICRO as int)
}

pub open spec fn pos3_y_spec(a: int, e: int, incl: int, theta: int) -> int {
    pos2_y_spec(a, e, theta)
}

pub open spec fn pos3_z_spec(a: int, e: int, incl: int, theta: int) -> int {
    muldiv(pos2_x_spec(a, e, theta), sin_at(incl), MICRO as int)
}

/// The planar position of an ellipse oriented by its longitude of
/// perihelion: only the denominator's angle is shifted.
pub open spec fn rotated_denom_angle(theta: int, lop: int) -> int {
    HALF_TURN + theta - lop
}

pub open spec fn pos2_rotated_x_spec(a: int, e: int, lop: int, theta: int) -> int {
    muldiv(
        radius_spec(a, e, cos_at(rotated_denom_angle(theta, lop))),
        cos_at(theta),
        MICRO as int,
    )
}

pub open spec fn pos2_rotated_y_spec(a: int, e: int, lop: int, theta: int) -> int {
    muldiv(
        radius_spec(a, e, cos_at(rotated_denom_angle(theta, lop))),
        sin_at(theta),
        MICRO as int,
    )
}

/// The orbit radius is never negative and never exceeds the major axis.
pub proof fn lemma_radius_bounds(a: int, e: int, c: int)
    requires
        valid_distance(a),
        valid_eccentricity(e),
        -MICRO <= c <= MICRO,
    ensures
        0 <= radius_spec(a, e, c) <= 2 * a,
{
    let num = a * (MICRO_SQ - e * e);
    let den = MICRO_SQ - e * c;
    assert(num >= 0 && den >= MICRO && num <= 2 * a * den) by (nonlinear_arith)
        requires
            0 <= a,
            0 <= e < MICRO,
            -MICRO <= c <= MICRO,
            num == a * (MICRO_SQ - e * e),
            den == MICRO_SQ - e * c,
            MICRO == 1000000,
            MICRO_SQ == 1000000000000;
    lemma_div_pos_is_pos(num, den);
    lemma_div_is_ordered(num, 2 * a * den, den);
    lemma_div_multiples_vanish(2 * a, den);
    assert(radius_spec(a, e, c) == num / den);
}

/// A fixed-point product by a factor of at most one unit cannot grow the
/// magnitude.
pub proof fn lemma_scale_within_unit(r: int, c: int)
    requires
        0 <= r,
        -MICRO <= c <= MICRO,
    ensures
        -r <= muldiv(r, c, MICRO as int) <= r,
{
    assert(iabs(r * c) <= r * MICRO) by (nonlinear_arith)
        requires 0 <= r, -MICRO <= c <= MICRO;
    lemma_div_is_ordered(iabs(r * c), r * MICRO, MICRO as int);
    lemma_div_multiples_vanish(r, MICRO as int);
    lemma_div_pos_is_pos(iabs(r * c), MICRO as int);
}

/// The distance from the focus at orbit angle whose cosine is `c`.
pub fn orbit_radius(a: i64, e: i64, c: i64) -> (r: i64)
    requires
        valid_distance(a as int),
        valid_eccentricity(e as int),
        -MICRO <= c <= MICRO,
    ensures
        r as int == radius_spec(a as int, e as int, c as int),
        0 <= r <= 2 * a,
{
    proof {
        lemma_radius_bounds(a as int, e as int, c as int);
        assert(0 <= (e as int) * (e as int) <= 1000000000000
            && -999999000000 <= (e as int) * (c as int) <= 999999000000) by (nonlinear_arith)
            requires 0 <= (e as int) && (e as int) < 1000000, -1000000 <= (c as int) && (c as int) <= 1000000;
        assert(0 <= (a as int) * ((MICRO_SQ as int) - (e as int) * (e as int))
            <= 1000000000000000000000000) by (nonlinear_arith)
            requires
                0 <= (a as int) && (a as int) <= 1000000000000,
                0 <= (MICRO_SQ as int) - (e as int) * (e as int)
                    && (MICRO_SQ as int) - (e as int) * (e as int) <= 1000000000000;
    }
    let num: i128 = (a as i128) * ((MICRO_SQ as i128) - (e as i128) * (e as i128));
    let den: i128 = (MICRO_SQ as i128) - (e as i128) * (c as i128);
    let r = ((num as u128) / (den as u128)) as i64;
    proof {
        assert(r as int == radius_spec(a as int, e as int, c as int));
    }
    r
}

/// The planar position at orbit angle `theta`.
pub fn position2(a: i64, e: i64, theta: i64) -> (p: Pos2)
    requires
        valid_distance(a as int),
        valid_eccentricity(e as int),
        valid_angle(theta as int),
    ensures
        p.x as int == pos2_x_spec(a as int, e as int, theta as int),
        p.y as int == pos2_y_spec(a as int, e as int, theta as int),
        iabs(p.x as int) <= 2 * a,
        iabs(p.y as int) <= 2 * a,
{
    let c = cos_fx(theta);
    let s = sin_fx(theta);
    let r = orbit_radius(a, e, c);
    proof {
        lemma_scale_within_unit(r as int, c as int);
        lemma_scale_within_unit(r as int, s as int);
    }
    let x = mul_div(r, c, MICRO);
    let y = mul_div(r, s, MICRO);
    Pos2 { x, y }
}

/// The spatial position of a tilted orbit at orbit angle `theta`.
pub fn position3(a: i64, e: i64, incl: i64, theta: i64) -> (p: Pos3)
    requires
        valid_distance(a as int),
        valid_eccentricity(e as int),
        valid_angle(incl as int),
        valid_angle(theta as int),
    ensures
        p.x as int == pos3_x_spec(a as int, e as int, incl as int, theta as int),
        p.y as int == pos3_y_spec(a as int, e as int, incl as int, theta as int),
        p.z as int == pos3_z_spec(a as int, e as int, incl as int, theta as int),
        iabs(p.x as int) <= 2 * a,
        iabs(p.y as int) <= 2 * a,
        iabs(p.z as int) <= 2 * a,
{
    let flat = position2(a, e, theta);
    let ci = cos_fx(incl);
    let si = sin_fx(incl);
    proof {
        if flat.x >= 0 {
            lemma_scale_within_unit(flat.x as int, ci as int);
            lemma_scale_within_unit(flat.x as int, si as int);
        } else {
            lemma_scale_within_unit(-(flat.x as int), ci as int);
            lemma_scale_within_unit(-(flat.x as int), si as int);
            lemma_flip_muldiv(flat.x as int, ci as int);
            lemma_flip_muldiv(flat.x as int, si as int);
        }
    }
    let x = mul_div(flat.x, ci, MICRO);
    let z = mul_div(flat.x, si, MICRO);
    Pos3 { x, y: flat.y, z }
}

/// Negating one factor negates a truncated product-quotient.
pub proof fn lemma_flip_muldiv(v: int, c: int)
    ensures
        muldiv(v, c, MICRO as int) == -muldiv(-v, c, MICRO as int),
{
    assert((-v) * c == -(v * c)) by (nonlinear_arith);
    assert(iabs(-(v * c)) == iabs(v * c));
}

/// The planar position of an ellipse oriented by its longitude of
/// perihelion.
pub fn position2_rotated(a: i64, e: i64, lop: i64, theta: i64) -> (p: Pos2)
    requires
        valid_distance(a as int),
        valid_eccentricity(e as int),
        valid_angle(lop as int),
        valid_angle(theta as int),
    ensures
        p.x as int == pos2_rotated_x_spec(a as int, e as int, lop as int, theta as int),
        p.y as int == pos2_rotated_y_spec(a as int, e as int, lop as int, theta as int),
        iabs(p.x as int) <= 2 * a,
        iabs(p.y as int) <= 2 * a,
{
    let c_denom = cos_fx(HALF_TURN + theta - lop);
    let c = cos_fx(theta);
    let s = sin_fx(theta);
    let r = orbit_radius(a, e, c_denom);
    proof {
        lemma_scale_within_unit(r as int, c as int);
        lemma_scale_within_unit(r as int, s as int);
    }
    let x = mul_div(r, c, MICRO);
    let y = mul_div(r, s, MICRO);
    Pos2 { x, y }
}

/// A body of zero orbital radius sits at the origin at every angle, in
/// the plane and in space.
pub proof fn lemma_zero_radius_origin(e: int, incl: int, theta: int)
    requires
        valid_eccentricity(e),
    ensures
        pos2_x_spec(0, e, theta) == 0,
        pos2_y_spec(0, e, theta) == 0,
        pos3_x_spec(0, e, incl, theta) == 0,
        pos3_y_spec(0, e, incl, theta) == 0,
        pos3_z_spec(0, e, incl, theta) == 0,
{
    lemma_sin_at_bounds(theta);
    lemma_sin_at_bounds(incl);
    lemma_radius_bounds(0, e, cos_at(theta));
    assert(radius_spec(0, e, cos_at(theta)) == 0);
    assert(0 * cos_at(theta) == 0) by (nonlinear_arith);
    assert(0 * sin_at(theta) == 0) by (nonlinear_arith);
    assert(0 * cos_at(incl) == 0) by (nonlinear_arith);
    assert(0 * sin_at(incl) == 0) by (nonlinear_arith);
    assert(muldiv(0, cos_at(theta), MICRO as int) == 0);
    assert(muldiv(0, sin_at(theta), MICRO as int) == 0);
    assert(muldiv(0, cos_at(incl), MICRO as int) == 0);
    assert(muldiv(0, sin_at(incl), MICRO as int) == 0);
}

/// Exact cancellation of the shared ellipse factor at the apsides:
/// at `theta == 0` the distance is `a (1 + e)`, at `theta == HALF_TURN`
/// it is `a (1 - e)`, both exact to the fixed-point unit.
pub proof fn lemma_apsides(a: int, e: int)
    requires
        valid_distance(a),
        valid_eccentricity(e),
    ensures
        pos2_x_spec(a, e, 0) == a * (MICRO + e) / (MICRO as int),
        pos2_y_spec(a, e, 0) == 0,
        pos2_x_spec(a, e, HALF_TURN as int) == -(a * (MICRO - e) / (MICRO as int)),
        pos2_y_spec(a, e, HALF_TURN as int) == 0,
{
    lemma_trig_cardinal();
    lemma_apsis_radius(a, e, MICRO as int, MICRO + e);
    lemma_apsis_radius(a, e, -MICRO as int, MICRO - e);
    let r0 = radius_spec(a, e, MICRO as int);
    let rh = radius_spec(a, e, -MICRO as int);
    assert(r0 == a * (MICRO + e) / (MICRO as int));
    assert(rh == a * (MICRO - e) / (MICRO as int));
    lemma_radius_bounds(a, e, MICRO as int);
    lemma_radius_bounds(a, e, -MICRO as int);
    // x at angle 0: r0 * MICRO / MICRO == r0; y: r0 * 0 / MICRO == 0.
    assert(muldiv(r0, MICRO as int, MICRO as int) == r0) by {
        lemma_div_multiples_vanish(r0, MICRO as int);
    }
    assert(muldiv(r0, 0, MICRO as int) == 0) by {
        assert(r0 * 0 == 0) by (nonlinear_arith);
    }
    assert(muldiv(rh, -MICRO as int, MICRO as int) == -rh) by {
        assert(rh * (-MICRO as int) == -(rh * (MICRO as int))) by (nonlinear_arith);
        lemma_div_multiples_vanish(rh, MICRO as int);
    }
    assert(muldiv(rh, 0, MICRO as int) == 0) by {
        assert(rh * 0 == 0) by (nonlinear_arith);
    }
}

/// At a cosine of exactly plus or minus one unit, one ellipse factor
/// cancels against the denominator: the radius is `a * (MICRO -+ e) /
/// MICRO`. `f` names the factor `MICRO -+ e` that survives.
proof fn lemma_apsis_radius(a: int, e: int, c: int, f: int)
    requires
        valid_distance(a),
        valid_eccentricity(e),
        c == MICRO && f == MICRO + e || c == -MICRO && f == MICRO - e,
    ensures
        radius_spec(a, e, c) == a * f / (MICRO as int),
{
    let g = 2 * MICRO - f;  // the factor that cancels
    let num = a * (MICRO_SQ - e * e);
    let den = MICRO_SQ - e * c;
    assert(num == (a * f) * g && den == (MICRO as int) * g && g > 0 && num >= 0)
        by (nonlinear_arith)
        requires
            0 <= a,
            0 <= e < MICRO,
            MICRO == 1000000,
            MICRO_SQ == 1000000000000,
            g == 2 * MICRO - f,
            num == a * (MICRO_SQ - e * e),
            den == MICRO_SQ - e * c,
            (c == MICRO && f == MICRO + e) || (c == -MICRO && f == MICRO - e);
    assert(num / den == a * f / (MICRO as int)) by {
        lemma_div_denominator(num, g, MICRO as int);
        assert(num / g == a * f) by {
            lemma_div_multiples_vanish(a * f, g);
            assert((a * f) * g == g * (a * f)) by (nonlinear_arith);
        }
        assert(g * (MICRO as int) == (MICRO as int) * g) by (nonlinear_arith);
    }
    assert(radius_spec(a, e, c) == num / den);
}


/// A circular orbit has the same radius at every angle: with zero
/// eccentricity the orbit equation collapses to the semi-major axis
/// exactly.
pub proof fn lemma_circular_orbit_radius(a: int, c: int)
    requires
        valid_distance(a),
        -MICRO <= c <= MICRO,
    ensures
        radius_spec(a, 0, c) == a,
{
    let num = a * (MICRO_SQ - 0 * 0);
    let den = MICRO_SQ - 0 * c;
    assert(num == a * (MICRO_SQ as int) && den == MICRO_SQ) by (nonlinear_arith)
        requires
            num == a * (MICRO_SQ - 0 * 0),
            den == MICRO_SQ - 0 * c,
            MICRO_SQ == 1000000000000;
    assert(num >= 0) by (nonlinear_arith)
        requires 0 <= a, num == a * (MICRO_SQ as int), MICRO_SQ == 1000000000000;
    assert(num / den == a) by {
        lemma_div_multiples_vanish(a, MICRO_SQ as int);
        assert(a * (MICRO_SQ as int) == (MICRO_SQ as int) * a) by (nonlinear_arith);
    }
    assert(radius_spec(a, 0, c) == num / den);
}

} // verus!
