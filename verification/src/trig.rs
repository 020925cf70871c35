//! Fixed-point sine and cosine over arcsecond angles.
//!
//! The half-turn kernel is the classical rational approximation
//! `sin(pi*x/H) ~ 16x(H-x) / (5H^2 - 4x(H-x))`, which is exact at `0`, at
//! the quarter turn and at the half turn, so positions at the four
//! cardinal angles of an orbit come out exactly.

use vstd::prelude::*;
use vstd::arithmetic::div_mod::lemma_div_is_ordered;
use vstd::arithmetic::div_mod::lemma_div_multiples_vanish;
use vstd::arithmetic::div_mod::lemma_div_pos_is_pos;
use vstd::arithmetic::div_mod::lemma_mod_bound;
use vstd::arithmetic::div_mod::lemma_add_mod_noop;
use vstd::arithmetic::div_mod::lemma_small_mod;
use crate::units::MICRO;
use crate::units::TURN;
use crate::units::HALF_TURN;
use crate::units::QUARTER_TURN;
use crate::units::mod_euclid;

verus! {

/// The sine kernel on `[0, HALF_TURN]`, in millionths.
pub open spec fn sin_half_spec(x: int) -> int {
    let p = x * (HALF_TURN - x);
    (16 * p * MICRO) / (5 * (HALF_TURN as int) * (HALF_TURN as int) - 4 * p)
}

proof fn lemma_arch_bound(x: int, h: int)
    requires
        0 <= x <= h,
    ensures
        0 <= x * (h - x),
        4 * (x * (h - x)) <= h * h,
{
    assert(0 <= x * (h - x) && 4 * (x * (h - x)) <= h * h) by (nonlinear_arith)
        requires 0 <= x <= h;
}

/// The sine of an angle already reduced to `[0, TURN)`.
pub open spec fn sin_norm_spec(a: int) -> int {
    if a <= HALF_TURN {
        sin_half_spec(a)
    } else {
        -sin_half_spec(a - HALF_TURN)
    }
}

/// The sine of any arcsecond angle, in millionths.
pub open spec fn sin_at(a: int) -> int {
    sin_norm_spec(a % (TURN as int))
}

/// The cosine of any arcsecond angle, in millionths.
pub open spec fn cos_at(a: int) -> int {
    sin_at(a + QUARTER_TURN)
}

pub proof fn lemma_sin_half_spec_bounds(x: int)
    requires
        0 <= x <= HALF_TURN,
    ensures
        0 <= sin_half_spec(x) <= MICRO,
{
    let p = x * (HALF_TURN - x);
    let num = 16 * p * MICRO;
    let den = 5 * (HALF_TURN as int) * (HALF_TURN as int) - 4 * p;
    lemma_arch_bound(x, HALF_TURN as int);
    assert(den > 0 && num >= 0 && num <= MICRO * den) by (nonlinear_arith)
        requires
            num == 16 * p * MICRO,
            den == 5 * 648000 * 648000 - 4 * p,
            0 <= 4 * p,
            4 * p <= 648000 * 648000;
    lemma_div_pos_is_pos(num, den);
    lemma_div_is_ordered(num, MICRO * den, den);
    lemma_div_multiples_vanish(MICRO as int, den);
    assert(sin_half_spec(x) == num / den);
}

pub proof fn lemma_sin_at_bounds(a: int)
    ensures
        -MICRO <= sin_at(a) <= MICRO,
        -MICRO <= cos_at(a) <= MICRO,
{
    lemma_mod_bound(a, TURN as int);
    let n = a % (TURN as int);
    if n <= HALF_TURN {
        lemma_sin_half_spec_bounds(n);
    } else {
        lemma_sin_half_spec_bounds(n - HALF_TURN);
    }
    lemma_mod_bound(a + QUARTER_TURN, TURN as int);
    let m = (a + QUARTER_TURN) % (TURN as int);
    if m <= HALF_TURN {
        lemma_sin_half_spec_bounds(m);
    } else {
        lemma_sin_half_spec_bounds(m - HALF_TURN);
    }
}

/// The exact kernel values at the cardinal angles.
pub proof fn lemma_trig_cardinal()
    ensures
        sin_at(0) == 0,
        sin_at(QUARTER_TURN as int) == MICRO,
        sin_at(HALF_TURN as int) == 0,
        sin_at(3 * (QUARTER_TURN as int)) == -MICRO,
        cos_at(0) == MICRO,
        cos_at(QUARTER_TURN as int) == 0,
        cos_at(HALF_TURN as int) == -MICRO,
        cos_at(3 * (QUARTER_TURN as int)) == 0,
{
    lemma_small_mod(0nat, TURN as nat);
    lemma_small_mod(QUARTER_TURN as nat, TURN as nat);
    lemma_small_mod(HALF_TURN as nat, TURN as nat);
    lemma_small_mod((3 * QUARTER_TURN) as nat, TURN as nat);
    lemma_small_mod((HALF_TURN + QUARTER_TURN) as nat, TURN as nat);
    assert((TURN as int) % (TURN as int) == 0) by {
        vstd::arithmetic::div_mod::lemma_mod_self_0(TURN as int);
    }
    assert(sin_half_spec(0) == 0);
    assert(sin_half_spec(QUARTER_TURN as int) == MICRO) by {
        assert((QUARTER_TURN as int) * (HALF_TURN - QUARTER_TURN as int) == 104976000000int);
        assert(16 * 104976000000int * (MICRO as int) == 1679616000000000000int);
        assert(5 * (HALF_TURN as int) * (HALF_TURN as int) - 4 * 104976000000int
            == 1679616000000int);
        assert(1679616000000000000int / 1679616000000int == 1000000int);
    }
    assert(sin_half_spec(HALF_TURN as int) == 0);
}

/// The sine kernel on the first half turn.
fn sin_half(x: i64) -> (r: i64)
    requires
        0 <= x <= HALF_TURN,
    ensures
        r as int == sin_half_spec(x as int),
        0 <= r <= MICRO,
{
    proof {
        lemma_arch_bound(x as int, HALF_TURN as int);
        lemma_sin_half_spec_bounds(x as int);
    }
    let p: i64 = x * (HALF_TURN - x);
    let num: u64 = 16 * (p as u64) * (MICRO as u64);
    let den: u64 = 5 * (HALF_TURN as u64) * (HALF_TURN as u64) - 4 * (p as u64);
    let r = (num / den) as i64;
    proof {
        assert(num as int == 16 * (p as int) * (MICRO as int));
        assert(r as int == sin_half_spec(x as int));
    }
    r
}

/// The sine of an arcsecond angle, in millionths.
pub fn sin_fx(a: i64) -> (r: i64)
    requires
        a > i64::MIN,
    ensures
        r as int == sin_at(a as int),
        -MICRO <= r <= MICRO,
{
    let n = mod_euclid(a, TURN);
    if n <= HALF_TURN {
        sin_half(n)
    } else {
        -sin_half(n - HALF_TURN)
    }
}

/// The cosine of an arcsecond angle, in millionths.
pub fn cos_fx(a: i64) -> (r: i64)
    requires
        a > i64::MIN,
    ensures
        r as int == cos_at(a as int),
        -MICRO <= r <= MICRO,
{
    let n = mod_euclid(a, TURN);
    let shifted = n + QUARTER_TURN;
    proof {
        lemma_add_mod_noop(a as int, QUARTER_TURN as int, TURN as int);
        lemma_small_mod(QUARTER_TURN as nat, TURN as nat);
        assert((shifted as int) % (TURN as int) == (a as int + QUARTER_TURN) % (TURN as int));
    }
    sin_fx(shifted)
}

} // verus!
