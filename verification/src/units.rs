//! Fixed-point units and the shared integer arithmetic kernel.
//!
//! Values are stored in millionths (`MICRO`): a distance of one
//! astronomical unit is `1_000_000` micro-AU, a period of one year is
//! `1_000_000` micro-years, an eccentricity of one half is `500_000`.
//! Angles are stored in arcseconds, `TURN == 1_296_000` to the full turn.

use vstd::prelude::*;
use vstd::arithmetic::div_mod::lemma_fundamental_div_mod;
use vstd::arithmetic::div_mod::lemma_fundamental_div_mod_converse_mod;

verus! {

/// One whole unit in fixed-point millionths.
pub const MICRO: i64 = 1_000_000;

/// `MICRO * MICRO`.
pub const MICRO_SQ: i64 = 1_000_000_000_000;

/// `MICRO * MICRO * MICRO`.
pub const MICRO_CUBE: i64 = 1_000_000_000_000_000_000;

/// One full turn, in arcseconds.
pub const TURN: i64 = 1_296_000;

/// Half a turn, in arcseconds.
pub const HALF_TURN: i64 = 648_000;

/// A quarter turn (90 degrees), in arcseconds.
pub const QUARTER_TURN: i64 = 324_000;

/// Kilometres in one astronomical unit.
pub const AU_KM: i64 = 149_600_000;

/// Absolute value over the mathematical integers.
pub open spec fn iabs(x: int) -> int {
    if x < 0 {
        -x
    } else {
        x
    }
}

/// Division truncated towards zero, the rounding every fixed-point
/// operation of this crate uses. (The spec-level `/` is Euclidean, which
/// differs on negative numerators.)
pub open spec fn tdiv(n: int, d: int) -> int {
    let q = iabs(n) / iabs(d);
    if (n < 0) != (d < 0) {
        -q
    } else {
        q
    }
}

/// `a * b / d`, the product taken exactly and the division truncated
/// towards zero.
pub open spec fn muldiv(a: int, b: int, d: int) -> int {
    tdiv(a * b, d)
}

/// `x` forced into `[lo, hi]`.
pub open spec fn clamp_spec(x: int, lo: int, hi: int) -> int {
    if x < lo {
        lo
    } else if x > hi {
        hi
    } else {
        x
    }
}

proof fn lemma_abs_mul(a: int, b: int)
    ensures
        iabs(a * b) == iabs(a) * iabs(b),
{
    assert(iabs(a * b) == iabs(a) * iabs(b)) by (nonlinear_arith);
}

/// `a * b / d` with the product taken in 128 bits, so the only rounding is
/// the final truncated division.
pub fn mul_div(a: i64, b: i64, d: i64) -> (r: i64)
    requires
        d != 0,
        -(i64::MAX as int) <= muldiv(a as int, b as int, d as int) <= i64::MAX as int,
    ensures
        r as int == muldiv(a as int, b as int, d as int),
{
    if a == 0 || b == 0 {
        proof {
            assert((a as int) * (b as int) == 0) by (nonlinear_arith)
                requires a == 0 || b == 0;
        }
        return 0;
    }
    let ma: u128 = if a < 0 {
        (-(a as i128)) as u128
    } else {
        a as u128
    };
    let mb: u128 = if b < 0 {
        (-(b as i128)) as u128
    } else {
        b as u128
    };
    let md: u128 = if d < 0 {
        (-(d as i128)) as u128
    } else {
        d as u128
    };
    proof {
        assert(ma as int == iabs(a as int));
        assert(mb as int == iabs(b as int));
        assert(md as int == iabs(d as int));
        lemma_abs_mul(a as int, b as int);
        assert(ma * mb <= u128::MAX) by (nonlinear_arith)
            requires ma < 0x1_0000_0000_0000_0000, mb < 0x1_0000_0000_0000_0000;
    }
    let p: u128 = ma * mb;
    let q: u128 = p / md;
    proof {
        assert(q as int == iabs((a as int) * (b as int)) / iabs(d as int));
    }
    let neg = ((a < 0) != (b < 0)) != (d < 0);
    proof {
        assert((a as int) * (b as int) < 0 <==> ((a < 0) != (b < 0))) by (nonlinear_arith)
            requires a != 0, b != 0;
    }
    if neg {
        -(q as i64)
    } else {
        q as i64
    }
}

/// The Euclidean remainder of `t` by a positive `p`: always in `[0, p)`,
/// also for negative `t`. This is the spec-level `%` itself.
pub fn mod_euclid(t: i64, p: i64) -> (r: i64)
    requires
        p > 0,
        t > i64::MIN,
    ensures
        r as int == (t as int) % (p as int),
        0 <= r < p,
{
    if t >= 0 {
        let r = ((t as u64) % (p as u64)) as i64;
        proof {
            assert(r as int == (t as int) % (p as int));
        }
        r
    } else {
        let n: u64 = (-t) as u64;
        let m: u64 = n % (p as u64);
        proof {
            lemma_fundamental_div_mod(n as int, p as int);
            let qn = n as int / p as int;
            assert(n as int == (p as int) * qn + (m as int));
            assert(t as int == (-qn) * (p as int) - (m as int)) by (nonlinear_arith)
                requires n as int == (p as int) * qn + (m as int), t as int == -(n as int);
            if m == 0 {
                lemma_fundamental_div_mod_converse_mod(t as int, p as int, -qn, 0);
            } else {
                assert(t as int == (-qn - 1) * (p as int) + (p as int - m as int))
                    by (nonlinear_arith)
                    requires t as int == (-qn) * (p as int) - (m as int);
                lemma_fundamental_div_mod_converse_mod(
                    t as int,
                    p as int,
                    -qn - 1,
                    p as int - m as int,
                );
            }
        }
        if m == 0 {
            0
        } else {
            p - (m as i64)
        }
    }
}

/// The integer square root, defined by recursion so that it is a function
/// of its argument alone.
pub open spec fn sqrt_floor(n: int) -> int
    decreases n,
{
    if n <= 0 {
        0
    } else {
        let r = sqrt_floor(n - 1);
        if (r + 1) * (r + 1) <= n {
            r + 1
        } else {
            r
        }
    }
}

pub proof fn lemma_sqrt_floor(n: int)
    requires
        n >= 0,
    ensures
        0 <= sqrt_floor(n),
        sqrt_floor(n) * sqrt_floor(n) <= n,
        n < (sqrt_floor(n) + 1) * (sqrt_floor(n) + 1),
    decreases n,
{
    if n > 0 {
        lemma_sqrt_floor(n - 1);
        let r = sqrt_floor(n - 1);
        assert((r + 1) * (r + 1) > n - 1 ==> (r + 1) * (r + 1) >= n);
        assert((r + 1) * (r + 1) < (r + 2) * (r + 2)) by (nonlinear_arith)
            requires r >= 0;
    }
}

pub proof fn lemma_sqrt_floor_unique(n: int, r: int)
    requires
        n >= 0,
        r >= 0,
        r * r <= n,
        n < (r + 1) * (r + 1),
    ensures
        r == sqrt_floor(n),
{
    let s = sqrt_floor(n);
    lemma_sqrt_floor(n);
    if r < s {
        assert((r + 1) * (r + 1) <= s * s) by (nonlinear_arith)
            requires 0 <= r, r < s;
    }
    if s < r {
        assert((s + 1) * (s + 1) <= r * r) by (nonlinear_arith)
            requires 0 <= s, s < r;
    }
}

/// Integer square root by bisection.
pub fn isqrt(x: u128) -> (r: u128)
    ensures
        r as int == sqrt_floor(x as int),
        r * r <= x,
{
    let mut lo: u128 = 0;
    let mut hi: u128 = if x >= 0xFFFF_FFFF_FFFF_FFFF {
        0x1_0000_0000_0000_0000
    } else {
        x + 1
    };
    proof {
        assert((x as int + 1) * (x as int + 1) > x as int) by (nonlinear_arith)
            requires x as int >= 0;
        assert((hi as int) * (hi as int) > x as int) by (nonlinear_arith)
            requires hi as int >= 1, (hi as int) * (hi as int) > x as int || hi as int == 0x1_0000_0000_0000_0000;
    }
    while lo + 1 < hi
        invariant
            0 <= lo < hi,
            hi <= 0x1_0000_0000_0000_0000,
            (lo as int) * (lo as int) <= x as int,
            (x as int) < (hi as int) * (hi as int),
        decreases hi - lo,
    {
        let mid = lo + (hi - lo) / 2;
        proof {
            assert(mid * mid <= u128::MAX) by (nonlinear_arith)
                requires mid < 0x1_0000_0000_0000_0000;
        }
        if mid * mid <= x {
            lo = mid;
        } else {
            hi = mid;
        }
    }
    proof {
        lemma_sqrt_floor_unique(x as int, lo as int);
    }
    lo
}

/// `x` forced into `[lo, hi]`.
pub fn clamp(x: i64, lo: i64, hi: i64) -> (r: i64)
    requires
        lo <= hi,
    ensures
        r as int == clamp_spec(x as int, lo as int, hi as int),
{
    if x < lo {
        lo
    } else if x > hi {
        hi
    } else {
        x
    }
}

} // verus!
