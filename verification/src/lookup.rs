//! Inverse lookup: from a time to the orbit angle, by a floor search over
//! the sorted angle-time table and linear interpolation between the two
//! neighbouring samples.
//!
//! A query below the first sample's time is taken to lie in the
//! wrap-around segment between the last sample and the first, and
//! resolves to the last index. The lookup reports no value only on an
//! empty table; the floor search itself cannot fail on a sorted,
//! non-empty table.

use vstd::prelude::*;
use crate::units::tdiv;
use crate::units::iabs;
use crate::units::clamp_spec;
use crate::table::TimeAngle;
use crate::table::sorted_by_time;
use crate::kepler::MAX_TABLE_TIME;
use crate::units::TURN;

verus! {

/// Entry bounds every table consumed by the lookup obeys; the builders
/// establish them.
pub open spec fn table_entries_ok(s: Seq<TimeAngle>) -> bool {
    forall|k: int|
        0 <= k < s.len() ==> 0 <= (#[trigger] s[k]).time <= MAX_TABLE_TIME && 0 <= s[k].angle <= 4
            * (TURN as int)
}

/// The greatest index whose time does not exceed `t`, scanning from the
/// end; `0` for a one-entry table.
pub open spec fn floor_index_spec(s: Seq<TimeAngle>, t: int) -> int
    decreases s.len(),
{
    if s.len() <= 1 {
        0
    } else if s.last().time <= t {
        s.len() - 1
    } else {
        floor_index_spec(s.drop_last(), t)
    }
}

/// The index the lookup interpolates from: the floor index, or the last
/// index for a time before the first sample (the wrap-around segment).
pub open spec fn lookup_index_spec(s: Seq<TimeAngle>, t: int) -> int {
    if t < s[0].time {
        s.len() - 1
    } else {
        floor_index_spec(s, t)
    }
}

/// Linear interpolation of the angle between two samples, truncated
/// towards zero; a repeated time yields the first sample's angle.
pub open spec fn interp_spec(t0: int, a0: int, t1: int, a1: int, t: int) -> int {
    if t1 == t0 {
        a0
    } else {
        a0 + tdiv((a1 - a0) * (t - t0), t1 - t0)
    }
}

pub open spec fn clamp_i64(x: int) -> int {
    clamp_spec(x, i64::MIN as int, i64::MAX as int)
}

/// The angle the lookup answers for time `t` on a non-empty table.
pub open spec fn angle_from_time_spec(s: Seq<TimeAngle>, t: int) -> int {
    let i = lookup_index_spec(s, t);
    let j = if i + 1 == s.len() {
        0int
    } else {
        i + 1
    };
    clamp_i64(interp_spec(s[i].time as int, s[i].angle as int, s[j].time as int, s[j].angle as int, t))
}

pub proof fn lemma_floor_index_char(s: Seq<TimeAngle>, t: int)
    requires
        s.len() > 0,
        sorted_by_time(s),
        s[0].time <= t,
    ensures
        0 <= floor_index_spec(s, t) < s.len(),
        s[floor_index_spec(s, t)].time <= t,
        floor_index_spec(s, t) + 1 < s.len() ==> t < s[floor_index_spec(s, t) + 1].time,
    decreases s.len(),
{
    if s.len() > 1 && s.last().time > t {
        assert(sorted_by_time(s.drop_last()));
        assert(s.drop_last()[0] == s[0]);
        lemma_floor_index_char(s.drop_last(), t);
        let fi = floor_index_spec(s.drop_last(), t);
        assert(s.drop_last()[fi] == s[fi]);
        if fi + 1 < s.len() - 1 {
            assert(s.drop_last()[fi + 1] == s[fi + 1]);
        }
    }
}

/// Any index with the floor property is the floor index.
pub proof fn lemma_floor_index_unique(s: Seq<TimeAngle>, t: int, i: int)
    requires
        s.len() > 0,
        sorted_by_time(s),
        s[0].time <= t,
        0 <= i < s.len(),
        s[i].time <= t,
        i + 1 < s.len() ==> t < s[i + 1].time,
    ensures
        i == floor_index_spec(s, t),
{
    lemma_floor_index_char(s, t);
    let fi = floor_index_spec(s, t);
    if i < fi {
        assert(s[i + 1].time <= s[fi].time);
    }
    if fi < i {
        assert(s[fi + 1].time <= s[i].time);
    }
}

/// The floor search: on a sorted, non-empty table it always finds its
/// index.
pub fn floor_in_table(table: &Vec<TimeAngle>, t: i64) -> (r: usize)
    requires
        table@.len() > 0,
        sorted_by_time(table@),
        table@[0].time <= t,
    ensures
        r < table@.len(),
        r as int == floor_index_spec(table@, t as int),
{
    let n = table.len();
    let mut lo: usize = 0;
    let mut hi: usize = n - 1;
    while lo < hi
        invariant
            0 <= lo <= hi < table@.len(),
            sorted_by_time(table@),
            table@[lo as int].time <= t,
            hi + 1 < table@.len() ==> t < table@[hi as int + 1].time,
        decreases hi - lo,
    {
        let mid = hi - (hi - lo) / 2;
        if table[mid].time <= t {
            lo = mid;
        } else {
            hi = mid - 1;
        }
    }
    proof {
        lemma_floor_index_unique(table@, t as int, lo as int);
    }
    lo
}

/// Truncating interpolation with saturation into the representable
/// range.
fn interp(t0: i64, a0: i64, t1: i64, a1: i64, t: i64) -> (r: i64)
    requires
        t1 != t0,
        0 <= t0 <= MAX_TABLE_TIME,
        0 <= t1 <= MAX_TABLE_TIME,
        0 <= t <= MAX_TABLE_TIME,
        0 <= a0 <= 4 * (TURN as int),
        0 <= a1 <= 4 * (TURN as int),
    ensures
        r as int == clamp_i64(interp_spec(t0 as int, a0 as int, t1 as int, a1 as int, t as int)),
{
    let da: i128 = (a1 as i128) - (a0 as i128);
    let dt: i128 = (t as i128) - (t0 as i128);
    let dd: i128 = (t1 as i128) - (t0 as i128);
    proof {
        assert(iabs(da as int) <= 5184000 && iabs(dt as int) <= MAX_TABLE_TIME);
        assert(iabs((da as int) * (dt as int)) == iabs(da as int) * iabs(dt as int)) by (nonlinear_arith);
        assert(iabs(da as int) * iabs(dt as int) <= 5184000 * (MAX_TABLE_TIME as int))
            by (nonlinear_arith)
            requires
                0 <= iabs(da as int) <= 5184000,
                0 <= iabs(dt as int) <= MAX_TABLE_TIME;
    }
    let num: i128 = da * dt;
    let nm: u128 = if num < 0 {
        (-num) as u128
    } else {
        num as u128
    };
    let dm: u128 = if dd < 0 {
        (-dd) as u128
    } else {
        dd as u128
    };
    let qm = nm / dm;
    let neg = (num < 0) != (dd < 0);
    proof {
        assert(nm as int == iabs(num as int));
        assert(dm as int == iabs(dd as int));
        assert(qm as int == iabs(num as int) / iabs(dd as int));
        assert(qm as int <= iabs(num as int)) by {
            vstd::arithmetic::div_mod::lemma_div_is_ordered_by_denominator(
                iabs(num as int),
                1,
                iabs(dd as int),
            );
            assert(iabs(num as int) / 1int == iabs(num as int));
        }
    }
    let q: i128 = if neg {
        -(qm as i128)
    } else {
        qm as i128
    };
    proof {
        assert(q as int == tdiv(num as int, dd as int));
    }
    let s: i128 = (a0 as i128) + q;
    if s > (i64::MAX as i128) {
        i64::MAX
    } else if s < (i64::MIN as i128) {
        i64::MIN
    } else {
        s as i64
    }
}

/// The orbit angle at time `t`, read off the angle-time table. Reports
/// no value exactly on an empty table; a time before the first sample
/// interpolates across the wrap-around segment from the last sample.
pub fn angle_from_time(table: &Vec<TimeAngle>, t: i64) -> (r: Option<i64>)
    requires
        sorted_by_time(table@),
        table_entries_ok(table@),
        0 <= t <= MAX_TABLE_TIME,
    ensures
        r is Some <==> table@.len() > 0,
        table@.len() > 0 ==> r == Some(angle_from_time_spec(table@, t as int) as i64),
{
    let n = table.len();
    if n == 0 {
        return None;
    }
    let idx: usize = if t < table[0].time {
        proof {
            if n > 1 {
                assert(table@[n as int - 1] == table@[n - 1]);
            }
        }
        n - 1
    } else {
        floor_in_table(table, t)
    };
    proof {
        assert(idx as int == lookup_index_spec(table@, t as int));
        if idx as int == lookup_index_spec(table@, t as int) && !(t < table@[0].time) {
            lemma_floor_index_char(table@, t as int);
        }
    }
    let nxt: usize = if idx + 1 == n {
        0
    } else {
        idx + 1
    };
    let first = table[idx];
    let second = table[nxt];
    if second.time == first.time {
        proof {
            assert(angle_from_time_spec(table@, t as int) == first.angle as int);
        }
        Some(first.angle)
    } else {
        let a = interp(first.time, first.angle, second.time, second.angle, t);
        Some(a)
    }
}

} // verus!
