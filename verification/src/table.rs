//! The angle-time sample table and its stable sort by time.

use vstd::prelude::*;

verus! {

/// One sample of the time-versus-angle relation of an orbit: the time
/// (micro-years) at which the body passes the orbit angle (arcseconds).
#[derive(Clone, Copy, PartialEq, Eq, Structural, Debug)]
pub struct TimeAngle {
    pub time: i64,
    pub angle: i64,
}

/// The table's time column is non-decreasing.
pub open spec fn sorted_by_time(s: Seq<TimeAngle>) -> bool {
    forall|i: int, j: int| 0 <= i <= j < s.len() ==> s[i].time <= s[j].time
}

/// Stable insertion into a sorted table: `x` goes after every entry whose
/// time does not exceed its own.
pub open spec fn insert_sorted_spec(s: Seq<TimeAngle>, x: TimeAngle) -> Seq<TimeAngle>
    decreases s.len(),
{
    if s.len() == 0 {
        seq![x]
    } else if x.time >= s.last().time {
        s.push(x)
    } else {
        insert_sorted_spec(s.drop_last(), x).push(s.last())
    }
}

/// Stable insertion sort by time.
pub open spec fn sort_by_time_spec(s: Seq<TimeAngle>) -> Seq<TimeAngle>
    decreases s.len(),
{
    if s.len() == 0 {
        Seq::empty()
    } else {
        insert_sorted_spec(sort_by_time_spec(s.drop_last()), s.last())
    }
}

pub proof fn lemma_insert_sorted_len(s: Seq<TimeAngle>, x: TimeAngle)
    ensures
        insert_sorted_spec(s, x).len() == s.len() + 1,
    decreases s.len(),
{
    if s.len() != 0 && x.time < s.last().time {
        lemma_insert_sorted_len(s.drop_last(), x);
    }
}

pub proof fn lemma_sort_by_time_len(s: Seq<TimeAngle>)
    ensures
        sort_by_time_spec(s).len() == s.len(),
    decreases s.len(),
{
    if s.len() != 0 {
        lemma_sort_by_time_len(s.drop_last());
        lemma_insert_sorted_len(sort_by_time_spec(s.drop_last()), s.last());
    }
}

/// Every entry of the inserted table is the new entry or one of the old.
pub proof fn lemma_insert_sorted_membership(s: Seq<TimeAngle>, x: TimeAngle)
    ensures
        forall|i: int|
            0 <= i < insert_sorted_spec(s, x).len() ==> (insert_sorted_spec(s, x)[i] == x
                || s.contains(#[trigger] insert_sorted_spec(s, x)[i])),
    decreases s.len(),
{
    lemma_insert_sorted_len(s, x);
    if s.len() == 0 {
    } else if x.time >= s.last().time {
        assert forall|i: int| 0 <= i < insert_sorted_spec(s, x).len() implies (insert_sorted_spec(
            s,
            x,
        )[i] == x || s.contains(#[trigger] insert_sorted_spec(s, x)[i])) by {
            if i < s.len() {
                assert(s[i] == insert_sorted_spec(s, x)[i]);
            }
        }
    } else {
        lemma_insert_sorted_membership(s.drop_last(), x);
        let inner = insert_sorted_spec(s.drop_last(), x);
        lemma_insert_sorted_len(s.drop_last(), x);
        assert forall|i: int| 0 <= i < insert_sorted_spec(s, x).len() implies (insert_sorted_spec(
            s,
            x,
        )[i] == x || s.contains(#[trigger] insert_sorted_spec(s, x)[i])) by {
            if i < inner.len() {
                assert(insert_sorted_spec(s, x)[i] == inner[i]);
                if inner[i] != x {
                    let j = choose|j: int| 0 <= j < s.drop_last().len() && s.drop_last()[j]
                        == inner[i];
                    assert(s[j] == inner[i]);
                }
            } else {
                assert(insert_sorted_spec(s, x)[i] == s.last());
                assert(s[s.len() - 1] == s.last());
            }
        }
    }
}

/// Sorting returns entries of the input only.
pub proof fn lemma_sort_by_time_membership(s: Seq<TimeAngle>)
    ensures
        forall|i: int|
            0 <= i < sort_by_time_spec(s).len() ==> s.contains(
                #[trigger] sort_by_time_spec(s)[i],
            ),
    decreases s.len(),
{
    if s.len() != 0 {
        lemma_sort_by_time_membership(s.drop_last());
        lemma_sort_by_time_len(s);
        lemma_insert_sorted_membership(sort_by_time_spec(s.drop_last()), s.last());
        let sorted = sort_by_time_spec(s);
        assert forall|i: int| 0 <= i < sorted.len() implies s.contains(#[trigger] sorted[i]) by {
            if sorted[i] == s.last() {
                assert(s[s.len() - 1] == s.last());
            } else {
                assert(sort_by_time_spec(s.drop_last()).contains(sorted[i]));
                let j = choose|j: int|
                    0 <= j < sort_by_time_spec(s.drop_last()).len() && sort_by_time_spec(
                        s.drop_last(),
                    )[j] == sorted[i];
                let k = choose|k: int| 0 <= k < s.drop_last().len() && s.drop_last()[k]
                    == sorted[i];
                assert(s[k] == sorted[i]);
            }
        }
    }
}


/// Insertion adds exactly the new entry to the table's contents.
pub proof fn lemma_insert_sorted_multiset(s: Seq<TimeAngle>, x: TimeAngle)
    ensures
        insert_sorted_spec(s, x).to_multiset() == s.to_multiset().insert(x),
    decreases s.len(),
{
    if s.len() == 0 {
        assert(insert_sorted_spec(s, x) =~= s.push(x));
        s.to_multiset_ensures();
    } else if x.time >= s.last().time {
        s.to_multiset_ensures();
    } else {
        lemma_insert_sorted_multiset(s.drop_last(), x);
        let inner = insert_sorted_spec(s.drop_last(), x);
        inner.to_multiset_ensures();
        s.drop_last().to_multiset_ensures();
        assert(s.drop_last().push(s.last()) =~= s);
        assert(inner.push(s.last()).to_multiset() =~= inner.to_multiset().insert(s.last()));
        assert(s.drop_last().push(s.last()).to_multiset() =~= s.drop_last().to_multiset().insert(
            s.last(),
        ));
        assert(s.to_multiset() == s.drop_last().to_multiset().insert(s.last()));
        assert(s.drop_last().to_multiset().insert(x).insert(s.last())
            =~= s.drop_last().to_multiset().insert(s.last()).insert(x));
    }
}

/// Sorting reorders the samples and neither drops nor invents one: the
/// sorted table holds exactly the input's contents.
pub proof fn lemma_sort_by_time_multiset(s: Seq<TimeAngle>)
    ensures
        sort_by_time_spec(s).to_multiset() == s.to_multiset(),
    decreases s.len(),
{
    if s.len() == 0 {
        assert(s =~= Seq::<TimeAngle>::empty());
    } else {
        lemma_sort_by_time_multiset(s.drop_last());
        lemma_insert_sorted_multiset(sort_by_time_spec(s.drop_last()), s.last());
        assert(sort_by_time_spec(s) == insert_sorted_spec(
            sort_by_time_spec(s.drop_last()),
            s.last(),
        ));
        assert(insert_sorted_spec(sort_by_time_spec(s.drop_last()), s.last()).to_multiset()
            == sort_by_time_spec(s.drop_last()).to_multiset().insert(s.last()));
        s.drop_last().to_multiset_ensures();
        assert(s.drop_last().push(s.last()) =~= s);
        assert(s.drop_last().push(s.last()).to_multiset() =~= s.drop_last().to_multiset().insert(
            s.last(),
        ));
        assert(s.to_multiset() == s.drop_last().to_multiset().insert(s.last()));
    }
}

/// Inserting below a time bound keeps the table below that bound.
proof fn lemma_insert_sorted_le(s: Seq<TimeAngle>, x: TimeAngle, b: i64)
    requires
        x.time <= b,
        forall|i: int| 0 <= i < s.len() ==> s[i].time <= b,
    ensures
        forall|i: int|
            0 <= i < insert_sorted_spec(s, x).len() ==> #[trigger] insert_sorted_spec(
                s,
                x,
            )[i].time <= b,
    decreases s.len(),
{
    lemma_insert_sorted_len(s, x);
    if s.len() != 0 && x.time < s.last().time {
        assert(forall|i: int| 0 <= i < s.drop_last().len() ==> s.drop_last()[i].time <= b);
        lemma_insert_sorted_le(s.drop_last(), x, b);
        lemma_insert_sorted_len(s.drop_last(), x);
        let inner = insert_sorted_spec(s.drop_last(), x);
        assert forall|i: int| 0 <= i < insert_sorted_spec(s, x).len() implies #[trigger]
        insert_sorted_spec(s, x)[i].time <= b by {
            if i < inner.len() {
                assert(insert_sorted_spec(s, x)[i] == inner[i]);
            } else {
                assert(insert_sorted_spec(s, x)[i] == s.last());
                assert(s[s.len() - 1].time <= b);
            }
        }
    }
}

/// Insertion into a sorted table keeps it sorted.
pub proof fn lemma_insert_sorted_keeps_order(s: Seq<TimeAngle>, x: TimeAngle)
    requires
        sorted_by_time(s),
    ensures
        sorted_by_time(insert_sorted_spec(s, x)),
    decreases s.len(),
{
    lemma_insert_sorted_len(s, x);
    if s.len() == 0 {
    } else if x.time >= s.last().time {
        assert(forall|i: int| 0 <= i < s.len() ==> s[i].time <= s.last().time);
    } else {
        assert(sorted_by_time(s.drop_last()));
        lemma_insert_sorted_keeps_order(s.drop_last(), x);
        lemma_insert_sorted_len(s.drop_last(), x);
        assert(forall|i: int| 0 <= i < s.drop_last().len() ==> s.drop_last()[i].time
            <= s.last().time);
        lemma_insert_sorted_le(s.drop_last(), x, s.last().time);
    }
}

/// The sorted table is in fact sorted.
pub proof fn lemma_sort_by_time_sorted(s: Seq<TimeAngle>)
    ensures
        sorted_by_time(sort_by_time_spec(s)),
    decreases s.len(),
{
    if s.len() != 0 {
        lemma_sort_by_time_sorted(s.drop_last());
        lemma_insert_sorted_keeps_order(sort_by_time_spec(s.drop_last()), s.last());
    }
}

/// `insert_sorted_spec` is the splice at the found position.
proof fn lemma_insert_sorted_splice(s: Seq<TimeAngle>, x: TimeAngle, j: int)
    requires
        0 <= j <= s.len(),
        forall|m: int| j <= m < s.len() ==> s[m].time > x.time,
        j > 0 ==> s[j - 1].time <= x.time,
    ensures
        insert_sorted_spec(s, x) == s.insert(j, x),
    decreases s.len(),
{
    lemma_insert_sorted_len(s, x);
    if s.len() == 0 {
        assert(insert_sorted_spec(s, x) =~= s.insert(0, x));
    } else if x.time >= s.last().time {
        assert(j == s.len());
        assert(insert_sorted_spec(s, x) =~= s.insert(j, x));
    } else {
        assert(j < s.len());
        lemma_insert_sorted_splice(s.drop_last(), x, j);
        lemma_insert_sorted_len(s.drop_last(), x);
        assert(insert_sorted_spec(s, x) =~= s.insert(j, x));
    }
}

/// Insert one sample, keeping the table sorted and stable.
fn insert_by_time(v: &mut Vec<TimeAngle>, x: TimeAngle)
    ensures
        final(v)@ == insert_sorted_spec(old(v)@, x),
{
    let mut j: usize = v.len();
    while j > 0 && v[j - 1].time > x.time
        invariant
            j <= v@.len(),
            forall|m: int| j <= m < v@.len() ==> v@[m].time > x.time,
        decreases j,
    {
        j = j - 1;
    }
    proof {
        lemma_insert_sorted_splice(v@, x, j as int);
    }
    v.insert(j, x);
}

/// Sort a sample table by time, stably.
pub fn sort_table_by_time(v: Vec<TimeAngle>) -> (r: Vec<TimeAngle>)
    ensures
        r@ == sort_by_time_spec(v@),
        sorted_by_time(r@),
        r@.len() == v@.len(),
        r@.to_multiset() == v@.to_multiset(),
{
    proof {
        lemma_sort_by_time_sorted(v@);
        lemma_sort_by_time_len(v@);
        lemma_sort_by_time_multiset(v@);
    }
    let mut out: Vec<TimeAngle> = Vec::new();
    let mut i: usize = 0;
    while i < v.len()
        invariant
            i <= v@.len(),
            out@ == sort_by_time_spec(v@.take(i as int)),
        decreases v@.len() - i,
    {
        proof {
            assert(v@.take(i as int + 1).drop_last() =~= v@.take(i as int));
            assert(v@.take(i as int + 1).last() == v@[i as int]);
        }
        insert_by_time(&mut out, v[i]);
        i = i + 1;
    }
    proof {
        assert(v@.take(v@.len() as int) =~= v@);
    }
    out
}


/// The key-index table of a plain key column.
pub open spec fn key_table_spec(keys: Seq<i64>) -> Seq<TimeAngle> {
    Seq::new(keys.len(), |i: int| TimeAngle { time: keys[i], angle: i as i64 })
}

/// The stable ascending order of a key column, as a sorted key-index
/// table.
pub open spec fn key_order_spec(keys: Seq<i64>) -> Seq<TimeAngle> {
    sort_by_time_spec(key_table_spec(keys))
}

/// The indices of the keys in ascending order, ties kept in the given
/// order. Scenes draw their segments and markers through this order for
/// the painter's algorithm.
pub fn sorted_order_by_key(keys: &Vec<i64>) -> (r: Vec<usize>)
    requires
        keys@.len() < 0x8000_0000,
    ensures
        r@.len() == keys@.len(),
        forall|k: int| 0 <= k < r@.len() ==> (#[trigger] r@[k]) < keys@.len(),
        forall|k: int|
            0 <= k < r@.len() ==> key_order_spec(keys@)[k] == (TimeAngle {
                time: keys@[r@[k] as int],
                angle: r@[k] as i64,
            }),
        forall|k1: int, k2: int|
            0 <= k1 <= k2 < r@.len() ==> keys@[r@[k1] as int] <= keys@[r@[k2] as int],
{
    let ghost ktable = key_table_spec(keys@);
    let mut pairs: Vec<TimeAngle> = Vec::new();
    let mut i: usize = 0;
    while i < keys.len()
        invariant
            0 <= i <= keys@.len(),
            keys@.len() < 0x8000_0000,
            ktable == key_table_spec(keys@),
            pairs@.len() == i,
            forall|k: int| 0 <= k < i ==> pairs@[k] == ktable[k],
        decreases keys@.len() - i,
    {
        pairs.push(TimeAngle { time: keys[i], angle: i as i64 });
        i = i + 1;
    }
    proof {
        assert(pairs@ =~= ktable);
    }
    let sorted = sort_table_by_time(pairs);
    proof {
        lemma_sort_by_time_membership(ktable);
    }
    let mut order: Vec<usize> = Vec::new();
    let mut j: usize = 0;
    while j < sorted.len()
        invariant
            0 <= j <= sorted@.len(),
            keys@.len() < 0x8000_0000,
            ktable == key_table_spec(keys@),
            sorted@ == key_order_spec(keys@),
            sorted@.len() == keys@.len(),
            forall|k: int| 0 <= k < sorted@.len() ==> ktable.contains(#[trigger] sorted@[k]),
            sorted_by_time(sorted@),
            order@.len() == j,
            forall|k: int| 0 <= k < j ==> (#[trigger] order@[k]) < keys@.len(),
            forall|k: int|
                0 <= k < j ==> sorted@[k] == (TimeAngle {
                    time: keys@[order@[k] as int],
                    angle: order@[k] as i64,
                }),
        decreases sorted@.len() - j,
    {
        proof {
            assert(ktable.contains(sorted@[j as int]));
            let m = choose|m: int| 0 <= m < ktable.len() && ktable[m] == sorted@[j as int];
            assert(ktable[m] == (TimeAngle { time: keys@[m], angle: m as i64 }));
            assert(sorted@[j as int].angle == m as i64);
            assert(0 <= m < 0x8000_0000);
            assert(sorted@[j as int].angle as int == m);
        }
        let idx = sorted[j].angle as usize;
        proof {
            assert(sorted@[j as int] == (TimeAngle {
                time: keys@[idx as int],
                angle: idx as i64,
            }));
        }
        order.push(idx);
        j = j + 1;
    }
    proof {
        assert forall|k1: int, k2: int| 0 <= k1 <= k2 < order@.len() implies keys@[order@[k1] as int]
            <= keys@[order@[k2] as int] by {
            assert(sorted@[k1].time <= sorted@[k2].time);
        }
    }
    order
}

} // verus!
