//! Ordering of appointments by start time: a stable insertion sort with
//! an exact specification, and the laws that hold of it.

use vstd::prelude::*;
use vstd::seq_lib::*;
use crate::appointment::Appointment;

verus! {

/// The key an appointment sorts by: its start time, with an absent start
/// counting as 0 (so such appointments sort first among non-negative
/// start times).
pub open spec fn spec_sort_key(a: Appointment) -> i64 {
    match a.start {
        Some(s) => s,
        None => 0,
    }
}

/// The sort key of one appointment.
pub fn sort_key(a: &Appointment) -> (r: i64)
    ensures
        r == spec_sort_key(*a),
{
    match a.start {
        Some(s) => s,
        None => 0,
    }
}

/// Inserts `x` into `s` directly before the longest tail of `s` whose keys
/// all exceed `x`'s key; elements with the same key as `x` stay before it.
pub open spec fn spec_insert(s: Seq<Appointment>, x: Appointment) -> Seq<Appointment>
    decreases s.len(),
{
    if s.len() == 0 {
        seq![x]
    } else if spec_sort_key(x) < spec_sort_key(s.last()) {
        spec_insert(s.drop_last(), x).push(s.last())
    } else {
        s.push(x)
    }
}

/// The stable insertion sort of `s` by [`spec_sort_key`].
pub open spec fn spec_stable_sort(s: Seq<Appointment>) -> Seq<Appointment>
    decreases s.len(),
{
    if s.len() == 0 {
        Seq::empty()
    } else {
        spec_insert(spec_stable_sort(s.drop_last()), s.last())
    }
}

/// Keys never decrease from left to right.
pub open spec fn sorted_by_start(s: Seq<Appointment>) -> bool {
    forall|i: int, j: int|
        0 <= i <= j < s.len() ==> spec_sort_key(s[i]) <= spec_sort_key(s[j])
}

/// Where `spec_insert` places its element: at the first position `j` from
/// which every key strictly exceeds the new key.
proof fn lemma_insert_at(s: Seq<Appointment>, x: Appointment, j: int)
    requires
        0 <= j <= s.len(),
        forall|m: int| j <= m < s.len() ==> spec_sort_key(x) < spec_sort_key(s[m]),
        j > 0 ==> !(spec_sort_key(x) < spec_sort_key(s[j - 1])),
    ensures
        spec_insert(s, x) == s.take(j) + seq![x] + s.skip(j),
    decreases s.len(),
{
    if j == s.len() {
        assert(s.push(x) =~= s.take(j) + seq![x] + s.skip(j));
        if s.len() == 0 {
            assert(seq![x] =~= s.take(j) + seq![x] + s.skip(j));
        }
    } else {
        assert(spec_sort_key(x) < spec_sort_key(s.last()));
        assert(forall|m: int|
            j <= m < s.drop_last().len() ==> spec_sort_key(x) < spec_sort_key(
                s.drop_last()[m],
            ));
        lemma_insert_at(s.drop_last(), x, j);
        assert((s.drop_last().take(j) + seq![x] + s.drop_last().skip(j)).push(s.last()) =~= s.take(
            j,
        ) + seq![x] + s.skip(j));
    }
}

/// Inserting into a sorted sequence keeps it sorted.
proof fn lemma_insert_sorted(s: Seq<Appointment>, x: Appointment)
    requires
        sorted_by_start(s),
    ensures
        sorted_by_start(spec_insert(s, x)),
    decreases s.len(),
{
    if s.len() == 0 {
    } else if spec_sort_key(x) < spec_sort_key(s.last()) {
        assert(sorted_by_start(s.drop_last()));
        lemma_insert_sorted(s.drop_last(), x);
        let t = spec_insert(s.drop_last(), x);
        assert forall|i: int, j: int|
            0 <= i <= j < t.push(s.last()).len() implies spec_sort_key(t.push(s.last())[i])
            <= spec_sort_key(t.push(s.last())[j]) by {
            lemma_insert_key_bounds(s.drop_last(), x);
            if j < t.len() {
            } else {
                if i < t.len() {
                    assert(t.push(s.last())[i] == t[i]);
                }
            }
        }
    } else {
    }
}

/// Every element of `spec_insert(s, x)` is an element of `s` or is `x`.
proof fn lemma_insert_key_bounds(s: Seq<Appointment>, x: Appointment)
    ensures
        forall|i: int|
            0 <= i < spec_insert(s, x).len() ==> (exists|m: int|
                0 <= m < s.len() && spec_insert(s, x)[i] == s[m]) || spec_insert(s, x)[i] == x,
    decreases s.len(),
{
    if s.len() == 0 {
    } else if spec_sort_key(x) < spec_sort_key(s.last()) {
        lemma_insert_key_bounds(s.drop_last(), x);
        let t = spec_insert(s.drop_last(), x);
        assert forall|i: int|
            0 <= i < t.push(s.last()).len() implies (exists|m: int|
            0 <= m < s.len() && t.push(s.last())[i] == s[m]) || t.push(s.last())[i] == x by {
            if i < t.len() {
                assert(t.push(s.last())[i] == t[i]);
                if exists|m: int| 0 <= m < s.drop_last().len() && t[i] == s.drop_last()[m] {
                    let m = choose|m: int| 0 <= m < s.drop_last().len() && t[i] == s.drop_last()[m];
                    assert(s.drop_last()[m] == s[m]);
                }
            } else {
                assert(t.push(s.last())[i] == s.last());
                assert(s.last() == s[s.len() - 1]);
            }
        }
    } else {
        assert forall|i: int|
            0 <= i < s.push(x).len() implies (exists|m: int|
            0 <= m < s.len() && s.push(x)[i] == s[m]) || s.push(x)[i] == x by {
            if i < s.len() {
                assert(s.push(x)[i] == s[i]);
            }
        }
    }
}

/// Law: the sorted sequence is ordered by ascending key.
pub proof fn lemma_stable_sort_sorted(s: Seq<Appointment>)
    ensures
        sorted_by_start(spec_stable_sort(s)),
    decreases s.len(),
{
    if s.len() == 0 {
    } else {
        lemma_stable_sort_sorted(s.drop_last());
        lemma_insert_sorted(spec_stable_sort(s.drop_last()), s.last());
    }
}

/// Inserting adds exactly one occurrence of the element.
proof fn lemma_insert_multiset(s: Seq<Appointment>, x: Appointment)
    ensures
        spec_insert(s, x).to_multiset() == s.to_multiset().insert(x),
    decreases s.len(),
{
    broadcast use vstd::seq_lib::group_to_multiset_ensures;

    if s.len() == 0 {
        assert(seq![x] =~= Seq::<Appointment>::empty().push(x));
        assert(spec_insert(s, x).to_multiset() =~= s.to_multiset().insert(x));
    } else if spec_sort_key(x) < spec_sort_key(s.last()) {
        lemma_insert_multiset(s.drop_last(), x);
        assert(s.drop_last().push(s.last()) =~= s);
        assert(spec_insert(s.drop_last(), x).push(s.last()).to_multiset() == spec_insert(
            s.drop_last(),
            x,
        ).to_multiset().insert(s.last()));
        assert(s.drop_last().to_multiset().insert(x).insert(s.last())
            =~= s.drop_last().to_multiset().insert(s.last()).insert(x));
        assert(s.drop_last().push(s.last()).to_multiset() == s.drop_last().to_multiset().insert(
            s.last(),
        ));
    } else {
        assert(s.push(x).to_multiset() == s.to_multiset().insert(x));
    }
}

/// Law: sorting keeps exactly the same appointments, with multiplicity.
pub proof fn lemma_stable_sort_permutation(s: Seq<Appointment>)
    ensures
        spec_stable_sort(s).to_multiset() == s.to_multiset(),
    decreases s.len(),
{
    broadcast use vstd::seq_lib::group_to_multiset_ensures;

    if s.len() == 0 {
        assert(spec_stable_sort(s).to_multiset() =~= s.to_multiset());
    } else {
        lemma_stable_sort_permutation(s.drop_last());
        lemma_insert_multiset(spec_stable_sort(s.drop_last()), s.last());
        assert(s.drop_last().push(s.last()) =~= s);
        assert(s.drop_last().push(s.last()).to_multiset() == s.drop_last().to_multiset().insert(
            s.last(),
        ));
    }
}

/// The predicate selecting appointments with sort key `k`.
pub open spec fn has_key(k: i64) -> spec_fn(Appointment) -> bool {
    |a: Appointment| spec_sort_key(a) == k
}

/// Filtering commutes with pushing one element.
proof fn lemma_filter_push(s: Seq<Appointment>, x: Appointment, p: spec_fn(Appointment) -> bool)
    ensures
        s.push(x).filter(p) == if p(x) {
            s.filter(p).push(x)
        } else {
            s.filter(p)
        },
{
    assert(s.push(x).drop_last() =~= s);
    reveal_with_fuel(Seq::filter, 2);
}

/// Among appointments whose key is `k`, inserting `x` behaves like a push.
proof fn lemma_insert_filter(s: Seq<Appointment>, x: Appointment, k: i64)
    ensures
        spec_insert(s, x).filter(has_key(k)) == s.push(x).filter(has_key(k)),
    decreases s.len(),
{
    let p = has_key(k);
    if s.len() == 0 {
        assert(seq![x] =~= s.push(x));
    } else if spec_sort_key(x) < spec_sort_key(s.last()) {
        let t = s.drop_last();
        let l = s.last();
        assert(t.push(l) =~= s);
        lemma_insert_filter(t, x, k);
        lemma_filter_push(spec_insert(t, x), l, p);
        lemma_filter_push(t, x, p);
        lemma_filter_push(s, x, p);
        lemma_filter_push(t, l, p);
        assert(!(p(x) && p(l)));
        if p(l) {
            assert(spec_insert(s, x).filter(p) == spec_insert(t, x).filter(p).push(l));
            assert(spec_insert(t, x).filter(p) == t.push(x).filter(p));
            assert(t.push(x).filter(p) == t.filter(p));
            assert(s.push(x).filter(p) == s.filter(p));
            assert(s.filter(p) == t.filter(p).push(l));
        } else {
            assert(spec_insert(s, x).filter(p) == spec_insert(t, x).filter(p));
            assert(s.filter(p) == t.filter(p));
            if p(x) {
                assert(spec_insert(t, x).filter(p) == t.filter(p).push(x));
                assert(s.push(x).filter(p) == s.filter(p).push(x));
            } else {
                assert(spec_insert(t, x).filter(p) == t.filter(p));
                assert(s.push(x).filter(p) == s.filter(p));
            }
        }
    } else {
    }
}

/// Law: the sort is stable. For every key `k`, the appointments whose key
/// is `k` come out in the order they went in.
pub proof fn lemma_stable_sort_stable(s: Seq<Appointment>, k: i64)
    ensures
        spec_stable_sort(s).filter(has_key(k)) == s.filter(has_key(k)),
    decreases s.len(),
{
    let p = has_key(k);
    if s.len() == 0 {
    } else {
        lemma_stable_sort_stable(s.drop_last(), k);
        lemma_insert_filter(spec_stable_sort(s.drop_last()), s.last(), k);
        lemma_filter_push(spec_stable_sort(s.drop_last()), s.last(), p);
        lemma_filter_push(s.drop_last(), s.last(), p);
        assert(s.drop_last().push(s.last()) =~= s);
    }
}

/// Sorts the appointments in place, ascending by start time (absent start
/// counting as 0), stably: the relative order of equal keys is kept.
pub fn sort_appointments(v: &mut Vec<Appointment>)
    ensures
        final(v)@ == spec_stable_sort(old(v)@),
{
    let ghost orig = old(v)@;
    if v.len() <= 1 {
        proof {
            if orig.len() == 0 {
                assert(spec_stable_sort(orig) =~= orig);
            } else {
                assert(orig.drop_last().len() == 0);
                assert(spec_insert(spec_stable_sort(orig.drop_last()), orig.last()) =~= orig);
            }
        }
        return;
    }
    let mut i: usize = 1;
    proof {
        assert(orig.take(1).drop_last().len() == 0);
        assert(spec_insert(spec_stable_sort(orig.take(1).drop_last()), orig.take(1).last())
            =~= v@.take(1));
        assert(v@.skip(1) =~= orig.skip(1));
    }
    while i < v.len()
        invariant
            1 <= i <= v@.len(),
            v@.len() == orig.len(),
            v@.take(i as int) == spec_stable_sort(orig.take(i as int)),
            v@.skip(i as int) == orig.skip(i as int),
        decreases v@.len() - i,
    {
        let ghost pre = v@;
        let x = v.remove(i);
        let kx = sort_key(&x);
        let ghost vv = v@;
        proof {
            assert(vv =~= pre.take(i as int) + pre.skip(i as int + 1));
            assert(vv.take(i as int) =~= pre.take(i as int));
            assert(pre.skip(i as int)[0] == pre[i as int]);
            assert(x == orig[i as int]);
        }
        let mut j: usize = i;
        while j > 0 && sort_key(&v[j - 1]) > kx
            invariant
                j <= i,
                i < pre.len(),
                v@ == vv,
                i <= vv.len(),
                kx == spec_sort_key(x),
                forall|m: int| j <= m < i ==> spec_sort_key(x) < spec_sort_key(vv[m]),
            decreases j,
        {
            j -= 1;
        }
        proof {
            let s = vv.take(i as int);
            lemma_insert_at(s, x, j as int);
        }
        v.insert(j, x);
        proof {
            let s = vv.take(i as int);
            assert(v@ =~= vv.insert(j as int, x));
            assert(v@.take(i as int + 1) =~= s.take(j as int) + seq![x] + s.skip(j as int));
            assert(v@.take(i as int + 1) == spec_insert(s, x));
            assert(orig.take(i as int + 1).drop_last() =~= orig.take(i as int));
            assert(orig.take(i as int + 1).last() == orig[i as int]);
            assert(spec_stable_sort(orig.take(i as int + 1)) == spec_insert(
                spec_stable_sort(orig.take(i as int)),
                orig[i as int],
            ));
            assert(v@.skip(i as int + 1) =~= vv.skip(i as int));
            assert(vv.skip(i as int) =~= pre.skip(i as int + 1));
            assert(pre.skip(i as int + 1) =~= pre.skip(i as int).skip(1));
            assert(orig.skip(i as int + 1) =~= orig.skip(i as int).skip(1));
        }
        i += 1;
    }
    proof {
        assert(v@.take(v@.len() as int) =~= v@);
        assert(orig.take(orig.len() as int) =~= orig);
    }
}

} // verus!
