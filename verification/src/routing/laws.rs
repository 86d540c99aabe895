//! What every operation on the routing table keeps, and what one swap undoes.

use vstd::prelude::*;

use crate::routing::table::{
    distinct_handles, is_first_position, lemma_position_of_first, position_of, swap_entries,
    without_handle, lemma_position_of_absent, lemma_position_of_present, RoutingTable,
};

verus! {

/// Swapping `a` with `b` gives the same table as swapping `b` with `a`.
pub proof fn lemma_swap_symmetric(t: RoutingTable, a: u64, b: u64)
    ensures
        swap_entries(t@, a, b) == swap_entries(t@, b, a),
{
    let s = t@;
    if let (Some(p), Some(q)) = (position_of(s, a), position_of(s, b)) {
        assert(s.update(p, s[q]).update(q, s[p]) =~= s.update(q, s[p]).update(p, s[q]));
    }
}

/// A swap only moves entries around: no device is lost or duplicated, so
/// every handle occurs as often after the swap as before.
pub proof fn lemma_swap_permutes(t: RoutingTable, a: u64, b: u64)
    ensures
        swap_entries(t@, a, b).to_multiset() == t@.to_multiset(),
{
    broadcast use vstd::seq_lib::group_to_multiset_ensures;

    let s = t@;
    if let (Some(p), Some(q)) = (position_of(s, a), position_of(s, b)) {
        assert(is_first_position(s, a, p));
        assert(is_first_position(s, b, q));
        let ms = s.to_multiset();
        let s1 = s.update(p, s[q]);
        assert(s1[q] == s[q]);
        assert(s.contains(s[p]));
        assert(ms.count(s[p]) > 0);
        assert(s1.to_multiset() == ms.insert(s[q]).remove(s[p]));
        assert(s1.update(q, s[p]).to_multiset() == s1.to_multiset().insert(s[p]).remove(s[q]));
        assert(ms.insert(s[q]).remove(s[p]).insert(s[p]).remove(s[q]) =~= ms);
    }
}

/// A swap never empties a position or fills an empty one: a hot swap never
/// leaves an active slot without a device.
pub proof fn lemma_swap_keeps_occupancy(t: RoutingTable, a: u64, b: u64)
    ensures
        forall|i: int|
            0 <= i < t@.len() ==> (#[trigger] swap_entries(t@, a, b)[i] is Some <==> t@[i] is Some),
{
    let s = t@;
    if let (Some(p), Some(q)) = (position_of(s, a), position_of(s, b)) {
        assert(is_first_position(s, a, p));
        assert(is_first_position(s, b, q));
    }
}

/// In a table where no handle occupies two positions, swapping two present
/// handles puts each where the other was.
pub proof fn lemma_swap_exchanges(t: RoutingTable, a: u64, b: u64)
    requires
        distinct_handles(t@),
        position_of(t@, a) is Some,
        position_of(t@, b) is Some,
    ensures
        position_of(swap_entries(t@, a, b), a) == position_of(t@, b),
        position_of(swap_entries(t@, a, b), b) == position_of(t@, a),
{
    let s = t@;
    let p = position_of(s, a)->0;
    let q = position_of(s, b)->0;
    assert(is_first_position(s, a, p));
    assert(is_first_position(s, b, q));
    let r = swap_entries(s, a, b);
    if p == q {
        assert(r =~= s);
    } else {
        assert(a != b);
        assert forall|k: int| 0 <= k < q implies r[k] != Some(a) by {
            if k != p {
                assert(s[k] != s[p]);
            }
        }
        lemma_position_of_first(r, a, q);
        assert forall|k: int| 0 <= k < p implies r[k] != Some(b) by {
            if k != q {
                assert(s[k] != s[q]);
            }
        }
        lemma_position_of_first(r, b, p);
    }
}

/// A swap keeps a table free of duplicate handles.
pub proof fn lemma_swap_keeps_distinct(t: RoutingTable, a: u64, b: u64)
    requires
        distinct_handles(t@),
    ensures
        distinct_handles(swap_entries(t@, a, b)),
{
    let s = t@;
    if let (Some(p), Some(q)) = (position_of(s, a), position_of(s, b)) {
        assert(is_first_position(s, a, p));
        assert(is_first_position(s, b, q));
        let r = swap_entries(s, a, b);
        let sigma = |i: int| if i == p { q } else if i == q { p } else { i };
        assert forall|i: int| 0 <= i < r.len() implies r[i] == s[sigma(i)] by {}
        assert forall|i: int, j: int|
            0 <= i < r.len() && 0 <= j < r.len() && i != j && r[i] is Some implies r[i] != r[j] by {
            assert(r[i] == s[sigma(i)]);
            assert(r[j] == s[sigma(j)]);
            assert(sigma(i) != sigma(j));
        }
    }
}

/// In a table where no handle occupies two positions, swapping the same two
/// handles twice restores the table.
pub proof fn lemma_swap_twice_restores(t: RoutingTable, a: u64, b: u64)
    requires
        distinct_handles(t@),
    ensures
        swap_entries(swap_entries(t@, a, b), a, b) == t@,
{
    let s = t@;
    if let (Some(p), Some(q)) = (position_of(s, a), position_of(s, b)) {
        lemma_swap_exchanges(t, a, b);
        assert(is_first_position(s, a, p));
        assert(is_first_position(s, b, q));
        let r = swap_entries(s, a, b);
        assert(r.update(q, r[p]).update(p, r[q]) =~= s);
    }
}

/// Removing a handle twice is the same as removing it once.
pub proof fn lemma_remove_idempotent(t: RoutingTable, h: u64)
    ensures
        without_handle(without_handle(t@, h), h) == without_handle(t@, h),
{
    assert(without_handle(without_handle(t@, h), h) =~= without_handle(t@, h));
}

/// Removing a handle keeps a table free of duplicate handles, and leaves
/// every other handle where it was.
pub proof fn lemma_remove_keeps_others(t: RoutingTable, h: u64, other: u64)
    requires
        other != h,
    ensures
        distinct_handles(t@) ==> distinct_handles(without_handle(t@, h)),
        position_of(without_handle(t@, h), other) == position_of(t@, other),
{
    let s = t@;
    let r = without_handle(s, h);
    if let Some(p) = position_of(s, other) {
        assert(is_first_position(s, other, p));
        lemma_position_of_first(r, other, p);
    } else {
        assert forall|q: int| 0 <= q < r.len() implies r[q] != Some(other) by {
            if r[q] == Some(other) {
                lemma_position_of_present(s, other, q);
            }
        }
        lemma_position_of_absent(r, other);
    }
    if distinct_handles(s) {
        assert forall|i: int, j: int|
            0 <= i < r.len() && 0 <= j < r.len() && i != j && r[i] is Some implies r[i] != r[j] by {
            assert(s[i] != s[j]);
        }
    }
}

} // verus!
