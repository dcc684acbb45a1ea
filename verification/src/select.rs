//! Picking one entity out of a list: the first or the last that meets a
//! condition, or the one nearest to a point among those that meet it.

use vstd::prelude::*;
use crate::entity::Entity;
use crate::geometry::{dist_sq, Point};

verus! {

/// The squared distance from `reference` to the entity at index `j` of `s`.
pub open spec fn key(s: Seq<Entity>, reference: Point, j: int) -> int {
    dist_sq(reference, s[j].pos())
}

/// The entity at index `j` is ranked before the one at index `k`: it is nearer
/// to `reference`, or as near and earlier in `s`.
pub open spec fn precedes(s: Seq<Entity>, reference: Point, j: int, k: int) -> bool {
    key(s, reference, j) < key(s, reference, k) || (key(s, reference, j) == key(s, reference, k)
        && j < k)
}

/// No entity of `s` below index `n` meets `p`.
pub open spec fn none_below(s: Seq<Entity>, p: spec_fn(Entity) -> bool, n: int) -> bool {
    forall|i: int| 0 <= i < n ==> !p(#[trigger] s[i])
}

/// Below index `n`, the entity at `j` is the first that meets `p`.
pub open spec fn is_first(s: Seq<Entity>, p: spec_fn(Entity) -> bool, n: int, j: int) -> bool {
    &&& 0 <= j < n
    &&& p(s[j])
    &&& forall|i: int| 0 <= i < j ==> !p(#[trigger] s[i])
}

/// Below index `n`, the entity at `j` is the last that meets `p`.
pub open spec fn is_last(s: Seq<Entity>, p: spec_fn(Entity) -> bool, n: int, j: int) -> bool {
    &&& 0 <= j < n
    &&& p(s[j])
    &&& forall|i: int| j < i < n ==> !p(#[trigger] s[i])
}

/// Below index `n`, the entity at `j` meets `p`, and none that meets `p` is
/// nearer to `target`, or as near and earlier.
pub open spec fn is_nearest(
    s: Seq<Entity>,
    p: spec_fn(Entity) -> bool,
    target: Point,
    n: int,
    j: int,
) -> bool {
    &&& 0 <= j < n
    &&& p(s[j])
    &&& forall|i: int| 0 <= i < n && p(#[trigger] s[i]) ==> !precedes(s, target, i, j)
}

/// The index of the first entity of `s` that meets `p`, if any does.
pub open spec fn first_match(s: Seq<Entity>, p: spec_fn(Entity) -> bool) -> Option<int> {
    if exists|j: int| is_first(s, p, s.len() as int, j) {
        Some(choose|j: int| is_first(s, p, s.len() as int, j))
    } else {
        None
    }
}

/// The index of the last entity of `s` that meets `p`, if any does.
pub open spec fn last_match(s: Seq<Entity>, p: spec_fn(Entity) -> bool) -> Option<int> {
    if exists|j: int| is_last(s, p, s.len() as int, j) {
        Some(choose|j: int| is_last(s, p, s.len() as int, j))
    } else {
        None
    }
}

/// The index of the entity of `s` nearest to `target` among those that meet
/// `p`, the earliest of them if several are equally near; none if none meets
/// `p`.
pub open spec fn nearest_match(
    s: Seq<Entity>,
    p: spec_fn(Entity) -> bool,
    target: Point,
) -> Option<int> {
    if exists|j: int| is_nearest(s, p, target, s.len() as int, j) {
        Some(choose|j: int| is_nearest(s, p, target, s.len() as int, j))
    } else {
        None
    }
}

/// Among the entities below `n`, either none meets `p` or one is the first,
/// one the last and one the nearest to `target` to do so.
proof fn lemma_some_or_none(s: Seq<Entity>, p: spec_fn(Entity) -> bool, target: Point, n: nat)
    ensures
        none_below(s, p, n as int) || {
            &&& exists|j: int| is_first(s, p, n as int, j)
            &&& exists|j: int| is_last(s, p, n as int, j)
            &&& exists|j: int| is_nearest(s, p, target, n as int, j)
        },
    decreases n,
{
    if n > 0 {
        let m = (n - 1) as nat;
        lemma_some_or_none(s, p, target, m);
        if none_below(s, p, m as int) {
            if p(s[m as int]) {
                assert(is_first(s, p, n as int, m as int));
                assert(is_last(s, p, n as int, m as int));
                assert(is_nearest(s, p, target, n as int, m as int));
            }
        } else {
            let f = choose|j: int| is_first(s, p, m as int, j);
            let l = choose|j: int| is_last(s, p, m as int, j);
            let b = choose|j: int| is_nearest(s, p, target, m as int, j);
            assert(is_first(s, p, n as int, f));
            if p(s[m as int]) {
                assert(is_last(s, p, n as int, m as int));
                if precedes(s, target, m as int, b) {
                    assert(is_nearest(s, p, target, n as int, m as int));
                } else {
                    assert(is_nearest(s, p, target, n as int, b));
                }
            } else {
                assert(is_last(s, p, n as int, l));
                assert(is_nearest(s, p, target, n as int, b));
            }
        }
    }
}

/// What `first_match` finds is the first entity that meets the condition;
/// it finds nothing only where nothing meets it.
pub proof fn lemma_first_match(s: Seq<Entity>, p: spec_fn(Entity) -> bool)
    ensures
        match first_match(s, p) {
            Some(j) => is_first(s, p, s.len() as int, j),
            None => none_below(s, p, s.len() as int),
        },
{
    lemma_some_or_none(s, p, (0, 0), s.len());
}

/// What `last_match` finds is the last entity that meets the condition; it
/// finds nothing only where nothing meets it.
pub proof fn lemma_last_match(s: Seq<Entity>, p: spec_fn(Entity) -> bool)
    ensures
        match last_match(s, p) {
            Some(j) => is_last(s, p, s.len() as int, j),
            None => none_below(s, p, s.len() as int),
        },
{
    lemma_some_or_none(s, p, (0, 0), s.len());
}

/// What `nearest_match` finds meets the condition and is nearest to the
/// target; it finds nothing only where nothing meets the condition.
pub proof fn lemma_nearest_match(s: Seq<Entity>, p: spec_fn(Entity) -> bool, target: Point)
    ensures
        match nearest_match(s, p, target) {
            Some(j) => is_nearest(s, p, target, s.len() as int, j),
            None => none_below(s, p, s.len() as int),
        },
{
    lemma_some_or_none(s, p, target, s.len());
}

/// The first entity that meets the condition is the one that `first_match`
/// finds: there is no other first.
pub proof fn lemma_first_is_unique(s: Seq<Entity>, p: spec_fn(Entity) -> bool, j: int)
    requires
        is_first(s, p, s.len() as int, j),
    ensures
        first_match(s, p) == Some(j),
{
    let k = choose|k: int| is_first(s, p, s.len() as int, k);
    assert(k == j) by {
        if k < j {
            assert(!p(s[k]));
        } else if j < k {
            assert(!p(s[j]));
        }
    }
}

/// The last entity that meets the condition is the one that `last_match`
/// finds: there is no other last.
pub proof fn lemma_last_is_unique(s: Seq<Entity>, p: spec_fn(Entity) -> bool, j: int)
    requires
        is_last(s, p, s.len() as int, j),
    ensures
        last_match(s, p) == Some(j),
{
    let k = choose|k: int| is_last(s, p, s.len() as int, k);
    assert(k == j) by {
        if k < j {
            assert(!p(s[j]));
        } else if j < k {
            assert(!p(s[k]));
        }
    }
}

/// The nearest entity that meets the condition is the one that
/// `nearest_match` finds: there is no other nearest.
pub proof fn lemma_nearest_is_unique(
    s: Seq<Entity>,
    p: spec_fn(Entity) -> bool,
    target: Point,
    j: int,
)
    requires
        is_nearest(s, p, target, s.len() as int, j),
    ensures
        nearest_match(s, p, target) == Some(j),
{
    let k = choose|k: int| is_nearest(s, p, target, s.len() as int, k);
    assert(k == j) by {
        assert(!precedes(s, target, k, j));
        assert(!precedes(s, target, j, k));
    }
}

/// Where nothing meets the condition, nothing is found.
pub proof fn lemma_nothing_to_find(s: Seq<Entity>, p: spec_fn(Entity) -> bool, target: Point)
    requires
        none_below(s, p, s.len() as int),
    ensures
        first_match(s, p) is None,
        last_match(s, p) is None,
        nearest_match(s, p, target) is None,
{
    if exists|j: int| is_first(s, p, s.len() as int, j) {
        let j = choose|j: int| is_first(s, p, s.len() as int, j);
        assert(!p(s[j]));
    }
    if exists|j: int| is_last(s, p, s.len() as int, j) {
        let j = choose|j: int| is_last(s, p, s.len() as int, j);
        assert(!p(s[j]));
    }
    if exists|j: int| is_nearest(s, p, target, s.len() as int, j) {
        let j = choose|j: int| is_nearest(s, p, target, s.len() as int, j);
        assert(!p(s[j]));
    }
}

} // verus!
