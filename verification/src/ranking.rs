//! Ranking of the entities near a base by their distance to a reference point.
//!
//! A ranking keeps the entities that a [`Criteria`] admits and lists them
//! nearest first. Entities that are equally far from the reference point keep
//! the order in which they were given.

use vstd::prelude::*;
use crate::entity::Entity;
use crate::geometry::{closer_than, dist_sq, lemma_dist_sq_bounds, Point, Utils};
use crate::select::{
    is_nearest, key, lemma_nearest_is_unique, lemma_nothing_to_find, nearest_match, precedes,
};

verus! {

/// Which entities a ranking keeps.
#[derive(Debug, Clone, Copy)]
pub struct Criteria {
    /// The base that is watched.
    pub base: Point,
    /// Only entities strictly nearer to `base` than this are kept.
    pub radius: u32,
    /// An identity that is left out, if any.
    pub exclude: Option<i32>,
    /// Whether only entities heading toward a base are kept.
    pub heading_only: bool,
}

impl Criteria {
    /// The entity `e` is kept.
    pub open spec fn admits(self, e: Entity) -> bool {
        &&& closer_than(self.base, e.pos(), self.radius)
        &&& self.exclude != Some(e.id)
        &&& self.heading_only ==> e.near_base == 1
    }

    /// The condition of being kept.
    pub open spec fn admitted(self) -> spec_fn(Entity) -> bool {
        |e: Entity| self.admits(e)
    }

    /// Decides whether the entity `e` is kept.
    pub fn accepts(&self, e: &Entity) -> (b: bool)
        ensures
            b == self.admits(*e),
    {
        let claimed = match self.exclude {
            Some(id) => e.id == id,
            None => false,
        };
        Utils::closer_than(self.base, e.position(), self.radius) && !claimed && (!self.heading_only
            || e.near_base == 1)
    }
}

/// `order` lists exactly the indices below `n` of the entities of `s` that
/// `c` admits, each before all those that it precedes: nearest to `reference`
/// first, earlier first among equally near ones.
pub open spec fn is_rank_order(
    order: Seq<int>,
    s: Seq<Entity>,
    reference: Point,
    c: Criteria,
    n: int,
) -> bool {
    &&& forall|a: int|
        0 <= a < order.len() ==> 0 <= #[trigger] order[a] < n && c.admits(s[order[a]])
    &&& forall|j: int| 0 <= j < n && c.admits(s[j]) ==> #[trigger] order.contains(j)
    &&& forall|a: int, b: int|
        0 <= a < b < order.len() ==> precedes(s, reference, #[trigger] order[a], #[trigger] order[b])
}

/// The rank order of `s`: the indices of the entities that `c` admits,
/// nearest to `reference` first, earlier first among equally near ones.
pub open spec fn rank_order(s: Seq<Entity>, reference: Point, c: Criteria) -> Seq<int> {
    choose|order: Seq<int>| is_rank_order(order, s, reference, c, s.len() as int)
}

/// The entities at the indices `order`, each with its squared distance to
/// `reference`.
pub open spec fn entries(s: Seq<Entity>, reference: Point, order: Seq<int>) -> Seq<(u128, Entity)> {
    Seq::new(order.len(), |a: int| (key(s, reference, order[a]) as u128, s[order[a]]))
}

/// The ranking of `s`: the admitted entities in rank order, each with its
/// squared distance to `reference`.
pub open spec fn ranking(s: Seq<Entity>, reference: Point, c: Criteria) -> Seq<(u128, Entity)> {
    entries(s, reference, rank_order(s, reference, c))
}

/// The entities of a ranking, without their distances.
pub open spec fn ranked_entities(r: Seq<(u128, Entity)>) -> Seq<Entity> {
    Seq::new(r.len(), |a: int| r[a].1)
}

/// `slot` parts `order` into the entries that are not farther than `k`, in
/// front, and those that are, behind.
spec fn parts_at(
    s: Seq<Entity>,
    reference: Point,
    order: Seq<int>,
    k: int,
    slot: int,
) -> bool {
    &&& 0 <= slot <= order.len()
    &&& forall|a: int| 0 <= a < slot ==> key(s, reference, #[trigger] order[a]) <= k
    &&& forall|a: int| slot <= a < order.len() ==> key(s, reference, #[trigger] order[a]) > k
}

/// Entering a new last index where the farther entries begin keeps a rank
/// order a rank order.
proof fn lemma_insert_keeps_order(
    head: Seq<int>,
    s: Seq<Entity>,
    reference: Point,
    c: Criteria,
    n: int,
    slot: int,
)
    requires
        1 <= n <= s.len(),
        is_rank_order(head, s, reference, c, n - 1),
        c.admits(s[n - 1]),
        parts_at(s, reference, head, key(s, reference, n - 1), slot),
    ensures
        is_rank_order(head.insert(slot, n - 1), s, reference, c, n),
{
    let j = n - 1;
    let p = slot;
    let next = head.insert(p, j);
    head.insert_ensures(p, j);
    assert forall|a: int| 0 <= a < next.len() implies 0 <= #[trigger] next[a] < n && c.admits(
        s[next[a]],
    ) by {
        if a < p {
            assert(next[a] == head[a]);
        } else if a > p {
            assert(next[(a - 1) + 1] == head[a - 1]);
        }
    }
    assert forall|i: int| 0 <= i < n && c.admits(s[i]) implies #[trigger] next.contains(i) by {
        if i == j {
            assert(next[p] == i);
        } else {
            assert(head.contains(i));
            let a = choose|a: int| 0 <= a < head.len() && head[a] == i;
            if a < p {
                assert(next[a] == i);
            } else {
                assert(next[a + 1] == i);
            }
        }
    }
    assert forall|a: int, b: int| 0 <= a < b < next.len() implies precedes(
        s,
        reference,
        #[trigger] next[a],
        #[trigger] next[b],
    ) by {
        let ia = if a < p {
            a
        } else {
            a - 1
        };
        let ib = if b < p {
            b
        } else {
            b - 1
        };
        if a != p {
            assert(next[a] == head[ia]) by {
                if a > p {
                    assert(next[(a - 1) + 1] == head[a - 1]);
                }
            }
        }
        if b != p {
            assert(next[b] == head[ib]) by {
                if b > p {
                    assert(next[(b - 1) + 1] == head[b - 1]);
                }
            }
        }
        if a != p && b != p {
            assert(precedes(s, reference, head[ia], head[ib]));
        }
    }
}

/// A rank order that does not reach the last entity is one of the longer
/// prefix too when that entity is not admitted.
proof fn lemma_skip_keeps_order(
    head: Seq<int>,
    s: Seq<Entity>,
    reference: Point,
    c: Criteria,
    n: int,
)
    requires
        1 <= n <= s.len(),
        is_rank_order(head, s, reference, c, n - 1),
        !c.admits(s[n - 1]),
    ensures
        is_rank_order(head, s, reference, c, n),
{
    assert forall|j: int| 0 <= j < n && c.admits(s[j]) implies #[trigger] head.contains(j) by {
        assert(j < n - 1);
    }
}

/// In a rank order, the entries that are not farther than `k` stand in front
/// of those that are: some slot parts them.
proof fn lemma_find_slot(
    order: Seq<int>,
    s: Seq<Entity>,
    reference: Point,
    c: Criteria,
    n: int,
    k: int,
    m: nat,
) -> (slot: int)
    requires
        is_rank_order(order, s, reference, c, n),
        m <= order.len(),
        forall|a: int| m <= a < order.len() ==> key(s, reference, #[trigger] order[a]) > k,
    ensures
        parts_at(s, reference, order, k, slot),
    decreases m,
{
    if m == 0 {
        0
    } else if key(s, reference, order[m - 1]) <= k {
        assert forall|a: int| 0 <= a < m implies key(s, reference, #[trigger] order[a]) <= k by {
            if a < m - 1 {
                assert(precedes(s, reference, order[a], order[m - 1]));
            }
        }
        m as int
    } else {
        lemma_find_slot(order, s, reference, c, n, k, (m - 1) as nat)
    }
}

/// Every prefix of a sequence has a rank order.
proof fn lemma_order_exists(
    s: Seq<Entity>,
    reference: Point,
    c: Criteria,
    n: nat,
) -> (order: Seq<int>)
    requires
        n <= s.len(),
    ensures
        is_rank_order(order, s, reference, c, n as int),
    decreases n,
{
    if n == 0 {
        Seq::empty()
    } else {
        let head = lemma_order_exists(s, reference, c, (n - 1) as nat);
        if c.admits(s[n - 1]) {
            let k = key(s, reference, n - 1);
            let slot = lemma_find_slot(head, s, reference, c, n - 1, k, head.len());
            lemma_insert_keeps_order(head, s, reference, c, n as int, slot);
            head.insert(slot, n - 1)
        } else {
            lemma_skip_keeps_order(head, s, reference, c, n as int);
            head
        }
    }
}

/// The rank order of `s` lists exactly the admitted entities of `s`, nearest
/// first and earlier first among equally near ones.
pub proof fn lemma_rank_order(s: Seq<Entity>, reference: Point, c: Criteria)
    ensures
        is_rank_order(rank_order(s, reference, c), s, reference, c, s.len() as int),
{
    let order = lemma_order_exists(s, reference, c, s.len());
    assert(is_rank_order(order, s, reference, c, s.len() as int));
}

proof fn lemma_orders_agree(
    o1: Seq<int>,
    o2: Seq<int>,
    s: Seq<Entity>,
    reference: Point,
    c: Criteria,
    n: int,
    m: nat,
)
    requires
        is_rank_order(o1, s, reference, c, n),
        is_rank_order(o2, s, reference, c, n),
        m <= o1.len(),
        m <= o2.len(),
    ensures
        forall|i: int| 0 <= i < m ==> o1[i] == o2[i],
    decreases m,
{
    if m > 0 {
        lemma_orders_agree(o1, o2, s, reference, c, n, (m - 1) as nat);
        let a = m - 1;
        let x = o1[a];
        let y = o2[a];
        assert(o2.contains(x));
        assert(o1.contains(y));
        let b = choose|b: int| 0 <= b < o2.len() && o2[b] == x;
        let d = choose|d: int| 0 <= d < o1.len() && o1[d] == y;
        if b < a {
            assert(precedes(s, reference, o1[b], o1[a]));
        }
        if d < a {
            assert(precedes(s, reference, o2[d], o2[a]));
        }
        if b > a {
            assert(precedes(s, reference, o2[a], o2[b]));
            if d > a {
                assert(precedes(s, reference, o1[a], o1[d]));
            }
        }
    }
}

proof fn lemma_order_not_longer(
    o1: Seq<int>,
    o2: Seq<int>,
    s: Seq<Entity>,
    reference: Point,
    c: Criteria,
    n: int,
)
    requires
        is_rank_order(o1, s, reference, c, n),
        is_rank_order(o2, s, reference, c, n),
    ensures
        o2.len() <= o1.len(),
{
    if o2.len() > o1.len() {
        let a = o1.len() as int;
        lemma_orders_agree(o1, o2, s, reference, c, n, o1.len());
        assert(o1.contains(o2[a]));
        let d = choose|d: int| 0 <= d < o1.len() && o1[d] == o2[a];
        assert(precedes(s, reference, o2[d], o2[a]));
    }
}

/// There is only one rank order: two sequences that both list exactly the
/// admitted entities below `n`, nearest first and earlier first among equally
/// near ones, are the same.
pub proof fn lemma_rank_order_unique(
    o1: Seq<int>,
    o2: Seq<int>,
    s: Seq<Entity>,
    reference: Point,
    c: Criteria,
    n: int,
)
    requires
        is_rank_order(o1, s, reference, c, n),
        is_rank_order(o2, s, reference, c, n),
    ensures
        o1 == o2,
{
    lemma_order_not_longer(o1, o2, s, reference, c, n);
    lemma_order_not_longer(o2, o1, s, reference, c, n);
    lemma_orders_agree(o1, o2, s, reference, c, n, o1.len());
    assert(o1 =~= o2);
}

/// Whatever lists exactly the admitted entities of `s`, nearest first and
/// earlier first among equally near ones, is the rank order of `s`.
pub proof fn lemma_rank_order_is(order: Seq<int>, s: Seq<Entity>, reference: Point, c: Criteria)
    requires
        is_rank_order(order, s, reference, c, s.len() as int),
    ensures
        rank_order(s, reference, c) == order,
{
    lemma_rank_order_unique(
        rank_order(s, reference, c),
        order,
        s,
        reference,
        c,
        s.len() as int,
    );
}

/// A ranking ascends by distance to the reference point, and entities at the
/// same distance stand in the order in which they were given.
pub proof fn lemma_ranking_sorted(s: Seq<Entity>, reference: Point, c: Criteria)
    ensures
        forall|a: int, b: int|
            0 <= a < b < ranking(s, reference, c).len() ==> (#[trigger] ranking(
                s,
                reference,
                c,
            )[a]).0 <= (#[trigger] ranking(s, reference, c)[b]).0,
        forall|a: int, b: int|
            0 <= a < b < rank_order(s, reference, c).len() && key(
                s,
                reference,
                #[trigger] rank_order(s, reference, c)[a],
            ) == key(s, reference, #[trigger] rank_order(s, reference, c)[b]) ==> rank_order(
                s,
                reference,
                c,
            )[a] < rank_order(s, reference, c)[b],
{
    lemma_rank_order(s, reference, c);
    let order = rank_order(s, reference, c);
    let r = ranking(s, reference, c);
    assert forall|a: int, b: int| 0 <= a < b < r.len() implies (#[trigger] r[a]).0 <= (
    #[trigger] r[b]).0 by {
        lemma_dist_sq_bounds(reference, s[order[a]].pos());
        lemma_dist_sq_bounds(reference, s[order[b]].pos());
        assert(precedes(s, reference, order[a], order[b]));
    }
    assert forall|a: int, b: int|
        0 <= a < b < order.len() && key(s, reference, #[trigger] order[a]) == key(
            s,
            reference,
            #[trigger] order[b],
        ) implies order[a] < order[b] by {
        assert(precedes(s, reference, order[a], order[b]));
    }
}

/// Ranking is idempotent: ranking the entities of a ranking again, by the same
/// reference point and criteria, gives the same ranking.
pub proof fn lemma_ranking_idempotent(s: Seq<Entity>, reference: Point, c: Criteria)
    ensures
        ranking(ranked_entities(ranking(s, reference, c)), reference, c) == ranking(
            s,
            reference,
            c,
        ),
{
    lemma_rank_order(s, reference, c);
    let order = rank_order(s, reference, c);
    let t = ranked_entities(ranking(s, reference, c));
    let same = Seq::new(t.len(), |a: int| a);
    assert forall|a: int, b: int| 0 <= a < b < same.len() implies precedes(
        t,
        reference,
        #[trigger] same[a],
        #[trigger] same[b],
    ) by {
        assert(precedes(s, reference, order[a], order[b]));
    }
    assert forall|j: int| 0 <= j < t.len() && c.admits(t[j]) implies #[trigger] same.contains(
        j,
    ) by {
        assert(same[j] == j);
    }
    assert(is_rank_order(same, t, reference, c, t.len() as int));
    lemma_rank_order_is(same, t, reference, c);
    assert(ranking(t, reference, c) =~= ranking(s, reference, c));
}

/// The radius is a strict bound: an entity that is exactly `radius` away from
/// the base, or farther, is in no ranking.
pub proof fn lemma_radius_is_strict(s: Seq<Entity>, reference: Point, c: Criteria, j: int)
    requires
        0 <= j < s.len(),
        dist_sq(c.base, s[j].pos()) >= c.radius * c.radius,
    ensures
        !rank_order(s, reference, c).contains(j),
        forall|a: int|
            0 <= a < ranking(s, reference, c).len() ==> closer_than(
                c.base,
                (#[trigger] ranking(s, reference, c)[a]).1.pos(),
                c.radius,
            ),
{
    lemma_rank_order(s, reference, c);
    let order = rank_order(s, reference, c);
    if order.contains(j) {
        let a = choose|a: int| 0 <= a < order.len() && order[a] == j;
        assert(c.admits(s[order[a]]));
    }
    assert forall|a: int| 0 <= a < ranking(s, reference, c).len() implies closer_than(
        c.base,
        (#[trigger] ranking(s, reference, c)[a]).1.pos(),
        c.radius,
    ) by {
        assert(c.admits(s[order[a]]));
    }
}

/// The head of a rank order is the admitted entity nearest to the reference
/// point, the earliest of them if several are equally near; a rank order is
/// empty exactly when no entity is admitted.
pub proof fn lemma_head_is_nearest(s: Seq<Entity>, reference: Point, c: Criteria)
    ensures
        match nearest_match(s, c.admitted(), reference) {
            Some(j) => rank_order(s, reference, c).len() > 0 && rank_order(s, reference, c)[0]
                == j,
            None => rank_order(s, reference, c).len() == 0,
        },
{
    lemma_rank_order(s, reference, c);
    let order = rank_order(s, reference, c);
    if order.len() == 0 {
        assert forall|j: int| 0 <= j < s.len() implies !c.admitted()(#[trigger] s[j]) by {
            if c.admits(s[j]) {
                assert(order.contains(j));
            }
        }
        lemma_nothing_to_find(s, c.admitted(), reference);
    } else {
        let head = order[0];
        assert(c.admits(s[head]));
        assert forall|j: int| 0 <= j < s.len() && c.admitted()(#[trigger] s[j]) implies !precedes(
            s,
            reference,
            j,
            head,
        ) by {
            assert(order.contains(j));
            let a = choose|a: int| 0 <= a < order.len() && order[a] == j;
            if a > 0 {
                assert(precedes(s, reference, order[0], order[a]));
            }
        }
        assert(is_nearest(s, c.admitted(), reference, s.len() as int, head));
        lemma_nearest_is_unique(s, c.admitted(), reference, head);
    }
}

/// Ranks the entities that `criteria` admits by their distance to `reference`,
/// nearest first. Entities at the same distance stay in the order of
/// `entities`. Each comes with its squared distance to `reference`.
pub fn rank_near_base(
    reference: Point,
    entities: &Vec<Entity>,
    criteria: Criteria,
) -> (ranked: Vec<(u128, Entity)>)
    ensures
        ranked@ == ranking(entities@, reference, criteria),
        is_rank_order(
            rank_order(entities@, reference, criteria),
            entities@,
            reference,
            criteria,
            entities@.len() as int,
        ),
        forall|a: int|
            0 <= a < ranked@.len() ==> criteria.admits((#[trigger] ranked@[a]).1) && ranked@[a].0
                == dist_sq(reference, ranked@[a].1.pos()),
        forall|a: int, b: int|
            0 <= a < b < ranked@.len() ==> (#[trigger] ranked@[a]).0 <= (#[trigger] ranked@[b]).0,
{
    let mut ranked: Vec<(u128, Entity)> = Vec::new();
    let ghost s = entities@;
    let ghost mut order: Seq<int> = Seq::empty();
    let mut i: usize = 0;
    while i < entities.len()
        invariant
            0 <= i <= entities.len(),
            s == entities@,
            is_rank_order(order, s, reference, criteria, i as int),
            ranked@ == entries(s, reference, order),
        decreases entities.len() - i,
    {
        let e = entities[i];
        if criteria.accepts(&e) {
            let k = Utils::distance_sq(reference, e.position());
            let mut slot: usize = ranked.len();
            while slot > 0 && ranked[slot - 1].0 > k
                invariant
                    0 <= slot <= ranked.len(),
                    ranked@ == entries(s, reference, order),
                    forall|a: int|
                        slot <= a < order.len() ==> key(s, reference, #[trigger] order[a]) > k,
                decreases slot,
            {
                proof {
                    lemma_dist_sq_bounds(reference, s[order[slot - 1]].pos());
                    assert(ranked@[slot - 1].0 == key(s, reference, order[slot - 1]));
                }
                slot -= 1;
            }
            proof {
                if slot > 0 {
                    lemma_dist_sq_bounds(reference, s[order[slot - 1]].pos());
                    assert(ranked@[slot - 1].0 == key(s, reference, order[slot - 1]));
                    assert forall|a: int| 0 <= a < slot implies key(
                        s,
                        reference,
                        #[trigger] order[a],
                    ) <= k by {
                        if a < slot - 1 {
                            assert(precedes(s, reference, order[a], order[slot - 1]));
                        }
                    }
                }
                lemma_insert_keeps_order(order, s, reference, criteria, i + 1, slot as int);
                lemma_dist_sq_bounds(reference, s[i as int].pos());
                assert(entries(s, reference, order).insert(slot as int, (k, e)) =~= entries(
                    s,
                    reference,
                    order.insert(slot as int, i as int),
                ));
                order = order.insert(slot as int, i as int);
            }
            ranked.insert(slot, (k, e));
        } else {
            proof {
                lemma_skip_keeps_order(order, s, reference, criteria, i + 1);
            }
        }
        i += 1;
    }
    proof {
        lemma_rank_order_is(order, s, reference, criteria);
        assert forall|a: int| 0 <= a < ranked@.len() implies criteria.admits(
            (#[trigger] ranked@[a]).1,
        ) && ranked@[a].0 == dist_sq(reference, ranked@[a].1.pos()) by {
            lemma_dist_sq_bounds(reference, s[order[a]].pos());
        }
        assert forall|a: int, b: int| 0 <= a < b < ranked@.len() implies (#[trigger] ranked@[a]).0
            <= (#[trigger] ranked@[b]).0 by {
            lemma_dist_sq_bounds(reference, s[order[a]].pos());
            lemma_dist_sq_bounds(reference, s[order[b]].pos());
            assert(precedes(s, reference, order[a], order[b]));
        }
    }
    ranked
}

} // verus!
