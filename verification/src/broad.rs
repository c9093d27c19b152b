//! Broad-phase candidate generation: a sorted, deduplicated list of
//! canonical entity pairs whose bounds overlap.
//!
//! The default, index-driven algorithm queries the bounding-volume
//! snapshot once per dirty entity; settled pairs are never re-examined,
//! which is correct because the snapshot already reflects their latest
//! bounds. An injected alternative computes pairs from the full current
//! value set directly, with no dirty filtering.

use vstd::prelude::*;
use crate::collide::{CollisionShape, EntityPair};
use crate::dbvt::{DynamicBoundingVolumeTree, TreeValue};
use crate::math::Aabb;
use crate::physics::BodyPose;

verus! {

/// What the collision pass reads about one entity: its id, pose and
/// collidable shape.
#[derive(Clone, Copy, PartialEq, Eq, Structural, Debug)]
pub struct EntityRecord {
    pub id: u64,
    pub pose: BodyPose,
    pub shape: CollisionShape,
}

/// Strictly increasing in pair order: sorted with no duplicates.
pub open spec fn sorted_strict(s: Seq<EntityPair>) -> bool {
    forall|i: int, j: int| 0 <= i < j < s.len() ==> #[trigger] s[i].lt_spec(#[trigger] s[j])
}

/// A strictly sorted list holds any pair at most once.
pub proof fn lemma_sorted_strict_distinct(s: Seq<EntityPair>)
    requires
        sorted_strict(s),
    ensures
        forall|i: int, j: int|
            (0 <= i < s.len() && 0 <= j < s.len() && s[i] == s[j]) ==> i == j,
{
    assert forall|i: int, j: int|
        (0 <= i < s.len() && 0 <= j < s.len() && s[i] == s[j]) implies i == j by {
        if i < j {
            assert(s[i].lt_spec(s[j]));
        }
        if j < i {
            assert(s[j].lt_spec(s[i]));
        }
    }
}

/// The candidate pairs one dirty entity contributes against the index
/// snapshot: a canonical pair for every snapshot entry with a different
/// id whose bound intersects the entity's cached bound.
pub open spec fn cand_from_entity(e: EntityRecord, idx: Seq<TreeValue>, p: EntityPair) -> bool {
    e.pose.dirty && exists|j: int|
        0 <= j < idx.len() && (#[trigger] idx[j]).id != e.id && Aabb::intersects_spec(
            idx[j].bound,
            e.shape.bound,
        ) && p == EntityPair::canonical_of(e.id, idx[j].id)
}

/// A pair is a default-broad-phase candidate when some dirty entity of
/// the record set contributes it against the index snapshot.
pub open spec fn dbvt_candidate(es: Seq<EntityRecord>, idx: Seq<TreeValue>, p: EntityPair) -> bool {
    exists|i: int| 0 <= i < es.len() && cand_from_entity(#[trigger] es[i], idx, p)
}

/// Candidates contributed by the first `n` entities only.
pub open spec fn dbvt_candidate_upto(
    es: Seq<EntityRecord>,
    idx: Seq<TreeValue>,
    p: EntityPair,
    n: int,
) -> bool {
    exists|i: int| 0 <= i < n && cand_from_entity(#[trigger] es[i], idx, p)
}

/// Pairs contributed by the first `t` query hits of one dirty entity.
pub open spec fn hit_pair_upto(e: EntityRecord, hs: Seq<TreeValue>, p: EntityPair, t: int) -> bool {
    e.pose.dirty && exists|u: int|
        0 <= u < t && (#[trigger] hs[u]).id != e.id && p == EntityPair::canonical_of(e.id, hs[u].id)
}

/// A pair is a full-set candidate when two entries of the value set
/// with different ids have intersecting bounds.
pub open spec fn brute_candidate(vals: Seq<TreeValue>, p: EntityPair) -> bool {
    exists|i: int, j: int|
        0 <= i < j < vals.len() && (#[trigger] vals[i]).id != (#[trigger] vals[j]).id
            && Aabb::intersects_spec(vals[i].bound, vals[j].bound) && p == EntityPair::canonical_of(
            vals[i].id,
            vals[j].id,
        )
}

/// Full-set candidates among the scan prefix: every pair of positions
/// lexicographically before `(i, j)`.
pub open spec fn brute_candidate_upto(vals: Seq<TreeValue>, p: EntityPair, i: int, j: int) -> bool {
    exists|ii: int, jj: int|
        0 <= ii < jj < vals.len() && (ii < i || (ii == i && jj < j)) && (#[trigger] vals[ii]).id
            != (#[trigger] vals[jj]).id && Aabb::intersects_spec(vals[ii].bound, vals[jj].bound)
            && p == EntityPair::canonical_of(vals[ii].id, vals[jj].id)
}

/// Inserts a pair into a strictly sorted candidate list by ordered
/// search, skipping it if it is already present.
pub fn insert_candidate(list: &mut Vec<EntityPair>, p: EntityPair)
    requires
        sorted_strict(old(list)@),
    ensures
        sorted_strict(final(list)@),
        forall|q: EntityPair| #[trigger]
            final(list)@.contains(q) <==> (old(list)@.contains(q) || q == p),
        final(list)@.len() <= old(list)@.len() + 1,
    {
    let n = list.len();
    let mut k: usize = 0;
    while k < n && list[k].lt(&p)
        invariant
            n == list@.len(),
            0 <= k <= n,
            list@ == old(list)@,
            forall|m: int| 0 <= m < k ==> (#[trigger] list@[m]).lt_spec(p),
        decreases n - k,
    {
        k += 1;
    }
    if k < n && list[k].a == p.a && list[k].b == p.b {
        proof {
            assert(list@[k as int] == p);
            assert(list@.contains(p));
            assert forall|q: EntityPair| #[trigger]
                list@.contains(q) <==> (old(list)@.contains(q) || q == p) by {}
        }
        return ;
    }
    list.insert(k, p);
    proof {
        let s = old(list)@;
        let t = list@;
        assert(t == s.insert(k as int, p));
        assert(t.len() == s.len() + 1);
        // the element at k, if any, lies strictly above p
        assert(k < n ==> p.lt_spec(s[k as int]));
        assert forall|i: int, j: int| 0 <= i < j < t.len() implies (#[trigger] t[i]).lt_spec(
            #[trigger] t[j],
        ) by {
            let ki = k as int;
            if i < ki && j < ki {
                assert(t[i] == s[i] && t[j] == s[j]);
            } else if i < ki && j == ki {
                assert(t[i] == s[i] && t[j] == p);
            } else if i < ki && j > ki {
                assert(t[i] == s[i] && t[j] == s[j - 1]);
                assert(s[i].lt_spec(s[j - 1]));
            } else if i == ki {
                assert(t[i] == p && t[j] == s[j - 1]);
                assert(p.lt_spec(s[ki]));
                if j - 1 > ki {
                    assert(s[ki].lt_spec(s[j - 1]));
                }
            } else {
                assert(t[i] == s[i - 1] && t[j] == s[j - 1]);
            }
        }
        assert forall|q: EntityPair| #[trigger] t.contains(q) implies (s.contains(q) || q
            == p) by {
            let m = choose|m: int| 0 <= m < t.len() && t[m] == q;
            let ki = k as int;
            if m < ki {
                assert(s[m] == q);
                assert(s.contains(q));
            } else if m == ki {
                assert(q == p);
            } else {
                assert(s[m - 1] == q);
                assert(s.contains(q));
            }
        }
        assert forall|q: EntityPair| (s.contains(q) || q == p) implies #[trigger] t.contains(
            q,
        ) by {
            let ki = k as int;
            if s.contains(q) {
                let m = choose|m: int| 0 <= m < s.len() && s[m] == q;
                if m < ki {
                    assert(t[m] == q);
                } else {
                    assert(t[m + 1] == q);
                }
            } else {
                assert(t[ki] == q);
            }
        }
    }
}

/// The default, index-driven broad phase: for each entity whose pose is
/// dirty, every index hit with a different id contributes the canonical
/// pair, collected sorted and deduplicated. The result holds exactly
/// the candidate pairs, each at most once, and never a self-pair.
pub fn dbvt_broad_phase(
    entities: &Vec<EntityRecord>,
    tree: &DynamicBoundingVolumeTree,
) -> (r: Vec<EntityPair>)
    ensures
        sorted_strict(r@),
        forall|p: EntityPair| #[trigger]
            r@.contains(p) <==> dbvt_candidate(entities@, tree.indexed_seq(), p),
{
    let mut r: Vec<EntityPair> = Vec::new();
    let n = entities.len();
    let ghost idx = tree.indexed_seq();
    let mut i: usize = 0;
    while i < n
        invariant
            n == entities@.len(),
            0 <= i <= n,
            idx == tree.indexed_seq(),
            sorted_strict(r@),
            forall|p: EntityPair| #[trigger]
                r@.contains(p) <==> dbvt_candidate_upto(entities@, idx, p, i as int),
        decreases n - i,
    {
        let e = entities[i];
        if e.pose.dirty() {
            let b = e.shape.bound();
            let hits = tree.query_discrete(&b);
            let m = hits.len();
            let mut t: usize = 0;
            while t < m
                invariant
                    n == entities@.len(),
                    0 <= i < n,
                    e == entities@[i as int],
                    e.pose.dirty,
                    b == e.shape.bound,
                    idx == tree.indexed_seq(),
                    m == hits@.len(),
                    0 <= t <= m,
                    forall|v: TreeValue| #[trigger] hits@.contains(v) <==> (exists|j: int|
                        0 <= j < idx.len() && idx[j] == v && Aabb::intersects_spec(v.bound, b)),
                    sorted_strict(r@),
                    forall|p: EntityPair| #[trigger]
                        r@.contains(p) <==> (dbvt_candidate_upto(entities@, idx, p, i as int)
                            || hit_pair_upto(e, hits@, p, t as int)),
                decreases m - t,
            {
                let v = hits[t];
                let ghost r_before = r@;
                if v.id != e.id {
                    let pr = EntityPair::new_canonical(e.id, v.id);
                    insert_candidate(&mut r, pr);
                    proof {
                        assert forall|p: EntityPair| #[trigger]
                            r@.contains(p) <==> (dbvt_candidate_upto(entities@, idx, p, i as int)
                                || hit_pair_upto(e, hits@, p, t + 1)) by {
                            if r@.contains(p) {
                                if r_before.contains(p) {
                                    if hit_pair_upto(e, hits@, p, t as int) {
                                        let u = choose|u: int|
                                            0 <= u < t && hits@[u].id != e.id && p
                                                == EntityPair::canonical_of(e.id, hits@[u].id);
                                        assert(hit_pair_upto(e, hits@, p, t + 1));
                                    }
                                } else {
                                    assert(p == pr);
                                    assert(hits@[t as int].id != e.id && p
                                        == EntityPair::canonical_of(e.id, hits@[t as int].id));
                                    assert(hit_pair_upto(e, hits@, p, t + 1));
                                }
                            }
                            if dbvt_candidate_upto(entities@, idx, p, i as int) {
                                assert(r_before.contains(p));
                                assert(r@.contains(p));
                            }
                            if hit_pair_upto(e, hits@, p, t + 1) {
                                let u = choose|u: int|
                                    0 <= u < t + 1 && hits@[u].id != e.id && p
                                        == EntityPair::canonical_of(e.id, hits@[u].id);
                                if u < t {
                                    assert(hit_pair_upto(e, hits@, p, t as int));
                                    assert(r_before.contains(p));
                                    assert(r@.contains(p));
                                } else {
                                    assert(p == pr);
                                    assert(r@.contains(p));
                                }
                            }
                        }
                    }
                } else {
                    proof {
                        assert forall|p: EntityPair|
                            hit_pair_upto(e, hits@, p, t + 1) implies hit_pair_upto(
                            e,
                            hits@,
                            p,
                            t as int,
                        ) by {
                            let u = choose|u: int|
                                0 <= u < t + 1 && hits@[u].id != e.id && p
                                    == EntityPair::canonical_of(e.id, hits@[u].id);
                            assert(u < t);
                        }
                    }
                }
                t += 1;
            }
            proof {
                // with every hit processed, the entity's contribution is
                // exactly what the candidate spec says for it
                assert forall|p: EntityPair|
                    hit_pair_upto(e, hits@, p, m as int) <==> cand_from_entity(e, idx, p) by {
                    if hit_pair_upto(e, hits@, p, m as int) {
                        let u = choose|u: int|
                            0 <= u < m && hits@[u].id != e.id && p == EntityPair::canonical_of(
                                e.id,
                                hits@[u].id,
                            );
                        assert(hits@.contains(hits@[u]));
                        let j = choose|j: int|
                            0 <= j < idx.len() && idx[j] == hits@[u] && Aabb::intersects_spec(
                                hits@[u].bound,
                                b,
                            );
                        assert(cand_from_entity(e, idx, p));
                    }
                    if cand_from_entity(e, idx, p) {
                        let j = choose|j: int|
                            0 <= j < idx.len() && idx[j].id != e.id && Aabb::intersects_spec(
                                idx[j].bound,
                                e.shape.bound,
                            ) && p == EntityPair::canonical_of(e.id, idx[j].id);
                        assert(hits@.contains(idx[j]));
                        let u = choose|u: int| 0 <= u < m && hits@[u] == idx[j];
                        assert(hit_pair_upto(e, hits@, p, m as int));
                    }
                }
                assert forall|p: EntityPair| #[trigger]
                    r@.contains(p) <==> dbvt_candidate_upto(entities@, idx, p, i + 1) by {
                    if r@.contains(p) {
                        if dbvt_candidate_upto(entities@, idx, p, i as int) {
                            let w = choose|w: int|
                                0 <= w < i && cand_from_entity(entities@[w], idx, p);
                            assert(dbvt_candidate_upto(entities@, idx, p, i + 1));
                        } else {
                            assert(cand_from_entity(entities@[i as int], idx, p));
                            assert(dbvt_candidate_upto(entities@, idx, p, i + 1));
                        }
                    }
                    if dbvt_candidate_upto(entities@, idx, p, i + 1) {
                        let w = choose|w: int|
                            0 <= w < i + 1 && cand_from_entity(entities@[w], idx, p);
                        if w < i {
                            assert(dbvt_candidate_upto(entities@, idx, p, i as int));
                        } else {
                            assert(cand_from_entity(e, idx, p));
                        }
                    }
                }
            }
        } else {
            proof {
                assert forall|p: EntityPair|
                    dbvt_candidate_upto(entities@, idx, p, i + 1) implies dbvt_candidate_upto(
                    entities@,
                    idx,
                    p,
                    i as int,
                ) by {
                    let w = choose|w: int| 0 <= w < i + 1 && cand_from_entity(entities@[w], idx, p);
                    assert(w < i);
                }
            }
        }
        i += 1;
    }
    r
}

/// The injected full-set broad phase: scans every ordered pair of
/// entries of the current value set and keeps those with different ids
/// and intersecting bounds, sorted and deduplicated.
pub fn brute_force_pairs(values: &Vec<TreeValue>) -> (r: Vec<EntityPair>)
    ensures
        sorted_strict(r@),
        forall|p: EntityPair| #[trigger] r@.contains(p) <==> brute_candidate(values@, p),
{
    let mut r: Vec<EntityPair> = Vec::new();
    let n = values.len();
    let mut i: usize = 0;
    while i < n
        invariant
            n == values@.len(),
            0 <= i <= n,
            sorted_strict(r@),
            forall|p: EntityPair| #[trigger]
                r@.contains(p) <==> brute_candidate_upto(values@, p, i as int, i + 1),
        decreases n - i,
    {
        let vi = values[i];
        let mut j: usize = i + 1;
        while j < n
            invariant
                n == values@.len(),
                0 <= i < n,
                vi == values@[i as int],
                i < j <= n,
                sorted_strict(r@),
                forall|p: EntityPair| #[trigger]
                    r@.contains(p) <==> brute_candidate_upto(values@, p, i as int, j as int),
            decreases n - j,
        {
            let vj = values[j];
            let ghost r_before = r@;
            if vi.id != vj.id && vi.bound.intersects(&vj.bound) {
                let pr = EntityPair::new_canonical(vi.id, vj.id);
                insert_candidate(&mut r, pr);
                proof {
                    assert forall|p: EntityPair| #[trigger]
                        r@.contains(p) <==> brute_candidate_upto(
                        values@,
                        p,
                        i as int,
                        j + 1,
                    ) by {
                        if r@.contains(p) {
                            if r_before.contains(p) {
                                let (ii, jj) = choose|ii: int, jj: int|
                                    0 <= ii < jj < values@.len() && (ii < i || (ii == i && jj < j))
                                        && values@[ii].id != values@[jj].id
                                        && Aabb::intersects_spec(
                                        values@[ii].bound,
                                        values@[jj].bound,
                                    ) && p == EntityPair::canonical_of(
                                        values@[ii].id,
                                        values@[jj].id,
                                    );
                                assert(brute_candidate_upto(values@, p, i as int, j + 1));
                            } else {
                                assert(p == pr);
                                assert(brute_candidate_upto(values@, p, i as int, j + 1));
                            }
                        }
                        if brute_candidate_upto(values@, p, i as int, j + 1) {
                            let (ii, jj) = choose|ii: int, jj: int|
                                0 <= ii < jj < values@.len() && (ii < i || (ii == i && jj < j + 1))
                                    && values@[ii].id != values@[jj].id && Aabb::intersects_spec(
                                    values@[ii].bound,
                                    values@[jj].bound,
                                ) && p == EntityPair::canonical_of(values@[ii].id, values@[jj].id);
                            if ii < i || jj < j {
                                assert(brute_candidate_upto(values@, p, i as int, j as int));
                                assert(r_before.contains(p));
                            } else {
                                assert(ii == i && jj == j);
                                assert(p == pr);
                            }
                            assert(r@.contains(p));
                        }
                    }
                }
            } else {
                proof {
                    assert forall|p: EntityPair|
                        brute_candidate_upto(values@, p, i as int, j + 1) implies
                        brute_candidate_upto(values@, p, i as int, j as int) by {
                        let (ii, jj) = choose|ii: int, jj: int|
                            0 <= ii < jj < values@.len() && (ii < i || (ii == i && jj < j + 1))
                                && values@[ii].id != values@[jj].id && Aabb::intersects_spec(
                                values@[ii].bound,
                                values@[jj].bound,
                            ) && p == EntityPair::canonical_of(values@[ii].id, values@[jj].id);
                        assert(ii < i || jj < j);
                    }
                }
            }
            j += 1;
        }
        proof {
            assert forall|p: EntityPair|
                brute_candidate_upto(values@, p, i as int, n as int) <==> brute_candidate_upto(
                values@,
                p,
                i + 1,
                i + 2,
            ) by {
                if brute_candidate_upto(values@, p, i as int, n as int) {
                    let (ii, jj) = choose|ii: int, jj: int|
                        0 <= ii < jj < values@.len() && (ii < i || (ii == i && jj < n))
                            && values@[ii].id != values@[jj].id && Aabb::intersects_spec(
                            values@[ii].bound,
                            values@[jj].bound,
                        ) && p == EntityPair::canonical_of(values@[ii].id, values@[jj].id);
                    assert(ii < i + 1 || (ii == i + 1 && jj < i + 2));
                    assert(brute_candidate_upto(values@, p, i + 1, i + 2));
                }
                if brute_candidate_upto(values@, p, i + 1, i + 2) {
                    let (ii, jj) = choose|ii: int, jj: int|
                        0 <= ii < jj < values@.len() && (ii < i + 1 || (ii == i + 1 && jj < i + 2))
                            && values@[ii].id != values@[jj].id && Aabb::intersects_spec(
                            values@[ii].bound,
                            values@[jj].bound,
                        ) && p == EntityPair::canonical_of(values@[ii].id, values@[jj].id);
                    assert(ii < i || (ii == i && jj < n));
                    assert(brute_candidate_upto(values@, p, i as int, n as int));
                }
            }
        }
        i += 1;
    }
    proof {
        assert forall|p: EntityPair|
            brute_candidate_upto(values@, p, n as int, n + 1) <==> brute_candidate(
            values@,
            p,
        ) by {}
    }
    r
}

/// For any dirty entity and any differently-identified index entry
/// whose bounds intersect, a list satisfying the default broad phase's
/// contract holds the canonical pair exactly once, and holds no
/// self-pair anywhere.
pub proof fn lemma_broad_pair_exactly_once(
    pairs: Seq<EntityPair>,
    es: Seq<EntityRecord>,
    idx: Seq<TreeValue>,
    i: int,
    j: int,
)
    requires
        sorted_strict(pairs),
        forall|p: EntityPair| #[trigger] pairs.contains(p) <==> dbvt_candidate(es, idx, p),
        0 <= i < es.len(),
        0 <= j < idx.len(),
        es[i].pose.dirty,
        idx[j].id != es[i].id,
        Aabb::intersects_spec(idx[j].bound, es[i].shape.bound),
    ensures
        exists|k: int|
            0 <= k < pairs.len() && pairs[k] == EntityPair::canonical_of(es[i].id, idx[j].id),
        forall|k: int, l: int|
            (0 <= k < pairs.len() && 0 <= l < pairs.len() && pairs[k] == pairs[l]) ==> k == l,
        forall|k: int| 0 <= k < pairs.len() ==> (#[trigger] pairs[k]).a != pairs[k].b,
{
    let p = EntityPair::canonical_of(es[i].id, idx[j].id);
    assert(cand_from_entity(es[i], idx, p));
    assert(dbvt_candidate(es, idx, p));
    assert(pairs.contains(p));
    let k = choose|k: int| 0 <= k < pairs.len() && pairs[k] == p;
    assert(0 <= k < pairs.len() && pairs[k] == EntityPair::canonical_of(es[i].id, idx[j].id));
    lemma_sorted_strict_distinct(pairs);
    assert forall|k2: int| 0 <= k2 < pairs.len() implies (#[trigger] pairs[k2]).a
        != pairs[k2].b by {
        assert(pairs.contains(pairs[k2]));
        assert(dbvt_candidate(es, idx, pairs[k2]));
        let w = choose|w: int| 0 <= w < es.len() && cand_from_entity(es[w], idx, pairs[k2]);
        let u = choose|u: int|
            0 <= u < idx.len() && idx[u].id != es[w].id && Aabb::intersects_spec(
                idx[u].bound,
                es[w].shape.bound,
            ) && pairs[k2] == EntityPair::canonical_of(es[w].id, idx[u].id);
    }
}

} // verus!
