//! The bounding-volume index: one bound per collidable entity, with
//! batched reindexing and discrete-overlap queries.
//!
//! The value set is updated incrementally (insert, remove, update), and
//! queries run against the snapshot taken by the last `reindex_values`
//! call, so rebalancing work is batched once per tick instead of paid
//! per insertion. Broad-phase correctness for settled bodies relies on
//! the snapshot already reflecting their latest bounds.

use vstd::prelude::*;
use crate::math::Aabb;

verus! {

/// One indexed entry: an entity id and its bound.
#[derive(Clone, Copy, PartialEq, Eq, Structural, Debug)]
pub struct TreeValue {
    pub id: u64,
    pub bound: Aabb,
}

/// No two entries of the sequence carry the same id.
pub open spec fn ids_unique(s: Seq<TreeValue>) -> bool {
    forall|i: int, j: int| 0 <= i < j < s.len() ==> #[trigger] s[i].id != #[trigger] s[j].id
}

/// The first `k` entries of `s` whose bound intersects `b`, in order.
pub open spec fn query_upto(s: Seq<TreeValue>, b: Aabb, k: int) -> Seq<TreeValue>
    decreases k,
{
    if k <= 0 {
        Seq::<TreeValue>::empty()
    } else if Aabb::intersects_spec(s[k - 1].bound, b) {
        query_upto(s, b, k - 1).push(s[k - 1])
    } else {
        query_upto(s, b, k - 1)
    }
}

/// A query result holds exactly the scanned entries with intersecting
/// bounds, and no more entries than were scanned.
pub proof fn lemma_query_upto_contains(s: Seq<TreeValue>, b: Aabb, k: int)
    requires
        0 <= k <= s.len(),
    ensures
        forall|v: TreeValue| #[trigger] query_upto(s, b, k).contains(v) <==> (exists|j: int|
            0 <= j < k && s[j] == v && Aabb::intersects_spec(v.bound, b)),
        query_upto(s, b, k).len() <= k,
    decreases k,
{
    if k > 0 {
        lemma_query_upto_contains(s, b, k - 1);
        let prev = query_upto(s, b, k - 1);
        let cur = query_upto(s, b, k);
        assert forall|v: TreeValue| #[trigger] cur.contains(v) implies (exists|j: int|
            0 <= j < k && s[j] == v && Aabb::intersects_spec(v.bound, b)) by {
            let m = choose|m: int| 0 <= m < cur.len() && cur[m] == v;
            if m < prev.len() {
                assert(prev[m] == v);
                assert(prev.contains(v));
            } else {
                assert(v == s[k - 1]);
            }
        }
        assert forall|v: TreeValue| (exists|j: int|
            0 <= j < k && s[j] == v && Aabb::intersects_spec(v.bound, b)) implies #[trigger] cur
            .contains(v) by {
            let j = choose|j: int| 0 <= j < k && s[j] == v && Aabb::intersects_spec(v.bound, b);
            if j < k - 1 {
                assert(prev.contains(v));
                let m = choose|m: int| 0 <= m < prev.len() && prev[m] == v;
                if Aabb::intersects_spec(s[k - 1].bound, b) {
                    assert(cur[m] == v);
                } else {
                    assert(cur[m] == v);
                }
            } else {
                assert(cur[cur.len() - 1] == v);
            }
        }
    }
}

/// The dynamic bounding-volume index.
#[derive(Clone, Debug)]
pub struct DynamicBoundingVolumeTree {
    values: Vec<TreeValue>,
    indexed: Vec<TreeValue>,
}

impl DynamicBoundingVolumeTree {
    /// The current value set, as updates leave it.
    pub closed spec fn values_seq(self) -> Seq<TreeValue> {
        self.values@
    }

    /// The snapshot queries consult, as the last reindex left it.
    pub closed spec fn indexed_seq(self) -> Seq<TreeValue> {
        self.indexed@
    }

    /// Each id appears at most once, in the value set and in the snapshot.
    pub closed spec fn wf(self) -> bool {
        ids_unique(self.values@) && ids_unique(self.indexed@)
    }

    pub open spec fn contains_id(s: Seq<TreeValue>, id: u64) -> bool {
        exists|i: int| 0 <= i < s.len() && s[i].id == id
    }

    pub fn new() -> (r: DynamicBoundingVolumeTree)
        ensures
            r.values_seq() == Seq::<TreeValue>::empty(),
            r.indexed_seq() == Seq::<TreeValue>::empty(),
            r.wf(),
    {
        DynamicBoundingVolumeTree { values: Vec::new(), indexed: Vec::new() }
    }

    /// Adds a bound for an entity not yet present. The entry becomes
    /// visible to queries at the next reindex.
    pub fn insert(&mut self, id: u64, bound: Aabb)
        requires
            old(self).wf(),
            !DynamicBoundingVolumeTree::contains_id(old(self).values_seq(), id),
        ensures
            final(self).wf(),
            final(self).values_seq() == old(self).values_seq().push(TreeValue { id, bound }),
            final(self).indexed_seq() == old(self).indexed_seq(),
    {
        self.values.push(TreeValue { id, bound });
        proof {
            let s = self.values@;
            assert forall|p: int, q: int| 0 <= p < q < s.len() implies s[p].id != s[q].id by {
                if q == s.len() - 1 {
                    assert(old(self).values_seq()[p].id == s[p].id);
                }
            }
        }
    }

    /// Drops the entry with the given id from the value set, if present;
    /// later entries keep their order. The snapshot is untouched until
    /// the next reindex.
    pub fn remove(&mut self, id: u64)
        requires
            old(self).wf(),
        ensures
            final(self).wf(),
            final(self).indexed_seq() == old(self).indexed_seq(),
            DynamicBoundingVolumeTree::contains_id(old(self).values_seq(), id) ==> exists|j: int|
                0 <= j < old(self).values_seq().len() && old(self).values_seq()[j].id == id
                    && final(self).values_seq() == old(self).values_seq().remove(j),
            !DynamicBoundingVolumeTree::contains_id(old(self).values_seq(), id)
                ==> final(self).values_seq() == old(self).values_seq(),
    {
        let n = self.values.len();
        let mut i: usize = 0;
        while i < n
            invariant
                n == self.values@.len(),
                0 <= i <= n,
                forall|k: int| 0 <= k < i ==> self.values@[k].id != id,
                *self == *old(self),
                old(self).wf(),
            decreases n - i,
        {
            if self.values[i].id == id {
                self.values.remove(i);
                proof {
                    let s = old(self).values_seq();
                    let t = self.values@;
                    assert(t == s.remove(i as int));
                    assert forall|p: int, q: int| 0 <= p < q < t.len() implies t[p].id
                        != t[q].id by {
                        let pp = if p < i { p } else { p + 1 };
                        let qq = if q < i { q } else { q + 1 };
                        assert(t[p] == s[pp]);
                        assert(t[q] == s[qq]);
                        assert(s[pp].id != s[qq].id);
                    }
                    assert(0 <= (i as int) < s.len() && s[i as int].id == id && t == s.remove(
                        i as int,
                    ));
                }
                return ;
            }
            i += 1;
        }
    }

    /// Replaces the stored bound of an entity, if present. The new bound
    /// becomes visible to queries at the next reindex.
    pub fn update_bound(&mut self, id: u64, bound: Aabb)
        requires
            old(self).wf(),
        ensures
            final(self).wf(),
            final(self).indexed_seq() == old(self).indexed_seq(),
            DynamicBoundingVolumeTree::contains_id(old(self).values_seq(), id) ==> exists|j: int|
                0 <= j < old(self).values_seq().len() && old(self).values_seq()[j].id == id
                    && final(self).values_seq() == old(self).values_seq().update(
                    j,
                    TreeValue { id, bound },
                ),
            !DynamicBoundingVolumeTree::contains_id(old(self).values_seq(), id)
                ==> final(self).values_seq() == old(self).values_seq(),
    {
        let n = self.values.len();
        let mut i: usize = 0;
        while i < n
            invariant
                n == self.values@.len(),
                0 <= i <= n,
                forall|k: int| 0 <= k < i ==> self.values@[k].id != id,
                *self == *old(self),
                old(self).wf(),
            decreases n - i,
        {
            if self.values[i].id == id {
                let entry = &mut self.values[i];
                *entry = TreeValue { id, bound };
                proof {
                    let s = old(self).values_seq();
                    let t = self.values@;
                    assert(t == s.update(i as int, TreeValue { id, bound }));
                    assert forall|p: int, q: int| 0 <= p < q < t.len() implies t[p].id
                        != t[q].id by {
                        assert(t[p].id == s[p].id);
                        assert(t[q].id == s[q].id);
                        assert(s[p].id != s[q].id);
                    }
                    assert(0 <= (i as int) < s.len() && s[i as int].id == id);
                }
                return ;
            }
            i += 1;
        }
    }

    /// Rebalances: the query snapshot becomes the current value set.
    pub fn reindex_values(&mut self)
        requires
            old(self).wf(),
        ensures
            final(self).wf(),
            final(self).values_seq() == old(self).values_seq(),
            final(self).indexed_seq() == old(self).values_seq(),
    {
        let n = self.values.len();
        let mut snap: Vec<TreeValue> = Vec::new();
        let mut i: usize = 0;
        while i < n
            invariant
                n == self.values@.len(),
                0 <= i <= n,
                snap@ == self.values@.subrange(0, i as int),
                *self == *old(self),
            decreases n - i,
        {
            snap.push(self.values[i]);
            proof {
                assert(self.values@.subrange(0, i + 1) =~= self.values@.subrange(0, i as int).push(
                    self.values@[i as int],
                ));
            }
            i += 1;
        }
        proof {
            assert(snap@ =~= self.values@);
        }
        self.indexed = snap;
    }

    /// Every snapshot entry whose bound intersects the given bound, in
    /// snapshot order, and nothing else.
    pub fn query_discrete(&self, bound: &Aabb) -> (r: Vec<TreeValue>)
        ensures
            r@ == query_upto(self.indexed_seq(), *bound, self.indexed_seq().len() as int),
            forall|v: TreeValue| #[trigger] r@.contains(v) <==> (exists|j: int|
                0 <= j < self.indexed_seq().len() && self.indexed_seq()[j] == v
                    && Aabb::intersects_spec(v.bound, *bound)),
            r@.len() <= self.indexed_seq().len(),
    {
        let mut r: Vec<TreeValue> = Vec::new();
        let n = self.indexed.len();
        let mut i: usize = 0;
        while i < n
            invariant
                n == self.indexed@.len(),
                0 <= i <= n,
                r@ == query_upto(self.indexed@, *bound, i as int),
            decreases n - i,
        {
            let v = self.indexed[i];
            if v.bound.intersects(bound) {
                r.push(v);
            }
            i += 1;
        }
        proof {
            lemma_query_upto_contains(self.indexed@, *bound, n as int);
        }
        r
    }

    /// The current value set, for an injected broad phase that computes
    /// pairs from the full set directly.
    pub fn values(&self) -> (r: &Vec<TreeValue>)
        ensures
            r@ == self.values_seq(),
    {
        &self.values
    }
}

} // verus!
