//! The spatial collision orchestrator: once per tick it clears the
//! contact buffer, obtains candidate pairs from the configured broad
//! phase (or the default index-driven one), reindexes the
//! bounding-volume index, confirms candidates through the configured
//! narrow phase (or reports detection-only contacts), and can publish
//! the buffer to the contact event stream.

use vstd::prelude::*;
use crate::broad::{
    brute_candidate, brute_force_pairs, dbvt_broad_phase, dbvt_candidate,
    lemma_sorted_strict_distinct, sorted_strict, EntityRecord,
};
use crate::collide::{collide, contact_spec, primitives_intersect, CollisionStrategy, ContactEvent,
    ContactSet, EntityPair};
use crate::dbvt::DynamicBoundingVolumeTree;
use crate::events::EventChannel;
use crate::math::MAX_COORD;

verus! {

/// The per-tick contact output buffer, cleared and refilled every tick
/// and readable by downstream systems.
#[derive(Clone, Debug)]
pub struct Contacts {
    data: Vec<ContactSet>,
}

impl Contacts {
    pub closed spec fn contacts_seq(self) -> Seq<ContactSet> {
        self.data@
    }

    pub fn new() -> (r: Contacts)
        ensures
            r.contacts_seq() == Seq::<ContactSet>::empty(),
    {
        Contacts { data: Vec::new() }
    }

    pub fn clear(&mut self)
        ensures
            final(self).contacts_seq() == Seq::<ContactSet>::empty(),
    {
        self.data.clear();
    }

    pub fn push(&mut self, contact: ContactSet)
        ensures
            final(self).contacts_seq() == old(self).contacts_seq().push(contact),
    {
        self.data.push(contact);
    }

    pub fn len(&self) -> (r: usize)
        ensures
            r == self.contacts_seq().len(),
    {
        self.data.len()
    }

    pub fn get(&self, i: usize) -> (r: &ContactSet)
        requires
            i < self.contacts_seq().len(),
        ensures
            *r == self.contacts_seq()[i as int],
    {
        &self.data[i]
    }
}

/// The closed set of injectable broad phases: the full-set scan.
#[derive(Clone, Copy, PartialEq, Eq, Structural, Debug)]
pub enum BroadPhaseMode {
    /// Scan every pair of the current value set, with no dirty filter.
    BruteForce,
}

/// The closed set of injectable narrow phases: exact box-box
/// intersection.
#[derive(Clone, Copy, PartialEq, Eq, Structural, Debug)]
pub enum NarrowPhaseMode {
    /// Exact intersection of two boxes under their poses.
    BoxBox,
}

/// Some record of the set carries the id.
pub open spec fn has_record(es: Seq<EntityRecord>, id: u64) -> bool {
    exists|i: int| 0 <= i < es.len() && (#[trigger] es[i]).id == id
}

/// The record carrying the id; meaningful when ids are unique.
pub open spec fn record_for(es: Seq<EntityRecord>, id: u64) -> EntityRecord {
    es[choose|i: int| 0 <= i < es.len() && (#[trigger] es[i]).id == id]
}

/// No two records carry the same id.
pub open spec fn records_unique(es: Seq<EntityRecord>) -> bool {
    forall|i: int, j: int| 0 <= i < j < es.len() ==> #[trigger] es[i].id != #[trigger] es[j].id
}

/// A record's geometry lies within the library's coordinate limits.
pub open spec fn record_in_range(e: EntityRecord) -> bool {
    e.shape.primitive.wf() && e.pose.position.in_range(MAX_COORD as int)
}

/// The pair's two primitives truly intersect under their poses.
#[verifier::opaque]
pub open spec fn narrow_hit(es: Seq<EntityRecord>, p: EntityPair) -> bool {
    primitives_intersect(
        record_for(es, p.a).shape.primitive,
        record_for(es, p.a).pose,
        record_for(es, p.b).shape.primitive,
        record_for(es, p.b).pose,
    )
}

/// The manifold the narrow phase computes for the pair.
#[verifier::opaque]
pub open spec fn narrow_contact(es: Seq<EntityRecord>, p: EntityPair) -> ContactSet {
    contact_spec(
        p.a,
        record_for(es, p.a).shape.primitive,
        record_for(es, p.a).pose,
        p.b,
        record_for(es, p.b).shape.primitive,
        record_for(es, p.b).pose,
    )
}

/// Index of the first record carrying the id.
fn find_record(entities: &Vec<EntityRecord>, id: u64) -> (r: Option<usize>)
    ensures
        r is Some <==> has_record(entities@, id),
        r is Some ==> 0 <= r->Some_0 < entities@.len() && entities@[r->Some_0 as int].id == id,
{
    let n = entities.len();
    let mut i: usize = 0;
    while i < n
        invariant
            n == entities@.len(),
            0 <= i <= n,
            forall|k: int| 0 <= k < i ==> (#[trigger] entities@[k]).id != id,
        decreases n - i,
    {
        if entities[i].id == id {
            return Some(i);
        }
        i += 1;
    }
    None
}

/// The collision detection system.
///
/// Supports both broad and narrow phase collision detection; narrow
/// phase runs only on broad-phase candidates. With no injected broad
/// phase it falls back to the default index-driven broad phase.
#[derive(Clone, Copy, PartialEq, Eq, Structural, Debug)]
pub struct SpatialCollisionSystem {
    narrow: Option<NarrowPhaseMode>,
    broad: Option<BroadPhaseMode>,
}

impl SpatialCollisionSystem {
    pub closed spec fn narrow_mode(self) -> Option<NarrowPhaseMode> {
        self.narrow
    }

    pub closed spec fn broad_mode(self) -> Option<BroadPhaseMode> {
        self.broad
    }

    /// A pair is this system's candidate: from the injected broad phase
    /// over the full value set when one is configured, else from the
    /// default index-driven broad phase over the dirty entities.
    pub open spec fn candidate_spec(
        self,
        es: Seq<EntityRecord>,
        tree_before: DynamicBoundingVolumeTree,
        p: EntityPair,
    ) -> bool {
        if self.broad_mode() is Some {
            brute_candidate(tree_before.values_seq(), p)
        } else {
            dbvt_candidate(es, tree_before.indexed_seq(), p)
        }
    }

    /// Create a new collision detection system, with no broad or narrow
    /// phase activated.
    pub fn new() -> (r: SpatialCollisionSystem)
        ensures
            r.narrow_mode() is None,
            r.broad_mode() is None,
    {
        SpatialCollisionSystem { narrow: None, broad: None }
    }

    /// Specify what narrow phase algorithm to use.
    pub fn with_narrow_phase(self, narrow: NarrowPhaseMode) -> (r: SpatialCollisionSystem)
        ensures
            r.narrow_mode() == Some(narrow),
            r.broad_mode() == self.broad_mode(),
    {
        SpatialCollisionSystem { narrow: Some(narrow), broad: self.broad }
    }

    /// Specify what broad phase algorithm to use.
    pub fn with_broad_phase(self, broad: BroadPhaseMode) -> (r: SpatialCollisionSystem)
        ensures
            r.broad_mode() == Some(broad),
            r.narrow_mode() == self.narrow_mode(),
    {
        SpatialCollisionSystem { narrow: self.narrow, broad: Some(broad) }
    }

    /// One collision pass. Clears the contact buffer, gathers candidate
    /// pairs, reindexes the bounding-volume index, and fills the buffer:
    /// with a narrow phase, one full contact per truly intersecting
    /// candidate, in candidate order; without one, exactly one
    /// detection-only contact per candidate. The witness sequence is
    /// the candidate list itself: strictly sorted and holding exactly
    /// the candidate pairs, so it is uniquely determined. Every
    /// candidate entity must be registered when a narrow phase is
    /// configured; a missing registration is a fatal integration error,
    /// so it is required away here.
    pub fn run(
        &self,
        entities: &Vec<EntityRecord>,
        contacts: &mut Contacts,
        tree: &mut DynamicBoundingVolumeTree,
    )
        requires
            old(tree).wf(),
            records_unique(entities@),
            forall|i: int| 0 <= i < entities@.len() ==> record_in_range(#[trigger] entities@[i]),
            self.narrow_mode() is Some ==> forall|p: EntityPair|
                self.candidate_spec(entities@, *old(tree), p) ==> has_record(entities@, p.a)
                    && has_record(entities@, p.b),
        ensures
            final(tree).wf(),
            final(tree).values_seq() == old(tree).values_seq(),
            final(tree).indexed_seq() == old(tree).values_seq(),
            (exists|ps: Seq<EntityPair>|
                #![trigger sorted_strict(ps)]
                {
                    &&& sorted_strict(ps)
                    &&& (forall|p: EntityPair| #[trigger]
                        ps.contains(p) <==> self.candidate_spec(entities@, *old(tree), p))
                    &&& final(contacts).contacts_seq() == (if self.narrow_mode() is Some {
                        narrow_outputs_upto(entities@, ps, ps.len() as int)
                    } else {
                        detection_outputs(ps)
                    })
                }),
    {
        contacts.clear();
        let pairs: Vec<EntityPair> = match &self.broad {
            Some(BroadPhaseMode::BruteForce) => {
                let p = brute_force_pairs(tree.values());
                tree.reindex_values();
                p
            },
            None => {
                let p = dbvt_broad_phase(entities, tree);
                tree.reindex_values();
                p
            },
        };
        proof {
            assert(sorted_strict(pairs@));
            assert(forall|p: EntityPair| #[trigger]
                pairs@.contains(p) <==> self.candidate_spec(entities@, *old(tree), p));
        }
        match &self.narrow {
            Some(NarrowPhaseMode::BoxBox) => {
                proof {
                    assert forall|q: int| 0 <= q < pairs@.len() implies has_record(
                        entities@,
                        (#[trigger] pairs@[q]).a,
                    ) && has_record(entities@, pairs@[q].b) by {
                        assert(pairs@.contains(pairs@[q]));
                        assert(self.candidate_spec(entities@, *old(tree), pairs@[q]));
                    }
                }
                narrow_phase_pass(entities, &pairs, contacts);
            },
            None => {
                collision_only_pass(&pairs, contacts);
                proof {
                    assert(contacts.contacts_seq() =~= detection_outputs(pairs@));
                }
            },
        }
    }
}

/// One detection-only contact per candidate pair, in candidate order.
pub open spec fn detection_outputs(ps: Seq<EntityPair>) -> Seq<ContactSet> {
    ps.map_values(
        |p: EntityPair| ContactSet::new_single_spec(CollisionStrategy::CollisionOnly, p),
    )
}

/// Without a narrow phase, a strictly sorted candidate list yields each
/// of its pairs as exactly one detection-only contact, with no manifold
/// data.
pub proof fn lemma_detection_exactly_once(ps: Seq<EntityPair>, p: EntityPair)
    requires
        sorted_strict(ps),
        ps.contains(p),
    ensures
        exists|k: int|
            0 <= k < detection_outputs(ps).len() && #[trigger] detection_outputs(ps)[k]
                == ContactSet::new_single_spec(CollisionStrategy::CollisionOnly, p),
        forall|k: int, l: int|
            (0 <= k < detection_outputs(ps).len() && 0 <= l < detection_outputs(ps).len() && (
            #[trigger] detection_outputs(ps)[k]).bodies == (
            #[trigger] detection_outputs(ps)[l]).bodies) ==> k == l,
{
    let cs = detection_outputs(ps);
    let m = choose|m: int| 0 <= m < ps.len() && ps[m] == p;
    assert(cs[m] == ContactSet::new_single_spec(CollisionStrategy::CollisionOnly, p));
    lemma_sorted_strict_distinct(ps);
    assert forall|k: int, l: int|
        (0 <= k < cs.len() && 0 <= l < cs.len() && (#[trigger] cs[k]).bodies == (
        #[trigger] cs[l]).bodies) implies k == l by {
        assert(cs[k].bodies == ps[k] && cs[l].bodies == ps[l]);
    }
}

/// Narrow-phase stage: confirms each candidate pair in list order and
/// appends one full contact per truly intersecting pair to the cleared
/// buffer. Looking up a candidate entity that was never registered is a
/// fatal precondition violation, so registration is required here.
fn narrow_phase_pass(entities: &Vec<EntityRecord>, pairs: &Vec<EntityPair>, contacts: &mut Contacts)
    requires
        records_unique(entities@),
        forall|i: int| 0 <= i < entities@.len() ==> record_in_range(#[trigger] entities@[i]),
        forall|q: int| 0 <= q < pairs@.len() ==> has_record(entities@, (#[trigger] pairs@[q]).a)
            && has_record(entities@, pairs@[q].b),
        old(contacts).contacts_seq() == Seq::<ContactSet>::empty(),
    ensures
        final(contacts).contacts_seq() == narrow_outputs_upto(
            entities@,
            pairs@,
            pairs@.len() as int,
        ),
{
    let n = pairs.len();
    let mut k: usize = 0;
    while k < n
        invariant
            n == pairs@.len(),
            0 <= k <= n,
            records_unique(entities@),
            forall|i: int| 0 <= i < entities@.len() ==> record_in_range(#[trigger] entities@[i]),
            forall|q: int| 0 <= q < pairs@.len() ==> has_record(
                entities@,
                (#[trigger] pairs@[q]).a,
            ) && has_record(entities@, pairs@[q].b),
            contacts.contacts_seq() == narrow_outputs_upto(entities@, pairs@, k as int),
        decreases n - k,
    {
        let p = pairs[k];
        let ia = match find_record(entities, p.a) {
            Some(x) => x,
            None => {
                proof {
                    assert(false);
                }
                0
            },
        };
        let ib = match find_record(entities, p.b) {
            Some(x) => x,
            None => {
                proof {
                    assert(false);
                }
                0
            },
        };
        proof {
            lemma_record_for(entities@, ia as int, p.a);
            lemma_record_for(entities@, ib as int, p.b);
        }
        let ea = entities[ia];
        let eb = entities[ib];
        let outcome = collide(p.a, &ea.shape, &ea.pose, p.b, &eb.shape, &eb.pose);
        match outcome {
            Some(cset) => {
                contacts.push(cset);
            },
            None => {},
        }
        proof {
            reveal(narrow_hit);
            reveal(narrow_contact);
            assert(contacts.contacts_seq() == narrow_outputs_upto(entities@, pairs@, k + 1));
        }
        k += 1;
    }
}

/// Detection-only stage: with no narrow phase configured, every
/// candidate pair yields exactly one detection-only contact, in order.
fn collision_only_pass(pairs: &Vec<EntityPair>, contacts: &mut Contacts)
    requires
        old(contacts).contacts_seq() == Seq::<ContactSet>::empty(),
    ensures
        final(contacts).contacts_seq().len() == pairs@.len(),
        forall|m: int| 0 <= m < pairs@.len() ==> (#[trigger] final(contacts).contacts_seq()[m])
            == ContactSet::new_single_spec(CollisionStrategy::CollisionOnly, pairs@[m]),
{
    let n = pairs.len();
    let mut k: usize = 0;
    while k < n
        invariant
            n == pairs@.len(),
            0 <= k <= n,
            contacts.contacts_seq().len() == k,
            forall|m: int| 0 <= m < k ==> (#[trigger] contacts.contacts_seq()[m])
                == ContactSet::new_single_spec(CollisionStrategy::CollisionOnly, pairs@[m]),
        decreases n - k,
    {
        let pr = pairs[k];
        contacts.push(ContactSet::new_single(CollisionStrategy::CollisionOnly, pr));
        k += 1;
    }
}

/// Contacts the narrow phase reports for the first `k` candidate pairs,
/// in candidate order: one full contact per truly intersecting pair.
pub open spec fn narrow_outputs_upto(
    es: Seq<EntityRecord>,
    ps: Seq<EntityPair>,
    k: int,
) -> Seq<ContactSet>
    decreases k,
{
    if k <= 0 {
        Seq::<ContactSet>::empty()
    } else if narrow_hit(es, ps[k - 1]) {
        narrow_outputs_upto(es, ps, k - 1).push(narrow_contact(es, ps[k - 1]))
    } else {
        narrow_outputs_upto(es, ps, k - 1)
    }
}

/// A record found at an index by its id is the record the lookup spec
/// names, when ids are unique.
proof fn lemma_record_for(es: Seq<EntityRecord>, i: int, id: u64)
    requires
        records_unique(es),
        0 <= i < es.len(),
        es[i].id == id,
    ensures
        record_for(es, id) == es[i],
        has_record(es, id),
{
    assert(has_record(es, id));
    let j = choose|j: int| 0 <= j < es.len() && (#[trigger] es[j]).id == id;
    if i < j {
        assert(es[i].id != es[j].id);
    }
    if j < i {
        assert(es[j].id != es[i].id);
    }
}

/// Every entry of the narrow-phase output list is the narrow contact
/// of a truly intersecting candidate of the scanned prefix.
#[verifier::spinoff_prover]
pub proof fn lemma_narrow_outputs_sound(
    es: Seq<EntityRecord>,
    ps: Seq<EntityPair>,
    n: int,
    cs: Seq<ContactSet>,
)
    requires
        0 <= n <= ps.len(),
        cs == narrow_outputs_upto(es, ps, n),
    ensures
        forall|k: int|
            0 <= k < cs.len() ==> exists|q: int|
                0 <= q < n && (#[trigger] cs[k]) == narrow_contact(es, ps[q]) && cs[k].bodies
                    == ps[q] && narrow_hit(es, ps[q]),
    decreases n,
{
    if n > 0 {
        let prev = narrow_outputs_upto(es, ps, n - 1);
        lemma_narrow_outputs_sound(es, ps, n - 1, prev);
        lemma_narrow_contact_bodies(es, ps[n - 1]);
        if narrow_hit(es, ps[n - 1]) {
            assert(cs == prev.push(narrow_contact(es, ps[n - 1])));
            assert forall|k: int| 0 <= k < cs.len() implies exists|q: int|
                0 <= q < n && (#[trigger] cs[k]) == narrow_contact(es, ps[q]) && cs[k].bodies
                    == ps[q] && narrow_hit(es, ps[q]) by {
                if k < prev.len() {
                    assert(cs[k] == prev[k]);
                    let q = choose|q: int|
                        0 <= q < n - 1 && prev[k] == narrow_contact(es, ps[q]) && prev[k].bodies
                            == ps[q] && narrow_hit(es, ps[q]);
                    assert(0 <= q < n && cs[k] == narrow_contact(es, ps[q]) && cs[k].bodies
                        == ps[q] && narrow_hit(es, ps[q]));
                } else {
                    assert(cs[k] == narrow_contact(es, ps[n - 1]));
                }
            }
        } else {
            assert(cs == prev);
        }
    }
}

/// Every truly intersecting candidate of the scanned prefix appears in
/// the narrow-phase output list.
#[verifier::spinoff_prover]
pub proof fn lemma_narrow_outputs_complete(
    es: Seq<EntityRecord>,
    ps: Seq<EntityPair>,
    n: int,
    cs: Seq<ContactSet>,
)
    requires
        0 <= n <= ps.len(),
        cs == narrow_outputs_upto(es, ps, n),
    ensures
        forall|q: int|
            0 <= q < n && narrow_hit(es, #[trigger] ps[q]) ==> exists|k: int|
                0 <= k < cs.len() && (#[trigger] cs[k]).bodies == ps[q],
    decreases n,
{
    if n > 0 {
        let prev = narrow_outputs_upto(es, ps, n - 1);
        lemma_narrow_outputs_complete(es, ps, n - 1, prev);
        lemma_narrow_contact_bodies(es, ps[n - 1]);
        assert forall|q: int|
            0 <= q < n && narrow_hit(es, #[trigger] ps[q]) implies exists|k: int|
            0 <= k < cs.len() && (#[trigger] cs[k]).bodies == ps[q] by {
            if q < n - 1 {
                let k = choose|k: int| 0 <= k < prev.len() && (#[trigger] prev[k]).bodies == ps[q];
                assert(cs[k].bodies == ps[q]);
            } else {
                assert(cs[cs.len() - 1].bodies == ps[n - 1]);
            }
        }
    }
}

/// The narrow-phase output of a strictly sorted candidate list names
/// each pair at most once: together with completeness, every truly
/// intersecting candidate yields exactly one contact.
#[verifier::spinoff_prover]
pub proof fn lemma_narrow_outputs_distinct(
    es: Seq<EntityRecord>,
    ps: Seq<EntityPair>,
    n: int,
    cs: Seq<ContactSet>,
)
    requires
        0 <= n <= ps.len(),
        sorted_strict(ps),
        cs == narrow_outputs_upto(es, ps, n),
    ensures
        forall|k: int, l: int|
            0 <= k < l < cs.len() ==> (#[trigger] cs[k]).bodies != (#[trigger] cs[l]).bodies,
    decreases n,
{
    if n > 0 {
        let prev = narrow_outputs_upto(es, ps, n - 1);
        lemma_narrow_outputs_distinct(es, ps, n - 1, prev);
        lemma_narrow_outputs_sound(es, ps, n - 1, prev);
        lemma_narrow_contact_bodies(es, ps[n - 1]);
        if narrow_hit(es, ps[n - 1]) {
            assert(cs == prev.push(narrow_contact(es, ps[n - 1])));
            assert forall|k: int, l: int| 0 <= k < l < cs.len() implies (
            #[trigger] cs[k]).bodies != (#[trigger] cs[l]).bodies by {
                if l < cs.len() - 1 {
                    assert(cs[k] == prev[k] && cs[l] == prev[l]);
                } else {
                    assert(cs[k] == prev[k]);
                    let q = choose|q: int|
                        0 <= q < n - 1 && prev[k] == narrow_contact(es, ps[q]) && prev[k].bodies
                            == ps[q] && narrow_hit(es, ps[q]);
                    assert(ps[q].lt_spec(ps[n - 1]));
                    assert(cs[l].bodies == ps[n - 1]);
                }
            }
        } else {
            assert(cs == prev);
        }
    }
}

/// The pair a narrow contact reports is the pair it was asked about.
pub proof fn lemma_narrow_contact_bodies(es: Seq<EntityRecord>, p: EntityPair)
    ensures
        narrow_contact(es, p).bodies == p,
{
    reveal(narrow_contact);
}

/// Publishes the tick's contact buffer, in order, to the event stream,
/// as the stream-transport form of each contact.
pub fn publish_contacts(contacts: &Contacts, channel: &mut EventChannel)
    requires
        old(channel).wf(),
        old(channel).total() + contacts.contacts_seq().len() <= usize::MAX,
    ensures
        final(channel).wf(),
        final(channel).capacity_spec() == old(channel).capacity_spec(),
        final(channel).history_seq() == old(channel).history_seq() + contacts.contacts_seq()
            .map_values(|c: ContactSet| ContactEvent::of_set_spec(c)),
{
    let n = contacts.len();
    let mut k: usize = 0;
    while k < n
        invariant
            n == contacts.contacts_seq().len(),
            0 <= k <= n,
            channel.wf(),
            channel.capacity_spec() == old(channel).capacity_spec(),
            old(channel).total() + n <= usize::MAX,
            channel.history_seq() == old(channel).history_seq() + contacts.contacts_seq().subrange(
                0,
                k as int,
            ).map_values(|c: ContactSet| ContactEvent::of_set_spec(c)),
        decreases n - k,
    {
        let ev = ContactEvent::of_set(contacts.get(k));
        channel.single_write(ev);
        proof {
            let cs = contacts.contacts_seq();
            let f = |c: ContactSet| ContactEvent::of_set_spec(c);
            assert(cs.subrange(0, k + 1) =~= cs.subrange(0, k as int).push(cs[k as int]));
            assert(cs.subrange(0, k + 1).map_values(f) =~= cs.subrange(0, k as int).map_values(
                f,
            ).push(f(cs[k as int])));
            assert(channel.history_seq() =~= old(channel).history_seq() + cs.subrange(
                0,
                k + 1,
            ).map_values(f));
        }
        k += 1;
    }
    proof {
        let cs = contacts.contacts_seq();
        assert(cs.subrange(0, n as int) =~= cs);
    }
}

} // verus!
