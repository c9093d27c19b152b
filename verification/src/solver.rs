//! The linear dynamics solver: drains new contact events, resolves
//! impulses into next-frame state, promotes next-frame state to
//! current, and integrates accumulated forces with semi-implicit Euler.

use vstd::prelude::*;
use crate::collide::ContactEvent;
use crate::events::{EventChannel, ReaderId, StreamLoss};
use crate::math::{Vector2, MAX_COORD, MAX_DELTA, MAX_FORCE, MAX_INVERSE_MASS, MAX_VELOCITY};
use crate::physics::{
    linear_resolve_contact, resolve_pair_spec, BodyPose, ChangeSet, DeltaTime, ForceAccumulator,
    Mass, Material, NextFrame, ResolveData, RigidBody, Velocity,
};

verus! {

/// Everything the solver reads and writes about one entity. A missing
/// component means the entity is not registered in that storage.
#[derive(Clone, Copy, PartialEq, Eq, Structural, Debug)]
pub struct BodyRecord {
    pub id: u64,
    pub pose: Option<BodyPose>,
    pub velocity: Option<Velocity>,
    pub next_pose: Option<NextFrame<BodyPose>>,
    pub next_velocity: Option<NextFrame<Velocity>>,
    pub mass: Option<Mass>,
    pub body: Option<RigidBody>,
    pub force: Option<ForceAccumulator>,
}

/// No two records carry the same id.
pub open spec fn bodies_unique(bs: Seq<BodyRecord>) -> bool {
    forall|i: int, j: int| 0 <= i < j < bs.len() ==> #[trigger] bs[i].id != #[trigger] bs[j].id
}

pub open spec fn has_body(bs: Seq<BodyRecord>, id: u64) -> bool {
    exists|i: int| 0 <= i < bs.len() && (#[trigger] bs[i]).id == id
}

pub open spec fn body_idx(bs: Seq<BodyRecord>, id: u64) -> int {
    choose|i: int| 0 <= i < bs.len() && (#[trigger] bs[i]).id == id
}

/// The pose resolution works against: the next-frame predicted pose if
/// one exists this tick, else the current pose.
pub open spec fn effective_pose(r: BodyRecord) -> BodyPose {
    match r.next_pose {
        Some(np) => np.value,
        None => r.pose->Some_0,
    }
}

/// The next-frame velocity resolution works against, if present.
pub open spec fn effective_velocity(r: BodyRecord) -> Velocity {
    match r.next_velocity {
        Some(nv) => nv.value,
        None => Velocity::zero_spec(),
    }
}

/// What resolution reads about one body; its mass and material must be
/// registered, which is the caller's fatal precondition.
pub open spec fn resolve_data_of(r: BodyRecord) -> ResolveData {
    ResolveData {
        velocity: match r.next_velocity {
            Some(nv) => Some(nv.value),
            None => None,
        },
        pose: effective_pose(r),
        mass: r.mass->Some_0,
        material: r.body->Some_0.material,
    }
}

/// Applies one change set to a body's next-frame slots, creating them
/// if absent: the velocity delta lands on the effective next-frame
/// velocity, the positional correction on the effective pose.
pub open spec fn apply_change_spec(r: BodyRecord, c: ChangeSet) -> BodyRecord {
    let r1 = match c.velocity {
        Some(dv) => {
            let base = effective_velocity(r);
            BodyRecord {
                next_velocity: Some(
                    NextFrame {
                        value: Velocity {
                            linear: Vector2 {
                                x: (base.linear.x + dv.x) as i64,
                                y: (base.linear.y + dv.y) as i64,
                            },
                            angular: base.angular,
                        },
                    },
                ),
                ..r
            }
        },
        None => r,
    };
    match c.position {
        Some(dp) => {
            let base = effective_pose(r1);
            BodyRecord {
                next_pose: Some(
                    NextFrame {
                        value: BodyPose::new_spec(
                            Vector2 {
                                x: (base.position.x + dp.x) as i64,
                                y: (base.position.y + dp.y) as i64,
                            },
                            base.rotation,
                        ),
                    },
                ),
                ..r1
            }
        },
        None => r1,
    }
}

/// One body is fit for resolution: mass and material registered (their
/// absence is a fatal precondition violation), a pose to fall back on,
/// and state within the library's numeric limits.
pub open spec fn body_ok(r: BodyRecord) -> bool {
    &&& r.mass is Some
    &&& r.mass->Some_0.wf()
    &&& r.body is Some
    &&& r.body->Some_0.material.wf()
    &&& r.next_pose is Some || r.pose is Some
    &&& effective_pose(r).position.in_range(MAX_COORD as int)
    &&& effective_velocity(r).linear.in_range(MAX_VELOCITY as int)
}

/// One event can be resolved against the body set: both bodies are
/// registered and fit, and the manifold lies within numeric limits.
pub open spec fn event_ok(bs: Seq<BodyRecord>, ev: ContactEvent) -> bool {
    &&& has_body(bs, ev.bodies.a)
    &&& has_body(bs, ev.bodies.b)
    &&& body_ok(bs[body_idx(bs, ev.bodies.a)])
    &&& body_ok(bs[body_idx(bs, ev.bodies.b)])
    &&& ev.normal.in_range(1)
    &&& 0 <= ev.penetration <= 2 * MAX_COORD
}

/// Resolving one event: both change sets are computed from the
/// pre-state, then applied to the first body and then the second.
#[verifier::opaque]
pub open spec fn resolve_one(bs: Seq<BodyRecord>, ev: ContactEvent) -> Seq<BodyRecord> {
    if has_body(bs, ev.bodies.a) && has_body(bs, ev.bodies.b) {
        let ia = body_idx(bs, ev.bodies.a);
        let ib = body_idx(bs, ev.bodies.b);
        let changes = resolve_pair_spec(
            ev.strategy,
            ev.normal,
            ev.penetration,
            resolve_data_of(bs[ia]),
            resolve_data_of(bs[ib]),
        );
        let s1 = bs.update(ia, apply_change_spec(bs[ia], changes.0));
        s1.update(ib, apply_change_spec(s1[ib], changes.1))
    } else {
        bs
    }
}

/// The body set after the first `k` drained events are resolved in
/// order.
pub open spec fn resolve_upto(bs: Seq<BodyRecord>, evs: Seq<ContactEvent>, k: int) -> Seq<
    BodyRecord,
>
    decreases k,
{
    if k <= 0 {
        bs
    } else {
        resolve_one(resolve_upto(bs, evs, k - 1), evs[k - 1])
    }
}

/// Resolving one event never adds or removes records.
pub proof fn lemma_resolve_one_len(bs: Seq<BodyRecord>, ev: ContactEvent)
    ensures
        resolve_one(bs, ev).len() == bs.len(),
{
    reveal(resolve_one);
}

/// Resolving any prefix of events never adds or removes records.
pub proof fn lemma_resolve_upto_len(bs: Seq<BodyRecord>, evs: Seq<ContactEvent>, k: int)
    ensures
        resolve_upto(bs, evs, k).len() == bs.len(),
    decreases k,
{
    if k > 0 {
        lemma_resolve_upto_len(bs, evs, k - 1);
        lemma_resolve_one_len(resolve_upto(bs, evs, k - 1), evs[k - 1]);
    }
}

/// Every drained event finds the body set it meets fit for resolution.
pub open spec fn events_ok(bs: Seq<BodyRecord>, evs: Seq<ContactEvent>) -> bool {
    forall|k: int| 0 <= k < evs.len() ==> event_ok(resolve_upto(bs, evs, k), #[trigger] evs[k])
}

/// Frame promotion for one entity: a next-frame pose or velocity
/// overwrites the current value exactly, with no interpolation; a slot
/// without a current value to overwrite is left for integration.
pub open spec fn promote_record(r: BodyRecord) -> BodyRecord {
    let r1 = if r.next_pose is Some && r.pose is Some {
        BodyRecord { pose: Some(r.next_pose->Some_0.value), ..r }
    } else {
        r
    };
    if r1.next_velocity is Some && r1.velocity is Some {
        BodyRecord { velocity: Some(r1.next_velocity->Some_0.value), ..r1 }
    } else {
        r1
    }
}

/// Semi-implicit Euler, velocity half: for an entity with a next-frame
/// velocity, a mass and a force accumulator, acceleration is the
/// accumulated force times the inverse mass; the next-frame velocity
/// gains acceleration times the tick duration, and the accumulator is
/// drained to zero.
pub open spec fn integrate_force_record(r: BodyRecord, dt: int) -> BodyRecord {
    if r.next_velocity is Some && r.force is Some && r.mass is Some {
        let v = r.next_velocity->Some_0.value;
        let f = r.force->Some_0;
        let im = r.mass->Some_0.inverse_mass as int;
        BodyRecord {
            next_velocity: Some(
                NextFrame {
                    value: Velocity {
                        linear: Vector2 {
                            x: (v.linear.x + f.force.x * im * dt) as i64,
                            y: (v.linear.y + f.force.y * im * dt) as i64,
                        },
                        angular: v.angular,
                    },
                },
            ),
            force: Some(ForceAccumulator { force: Vector2::zero_spec(), torque: f.torque }),
            ..r
        }
    } else {
        r
    }
}

/// Semi-implicit Euler, position half: for an entity with a next-frame
/// velocity, a current pose and a next-frame pose slot, the next-frame
/// position is the current position plus the new velocity times the
/// tick duration; rotation is carried through unchanged.
pub open spec fn integrate_pose_record(r: BodyRecord, dt: int) -> BodyRecord {
    if r.next_velocity is Some && r.pose is Some && r.next_pose is Some {
        let v = r.next_velocity->Some_0.value;
        let p = r.pose->Some_0;
        BodyRecord {
            next_pose: Some(
                NextFrame {
                    value: BodyPose::new_spec(
                        Vector2 {
                            x: (p.position.x + v.linear.x * dt) as i64,
                            y: (p.position.y + v.linear.y * dt) as i64,
                        },
                        p.rotation,
                    ),
                },
            ),
            ..r
        }
    } else {
        r
    }
}

/// One entity's whole integration step: forces first, then position
/// from the new velocity.
pub open spec fn integrate_record(r: BodyRecord, dt: int) -> BodyRecord {
    integrate_pose_record(integrate_force_record(r, dt), dt)
}

/// A record is within the numeric limits integration needs.
pub open spec fn integration_bounded(r: BodyRecord) -> bool {
    &&& (r.next_velocity is Some ==> r.next_velocity->Some_0.value.linear.in_range(
        MAX_VELOCITY as int,
    ))
    &&& (r.force is Some ==> r.force->Some_0.force.in_range(MAX_FORCE as int))
    &&& (r.mass is Some ==> r.mass->Some_0.wf())
    &&& (r.pose is Some ==> r.pose->Some_0.position.in_range(MAX_COORD as int))
}

/// Index of the first record carrying the id.
fn find_body(bodies: &Vec<BodyRecord>, id: u64) -> (r: Option<usize>)
    ensures
        r is Some <==> has_body(bodies@, id),
        r is Some ==> 0 <= r->Some_0 < bodies@.len() && bodies@[r->Some_0 as int].id == id,
{
    let n = bodies.len();
    let mut i: usize = 0;
    while i < n
        invariant
            n == bodies@.len(),
            0 <= i <= n,
            forall|k: int| 0 <= k < i ==> (#[trigger] bodies@[k]).id != id,
        decreases n - i,
    {
        if bodies[i].id == id {
            return Some(i);
        }
        i += 1;
    }
    None
}

/// A record found at an index by its id is the record `body_idx` names,
/// when ids are unique.
proof fn lemma_body_idx(bs: Seq<BodyRecord>, i: int, id: u64)
    requires
        bodies_unique(bs),
        0 <= i < bs.len(),
        bs[i].id == id,
    ensures
        body_idx(bs, id) == i,
        has_body(bs, id),
{
    assert(has_body(bs, id));
    let j = choose|j: int| 0 <= j < bs.len() && (#[trigger] bs[j]).id == id;
    if i < j {
        assert(bs[i].id != bs[j].id);
    }
    if j < i {
        assert(bs[j].id != bs[i].id);
    }
}

/// Applies one change set to one record of the set.
fn apply_change(bodies: &mut Vec<BodyRecord>, i: usize, c: ChangeSet)
    requires
        i < old(bodies)@.len(),
        c.velocity is Some ==> c.velocity->Some_0.in_range(16_000_000_000_000_000)
            && effective_velocity(old(bodies)@[i as int]).linear.in_range(
            32_000_000_000_000_000,
        ),
        c.position is Some ==> ({
            let r1 = apply_change_spec(
                old(bodies)@[i as int],
                ChangeSet { velocity: c.velocity, position: None },
            );
            &&& r1.next_pose is Some || r1.pose is Some
            &&& c.position->Some_0.in_range(4_000_000_000_000_000)
            &&& effective_pose(r1).position.in_range(8_000_000_000_000_000)
        }),
    ensures
        final(bodies)@ == old(bodies)@.update(
            i as int,
            apply_change_spec(old(bodies)@[i as int], c),
        ),
{
    let mut r = bodies[i];
    match c.velocity {
        Some(dv) => {
            let base = match r.next_velocity {
                Some(nv) => nv.value,
                None => Velocity::zero(),
            };
            r.next_velocity = Some(
                NextFrame {
                    value: Velocity {
                        linear: Vector2 { x: base.linear.x + dv.x, y: base.linear.y + dv.y },
                        angular: base.angular,
                    },
                },
            );
        },
        None => {},
    }
    match c.position {
        Some(dp) => {
            let base = match r.next_pose {
                Some(np) => np.value,
                None => match r.pose {
                    Some(p) => p,
                    None => {
                        proof {
                            assert(false);
                        }
                        BodyPose::new(Vector2::zero(), 0)
                    },
                },
            };
            r.next_pose = Some(
                NextFrame {
                    value: BodyPose::new(
                        Vector2 { x: base.position.x + dp.x, y: base.position.y + dp.y },
                        base.rotation,
                    ),
                },
            );
        },
        None => {},
    }
    let slot = &mut bodies[i];
    *slot = r;
}

/// Drains every contact event this reader has not yet seen and resolves
/// them in order against the body set. A reader that lagged beyond the
/// stream's retention reads lossily: the overwritten events are skipped
/// and the loss is reported, not fatal. Every drained event's bodies
/// must be registered with mass, material and a pose, a fatal
/// precondition on the host.
pub fn contact_resolution(
    channel: &EventChannel,
    contact_reader: &mut ReaderId,
    bodies: &mut Vec<BodyRecord>,
) -> (loss: Option<StreamLoss>)
    requires
        channel.wf(),
        0 <= old(contact_reader).cursor_spec() <= channel.total(),
        bodies_unique(old(bodies)@),
        events_ok(old(bodies)@, channel.readable_from(old(contact_reader).cursor_spec())),
    ensures
        final(contact_reader).cursor_spec() == channel.total(),
        final(bodies)@ == resolve_upto(
            old(bodies)@,
            channel.readable_from(old(contact_reader).cursor_spec()),
            channel.readable_from(old(contact_reader).cursor_spec()).len() as int,
        ),
        loss is Some <==> old(contact_reader).cursor_spec() < channel.retention_start(),
        loss is Some ==> loss->Some_0.skipped == channel.retention_start() - old(
            contact_reader,
        ).cursor_spec(),
        bodies_unique(final(bodies)@),
{
    let read = channel.lossy_read(contact_reader);
    let events = read.0;
    let loss = read.1;
    let ghost evs = events@;
    let n = events.len();
    let mut k: usize = 0;
    while k < n
        invariant
            n == evs.len(),
            0 <= k <= n,
            events@ == evs,
            bodies_unique(old(bodies)@),
            events_ok(old(bodies)@, evs),
            bodies@ == resolve_upto(old(bodies)@, evs, k as int),
            bodies_unique(bodies@),
        decreases n - k,
    {
        let ev = events[k];
        proof {
            assert(event_ok(bodies@, ev));
        }
        let ia = match find_body(bodies, ev.bodies.a) {
            Some(x) => x,
            None => {
                proof {
                    assert(false);
                }
                0
            },
        };
        proof {
            lemma_body_idx(bodies@, ia as int, ev.bodies.a);
        }
        let ra = bodies[ia];
        let data_a = ResolveData {
            velocity: match ra.next_velocity {
                Some(nv) => Some(nv.value),
                None => None,
            },
            pose: match ra.next_pose {
                Some(np) => np.value,
                None => match ra.pose {
                    Some(p) => p,
                    None => {
                        proof {
                            assert(false);
                        }
                        BodyPose::new(Vector2::zero(), 0)
                    },
                },
            },
            mass: match ra.mass {
                Some(m) => m,
                None => {
                    proof {
                        assert(false);
                    }
                    Mass { inverse_mass: 0 }
                },
            },
            material: match ra.body {
                Some(b) => b.material,
                None => {
                    proof {
                        assert(false);
                    }
                    Material { restitution: 0, friction: 0 }
                },
            },
        };
        let ib = match find_body(bodies, ev.bodies.b) {
            Some(x) => x,
            None => {
                proof {
                    assert(false);
                }
                0
            },
        };
        proof {
            lemma_body_idx(bodies@, ib as int, ev.bodies.b);
        }
        let rb = bodies[ib];
        let data_b = ResolveData {
            velocity: match rb.next_velocity {
                Some(nv) => Some(nv.value),
                None => None,
            },
            pose: match rb.next_pose {
                Some(np) => np.value,
                None => match rb.pose {
                    Some(p) => p,
                    None => {
                        proof {
                            assert(false);
                        }
                        BodyPose::new(Vector2::zero(), 0)
                    },
                },
            },
            mass: match rb.mass {
                Some(m) => m,
                None => {
                    proof {
                        assert(false);
                    }
                    Mass { inverse_mass: 0 }
                },
            },
            material: match rb.body {
                Some(b) => b.material,
                None => {
                    proof {
                        assert(false);
                    }
                    Material { restitution: 0, friction: 0 }
                },
            },
        };
        proof {
            assert(data_a == resolve_data_of(bodies@[ia as int]));
            assert(data_b == resolve_data_of(bodies@[ib as int]));
        }
        let changes = linear_resolve_contact(&ev, data_a, data_b);
        let ghost before = bodies@;
        proof {
            assert(effective_velocity(before[ia as int]).linear.in_range(
                32_000_000_000_000_000,
            ));
            assert(effective_pose(before[ia as int]).position.in_range(8_000_000_000_000_000));
            let r1a = apply_change_spec(
                before[ia as int],
                ChangeSet { velocity: changes.0.velocity, position: None },
            );
            assert(effective_pose(r1a) == effective_pose(before[ia as int]));
        }
        apply_change(bodies, ia, changes.0);
        proof {
            let applied = apply_change_spec(before[ia as int], changes.0);
            assert(bodies@ == before.update(ia as int, applied));
            let cur = bodies@[ib as int];
            if ib == ia {
                assert(cur == applied);
                assert(effective_velocity(cur).linear.in_range(32_000_000_000_000_000));
                assert(effective_pose(cur).position.in_range(8_000_000_000_000_000));
                assert(cur.next_pose is Some || cur.pose is Some);
            } else {
                assert(cur == before[ib as int]);
                assert(effective_velocity(cur).linear.in_range(32_000_000_000_000_000));
                assert(effective_pose(cur).position.in_range(8_000_000_000_000_000));
            }
            let r1b = apply_change_spec(
                cur,
                ChangeSet { velocity: changes.1.velocity, position: None },
            );
            assert(effective_pose(r1b) == effective_pose(cur));
        }
        apply_change(bodies, ib, changes.1);
        proof {
            reveal(resolve_one);
            assert(bodies@ == resolve_one(before, ev));
            assert(bodies@ == resolve_upto(old(bodies)@, evs, k + 1));
            assert forall|p: int, q: int|
                0 <= p < q < bodies@.len() implies #[trigger] bodies@[p].id
                != #[trigger] bodies@[q].id by {
                assert(bodies@[p].id == before[p].id && bodies@[q].id == before[q].id);
            }
        }
        k += 1;
    }
    loss
}

/// Frame promotion: for every entity carrying a next-frame pose or
/// velocity beside a current one, the current value becomes an exact
/// copy of the next-frame value.
pub fn update_current_frame(bodies: &mut Vec<BodyRecord>)
    ensures
        final(bodies)@.len() == old(bodies)@.len(),
        forall|i: int|
            0 <= i < old(bodies)@.len() ==> final(bodies)@[i] == promote_record(
                #[trigger] old(bodies)@[i],
            ),
{
    let n = bodies.len();
    let mut i: usize = 0;
    while i < n
        invariant
            n == bodies@.len(),
            0 <= i <= n,
            bodies@.len() == old(bodies)@.len(),
            forall|k: int|
                0 <= k < i ==> bodies@[k] == promote_record(#[trigger] old(bodies)@[k]),
            forall|k: int| i <= k < n ==> bodies@[k] == old(bodies)@[k],
        decreases n - i,
    {
        let mut r = bodies[i];
        match (r.next_pose, r.pose) {
            (Some(np), Some(_)) => {
                r.pose = Some(np.value);
            },
            _ => {},
        }
        match (r.next_velocity, r.velocity) {
            (Some(nv), Some(_)) => {
                r.velocity = Some(nv.value);
            },
            _ => {},
        }
        let slot = &mut bodies[i];
        *slot = r;
        i += 1;
    }
}

/// Force integration (semi-implicit Euler): the accumulated force turns
/// into a velocity change on the next-frame velocity, the accumulator
/// drains, and the next-frame position advances from the current one by
/// the new velocity, rotation carried through unchanged.
pub fn compute_next_frame(bodies: &mut Vec<BodyRecord>, time: &DeltaTime)
    requires
        0 <= time.delta_seconds <= MAX_DELTA,
        forall|i: int|
            0 <= i < old(bodies)@.len() ==> integration_bounded(#[trigger] old(bodies)@[i]),
    ensures
        final(bodies)@.len() == old(bodies)@.len(),
        forall|i: int|
            0 <= i < old(bodies)@.len() ==> final(bodies)@[i] == integrate_record(
                #[trigger] old(bodies)@[i],
                time.delta_seconds as int,
            ),
{
    let dt = time.delta_seconds;
    let n = bodies.len();
    let mut i: usize = 0;
    while i < n
        invariant
            n == bodies@.len(),
            0 <= i <= n,
            0 <= dt <= MAX_DELTA,
            dt == time.delta_seconds,
            bodies@.len() == old(bodies)@.len(),
            forall|k: int|
                0 <= k < old(bodies)@.len() ==> integration_bounded(#[trigger] old(bodies)@[k]),
            forall|k: int|
                0 <= k < i ==> bodies@[k] == integrate_record(
                    #[trigger] old(bodies)@[k],
                    dt as int,
                ),
            forall|k: int| i <= k < n ==> bodies@[k] == old(bodies)@[k],
        decreases n - i,
    {
        let mut r = bodies[i];
        match (r.next_velocity, r.force, r.mass) {
            (Some(nv), Some(f), Some(m)) => {
                proof {
                    assert(f.force.x * m.inverse_mass * dt <= 1_000_000_000_000_000
                        && f.force.x * m.inverse_mass * dt >= -1_000_000_000_000_000
                        && f.force.y * m.inverse_mass * dt <= 1_000_000_000_000_000
                        && f.force.y * m.inverse_mass * dt >= -1_000_000_000_000_000
                        && -1_000_000_000_000 <= f.force.x * m.inverse_mass
                            <= 1_000_000_000_000 && -1_000_000_000_000 <= f.force.y
                            * m.inverse_mass <= 1_000_000_000_000) by (nonlinear_arith)
                        requires
                            -1_000_000 <= f.force.x <= 1_000_000,
                            -1_000_000 <= f.force.y <= 1_000_000,
                            0 <= m.inverse_mass <= 1_000_000,
                            0 <= dt <= 1_000,
                    ;
                }
                let ax = f.force.x * m.inverse_mass * dt;
                let ay = f.force.y * m.inverse_mass * dt;
                r.next_velocity = Some(
                    NextFrame {
                        value: Velocity {
                            linear: Vector2 {
                                x: nv.value.linear.x + ax,
                                y: nv.value.linear.y + ay,
                            },
                            angular: nv.value.angular,
                        },
                    },
                );
                r.force = Some(ForceAccumulator { force: Vector2 { x: 0, y: 0 }, torque: f.torque });
            },
            _ => {},
        }
        proof {
            assert(r == integrate_force_record(old(bodies)@[i as int], dt as int));
        }
        match (r.next_velocity, r.pose, r.next_pose) {
            (Some(nv), Some(p), Some(_)) => {
                proof {
                    assert(nv.value.linear.x * dt <= 2_000_000_000_000_000_000
                        && nv.value.linear.x * dt >= -2_000_000_000_000_000_000
                        && nv.value.linear.y * dt <= 2_000_000_000_000_000_000
                        && nv.value.linear.y * dt >= -2_000_000_000_000_000_000)
                        by (nonlinear_arith)
                        requires
                            -2_000_000_000_000_000 <= nv.value.linear.x <= 2_000_000_000_000_000,
                            -2_000_000_000_000_000 <= nv.value.linear.y <= 2_000_000_000_000_000,
                            0 <= dt <= 1_000,
                    ;
                }
                let px = p.position.x + nv.value.linear.x * dt;
                let py = p.position.y + nv.value.linear.y * dt;
                r.next_pose = Some(
                    NextFrame { value: BodyPose::new(Vector2 { x: px, y: py }, p.rotation) },
                );
            },
            _ => {},
        }
        proof {
            assert(r == integrate_record(old(bodies)@[i as int], dt as int));
        }
        let slot = &mut bodies[i];
        *slot = r;
        i += 1;
    }
}

/// Linear physics solver system.
///
/// Does contact resolution, updates positions and velocities, does
/// force integration and sets up the next frame's positions and
/// velocities. Only handles linear quantities, no angular movement.
pub struct LinearSolverSystem {
    contact_reader: ReaderId,
}

impl LinearSolverSystem {
    pub closed spec fn reader_spec(self) -> ReaderId {
        self.contact_reader
    }

    /// Create a linear contact solver system around its own stream
    /// cursor.
    pub fn new(contact_reader: ReaderId) -> (r: LinearSolverSystem)
        ensures
            r.reader_spec() == contact_reader,
    {
        LinearSolverSystem { contact_reader }
    }

    /// One solver pass: drain and resolve new contact events, promote
    /// next-frame state to current, then integrate forces into the next
    /// frame. Returns the stream-loss diagnostic when the drain was
    /// lossy.
    #[verifier::rlimit(50)]
    #[verifier::spinoff_prover]
    pub fn run(
        &mut self,
        time: &DeltaTime,
        channel: &EventChannel,
        bodies: &mut Vec<BodyRecord>,
    ) -> (loss: Option<StreamLoss>)
        requires
            channel.wf(),
            0 <= old(self).reader_spec().cursor_spec() <= channel.total(),
            0 <= time.delta_seconds <= MAX_DELTA,
            bodies_unique(old(bodies)@),
            events_ok(
                old(bodies)@,
                channel.readable_from(old(self).reader_spec().cursor_spec()),
            ),
            solver_ready(
                old(bodies)@,
                channel.readable_from(old(self).reader_spec().cursor_spec()),
            ),
        ensures
            final(self).reader_spec().cursor_spec() == channel.total(),
            final(bodies)@.len() == old(bodies)@.len(),
            forall|i: int|
                0 <= i < old(bodies)@.len() ==> #[trigger] final(bodies)@[i] == solver_tick_spec(
                    old(bodies)@,
                    channel.readable_from(old(self).reader_spec().cursor_spec()),
                    time.delta_seconds as int,
                    i,
                ),
            loss is Some <==> old(self).reader_spec().cursor_spec() < channel.retention_start(),
            loss is Some ==> loss->Some_0.skipped == channel.retention_start() - old(
                self,
            ).reader_spec().cursor_spec(),
    {
        let ghost evs = channel.readable_from(old(self).reader_spec().cursor_spec());
        let loss = contact_resolution(channel, &mut self.contact_reader, bodies);
        let ghost resolved = resolved_state(old(bodies)@, evs);
        proof {
            lemma_resolve_upto_len(old(bodies)@, evs, evs.len() as int);
            assert(bodies@ == resolved);
        }
        update_current_frame(bodies);
        proof {
            assert forall|i: int| 0 <= i < bodies@.len() implies integration_bounded(
                #[trigger] bodies@[i],
            ) by {
                assert(bodies@[i] == promote_record(resolved[i]));
            }
        }
        let ghost promoted = bodies@;
        compute_next_frame(bodies, time);
        proof {
            assert forall|i: int| 0 <= i < old(bodies)@.len() implies #[trigger] bodies@[i]
                == solver_tick_spec(
                old(bodies)@,
                evs,
                time.delta_seconds as int,
                i,
            ) by {
                assert(promoted[i] == promote_record(resolved[i]));
                assert(bodies@[i] == integrate_record(promoted[i], time.delta_seconds as int));
            }
        }
        loss
    }
}

/// The body set after every drained event is resolved.
pub open spec fn resolved_state(bs: Seq<BodyRecord>, evs: Seq<ContactEvent>) -> Seq<BodyRecord> {
    resolve_upto(bs, evs, evs.len() as int)
}

/// Every resolved record, once promoted, is within integration's
/// numeric limits.
pub open spec fn solver_ready(bs: Seq<BodyRecord>, evs: Seq<ContactEvent>) -> bool {
    forall|i: int|
        0 <= i < resolved_state(bs, evs).len() ==> integration_bounded(
            promote_record(#[trigger] resolved_state(bs, evs)[i]),
        )
}

/// What one solver pass leaves of one record: its state after
/// resolution, promotion and integration, in that order.
pub open spec fn solver_tick_spec(
    bs: Seq<BodyRecord>,
    evs: Seq<ContactEvent>,
    dt: int,
    i: int,
) -> BodyRecord {
    integrate_record(promote_record(resolved_state(bs, evs)[i]), dt)
}

/// A body with inverse mass zero receives no change from resolving one
/// event, whether or not it is one of the event's bodies.
pub proof fn lemma_immovable_one_event(bs: Seq<BodyRecord>, ev: ContactEvent, i: int)
    requires
        0 <= i < bs.len(),
        bs[i].mass == Some(Mass { inverse_mass: 0i64 }),
    ensures
        resolve_one(bs, ev).len() == bs.len(),
        resolve_one(bs, ev)[i] == bs[i],
        forall|j: int| 0 <= j < bs.len() ==> (#[trigger] resolve_one(bs, ev)[j]).mass == bs[j].mass,
        forall|j: int| 0 <= j < bs.len() ==> (#[trigger] resolve_one(bs, ev)[j]).id == bs[j].id,
{
    reveal(resolve_one);
}

/// A body with inverse mass zero never has its next-frame velocity or
/// pose changed by contact resolution, regardless of the other bodies'
/// state, over any drained event sequence.
pub proof fn lemma_immovable_velocity(
    bs: Seq<BodyRecord>,
    evs: Seq<ContactEvent>,
    n: int,
    i: int,
)
    requires
        0 <= n <= evs.len(),
        0 <= i < bs.len(),
        bs[i].mass == Some(Mass { inverse_mass: 0i64 }),
    ensures
        resolve_upto(bs, evs, n).len() == bs.len(),
        resolve_upto(bs, evs, n)[i] == bs[i],
    decreases n,
{
    if n > 0 {
        lemma_immovable_velocity(bs, evs, n - 1, i);
        lemma_immovable_one_event(resolve_upto(bs, evs, n - 1), evs[n - 1], i);
    }
}

/// After frame promotion, the current pose and velocity equal exactly
/// the previous tick's next-frame values, with no interpolation.
pub proof fn lemma_frame_promotion(r: BodyRecord)
    requires
        r.pose is Some,
        r.velocity is Some,
    ensures
        r.next_pose is Some ==> promote_record(r).pose == Some(r.next_pose->Some_0.value),
        r.next_velocity is Some ==> promote_record(r).velocity == Some(
            r.next_velocity->Some_0.value,
        ),
        r.next_pose is None ==> promote_record(r).pose == r.pose,
        r.next_velocity is None ==> promote_record(r).velocity == r.velocity,
{
}

/// With a zero accumulated force, integration leaves the next-frame
/// velocity unchanged from its pre-integration value; only the
/// accumulator is (re)drained and the next-frame position advances.
pub proof fn lemma_zero_force_keeps_velocity(r: BodyRecord, dt: int)
    requires
        integration_bounded(r),
        r.force is Some ==> r.force->Some_0.force == Vector2::zero_spec(),
    ensures
        integrate_record(r, dt).next_velocity == r.next_velocity,
{
    if r.next_velocity is Some && r.force is Some && r.mass is Some {
        let im = r.mass->Some_0.inverse_mass as int;
        let fx = r.force->Some_0.force.x as int;
        let fy = r.force->Some_0.force.y as int;
        assert(fx * im * dt == 0 && fy * im * dt == 0) by (nonlinear_arith)
            requires
                fx == 0,
                fy == 0,
        ;
    }
}

/// Velocity of one axis after `n` successive ticks of duration `dt`,
/// each accumulating the same force component `f` on a body of inverse
/// mass `im`, under exact integer arithmetic.
pub open spec fn velocity_after_ticks(v0: int, f: int, im: int, dt: int, n: nat) -> int
    decreases n,
{
    if n == 0 {
        v0
    } else {
        velocity_after_ticks(v0, f, im, dt, (n - 1) as nat) + f * im * dt
    }
}

/// With a constant force `f`, inverse mass `im` and `n` successive
/// ticks of `dt`, the velocity after `n` ticks is exactly
/// `v0 + n * (f * im) * dt`: the per-step semi-implicit Euler sum, not
/// the continuous closed form.
pub proof fn lemma_constant_force_ticks(v0: int, f: int, im: int, dt: int, n: nat)
    ensures
        velocity_after_ticks(v0, f, im, dt, n) == v0 + n * (f * im * dt),
    decreases n,
{
    if n == 0 {
        assert(0 * (f * im * dt) == 0) by (nonlinear_arith);
    } else {
        lemma_constant_force_ticks(v0, f, im, dt, (n - 1) as nat);
        assert((n - 1) * (f * im * dt) + f * im * dt == n * (f * im * dt)) by (nonlinear_arith);
    }
}

} // verus!
