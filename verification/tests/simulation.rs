use rhusics::broad::EntityRecord;
use rhusics::collide::{
    collide, BoxPrimitive, CollisionShape, CollisionStrategy, ContactEvent, EntityPair,
};
use rhusics::dbvt::DynamicBoundingVolumeTree;
use rhusics::events::EventChannel;
use rhusics::math::{Aabb, Vector2};
use rhusics::physics::{
    BodyPose, DeltaTime, ForceAccumulator, Mass, Material, NextFrame, RigidBody, Velocity,
};
use rhusics::solver::{contact_resolution, compute_next_frame, update_current_frame, BodyRecord};
use rhusics::spatial::{publish_contacts, BroadPhaseMode, Contacts, NarrowPhaseMode, SpatialCollisionSystem};

fn record(id: u64, x: i64, y: i64, half: i64, dirty: bool) -> EntityRecord {
    let pose = BodyPose {
        position: Vector2 { x, y },
        rotation: 0,
        dirty,
    };
    let primitive = BoxPrimitive::new(half, half);
    let bound = primitive.compute_bound(&pose);
    EntityRecord {
        id,
        pose,
        shape: CollisionShape::new(primitive, bound),
    }
}

fn body(id: u64) -> BodyRecord {
    BodyRecord {
        id,
        pose: Some(BodyPose {
            position: Vector2 { x: 0, y: 0 },
            rotation: 0,
            dirty: false,
        }),
        velocity: Some(Velocity::zero()),
        next_pose: None,
        next_velocity: None,
        mass: Some(Mass::new(1)),
        body: Some(RigidBody::new(Material::new(0, 0))),
        force: None,
    }
}

#[test]
fn broad_phase_one_collision_only_contact() {
    // Two entities with overlapping bounds, one flagged dirty, no
    // narrow phase: exactly one detection-only contact for the pair.
    let entities = vec![record(1, 0, 0, 10, true), record(2, 15, 0, 10, false)];
    let mut tree = DynamicBoundingVolumeTree::new();
    tree.insert(1, entities[0].shape.bound());
    tree.insert(2, entities[1].shape.bound());
    tree.reindex_values();
    let mut contacts = Contacts::new();
    let system = SpatialCollisionSystem::new();
    system.run(&entities, &mut contacts, &mut tree);
    assert_eq!(contacts.len(), 1);
    let c = contacts.get(0);
    assert_eq!(c.bodies, EntityPair { a: 1, b: 2 });
    assert!(matches!(c.strategy, CollisionStrategy::CollisionOnly));
    assert_eq!(c.normal, Vector2 { x: 0, y: 0 });
    assert_eq!(c.penetration, 0);
}

#[test]
fn broad_phase_no_self_pair_and_dedup() {
    // Both entities dirty: the canonical pair still appears only once.
    let entities = vec![record(1, 0, 0, 10, true), record(2, 15, 0, 10, true)];
    let mut tree = DynamicBoundingVolumeTree::new();
    tree.insert(1, entities[0].shape.bound());
    tree.insert(2, entities[1].shape.bound());
    tree.reindex_values();
    let mut contacts = Contacts::new();
    let system = SpatialCollisionSystem::new();
    system.run(&entities, &mut contacts, &mut tree);
    assert_eq!(contacts.len(), 1);
    assert_eq!(contacts.get(0).bodies, EntityPair { a: 1, b: 2 });
}

#[test]
fn narrow_phase_reports_full_manifold() {
    let entities = vec![record(1, 0, 0, 10, true), record(2, 15, 0, 10, false)];
    let mut tree = DynamicBoundingVolumeTree::new();
    tree.insert(1, entities[0].shape.bound());
    tree.insert(2, entities[1].shape.bound());
    tree.reindex_values();
    let mut contacts = Contacts::new();
    let system = SpatialCollisionSystem::new().with_narrow_phase(NarrowPhaseMode::BoxBox);
    system.run(&entities, &mut contacts, &mut tree);
    assert_eq!(contacts.len(), 1);
    let c = contacts.get(0);
    assert!(matches!(c.strategy, CollisionStrategy::FullResolution));
    assert_eq!(c.normal, Vector2 { x: 1, y: 0 });
    assert_eq!(c.penetration, 5);
}

#[test]
fn collide_some_iff_intersecting() {
    let a = record(1, 0, 0, 10, true);
    let b = record(2, 15, 0, 10, true);
    let c = record(3, 100, 100, 10, true);
    assert!(collide(1, &a.shape, &a.pose, 2, &b.shape, &b.pose).is_some());
    assert!(collide(1, &a.shape, &a.pose, 3, &c.shape, &c.pose).is_none());
    // touching edges count as intersecting
    let d = record(4, 20, 0, 10, true);
    let hit = collide(1, &a.shape, &a.pose, 4, &d.shape, &d.pose).unwrap();
    assert_eq!(hit.penetration, 0);
}

#[test]
fn frame_promotion_copies_exactly() {
    let mut b = body(7);
    b.next_pose = Some(NextFrame {
        value: BodyPose {
            position: Vector2 { x: 42, y: -9 },
            rotation: 3,
            dirty: true,
        },
    });
    b.next_velocity = Some(NextFrame {
        value: Velocity::new(Vector2 { x: 11, y: -4 }, 2),
    });
    let mut bodies = vec![b];
    update_current_frame(&mut bodies);
    assert_eq!(bodies[0].pose.unwrap(), bodies[0].next_pose.unwrap().value);
    assert_eq!(
        bodies[0].velocity.unwrap(),
        bodies[0].next_velocity.unwrap().value
    );
    assert_eq!(bodies[0].pose.unwrap().position, Vector2 { x: 42, y: -9 });
    assert_eq!(bodies[0].velocity.unwrap().linear, Vector2 { x: 11, y: -4 });
}

#[test]
fn zero_force_leaves_velocity_unchanged() {
    let mut b = body(1);
    b.next_velocity = Some(NextFrame {
        value: Velocity::new(Vector2 { x: 5, y: -3 }, 0),
    });
    b.force = Some(ForceAccumulator::zero());
    let mut bodies = vec![b];
    compute_next_frame(&mut bodies, &DeltaTime { delta_seconds: 10 });
    assert_eq!(
        bodies[0].next_velocity.unwrap().value.linear,
        Vector2 { x: 5, y: -3 }
    );
}

#[test]
fn constant_force_n_ticks_exact() {
    // v_n == v0 + n * (f * im) * dt, per-step semi-implicit Euler.
    let mut b = body(1);
    b.next_velocity = Some(NextFrame {
        value: Velocity::new(Vector2 { x: 5, y: 0 }, 0),
    });
    b.mass = Some(Mass::new(2));
    let mut bodies = vec![b];
    let dt = DeltaTime { delta_seconds: 10 };
    let n: i64 = 4;
    for _ in 0..n {
        bodies[0].force = Some(ForceAccumulator::new(Vector2 { x: 3, y: 0 }, 0));
        compute_next_frame(&mut bodies, &dt);
        // the accumulator drains to zero exactly once per tick
        assert_eq!(bodies[0].force.unwrap().force, Vector2 { x: 0, y: 0 });
    }
    let expected = 5 + n * (3 * 2) * 10;
    assert_eq!(bodies[0].next_velocity.unwrap().value.linear.x, expected);
}

#[test]
fn head_on_equal_mass_restitution_zero() {
    // Two equal-mass bodies, restitution 0, velocities +v and -v along
    // the normal: both next-frame velocities along the normal become 0.
    let mut channel = EventChannel::new();
    let mut reader = channel.register_reader();
    let mut a = body(1);
    a.next_velocity = Some(NextFrame {
        value: Velocity::new(Vector2 { x: 100, y: 0 }, 0),
    });
    let mut b = body(2);
    b.next_velocity = Some(NextFrame {
        value: Velocity::new(Vector2 { x: -100, y: 0 }, 0),
    });
    let mut bodies = vec![a, b];
    channel.single_write(ContactEvent {
        bodies: EntityPair { a: 1, b: 2 },
        strategy: CollisionStrategy::FullResolution,
        normal: Vector2 { x: 1, y: 0 },
        penetration: 0,
    });
    let loss = contact_resolution(&channel, &mut reader, &mut bodies);
    assert!(loss.is_none());
    assert_eq!(bodies[0].next_velocity.unwrap().value.linear.x, 0);
    assert_eq!(bodies[1].next_velocity.unwrap().value.linear.x, 0);
}

#[test]
fn immovable_body_velocity_unchanged() {
    // A body with inverse mass 0 never has its velocity changed by
    // contact resolution.
    let mut channel = EventChannel::new();
    let mut reader = channel.register_reader();
    let mut a = body(1);
    a.mass = Some(Mass::new(0));
    a.next_velocity = Some(NextFrame {
        value: Velocity::new(Vector2 { x: 100, y: 0 }, 0),
    });
    let mut b = body(2);
    b.next_velocity = Some(NextFrame {
        value: Velocity::new(Vector2 { x: -100, y: 0 }, 0),
    });
    let mut bodies = vec![a, b];
    channel.single_write(ContactEvent {
        bodies: EntityPair { a: 1, b: 2 },
        strategy: CollisionStrategy::FullResolution,
        normal: Vector2 { x: 1, y: 0 },
        penetration: 0,
    });
    contact_resolution(&channel, &mut reader, &mut bodies);
    assert_eq!(bodies[0].next_velocity.unwrap().value.linear.x, 100);
    // the movable other body takes the whole impulse
    assert_ne!(bodies[1].next_velocity.unwrap().value.linear.x, -100);
}

#[test]
fn collision_only_event_changes_nothing() {
    let mut channel = EventChannel::new();
    let mut reader = channel.register_reader();
    let mut a = body(1);
    a.next_velocity = Some(NextFrame {
        value: Velocity::new(Vector2 { x: 100, y: 0 }, 0),
    });
    let b = body(2);
    let mut bodies = vec![a, b];
    channel.single_write(ContactEvent {
        bodies: EntityPair { a: 1, b: 2 },
        strategy: CollisionStrategy::CollisionOnly,
        normal: Vector2 { x: 0, y: 0 },
        penetration: 0,
    });
    contact_resolution(&channel, &mut reader, &mut bodies);
    assert_eq!(bodies[0].next_velocity.unwrap().value.linear.x, 100);
    assert!(bodies[1].next_velocity.is_none());
}

#[test]
fn lossy_read_skips_and_reports() {
    // A consumer whose cursor lags beyond retention: the drain yields
    // only the surviving events, the loss is reported, nothing aborts.
    let mut channel = EventChannel::with_capacity(2);
    let mut reader = channel.register_reader();
    for i in 0..3u64 {
        channel.single_write(ContactEvent {
            bodies: EntityPair { a: i, b: i + 10 },
            strategy: CollisionStrategy::CollisionOnly,
            normal: Vector2 { x: 0, y: 0 },
            penetration: 0,
        });
    }
    let (events, loss) = channel.lossy_read(&mut reader);
    assert_eq!(events.len(), 2);
    assert_eq!(events[0].bodies, EntityPair { a: 1, b: 11 });
    assert_eq!(events[1].bodies, EntityPair { a: 2, b: 12 });
    assert_eq!(loss.unwrap().skipped, 1);
    // the cursor caught up: the next read is clean and empty
    let (rest, loss2) = channel.lossy_read(&mut reader);
    assert!(rest.is_empty());
    assert!(loss2.is_none());
}

#[test]
fn dbvt_insert_remove_query() {
    let mut tree = DynamicBoundingVolumeTree::new();
    let near = Aabb::new(Vector2 { x: 0, y: 0 }, Vector2 { x: 10, y: 10 });
    let far = Aabb::new(Vector2 { x: 100, y: 100 }, Vector2 { x: 110, y: 110 });
    tree.insert(1, near);
    tree.insert(2, far);
    // queries see nothing until the batched reindex
    assert!(tree.query_discrete(&near).is_empty());
    tree.reindex_values();
    let hits = tree.query_discrete(&near);
    assert_eq!(hits.len(), 1);
    assert_eq!(hits[0].id, 1);
    tree.remove(1);
    tree.reindex_values();
    assert!(tree.query_discrete(&near).is_empty());
}

#[test]
fn brute_force_broad_phase_ignores_dirty_flags() {
    // An injected full-set broad phase computes pairs from the whole
    // value set directly: no dirty filtering.
    let entities = vec![record(1, 0, 0, 10, false), record(2, 15, 0, 10, false)];
    let mut tree = DynamicBoundingVolumeTree::new();
    tree.insert(1, entities[0].shape.bound());
    tree.insert(2, entities[1].shape.bound());
    tree.reindex_values();
    let mut contacts = Contacts::new();
    let system = SpatialCollisionSystem::new().with_broad_phase(BroadPhaseMode::BruteForce);
    system.run(&entities, &mut contacts, &mut tree);
    assert_eq!(contacts.len(), 1);
    assert_eq!(contacts.get(0).bodies, EntityPair { a: 1, b: 2 });

    // the default index-driven broad phase skips the same settled pair
    let mut contacts2 = Contacts::new();
    let system2 = SpatialCollisionSystem::new();
    system2.run(&entities, &mut contacts2, &mut tree);
    assert_eq!(contacts2.len(), 0);
}

#[test]
fn published_contacts_reach_a_registered_reader() {
    let entities = vec![record(1, 0, 0, 10, true), record(2, 15, 0, 10, false)];
    let mut tree = DynamicBoundingVolumeTree::new();
    tree.insert(1, entities[0].shape.bound());
    tree.insert(2, entities[1].shape.bound());
    tree.reindex_values();
    let mut contacts = Contacts::new();
    let mut channel = EventChannel::new();
    let mut reader = channel.register_reader();
    let system = SpatialCollisionSystem::new().with_narrow_phase(NarrowPhaseMode::BoxBox);
    system.run(&entities, &mut contacts, &mut tree);
    publish_contacts(&contacts, &mut channel);
    let (events, loss) = channel.lossy_read(&mut reader);
    assert!(loss.is_none());
    assert_eq!(events.len(), 1);
    assert_eq!(events[0].bodies, EntityPair { a: 1, b: 2 });
    assert_eq!(events[0].penetration, 5);
    assert_eq!(events[0].normal, Vector2 { x: 1, y: 0 });
}

#[test]
fn update_bound_visible_after_reindex() {
    let mut tree = DynamicBoundingVolumeTree::new();
    let near = Aabb::new(Vector2 { x: 0, y: 0 }, Vector2 { x: 10, y: 10 });
    let far = Aabb::new(Vector2 { x: 100, y: 100 }, Vector2 { x: 110, y: 110 });
    tree.insert(1, near);
    tree.reindex_values();
    tree.update_bound(1, far);
    // the old snapshot still answers until the batched reindex
    assert_eq!(tree.query_discrete(&near).len(), 1);
    tree.reindex_values();
    assert!(tree.query_discrete(&near).is_empty());
    assert_eq!(tree.query_discrete(&far).len(), 1);
}

#[test]
fn empty_world_yields_no_contacts() {
    let entities: Vec<EntityRecord> = Vec::new();
    let mut tree = DynamicBoundingVolumeTree::new();
    let mut contacts = Contacts::new();
    let system = SpatialCollisionSystem::new();
    system.run(&entities, &mut contacts, &mut tree);
    assert_eq!(contacts.len(), 0);
}

#[test]
fn solver_run_full_tick() {
    // One whole solver pass over one moving body with no contacts:
    // promotion copies next-frame state to current, then integration
    // advances the next frame from the promoted state.
    let mut channel = EventChannel::new();
    let reader = channel.register_reader();
    let mut solver = rhusics::solver::LinearSolverSystem::new(reader);
    let mut b = body(1);
    b.next_velocity = Some(NextFrame {
        value: Velocity::new(Vector2 { x: 7, y: 0 }, 0),
    });
    b.next_pose = Some(NextFrame {
        value: BodyPose {
            position: Vector2 { x: 1, y: 0 },
            rotation: 0,
            dirty: true,
        },
    });
    b.force = Some(ForceAccumulator::zero());
    let mut bodies = vec![b];
    let loss = solver.run(&DeltaTime { delta_seconds: 2 }, &channel, &mut bodies);
    assert!(loss.is_none());
    // promotion: current state equals the old next-frame state
    assert_eq!(bodies[0].pose.unwrap().position, Vector2 { x: 1, y: 0 });
    assert_eq!(bodies[0].velocity.unwrap().linear, Vector2 { x: 7, y: 0 });
    // integration: zero force keeps the velocity; the next-frame pose
    // advances by velocity times the tick duration
    assert_eq!(
        bodies[0].next_velocity.unwrap().value.linear,
        Vector2 { x: 7, y: 0 }
    );
    assert_eq!(
        bodies[0].next_pose.unwrap().value.position,
        Vector2 { x: 15, y: 0 }
    );
}
