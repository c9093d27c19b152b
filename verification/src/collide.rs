//! Collision data: canonical entity pairs, contact records, shapes, and
//! the exact box-box narrow phase.

use vstd::prelude::*;
use crate::math::{Aabb, Vector2, MAX_COORD};
use crate::physics::BodyPose;

verus! {

/// A canonical pair of entity ids: the lower-ordered entity first. The
/// ordering of ids is not semantically meaningful; it only makes
/// deduplication by ordered search correct.
#[derive(Clone, Copy, PartialEq, Eq, Structural, Debug)]
pub struct EntityPair {
    pub a: u64,
    pub b: u64,
}

impl EntityPair {
    /// The lower id stands first, and the pair is never a self-pair.
    pub open spec fn canonical(self) -> bool {
        self.a < self.b
    }

    /// Lexicographic order on pairs, the order the candidate list keeps.
    pub open spec fn lt_spec(self, other: EntityPair) -> bool {
        self.a < other.a || (self.a == other.a && self.b < other.b)
    }

    /// The canonical pair formed from two distinct ids.
    pub open spec fn canonical_of(x: u64, y: u64) -> EntityPair {
        if x < y {
            EntityPair { a: x, b: y }
        } else {
            EntityPair { a: y, b: x }
        }
    }

    pub fn new_canonical(x: u64, y: u64) -> (r: EntityPair)
        requires
            x != y,
        ensures
            r == EntityPair::canonical_of(x, y),
            r.canonical(),
    {
        if x < y {
            EntityPair { a: x, b: y }
        } else {
            EntityPair { a: y, b: x }
        }
    }

    pub fn lt(&self, other: &EntityPair) -> (r: bool)
        ensures
            r == self.lt_spec(*other),
    {
        self.a < other.a || (self.a == other.a && self.b < other.b)
    }
}

/// How much contact detail a phase computed for a pair.
#[derive(Clone, Copy, PartialEq, Eq, Structural, Debug)]
pub enum CollisionStrategy {
    /// A full manifold: normal and penetration are meaningful.
    FullResolution,
    /// Detection only: the pair collided, with no manifold data.
    CollisionOnly,
}

/// One record per colliding pair: the two entity ids, the strategy tag,
/// and — when full — the contact normal and penetration depth.
#[derive(Clone, Copy, PartialEq, Eq, Structural, Debug)]
pub struct ContactSet {
    pub bodies: EntityPair,
    pub strategy: CollisionStrategy,
    pub normal: Vector2,
    pub penetration: i64,
}

impl ContactSet {
    /// A detection-only record: no manifold data.
    pub open spec fn new_single_spec(strategy: CollisionStrategy, bodies: EntityPair) -> ContactSet {
        ContactSet { bodies, strategy, normal: Vector2::zero_spec(), penetration: 0 }
    }

    pub fn new_single(strategy: CollisionStrategy, bodies: EntityPair) -> (r: ContactSet)
        ensures
            r == ContactSet::new_single_spec(strategy, bodies),
    {
        ContactSet { bodies, strategy, normal: Vector2 { x: 0, y: 0 }, penetration: 0 }
    }
}

/// The stream-transport form of a `ContactSet`, as the event channel
/// carries it to solver instances.
#[derive(Clone, Copy, PartialEq, Eq, Structural, Debug)]
pub struct ContactEvent {
    pub bodies: EntityPair,
    pub strategy: CollisionStrategy,
    pub normal: Vector2,
    pub penetration: i64,
}

impl ContactEvent {
    pub open spec fn of_set_spec(set: ContactSet) -> ContactEvent {
        ContactEvent {
            bodies: set.bodies,
            strategy: set.strategy,
            normal: set.normal,
            penetration: set.penetration,
        }
    }

    pub fn of_set(set: &ContactSet) -> (r: ContactEvent)
        ensures
            r == ContactEvent::of_set_spec(*set),
    {
        ContactEvent {
            bodies: set.bodies,
            strategy: set.strategy,
            normal: set.normal,
            penetration: set.penetration,
        }
    }
}

/// The geometric primitive of this core: an axis-aligned box given by
/// its half-extents, placed at a pose's position.
#[derive(Clone, Copy, PartialEq, Eq, Structural, Debug)]
pub struct BoxPrimitive {
    pub half_x: i64,
    pub half_y: i64,
}

impl BoxPrimitive {
    pub open spec fn wf(self) -> bool {
        0 <= self.half_x <= MAX_COORD && 0 <= self.half_y <= MAX_COORD
    }

    pub fn new(half_x: i64, half_y: i64) -> (r: BoxPrimitive)
        requires
            0 <= half_x <= MAX_COORD,
            0 <= half_y <= MAX_COORD,
        ensures
            r == (BoxPrimitive { half_x, half_y }),
            r.wf(),
    {
        BoxPrimitive { half_x, half_y }
    }

    /// The bound of this primitive at the given pose, the projection an
    /// external collaborator caches into the shape after pose changes.
    pub fn compute_bound(&self, pose: &BodyPose) -> (r: Aabb)
        requires
            self.wf(),
            pose.position.in_range(MAX_COORD as int),
        ensures
            r.min.x == pose.position.x - self.half_x,
            r.min.y == pose.position.y - self.half_y,
            r.max.x == pose.position.x + self.half_x,
            r.max.y == pose.position.y + self.half_y,
            r.wf(),
    {
        Aabb {
            min: Vector2 { x: pose.position.x - self.half_x, y: pose.position.y - self.half_y },
            max: Vector2 { x: pose.position.x + self.half_x, y: pose.position.y + self.half_y },
        }
    }
}

/// A collidable shape: its primitive and the cached bound derived from
/// the primitive and the current pose. The cache is recomputed by an
/// external collaborator whenever the pose changes; this core only
/// reads it.
#[derive(Clone, Copy, PartialEq, Eq, Structural, Debug)]
pub struct CollisionShape {
    pub primitive: BoxPrimitive,
    pub bound: Aabb,
}

impl CollisionShape {
    pub fn new(primitive: BoxPrimitive, bound: Aabb) -> (r: CollisionShape)
        ensures
            r == (CollisionShape { primitive, bound }),
    {
        CollisionShape { primitive, bound }
    }

    pub fn bound(&self) -> (r: Aabb)
        ensures
            r == self.bound,
    {
        self.bound
    }
}

/// True intersection of the two primitives under the given poses:
/// closed-interval overlap of the boxes on both axes.
pub open spec fn primitives_intersect(
    sa: BoxPrimitive,
    pa: BodyPose,
    sb: BoxPrimitive,
    pb: BodyPose,
) -> bool {
    let dx = crate::math::abs_of(pb.position.x - pa.position.x);
    let dy = crate::math::abs_of(pb.position.y - pa.position.y);
    dx <= sa.half_x + sb.half_x && dy <= sa.half_y + sb.half_y
}

/// The manifold the narrow phase reports for an intersecting pair: the
/// normal lies along the axis of least overlap and points from the
/// first body toward the second (toward positive when the centers
/// coincide), and the penetration is that least overlap.
pub open spec fn contact_spec(
    left: u64,
    sa: BoxPrimitive,
    pa: BodyPose,
    right: u64,
    sb: BoxPrimitive,
    pb: BodyPose,
) -> ContactSet {
    let dx = pb.position.x - pa.position.x;
    let dy = pb.position.y - pa.position.y;
    let overlap_x = sa.half_x + sb.half_x - crate::math::abs_of(dx);
    let overlap_y = sa.half_y + sb.half_y - crate::math::abs_of(dy);
    let pair = EntityPair { a: left, b: right };
    if overlap_x <= overlap_y {
        ContactSet {
            bodies: pair,
            strategy: CollisionStrategy::FullResolution,
            normal: Vector2 { x: if dx >= 0 { 1i64 } else { -1i64 }, y: 0 },
            penetration: overlap_x as i64,
        }
    } else {
        ContactSet {
            bodies: pair,
            strategy: CollisionStrategy::FullResolution,
            normal: Vector2 { x: 0, y: if dy >= 0 { 1i64 } else { -1i64 } },
            penetration: overlap_y as i64,
        }
    }
}

/// Exact narrow-phase intersection of two boxes under their poses.
///
/// Returns `Some` with the full manifold exactly when the primitives
/// truly intersect, and `None` for true non-intersection, which is a
/// normal outcome and no error.
pub fn collide(
    left: u64,
    left_shape: &CollisionShape,
    left_pose: &BodyPose,
    right: u64,
    right_shape: &CollisionShape,
    right_pose: &BodyPose,
) -> (r: Option<ContactSet>)
    requires
        left_shape.primitive.wf(),
        right_shape.primitive.wf(),
        left_pose.position.in_range(MAX_COORD as int),
        right_pose.position.in_range(MAX_COORD as int),
    ensures
        r is Some <==> primitives_intersect(
            left_shape.primitive,
            *left_pose,
            right_shape.primitive,
            *right_pose,
        ),
        r is Some ==> r->Some_0 == contact_spec(
            left,
            left_shape.primitive,
            *left_pose,
            right,
            right_shape.primitive,
            *right_pose,
        ),
{
    let dx = right_pose.position.x - left_pose.position.x;
    let dy = right_pose.position.y - left_pose.position.y;
    let adx = if dx < 0 { -dx } else { dx };
    let ady = if dy < 0 { -dy } else { dy };
    let sum_x = left_shape.primitive.half_x + right_shape.primitive.half_x;
    let sum_y = left_shape.primitive.half_y + right_shape.primitive.half_y;
    if adx <= sum_x && ady <= sum_y {
        let overlap_x = sum_x - adx;
        let overlap_y = sum_y - ady;
        let pair = EntityPair { a: left, b: right };
        if overlap_x <= overlap_y {
            Some(ContactSet {
                bodies: pair,
                strategy: CollisionStrategy::FullResolution,
                normal: Vector2 { x: if dx >= 0 { 1i64 } else { -1i64 }, y: 0 },
                penetration: overlap_x,
            })
        } else {
            Some(ContactSet {
                bodies: pair,
                strategy: CollisionStrategy::FullResolution,
                normal: Vector2 { x: 0, y: if dy >= 0 { 1i64 } else { -1i64 } },
                penetration: overlap_y,
            })
        }
    } else {
        None
    }
}

} // verus!
