//! Per-entity dynamics components and single-contact impulse resolution.

use vstd::prelude::*;
use crate::math::{Vector2, MAX_COORD, MAX_INVERSE_MASS, MAX_VELOCITY, RESTITUTION_SCALE};
use crate::collide::CollisionStrategy;

verus! {

/// Position and rotation of a body. The dirty flag marks a pose that
/// changed since the last tick and gates broad-phase re-queries; it is
/// set by whoever writes the pose, and this core only reads it.
#[derive(Clone, Copy, PartialEq, Eq, Structural, Debug)]
pub struct BodyPose {
    pub position: Vector2,
    pub rotation: i64,
    pub dirty: bool,
}

impl BodyPose {
    /// A freshly written pose counts as moved, so its flag starts dirty.
    pub open spec fn new_spec(position: Vector2, rotation: i64) -> BodyPose {
        BodyPose { position, rotation, dirty: true }
    }

    pub fn new(position: Vector2, rotation: i64) -> (r: BodyPose)
        ensures
            r == BodyPose::new_spec(position, rotation),
    {
        BodyPose { position, rotation, dirty: true }
    }

    pub fn position(&self) -> (r: Vector2)
        ensures
            r == self.position,
    {
        self.position
    }

    pub fn rotation(&self) -> (r: i64)
        ensures
            r == self.rotation,
    {
        self.rotation
    }

    pub fn dirty(&self) -> (r: bool)
        ensures
            r == self.dirty,
    {
        self.dirty
    }
}

/// Linear velocity of a body, with the angular slot carried through
/// untouched: this core does no angular integration.
#[derive(Clone, Copy, PartialEq, Eq, Structural, Debug)]
pub struct Velocity {
    pub linear: Vector2,
    pub angular: i64,
}

impl Velocity {
    pub open spec fn zero_spec() -> Velocity {
        Velocity { linear: Vector2::zero_spec(), angular: 0 }
    }

    pub fn zero() -> (r: Velocity)
        ensures
            r == Velocity::zero_spec(),
    {
        Velocity { linear: Vector2 { x: 0, y: 0 }, angular: 0 }
    }

    pub fn new(linear: Vector2, angular: i64) -> (r: Velocity)
        ensures
            r == (Velocity { linear, angular }),
    {
        Velocity { linear, angular }
    }

    pub fn linear(&self) -> (r: Vector2)
        ensures
            r == self.linear,
    {
        self.linear
    }

    pub fn set_linear(&mut self, linear: Vector2)
        ensures
            *final(self) == (Velocity { linear, angular: old(self).angular }),
    {
        self.linear = linear;
    }
}

/// A double-buffered slot holding the predicted value of a component for
/// the upcoming frame; promotion copies it over the current value.
#[derive(Clone, Copy, PartialEq, Eq, Structural, Debug)]
pub struct NextFrame<T> {
    pub value: T,
}

/// Inverse mass of a body; zero marks a body that impulses cannot move.
#[derive(Clone, Copy, PartialEq, Eq, Structural, Debug)]
pub struct Mass {
    pub inverse_mass: i64,
}

impl Mass {
    pub open spec fn wf(self) -> bool {
        0 <= self.inverse_mass <= MAX_INVERSE_MASS
    }

    pub fn new(inverse_mass: i64) -> (r: Mass)
        requires
            0 <= inverse_mass <= MAX_INVERSE_MASS,
        ensures
            r == (Mass { inverse_mass }),
            r.wf(),
    {
        Mass { inverse_mass }
    }

    pub fn inverse_mass(&self) -> (r: i64)
        ensures
            r == self.inverse_mass,
    {
        self.inverse_mass
    }
}

/// Material parameters consulted during resolution. Restitution is a
/// fixed-point fraction of `RESTITUTION_SCALE`; friction is carried for
/// completeness and unused by the linear-only resolution.
#[derive(Clone, Copy, PartialEq, Eq, Structural, Debug)]
pub struct Material {
    pub restitution: i64,
    pub friction: i64,
}

impl Material {
    pub open spec fn wf(self) -> bool {
        0 <= self.restitution <= RESTITUTION_SCALE && 0 <= self.friction
    }

    pub fn new(restitution: i64, friction: i64) -> (r: Material)
        requires
            0 <= restitution <= RESTITUTION_SCALE,
            0 <= friction,
        ensures
            r == (Material { restitution, friction }),
    {
        Material { restitution, friction }
    }
}

/// Read-only material description of a rigid body.
#[derive(Clone, Copy, PartialEq, Eq, Structural, Debug)]
pub struct RigidBody {
    pub material: Material,
}

impl RigidBody {
    pub fn new(material: Material) -> (r: RigidBody)
        ensures
            r == (RigidBody { material }),
    {
        RigidBody { material }
    }

    pub fn material(&self) -> (r: Material)
        ensures
            r == self.material,
    {
        self.material
    }
}

/// External force (and carried torque) accumulated for one tick and
/// drained to zero exactly once, when integration reads it.
#[derive(Clone, Copy, PartialEq, Eq, Structural, Debug)]
pub struct ForceAccumulator {
    pub force: Vector2,
    pub torque: i64,
}

impl ForceAccumulator {
    pub fn zero() -> (r: ForceAccumulator)
        ensures
            r == (ForceAccumulator { force: Vector2::zero_spec(), torque: 0 }),
    {
        ForceAccumulator { force: Vector2 { x: 0, y: 0 }, torque: 0 }
    }

    pub fn new(force: Vector2, torque: i64) -> (r: ForceAccumulator)
        ensures
            r == (ForceAccumulator { force, torque }),
    {
        ForceAccumulator { force, torque }
    }

    /// Hands the accumulated force out and leaves the accumulator drained.
    pub fn consume_force(&mut self) -> (r: Vector2)
        ensures
            r == old(self).force,
            *final(self) == (ForceAccumulator {
                force: Vector2::zero_spec(),
                torque: old(self).torque,
            }),
    {
        let f = self.force;
        self.force = Vector2 { x: 0, y: 0 };
        f
    }
}

/// Tick duration, supplied by the host.
#[derive(Clone, Copy, PartialEq, Eq, Structural, Debug)]
pub struct DeltaTime {
    pub delta_seconds: i64,
}

/// Everything resolution reads about one body of a contact: its
/// effective next-frame velocity (if one exists this tick), effective
/// pose, inverse mass and material.
#[derive(Clone, Copy, PartialEq, Eq, Structural, Debug)]
pub struct ResolveData {
    pub velocity: Option<Velocity>,
    pub pose: BodyPose,
    pub mass: Mass,
    pub material: Material,
}

/// The change resolution asks to apply to one body: a linear velocity
/// delta and a positional correction, each optional.
#[derive(Clone, Copy, PartialEq, Eq, Structural, Debug)]
pub struct ChangeSet {
    pub velocity: Option<Vector2>,
    pub position: Option<Vector2>,
}

impl ChangeSet {
    pub open spec fn none_spec() -> ChangeSet {
        ChangeSet { velocity: None, position: None }
    }

    pub fn none() -> (r: ChangeSet)
        ensures
            r == ChangeSet::none_spec(),
    {
        ChangeSet { velocity: None, position: None }
    }
}

/// Linear velocity of a body as resolution sees it: the next-frame
/// value when one exists this tick, else zero.
pub open spec fn effective_linear(d: ResolveData) -> Vector2 {
    match d.velocity {
        Some(v) => v.linear,
        None => Vector2::zero_spec(),
    }
}

/// Relative velocity of the pair along the contact normal, taken from
/// the first body's side.
pub open spec fn relative_normal_speed(normal: Vector2, a: ResolveData, b: ResolveData) -> int {
    let va = effective_linear(a);
    let vb = effective_linear(b);
    (va.x - vb.x) * normal.x + (va.y - vb.y) * normal.y
}

/// Combined restitution of a pair: the smaller of the two materials'.
pub open spec fn combined_restitution(a: ResolveData, b: ResolveData) -> int {
    if a.material.restitution <= b.material.restitution {
        a.material.restitution as int
    } else {
        b.material.restitution as int
    }
}

/// Velocity impulse magnitude received by the body whose inverse mass is
/// `im_self`, for an approach speed `rel > 0` along the normal.
pub open spec fn impulse_magnitude(rel: int, e: int, im_self: int, im_total: int) -> int {
    ((RESTITUTION_SCALE + e) * rel * im_self) / (im_total * RESTITUTION_SCALE)
}

/// Positional correction magnitude received by the body whose inverse
/// mass is `im_self`, for a penetration depth `pen > 0`.
pub open spec fn correction_magnitude(pen: int, im_self: int, im_total: int) -> int {
    (pen * im_self) / im_total
}

/// The change resolution asks for on one side of a contact. `sign` is
/// `-1` for the first body and `1` for the second: impulses push the
/// bodies apart along the normal, which points from the first body
/// toward the second. A body with inverse mass zero receives no change,
/// a separating or resting pair (`rel <= 0`) receives no velocity
/// impulse, and a pair without penetration receives no correction.
pub open spec fn change_for_body(
    normal: Vector2,
    penetration: i64,
    rel: int,
    e: int,
    im_self: int,
    im_total: int,
    sign: int,
) -> ChangeSet {
    let velocity = if rel > 0 && im_self > 0 {
        let mag = impulse_magnitude(rel, e, im_self, im_total);
        Some(Vector2 { x: (sign * mag * normal.x) as i64, y: (sign * mag * normal.y) as i64 })
    } else {
        None
    };
    let position = if penetration > 0 && im_self > 0 {
        let off = correction_magnitude(penetration as int, im_self, im_total);
        Some(Vector2 { x: (sign * off * normal.x) as i64, y: (sign * off * normal.y) as i64 })
    } else {
        None
    };
    ChangeSet { velocity, position }
}

/// What `linear_resolve_contact` computes for a contact of the given
/// strategy, normal and penetration: a `CollisionOnly` contact carries
/// no manifold and asks for no change, as does a pair of two immovable
/// bodies.
pub open spec fn resolve_pair_spec(
    strategy: CollisionStrategy,
    normal: Vector2,
    penetration: i64,
    a: ResolveData,
    b: ResolveData,
) -> (ChangeSet, ChangeSet) {
    let ima = a.mass.inverse_mass as int;
    let imb = b.mass.inverse_mass as int;
    if strategy is CollisionOnly || ima + imb == 0 {
        (ChangeSet::none_spec(), ChangeSet::none_spec())
    } else {
        let rel = relative_normal_speed(normal, a, b);
        let e = combined_restitution(a, b);
        (
            change_for_body(normal, penetration, rel, e, ima, ima + imb, -1),
            change_for_body(normal, penetration, rel, e, imb, ima + imb, 1),
        )
    }
}

/// The operand ranges under which resolution's arithmetic fits in `i64`:
/// unit-axis (or zero) normal components, bounded velocities, bounded
/// inverse masses, a restitution fraction, and a bounded penetration.
pub open spec fn resolve_inputs_fit(
    normal: Vector2,
    penetration: i64,
    a: ResolveData,
    b: ResolveData,
) -> bool {
    &&& normal.in_range(1)
    &&& 0 <= penetration <= 2 * MAX_COORD
    &&& effective_linear(a).in_range(MAX_VELOCITY as int)
    &&& effective_linear(b).in_range(MAX_VELOCITY as int)
    &&& a.mass.wf()
    &&& b.mass.wf()
    &&& a.material.wf()
    &&& b.material.wf()
}

/// Truncating division of a non-negative value by a positive one.
fn div_nonneg(n: i64, d: i64) -> (q: i64)
    requires
        0 <= n,
        1 <= d,
    ensures
        q == n as int / d as int,
        0 <= q <= n,
{
    proof {
        vstd::arithmetic::div_mod::lemma_div_nonincreasing(n as int, d as int);
        vstd::arithmetic::div_mod::lemma_div_pos_is_pos(n as int, d as int);
    }
    ((n as u64) / (d as u64)) as i64
}

/// The change asked of one side of a contact, as `change_for_body`
/// states it; the deltas it reports stay within fixed magnitude bounds.
fn change_for_body_exec(
    nx: i64,
    ny: i64,
    penetration: i64,
    rel: i64,
    e: i64,
    im_self: i64,
    im_total: i64,
    sign: i64,
) -> (c: ChangeSet)
    requires
        -1 <= nx <= 1,
        -1 <= ny <= 1,
        0 <= penetration <= 2 * MAX_COORD,
        -4 * MAX_VELOCITY <= rel <= 4 * MAX_VELOCITY,
        0 <= e <= RESTITUTION_SCALE,
        0 <= im_self <= im_total,
        1 <= im_total <= 2 * MAX_INVERSE_MASS,
        sign == 1i64 || sign == -1i64,
    ensures
        c == change_for_body(
            Vector2 { x: nx, y: ny },
            penetration,
            rel as int,
            e as int,
            im_self as int,
            im_total as int,
            sign as int,
        ),
        c.velocity is Some ==> c.velocity->Some_0.in_range(16_000_000_000_000_000),
        c.position is Some ==> c.position->Some_0.in_range(4_000_000_000_000_000),
{
    let velocity: Option<Vector2> = if rel > 0 && im_self > 0 {
        let scale: i64 = RESTITUTION_SCALE + e;
        proof {
            assert(scale * rel * im_self <= 16_000_000_000_000_000 && scale * rel * im_self >= 0
                && 0 <= scale * rel <= 8_000_000_000) by (nonlinear_arith)
                requires
                    0 < scale <= 2_000,
                    0 < rel <= 4_000_000,
                    0 < im_self <= 2_000_000,
            ;
        }
        let num: i64 = scale * rel * im_self;
        let den: i64 = im_total * RESTITUTION_SCALE;
        let mag: i64 = div_nonneg(num, den);
        proof {
            assert(-16_000_000_000_000_000 <= sign * mag * nx <= 16_000_000_000_000_000
                && -16_000_000_000_000_000 <= sign * mag * ny <= 16_000_000_000_000_000
                && -16_000_000_000_000_000 <= sign * mag <= 16_000_000_000_000_000)
                by (nonlinear_arith)
                requires
                    0 <= mag <= 16_000_000_000_000_000,
                    -1 <= nx <= 1,
                    -1 <= ny <= 1,
                    sign == 1i64 || sign == -1i64,
            ;
        }
        Some(Vector2 { x: sign * mag * nx, y: sign * mag * ny })
    } else {
        None
    };
    let position: Option<Vector2> = if penetration > 0 && im_self > 0 {
        proof {
            assert(penetration * im_self <= 4_000_000_000_000_000 && penetration * im_self >= 0)
                by (nonlinear_arith)
                requires
                    0 < penetration <= 2_000_000_000,
                    0 < im_self <= 2_000_000,
            ;
        }
        let off: i64 = div_nonneg(penetration * im_self, im_total);
        proof {
            assert(-4_000_000_000_000_000 <= sign * off * nx <= 4_000_000_000_000_000
                && -4_000_000_000_000_000 <= sign * off * ny <= 4_000_000_000_000_000
                && -4_000_000_000_000_000 <= sign * off <= 4_000_000_000_000_000)
                by (nonlinear_arith)
                requires
                    0 <= off <= 4_000_000_000_000_000,
                    -1 <= nx <= 1,
                    -1 <= ny <= 1,
                    sign == 1i64 || sign == -1i64,
            ;
        }
        Some(Vector2 { x: sign * off * nx, y: sign * off * ny })
    } else {
        None
    };
    ChangeSet { velocity, position }
}

/// Resolves one contact into an impulse-based change set per body, from
/// the contact normal, the relative velocity along the normal, the
/// combined restitution and both inverse masses. A body with inverse
/// mass zero receives zero change.
pub fn linear_resolve_contact(
    contact: &crate::collide::ContactEvent,
    a: ResolveData,
    b: ResolveData,
) -> (r: (ChangeSet, ChangeSet))
    requires
        resolve_inputs_fit(contact.normal, contact.penetration, a, b),
    ensures
        r == resolve_pair_spec(contact.strategy, contact.normal, contact.penetration, a, b),
        a.mass.inverse_mass == 0 ==> r.0 == ChangeSet::none_spec(),
        b.mass.inverse_mass == 0 ==> r.1 == ChangeSet::none_spec(),
        r.0.velocity is Some ==> r.0.velocity->Some_0.in_range(16_000_000_000_000_000),
        r.0.position is Some ==> r.0.position->Some_0.in_range(4_000_000_000_000_000),
        r.1.velocity is Some ==> r.1.velocity->Some_0.in_range(16_000_000_000_000_000),
        r.1.position is Some ==> r.1.position->Some_0.in_range(4_000_000_000_000_000),
{
    let ima = a.mass.inverse_mass;
    let imb = b.mass.inverse_mass;
    let detection_only = match contact.strategy {
        CollisionStrategy::CollisionOnly => true,
        CollisionStrategy::FullResolution => false,
    };
    if detection_only || ima + imb == 0 {
        return (ChangeSet::none(), ChangeSet::none());
    }
    let val = match a.velocity {
        Some(v) => v.linear,
        None => Vector2 { x: 0, y: 0 },
    };
    let vbl = match b.velocity {
        Some(v) => v.linear,
        None => Vector2 { x: 0, y: 0 },
    };
    let nx = contact.normal.x;
    let ny = contact.normal.y;
    proof {
        assert(val == effective_linear(a));
        assert(vbl == effective_linear(b));
        assert((val.x - vbl.x) * nx <= 2_000_000 && (val.x - vbl.x) * nx >= -2_000_000 && (val.y
            - vbl.y) * ny <= 2_000_000 && (val.y - vbl.y) * ny >= -2_000_000) by (nonlinear_arith)
            requires
                -2_000_000 <= val.x - vbl.x <= 2_000_000,
                -2_000_000 <= val.y - vbl.y <= 2_000_000,
                -1 <= nx <= 1,
                -1 <= ny <= 1,
        ;
    }
    let rel: i64 = (val.x - vbl.x) * nx + (val.y - vbl.y) * ny;
    let e = if a.material.restitution <= b.material.restitution {
        a.material.restitution
    } else {
        b.material.restitution
    };
    let ca = change_for_body_exec(nx, ny, contact.penetration, rel, e, ima, ima + imb, -1);
    let cb = change_for_body_exec(nx, ny, contact.penetration, rel, e, imb, ima + imb, 1);
    (ca, cb)
}


} // verus!
