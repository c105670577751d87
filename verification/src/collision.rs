//! The response of kinematic agents to the contacts that collision detection
//! reports.
//!
//! Nothing pushes a kinematic body out of what it runs into, so it is done
//! here. For each manifold of a pair in which an agent takes part, the agent
//! is moved along the contact normal by the depth of each contact that
//! penetrates. Then its velocity is corrected. Where the manifold is an
//! overlap, the agent is made to slide: the part of its velocity that goes
//! into the surface is taken away. Where the manifold only foresees a contact,
//! the agent is braked by the speed that would carry it into the surface
//! within the step, but never pushed upward. A pair whose other body is
//! dynamic is left to the solver of dynamic bodies.

use crate::body::{Agent, Body, RigidBody};
use crate::fixed::{
    fixed_div, larger, lemma_fixed_mul_minus_one, lemma_fixed_mul_one, lemma_fixed_mul_zero,
    sat_sub, spec_fixed_div, spec_larger, spec_sat_sub, spec_smaller, Scalar, SCALE,
};
use crate::vector::{lemma_rejection_is_tangent, moderate, unit, Vector};
use vstd::prelude::*;

verus! {

/// One point at which two shapes touch or are about to. The penetration is
/// how far they overlap along the normal there: positive where they overlap,
/// zero or negative where they will only meet within the step.
#[derive(Clone, Copy, Debug, PartialEq, Eq, Structural)]
pub struct ContactPoint {
    pub penetration: Scalar,
}

/// The contact points of two shapes that share a normal. The normal has
/// length one and points from the first shape to the second.
#[derive(Debug, PartialEq, Eq)]
pub struct ContactManifold {
    pub normal: Vector,
    pub points: Vec<ContactPoint>,
}

/// The contacts between two colliders, each named by its handle.
#[derive(Debug, PartialEq, Eq)]
pub struct ContactPair {
    pub collider1: usize,
    pub collider2: usize,
    pub manifolds: Vec<ContactManifold>,
}

/// The agent of a contact pair: its handle, and whether it is the first body
/// of the pair.
#[derive(Clone, Copy, Debug, PartialEq, Eq, Structural)]
pub struct Character {
    pub body: usize,
    pub is_first: bool,
}

/// The body that `collider` belongs to, if the table of colliders knows one.
pub open spec fn spec_body_of(collider_rbs: Seq<Option<usize>>, collider: usize) -> Option<usize> {
    if collider < collider_rbs.len() {
        collider_rbs[collider as int]
    } else {
        None
    }
}

/// Whether the handle `rb` names an agent.
pub open spec fn spec_is_agent(bodies: Seq<Body>, rb: usize) -> bool {
    rb < bodies.len() && bodies[rb as int] is Agent
}

/// Whether the handle `rb` names a dynamic body.
pub open spec fn spec_is_dynamic(bodies: Seq<Body>, rb: usize) -> bool {
    rb < bodies.len() && bodies[rb as int].spec_rigid_body() == RigidBody::Dynamic
}

/// Whether the agent `rb` is to respond to its contacts with the body
/// `other`: the agent is kinematic, and the other body is not dynamic.
pub open spec fn responds(bodies: Seq<Body>, rb: usize, other: usize) -> bool {
    &&& spec_is_agent(bodies, rb)
    &&& bodies[rb as int].spec_rigid_body() == RigidBody::Kinematic
    &&& !spec_is_dynamic(bodies, other)
}

/// The agent that is to respond to the contacts of the colliders `collider1`
/// and `collider2`, if there is one. Both colliders must belong to a body. The
/// first body is taken if it is an agent, else the second.
pub open spec fn spec_character_of(
    bodies: Seq<Body>,
    collider_rbs: Seq<Option<usize>>,
    collider1: usize,
    collider2: usize,
) -> Option<Character> {
    match (spec_body_of(collider_rbs, collider1), spec_body_of(collider_rbs, collider2)) {
        (Some(rb1), Some(rb2)) => {
            if spec_is_agent(bodies, rb1) {
                if responds(bodies, rb1, rb2) {
                    Some(Character { body: rb1, is_first: true })
                } else {
                    None
                }
            } else if spec_is_agent(bodies, rb2) {
                if responds(bodies, rb2, rb1) {
                    Some(Character { body: rb2, is_first: false })
                } else {
                    None
                }
            } else {
                None
            }
        },
        _ => None,
    }
}

/// The normal of a manifold, turned to point from the other body toward the
/// agent.
pub open spec fn spec_oriented(normal: Vector, is_first: bool) -> Vector {
    if is_first {
        normal.spec_negated()
    } else {
        normal
    }
}

/// The largest penetration among `points`, and the least number of all where
/// there are no points.
pub open spec fn deepest_penetration(points: Seq<ContactPoint>) -> Scalar
    decreases points.len(),
{
    if points.len() == 0 {
        i64::MIN
    } else {
        spec_larger(deepest_penetration(points.drop_last()), points.last().penetration)
    }
}

/// The position `position` moved along `normal` by the penetration of each
/// of `points` that penetrates, one after the other.
pub open spec fn pushed_out(position: Vector, normal: Vector, points: Seq<ContactPoint>) -> Vector
    decreases points.len(),
{
    if points.len() == 0 {
        position
    } else {
        let before = pushed_out(position, normal, points.drop_last());
        if points.last().penetration > 0 {
            before.spec_plus(normal.spec_scaled(points.last().penetration))
        } else {
            before
        }
    }
}

/// The velocity of an agent that overlaps a surface with the normal `normal`:
/// unchanged if it moves away from the surface, else without its part along
/// the normal.
pub open spec fn spec_slide(velocity: Vector, normal: Vector) -> Vector {
    if velocity.spec_dot(normal) > 0 {
        velocity
    } else {
        velocity.spec_reject_from_normalized(normal)
    }
}

/// The impulse that brakes an agent before a surface that it does not touch
/// yet. Along the normal it has the size of the approach speed less the speed
/// that only closes the gap `deepest` within `delta_time`. Its vertical part
/// is never negative. Meaningful for `delta_time != 0`.
pub open spec fn spec_speculative_impulse(
    velocity: Vector,
    normal: Vector,
    deepest: Scalar,
    delta_time: Scalar,
) -> Vector {
    let normal_speed = velocity.spec_dot(normal);
    let impulse_magnitude = spec_sat_sub(normal_speed, spec_fixed_div(deepest, delta_time));
    let impulse = normal.spec_scaled(impulse_magnitude);
    Vector { x: impulse.x, y: spec_larger(impulse.y, 0) }
}

/// The velocity of an agent before a surface that it does not touch yet:
/// unchanged if it moves away from the surface or no time passes, else less
/// the braking impulse.
pub open spec fn spec_brake(velocity: Vector, normal: Vector, deepest: Scalar, delta_time: Scalar)
    -> Vector {
    if velocity.spec_dot(normal) > 0 || delta_time == 0 {
        velocity
    } else {
        velocity.spec_minus(spec_speculative_impulse(velocity, normal, deepest, delta_time))
    }
}

/// The velocity of an agent after a manifold whose deepest penetration is
/// `deepest`: it slides where the manifold overlaps, and brakes where it does
/// not.
pub open spec fn spec_corrected_velocity(
    velocity: Vector,
    normal: Vector,
    deepest: Scalar,
    delta_time: Scalar,
) -> Vector {
    if deepest > 0 {
        spec_slide(velocity, normal)
    } else {
        spec_brake(velocity, normal, deepest, delta_time)
    }
}

impl Agent {
    /// The agent after its response to `manifold`.
    pub open spec fn spec_resolved(self, manifold: ContactManifold, is_first: bool, delta_time: Scalar)
        -> Agent {
        let normal = spec_oriented(manifold.normal, is_first);
        Agent {
            position: pushed_out(self.position, normal, manifold.points@),
            linear_velocity: spec_corrected_velocity(
                self.linear_velocity,
                normal,
                deepest_penetration(manifold.points@),
                delta_time,
            ),
            controller: self.controller,
        }
    }

    /// The agent after its response to each of `manifolds`, one after the
    /// other.
    pub open spec fn spec_resolved_all(
        self,
        manifolds: Seq<ContactManifold>,
        is_first: bool,
        delta_time: Scalar,
    ) -> Agent
        decreases manifolds.len(),
    {
        if manifolds.len() == 0 {
            self
        } else {
            self.spec_resolved_all(manifolds.drop_last(), is_first, delta_time).spec_resolved(
                manifolds.last(),
                is_first,
                delta_time,
            )
        }
    }
}

/// The table of bodies after the response to the contacts of `pair`: the
/// agent of the pair has responded to each manifold, and every other body is
/// as it was. Without such an agent nothing changes.
pub open spec fn pair_resolved(
    bodies: Seq<Body>,
    collider_rbs: Seq<Option<usize>>,
    pair: ContactPair,
    delta_time: Scalar,
) -> Seq<Body> {
    match spec_character_of(bodies, collider_rbs, pair.collider1, pair.collider2) {
        Some(character) => bodies.update(
            character.body as int,
            Body::Agent(
                bodies[character.body as int]->Agent_0.spec_resolved_all(
                    pair.manifolds@,
                    character.is_first,
                    delta_time,
                ),
            ),
        ),
        None => bodies,
    }
}

/// The table of bodies after the response to each of `collisions`, one after
/// the other.
pub open spec fn collisions_resolved(
    bodies: Seq<Body>,
    collider_rbs: Seq<Option<usize>>,
    collisions: Seq<ContactPair>,
    delta_time: Scalar,
) -> Seq<Body>
    decreases collisions.len(),
{
    if collisions.len() == 0 {
        bodies
    } else {
        pair_resolved(
            collisions_resolved(bodies, collider_rbs, collisions.drop_last(), delta_time),
            collider_rbs,
            collisions.last(),
            delta_time,
        )
    }
}

/// Looks up the body that `collider` belongs to.
pub fn body_of(collider_rbs: &Vec<Option<usize>>, collider: usize) -> (rb: Option<usize>)
    ensures
        rb == spec_body_of(collider_rbs@, collider),
{
    if collider < collider_rbs.len() {
        collider_rbs[collider]
    } else {
        None
    }
}

/// Whether the handle `rb` names an agent.
pub fn is_agent(bodies: &Vec<Body>, rb: usize) -> (r: bool)
    ensures
        r == spec_is_agent(bodies@, rb),
{
    if rb < bodies.len() {
        matches!(bodies[rb], Body::Agent(_))
    } else {
        false
    }
}

/// Whether the handle `rb` names a dynamic body.
pub fn is_dynamic(bodies: &Vec<Body>, rb: usize) -> (r: bool)
    ensures
        r == spec_is_dynamic(bodies@, rb),
{
    if rb < bodies.len() {
        bodies[rb].rigid_body().is_dynamic()
    } else {
        false
    }
}

/// Finds the agent that is to respond to the contacts of `collider1` and
/// `collider2`. There is none if a collider belongs to no body, if neither
/// body is an agent, if the agent is not kinematic, or if the other body is
/// dynamic.
pub fn character_of(
    bodies: &Vec<Body>,
    collider_rbs: &Vec<Option<usize>>,
    collider1: usize,
    collider2: usize,
) -> (character: Option<Character>)
    ensures
        character == spec_character_of(bodies@, collider_rbs@, collider1, collider2),
        character matches Some(c) ==> spec_is_agent(bodies@, c.body),
{
    let rb1: usize = match body_of(collider_rbs, collider1) {
        Some(rb) => rb,
        None => {
            return None;
        },
    };
    let rb2: usize = match body_of(collider_rbs, collider2) {
        Some(rb) => rb,
        None => {
            return None;
        },
    };
    let (body, other, is_first): (usize, usize, bool) = if is_agent(bodies, rb1) {
        (rb1, rb2, true)
    } else if is_agent(bodies, rb2) {
        (rb2, rb1, false)
    } else {
        return None;
    };
    if !bodies[body].rigid_body().is_kinematic() {
        return None;
    }
    if is_dynamic(bodies, other) {
        return None;
    }
    Some(Character { body, is_first })
}

/// Turns the normal of a manifold to point from the other body toward the
/// agent.
#[verifier::when_used_as_spec(spec_oriented)]
pub fn oriented(normal: Vector, is_first: bool) -> (n: Vector)
    ensures
        n == spec_oriented(normal, is_first),
{
    if is_first {
        normal.negated()
    } else {
        normal
    }
}

/// Makes an agent that overlaps a surface slide along it.
#[verifier::when_used_as_spec(spec_slide)]
pub fn slide(velocity: Vector, normal: Vector) -> (v: Vector)
    ensures
        v == spec_slide(velocity, normal),
{
    if velocity.dot(normal) > 0 {
        velocity
    } else {
        velocity.reject_from_normalized(normal)
    }
}

/// Brakes an agent before a surface that it does not touch yet.
#[verifier::when_used_as_spec(spec_brake)]
pub fn brake(velocity: Vector, normal: Vector, deepest: Scalar, delta_time: Scalar) -> (v: Vector)
    ensures
        v == spec_brake(velocity, normal, deepest, delta_time),
{
    let normal_speed: Scalar = velocity.dot(normal);
    if normal_speed > 0 {
        return velocity;
    }
    match fixed_div(deepest, delta_time) {
        None => velocity,
        Some(closing_speed) => {
            let impulse_magnitude: Scalar = sat_sub(normal_speed, closing_speed);
            let mut impulse: Vector = normal.scaled(impulse_magnitude);
            impulse.y = larger(impulse.y, 0);
            velocity.minus(impulse)
        },
    }
}

/// Corrects the velocity of an agent after a manifold whose deepest
/// penetration is `deepest`.
#[verifier::when_used_as_spec(spec_corrected_velocity)]
pub fn corrected_velocity(velocity: Vector, normal: Vector, deepest: Scalar, delta_time: Scalar)
    -> (v: Vector)
    ensures
        v == spec_corrected_velocity(velocity, normal, deepest, delta_time),
{
    if deepest > 0 {
        slide(velocity, normal)
    } else {
        brake(velocity, normal, deepest, delta_time)
    }
}

impl Agent {
    /// Responds to one manifold: moves the agent out of each contact that
    /// penetrates, then corrects its velocity.
    pub fn resolve(&mut self, manifold: &ContactManifold, is_first: bool, delta_time: Scalar)
        ensures
            *final(self) == old(self).spec_resolved(*manifold, is_first, delta_time),
    {
        let normal: Vector = oriented(manifold.normal, is_first);
        let mut deepest: Scalar = i64::MIN;
        let mut i: usize = 0;
        while i < manifold.points.len()
            invariant
                i <= manifold.points@.len(),
                deepest == deepest_penetration(manifold.points@.take(i as int)),
                self.position == pushed_out(
                    old(self).position,
                    normal,
                    manifold.points@.take(i as int),
                ),
                self.linear_velocity == old(self).linear_velocity,
                self.controller == old(self).controller,
            decreases manifold.points@.len() - i,
        {
            let contact: ContactPoint = manifold.points[i];
            proof {
                let seen = manifold.points@.take(i as int + 1);
                assert(seen.drop_last() =~= manifold.points@.take(i as int));
                assert(seen.last() == contact);
            }
            if contact.penetration > 0 {
                self.position = self.position.plus(normal.scaled(contact.penetration));
            }
            deepest = larger(deepest, contact.penetration);
            i = i + 1;
        }
        proof {
            assert(manifold.points@.take(i as int) =~= manifold.points@);
        }
        self.linear_velocity = corrected_velocity(self.linear_velocity, normal, deepest, delta_time);
    }

    /// Responds to each of `manifolds`, one after the other.
    pub fn resolve_all(&mut self, manifolds: &Vec<ContactManifold>, is_first: bool, delta_time: Scalar)
        ensures
            *final(self) == old(self).spec_resolved_all(manifolds@, is_first, delta_time),
    {
        let mut i: usize = 0;
        while i < manifolds.len()
            invariant
                i <= manifolds@.len(),
                *self == old(self).spec_resolved_all(manifolds@.take(i as int), is_first, delta_time),
            decreases manifolds@.len() - i,
        {
            proof {
                let seen = manifolds@.take(i as int + 1);
                assert(seen.drop_last() =~= manifolds@.take(i as int));
                assert(seen.last() == manifolds@[i as int]);
            }
            self.resolve(&manifolds[i], is_first, delta_time);
            i = i + 1;
        }
        proof {
            assert(manifolds@.take(i as int) =~= manifolds@);
        }
    }
}

/// Responds to the contacts of one pair of colliders.
pub fn resolve_pair(
    bodies: &mut Vec<Body>,
    collider_rbs: &Vec<Option<usize>>,
    pair: &ContactPair,
    delta_time: Scalar,
)
    ensures
        final(bodies)@ == pair_resolved(old(bodies)@, collider_rbs@, *pair, delta_time),
{
    match character_of(bodies, collider_rbs, pair.collider1, pair.collider2) {
        Some(character) => {
            match &mut bodies[character.body] {
                Body::Agent(agent) => {
                    agent.resolve_all(&pair.manifolds, character.is_first, delta_time);
                },
                Body::Other(_) => {},
            }
        },
        None => {},
    }
}

/// Responds to the contacts of one step, in the order in which collision
/// detection reports them. `collider_rbs` gives for each collider handle the
/// handle of the body that the collider belongs to, if it belongs to one.
/// Each pair with a kinematic agent and a body that is not dynamic moves and
/// slows that agent; every other pair is passed over.
pub fn kinematic_controller_collisions(
    collisions: &Vec<ContactPair>,
    collider_rbs: &Vec<Option<usize>>,
    bodies: &mut Vec<Body>,
    delta_time: Scalar,
)
    ensures
        final(bodies)@ == collisions_resolved(
            old(bodies)@,
            collider_rbs@,
            collisions@,
            delta_time,
        ),
{
    let mut i: usize = 0;
    while i < collisions.len()
        invariant
            i <= collisions@.len(),
            bodies@ == collisions_resolved(
                old(bodies)@,
                collider_rbs@,
                collisions@.take(i as int),
                delta_time,
            ),
        decreases collisions@.len() - i,
    {
        proof {
            let seen = collisions@.take(i as int + 1);
            assert(seen.drop_last() =~= collisions@.take(i as int));
            assert(seen.last() == collisions@[i as int]);
        }
        resolve_pair(bodies, collider_rbs, &collisions[i], delta_time);
        i = i + 1;
    }
    proof {
        assert(collisions@.take(i as int) =~= collisions@);
    }
}

/// Sliding settles. Once the velocity that sliding has left does not go
/// into the surface, sliding along the same normal again changes nothing, and
/// so does a second overlapping manifold with that normal.
pub proof fn lemma_slide_settles(velocity: Vector, normal: Vector, deepest: Scalar, delta_time: Scalar)
    requires
        spec_slide(velocity, normal).spec_dot(normal) >= 0,
    ensures
        spec_slide(spec_slide(velocity, normal), normal) == spec_slide(velocity, normal),
        deepest > 0 ==> spec_corrected_velocity(
            spec_slide(velocity, normal),
            normal,
            deepest,
            delta_time,
        ) == spec_slide(velocity, normal),
{
    let settled = spec_slide(velocity, normal);
    lemma_still_velocity_slides_nowhere(settled, normal);
}

/// After sliding on a surface whose normal has length one exactly, an agent
/// of moderate speed goes into the surface by less than six millionths, which
/// is what the roundings can leave.
pub proof fn lemma_slide_leaves_little(velocity: Vector, normal: Vector)
    requires
        moderate(velocity),
        unit(normal),
    ensures
        spec_slide(velocity, normal).spec_dot(normal) > -6,
{
    lemma_rejection_is_tangent(velocity, normal);
}

/// A velocity that neither leaves the surface nor goes into it is already
/// along the surface: sliding changes nothing.
pub proof fn lemma_still_velocity_slides_nowhere(velocity: Vector, normal: Vector)
    requires
        velocity.spec_dot(normal) >= 0,
    ensures
        spec_slide(velocity, normal) == velocity,
{
    if velocity.spec_dot(normal) == 0 {
        lemma_fixed_mul_zero(normal.x);
        lemma_fixed_mul_zero(normal.y);
    }
}

/// Braking never lifts. The vertical part of the impulse that is taken from
/// the velocity is never negative, so the vertical velocity never grows in
/// braking. It keeps its value exactly where nothing is taken from it: where
/// the agent leaves the surface, where no time passes, where the vertical
/// part of the impulse is zero, and where the velocity cannot get lower.
pub proof fn lemma_brake_never_lifts(
    velocity: Vector,
    normal: Vector,
    deepest: Scalar,
    delta_time: Scalar,
)
    ensures
        spec_speculative_impulse(velocity, normal, deepest, delta_time).y >= 0,
        spec_brake(velocity, normal, deepest, delta_time).y <= velocity.y,
        spec_brake(velocity, normal, deepest, delta_time).y >= velocity.y <==> {
            ||| velocity.spec_dot(normal) > 0
            ||| delta_time == 0
            ||| spec_speculative_impulse(velocity, normal, deepest, delta_time).y == 0
            ||| velocity.y == i64::MIN
        },
{
}

/// Contacts with a dynamic body are not answered here: where either body of
/// a pair is dynamic, the response to the pair changes no body.
pub proof fn lemma_dynamic_pairs_deferred(
    bodies: Seq<Body>,
    collider_rbs: Seq<Option<usize>>,
    pair: ContactPair,
    delta_time: Scalar,
)
    requires
        spec_body_of(collider_rbs, pair.collider1) matches Some(rb1) && spec_body_of(
            collider_rbs,
            pair.collider2,
        ) matches Some(rb2) && (spec_is_dynamic(bodies, rb1) || spec_is_dynamic(bodies, rb2)),
    ensures
        spec_character_of(bodies, collider_rbs, pair.collider1, pair.collider2) is None,
        pair_resolved(bodies, collider_rbs, pair, delta_time) == bodies,
{
}

/// Whoever responds to a pair is a kinematic agent, and the other body of the
/// pair is not dynamic.
pub proof fn lemma_character_is_kinematic_agent(
    bodies: Seq<Body>,
    collider_rbs: Seq<Option<usize>>,
    collider1: usize,
    collider2: usize,
)
    requires
        spec_character_of(bodies, collider_rbs, collider1, collider2) is Some,
    ensures
        ({
            let character = spec_character_of(bodies, collider_rbs, collider1, collider2)->0;
            let own = if character.is_first {
                collider1
            } else {
                collider2
            };
            let other = if character.is_first {
                collider2
            } else {
                collider1
            };
            &&& spec_body_of(collider_rbs, own) == Some(character.body)
            &&& spec_is_agent(bodies, character.body)
            &&& bodies[character.body as int].spec_rigid_body() == RigidBody::Kinematic
            &&& spec_body_of(collider_rbs, other) matches Some(rb) && !spec_is_dynamic(bodies, rb)
        }),
{
}

/// A pair of which no body is an agent, or of which a collider belongs to
/// no body, changes no body.
pub proof fn lemma_pairs_without_agent_pass(
    bodies: Seq<Body>,
    collider_rbs: Seq<Option<usize>>,
    pair: ContactPair,
    delta_time: Scalar,
)
    requires
        match (spec_body_of(collider_rbs, pair.collider1), spec_body_of(collider_rbs, pair.collider2)) {
            (Some(rb1), Some(rb2)) => !spec_is_agent(bodies, rb1) && !spec_is_agent(bodies, rb2),
            _ => true,
        },
    ensures
        pair_resolved(bodies, collider_rbs, pair, delta_time) == bodies,
{
}

/// The response to contacts keeps the table's size, changes no body but
/// agents, and changes of an agent only position and velocity.
pub proof fn lemma_collisions_frame(
    bodies: Seq<Body>,
    collider_rbs: Seq<Option<usize>>,
    collisions: Seq<ContactPair>,
    delta_time: Scalar,
)
    ensures
        collisions_resolved(bodies, collider_rbs, collisions, delta_time).len() == bodies.len(),
        forall|rb: int|
            0 <= rb < bodies.len() ==> match bodies[rb] {
                Body::Agent(agent) => (#[trigger] collisions_resolved(
                    bodies,
                    collider_rbs,
                    collisions,
                    delta_time,
                )[rb]) matches Body::Agent(after) && after.controller == agent.controller,
                Body::Other(kind) => collisions_resolved(
                    bodies,
                    collider_rbs,
                    collisions,
                    delta_time,
                )[rb] == Body::Other(kind),
            },
    decreases collisions.len(),
{
    if collisions.len() > 0 {
        let before = collisions_resolved(bodies, collider_rbs, collisions.drop_last(), delta_time);
        lemma_collisions_frame(bodies, collider_rbs, collisions.drop_last(), delta_time);
        let pair = collisions.last();
        let after = pair_resolved(before, collider_rbs, pair, delta_time);
        match spec_character_of(before, collider_rbs, pair.collider1, pair.collider2) {
            Some(character) => {
                let agent = before[character.body as int]->Agent_0;
                lemma_resolved_all_keeps_controller(
                    agent,
                    pair.manifolds@,
                    character.is_first,
                    delta_time,
                );
            },
            None => {},
        }
        assert forall|rb: int| 0 <= rb < bodies.len() implies match bodies[rb] {
            Body::Agent(agent) => (#[trigger] after[rb]) matches Body::Agent(now)
                && now.controller == agent.controller,
            Body::Other(kind) => after[rb] == Body::Other(kind),
        } by {
            let _ = before[rb];
        }
    }
}

/// The response to manifolds changes nothing of an agent's controller.
pub proof fn lemma_resolved_all_keeps_controller(
    agent: Agent,
    manifolds: Seq<ContactManifold>,
    is_first: bool,
    delta_time: Scalar,
)
    ensures
        agent.spec_resolved_all(manifolds, is_first, delta_time).controller == agent.controller,
    decreases manifolds.len(),
{
    if manifolds.len() > 0 {
        lemma_resolved_all_keeps_controller(agent, manifolds.drop_last(), is_first, delta_time);
    }
}

/// The response to a pair changes no body's kind and makes or unmakes no
/// agent, so whoever is to respond to any pair before it is to respond after.
pub proof fn lemma_pair_resolved_keeps_roles(
    bodies: Seq<Body>,
    collider_rbs: Seq<Option<usize>>,
    pair: ContactPair,
    delta_time: Scalar,
    collider1: usize,
    collider2: usize,
)
    ensures
        pair_resolved(bodies, collider_rbs, pair, delta_time).len() == bodies.len(),
        spec_character_of(
            pair_resolved(bodies, collider_rbs, pair, delta_time),
            collider_rbs,
            collider1,
            collider2,
        ) == spec_character_of(bodies, collider_rbs, collider1, collider2),
{
    match spec_character_of(bodies, collider_rbs, pair.collider1, pair.collider2) {
        Some(character) => {
            lemma_resolved_all_keeps_controller(
                bodies[character.body as int]->Agent_0,
                pair.manifolds@,
                character.is_first,
                delta_time,
            );
        },
        None => {},
    }
}

/// Pairs to which different agents respond can be answered in either order:
/// the response to a pair touches its own agent and nothing else.
pub proof fn lemma_independent_pairs_commute(
    bodies: Seq<Body>,
    collider_rbs: Seq<Option<usize>>,
    one: ContactPair,
    other: ContactPair,
    delta_time: Scalar,
)
    requires
        match (
            spec_character_of(bodies, collider_rbs, one.collider1, one.collider2),
            spec_character_of(bodies, collider_rbs, other.collider1, other.collider2),
        ) {
            (Some(a), Some(b)) => a.body != b.body,
            _ => true,
        },
    ensures
        pair_resolved(
            pair_resolved(bodies, collider_rbs, one, delta_time),
            collider_rbs,
            other,
            delta_time,
        ) == pair_resolved(
            pair_resolved(bodies, collider_rbs, other, delta_time),
            collider_rbs,
            one,
            delta_time,
        ),
{
    lemma_pair_resolved_keeps_roles(
        bodies,
        collider_rbs,
        one,
        delta_time,
        other.collider1,
        other.collider2,
    );
    lemma_pair_resolved_keeps_roles(
        bodies,
        collider_rbs,
        other,
        delta_time,
        one.collider1,
        one.collider2,
    );
    let one_first = pair_resolved(
        pair_resolved(bodies, collider_rbs, one, delta_time),
        collider_rbs,
        other,
        delta_time,
    );
    let other_first = pair_resolved(
        pair_resolved(bodies, collider_rbs, other, delta_time),
        collider_rbs,
        one,
        delta_time,
    );
    assert(one_first =~= other_first);
}

/// On a level floor, under a level ceiling and at an upright wall, sliding
/// clears the part of the velocity that goes into the surface and keeps the
/// rest exactly, so that one overlap settles the velocity for good.
pub proof fn lemma_slide_on_axis(velocity: Vector, normal: Vector)
    requires
        (normal.x == 0 && (normal.y == SCALE || normal.y == -SCALE)) || (normal.y == 0 && (normal.x
            == SCALE || normal.x == -SCALE)),
    ensures
        normal == (Vector { x: 0, y: SCALE }) ==> spec_slide(velocity, normal) == (Vector {
            x: velocity.x,
            y: spec_larger(velocity.y, 0),
        }),
        normal == (Vector { x: 0, y: (-SCALE) as Scalar }) ==> spec_slide(velocity, normal) == (Vector {
            x: velocity.x,
            y: spec_smaller(velocity.y, 0),
        }),
        normal == (Vector { x: SCALE, y: 0 }) ==> spec_slide(velocity, normal) == (Vector {
            x: spec_larger(velocity.x, 0),
            y: velocity.y,
        }),
        normal == (Vector { x: (-SCALE) as Scalar, y: 0 }) ==> spec_slide(velocity, normal) == (Vector {
            x: spec_smaller(velocity.x, 0),
            y: velocity.y,
        }),
        spec_slide(velocity, normal).spec_dot(normal) >= 0,
        spec_slide(spec_slide(velocity, normal), normal) == spec_slide(velocity, normal),
{
    lemma_fixed_mul_zero(velocity.x);
    lemma_fixed_mul_zero(velocity.y);
    lemma_fixed_mul_one(velocity.x);
    lemma_fixed_mul_one(velocity.y);
    lemma_fixed_mul_minus_one(velocity.x);
    lemma_fixed_mul_minus_one(velocity.y);
    let speed = velocity.spec_dot(normal);
    lemma_fixed_mul_zero(speed);
    lemma_fixed_mul_one(speed);
    lemma_fixed_mul_minus_one(speed);
    let settled = spec_slide(velocity, normal);
    lemma_fixed_mul_zero(settled.x);
    lemma_fixed_mul_zero(settled.y);
    lemma_fixed_mul_one(settled.x);
    lemma_fixed_mul_one(settled.y);
    lemma_fixed_mul_minus_one(settled.x);
    lemma_fixed_mul_minus_one(settled.y);
    lemma_still_velocity_slides_nowhere(settled, normal);
}

} // verus!
