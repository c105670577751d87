//! Bodies: patrolling agents, and whatever else takes part in collisions.

use crate::controller::{ControllerGravity, EnemyControllerBundle, MovementAcceleration};
use crate::fixed::Scalar;
use crate::path::{zigzag_points, PatrolPath, Waypoint, ZIGZAG_LEFT, ZIGZAG_LOW};
use crate::vector::Vector;
use vstd::prelude::*;

verus! {

/// The damping factor of a spawned enemy: ninety-six hundredths.
pub const ENEMY_DAMPING: Scalar = 960_000;

/// How a body takes part in the simulation.
#[derive(Clone, Copy, Debug, PartialEq, Eq, Structural)]
pub enum RigidBody {
    /// Moved by forces and by collisions.
    Dynamic,
    /// Never moved.
    Static,
    /// Moved only by whoever sets its position and velocity.
    Kinematic,
}

/// A body whose motion follows a patrol path and gives way to what it
/// collides with.
#[derive(Debug, PartialEq, Eq)]
pub struct Agent {
    pub position: Vector,
    pub linear_velocity: Vector,
    pub controller: EnemyControllerBundle,
}

/// An entry of the table of bodies. A body's place in the table is its
/// handle.
#[derive(Debug, PartialEq, Eq)]
pub enum Body {
    /// A patrolling agent.
    Agent(Agent),
    /// Any other body; of these only the kind matters.
    Other(RigidBody),
}

impl RigidBody {
    /// Whether the body is dynamic.
    pub fn is_dynamic(&self) -> (r: bool)
        ensures
            r == (*self == RigidBody::Dynamic),
    {
        matches!(self, RigidBody::Dynamic)
    }

    /// Whether the body is static.
    pub fn is_static(&self) -> (r: bool)
        ensures
            r == (*self == RigidBody::Static),
    {
        matches!(self, RigidBody::Static)
    }

    /// Whether the body is kinematic.
    pub fn is_kinematic(&self) -> (r: bool)
        ensures
            r == (*self == RigidBody::Kinematic),
    {
        matches!(self, RigidBody::Kinematic)
    }
}

impl Agent {
    /// Whether `self` and `other` are in the same state: equal but for where
    /// their waypoints are stored.
    pub open spec fn same_as(self, other: Agent) -> bool {
        &&& self.position == other.position
        &&& self.linear_velocity == other.linear_velocity
        &&& self.controller.same_as(other.controller)
    }
}

impl Clone for Agent {
    fn clone(&self) -> (copy: Agent)
        ensures
            copy.same_as(*self),
    {
        Agent {
            position: self.position,
            linear_velocity: self.linear_velocity,
            controller: self.controller.clone(),
        }
    }
}

impl Clone for Body {
    fn clone(&self) -> (copy: Body)
        ensures
            copy.same_as(*self),
    {
        match self {
            Body::Agent(agent) => Body::Agent(agent.clone()),
            Body::Other(kind) => Body::Other(*kind),
        }
    }
}

impl Body {
    /// Whether `self` and `other` are in the same state: equal but for where
    /// an agent's waypoints are stored.
    pub open spec fn same_as(self, other: Body) -> bool {
        match (self, other) {
            (Body::Agent(a), Body::Agent(b)) => a.same_as(b),
            (Body::Other(a), Body::Other(b)) => a == b,
            _ => false,
        }
    }

    /// How the body takes part in the simulation.
    pub open spec fn spec_rigid_body(&self) -> RigidBody {
        match *self {
            Body::Agent(agent) => agent.controller.body,
            Body::Other(kind) => kind,
        }
    }

    /// The agent that the body is, if it is one.
    pub fn as_agent(&self) -> (agent: Option<&Agent>)
        ensures
            match *self {
                Body::Agent(a) => agent == Some(&a),
                Body::Other(_) => agent is None,
            },
    {
        match self {
            Body::Agent(agent) => Some(agent),
            Body::Other(_) => None,
        }
    }

    /// How the body takes part in the simulation.
    #[verifier::when_used_as_spec(spec_rigid_body)]
    pub fn rigid_body(&self) -> (kind: RigidBody)
        ensures
            kind == self.spec_rigid_body(),
    {
        match self {
            Body::Agent(agent) => agent.controller.body,
            Body::Other(kind) => *kind,
        }
    }
}

/// Makes the enemy of the level: at rest in the lower left corner, on the
/// zigzag path, without gravity, accelerating by `max_speed`.
pub fn enemy_spawn_bundle(max_speed: Scalar) -> (enemy: Agent)
    ensures
        enemy.position == (Vector { x: ZIGZAG_LEFT, y: ZIGZAG_LOW }),
        enemy.linear_velocity == Vector::splat(0),
        enemy.controller.body == RigidBody::Kinematic,
        enemy.controller.gravity == ControllerGravity(Vector::splat(0)),
        enemy.controller.movement.acceleration == MovementAcceleration(max_speed),
        enemy.controller.movement.damping@ == ENEMY_DAMPING,
        enemy.controller.waypoint@ == (PatrolPath { points: zigzag_points(), cursor: 0 }),
{
    Agent {
        position: Vector::new(ZIGZAG_LEFT, ZIGZAG_LOW),
        linear_velocity: Vector::splat(0),
        controller: EnemyControllerBundle::with_waypoint(Waypoint::zigzag(), Vector::splat(0))
            .with_movement(max_speed, ENEMY_DAMPING),
    }
}

} // verus!
