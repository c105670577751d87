//! The components that make a body a patrolling agent.

use crate::body::RigidBody;
use crate::fixed::{Scalar, SCALE};
use crate::path::{EmptyPath, PatrolPath, Waypoint};
use crate::vector::Vector;
use vstd::prelude::*;

verus! {

/// The acceleration of an agent that was given none of its own: thirty.
pub const DEFAULT_ACCELERATION: Scalar = 30_000_000;

/// The damping factor of an agent that was given none of its own: nine tenths.
pub const DEFAULT_DAMPING: Scalar = 900_000;

/// Marks a body as one that a character controller moves.
#[derive(Clone, Copy, Debug, PartialEq, Eq, Structural)]
pub struct EnemyController;

/// The acceleration with which an agent answers a movement action.
#[derive(Clone, Copy, Debug, PartialEq, Eq, Structural)]
pub struct MovementAcceleration(pub Scalar);

/// The factor by which an agent's velocity shrinks in each step: more than
/// zero and at most one, where one leaves the velocity as it is.
#[derive(Clone, Copy, Debug, PartialEq, Eq)]
pub struct MovementDampingFactor(Scalar);

/// The gravitational acceleration that a character controller is under.
#[derive(Clone, Copy, Debug, PartialEq, Eq, Structural)]
pub struct ControllerGravity(pub Vector);

/// The components of an agent's movement.
#[derive(Clone, Copy, Debug, PartialEq, Eq)]
pub struct MovementBundle {
    pub acceleration: MovementAcceleration,
    pub damping: MovementDampingFactor,
}

/// The components of a kinematic character controller that patrols a path.
#[derive(Debug, PartialEq, Eq)]
pub struct EnemyControllerBundle {
    pub character_controller: EnemyController,
    pub body: RigidBody,
    pub gravity: ControllerGravity,
    pub movement: MovementBundle,
    pub waypoint: Waypoint,
}

/// Whether `damping` can be a damping factor.
pub open spec fn valid_damping(damping: Scalar) -> bool {
    0 < damping <= SCALE
}

impl View for MovementDampingFactor {
    type V = Scalar;

    closed spec fn view(&self) -> Scalar {
        self.0
    }
}

impl MovementDampingFactor {
    #[verifier::type_invariant]
    spec fn inv(&self) -> bool {
        valid_damping(self.0)
    }

    /// Makes the damping factor `damping`.
    pub fn new(damping: Scalar) -> (factor: MovementDampingFactor)
        requires
            valid_damping(damping),
        ensures
            factor@ == damping,
    {
        MovementDampingFactor(damping)
    }

    /// Makes the damping factor `damping` if it is more than zero and at
    /// most one.
    pub fn checked(damping: Scalar) -> (factor: Option<MovementDampingFactor>)
        ensures
            valid_damping(damping) <==> factor is Some,
            factor matches Some(made) ==> made@ == damping,
    {
        if 0 < damping && damping <= SCALE {
            Some(MovementDampingFactor(damping))
        } else {
            None
        }
    }

    /// The factor as a number.
    pub fn get(&self) -> (damping: Scalar)
        ensures
            damping == self@,
            valid_damping(damping),
    {
        proof {
            use_type_invariant(self);
        }
        self.0
    }
}

impl MovementBundle {
    /// Makes the movement components of an agent.
    pub fn new(acceleration: Scalar, damping: Scalar) -> (bundle: MovementBundle)
        requires
            valid_damping(damping),
        ensures
            bundle.acceleration == MovementAcceleration(acceleration),
            bundle.damping@ == damping,
    {
        MovementBundle {
            acceleration: MovementAcceleration(acceleration),
            damping: MovementDampingFactor::new(damping),
        }
    }
}

impl Default for MovementBundle {
    fn default() -> (bundle: MovementBundle)
        ensures
            bundle.acceleration == MovementAcceleration(DEFAULT_ACCELERATION),
            bundle.damping@ == DEFAULT_DAMPING,
    {
        MovementBundle::new(DEFAULT_ACCELERATION, DEFAULT_DAMPING)
    }
}

impl Clone for EnemyControllerBundle {
    fn clone(&self) -> (copy: EnemyControllerBundle)
        ensures
            copy.same_as(*self),
    {
        EnemyControllerBundle {
            character_controller: self.character_controller,
            body: self.body,
            gravity: self.gravity,
            movement: self.movement,
            waypoint: self.waypoint.clone(),
        }
    }
}

impl EnemyControllerBundle {
    /// Whether `self` and `other` are in the same state: equal but for where
    /// their waypoints are stored.
    pub open spec fn same_as(self, other: EnemyControllerBundle) -> bool {
        &&& self.character_controller == other.character_controller
        &&& self.body == other.body
        &&& self.gravity == other.gravity
        &&& self.movement == other.movement
        &&& self.waypoint@ == other.waypoint@
    }

    /// Whether this is the controller that construction gives to an agent on
    /// `path` under `gravity`: kinematic, with the default movement.
    pub open spec fn fresh(self, path: PatrolPath, gravity: Vector) -> bool {
        &&& self.body == RigidBody::Kinematic
        &&& self.gravity == ControllerGravity(gravity)
        &&& self.movement.acceleration == MovementAcceleration(DEFAULT_ACCELERATION)
        &&& self.movement.damping@ == DEFAULT_DAMPING
        &&& self.waypoint@ == path
    }

    /// Makes the controller of an agent that patrols `poi` from its first
    /// waypoint on. A path without waypoints is refused.
    pub fn new(poi: Vec<Vector>, gravity: Vector) -> (r: Result<EnemyControllerBundle, EmptyPath>)
        ensures
            poi@.len() == 0 <==> r is Err,
            r matches Ok(bundle) ==> bundle.fresh(PatrolPath { points: poi@, cursor: 0 }, gravity),
    {
        match Waypoint::new(poi) {
            Ok(waypoint) => Ok(EnemyControllerBundle::with_waypoint(waypoint, gravity)),
            Err(e) => Err(e),
        }
    }

    /// Makes the controller of an agent that patrols `waypoint`.
    pub fn with_waypoint(waypoint: Waypoint, gravity: Vector) -> (bundle: EnemyControllerBundle)
        ensures
            bundle.fresh(waypoint@, gravity),
            bundle.waypoint == waypoint,
    {
        EnemyControllerBundle {
            character_controller: EnemyController,
            body: RigidBody::Kinematic,
            gravity: ControllerGravity(gravity),
            movement: MovementBundle::default(),
            waypoint,
        }
    }

    /// Replaces the movement components and keeps the rest.
    pub fn with_movement(self, acceleration: Scalar, damping: Scalar) -> (bundle:
        EnemyControllerBundle)
        requires
            valid_damping(damping),
        ensures
            bundle.movement.acceleration == MovementAcceleration(acceleration),
            bundle.movement.damping@ == damping,
            bundle.character_controller == self.character_controller,
            bundle.body == self.body,
            bundle.gravity == self.gravity,
            bundle.waypoint == self.waypoint,
    {
        let mut bundle = self;
        bundle.movement = MovementBundle::new(acceleration, damping);
        bundle
    }
}

} // verus!
