//! Movement intents: what the path follower asks of the integrator.

use crate::fixed::Scalar;
use vstd::prelude::*;

verus! {

/// A request to accelerate along one axis. The number is the direction: one
/// toward larger coordinates, minus one toward smaller ones. A number of
/// another size asks for a push that much stronger or weaker.
#[derive(Clone, Copy, Debug, PartialEq, Eq, Structural)]
pub enum MovementAction {
    MoveX(Scalar),
    MoveY(Scalar),
}

/// A movement action together with the agent that asked for it. `agent` is
/// the agent's place in the table of bodies; the action moves that agent and
/// no other.
#[derive(Clone, Copy, Debug, PartialEq, Eq, Structural)]
pub struct MovementIntent {
    pub agent: usize,
    pub action: MovementAction,
}

impl MovementIntent {
    /// Makes the intent of `agent` to perform `action`.
    pub fn new(agent: usize, action: MovementAction) -> (intent: MovementIntent)
        ensures
            intent == (MovementIntent { agent, action }),
    {
        MovementIntent { agent, action }
    }
}

} // verus!
