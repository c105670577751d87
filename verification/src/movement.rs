//! The three stages that move agents before collisions are looked at.
//!
//! First every agent takes its bearings on its patrol path and says where it
//! wants to go. Then each of these intents accelerates the agent that stated
//! it. At last every agent's velocity is damped. [`update`] runs the three in
//! this order.

use crate::body::{Agent, Body};
use crate::controller::{valid_damping, EnemyControllerBundle};
use crate::fixed::{
    fixed_mul, lemma_fixed_mul_fraction, lemma_fixed_mul_minus_one, lemma_fixed_mul_one, sat_add,
    spec_fixed_mul, spec_sat_add, spec_sat_neg, Scalar, SCALE,
};
use crate::intent::{MovementAction, MovementIntent};
use crate::path::steering;
use crate::vector::Vector;
use vstd::arithmetic::power::{lemma_pow_positive, pow};
use vstd::prelude::*;

verus! {

/// The velocity `velocity` after `action` has pushed it for `delta_time` with
/// the acceleration `acceleration`: the component on the action's axis grows
/// by direction times acceleration times time.
pub open spec fn spec_accelerated(
    velocity: Vector,
    action: MovementAction,
    acceleration: Scalar,
    delta_time: Scalar,
) -> Vector {
    match action {
        MovementAction::MoveX(direction) => Vector {
            x: spec_sat_add(
                velocity.x,
                spec_fixed_mul(spec_fixed_mul(direction, acceleration), delta_time),
            ),
            y: velocity.y,
        },
        MovementAction::MoveY(direction) => Vector {
            x: velocity.x,
            y: spec_sat_add(
                velocity.y,
                spec_fixed_mul(spec_fixed_mul(direction, acceleration), delta_time),
            ),
        },
    }
}

/// The velocity `velocity` after one step of damping by `damping`.
pub open spec fn spec_damped(velocity: Vector, damping: Scalar) -> Vector {
    Vector { x: spec_fixed_mul(velocity.x, damping), y: spec_fixed_mul(velocity.y, damping) }
}

/// `actions`, each as the intent of `agent`.
pub open spec fn intents_from(agent: usize, actions: Seq<MovementAction>) -> Seq<MovementIntent> {
    Seq::new(actions.len(), |i: int| MovementIntent { agent, action: actions[i] })
}

impl Agent {
    /// The actions that the agent asks for where it stands.
    pub open spec fn wishes(self) -> Seq<MovementAction> {
        steering(self.position, self.controller.waypoint@.target())
    }

    /// The agent after it has taken its bearings: its cursor has moved on if
    /// it has arrived; nothing else has changed.
    pub open spec fn spec_followed(self) -> Agent {
        Agent {
            position: self.position,
            linear_velocity: self.linear_velocity,
            controller: EnemyControllerBundle {
                character_controller: self.controller.character_controller,
                body: self.controller.body,
                gravity: self.controller.gravity,
                movement: self.controller.movement,
                waypoint: self.controller.waypoint.spec_followed(self.position),
            },
        }
    }

    /// The agent after `action` has pushed it for `delta_time`.
    pub open spec fn spec_pushed(self, action: MovementAction, delta_time: Scalar) -> Agent {
        Agent {
            position: self.position,
            linear_velocity: spec_accelerated(
                self.linear_velocity,
                action,
                self.controller.movement.acceleration.0,
                delta_time,
            ),
            controller: self.controller,
        }
    }

    /// The agent after one step of damping.
    pub open spec fn spec_slowed(self) -> Agent {
        Agent {
            position: self.position,
            linear_velocity: spec_damped(self.linear_velocity, self.controller.movement.damping@),
            controller: self.controller,
        }
    }
}

impl Body {
    /// The intents that the body at `handle` states: those of an agent, and
    /// none of any other body.
    pub open spec fn intents(self, handle: usize) -> Seq<MovementIntent> {
        match self {
            Body::Agent(agent) => intents_from(handle, agent.wishes()),
            Body::Other(_) => Seq::empty(),
        }
    }

    /// The body after it has taken its bearings.
    pub open spec fn spec_followed(self) -> Body {
        match self {
            Body::Agent(agent) => Body::Agent(agent.spec_followed()),
            Body::Other(kind) => Body::Other(kind),
        }
    }

    /// The body after one step of damping.
    pub open spec fn spec_slowed(self) -> Body {
        match self {
            Body::Agent(agent) => Body::Agent(agent.spec_slowed()),
            Body::Other(kind) => Body::Other(kind),
        }
    }
}

/// The intents that the agents among `bodies` state, in the order of their
/// handles.
pub open spec fn path_intents(bodies: Seq<Body>) -> Seq<MovementIntent>
    decreases bodies.len(),
{
    if bodies.len() == 0 {
        Seq::empty()
    } else {
        path_intents(bodies.drop_last()) + bodies.last().intents((bodies.len() - 1) as usize)
    }
}

/// The table of bodies after every agent has taken its bearings.
pub open spec fn paths_followed(bodies: Seq<Body>) -> Seq<Body> {
    Seq::new(bodies.len(), |i: int| bodies[i].spec_followed())
}

/// The table of bodies after `intent` has pushed its agent for `delta_time`.
/// An intent whose handle names no agent changes nothing.
pub open spec fn intent_applied(bodies: Seq<Body>, intent: MovementIntent, delta_time: Scalar)
    -> Seq<Body> {
    if intent.agent < bodies.len() && bodies[intent.agent as int] is Agent {
        bodies.update(
            intent.agent as int,
            Body::Agent(bodies[intent.agent as int]->Agent_0.spec_pushed(intent.action, delta_time)),
        )
    } else {
        bodies
    }
}

/// The table of bodies after each of `intents`, one after the other, has
/// pushed its agent for `delta_time`.
pub open spec fn intents_applied(
    bodies: Seq<Body>,
    intents: Seq<MovementIntent>,
    delta_time: Scalar,
) -> Seq<Body>
    decreases intents.len(),
{
    if intents.len() == 0 {
        bodies
    } else {
        intent_applied(
            intents_applied(bodies, intents.drop_last(), delta_time),
            intents.last(),
            delta_time,
        )
    }
}

/// The table of bodies after one step of damping of every agent.
pub open spec fn all_slowed(bodies: Seq<Body>) -> Seq<Body> {
    Seq::new(bodies.len(), |i: int| bodies[i].spec_slowed())
}

/// The table of bodies after the three stages of one step.
pub open spec fn updated(bodies: Seq<Body>, delta_time: Scalar) -> Seq<Body> {
    all_slowed(intents_applied(paths_followed(bodies), path_intents(bodies), delta_time))
}

/// Pushes `velocity` as `action` asks, for `delta_time`.
#[verifier::when_used_as_spec(spec_accelerated)]
pub fn accelerated(
    velocity: Vector,
    action: MovementAction,
    acceleration: Scalar,
    delta_time: Scalar,
) -> (v: Vector)
    ensures
        v == spec_accelerated(velocity, action, acceleration, delta_time),
{
    match action {
        MovementAction::MoveX(direction) => Vector {
            x: sat_add(velocity.x, fixed_mul(fixed_mul(direction, acceleration), delta_time)),
            y: velocity.y,
        },
        MovementAction::MoveY(direction) => Vector {
            x: velocity.x,
            y: sat_add(velocity.y, fixed_mul(fixed_mul(direction, acceleration), delta_time)),
        },
    }
}

/// Damps `velocity` by `damping`.
#[verifier::when_used_as_spec(spec_damped)]
pub fn damped(velocity: Vector, damping: Scalar) -> (v: Vector)
    ensures
        v == spec_damped(velocity, damping),
{
    Vector { x: fixed_mul(velocity.x, damping), y: fixed_mul(velocity.y, damping) }
}

/// Has every agent take its bearings. Returns what the agents ask for, in the
/// order of their handles and X before Y, and moves the cursor of each agent
/// that has arrived at its waypoint on both axes.
pub fn follow_path(bodies: &mut Vec<Body>) -> (intents: Vec<MovementIntent>)
    ensures
        intents@ == path_intents(old(bodies)@),
        final(bodies)@ == paths_followed(old(bodies)@),
{
    let mut intents: Vec<MovementIntent> = Vec::new();
    let mut i: usize = 0;
    while i < bodies.len()
        invariant
            i <= bodies@.len(),
            bodies@.len() == old(bodies)@.len(),
            intents@ == path_intents(old(bodies)@.take(i as int)),
            forall|j: int| 0 <= j < i ==> bodies@[j] == old(bodies)@[j].spec_followed(),
            forall|j: int| i <= j < bodies@.len() ==> bodies@[j] == old(bodies)@[j],
        decreases bodies@.len() - i,
    {
        let ghost before = intents@;
        match &mut bodies[i] {
            Body::Agent(agent) => {
                let actions: Vec<MovementAction> = agent.controller.waypoint.follow(agent.position);
                let mut k: usize = 0;
                while k < actions.len()
                    invariant
                        k <= actions@.len(),
                        intents@ == before + intents_from(i, actions@.take(k as int)),
                    decreases actions@.len() - k,
                {
                    intents.push(MovementIntent { agent: i, action: actions[k] });
                    proof {
                        assert(intents@ =~= before + intents_from(i, actions@.take(k as int + 1)));
                    }
                    k = k + 1;
                }
                proof {
                    assert(actions@.take(k as int) =~= actions@);
                }
            },
            Body::Other(_) => {
                proof {
                    assert(intents@ =~= before + Seq::<MovementIntent>::empty());
                }
            },
        }
        proof {
            let seen = old(bodies)@.take(i as int + 1);
            assert(seen.drop_last() =~= old(bodies)@.take(i as int));
            assert(seen.last() == old(bodies)@[i as int]);
        }
        i = i + 1;
    }
    proof {
        assert(old(bodies)@.take(i as int) =~= old(bodies)@);
        assert(bodies@ =~= paths_followed(old(bodies)@));
    }
    intents
}

/// Pushes the agent of `intent` as the intent asks. An intent whose handle
/// names no agent is passed over.
pub fn apply_intent(bodies: &mut Vec<Body>, intent: &MovementIntent, delta_time: Scalar)
    ensures
        final(bodies)@ == intent_applied(old(bodies)@, *intent, delta_time),
{
    if intent.agent < bodies.len() {
        match &mut bodies[intent.agent] {
            Body::Agent(agent) => {
                agent.linear_velocity = accelerated(
                    agent.linear_velocity,
                    intent.action,
                    agent.controller.movement.acceleration.0,
                    delta_time,
                );
            },
            Body::Other(_) => {},
        }
    }
}

/// Turns the intents of one step into velocity: each intent, in order, adds
/// direction times acceleration times `delta_time` to the velocity of its
/// agent on the intent's axis.
pub fn movement(delta_time: Scalar, intents: &Vec<MovementIntent>, bodies: &mut Vec<Body>)
    ensures
        final(bodies)@ == intents_applied(old(bodies)@, intents@, delta_time),
{
    let mut i: usize = 0;
    while i < intents.len()
        invariant
            i <= intents@.len(),
            bodies@ == intents_applied(old(bodies)@, intents@.take(i as int), delta_time),
        decreases intents@.len() - i,
    {
        proof {
            let seen = intents@.take(i as int + 1);
            assert(seen.drop_last() =~= intents@.take(i as int));
            assert(seen.last() == intents@[i as int]);
        }
        apply_intent(bodies, &intents[i], delta_time);
        i = i + 1;
    }
    proof {
        assert(intents@.take(i as int) =~= intents@);
    }
}

/// Slows every agent down: multiplies both components of its velocity by its
/// damping factor, whether or not anything pushed it in this step.
pub fn apply_movement_damping(bodies: &mut Vec<Body>)
    ensures
        final(bodies)@ == all_slowed(old(bodies)@),
{
    let mut i: usize = 0;
    while i < bodies.len()
        invariant
            i <= bodies@.len(),
            bodies@.len() == old(bodies)@.len(),
            forall|j: int| 0 <= j < i ==> bodies@[j] == old(bodies)@[j].spec_slowed(),
            forall|j: int| i <= j < bodies@.len() ==> bodies@[j] == old(bodies)@[j],
        decreases bodies@.len() - i,
    {
        match &mut bodies[i] {
            Body::Agent(agent) => {
                agent.linear_velocity = damped(
                    agent.linear_velocity,
                    agent.controller.movement.damping.get(),
                );
            },
            Body::Other(_) => {},
        }
        i = i + 1;
    }
    proof {
        assert(bodies@ =~= all_slowed(old(bodies)@));
    }
}

/// Runs the stages of one step that come before collision detection: path
/// following, then integration of the intents, then damping.
pub fn update(bodies: &mut Vec<Body>, delta_time: Scalar)
    ensures
        final(bodies)@ == updated(old(bodies)@, delta_time),
{
    let intents: Vec<MovementIntent> = follow_path(bodies);
    movement(delta_time, &intents, bodies);
    apply_movement_damping(bodies);
}

/// A direction of one pushes by acceleration times time, and a direction of
/// minus one by as much the other way. The other axis is left alone.
pub proof fn lemma_unit_direction(velocity: Vector, acceleration: Scalar, delta_time: Scalar)
    ensures
        spec_accelerated(velocity, MovementAction::MoveX(SCALE), acceleration, delta_time) == (Vector {
            x: spec_sat_add(velocity.x, spec_fixed_mul(acceleration, delta_time)),
            y: velocity.y,
        }),
        spec_accelerated(velocity, MovementAction::MoveY(SCALE), acceleration, delta_time) == (Vector {
            x: velocity.x,
            y: spec_sat_add(velocity.y, spec_fixed_mul(acceleration, delta_time)),
        }),
        spec_accelerated(
            velocity,
            MovementAction::MoveX((-SCALE) as Scalar),
            acceleration,
            delta_time,
        ) == (Vector {
            x: spec_sat_add(velocity.x, spec_fixed_mul(spec_sat_neg(acceleration), delta_time)),
            y: velocity.y,
        }),
        spec_accelerated(
            velocity,
            MovementAction::MoveY((-SCALE) as Scalar),
            acceleration,
            delta_time,
        ) == (Vector {
            x: velocity.x,
            y: spec_sat_add(velocity.y, spec_fixed_mul(spec_sat_neg(acceleration), delta_time)),
        }),
{
    lemma_fixed_mul_one(acceleration);
    lemma_fixed_mul_minus_one(acceleration);
}

/// A damping factor of one does not damp.
pub proof fn lemma_damping_by_one(velocity: Vector)
    ensures
        spec_damped(velocity, SCALE) == velocity,
{
    lemma_fixed_mul_one(velocity.x);
    lemma_fixed_mul_one(velocity.y);
}

/// An intent pushes its own agent and touches no other body. Of its agent it
/// changes the velocity on its own axis and nothing else.
pub proof fn lemma_intent_is_local(bodies: Seq<Body>, intent: MovementIntent, delta_time: Scalar)
    ensures
        intent_applied(bodies, intent, delta_time).len() == bodies.len(),
        forall|handle: int|
            0 <= handle < bodies.len() && handle != intent.agent ==> #[trigger] intent_applied(
                bodies,
                intent,
                delta_time,
            )[handle] == bodies[handle],
        0 <= intent.agent < bodies.len() ==> match bodies[intent.agent as int] {
            Body::Agent(agent) => intent_applied(bodies, intent, delta_time)[intent.agent as int]
                matches Body::Agent(pushed) && pushed.position == agent.position
                && pushed.controller == agent.controller && match intent.action {
                MovementAction::MoveX(_) => pushed.linear_velocity.y == agent.linear_velocity.y,
                MovementAction::MoveY(_) => pushed.linear_velocity.x == agent.linear_velocity.x,
            },
            Body::Other(kind) => intent_applied(bodies, intent, delta_time)[intent.agent as int]
                == Body::Other(kind),
        },
{
}

/// Intents of different agents can be integrated in either order.
pub proof fn lemma_independent_intents_commute(
    bodies: Seq<Body>,
    one: MovementIntent,
    other: MovementIntent,
    delta_time: Scalar,
)
    requires
        one.agent != other.agent,
    ensures
        intent_applied(intent_applied(bodies, one, delta_time), other, delta_time)
            == intent_applied(intent_applied(bodies, other, delta_time), one, delta_time),
{
    let one_first = intent_applied(intent_applied(bodies, one, delta_time), other, delta_time);
    let other_first = intent_applied(intent_applied(bodies, other, delta_time), one, delta_time);
    assert(one_first =~= other_first);
}

/// The speed `speed` on one axis after `steps` steps of damping by `damping`.
pub open spec fn damped_times(speed: Scalar, damping: Scalar, steps: nat) -> Scalar
    decreases steps,
{
    if steps == 0 {
        speed
    } else {
        spec_fixed_mul(damped_times(speed, damping, (steps - 1) as nat), damping)
    }
}

impl Agent {
    /// The agent after `steps` steps of damping with nothing else in between.
    pub open spec fn slowed_times(self, steps: nat) -> Agent
        decreases steps,
    {
        if steps == 0 {
            self
        } else {
            self.slowed_times((steps - 1) as nat).spec_slowed()
        }
    }
}

/// Damping decays as the powers of the factor. After `steps` steps of damping
/// a speed `v` by the factor `d`, the speed is `v` times the `steps`-th power
/// of `d`, but for the rounding of each step: it differs from that product by
/// at most `steps` millionths. It never changes sign and never grows.
pub proof fn lemma_damping_decays(speed: Scalar, damping: Scalar, steps: nat)
    requires
        valid_damping(damping),
    ensures
        speed >= 0 ==> 0 <= damped_times(speed, damping, steps) <= speed,
        speed <= 0 ==> speed <= damped_times(speed, damping, steps) <= 0,
        -(steps * pow(SCALE as int, steps)) <= damped_times(speed, damping, steps) * pow(
            SCALE as int,
            steps,
        ) - speed * pow(damping as int, steps) <= steps * pow(SCALE as int, steps),
    decreases steps,
{
    let s = SCALE as int;
    let d = damping as int;
    if steps == 0 {
        reveal(pow);
        assert(speed * 1 == speed) by (nonlinear_arith);
    } else {
        let k = (steps - 1) as nat;
        lemma_damping_decays(speed, damping, k);
        let a = damped_times(speed, damping, k);
        let b = damped_times(speed, damping, steps);
        lemma_fixed_mul_fraction(a, damping);
        let p = pow(s, k);
        let q = pow(d, k);
        lemma_pow_positive(s, k);
        assert(pow(s, steps) == s * p && pow(d, steps) == d * q) by {
            reveal(pow);
        }
        let e = a * p - speed * q;
        let r = b * s - a * d;
        let sp = s * p;
        let kp = k * p;
        let ap = a * p;
        let sq = speed * q;
        let ad = a * d;
        let bs = b * s;
        assert(r * p == bs * p - ad * p) by (nonlinear_arith)
            requires
                r == bs - ad,
        ;
        assert(bs * p == b * sp) by (nonlinear_arith)
            requires
                bs == b * s,
                sp == s * p,
        ;
        assert(ad * p == d * ap) by (nonlinear_arith)
            requires
                ad == a * d,
                ap == a * p,
        ;
        assert(d * e == d * ap - d * sq) by (nonlinear_arith)
            requires
                e == ap - sq,
        ;
        assert(speed * (d * q) == d * sq) by (nonlinear_arith)
            requires
                sq == speed * q,
        ;
        assert(b * sp - speed * (d * q) == r * p + d * e);
        assert(-(sp - p) <= r * p <= sp - p) by (nonlinear_arith)
            requires
                -s < r < s,
                p > 0,
                sp == s * p,
        ;
        assert(-(kp * s) <= d * e <= kp * s) by (nonlinear_arith)
            requires
                0 < d <= s,
                -kp <= e <= kp,
                kp >= 0,
        ;
        assert(kp >= 0) by (nonlinear_arith)
            requires
                kp == k * p,
                p > 0,
                k >= 0,
        ;
        assert(steps * sp == kp * s + sp) by (nonlinear_arith)
            requires
                steps == k + 1,
                kp == k * p,
                sp == s * p,
        ;
    }
}

/// Steps of damping with nothing in between change of an agent only the
/// velocity, and that on each axis as [`damped_times`] says.
pub proof fn lemma_slowed_times(agent: Agent, steps: nat)
    ensures
        agent.slowed_times(steps).position == agent.position,
        agent.slowed_times(steps).controller == agent.controller,
        agent.slowed_times(steps).linear_velocity == (Vector {
            x: damped_times(agent.linear_velocity.x, agent.controller.movement.damping@, steps),
            y: damped_times(agent.linear_velocity.y, agent.controller.movement.damping@, steps),
        }),
    decreases steps,
{
    if steps > 0 {
        lemma_slowed_times(agent, (steps - 1) as nat);
    }
}

/// The table of bodies after `steps` steps with nothing in between.
pub open spec fn updated_times(bodies: Seq<Body>, delta_time: Scalar, steps: nat) -> Seq<Body>
    decreases steps,
{
    if steps == 0 {
        bodies
    } else {
        updated(updated_times(bodies, delta_time, (steps - 1) as nat), delta_time)
    }
}

/// A step in which no agent asks for anything is a step of damping: after
/// the agents have taken their bearings, nothing pushes them.
pub proof fn lemma_quiet_step(bodies: Seq<Body>, delta_time: Scalar)
    requires
        path_intents(bodies).len() == 0,
    ensures
        updated(bodies, delta_time) == all_slowed(paths_followed(bodies)),
{
}

/// While no agent asks for anything, the steps do nothing to an agent but
/// damp it: after `steps` such steps it stands where it stood, and its
/// velocity is what that many steps of damping leave of it.
pub proof fn lemma_quiet_steps_damp(bodies: Seq<Body>, delta_time: Scalar, steps: nat, handle: int)
    requires
        forall|earlier: nat|
            earlier < steps ==> path_intents(
                #[trigger] updated_times(bodies, delta_time, earlier),
            ).len() == 0,
        0 <= handle < bodies.len(),
        bodies[handle] is Agent,
    ensures
        updated_times(bodies, delta_time, steps).len() == bodies.len(),
        updated_times(bodies, delta_time, steps)[handle] matches Body::Agent(after) && ({
            let before = bodies[handle]->Agent_0;
            &&& after.position == before.position
            &&& after.controller.movement == before.controller.movement
            &&& after.linear_velocity == Vector {
                x: damped_times(
                    before.linear_velocity.x,
                    before.controller.movement.damping@,
                    steps,
                ),
                y: damped_times(
                    before.linear_velocity.y,
                    before.controller.movement.damping@,
                    steps,
                ),
            }
        }),
    decreases steps,
{
    if steps > 0 {
        let earlier = (steps - 1) as nat;
        lemma_quiet_steps_damp(bodies, delta_time, earlier, handle);
        let table = updated_times(bodies, delta_time, earlier);
        assert(path_intents(table).len() == 0);
        lemma_quiet_step(table, delta_time);
    }
}

} // verus!
