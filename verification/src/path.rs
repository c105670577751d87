//! Patrol paths and the rule by which an agent follows one.
//!
//! A path is a cycle of waypoints with a cursor on the waypoint being headed
//! for. An agent has arrived on an axis when it is within
//! [`ARRIVAL_THRESHOLD`] of the waypoint on that axis. While it has not, it
//! asks to move along that axis toward the waypoint. Once it has arrived on
//! both axes at once, the cursor moves to the next waypoint, and from the last
//! one back to the first.

use crate::fixed::{distance, magnitude, Scalar, SCALE};
use crate::intent::MovementAction;
use crate::vector::Vector;
use vstd::prelude::*;

verus! {

/// How close to a waypoint, on one axis, counts as having arrived: fifty.
pub const ARRIVAL_THRESHOLD: Scalar = 50_000_000;

/// The left edge of the zigzag path.
pub const ZIGZAG_LEFT: Scalar = -540_000_000;

/// The right edge of the zigzag path.
pub const ZIGZAG_RIGHT: Scalar = 540_000_000;

/// The lowest of the three heights of the zigzag path.
pub const ZIGZAG_LOW: Scalar = -260_000_000;

/// The middle one of the three heights of the zigzag path.
pub const ZIGZAG_MIDDLE: Scalar = 0;

/// The highest of the three heights of the zigzag path.
pub const ZIGZAG_HIGH: Scalar = 260_000_000;

/// The error of making a path without waypoints.
#[derive(Clone, Copy, Debug, PartialEq, Eq, Structural)]
pub struct EmptyPath;

/// What a [`Waypoint`] stands for: the waypoints in the order in which they
/// are visited, and the place of the one being headed for.
pub struct PatrolPath {
    pub points: Seq<Vector>,
    pub cursor: int,
}

/// A patrol path with its cursor.
#[derive(Debug, PartialEq, Eq)]
pub struct Waypoint {
    poi: Vec<Vector>,
    index: usize,
}

/// Whether `current` is close enough to `target` on one axis: no further
/// from it than the arrival threshold.
pub open spec fn spec_arrived(current: Scalar, target: Scalar) -> bool {
    magnitude(target - current) <= ARRIVAL_THRESHOLD
}

/// The direction from `current` toward `target` on one axis: one where the
/// target is not below, minus one where it is.
pub open spec fn spec_direction(current: Scalar, target: Scalar) -> Scalar {
    if target >= current {
        SCALE
    } else {
        (-SCALE) as Scalar
    }
}

/// The place after `index` in a cycle of `len` places.
pub open spec fn spec_next_index(index: int, len: int) -> int {
    if index + 1 >= len {
        0
    } else {
        index + 1
    }
}

/// The waypoints of the zigzag path.
pub open spec fn zigzag_points() -> Seq<Vector> {
    seq![
        Vector { x: ZIGZAG_LEFT, y: ZIGZAG_LOW },
        Vector { x: ZIGZAG_RIGHT, y: ZIGZAG_LOW },
        Vector { x: ZIGZAG_RIGHT, y: ZIGZAG_MIDDLE },
        Vector { x: ZIGZAG_LEFT, y: ZIGZAG_MIDDLE },
        Vector { x: ZIGZAG_LEFT, y: ZIGZAG_HIGH },
        Vector { x: ZIGZAG_RIGHT, y: ZIGZAG_HIGH },
    ]
}

/// The actions that an agent at `position` asks for on its way to `target`:
/// one for each axis on which it has not arrived, X before Y.
pub open spec fn steering(position: Vector, target: Vector) -> Seq<MovementAction> {
    let along_x = if spec_arrived(position.x, target.x) {
        Seq::<MovementAction>::empty()
    } else {
        seq![MovementAction::MoveX(spec_direction(position.x, target.x))]
    };
    let along_y = if spec_arrived(position.y, target.y) {
        Seq::<MovementAction>::empty()
    } else {
        seq![MovementAction::MoveY(spec_direction(position.y, target.y))]
    };
    along_x + along_y
}

/// Whether `current` is within the arrival threshold of `target`.
#[verifier::when_used_as_spec(spec_arrived)]
pub fn arrived(current: Scalar, target: Scalar) -> (r: bool)
    ensures
        r == spec_arrived(current, target),
{
    distance(current, target) <= ARRIVAL_THRESHOLD
}

/// The direction in which `target` lies from `current`.
#[verifier::when_used_as_spec(spec_direction)]
pub fn direction(current: Scalar, target: Scalar) -> (r: Scalar)
    ensures
        r == spec_direction(current, target),
{
    if target >= current {
        SCALE
    } else {
        -SCALE
    }
}

impl View for Waypoint {
    type V = PatrolPath;

    closed spec fn view(&self) -> PatrolPath {
        PatrolPath { points: self.poi@, cursor: self.index as int }
    }
}

impl Clone for Waypoint {
    fn clone(&self) -> (copy: Waypoint)
        ensures
            copy@ == self@,
    {
        proof {
            use_type_invariant(self);
        }
        let poi: Vec<Vector> = self.poi.clone();
        proof {
            assert(poi@ =~= self.poi@);
        }
        Waypoint { poi, index: self.index }
    }
}

impl PatrolPath {
    /// A path has a waypoint, and its cursor is on one of them.
    pub open spec fn wf(self) -> bool {
        0 <= self.cursor < self.points.len()
    }

    /// The waypoint being headed for.
    pub open spec fn target(self) -> Vector {
        self.points[self.cursor]
    }

    /// Whether an agent at `position` has arrived at the target on both axes.
    pub open spec fn reached(self, position: Vector) -> bool {
        spec_arrived(position.x, self.target().x) && spec_arrived(position.y, self.target().y)
    }

    /// The cursor after an agent at `position` has taken its bearings: the
    /// next place where it has arrived, the same place where it has not.
    pub open spec fn next_cursor(self, position: Vector) -> int {
        if self.reached(position) {
            spec_next_index(self.cursor, self.points.len() as int)
        } else {
            self.cursor
        }
    }

    /// The path after an agent at `position` has taken its bearings.
    pub open spec fn followed(self, position: Vector) -> PatrolPath {
        PatrolPath { points: self.points, cursor: self.next_cursor(position) }
    }

    /// The path after an agent has taken its bearings at each of `positions`
    /// in turn.
    pub open spec fn followed_through(self, positions: Seq<Vector>) -> PatrolPath
        decreases positions.len(),
    {
        if positions.len() == 0 {
            self
        } else {
            self.followed_through(positions.drop_last()).followed(positions.last())
        }
    }

    /// At how many of `positions` the agent, taking its bearings at each in
    /// turn, found that it had arrived.
    pub open spec fn arrivals(self, positions: Seq<Vector>) -> nat
        decreases positions.len(),
    {
        if positions.len() == 0 {
            0
        } else if self.followed_through(positions.drop_last()).reached(positions.last()) {
            self.arrivals(positions.drop_last()) + 1
        } else {
            self.arrivals(positions.drop_last())
        }
    }
}

impl Waypoint {
    #[verifier::type_invariant]
    spec fn inv(&self) -> bool {
        self.index < self.poi.len()
    }

    /// This path with its cursor at `cursor`.
    pub closed spec fn with_cursor(self, cursor: int) -> Waypoint {
        Waypoint { poi: self.poi, index: cursor as usize }
    }

    /// This path after an agent at `position` has taken its bearings.
    pub open spec fn spec_followed(self, position: Vector) -> Waypoint {
        self.with_cursor(self@.next_cursor(position))
    }

    /// Moving the cursor changes the cursor and keeps the waypoints, and
    /// moving it to where it is changes nothing.
    pub proof fn lemma_with_cursor(self, cursor: int)
        requires
            0 <= cursor <= usize::MAX,
        ensures
            self.with_cursor(cursor)@ == (PatrolPath { points: self@.points, cursor }),
            self.with_cursor(self@.cursor) == self,
    {
    }

    /// Taking bearings keeps the waypoints and keeps the cursor on one of
    /// them.
    pub proof fn lemma_followed(self, position: Vector)
        requires
            self@.wf(),
        ensures
            self.spec_followed(position)@ == self@.followed(position),
            self.spec_followed(position)@.wf(),
            !self@.reached(position) ==> self.spec_followed(position) == self,
    {
        assert(self.poi@.len() == self.poi.len());
        self.lemma_with_cursor(self@.next_cursor(position));
    }

    /// Makes the path through `poi`, with the cursor on the first waypoint.
    /// A path without waypoints is refused.
    pub fn new(poi: Vec<Vector>) -> (r: Result<Waypoint, EmptyPath>)
        ensures
            poi@.len() == 0 <==> r is Err,
            r matches Ok(path) ==> path@ == (PatrolPath { points: poi@, cursor: 0 }),
    {
        if poi.len() == 0 {
            Err(EmptyPath)
        } else {
            Ok(Waypoint { poi, index: 0 })
        }
    }

    /// Makes the path that runs back and forth across the level on three
    /// heights, from the lower left corner to the upper right one.
    pub fn zigzag() -> (path: Waypoint)
        ensures
            path@ == (PatrolPath { points: zigzag_points(), cursor: 0 }),
    {
        let mut poi: Vec<Vector> = Vec::new();
        poi.push(Vector::new(ZIGZAG_LEFT, ZIGZAG_LOW));
        poi.push(Vector::new(ZIGZAG_RIGHT, ZIGZAG_LOW));
        poi.push(Vector::new(ZIGZAG_RIGHT, ZIGZAG_MIDDLE));
        poi.push(Vector::new(ZIGZAG_LEFT, ZIGZAG_MIDDLE));
        poi.push(Vector::new(ZIGZAG_LEFT, ZIGZAG_HIGH));
        poi.push(Vector::new(ZIGZAG_RIGHT, ZIGZAG_HIGH));
        proof {
            assert(poi@ =~= zigzag_points());
        }
        Waypoint { poi, index: 0 }
    }

    /// The place of the waypoint being headed for.
    pub fn index(&self) -> (i: usize)
        ensures
            self@.wf(),
            i == self@.cursor,
    {
        proof {
            use_type_invariant(self);
        }
        self.index
    }

    /// The number of waypoints, which is never zero.
    pub fn len(&self) -> (n: usize)
        ensures
            self@.wf(),
            n == self@.points.len(),
    {
        proof {
            use_type_invariant(self);
        }
        self.poi.len()
    }

    /// The waypoints in the order in which they are visited.
    pub fn points(&self) -> (poi: &Vec<Vector>)
        ensures
            poi@ == self@.points,
    {
        &self.poi
    }

    /// The waypoint being headed for.
    pub fn target(&self) -> (t: Vector)
        ensures
            self@.wf(),
            t == self@.target(),
    {
        proof {
            use_type_invariant(self);
        }
        self.poi[self.index]
    }

    /// Takes the bearings of an agent at `position`. Returns the actions it
    /// asks for, and moves the cursor on if it has arrived on both axes.
    pub fn follow(&mut self, position: Vector) -> (actions: Vec<MovementAction>)
        ensures
            old(self)@.wf(),
            actions@ == steering(position, old(self)@.target()),
            *final(self) == old(self).spec_followed(position),
            final(self)@ == old(self)@.followed(position),
    {
        proof {
            use_type_invariant(&*self);
        }
        let heading_towards: Vector = self.poi[self.index];
        let mut actions: Vec<MovementAction> = Vec::new();

        let arrived_x: bool = arrived(position.x, heading_towards.x);
        if !arrived_x {
            actions.push(MovementAction::MoveX(direction(position.x, heading_towards.x)));
        }
        let arrived_y: bool = arrived(position.y, heading_towards.y);
        if !arrived_y {
            actions.push(MovementAction::MoveY(direction(position.y, heading_towards.y)));
        }
        proof {
            assert(actions@ =~= steering(position, old(self)@.target()));
        }

        if arrived_x && arrived_y {
            let next_waypoint: usize = self.index + 1;
            if next_waypoint > self.poi.len() - 1 {
                self.index = 0;
            } else {
                self.index = next_waypoint;
            }
        }
        actions
    }
}

/// The cursor that started at `cursor` after `arrivals` arrivals, on a path of
/// `len` waypoints.
pub open spec fn advanced(cursor: int, len: int, arrivals: nat) -> int
    decreases arrivals,
{
    if arrivals == 0 {
        cursor
    } else {
        spec_next_index(advanced(cursor, len, (arrivals - 1) as nat), len)
    }
}

/// The cursor goes round the path in order. Each arrival moves it to the
/// place after it, and from the last place to the first, so that after any
/// number of arrivals it stands as many places further round the cycle, and
/// after as many arrivals as there are waypoints it is back where it started.
pub proof fn lemma_cursor_cycles(cursor: int, len: int, arrivals: nat)
    requires
        0 <= cursor < len,
    ensures
        advanced(cursor, len, arrivals) == (cursor + arrivals) % len,
        0 <= advanced(cursor, len, arrivals) < len,
    decreases arrivals,
{
    if arrivals == 0 {
        vstd::arithmetic::div_mod::lemma_fundamental_div_mod_converse(cursor, len, 0, cursor);
    } else {
        let before = (arrivals - 1) as nat;
        lemma_cursor_cycles(cursor, len, before);
        let place = advanced(cursor, len, before);
        let rounds = (cursor + before) / len;
        vstd::arithmetic::div_mod::lemma_fundamental_div_mod(cursor + before, len);
        assert(len * rounds == rounds * len) by (nonlinear_arith);
        if place + 1 >= len {
            assert((rounds + 1) * len == rounds * len + len) by (nonlinear_arith);
            vstd::arithmetic::div_mod::lemma_fundamental_div_mod_converse(
                cursor + arrivals,
                len,
                rounds + 1,
                0,
            );
        } else {
            vstd::arithmetic::div_mod::lemma_fundamental_div_mod_converse(
                cursor + arrivals,
                len,
                rounds,
                place + 1,
            );
        }
    }
}

/// A full round of arrivals brings the cursor back to where it started.
pub proof fn lemma_cursor_returns(cursor: int, len: int)
    requires
        0 <= cursor < len,
    ensures
        advanced(cursor, len, len as nat) == cursor,
{
    lemma_cursor_cycles(cursor, len, len as nat);
    assert(1 * len == len) by (nonlinear_arith);
    vstd::arithmetic::div_mod::lemma_fundamental_div_mod_converse(cursor + len, len, 1, cursor);
}

/// One taking of bearings either leaves the cursor where it is or moves it
/// to the place after it, round the cycle. It moves exactly when the agent has
/// arrived on both axes, which is exactly when the agent asks for nothing.
pub proof fn lemma_follow_step(path: PatrolPath, position: Vector)
    requires
        path.wf(),
    ensures
        path.reached(position) ==> path.next_cursor(position) == advanced(
            path.cursor,
            path.points.len() as int,
            1,
        ),
        path.reached(position) ==> path.next_cursor(position) == (path.cursor + 1) % (
        path.points.len() as int),
        !path.reached(position) ==> path.next_cursor(position) == path.cursor,
        0 <= path.next_cursor(position) < path.points.len(),
        path.reached(position) <==> steering(position, path.target()).len() == 0,
{
    reveal_with_fuel(advanced, 2);
    lemma_cursor_cycles(path.cursor, path.points.len() as int, 1);
}

/// Where the cursor stands depends on nothing but how often the agent has
/// arrived. However long the agent dwells between one arrival and the next,
/// the waypoints stay as they are, and the cursor has moved on by one place
/// for each arrival: it leaves no waypoint out and repeats none.
pub proof fn lemma_cursor_counts_arrivals(path: PatrolPath, positions: Seq<Vector>)
    requires
        path.wf(),
    ensures
        path.followed_through(positions).wf(),
        path.followed_through(positions).points == path.points,
        path.followed_through(positions).cursor == advanced(
            path.cursor,
            path.points.len() as int,
            path.arrivals(positions),
        ),
        path.followed_through(positions).cursor == (path.cursor + path.arrivals(positions)) % (
        path.points.len() as int),
    decreases positions.len(),
{
    if positions.len() > 0 {
        lemma_cursor_counts_arrivals(path, positions.drop_last());
        lemma_follow_step(path.followed_through(positions.drop_last()), positions.last());
    }
    lemma_cursor_cycles(path.cursor, path.points.len() as int, path.arrivals(positions));
}

/// Arrival takes both axes at once. An agent that has arrived on one axis and
/// not on the other keeps its cursor, and asks to move along the other axis
/// and for nothing else.
pub proof fn lemma_arrival_is_joint(path: PatrolPath, position: Vector)
    requires
        path.wf(),
        spec_arrived(position.x, path.target().x) != spec_arrived(position.y, path.target().y),
    ensures
        path.next_cursor(position) == path.cursor,
        spec_arrived(position.x, path.target().x) ==> steering(position, path.target())
            == seq![MovementAction::MoveY(spec_direction(position.y, path.target().y))],
        spec_arrived(position.y, path.target().y) ==> steering(position, path.target())
            == seq![MovementAction::MoveX(spec_direction(position.x, path.target().x))],
{
    let asked = steering(position, path.target());
    if spec_arrived(position.x, path.target().x) {
        assert(asked =~= seq![
            MovementAction::MoveY(spec_direction(position.y, path.target().y)),
        ]);
    } else {
        assert(asked =~= seq![
            MovementAction::MoveX(spec_direction(position.x, path.target().x)),
        ]);
    }
}

} // verus!
