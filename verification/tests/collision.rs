use patrol_physics::body::{Agent, Body, RigidBody};
use patrol_physics::collision::{
    body_of, brake, character_of, corrected_velocity, is_agent, is_dynamic,
    kinematic_controller_collisions, oriented, resolve_pair, slide, Character, ContactManifold,
    ContactPair, ContactPoint,
};
use patrol_physics::controller::EnemyControllerBundle;
use patrol_physics::fixed::SCALE;
use patrol_physics::vector::Vector;

const UP: Vector = Vector { x: 0, y: SCALE };
const DOWN: Vector = Vector { x: 0, y: -SCALE };
const LEFT: Vector = Vector { x: -SCALE, y: 0 };

fn at(x: i64, y: i64) -> Vector {
    Vector::new(x * SCALE, y * SCALE)
}

fn agent(position: Vector, velocity: Vector) -> Agent {
    Agent {
        position,
        linear_velocity: velocity,
        controller: EnemyControllerBundle::new(vec![at(0, 0)], Vector::splat(0)).unwrap(),
    }
}

fn manifold(normal: Vector, penetrations: &[i64]) -> ContactManifold {
    ContactManifold {
        normal,
        points: penetrations.iter().map(|&penetration| ContactPoint { penetration }).collect(),
    }
}

/// Body 0 is an agent, body 1 the level, body 2 a crate that can be pushed.
/// Collider `n` belongs to body `n`; collider 3 belongs to no body.
fn scene(velocity: Vector) -> (Vec<Body>, Vec<Option<usize>>) {
    (
        vec![
            Body::Agent(agent(at(0, 0), velocity)),
            Body::Other(RigidBody::Static),
            Body::Other(RigidBody::Dynamic),
        ],
        vec![Some(0), Some(1), Some(2), None],
    )
}

fn motion(body: &Body) -> (Vector, Vector) {
    let agent = body.as_agent().unwrap();
    (agent.position, agent.linear_velocity)
}

#[test]
fn an_overlap_pushes_out_and_stops_the_approach() {
    let mut enemy = agent(at(0, 0), at(0, -10));
    enemy.resolve(&manifold(UP, &[5 * SCALE]), false, 16_667);
    assert_eq!(enemy.position, at(0, 5));
    assert_eq!(enemy.linear_velocity, at(0, 0));
}

#[test]
fn the_normal_is_turned_toward_an_agent_that_is_first() {
    assert_eq!(oriented(DOWN, true), UP);
    assert_eq!(oriented(DOWN, false), DOWN);
    assert_eq!(oriented(Vector::new(600_000, -800_000), true), Vector::new(-600_000, 800_000));

    let mut enemy = agent(at(0, 0), at(0, -10));
    enemy.resolve(&manifold(DOWN, &[5 * SCALE]), true, 16_667);
    assert_eq!(enemy.position, at(0, 5));
    assert_eq!(enemy.linear_velocity, at(0, 0));
}

#[test]
fn an_overlap_leaves_the_motion_along_the_surface() {
    let mut enemy = agent(at(1, 1), at(7, -10));
    enemy.resolve(&manifold(UP, &[2 * SCALE]), false, SCALE);
    assert_eq!(enemy.position, at(1, 3));
    assert_eq!(enemy.linear_velocity, at(7, 0));
}

#[test]
fn an_overlap_on_a_slope_slides_down_the_slope() {
    let normal = Vector::new(600_000, 800_000);
    let mut enemy = agent(at(0, 0), at(0, -10));
    enemy.resolve(&manifold(normal, &[5 * SCALE]), false, SCALE);
    assert_eq!(enemy.position, at(3, 4));
    assert_eq!(enemy.linear_velocity, Vector::new(4_800_000, -3_600_000));
}

#[test]
fn an_agent_that_leaves_the_surface_keeps_its_velocity() {
    let mut enemy = agent(at(0, 0), at(3, 10));
    enemy.resolve(&manifold(UP, &[5 * SCALE]), false, SCALE);
    assert_eq!(enemy.position, at(0, 5));
    assert_eq!(enemy.linear_velocity, at(3, 10));
}

#[test]
fn each_penetrating_point_pushes_on_its_own() {
    let mut enemy = agent(at(0, 0), at(0, -1));
    enemy.resolve(&manifold(UP, &[5 * SCALE, 3 * SCALE]), false, SCALE);
    assert_eq!(enemy.position, at(0, 8));
    assert_eq!(enemy.linear_velocity, at(0, 0));
}

#[test]
fn points_that_do_not_penetrate_do_not_push() {
    let mut enemy = agent(at(0, 0), at(2, -1));
    enemy.resolve(&manifold(UP, &[-SCALE, 5 * SCALE, 0]), false, SCALE);
    assert_eq!(enemy.position, at(0, 5));
    assert_eq!(enemy.linear_velocity, at(2, 0));
}

#[test]
fn the_deepest_point_decides_between_overlap_and_forecast() {
    // One point overlaps: the manifold is an overlap, and the agent slides.
    let mut enemy = agent(at(0, 0), at(0, 10));
    enemy.resolve(&manifold(DOWN, &[-3 * SCALE, 1]), false, SCALE);
    assert_eq!(enemy.linear_velocity, at(0, 0));
    // No point does: the manifold is a forecast, and the agent brakes.
    let mut enemy = agent(at(0, 0), at(0, 10));
    enemy.resolve(&manifold(DOWN, &[-3 * SCALE, -2 * SCALE]), false, SCALE);
    assert_eq!(enemy.position, at(0, 0));
    assert_eq!(enemy.linear_velocity, at(0, 2));
}

#[test]
fn a_touching_manifold_counts_as_a_forecast() {
    let mut enemy = agent(at(0, 0), at(0, 10));
    enemy.resolve(&manifold(DOWN, &[0]), false, SCALE);
    assert_eq!(enemy.position, at(0, 0));
    assert_eq!(enemy.linear_velocity, at(0, 0));
}

#[test]
fn braking_under_a_ceiling_leaves_the_speed_that_closes_the_gap() {
    assert_eq!(brake(at(0, 10), DOWN, -2 * SCALE, SCALE), at(0, 2));
    assert_eq!(brake(at(0, 10), DOWN, -2 * SCALE, 500_000), at(0, 4));
    assert_eq!(brake(at(4, 10), DOWN, -2 * SCALE, 4 * SCALE), Vector::new(4 * SCALE, 500_000));
}

#[test]
fn braking_before_a_floor_is_held_back() {
    // The impulse would point upward into the agent's fall; its vertical part
    // is cut off, and nothing is left of it.
    assert_eq!(brake(at(0, -10), UP, -2 * SCALE, SCALE), at(0, -10));
    assert_eq!(brake(at(3, -10), UP, 0, SCALE), at(3, -10));
}

#[test]
fn braking_before_a_wall_takes_the_approach_speed() {
    assert_eq!(brake(at(10, 3), LEFT, -SCALE, SCALE), at(1, 3));
    assert_eq!(brake(at(10, -3), LEFT, 0, SCALE), at(0, -3));
}

#[test]
fn braking_before_a_slope_keeps_the_vertical_part_from_lifting() {
    // The normal leans up and to the left; the agent runs into it from the left.
    let normal = Vector::new(-600_000, 800_000);
    // Approach speed 6, impulse -6 along the normal: (3.6, -4.8), of which the
    // vertical part is cut off.
    assert_eq!(brake(at(10, 0), normal, 0, SCALE), Vector::new(6_400_000, 0));
}

#[test]
fn braking_does_nothing_to_an_agent_that_leaves() {
    assert_eq!(brake(at(0, -10), DOWN, -2 * SCALE, SCALE), at(0, -10));
    assert_eq!(brake(at(-1, 0), LEFT, 0, SCALE), at(-1, 0));
}

#[test]
fn braking_does_nothing_when_no_time_passes() {
    assert_eq!(brake(at(0, 10), DOWN, -2 * SCALE, 0), at(0, 10));
    assert_eq!(brake(at(10, 3), LEFT, 0, 0), at(10, 3));
}

#[test]
fn braking_never_raises_the_vertical_velocity() {
    let normals = [UP, DOWN, LEFT, Vector::new(600_000, 800_000), Vector::new(-800_000, -600_000)];
    let velocities = [at(0, 10), at(0, -10), at(10, 0), at(-7, 3), at(5, -9), at(0, 0)];
    let gaps = [0, -1, -2 * SCALE, -50 * SCALE, i64::MIN];
    let times = [1, 16_667, SCALE, 3 * SCALE, -SCALE];
    for normal in normals {
        for velocity in velocities {
            for gap in gaps {
                for time in times {
                    assert!(brake(velocity, normal, gap, time).y <= velocity.y);
                }
            }
        }
    }
}

#[test]
fn corrected_velocity_slides_on_overlap_and_brakes_else() {
    assert_eq!(corrected_velocity(at(4, 10), DOWN, 1, SCALE), at(4, 0));
    assert_eq!(corrected_velocity(at(4, 10), DOWN, 0, SCALE), at(4, 0));
    assert_eq!(corrected_velocity(at(4, 10), DOWN, -SCALE, SCALE), at(4, 1));
    assert_eq!(corrected_velocity(at(4, -10), UP, 1, SCALE), at(4, 0));
    assert_eq!(corrected_velocity(at(4, -10), UP, 0, SCALE), at(4, -10));
}

#[test]
fn sliding_twice_is_sliding_once() {
    let normals = [UP, DOWN, LEFT, Vector::new(600_000, 800_000), Vector::new(-800_000, -600_000)];
    let velocities = [at(0, 10), at(0, -10), at(10, 0), at(-7, 3), at(5, -9), at(0, 0)];
    for normal in normals {
        for velocity in velocities {
            let once = slide(velocity, normal);
            assert!(once.dot(normal) >= 0);
            assert_eq!(slide(once, normal), once);
        }
    }
}

#[test]
fn a_second_identical_overlap_changes_the_velocity_no_more() {
    let mut enemy = agent(at(0, 0), at(7, -10));
    let overlap = manifold(Vector::new(600_000, 800_000), &[SCALE]);
    enemy.resolve(&overlap, false, SCALE);
    let velocity = enemy.linear_velocity;
    assert_eq!(velocity, Vector::new(9_280_000, -6_960_000));
    enemy.resolve(&overlap, false, SCALE);
    assert_eq!(enemy.linear_velocity, velocity);
    assert_eq!(enemy.position, Vector::new(1_200_000, 1_600_000));
}

#[test]
fn a_manifold_without_points_is_a_forecast_from_the_least_depth() {
    // Under a ceiling the impulse points down and its vertical part is cut off.
    let mut enemy = agent(at(1, 2), at(0, 10));
    enemy.resolve(&manifold(DOWN, &[]), false, SCALE);
    assert_eq!(enemy.position, at(1, 2));
    assert_eq!(enemy.linear_velocity, at(0, 10));
    // Over a floor the impulse is as large as numbers get.
    let mut enemy = agent(at(1, 2), at(0, -10));
    enemy.resolve(&manifold(UP, &[]), false, SCALE);
    assert_eq!(enemy.position, at(1, 2));
    assert_eq!(enemy.linear_velocity, Vector::new(0, i64::MIN));
}

#[test]
fn manifolds_are_answered_one_after_the_other() {
    let mut enemy = agent(at(0, 0), at(10, -10));
    let manifolds = vec![manifold(UP, &[5 * SCALE]), manifold(LEFT, &[2 * SCALE])];
    enemy.resolve_all(&manifolds, false, SCALE);
    assert_eq!(enemy.position, at(-2, 5));
    assert_eq!(enemy.linear_velocity, at(0, 0));
}

#[test]
fn no_manifolds_change_nothing() {
    let mut enemy = agent(at(1, 2), at(3, 4));
    let before = enemy.clone();
    enemy.resolve_all(&Vec::new(), true, SCALE);
    assert_eq!(enemy, before);
}

#[test]
fn the_response_changes_position_and_velocity_only() {
    let mut enemy = agent(at(0, 0), at(0, -10));
    let controller = enemy.controller.clone();
    enemy.resolve(&manifold(UP, &[5 * SCALE]), false, SCALE);
    assert_eq!(enemy.controller, controller);
}

#[test]
fn lookups_fail_outside_the_tables() {
    let (bodies, collider_rbs) = scene(at(0, 0));
    assert_eq!(body_of(&collider_rbs, 0), Some(0));
    assert_eq!(body_of(&collider_rbs, 2), Some(2));
    assert_eq!(body_of(&collider_rbs, 3), None);
    assert_eq!(body_of(&collider_rbs, 4), None);
    assert_eq!(body_of(&collider_rbs, usize::MAX), None);
    assert!(is_agent(&bodies, 0));
    assert!(!is_agent(&bodies, 1));
    assert!(!is_agent(&bodies, 3));
    assert!(is_dynamic(&bodies, 2));
    assert!(!is_dynamic(&bodies, 0));
    assert!(!is_dynamic(&bodies, 1));
    assert!(!is_dynamic(&bodies, 3));
}

#[test]
fn the_character_is_the_agent_of_the_pair() {
    let (bodies, collider_rbs) = scene(at(0, 0));
    assert_eq!(
        character_of(&bodies, &collider_rbs, 0, 1),
        Some(Character { body: 0, is_first: true })
    );
    assert_eq!(
        character_of(&bodies, &collider_rbs, 1, 0),
        Some(Character { body: 0, is_first: false })
    );
}

#[test]
fn there_is_no_character_without_an_agent() {
    let (bodies, collider_rbs) = scene(at(0, 0));
    assert_eq!(character_of(&bodies, &collider_rbs, 1, 2), None);
    assert_eq!(character_of(&bodies, &collider_rbs, 1, 1), None);
}

#[test]
fn there_is_no_character_where_a_collider_has_no_body() {
    let (bodies, collider_rbs) = scene(at(0, 0));
    assert_eq!(character_of(&bodies, &collider_rbs, 0, 3), None);
    assert_eq!(character_of(&bodies, &collider_rbs, 3, 0), None);
    assert_eq!(character_of(&bodies, &collider_rbs, 0, 4), None);
    assert_eq!(character_of(&bodies, &collider_rbs, 17, 0), None);
}

#[test]
fn there_is_no_character_against_a_dynamic_body() {
    let (bodies, collider_rbs) = scene(at(0, 0));
    assert_eq!(character_of(&bodies, &collider_rbs, 0, 2), None);
    assert_eq!(character_of(&bodies, &collider_rbs, 2, 0), None);
}

#[test]
fn an_agent_that_is_not_kinematic_is_no_character() {
    for kind in [RigidBody::Dynamic, RigidBody::Static] {
        let (mut bodies, collider_rbs) = scene(at(0, 0));
        let mut enemy = agent(at(0, 0), at(0, 0));
        enemy.controller.body = kind;
        bodies[0] = Body::Agent(enemy);
        assert_eq!(character_of(&bodies, &collider_rbs, 0, 1), None);
        assert_eq!(character_of(&bodies, &collider_rbs, 1, 0), None);
    }
}

#[test]
fn a_body_that_is_missing_from_the_table_is_not_dynamic() {
    let (bodies, _) = scene(at(0, 0));
    let collider_rbs = vec![Some(0), Some(99)];
    assert_eq!(
        character_of(&bodies, &collider_rbs, 0, 1),
        Some(Character { body: 0, is_first: true })
    );
    assert_eq!(
        character_of(&bodies, &collider_rbs, 1, 0),
        Some(Character { body: 0, is_first: false })
    );
}

#[test]
fn of_two_agents_the_first_responds() {
    let bodies = vec![
        Body::Agent(agent(at(0, 0), at(0, 0))),
        Body::Agent(agent(at(9, 9), at(0, 0))),
    ];
    let collider_rbs = vec![Some(0), Some(1)];
    assert_eq!(
        character_of(&bodies, &collider_rbs, 1, 0),
        Some(Character { body: 1, is_first: true })
    );
    assert_eq!(
        character_of(&bodies, &collider_rbs, 0, 1),
        Some(Character { body: 0, is_first: true })
    );
}

#[test]
fn an_agent_answers_a_kinematic_body_like_a_static_one() {
    let (mut bodies, collider_rbs) = scene(at(0, -10));
    bodies[1] = Body::Other(RigidBody::Kinematic);
    let pair = ContactPair { collider1: 1, collider2: 0, manifolds: vec![manifold(UP, &[5 * SCALE])] };
    resolve_pair(&mut bodies, &collider_rbs, &pair, SCALE);
    assert_eq!(motion(&bodies[0]), (at(0, 5), at(0, 0)));
}

#[test]
fn a_pair_moves_its_agent_and_nothing_else() {
    let (mut bodies, collider_rbs) = scene(at(0, -10));
    let pair =
        ContactPair { collider1: 0, collider2: 1, manifolds: vec![manifold(DOWN, &[5 * SCALE])] };
    resolve_pair(&mut bodies, &collider_rbs, &pair, SCALE);
    assert_eq!(motion(&bodies[0]), (at(0, 5), at(0, 0)));
    assert_eq!(bodies[1], Body::Other(RigidBody::Static));
    assert_eq!(bodies[2], Body::Other(RigidBody::Dynamic));
}

#[test]
fn a_pair_with_a_dynamic_body_changes_nothing() {
    let (mut bodies, collider_rbs) = scene(at(0, -10));
    let before = bodies.clone();
    for (collider1, collider2) in [(0, 2), (2, 0)] {
        let pair = ContactPair {
            collider1,
            collider2,
            manifolds: vec![manifold(UP, &[5 * SCALE]), manifold(DOWN, &[-SCALE])],
        };
        resolve_pair(&mut bodies, &collider_rbs, &pair, SCALE);
        assert_eq!(bodies, before);
    }
    let collisions = vec![
        ContactPair { collider1: 2, collider2: 0, manifolds: vec![manifold(UP, &[5 * SCALE])] },
        ContactPair { collider1: 0, collider2: 2, manifolds: vec![manifold(DOWN, &[5 * SCALE])] },
    ];
    kinematic_controller_collisions(&collisions, &collider_rbs, &mut bodies, SCALE);
    assert_eq!(bodies, before);
}

#[test]
fn a_pair_that_cannot_be_looked_up_is_passed_over() {
    let (mut bodies, collider_rbs) = scene(at(0, -10));
    let before = bodies.clone();
    let collisions = vec![
        ContactPair { collider1: 0, collider2: 3, manifolds: vec![manifold(UP, &[SCALE])] },
        ContactPair { collider1: 8, collider2: 0, manifolds: vec![manifold(UP, &[SCALE])] },
        ContactPair { collider1: 1, collider2: 2, manifolds: vec![manifold(UP, &[SCALE])] },
    ];
    kinematic_controller_collisions(&collisions, &collider_rbs, &mut bodies, SCALE);
    assert_eq!(bodies, before);
}

#[test]
fn a_pair_that_is_passed_over_does_not_stop_the_others() {
    let (mut bodies, collider_rbs) = scene(at(0, -10));
    let collisions = vec![
        ContactPair { collider1: 0, collider2: 3, manifolds: vec![manifold(UP, &[SCALE])] },
        ContactPair { collider1: 0, collider2: 2, manifolds: vec![manifold(DOWN, &[SCALE])] },
        ContactPair { collider1: 1, collider2: 0, manifolds: vec![manifold(UP, &[5 * SCALE])] },
    ];
    kinematic_controller_collisions(&collisions, &collider_rbs, &mut bodies, SCALE);
    assert_eq!(motion(&bodies[0]), (at(0, 5), at(0, 0)));
}

#[test]
fn pairs_of_one_agent_are_answered_one_after_the_other() {
    let (mut bodies, collider_rbs) = scene(at(10, -10));
    let right = Vector::new(SCALE, 0);
    let collisions = vec![
        ContactPair { collider1: 1, collider2: 0, manifolds: vec![manifold(UP, &[5 * SCALE])] },
        ContactPair { collider1: 0, collider2: 1, manifolds: vec![manifold(right, &[2 * SCALE])] },
    ];
    kinematic_controller_collisions(&collisions, &collider_rbs, &mut bodies, SCALE);
    assert_eq!(motion(&bodies[0]), (at(-2, 5), at(0, 0)));
}

#[test]
fn each_agent_answers_its_own_pairs() {
    let mut bodies = vec![
        Body::Agent(agent(at(0, 0), at(0, -10))),
        Body::Other(RigidBody::Static),
        Body::Agent(agent(at(100, 0), at(10, 0))),
    ];
    let collider_rbs = vec![Some(0), Some(1), Some(2)];
    let collisions = vec![
        ContactPair { collider1: 1, collider2: 2, manifolds: vec![manifold(LEFT, &[SCALE])] },
        ContactPair { collider1: 1, collider2: 0, manifolds: vec![manifold(UP, &[5 * SCALE])] },
    ];
    kinematic_controller_collisions(&collisions, &collider_rbs, &mut bodies, SCALE);
    assert_eq!(motion(&bodies[0]), (at(0, 5), at(0, 0)));
    assert_eq!(motion(&bodies[2]), (at(99, 0), at(0, 0)));
}

#[test]
fn pairs_of_different_agents_can_be_answered_in_either_order() {
    let table = || {
        vec![
            Body::Agent(agent(at(0, 0), at(3, -10))),
            Body::Other(RigidBody::Static),
            Body::Agent(agent(at(100, 0), at(10, 2))),
        ]
    };
    let collider_rbs = vec![Some(0), Some(1), Some(2)];
    let slope = Vector::new(600_000, 800_000);
    let floor = || ContactPair {
        collider1: 1,
        collider2: 0,
        manifolds: vec![manifold(slope, &[5 * SCALE, SCALE]), manifold(UP, &[-SCALE])],
    };
    let wall = || ContactPair {
        collider1: 2,
        collider2: 1,
        manifolds: vec![manifold(Vector::new(SCALE, 0), &[SCALE])],
    };

    let mut one_way = table();
    kinematic_controller_collisions(&vec![floor(), wall()], &collider_rbs, &mut one_way, 16_667);
    let mut other_way = table();
    kinematic_controller_collisions(&vec![wall(), floor()], &collider_rbs, &mut other_way, 16_667);
    assert_eq!(one_way, other_way);
    assert_ne!(one_way, table());
}

#[test]
fn no_collisions_change_nothing() {
    let (mut bodies, collider_rbs) = scene(at(3, 4));
    let before = bodies.clone();
    kinematic_controller_collisions(&Vec::new(), &collider_rbs, &mut bodies, SCALE);
    assert_eq!(bodies, before);
}
