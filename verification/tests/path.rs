use patrol_physics::fixed::SCALE;
use patrol_physics::intent::MovementAction;
use patrol_physics::path::{arrived, direction, EmptyPath, Waypoint, ARRIVAL_THRESHOLD};
use patrol_physics::vector::Vector;

fn at(x: i64, y: i64) -> Vector {
    Vector::new(x * SCALE, y * SCALE)
}

fn triangle() -> Waypoint {
    Waypoint::new(vec![at(0, 0), at(1000, 0), at(0, 1000)]).unwrap()
}

#[test]
fn the_arrival_threshold_is_fifty() {
    assert_eq!(ARRIVAL_THRESHOLD, 50 * SCALE);
}

#[test]
fn a_path_without_waypoints_is_refused() {
    assert_eq!(Waypoint::new(Vec::new()), Err(EmptyPath));
}

#[test]
fn a_new_path_starts_at_its_first_waypoint() {
    let path = Waypoint::new(vec![at(540, -260), at(1, 2)]).unwrap();
    assert_eq!(path.index(), 0);
    assert_eq!(path.len(), 2);
    assert_eq!(path.target(), at(540, -260));
    assert_eq!(path.points(), &vec![at(540, -260), at(1, 2)]);
}

#[test]
fn a_path_of_one_waypoint_is_accepted() {
    let path = Waypoint::new(vec![at(3, 4)]).unwrap();
    assert_eq!(path.len(), 1);
    assert_eq!(path.target(), at(3, 4));
}

#[test]
fn a_copy_of_a_path_is_equal_to_it() {
    let mut path = triangle();
    path.follow(at(0, 0));
    let copy = path.clone();
    assert_eq!(copy, path);
    assert_eq!(copy.index(), 1);
}

#[test]
fn the_zigzag_has_six_waypoints() {
    let path = Waypoint::zigzag();
    assert_eq!(path.index(), 0);
    assert_eq!(
        path.points(),
        &vec![at(-540, -260), at(540, -260), at(540, 0), at(-540, 0), at(-540, 260), at(540, 260)]
    );
}

#[test]
fn arrival_is_within_the_threshold_inclusive() {
    assert!(arrived(0, 0));
    assert!(arrived(0, 50 * SCALE));
    assert!(arrived(50 * SCALE, 0));
    assert!(arrived(-25 * SCALE, 25 * SCALE));
    assert!(!arrived(0, 50 * SCALE + 1));
    assert!(!arrived(50 * SCALE + 1, 0));
    assert!(!arrived(i64::MIN, i64::MAX));
}

#[test]
fn direction_is_the_sign_of_the_way_to_the_target() {
    assert_eq!(direction(0, 100), SCALE);
    assert_eq!(direction(100, 0), -SCALE);
    assert_eq!(direction(i64::MIN, i64::MAX), SCALE);
    assert_eq!(direction(i64::MAX, i64::MIN), -SCALE);
}

#[test]
fn direction_is_positive_on_a_tie() {
    assert_eq!(direction(5, 5), SCALE);
}

#[test]
fn far_from_the_target_both_axes_are_asked_for() {
    let mut path = Waypoint::new(vec![at(540, -260)]).unwrap();
    let actions = path.follow(at(0, 0));
    assert_eq!(actions, vec![MovementAction::MoveX(SCALE), MovementAction::MoveY(-SCALE)]);
    assert_eq!(path.index(), 0);
}

#[test]
fn arrived_on_x_only_asks_for_y_and_keeps_the_cursor() {
    let mut path = triangle();
    let actions = path.follow(at(30, -200));
    assert_eq!(actions, vec![MovementAction::MoveY(SCALE)]);
    assert_eq!(path.index(), 0);
}

#[test]
fn arrived_on_y_only_asks_for_x_and_keeps_the_cursor() {
    let mut path = triangle();
    let actions = path.follow(at(200, -30));
    assert_eq!(actions, vec![MovementAction::MoveX(-SCALE)]);
    assert_eq!(path.index(), 0);
}

#[test]
fn arrived_on_both_axes_asks_for_nothing_and_moves_the_cursor() {
    let mut path = triangle();
    let actions = path.follow(at(-50, 50));
    assert_eq!(actions, Vec::new());
    assert_eq!(path.index(), 1);
    assert_eq!(path.target(), at(1000, 0));
}

#[test]
fn just_outside_the_threshold_is_not_arrived() {
    let mut path = triangle();
    let actions = path.follow(Vector::new(50 * SCALE + 1, 0));
    assert_eq!(actions, vec![MovementAction::MoveX(-SCALE)]);
    assert_eq!(path.index(), 0);
}

#[test]
fn the_cursor_goes_round_the_path_in_order() {
    let mut path = triangle();
    let mut seen = Vec::new();
    for _ in 0..7 {
        seen.push(path.index());
        let target = path.target();
        assert_eq!(path.follow(target), Vec::new());
    }
    assert_eq!(seen, vec![0, 1, 2, 0, 1, 2, 0]);
}

#[test]
fn the_cursor_dwells_until_arrival() {
    let mut path = triangle();
    path.follow(at(0, 0));
    for _ in 0..5 {
        let actions = path.follow(at(0, 0));
        assert_eq!(actions, vec![MovementAction::MoveX(SCALE)]);
        assert_eq!(path.index(), 1);
    }
    path.follow(at(1000, 0));
    assert_eq!(path.index(), 2);
}

#[test]
fn the_cursor_of_a_single_waypoint_stays() {
    let mut path = Waypoint::new(vec![at(3, 4)]).unwrap();
    assert_eq!(path.follow(at(3, 4)), Vec::new());
    assert_eq!(path.index(), 0);
    assert_eq!(path.follow(at(3, 4)), Vec::new());
    assert_eq!(path.index(), 0);
}

#[test]
fn following_keeps_the_waypoints() {
    let mut path = triangle();
    path.follow(at(0, 0));
    path.follow(at(77, 77));
    assert_eq!(path.points(), &vec![at(0, 0), at(1000, 0), at(0, 1000)]);
    assert_eq!(path.len(), 3);
}

#[test]
fn following_at_the_ends_of_the_range_does_not_overflow() {
    let mut path = Waypoint::new(vec![Vector::new(i64::MAX, i64::MIN)]).unwrap();
    let actions = path.follow(Vector::new(i64::MIN, i64::MAX));
    assert_eq!(actions, vec![MovementAction::MoveX(SCALE), MovementAction::MoveY(-SCALE)]);
}
