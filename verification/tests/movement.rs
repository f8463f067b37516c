use mini_rts::components::{MoveTarget, SoldierState, TankMode};
use mini_rts::movement::{march_halted, patrol_turn, waypoint_step, PatrolLeg, WaypointStep};

#[test]
fn halts_when_room_paused_or_tank_not_mobile() {
    assert!(march_halted(false, None, None, false));
    assert!(march_halted(true, Some((TankMode::Siege, false)), None, false));
    assert!(march_halted(true, Some((TankMode::TransformingToTank, false)), None, false));
    assert!(!march_halted(true, Some((TankMode::Tank, true)), None, false));
    assert!(!march_halted(true, None, None, false));
}

#[test]
fn attack_move_pauses_while_fighting() {
    assert!(march_halted(true, None, Some((true, SoldierState::AttackMoving)), true));
    assert!(march_halted(true, None, Some((false, SoldierState::Attacking)), true));
    assert!(march_halted(true, None, Some((false, SoldierState::ChasingTarget)), true));
    assert!(!march_halted(true, None, Some((false, SoldierState::AttackMoving)), true));
    assert!(march_halted(true, Some((TankMode::Tank, true)), None, true));
    // A plain move ignores targets.
    assert!(!march_halted(true, None, Some((true, SoldierState::Attacking)), false));
}

#[test]
fn waypoints_are_followed_then_the_order_ends() {
    assert_eq!(waypoint_step(false, true, false), WaypointStep::NextWaypoint);
    assert_eq!(waypoint_step(false, false, true), WaypointStep::Walk);
    assert_eq!(waypoint_step(true, true, false), WaypointStep::Walk);
    assert_eq!(waypoint_step(true, false, true), WaypointStep::Arrive);
}

#[test]
fn final_waypoint_tracking() {
    let mut t = MoveTarget::with_waypoints((5, 5), false, vec![(1, 1), (3, 3), (5, 5)]);
    assert!(!t.is_final_waypoint());
    assert!(t.advance_waypoint());
    assert!(!t.is_final_waypoint());
    assert!(t.advance_waypoint());
    assert!(t.is_final_waypoint());
    assert_eq!(t.current_goal(), (5, 5));
    let straight = MoveTarget::new((2, 2), true);
    assert!(straight.is_final_waypoint());
}

#[test]
fn patrol_turns_at_each_end() {
    assert_eq!(patrol_turn(true, false, false), (true, PatrolLeg::ToTarget));
    assert_eq!(patrol_turn(true, true, false), (false, PatrolLeg::ToOrigin));
    assert_eq!(patrol_turn(false, false, false), (false, PatrolLeg::ToOrigin));
    assert_eq!(patrol_turn(false, false, true), (true, PatrolLeg::ToTarget));
}
