use mini_rts::components::{MoveTarget, ResourceNode};

#[test]
fn test_move_target_waypoints() {
    let dest = (100.0f32, 200.0f32);
    let wp1 = (50.0f32, 50.0f32);
    let wp2 = (80.0f32, 150.0f32);
    let mut target = MoveTarget::with_waypoints(dest, true, vec![wp1, wp2, dest]);

    assert_eq!(target.current_goal(), wp1);
    assert!(target.advance_waypoint());
    assert_eq!(target.current_goal(), wp2);
    assert!(target.advance_waypoint());
    assert_eq!(target.current_goal(), dest);
    assert!(!target.advance_waypoint());
}

#[test]
fn move_target_without_waypoints_heads_straight() {
    let t = MoveTarget::with_waypoints((1, 2), false, Vec::new());
    assert_eq!(t.waypoints, vec![(1, 2)]);
    let n = MoveTarget::new((3, 4), true);
    assert_eq!(n.waypoints, vec![(3, 4)]);
    assert!(n.is_attack_move);
    let mut done = MoveTarget::new((3, 4), false);
    assert!(!done.advance_waypoint());
    assert_eq!(done.current_goal(), (3, 4));
}

#[test]
fn harvest_takes_at_most_what_remains() {
    let mut node = ResourceNode::new(25);
    assert_eq!(node.harvest(10), 10);
    assert_eq!(node.remaining_minerals, 15);
    assert_eq!(node.harvest(10), 10);
    assert_eq!(node.harvest(10), 5);
    assert_eq!(node.remaining_minerals, 0);
    assert_eq!(node.harvest(10), 0);
    assert_eq!(node.max_minerals, 25);
    assert_eq!(ResourceNode::default().remaining_minerals, 1500);
}
