use mini_rts::combat::{soldier_tick, Sighting};
use mini_rts::components::SoldierState;
use mini_rts::faction::Faction;
use mini_rts::kinds::GameMode;
use mini_rts::matchmaker::{Matchmaker, Room};
use mini_rts::movement::{march_halted, waypoint_step, WaypointStep};
use mini_rts::rules::match_winner;

/// A unit on the test field: net id, faction, room, position and radius.
#[derive(Clone, Copy)]
struct Body {
    net_id: u32,
    faction: Faction,
    room_id: u32,
    pos: (f32, f32),
    radius: f32,
}

fn dist(a: (f32, f32), b: (f32, f32)) -> f32 {
    ((a.0 - b.0).powi(2) + (a.1 - b.1).powi(2)).sqrt()
}

/// What `me` sees of every body, with its weapon range and scanning reach.
fn sightings(me: &Body, attack_range: f32, scan_range: f32, bodies: &[Body]) -> Vec<Sighting> {
    bodies
        .iter()
        .map(|t| {
            let d = dist(me.pos, t.pos);
            Sighting {
                net_id: t.net_id,
                room_id: t.room_id,
                faction: t.faction,
                is_dead: false,
                is_self: t.net_id == me.net_id,
                in_attack_range: d <= attack_range + t.radius,
                in_scan_range: d <= scan_range + t.radius && d < scan_range,
                distance_key: d.to_bits(),
            }
        })
        .collect()
}

fn combat_system_strictly_isolates_rooms() {
    let bodies = [
        Body { net_id: 101, faction: Faction::Player1, room_id: 1, pos: (0.0, 0.0), radius: 16.0 },
        Body { net_id: 102, faction: Faction::Player2, room_id: 1, pos: (50.0, 0.0), radius: 16.0 },
        Body { net_id: 201, faction: Faction::Player1, room_id: 2, pos: (0.0, 0.0), radius: 16.0 },
        Body { net_id: 202, faction: Faction::HostileAi, room_id: 2, pos: (50.0, 0.0), radius: 16.0 },
    ];
    let expected = [Some(102), Some(101), Some(202), Some(201)];
    for (me, want) in bodies.iter().zip(expected) {
        let seen = sightings(me, 150.0, 150.0, &bodies);
        let tick = soldier_tick(true, SoldierState::Idle, None, false, false, false, me.room_id, me.faction, &seen);
        assert_eq!(tick.action.target, want, "a soldier must target the enemy of its own room");
    }
}

#[test]
fn tests_test_combat_system_strictly_isolates_rooms() {
    combat_system_strictly_isolates_rooms();
}

#[test]
fn sim_systems_test_combat_system_strictly_isolates_rooms() {
    combat_system_strictly_isolates_rooms();
}

fn match_outcome_per_room_independence() {
    let mut mm = Matchmaker::new();
    mm.insert_room(Room::new(1, None, GameMode::Multiplayer1v1, Some(101), Some(102)));
    mm.insert_room(Room::new(2, None, GameMode::SoloVsAi, Some(201), None));
    // Room 1: both headquarters stand; room 2: only Player 1's.
    let hqs = [(1u32, GameMode::Multiplayer1v1, true, true), (2, GameMode::SoloVsAi, true, false)];
    for (room_id, mode, p1, enemy) in hqs {
        if match_winner(mode, p1, enemy).is_some() {
            mm.deactivate_room(room_id);
        }
    }
    let r1 = mm.rooms.iter().find(|r| r.room_id == 1).unwrap();
    let r2 = mm.rooms.iter().find(|r| r.room_id == 2).unwrap();
    assert!(r1.is_active, "Room 1 should still be active (both HQs alive)");
    assert!(!r2.is_active, "Room 2 should be marked inactive (AI HQ destroyed)");
}

#[test]
fn tests_test_match_outcome_per_room_independence() {
    match_outcome_per_room_independence();
}

#[test]
fn sim_systems_test_match_outcome_per_room_independence() {
    match_outcome_per_room_independence();
}

fn ground_move_cancels_attack_and_preserves_movement() {
    let friendly = Body { net_id: 1, faction: Faction::Player1, room_id: 1, pos: (0.0, 0.0), radius: 16.0 };
    let hostile = Body { net_id: 2, faction: Faction::HostileAi, room_id: 1, pos: (50.0, 0.0), radius: 16.0 };
    let seen = sightings(&friendly, 150.0, 150.0, &[friendly, hostile]);
    let tick = soldier_tick(true, SoldierState::Idle, None, true, false, false, 1, Faction::Player1, &seen);
    assert_eq!(tick.action.target, None, "Target must be None during ground move");
    assert_eq!(tick.state, SoldierState::MovingToGround, "Soldier state must be MovingToGround");
    // The move order stays: the unit marches on toward (500, 0).
    assert!(!march_halted(true, None, Some((false, tick.state)), false));
    let d = dist(friendly.pos, (500.0, 0.0));
    assert_eq!(waypoint_step(true, d <= 20.0, d <= 12.0), WaypointStep::Walk, "MoveTarget must remain intact during ground move");
}

#[test]
fn tests_test_ground_move_cancels_attack_and_preserves_movement() {
    ground_move_cancels_attack_and_preserves_movement();
}

#[test]
fn sim_systems_test_ground_move_cancels_attack_and_preserves_movement() {
    ground_move_cancels_attack_and_preserves_movement();
}

fn idle_unit_auto_attacks_enemy_in_range_without_move_target() {
    let friendly = Body { net_id: 1, faction: Faction::Player1, room_id: 1, pos: (0.0, 0.0), radius: 16.0 };
    let hostile = Body { net_id: 2, faction: Faction::HostileAi, room_id: 1, pos: (80.0, 0.0), radius: 16.0 };
    let seen = sightings(&friendly, 150.0, 150.0, &[friendly, hostile]);
    let tick = soldier_tick(true, SoldierState::Idle, None, false, false, false, 1, Faction::Player1, &seen);
    assert_eq!(tick.action.target, Some(2), "Idle soldier must auto-acquire hostile within attack range");
    assert_eq!(tick.state, SoldierState::Attacking, "Soldier must be in Attacking state");
}

#[test]
fn tests_test_idle_unit_auto_attacks_enemy_in_range_without_move_target() {
    idle_unit_auto_attacks_enemy_in_range_without_move_target();
}

#[test]
fn sim_systems_test_idle_unit_auto_attacks_enemy_in_range_without_move_target() {
    idle_unit_auto_attacks_enemy_in_range_without_move_target();
}

fn attack_move_acquires_and_engages_enemy_on_encounter() {
    let hostile = Body { net_id: 1, faction: Faction::HostileAi, room_id: 1, pos: (0.0, 0.0), radius: 16.0 };
    let friendly = Body { net_id: 2, faction: Faction::Player1, room_id: 1, pos: (180.0, 0.0), radius: 16.0 };
    // On an attack move the soldier scans its aggro radius.
    let seen = sightings(&hostile, 150.0, 240.0, &[hostile, friendly]);
    let tick = soldier_tick(true, SoldierState::AttackMoving, None, true, true, false, 1, Faction::HostileAi, &seen);
    assert_eq!(tick.action.target, Some(2), "Attack-moving enemy must acquire encountered player unit");
    assert_eq!(tick.state, SoldierState::ChasingTarget, "Hostile soldier should be chasing/engaging the target");
    assert!(
        march_halted(true, None, Some((tick.action.target.is_some(), tick.state)), true),
        "Waypoint velocity must pause while actively engaging in combat"
    );
}

#[test]
fn tests_test_attack_move_acquires_and_engages_enemy_on_encounter() {
    attack_move_acquires_and_engages_enemy_on_encounter();
}

#[test]
fn sim_systems_test_attack_move_acquires_and_engages_enemy_on_encounter() {
    attack_move_acquires_and_engages_enemy_on_encounter();
}

fn inactive_room_freezes_movement_and_combat() {
    let mut mm = Matchmaker::new();
    let mut room = Room::new(1, None, GameMode::SoloVsAi, Some(1), None);
    room.is_active = false;
    mm.insert_room(room);
    let running = mm.room_is_running(1, true);
    assert!(!running);
    assert!(march_halted(running, None, Some((false, SoldierState::Idle)), false), "Movement must freeze when match is inactive / ended");
    let unit = Body { net_id: 1, faction: Faction::Player1, room_id: 1, pos: (0.0, 0.0), radius: 16.0 };
    let enemy = Body { net_id: 2, faction: Faction::HostileAi, room_id: 1, pos: (60.0, 0.0), radius: 16.0 };
    let seen = sightings(&unit, 150.0, 150.0, &[unit, enemy]);
    let tick = soldier_tick(running, SoldierState::Idle, None, true, false, true, 1, Faction::Player1, &seen);
    assert_eq!(tick.action.target, None, "No target acquisition when match is inactive / ended");
    assert_eq!(tick.action.fire_at, None);
    // Entities of a room that is gone keep running.
    assert!(mm.room_is_running(7, true));
}

#[test]
fn tests_test_inactive_room_freezes_movement_and_combat() {
    inactive_room_freezes_movement_and_combat();
}

#[test]
fn sim_systems_test_inactive_room_freezes_movement_and_combat() {
    inactive_room_freezes_movement_and_combat();
}

#[test]
fn game_session_test_spawn_match_entities_attaches_room_id() {
    let mut mm = Matchmaker::new();
    let r1 = mm.plan_match_spawns(GameMode::Multiplayer1v1);
    let r2 = mm.plan_match_spawns(GameMode::SoloVsAi);
    assert!(!r1.is_empty(), "Room 1 should have spawned states");
    assert!(!r2.is_empty(), "Room 2 should have spawned states");
    let mut ids: Vec<u32> = r1.iter().chain(r2.iter()).map(|p| p.net_id).collect();
    ids.sort();
    ids.dedup();
    assert_eq!(ids.len(), r1.len() + r2.len());
    assert_eq!(r1.len(), 20, "Room 1 should spawn 20 entities (HQs, SCVs, Main & Expansion Minerals)");
}
