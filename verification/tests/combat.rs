use mini_rts::combat::{
    closest_candidate, find_kept_target, record_kill, soldier_tick, tank_tick, turret_tick,
    Sighting, SoldierTick, WeaponTick,
};
use mini_rts::components::{SoldierState, TankMode};
use mini_rts::economy::PlayerEconomy;
use mini_rts::faction::Faction;

fn sighting(net_id: u32, faction: Faction, key: u32) -> Sighting {
    Sighting {
        net_id,
        room_id: 1,
        faction,
        is_dead: false,
        is_self: false,
        in_attack_range: false,
        in_scan_range: true,
        distance_key: key,
    }
}

fn idle() -> WeaponTick {
    WeaponTick { target: None, fire_at: None, chase: None }
}

#[test]
fn closest_enemy_wins_and_ties_go_to_the_first() {
    let mut far = sighting(10, Faction::Player2, 300);
    far.in_attack_range = true;
    let near = sighting(11, Faction::Player2, 100);
    let tie = sighting(12, Faction::Player2, 100);
    let friend = sighting(13, Faction::Player1, 1);
    let list = vec![far, friend, near, tie];
    assert_eq!(closest_candidate(&list, 1, Faction::Player1), Some(2));
}

#[test]
fn dead_foreign_room_neutral_and_self_are_never_candidates() {
    let mut dead = sighting(1, Faction::Player2, 1);
    dead.is_dead = true;
    let mut elsewhere = sighting(2, Faction::Player2, 1);
    elsewhere.room_id = 9;
    let neutral = sighting(3, Faction::Neutral, 1);
    let mut me = sighting(4, Faction::Player2, 0);
    me.is_self = true;
    let mut out_of_reach = sighting(5, Faction::Player2, 1);
    out_of_reach.in_scan_range = false;
    let list = vec![dead, elsewhere, neutral, me, out_of_reach];
    assert_eq!(closest_candidate(&list, 1, Faction::Player2), None);
    assert_eq!(closest_candidate(&list, 1, Faction::Player1), None);
}

#[test]
fn kept_target_is_found_by_id() {
    let a = sighting(7, Faction::HostileAi, 50);
    let b = sighting(8, Faction::HostileAi, 10);
    let list = vec![a, b];
    assert_eq!(find_kept_target(&list, Some(7), 1, Faction::Player1, false), Some(0));
    assert_eq!(find_kept_target(&list, Some(7), 1, Faction::Player1, true), None);
    assert_eq!(find_kept_target(&list, None, 1, Faction::Player1, false), None);
    assert_eq!(find_kept_target(&list, Some(9), 1, Faction::Player1, false), None);
}

#[test]
fn soldier_with_ground_order_ignores_enemies() {
    let mut e = sighting(5, Faction::Player2, 1);
    e.in_attack_range = true;
    let t = soldier_tick(true, SoldierState::Idle, Some(5), true, false, true, 1, Faction::Player1, &vec![e]);
    assert_eq!(t, SoldierTick { state: SoldierState::MovingToGround, action: idle() });
}

#[test]
fn soldier_shoots_kept_target_in_range_when_ready() {
    let mut e = sighting(5, Faction::Player2, 90);
    e.in_attack_range = true;
    let closer = sighting(6, Faction::Player2, 1);
    let list = vec![closer, e];
    let t = soldier_tick(true, SoldierState::ChasingTarget, Some(5), false, false, true, 1, Faction::Player1, &list);
    assert_eq!(t.state, SoldierState::Attacking);
    assert_eq!(t.action, WeaponTick { target: Some(5), fire_at: Some(5), chase: None });
    let waiting = soldier_tick(true, SoldierState::Attacking, Some(5), false, false, false, 1, Faction::Player1, &list);
    assert_eq!(waiting.action, WeaponTick { target: Some(5), fire_at: None, chase: None });
}

#[test]
fn soldier_chases_unless_holding_position() {
    let e = sighting(5, Faction::Player2, 90);
    let list = vec![e];
    let t = soldier_tick(true, SoldierState::Idle, None, false, true, true, 1, Faction::Player1, &list);
    assert_eq!(t.state, SoldierState::ChasingTarget);
    assert_eq!(t.action, WeaponTick { target: Some(5), fire_at: None, chase: Some(5) });
    let held = soldier_tick(true, SoldierState::HoldingPosition, None, false, false, true, 1, Faction::Player1, &list);
    assert_eq!(held.state, SoldierState::HoldingPosition);
    assert_eq!(held.action, WeaponTick { target: Some(5), fire_at: None, chase: None });
}

#[test]
fn soldier_without_enemies_idles_or_keeps_attack_moving() {
    let list: Vec<Sighting> = Vec::new();
    let a = soldier_tick(true, SoldierState::Attacking, Some(3), false, false, true, 1, Faction::Player1, &list);
    assert_eq!(a, SoldierTick { state: SoldierState::Idle, action: idle() });
    let b = soldier_tick(true, SoldierState::Idle, None, true, true, true, 1, Faction::Player1, &list);
    assert_eq!(b.state, SoldierState::AttackMoving);
    let c = soldier_tick(true, SoldierState::HoldingPosition, None, false, false, true, 1, Faction::Player1, &list);
    assert_eq!(c.state, SoldierState::HoldingPosition);
}

#[test]
fn tank_modes() {
    let e = sighting(5, Faction::Player2, 90);
    let list = vec![e];
    // A mobile tank on a plain move order does not fight.
    assert_eq!(tank_tick(true, TankMode::Tank, Some(5), true, false, true, 1, Faction::Player1, &list), idle());
    // A sieged tank keeps fighting on a move order, but drops a kept target out of range.
    assert_eq!(tank_tick(true, TankMode::Siege, Some(5), true, false, true, 1, Faction::Player1, &list), idle());
    // A mobile tank chases its kept target.
    assert_eq!(
        tank_tick(true, TankMode::Tank, Some(5), false, false, true, 1, Faction::Player1, &list),
        WeaponTick { target: Some(5), fire_at: None, chase: Some(5) }
    );
    // A freshly acquired target is shot at once when ready.
    assert_eq!(
        tank_tick(true, TankMode::Siege, None, false, false, true, 1, Faction::Player1, &list),
        WeaponTick { target: Some(5), fire_at: Some(5), chase: None }
    );
    // While transforming it keeps the target and waits.
    assert_eq!(
        tank_tick(true, TankMode::TransformingToSiege, Some(5), false, false, true, 1, Faction::Player1, &list),
        WeaponTick { target: Some(5), fire_at: None, chase: None }
    );
}

#[test]
fn turret_needs_construction_and_range() {
    let e = sighting(5, Faction::Player2, 90);
    let list = vec![e];
    assert_eq!(
        turret_tick(true, false, Some(5), true, 1, Faction::Player1, &list),
        WeaponTick { target: Some(5), fire_at: None, chase: None }
    );
    // Out of attack range the kept target is dropped, but the scan picks it again.
    assert_eq!(
        turret_tick(true, true, Some(5), true, 1, Faction::Player1, &list),
        WeaponTick { target: Some(5), fire_at: Some(5), chase: None }
    );
    let mut far = e;
    far.in_scan_range = false;
    assert_eq!(turret_tick(true, true, Some(5), true, 1, Faction::Player1, &vec![far]), idle());
}

#[test]
fn kill_frees_the_victims_supply() {
    let mut e = PlayerEconomy::new();
    e.register_supply(Faction::Player2, 3);
    record_kill(&mut e, Faction::Player1, 2);
    assert_eq!(e.get_supply(Faction::Player2), (1, 10));
    record_kill(&mut e, Faction::HostileAi, 0);
    assert_eq!(e.get_supply(Faction::Player1), (0, 10));
    record_kill(&mut e, Faction::HostileAi, 5);
    assert_eq!(e.get_supply(Faction::Player1), (0, 10));
}

#[test]
fn nothing_happens_in_a_paused_room() {
    let mut e = sighting(5, Faction::Player2, 1);
    e.in_attack_range = true;
    let list = vec![e];
    let t = soldier_tick(false, SoldierState::HoldingPosition, Some(9), false, false, true, 1, Faction::Player1, &list);
    assert_eq!(t, SoldierTick { state: SoldierState::HoldingPosition, action: WeaponTick { target: Some(9), fire_at: None, chase: None } });
    assert_eq!(
        tank_tick(false, TankMode::Siege, None, false, false, true, 1, Faction::Player1, &list),
        idle()
    );
    assert_eq!(
        turret_tick(false, true, Some(5), true, 1, Faction::Player1, &list),
        WeaponTick { target: Some(5), fire_at: None, chase: None }
    );
}

#[test]
fn dead_target_is_replaced_by_the_nearest_enemy() {
    let mut old = sighting(20, Faction::Player2, 5);
    old.is_dead = true;
    let far = sighting(21, Faction::Player2, 90);
    let near = sighting(22, Faction::Player2, 30);
    let list = vec![old, far, near];
    let res = soldier_tick(true, SoldierState::Attacking, Some(20), false, false, true, 1, Faction::Player1, &list);
    assert_eq!(res.action.target, Some(22));
    assert_eq!(res.state, SoldierState::ChasingTarget);
    let paused = soldier_tick(false, SoldierState::Attacking, Some(20), false, false, true, 1, Faction::Player1, &list);
    assert_eq!(paused.action.target, Some(20));
    assert_eq!(paused.state, SoldierState::Attacking);
}
