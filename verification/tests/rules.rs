use mini_rts::components::NetEntity;
use mini_rts::faction::Faction;
use mini_rts::kinds::{BuildingKind, GameMode, UnitKind};
use mini_rts::rules::{is_commandable, match_winner, wave_squad_size};
use mini_rts::spawner::layout_for;
use mini_rts::matchmaker::Matchmaker;
use mini_rts::kinds::EntityKind;

#[test]
fn hostility() {
    assert!(Faction::Player1.is_hostile_to(&Faction::Player2));
    assert!(Faction::HostileAi.is_hostile_to(&Faction::Player1));
    assert!(!Faction::Player1.is_hostile_to(&Faction::Player1));
    assert!(!Faction::Neutral.is_hostile_to(&Faction::Player1));
    assert!(!Faction::Player2.is_hostile_to(&Faction::Neutral));
    assert_eq!(Faction::default(), Faction::Player1);
}

#[test]
fn kind_prices_and_names() {
    assert_eq!(UnitKind::Worker.name(), "SCV Worker");
    assert_eq!(UnitKind::Soldier.mineral_cost(), 100);
    assert_eq!(UnitKind::Tank.supply_cost(), 3);
    assert_eq!(BuildingKind::BaseHQ.mineral_cost(), 400);
    assert_eq!(BuildingKind::Turret.name(), "Gun Turret");
    assert_eq!(BuildingKind::SupplyDepot.mineral_cost(), 100);
}

#[test]
fn orders_apply_only_to_own_units() {
    let unit = NetEntity { net_id: 7, owner_peer_id: 1 };
    let ids = vec![3, 7];
    assert!(is_commandable(&ids, unit.net_id, Faction::Player1, 2, Faction::Player1, 2));
    assert!(!is_commandable(&ids, unit.net_id, Faction::Player2, 2, Faction::Player1, 2));
    assert!(!is_commandable(&ids, unit.net_id, Faction::Player1, 3, Faction::Player1, 2));
    assert!(!is_commandable(&vec![3], unit.net_id, Faction::Player1, 2, Faction::Player1, 2));
}

#[test]
fn winners() {
    assert_eq!(match_winner(GameMode::SoloVsAi, false, true), Some(Faction::HostileAi));
    assert_eq!(match_winner(GameMode::Multiplayer1v1, false, true), Some(Faction::Player2));
    assert_eq!(match_winner(GameMode::Multiplayer1v1, true, false), Some(Faction::Player1));
    assert_eq!(match_winner(GameMode::SoloVsAi, true, true), None);
    assert_eq!(match_winner(GameMode::CustomPrivate, false, false), None);
}

#[test]
fn wave_sizes() {
    assert_eq!(wave_squad_size(1), 3);
    assert_eq!(wave_squad_size(2), 6);
    assert_eq!(wave_squad_size(3), 10);
    assert_eq!(wave_squad_size(4), 14);
    assert_eq!(wave_squad_size(10), 32);
}

#[test]
fn match_spawns_twenty_entities_with_fresh_ids() {
    let mut mm = Matchmaker::new();
    let plan = mm.plan_match_spawns(GameMode::Multiplayer1v1);
    assert_eq!(plan.len(), 20);
    for (i, p) in plan.iter().enumerate() {
        assert_eq!(p.net_id, 1000 + i as u32);
    }
    assert_eq!(mm.next_net_id, 1020);
    assert_eq!(plan[0].kind, EntityKind::Building(BuildingKind::BaseHQ));
    assert_eq!((plan[0].x, plan[0].y), (0, -1000));
    assert_eq!(plan[6].faction, Faction::Player2);
    let solo = layout_for(GameMode::SoloVsAi);
    assert_eq!(solo[6].1, Faction::HostileAi);
    assert_eq!(solo[10].1, Faction::HostileAi);
    assert_eq!(solo.iter().filter(|p| p.0 == EntityKind::ResourceNode).count(), 14);
}
