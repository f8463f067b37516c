use mini_rts::economy::{FactionEconomy, PlayerEconomy};
use mini_rts::faction::Faction;
use mini_rts::kinds::{
    complete_construction, place_build_order, place_train_order, BuildingKind, UnitKind,
};

#[test]
fn starting_economy() {
    let e = PlayerEconomy::new();
    for f in [Faction::Player1, Faction::Player2, Faction::HostileAi] {
        assert_eq!(e.get(f), FactionEconomy { minerals: 200, current_supply: 0, max_supply: 10 });
        assert_eq!(e.get_minerals(f), 200);
        assert_eq!(e.get_supply(f), (0, 10));
    }
    assert_eq!(e.get_minerals(Faction::Neutral), 0);
    assert_eq!(e.get(Faction::Neutral), FactionEconomy::default());
    let empty = PlayerEconomy::default();
    assert_eq!(empty.get_minerals(Faction::Player1), 0);
    assert_eq!(empty.get_supply(Faction::Player1), (0, 10));
}

#[test]
fn spend_and_add_minerals() {
    let mut e = PlayerEconomy::new();
    assert!(e.has_minerals(Faction::Player1, 150));
    assert!(e.spend_minerals(Faction::Player1, 150));
    assert_eq!(e.get_minerals(Faction::Player1), 50);
    assert!(!e.spend_minerals(Faction::Player1, 51));
    assert_eq!(e.get_minerals(Faction::Player1), 50);
    e.add_minerals(Faction::Player1, 10);
    assert_eq!(e.get_minerals(Faction::Player1), 60);
    e.add_minerals(Faction::Player1, u32::MAX);
    assert_eq!(e.get_minerals(Faction::Player1), u32::MAX);
    assert_eq!(e.get_minerals(Faction::Player2), 200, "other factions untouched");
}

#[test]
fn spending_from_a_faction_without_entry_starts_from_defaults() {
    let mut e = PlayerEconomy::default();
    assert!(!e.has_minerals(Faction::Neutral, 1));
    assert!(e.spend_minerals(Faction::Neutral, 50));
    assert_eq!(e.get_minerals(Faction::Neutral), 150);
}

#[test]
fn supply_bookkeeping() {
    let mut e = PlayerEconomy::new();
    assert!(e.has_supply(Faction::Player1, 10));
    assert!(!e.has_supply(Faction::Player1, 11));
    e.register_supply(Faction::Player1, 4);
    assert_eq!(e.get_supply(Faction::Player1), (4, 10));
    e.unregister_supply(Faction::Player1, 9);
    assert_eq!(e.get_supply(Faction::Player1), (0, 10));
    e.add_max_supply(Faction::Player1, 8);
    assert_eq!(e.get_supply(Faction::Player1), (0, 18));
}

#[test]
fn train_orders_pay_and_take_supply() {
    let mut e = PlayerEconomy::new();
    assert!(place_train_order(&mut e, Faction::Player1, UnitKind::Soldier, 0, 5));
    assert_eq!(e.get_minerals(Faction::Player1), 100);
    assert_eq!(e.get_supply(Faction::Player1), (2, 10));
    assert!(!place_train_order(&mut e, Faction::Player1, UnitKind::Tank, 1, 5), "not enough minerals");
    assert!(!place_train_order(&mut e, Faction::Player1, UnitKind::Worker, 5, 5), "queue full");
    assert_eq!(e.get_minerals(Faction::Player1), 100);
    e.register_supply(Faction::Player1, 8);
    assert!(!place_train_order(&mut e, Faction::Player1, UnitKind::Worker, 0, 5), "no free supply");
    assert_eq!(e.get_supply(Faction::Player1), (10, 10));
}

#[test]
fn build_orders_pay_the_price() {
    let mut e = PlayerEconomy::new();
    assert!(place_build_order(&mut e, Faction::Player2, BuildingKind::Barracks, false));
    assert_eq!(e.get_minerals(Faction::Player2), 50);
    assert!(!place_build_order(&mut e, Faction::Player2, BuildingKind::SupplyDepot, false));
    assert_eq!(e.get_minerals(Faction::Player2), 50);
}

#[test]
fn turret_needs_a_finished_barracks() {
    let mut e = PlayerEconomy::new();
    let start = e.get_minerals(Faction::Player1);
    assert!(start >= BuildingKind::Turret.mineral_cost());
    assert!(!place_build_order(&mut e, Faction::Player1, BuildingKind::Turret, false));
    assert_eq!(e.get_minerals(Faction::Player1), start);
    assert!(place_build_order(&mut e, Faction::Player1, BuildingKind::Turret, true));
    assert_eq!(e.get_minerals(Faction::Player1), start - BuildingKind::Turret.mineral_cost());
}

#[test]
fn finished_supply_depot_raises_the_cap() {
    let mut e = PlayerEconomy::new();
    complete_construction(&mut e, Faction::Player1, BuildingKind::SupplyDepot);
    assert_eq!(e.get_supply(Faction::Player1), (0, 18));
    for k in [BuildingKind::BaseHQ, BuildingKind::Barracks, BuildingKind::Turret] {
        complete_construction(&mut e, Faction::Player1, k);
        assert_eq!(k.supply_provided(), 0);
    }
    assert_eq!(e.get_supply(Faction::Player1), (0, 18));
    assert_eq!(BuildingKind::SupplyDepot.supply_provided(), 8);
}
