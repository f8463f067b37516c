use vstd::prelude::*;
use crate::economy::{
    after_add_max_supply, after_register_supply, after_spend_minerals, minerals_of, supply_of,
    PlayerEconomy,
};
use crate::faction::Faction;

verus! {

/// Units that buildings can train.
#[derive(Debug, Clone, Copy, PartialEq, Eq, Hash, Structural)]
pub enum UnitKind {
    Worker,
    Soldier,
    Tank,
}

/// Structures that workers can build.
#[derive(Debug, Clone, Copy, PartialEq, Eq, Hash, Structural)]
pub enum BuildingKind {
    BaseHQ,
    Barracks,
    SupplyDepot,
    Turret,
}

/// How a match is played.
#[derive(Debug, Clone, Copy, PartialEq, Eq, Hash, Structural)]
pub enum GameMode {
    SoloVsAi,
    Multiplayer1v1,
    CustomPrivate,
}

impl Default for GameMode {
    fn default() -> (res: Self)
        ensures
            res == GameMode::SoloVsAi,
    {
        GameMode::SoloVsAi
    }
}

/// What an entity of the world is.
#[derive(Debug, Clone, Copy, PartialEq, Eq, Hash, Structural)]
pub enum EntityKind {
    Unit(UnitKind),
    Building(BuildingKind),
    ResourceNode,
}

/// Colour that a player picks for the faction.
#[derive(Debug, Clone, Copy, PartialEq, Eq, Hash, Structural)]
pub enum FactionColor {
    Blue,
    Red,
    Teal,
    Amber,
}

/// Kind of device a player connects from.
#[derive(Debug, Clone, Copy, PartialEq, Eq, Hash, Structural)]
pub enum ClientPlatform {
    Desktop,
    Mobile,
}

/// Mineral price of a unit.
pub open spec fn unit_mineral_cost(k: UnitKind) -> u32 {
    match k {
        UnitKind::Worker => 50,
        UnitKind::Soldier => 100,
        UnitKind::Tank => 200,
    }
}

/// Supply that a unit takes.
pub open spec fn unit_supply_cost(k: UnitKind) -> u32 {
    match k {
        UnitKind::Worker => 1,
        UnitKind::Soldier => 2,
        UnitKind::Tank => 3,
    }
}

/// Mineral price of a building.
pub open spec fn building_mineral_cost(k: BuildingKind) -> u32 {
    match k {
        BuildingKind::BaseHQ => 400,
        BuildingKind::Barracks => 150,
        BuildingKind::SupplyDepot => 100,
        BuildingKind::Turret => 125,
    }
}

/// Supply cap that a building adds to its side once built: a supply depot adds 8.
pub open spec fn building_supply_provided(k: BuildingKind) -> u32 {
    match k {
        BuildingKind::SupplyDepot => 8,
        _ => 0,
    }
}

impl UnitKind {
    /// Display name of the unit.
    pub fn name(&self) -> (res: &'static str)
        ensures
            res@ == (match *self {
                UnitKind::Worker => "SCV Worker"@,
                UnitKind::Soldier => "Marine Soldier"@,
                UnitKind::Tank => "Siege Tank"@,
            }),
    {
        match self {
            UnitKind::Worker => "SCV Worker",
            UnitKind::Soldier => "Marine Soldier",
            UnitKind::Tank => "Siege Tank",
        }
    }

    /// Mineral price of the unit.
    pub fn mineral_cost(&self) -> (res: u32)
        ensures
            res == unit_mineral_cost(*self),
    {
        match self {
            UnitKind::Worker => 50,
            UnitKind::Soldier => 100,
            UnitKind::Tank => 200,
        }
    }

    /// Supply that the unit takes.
    pub fn supply_cost(&self) -> (res: u32)
        ensures
            res == unit_supply_cost(*self),
    {
        match self {
            UnitKind::Worker => 1,
            UnitKind::Soldier => 2,
            UnitKind::Tank => 3,
        }
    }
}

impl BuildingKind {
    /// Display name of the building.
    pub fn name(&self) -> (res: &'static str)
        ensures
            res@ == (match *self {
                BuildingKind::BaseHQ => "Base HQ"@,
                BuildingKind::Barracks => "Barracks"@,
                BuildingKind::SupplyDepot => "Supply Depot"@,
                BuildingKind::Turret => "Gun Turret"@,
            }),
    {
        match self {
            BuildingKind::BaseHQ => "Base HQ",
            BuildingKind::Barracks => "Barracks",
            BuildingKind::SupplyDepot => "Supply Depot",
            BuildingKind::Turret => "Gun Turret",
        }
    }

    /// Mineral price of the building.
    pub fn mineral_cost(&self) -> (res: u32)
        ensures
            res == building_mineral_cost(*self),
    {
        match self {
            BuildingKind::BaseHQ => 400,
            BuildingKind::Barracks => 150,
            BuildingKind::SupplyDepot => 100,
            BuildingKind::Turret => 125,
        }
    }

    /// Supply cap the building adds to its side once built.
    pub fn supply_provided(&self) -> (res: u32)
        ensures
            res == building_supply_provided(*self),
    {
        match self {
            BuildingKind::SupplyDepot => 8,
            _ => 0,
        }
    }
}

/// Whether the tech tree lets a side place a building of `kind`: a gun turret needs a finished
/// Barracks of the same side.
pub open spec fn build_unlocked(kind: BuildingKind, has_barracks: bool) -> bool {
    kind != BuildingKind::Turret || has_barracks
}

/// Whether a training order is accepted: the queue has room, and the faction holds the
/// minerals and the free supply.
pub open spec fn train_accepted(
    m: Map<Faction, crate::economy::FactionEconomy>,
    f: Faction,
    k: UnitKind,
    queue_len: nat,
    max_queue: nat,
) -> bool {
    &&& queue_len < max_queue
    &&& minerals_of(m, f) >= unit_mineral_cost(k)
    &&& supply_of(m, f).0 + unit_supply_cost(k) <= supply_of(m, f).1
}

/// Takes a training order for `unit_kind` at a building whose queue holds `queue_len` of at most
/// `max_queue` orders: when it is accepted, the price is paid and the supply is taken at once.
pub fn place_train_order(
    economy: &mut PlayerEconomy,
    faction: Faction,
    unit_kind: UnitKind,
    queue_len: usize,
    max_queue: usize,
) -> (accepted: bool)
    requires
        supply_of(old(economy)@, faction).0 + unit_supply_cost(unit_kind) <= u32::MAX,
    ensures
        accepted == train_accepted(
            old(economy)@,
            faction,
            unit_kind,
            queue_len as nat,
            max_queue as nat,
        ),
        accepted ==> final(economy)@ == after_register_supply(
            after_spend_minerals(old(economy)@, faction, unit_mineral_cost(unit_kind)),
            faction,
            unit_supply_cost(unit_kind),
        ),
        !accepted ==> final(economy)@ == old(economy)@,
{
    if queue_len >= max_queue {
        return false;
    }
    if economy.has_minerals(faction, unit_kind.mineral_cost()) && economy.has_supply(
        faction,
        unit_kind.supply_cost(),
    ) {
        economy.spend_minerals(faction, unit_kind.mineral_cost());
        economy.register_supply(faction, unit_kind.supply_cost());
        true
    } else {
        false
    }
}

/// Pays for a building when the faction holds its price; returns whether it did. A gun turret is
/// refused, and nothing is paid, unless `has_barracks` says that the side holds a finished
/// Barracks in its room.
pub fn place_build_order(
    economy: &mut PlayerEconomy,
    faction: Faction,
    kind: BuildingKind,
    has_barracks: bool,
) -> (paid: bool)
    ensures
        paid == (build_unlocked(kind, has_barracks) && minerals_of(old(economy)@, faction)
            >= building_mineral_cost(kind)),
        paid ==> final(economy)@ == after_spend_minerals(
            old(economy)@,
            faction,
            building_mineral_cost(kind),
        ),
        !paid ==> final(economy)@ == old(economy)@,
{
    if kind == BuildingKind::Turret && !has_barracks {
        return false;
    }
    if economy.has_minerals(faction, kind.mineral_cost()) {
        economy.spend_minerals(faction, kind.mineral_cost());
        true
    } else {
        false
    }
}

/// A building of `faction` finishes construction: a supply depot raises the side's supply cap.
pub fn complete_construction(economy: &mut PlayerEconomy, faction: Faction, kind: BuildingKind)
    ensures
        building_supply_provided(kind) > 0 ==> final(economy)@ == after_add_max_supply(
            old(economy)@,
            faction,
            building_supply_provided(kind),
        ),
        building_supply_provided(kind) == 0 ==> final(economy)@ == old(economy)@,
{
    let supply = kind.supply_provided();
    if supply > 0 {
        economy.add_max_supply(faction, supply);
    }
}

} // verus!
