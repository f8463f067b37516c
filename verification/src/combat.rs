use vstd::prelude::*;
use crate::components::{SoldierState, TankMode};
use crate::economy::{after_unregister_supply, PlayerEconomy};
use crate::faction::{spec_hostile, Faction};

verus! {

/// One possible target as a weapon holder sees it this tick.
///
/// Distances are measured by the caller: `in_attack_range` says whether the target lies within
/// the weapon's range (plus the target's radius), `in_scan_range` whether it lies within the
/// current scanning reach, and `distance_key` orders targets by distance (a smaller key is
/// closer).
#[derive(Debug, Clone, Copy, PartialEq, Eq, Structural)]
pub struct Sighting {
    pub net_id: u32,
    pub room_id: u32,
    pub faction: Faction,
    pub is_dead: bool,
    pub is_self: bool,
    pub in_attack_range: bool,
    pub in_scan_range: bool,
    pub distance_key: u32,
}

/// What one weapon holder does this tick.
#[derive(Debug, Clone, Copy, PartialEq, Eq, Structural)]
pub struct WeaponTick {
    /// The target it keeps for the next tick.
    pub target: Option<u32>,
    /// The target it shoots now; the caller then resets the attack timer.
    pub fire_at: Option<u32>,
    /// The target it moves toward now.
    pub chase: Option<u32>,
}

/// What one soldier does this tick, and its new behaviour.
#[derive(Debug, Clone, Copy, PartialEq, Eq, Structural)]
pub struct SoldierTick {
    pub state: SoldierState,
    pub action: WeaponTick,
}

/// A living entity of the same room on a hostile side.
pub open spec fn is_valid_target(s: Sighting, room_id: u32, faction: Faction) -> bool {
    !s.is_dead && s.room_id == room_id && spec_hostile(faction, s.faction)
}

/// The sighting is the current target `target`, still valid and, when `need_range`, within
/// attack range.
pub open spec fn keeps(
    s: Sighting,
    target: Option<u32>,
    room_id: u32,
    faction: Faction,
    need_range: bool,
) -> bool {
    &&& target == Some(s.net_id)
    &&& is_valid_target(s, room_id, faction)
    &&& need_range ==> s.in_attack_range
}

/// `i` is the first sighting that `keeps` accepts.
pub open spec fn is_kept_at(
    sightings: Seq<Sighting>,
    target: Option<u32>,
    room_id: u32,
    faction: Faction,
    need_range: bool,
    i: int,
) -> bool {
    &&& 0 <= i < sightings.len()
    &&& keeps(sightings[i], target, room_id, faction, need_range)
    &&& forall|j: int| 0 <= j < i ==> !keeps(sightings[j], target, room_id, faction, need_range)
}

/// Some sighting is the kept target.
pub open spec fn has_kept(
    sightings: Seq<Sighting>,
    target: Option<u32>,
    room_id: u32,
    faction: Faction,
    need_range: bool,
) -> bool {
    exists|i: int| 0 <= i < sightings.len() && keeps(sightings[i], target, room_id, faction, need_range)
}

/// A valid target, other than the weapon holder itself, within scanning reach.
pub open spec fn is_candidate(s: Sighting, room_id: u32, faction: Faction) -> bool {
    is_valid_target(s, room_id, faction) && !s.is_self && s.in_scan_range
}

/// `i` is the first of the closest candidates.
pub open spec fn is_closest_at(sightings: Seq<Sighting>, room_id: u32, faction: Faction, i: int) -> bool {
    &&& 0 <= i < sightings.len()
    &&& is_candidate(sightings[i], room_id, faction)
    &&& forall|j: int|
        0 <= j < sightings.len() && #[trigger] is_candidate(sightings[j], room_id, faction)
            ==> sightings[i].distance_key <= sightings[j].distance_key
    &&& forall|j: int|
        0 <= j < i && #[trigger] is_candidate(sightings[j], room_id, faction)
            ==> sightings[i].distance_key < sightings[j].distance_key
}

/// Some sighting is a candidate.
pub open spec fn has_candidate(sightings: Seq<Sighting>, room_id: u32, faction: Faction) -> bool {
    exists|i: int| 0 <= i < sightings.len() && is_candidate(sightings[i], room_id, faction)
}

/// The tick's outcome `res` follows `kept` for the kept target when there is one, else
/// `scanned` for the closest candidate when there is one, else it is `idle`.
pub open spec fn follows_choice<T>(
    sightings: Seq<Sighting>,
    target: Option<u32>,
    room_id: u32,
    faction: Faction,
    need_range: bool,
    kept: spec_fn(Sighting) -> T,
    scanned: spec_fn(Sighting) -> T,
    idle: T,
    res: T,
) -> bool {
    if has_kept(sightings, target, room_id, faction, need_range) {
        &&& exists|i: int| #[trigger] is_kept_at(sightings, target, room_id, faction, need_range, i)
        &&& forall|i: int|
            #[trigger] is_kept_at(sightings, target, room_id, faction, need_range, i) ==> res == kept(
                sightings[i],
            )
    } else if has_candidate(sightings, room_id, faction) {
        &&& exists|i: int| #[trigger] is_closest_at(sightings, room_id, faction, i)
        &&& forall|i: int|
            #[trigger] is_closest_at(sightings, room_id, faction, i) ==> res == scanned(sightings[i])
    } else {
        res == idle
    }
}

/// Whether `s` is a living entity of the room on a side hostile to `faction`.
pub fn valid_target(s: &Sighting, room_id: u32, faction: Faction) -> (res: bool)
    ensures
        res == is_valid_target(*s, room_id, faction),
{
    !s.is_dead && s.room_id == room_id && faction.is_hostile_to(&s.faction)
}

/// Position of the current target among the sightings, if it is still there and valid (and,
/// when `need_range`, within attack range).
pub fn find_kept_target(
    sightings: &Vec<Sighting>,
    target: Option<u32>,
    room_id: u32,
    faction: Faction,
    need_range: bool,
) -> (res: Option<usize>)
    ensures
        res matches Some(i) ==> is_kept_at(sightings@, target, room_id, faction, need_range, i as int),
        res is None ==> !has_kept(sightings@, target, room_id, faction, need_range),
{
    let id = match target {
        Some(id) => id,
        None => return None,
    };
    let mut i: usize = 0;
    while i < sightings.len()
        invariant
            i <= sightings@.len(),
            target == Some(id),
            forall|j: int| 0 <= j < i ==> !keeps(sightings@[j], target, room_id, faction, need_range),
        decreases sightings@.len() - i,
    {
        let s = &sightings[i];
        if s.net_id == id && valid_target(s, room_id, faction) && (!need_range || s.in_attack_range) {
            return Some(i);
        }
        i = i + 1;
    }
    None
}

/// Position of the closest candidate (the first one among equally close ones), if any.
pub fn closest_candidate(sightings: &Vec<Sighting>, room_id: u32, faction: Faction) -> (res: Option<
    usize,
>)
    ensures
        res matches Some(i) ==> is_closest_at(sightings@, room_id, faction, i as int),
        res is None ==> !has_candidate(sightings@, room_id, faction),
{
    let mut best: Option<usize> = None;
    let mut i: usize = 0;
    while i < sightings.len()
        invariant
            i <= sightings@.len(),
            best matches Some(b) ==> b < i && is_candidate(sightings@[b as int], room_id, faction)
                && (forall|j: int|
                0 <= j < i && #[trigger] is_candidate(sightings@[j], room_id, faction)
                    ==> sightings@[b as int].distance_key <= sightings@[j].distance_key) && (forall|
                j: int,
            |
                0 <= j < b && #[trigger] is_candidate(sightings@[j], room_id, faction)
                    ==> sightings@[b as int].distance_key < sightings@[j].distance_key),
            best is None ==> forall|j: int|
                0 <= j < i ==> !is_candidate(#[trigger] sightings@[j], room_id, faction),
        decreases sightings@.len() - i,
    {
        let s = &sightings[i];
        if valid_target(s, room_id, faction) && !s.is_self && s.in_scan_range {
            let closer = match best {
                None => true,
                Some(b) => s.distance_key < sightings[b].distance_key,
            };
            if closer {
                best = Some(i);
            }
        }
        i = i + 1;
    }
    best
}

/// A soldier facing the sighting `s` as its target: it shoots when in range and its weapon
/// is ready, closes in when out of range, and stays put when holding position.
pub open spec fn soldier_engages(state: SoldierState, s: Sighting, ready: bool) -> SoldierTick {
    let id = s.net_id;
    if s.in_attack_range {
        SoldierTick {
            state: SoldierState::Attacking,
            action: WeaponTick {
                target: Some(id),
                fire_at: if ready {
                    Some(id)
                } else {
                    None
                },
                chase: None,
            },
        }
    } else if state != SoldierState::HoldingPosition {
        SoldierTick {
            state: SoldierState::ChasingTarget,
            action: WeaponTick { target: Some(id), fire_at: None, chase: Some(id) },
        }
    } else {
        SoldierTick { state, action: WeaponTick { target: Some(id), fire_at: None, chase: None } }
    }
}

/// A soldier with no target in sight.
pub open spec fn soldier_without_target(state: SoldierState, is_attack_move: bool) -> SoldierTick {
    SoldierTick {
        state: if is_attack_move {
            SoldierState::AttackMoving
        } else if state != SoldierState::HoldingPosition {
            SoldierState::Idle
        } else {
            state
        },
        action: WeaponTick { target: None, fire_at: None, chase: None },
    }
}

fn soldier_engage(state: SoldierState, s: &Sighting, ready: bool) -> (res: SoldierTick)
    ensures
        res == soldier_engages(state, *s, ready),
{
    let id = s.net_id;
    if s.in_attack_range {
        let fire_at = if ready {
            Some(id)
        } else {
            None
        };
        SoldierTick {
            state: SoldierState::Attacking,
            action: WeaponTick { target: Some(id), fire_at, chase: None },
        }
    } else if state != SoldierState::HoldingPosition {
        SoldierTick {
            state: SoldierState::ChasingTarget,
            action: WeaponTick { target: Some(id), fire_at: None, chase: Some(id) },
        }
    } else {
        SoldierTick { state, action: WeaponTick { target: Some(id), fire_at: None, chase: None } }
    }
}

/// What a soldier does in one combat tick (see `soldier_tick`).
pub open spec fn soldier_decision(
    running: bool,
    state: SoldierState,
    target: Option<u32>,
    has_move_order: bool,
    is_attack_move: bool,
    ready: bool,
    room_id: u32,
    faction: Faction,
    sightings: Seq<Sighting>,
    res: SoldierTick,
) -> bool {
    if !running {
        res == SoldierTick { state, action: WeaponTick { target, fire_at: None, chase: None } }
    } else if has_move_order && !is_attack_move {
        res == SoldierTick {
            state: SoldierState::MovingToGround,
            action: WeaponTick { target: None, fire_at: None, chase: None },
        }
    } else {
        follows_choice(
            sightings,
            target,
            room_id,
            faction,
            false,
            |s: Sighting| soldier_engages(state, s, ready),
            |s: Sighting| soldier_engages(state, s, ready),
            soldier_without_target(state, is_attack_move),
            res,
        )
    }
}

/// One combat tick of a soldier. In a room that is not running it does nothing.
///
/// A plain ground move order overrides combat. Otherwise the soldier keeps its current target
/// while it is alive, in the room and hostile; failing that it takes the closest candidate
/// within its scanning reach (its aggro radius on an attack move, its weapon range otherwise).
pub fn soldier_tick(
    running: bool,
    state: SoldierState,
    target: Option<u32>,
    has_move_order: bool,
    is_attack_move: bool,
    ready: bool,
    room_id: u32,
    faction: Faction,
    sightings: &Vec<Sighting>,
) -> (res: SoldierTick)
    ensures
        soldier_decision(
            running,
            state,
            target,
            has_move_order,
            is_attack_move,
            ready,
            room_id,
            faction,
            sightings@,
            res,
        ),
{
    if !running {
        return SoldierTick { state, action: WeaponTick { target, fire_at: None, chase: None } };
    }
    if has_move_order && !is_attack_move {
        return SoldierTick {
            state: SoldierState::MovingToGround,
            action: WeaponTick { target: None, fire_at: None, chase: None },
        };
    }
    match find_kept_target(sightings, target, room_id, faction, false) {
        Some(i) => {
            proof {
                lemma_kept_unique(sightings@, target, room_id, faction, false, i as int);
            }
            soldier_engage(state, &sightings[i], ready)
        },
        None => match closest_candidate(sightings, room_id, faction) {
            Some(i) => {
                proof {
                    lemma_closest_unique(sightings@, room_id, faction, i as int);
                }
                soldier_engage(state, &sightings[i], ready)
            },
            None => {
                let next = if is_attack_move {
                    SoldierState::AttackMoving
                } else if state != SoldierState::HoldingPosition {
                    SoldierState::Idle
                } else {
                    state
                };
                SoldierTick { state: next, action: WeaponTick { target: None, fire_at: None, chase: None } }
            },
        },
    }
}

/// Keeping `s` as the target and shooting it when the weapon is ready.
pub open spec fn opens_fire(s: Sighting, ready: bool) -> WeaponTick {
    WeaponTick {
        target: Some(s.net_id),
        fire_at: if ready {
            Some(s.net_id)
        } else {
            None
        },
        chase: None,
    }
}

/// A tank facing its kept target `s`: it shoots when in range; out of range it closes in when
/// mobile, drops the target when sieged, and waits while transforming.
pub open spec fn tank_engages(mode: TankMode, s: Sighting, ready: bool) -> WeaponTick {
    if s.in_attack_range {
        opens_fire(s, ready)
    } else if mode == TankMode::Tank {
        WeaponTick { target: Some(s.net_id), fire_at: None, chase: Some(s.net_id) }
    } else if mode == TankMode::Siege {
        WeaponTick { target: None, fire_at: None, chase: None }
    } else {
        WeaponTick { target: Some(s.net_id), fire_at: None, chase: None }
    }
}

fn open_fire(s: &Sighting, ready: bool) -> (res: WeaponTick)
    ensures
        res == opens_fire(*s, ready),
{
    let fire_at = if ready {
        Some(s.net_id)
    } else {
        None
    };
    WeaponTick { target: Some(s.net_id), fire_at, chase: None }
}

/// No target, no shot, no movement.
pub open spec fn holds_fire() -> WeaponTick {
    WeaponTick { target: None, fire_at: None, chase: None }
}

/// What a siege tank does in one combat tick (see `tank_tick`).
pub open spec fn tank_decision(
    running: bool,
    mode: TankMode,
    target: Option<u32>,
    has_move_order: bool,
    is_attack_move: bool,
    ready: bool,
    room_id: u32,
    faction: Faction,
    sightings: Seq<Sighting>,
    res: WeaponTick,
) -> bool {
    if !running {
        res == WeaponTick { target, fire_at: None, chase: None }
    } else if has_move_order && !is_attack_move && mode == TankMode::Tank {
        res == holds_fire()
    } else {
        follows_choice(
            sightings,
            target,
            room_id,
            faction,
            false,
            |s: Sighting| tank_engages(mode, s, ready),
            |s: Sighting| opens_fire(s, ready),
            holds_fire(),
            res,
        )
    }
}

/// One combat tick of a siege tank. In a room that is not running it does nothing.
///
/// A mobile tank with a plain ground move order does not fight. Otherwise the tank keeps its
/// current target while it is alive, in the room and hostile, and else takes the closest
/// candidate within its scanning reach, which it shoots at once when ready.
pub fn tank_tick(
    running: bool,
    mode: TankMode,
    target: Option<u32>,
    has_move_order: bool,
    is_attack_move: bool,
    ready: bool,
    room_id: u32,
    faction: Faction,
    sightings: &Vec<Sighting>,
) -> (res: WeaponTick)
    ensures
        tank_decision(
            running,
            mode,
            target,
            has_move_order,
            is_attack_move,
            ready,
            room_id,
            faction,
            sightings@,
            res,
        ),
{
    if !running {
        return WeaponTick { target, fire_at: None, chase: None };
    }
    if has_move_order && !is_attack_move && mode == TankMode::Tank {
        return WeaponTick { target: None, fire_at: None, chase: None };
    }
    match find_kept_target(sightings, target, room_id, faction, false) {
        Some(i) => {
            proof {
                lemma_kept_unique(sightings@, target, room_id, faction, false, i as int);
            }
            let s = &sightings[i];
            if s.in_attack_range {
                open_fire(s, ready)
            } else if mode == TankMode::Tank {
                WeaponTick { target: Some(s.net_id), fire_at: None, chase: Some(s.net_id) }
            } else if mode == TankMode::Siege {
                WeaponTick { target: None, fire_at: None, chase: None }
            } else {
                WeaponTick { target: Some(s.net_id), fire_at: None, chase: None }
            }
        },
        None => match closest_candidate(sightings, room_id, faction) {
            Some(i) => {
                proof {
                    lemma_closest_unique(sightings@, room_id, faction, i as int);
                }
                open_fire(&sightings[i], ready)
            },
            None => WeaponTick { target: None, fire_at: None, chase: None },
        },
    }
}

/// What a gun turret does in one combat tick (see `turret_tick`).
pub open spec fn turret_decision(
    running: bool,
    is_constructed: bool,
    target: Option<u32>,
    ready: bool,
    room_id: u32,
    faction: Faction,
    sightings: Seq<Sighting>,
    res: WeaponTick,
) -> bool {
    if !running || !is_constructed {
        res == WeaponTick { target, fire_at: None, chase: None }
    } else {
        follows_choice(
            sightings,
            target,
            room_id,
            faction,
            true,
            |s: Sighting| opens_fire(s, ready),
            |s: Sighting| opens_fire(s, ready),
            holds_fire(),
            res,
        )
    }
}

/// One combat tick of a gun turret.
///
/// A turret in a room that is not running, or still being built, does nothing and keeps its
/// target. A finished turret keeps its current target while it is alive, in the room, hostile
/// and in range, and else takes the closest candidate within range; it shoots whenever its
/// weapon is ready.
pub fn turret_tick(
    running: bool,
    is_constructed: bool,
    target: Option<u32>,
    ready: bool,
    room_id: u32,
    faction: Faction,
    sightings: &Vec<Sighting>,
) -> (res: WeaponTick)
    ensures
        turret_decision(running, is_constructed, target, ready, room_id, faction, sightings@, res),
{
    if !running || !is_constructed {
        return WeaponTick { target, fire_at: None, chase: None };
    }
    match find_kept_target(sightings, target, room_id, faction, true) {
        Some(i) => {
            proof {
                lemma_kept_unique(sightings@, target, room_id, faction, true, i as int);
            }
            open_fire(&sightings[i], ready)
        },
        None => match closest_candidate(sightings, room_id, faction) {
            Some(i) => {
                proof {
                    lemma_closest_unique(sightings@, room_id, faction, i as int);
                }
                open_fire(&sightings[i], ready)
            },
            None => WeaponTick { target: None, fire_at: None, chase: None },
        },
    }
}

/// The side that loses a unit killed by `attacker`.
pub open spec fn victim_of(attacker: Faction) -> Faction {
    if attacker == Faction::Player1 {
        Faction::Player2
    } else {
        Faction::Player1
    }
}

/// Frees the supply of a unit that `attacker` has just killed; the victim is the other player.
pub fn record_kill(economy: &mut PlayerEconomy, attacker: Faction, supply_cost: u32)
    ensures
        supply_cost > 0 ==> final(economy).view() == after_unregister_supply(
            old(economy).view(),
            victim_of(attacker),
            supply_cost,
        ),
        supply_cost == 0 ==> final(economy).view() == old(economy).view(),
{
    if supply_cost > 0 {
        let victim = if attacker == Faction::Player1 {
            Faction::Player2
        } else {
            Faction::Player1
        };
        economy.unregister_supply(victim, supply_cost);
    }
}

/// Some sighting with net id `id` is a valid target and, when `need_range`, within attack range.
pub open spec fn sees_enemy(
    sightings: Seq<Sighting>,
    room_id: u32,
    faction: Faction,
    id: u32,
    need_range: bool,
) -> bool {
    exists|i: int|
        0 <= i < sightings.len() && #[trigger] sightings[i].net_id == id && is_valid_target(
            sightings[i],
            room_id,
            faction,
        ) && (need_range ==> sightings[i].in_attack_range)
}

/// A soldier only shoots a living enemy of its room that is within range, only when its weapon
/// is ready, and only chases a living enemy of its room.
pub proof fn law_soldier_fights_enemies(
    running: bool,
    state: SoldierState,
    target: Option<u32>,
    has_move_order: bool,
    is_attack_move: bool,
    ready: bool,
    room_id: u32,
    faction: Faction,
    sightings: Seq<Sighting>,
    res: SoldierTick,
)
    requires
        soldier_decision(
            running,
            state,
            target,
            has_move_order,
            is_attack_move,
            ready,
            room_id,
            faction,
            sightings,
            res,
        ),
    ensures
        res.action.fire_at matches Some(id) ==> ready && sees_enemy(sightings, room_id, faction, id, true),
        res.action.chase matches Some(id) ==> sees_enemy(sightings, room_id, faction, id, false),
{
    if running && !(has_move_order && !is_attack_move) {
        if has_kept(sightings, target, room_id, faction, false) {
            let i = choose|i: int| #[trigger] is_kept_at(sightings, target, room_id, faction, false, i);
            assert(res == soldier_engages(state, sightings[i], ready));
            assert(sightings[i].net_id == sightings[i].net_id);
        } else if has_candidate(sightings, room_id, faction) {
            let i = choose|i: int| #[trigger] is_closest_at(sightings, room_id, faction, i);
            assert(res == soldier_engages(state, sightings[i], ready));
            assert(sightings[i].net_id == sightings[i].net_id);
        }
    }
}

/// Outside a running room a soldier keeps its state and target. In a running room the target it
/// keeps for the next tick is always a living enemy of its room, and a target it newly takes is
/// the closest candidate within its scanning reach, never itself.
pub proof fn law_soldier_target_choice(
    running: bool,
    state: SoldierState,
    target: Option<u32>,
    has_move_order: bool,
    is_attack_move: bool,
    ready: bool,
    room_id: u32,
    faction: Faction,
    sightings: Seq<Sighting>,
    res: SoldierTick,
)
    requires
        soldier_decision(
            running,
            state,
            target,
            has_move_order,
            is_attack_move,
            ready,
            room_id,
            faction,
            sightings,
            res,
        ),
    ensures
        !running ==> res.state == state && res.action.target == target,
        running ==> (res.action.target matches Some(id) ==> sees_enemy(
            sightings,
            room_id,
            faction,
            id,
            false,
        )),
        running && res.action.target != target ==> (res.action.target matches Some(id) ==> exists|
            i: int,
        |
            #[trigger] is_closest_at(sightings, room_id, faction, i) && sightings[i].net_id == id),
{
    if running && !(has_move_order && !is_attack_move) {
        if has_kept(sightings, target, room_id, faction, false) {
            let i = choose|i: int| #[trigger] is_kept_at(sightings, target, room_id, faction, false, i);
            assert(res == soldier_engages(state, sightings[i], ready));
            assert(sightings[i].net_id == sightings[i].net_id);
        } else if has_candidate(sightings, room_id, faction) {
            let i = choose|i: int| #[trigger] is_closest_at(sightings, room_id, faction, i);
            assert(res == soldier_engages(state, sightings[i], ready));
            assert(sightings[i].net_id == sightings[i].net_id);
        }
    }
}

/// One soldier as a combat round sees it: its behaviour, its target, its orders, whether its
/// weapon is ready, and what it sees this tick.
#[derive(Debug)]
pub struct SoldierInput {
    /// The soldier's room runs.
    pub running: bool,
    pub state: SoldierState,
    pub target: Option<u32>,
    pub has_move_order: bool,
    pub is_attack_move: bool,
    pub ready: bool,
    pub room_id: u32,
    pub faction: Faction,
    pub sightings: Vec<Sighting>,
}

/// The soldier's tick `res` is what `soldier_tick` decides for `s`.
pub open spec fn decides(s: SoldierInput, res: SoldierTick) -> bool {
    soldier_decision(
        s.running,
        s.state,
        s.target,
        s.has_move_order,
        s.is_attack_move,
        s.ready,
        s.room_id,
        s.faction,
        s.sightings@,
        res,
    )
}

/// One combat round of all soldiers: every soldier decides on the same sightings, taken before
/// anyone fires, so the order in which they decide does not matter.
pub fn soldiers_round(soldiers: &Vec<SoldierInput>) -> (ticks: Vec<SoldierTick>)
    ensures
        ticks@.len() == soldiers@.len(),
        forall|k: int| 0 <= k < soldiers@.len() ==> decides(soldiers@[k], #[trigger] ticks@[k]),
{
    let mut ticks: Vec<SoldierTick> = Vec::new();
    let mut k: usize = 0;
    while k < soldiers.len()
        invariant
            k <= soldiers@.len(),
            ticks@.len() == k,
            forall|j: int| 0 <= j < k ==> decides(soldiers@[j], #[trigger] ticks@[j]),
        decreases soldiers@.len() - k,
    {
        let s = &soldiers[k];
        let t = soldier_tick(
            s.running,
            s.state,
            s.target,
            s.has_move_order,
            s.is_attack_move,
            s.ready,
            s.room_id,
            s.faction,
            &s.sightings,
        );
        ticks.push(t);
        k = k + 1;
    }
    ticks
}

/// Over a whole combat round: a soldier whose room does not run keeps its state and target and
/// neither shoots nor moves; every other soldier keeps or takes only a living enemy of its own
/// room as its target, a newly taken target is the closest candidate in its reach, and it only
/// shoots or chases a living enemy of its own room.
pub proof fn law_combat_round(soldiers: Seq<SoldierInput>, ticks: Seq<SoldierTick>)
    requires
        ticks.len() == soldiers.len(),
        forall|k: int| 0 <= k < soldiers.len() ==> decides(soldiers[k], #[trigger] ticks[k]),
    ensures
        forall|k: int|
            0 <= k < soldiers.len() ==> {
                let s = #[trigger] soldiers[k];
                let t = ticks[k];
                &&& !s.running ==> t.state == s.state && t.action.target == s.target
                    && t.action.fire_at is None && t.action.chase is None
                &&& s.running ==> (t.action.target matches Some(id) ==> sees_enemy(
                    s.sightings@,
                    s.room_id,
                    s.faction,
                    id,
                    false,
                ))
                &&& s.running && t.action.target != s.target ==> (t.action.target matches Some(id)
                    ==> exists|i: int|
                    #[trigger] is_closest_at(s.sightings@, s.room_id, s.faction, i)
                        && s.sightings@[i].net_id == id)
                &&& t.action.fire_at matches Some(id) ==> s.ready && sees_enemy(
                    s.sightings@,
                    s.room_id,
                    s.faction,
                    id,
                    true,
                )
                &&& t.action.chase matches Some(id) ==> sees_enemy(
                    s.sightings@,
                    s.room_id,
                    s.faction,
                    id,
                    false,
                )
            },
{
    assert forall|k: int| 0 <= k < soldiers.len() implies {
        let s = #[trigger] soldiers[k];
        let t = ticks[k];
        &&& !s.running ==> t.state == s.state && t.action.target == s.target
            && t.action.fire_at is None && t.action.chase is None
        &&& s.running ==> (t.action.target matches Some(id) ==> sees_enemy(
            s.sightings@,
            s.room_id,
            s.faction,
            id,
            false,
        ))
        &&& s.running && t.action.target != s.target ==> (t.action.target matches Some(id)
            ==> exists|i: int|
            #[trigger] is_closest_at(s.sightings@, s.room_id, s.faction, i)
                && s.sightings@[i].net_id == id)
        &&& t.action.fire_at matches Some(id) ==> s.ready && sees_enemy(
            s.sightings@,
            s.room_id,
            s.faction,
            id,
            true,
        )
        &&& t.action.chase matches Some(id) ==> sees_enemy(
            s.sightings@,
            s.room_id,
            s.faction,
            id,
            false,
        )
    } by {
        let s = soldiers[k];
        let t = ticks[k];
        assert(decides(s, t));
        law_soldier_target_choice(
            s.running,
            s.state,
            s.target,
            s.has_move_order,
            s.is_attack_move,
            s.ready,
            s.room_id,
            s.faction,
            s.sightings@,
            t,
        );
        law_soldier_fights_enemies(
            s.running,
            s.state,
            s.target,
            s.has_move_order,
            s.is_attack_move,
            s.ready,
            s.room_id,
            s.faction,
            s.sightings@,
            t,
        );
    }
}

/// A siege tank only shoots a living enemy of its room, only when its weapon is ready, and only
/// chases a living enemy of its room while mobile.
pub proof fn law_tank_fights_enemies(
    running: bool,
    mode: TankMode,
    target: Option<u32>,
    has_move_order: bool,
    is_attack_move: bool,
    ready: bool,
    room_id: u32,
    faction: Faction,
    sightings: Seq<Sighting>,
    res: WeaponTick,
)
    requires
        tank_decision(
            running,
            mode,
            target,
            has_move_order,
            is_attack_move,
            ready,
            room_id,
            faction,
            sightings,
            res,
        ),
    ensures
        res.fire_at matches Some(id) ==> ready && sees_enemy(sightings, room_id, faction, id, false),
        res.chase matches Some(id) ==> mode == TankMode::Tank && sees_enemy(
            sightings,
            room_id,
            faction,
            id,
            false,
        ),
{
    if running && !(has_move_order && !is_attack_move && mode == TankMode::Tank) {
        if has_kept(sightings, target, room_id, faction, false) {
            let i = choose|i: int| #[trigger] is_kept_at(sightings, target, room_id, faction, false, i);
            assert(res == tank_engages(mode, sightings[i], ready));
            assert(sightings[i].net_id == sightings[i].net_id);
        } else if has_candidate(sightings, room_id, faction) {
            let i = choose|i: int| #[trigger] is_closest_at(sightings, room_id, faction, i);
            assert(res == opens_fire(sightings[i], ready));
            assert(sightings[i].net_id == sightings[i].net_id);
        }
    }
}

/// A gun turret only shoots, in a running room, once built and when its weapon is ready, a
/// living enemy of its room, and never moves.
pub proof fn law_turret_fights_enemies(
    running: bool,
    is_constructed: bool,
    target: Option<u32>,
    ready: bool,
    room_id: u32,
    faction: Faction,
    sightings: Seq<Sighting>,
    res: WeaponTick,
)
    requires
        turret_decision(running, is_constructed, target, ready, room_id, faction, sightings, res),
    ensures
        res.fire_at matches Some(id) ==> running && is_constructed && ready && sees_enemy(
            sightings,
            room_id,
            faction,
            id,
            false,
        ),
        res.chase is None,
{
    if running && is_constructed {
        if has_kept(sightings, target, room_id, faction, true) {
            let i = choose|i: int| #[trigger] is_kept_at(sightings, target, room_id, faction, true, i);
            assert(res == opens_fire(sightings[i], ready));
            assert(sightings[i].net_id == sightings[i].net_id);
        } else if has_candidate(sightings, room_id, faction) {
            let i = choose|i: int| #[trigger] is_closest_at(sightings, room_id, faction, i);
            assert(res == opens_fire(sightings[i], ready));
            assert(sightings[i].net_id == sightings[i].net_id);
        }
    }
}

/// The first kept sighting is the only one.
proof fn lemma_kept_unique(
    sightings: Seq<Sighting>,
    target: Option<u32>,
    room_id: u32,
    faction: Faction,
    need_range: bool,
    i: int,
)
    requires
        is_kept_at(sightings, target, room_id, faction, need_range, i),
    ensures
        has_kept(sightings, target, room_id, faction, need_range),
        forall|k: int| #[trigger] is_kept_at(sightings, target, room_id, faction, need_range, k) ==> k == i,
{
    assert forall|k: int| #[trigger] is_kept_at(sightings, target, room_id, faction, need_range, k) implies k
        == i by {
        if k < i {
            assert(!keeps(sightings[k], target, room_id, faction, need_range));
        } else if k > i {
            assert(!keeps(sightings[i], target, room_id, faction, need_range));
        }
    }
}

/// The first closest candidate is the only one.
proof fn lemma_closest_unique(sightings: Seq<Sighting>, room_id: u32, faction: Faction, i: int)
    requires
        is_closest_at(sightings, room_id, faction, i),
    ensures
        has_candidate(sightings, room_id, faction),
        forall|k: int| #[trigger] is_closest_at(sightings, room_id, faction, k) ==> k == i,
{
    assert forall|k: int| #[trigger] is_closest_at(sightings, room_id, faction, k) implies k == i by {
        if k < i {
            assert(is_candidate(sightings[k], room_id, faction));
        } else if k > i {
            assert(is_candidate(sightings[i], room_id, faction));
        }
    }
}

/// A fighting tank engages the target it keeps. When that target is within range, the tank
/// (in any mode) keeps it, does not move, and shoots it exactly when its weapon is ready. When
/// it is out of range, a mobile tank chases it and a sieged tank lets it go.
pub proof fn law_tank_engages_kept_target(
    running: bool,
    mode: TankMode,
    target: Option<u32>,
    has_move_order: bool,
    is_attack_move: bool,
    ready: bool,
    room_id: u32,
    faction: Faction,
    sightings: Seq<Sighting>,
    res: WeaponTick,
    i: int,
)
    requires
        tank_decision(
            running,
            mode,
            target,
            has_move_order,
            is_attack_move,
            ready,
            room_id,
            faction,
            sightings,
            res,
        ),
        running,
        !(has_move_order && !is_attack_move && mode == TankMode::Tank),
        is_kept_at(sightings, target, room_id, faction, false, i),
    ensures
        sightings[i].in_attack_range ==> res.target == Some(sightings[i].net_id)
            && res.chase is None && (ready ==> res.fire_at == Some(sightings[i].net_id))
            && (!ready ==> res.fire_at is None),
        !sightings[i].in_attack_range && mode == TankMode::Tank ==> res.target == Some(
            sightings[i].net_id,
        ) && res.chase == Some(sightings[i].net_id) && res.fire_at is None,
        !sightings[i].in_attack_range && mode == TankMode::Siege ==> res.target is None
            && res.chase is None && res.fire_at is None,
        !sightings[i].in_attack_range ==> res.fire_at is None,
{
    assert(has_kept(sightings, target, room_id, faction, false));
    lemma_kept_unique(sightings, target, room_id, faction, false, i);
}

/// A fighting tank with no target to keep takes the closest candidate in its reach, keeps it
/// without moving, and shoots it exactly when its weapon is ready.
pub proof fn law_tank_takes_closest(
    running: bool,
    mode: TankMode,
    target: Option<u32>,
    has_move_order: bool,
    is_attack_move: bool,
    ready: bool,
    room_id: u32,
    faction: Faction,
    sightings: Seq<Sighting>,
    res: WeaponTick,
    i: int,
)
    requires
        tank_decision(
            running,
            mode,
            target,
            has_move_order,
            is_attack_move,
            ready,
            room_id,
            faction,
            sightings,
            res,
        ),
        running,
        !(has_move_order && !is_attack_move && mode == TankMode::Tank),
        !has_kept(sightings, target, room_id, faction, false),
        is_closest_at(sightings, room_id, faction, i),
    ensures
        res.target == Some(sightings[i].net_id),
        res.chase is None,
        ready ==> res.fire_at == Some(sightings[i].net_id),
        !ready ==> res.fire_at is None,
{
    lemma_closest_unique(sightings, room_id, faction, i);
}

/// A fighting soldier engages the target it settles on (the one it keeps, else the closest
/// candidate): within range it holds it and shoots exactly when ready, without moving; out of
/// range it never shoots, and it chases the target unless it holds its position.
pub proof fn law_soldier_engages(
    running: bool,
    state: SoldierState,
    target: Option<u32>,
    has_move_order: bool,
    is_attack_move: bool,
    ready: bool,
    room_id: u32,
    faction: Faction,
    sightings: Seq<Sighting>,
    res: SoldierTick,
    i: int,
)
    requires
        soldier_decision(
            running,
            state,
            target,
            has_move_order,
            is_attack_move,
            ready,
            room_id,
            faction,
            sightings,
            res,
        ),
        running,
        !(has_move_order && !is_attack_move),
        is_kept_at(sightings, target, room_id, faction, false, i) || (!has_kept(
            sightings,
            target,
            room_id,
            faction,
            false,
        ) && is_closest_at(sightings, room_id, faction, i)),
    ensures
        res.action.target == Some(sightings[i].net_id),
        sightings[i].in_attack_range ==> res.action.chase is None && res.state
            == SoldierState::Attacking && (ready ==> res.action.fire_at == Some(sightings[i].net_id))
            && (!ready ==> res.action.fire_at is None),
        !sightings[i].in_attack_range ==> res.action.fire_at is None,
        !sightings[i].in_attack_range && state != SoldierState::HoldingPosition
            ==> res.action.chase == Some(sightings[i].net_id) && res.state
            == SoldierState::ChasingTarget,
        !sightings[i].in_attack_range && state == SoldierState::HoldingPosition
            ==> res.action.chase is None && res.state == state,
{
    if is_kept_at(sightings, target, room_id, faction, false, i) {
        assert(has_kept(sightings, target, room_id, faction, false));
        lemma_kept_unique(sightings, target, room_id, faction, false, i);
    } else {
        lemma_closest_unique(sightings, room_id, faction, i);
    }
}

/// A finished turret in a running room shoots the target it settles on (the one it keeps in
/// range, else the closest candidate in range) exactly when its weapon is ready; it never
/// moves.
pub proof fn law_turret_engages(
    running: bool,
    is_constructed: bool,
    target: Option<u32>,
    ready: bool,
    room_id: u32,
    faction: Faction,
    sightings: Seq<Sighting>,
    res: WeaponTick,
    i: int,
)
    requires
        turret_decision(running, is_constructed, target, ready, room_id, faction, sightings, res),
        running,
        is_constructed,
        is_kept_at(sightings, target, room_id, faction, true, i) || (!has_kept(
            sightings,
            target,
            room_id,
            faction,
            true,
        ) && is_closest_at(sightings, room_id, faction, i)),
    ensures
        res.target == Some(sightings[i].net_id),
        res.chase is None,
        ready ==> res.fire_at == Some(sightings[i].net_id),
        !ready ==> res.fire_at is None,
{
    if is_kept_at(sightings, target, room_id, faction, true, i) {
        assert(has_kept(sightings, target, room_id, faction, true));
        lemma_kept_unique(sightings, target, room_id, faction, true, i);
    } else {
        lemma_closest_unique(sightings, room_id, faction, i);
    }
}

} // verus!
