use vstd::prelude::*;
use crate::components::{SoldierState, WorkerState};
use crate::faction::Faction;
use crate::rules::may_command;

verus! {

/// A player's order to a group of units. Targets and fields are named by network id.
#[derive(Debug, Clone, Copy, PartialEq, Eq, Structural)]
pub enum UnitOrder {
    Move { attack: bool },
    Patrol,
    AttackTarget { target: u32 },
    Harvest { field: u32 },
    Stop,
    HoldPosition,
}

/// The tactical stance of a unit (the patrol's end points are kept by the caller).
#[derive(Debug, Clone, Copy, PartialEq, Eq, Structural)]
pub enum StanceKind {
    Aggressive,
    HoldPosition,
    Patrol,
}

/// The combat side of a unit that an order changes.
#[derive(Debug, Clone, Copy, PartialEq, Eq, Structural)]
pub struct SoldierPart {
    pub state: SoldierState,
    pub target: Option<u32>,
}

/// The mining side of a unit that an order changes.
#[derive(Debug, Clone, Copy, PartialEq, Eq, Structural)]
pub struct WorkerPart {
    pub state: WorkerState,
    pub target_field: Option<u32>,
}

/// What an order sees and changes of one unit.
#[derive(Debug, Clone, Copy, PartialEq, Eq, Structural)]
pub struct OrderedUnit {
    pub soldier: Option<SoldierPart>,
    pub worker: Option<WorkerPart>,
    pub stance: Option<StanceKind>,
    /// The unit walks a move order (its destination and route are kept by the caller).
    pub has_move_order: bool,
}

/// The unit after it obeys `order`.
///
/// A move sends the unit off (on an attack move its weapon stays free), clears its target,
/// stops a worker's mining and resets a stance to aggressive. A patrol starts an attack move
/// along the patrol. An attack order drops the move order and chases the target. A harvest
/// order sends a worker to the field. Stop drops everything and idles; hold position drops the
/// move order and holds.
pub open spec fn after_order(u: OrderedUnit, order: UnitOrder) -> OrderedUnit {
    match order {
        UnitOrder::Move { attack } => OrderedUnit {
            soldier: match u.soldier {
                Some(_) => Some(
                    SoldierPart {
                        state: if attack {
                            SoldierState::AttackMoving
                        } else {
                            SoldierState::MovingToGround
                        },
                        target: None,
                    },
                ),
                None => None,
            },
            worker: match u.worker {
                Some(_) => Some(WorkerPart { state: WorkerState::Idle, target_field: None }),
                None => None,
            },
            stance: match u.stance {
                Some(_) => Some(StanceKind::Aggressive),
                None => None,
            },
            has_move_order: true,
        },
        UnitOrder::Patrol => OrderedUnit {
            soldier: match u.soldier {
                Some(_) => Some(SoldierPart { state: SoldierState::AttackMoving, target: None }),
                None => None,
            },
            stance: Some(StanceKind::Patrol),
            has_move_order: true,
            ..u
        },
        UnitOrder::AttackTarget { target } => OrderedUnit {
            soldier: match u.soldier {
                Some(_) => Some(SoldierPart { state: SoldierState::ChasingTarget, target: Some(target) }),
                None => None,
            },
            has_move_order: false,
            ..u
        },
        UnitOrder::Harvest { field } => OrderedUnit {
            worker: match u.worker {
                Some(_) => Some(
                    WorkerPart { state: WorkerState::MovingToResource, target_field: Some(field) },
                ),
                None => None,
            },
            has_move_order: false,
            ..u
        },
        UnitOrder::Stop => OrderedUnit {
            soldier: match u.soldier {
                Some(_) => Some(SoldierPart { state: SoldierState::Idle, target: None }),
                None => None,
            },
            worker: match u.worker {
                Some(w) => Some(WorkerPart { state: WorkerState::Idle, ..w }),
                None => None,
            },
            stance: match u.stance {
                Some(_) => Some(StanceKind::Aggressive),
                None => None,
            },
            has_move_order: false,
        },
        UnitOrder::HoldPosition => OrderedUnit {
            soldier: match u.soldier {
                Some(_) => Some(SoldierPart { state: SoldierState::HoldingPosition, target: None }),
                None => None,
            },
            stance: Some(StanceKind::HoldPosition),
            has_move_order: false,
            ..u
        },
    }
}

/// Applies an order to a unit that obeys it.
pub fn apply_order(u: OrderedUnit, order: UnitOrder) -> (res: OrderedUnit)
    ensures
        res == after_order(u, order),
{
    match order {
        UnitOrder::Move { attack } => {
            let soldier = match u.soldier {
                Some(_) => {
                    let state = if attack {
                        SoldierState::AttackMoving
                    } else {
                        SoldierState::MovingToGround
                    };
                    Some(SoldierPart { state, target: None })
                },
                None => None,
            };
            let worker = match u.worker {
                Some(_) => Some(WorkerPart { state: WorkerState::Idle, target_field: None }),
                None => None,
            };
            let stance = match u.stance {
                Some(_) => Some(StanceKind::Aggressive),
                None => None,
            };
            OrderedUnit { soldier, worker, stance, has_move_order: true }
        },
        UnitOrder::Patrol => {
            let soldier = match u.soldier {
                Some(_) => Some(SoldierPart { state: SoldierState::AttackMoving, target: None }),
                None => None,
            };
            OrderedUnit { soldier, stance: Some(StanceKind::Patrol), has_move_order: true, ..u }
        },
        UnitOrder::AttackTarget { target } => {
            let soldier = match u.soldier {
                Some(_) => Some(SoldierPart { state: SoldierState::ChasingTarget, target: Some(target) }),
                None => None,
            };
            OrderedUnit { soldier, has_move_order: false, ..u }
        },
        UnitOrder::Harvest { field } => {
            let worker = match u.worker {
                Some(_) => Some(
                    WorkerPart { state: WorkerState::MovingToResource, target_field: Some(field) },
                ),
                None => None,
            };
            OrderedUnit { worker, has_move_order: false, ..u }
        },
        UnitOrder::Stop => {
            let soldier = match u.soldier {
                Some(_) => Some(SoldierPart { state: SoldierState::Idle, target: None }),
                None => None,
            };
            let worker = match u.worker {
                Some(w) => Some(WorkerPart { state: WorkerState::Idle, ..w }),
                None => None,
            };
            let stance = match u.stance {
                Some(_) => Some(StanceKind::Aggressive),
                None => None,
            };
            OrderedUnit { soldier, worker, stance, has_move_order: false }
        },
        UnitOrder::HoldPosition => {
            let soldier = match u.soldier {
                Some(_) => Some(SoldierPart { state: SoldierState::HoldingPosition, target: None }),
                None => None,
            };
            OrderedUnit {
                soldier,
                stance: Some(StanceKind::HoldPosition),
                has_move_order: false,
                ..u
            }
        },
    }
}

/// Who a unit on the field is, as far as orders care.
#[derive(Debug, Clone, Copy, PartialEq, Eq, Structural)]
pub struct FieldUnit {
    pub net_id: u32,
    pub faction: Faction,
    pub room_id: u32,
}

/// The unit obeys an order of a player of `faction` in room `room_id` that names `order_ids`.
pub open spec fn obeys(u: FieldUnit, order_ids: Seq<u32>, faction: Faction, room_id: u32) -> bool {
    may_command(order_ids, u.net_id, u.faction, u.room_id, faction, room_id)
}

/// Positions, among the first `n` units, of those that obey the order, in field order.
pub open spec fn obeying_positions(
    units: Seq<FieldUnit>,
    order_ids: Seq<u32>,
    faction: Faction,
    room_id: u32,
    n: int,
) -> Seq<usize>
    decreases n,
{
    if n <= 0 {
        Seq::empty()
    } else {
        let before = obeying_positions(units, order_ids, faction, room_id, n - 1);
        if obeys(units[n - 1], order_ids, faction, room_id) {
            before.push((n - 1) as usize)
        } else {
            before
        }
    }
}

/// The first unit from position `i` on that the single id `id` names and that obeys the player.
pub open spec fn first_named(
    units: Seq<FieldUnit>,
    id: u32,
    faction: Faction,
    room_id: u32,
    i: int,
) -> Option<usize>
    decreases units.len() - i,
{
    if i < 0 || i >= units.len() {
        None
    } else if obeys(units[i], seq![id], faction, room_id) {
        Some(i as usize)
    } else {
        first_named(units, id, faction, room_id, i + 1)
    }
}

/// Positions of the units that obey an order naming `order_ids`, in field order (stop, hold
/// position, attack and harvest orders go to these).
pub fn obeying_units(units: &Vec<FieldUnit>, order_ids: &Vec<u32>, faction: Faction, room_id: u32) -> (res:
    Vec<usize>)
    ensures
        res@ == obeying_positions(units@, order_ids@, faction, room_id, units@.len() as int),
{
    let mut res: Vec<usize> = Vec::new();
    let mut i: usize = 0;
    while i < units.len()
        invariant
            i <= units@.len(),
            res@ == obeying_positions(units@, order_ids@, faction, room_id, i as int),
        decreases units@.len() - i,
    {
        let u = &units[i];
        if crate::rules::is_commandable(
            order_ids,
            u.net_id,
            u.faction,
            u.room_id,
            faction,
            room_id,
        ) {
            res.push(i);
        }
        i = i + 1;
    }
    res
}

/// For each requested id in turn, the first unit it names that obeys the player (move and
/// patrol orders go to these, each with the destination of its place in the request).
pub fn match_requests(units: &Vec<FieldUnit>, order_ids: &Vec<u32>, faction: Faction, room_id: u32) -> (res:
    Vec<Option<usize>>)
    ensures
        res@.len() == order_ids@.len(),
        forall|k: int|
            0 <= k < order_ids@.len() ==> #[trigger] res@[k] == first_named(
                units@,
                order_ids@[k],
                faction,
                room_id,
                0,
            ),
{
    let mut res: Vec<Option<usize>> = Vec::new();
    let mut k: usize = 0;
    while k < order_ids.len()
        invariant
            k <= order_ids@.len(),
            res@.len() == k,
            forall|j: int|
                0 <= j < k ==> #[trigger] res@[j] == first_named(units@, order_ids@[j], faction, room_id, 0),
        decreases order_ids@.len() - k,
    {
        let id = order_ids[k];
        let mut found: Option<usize> = None;
        let mut i: usize = 0;
        while i < units.len() && found.is_none()
            invariant
                i <= units@.len(),
                found is None ==> first_named(units@, id, faction, room_id, 0) == first_named(
                    units@,
                    id,
                    faction,
                    room_id,
                    i as int,
                ),
                found is Some ==> first_named(units@, id, faction, room_id, 0) == found,
            decreases units@.len() - i + (if found is None {
                1int
            } else {
                0int
            }),
        {
            let u = &units[i];
            proof {
                assert(seq![id][0] == id);
            }
            if u.net_id == id && u.faction == faction && u.room_id == room_id {
                found = Some(i);
            } else {
                i = i + 1;
            }
        }
        res.push(found);
        k = k + 1;
    }
    res
}

/// Carries out `order` from a player of `faction` in room `room_id` that names `order_ids`:
/// `units` lists what the order changes of each unit of `field`, side by side. Each unit that
/// obeys the order takes it; every other unit stays as it was. Returns the positions of the
/// units that took it, in field order.
pub fn issue_order(
    field: &Vec<FieldUnit>,
    units: &mut Vec<OrderedUnit>,
    order_ids: &Vec<u32>,
    faction: Faction,
    room_id: u32,
    order: UnitOrder,
) -> (taken: Vec<usize>)
    requires
        old(units)@.len() == field@.len(),
    ensures
        final(units)@.len() == old(units)@.len(),
        forall|i: int|
            0 <= i < field@.len() ==> #[trigger] final(units)@[i] == if obeys(
                field@[i],
                order_ids@,
                faction,
                room_id,
            ) {
                after_order(old(units)@[i], order)
            } else {
                old(units)@[i]
            },
        taken@ == obeying_positions(field@, order_ids@, faction, room_id, field@.len() as int),
{
    let taken = obeying_units(field, order_ids, faction, room_id);
    let mut i: usize = 0;
    while i < units.len()
        invariant
            units@.len() == old(units)@.len(),
            units@.len() == field@.len(),
            i <= units@.len(),
            forall|j: int|
                0 <= j < i ==> #[trigger] units@[j] == if obeys(field@[j], order_ids@, faction, room_id) {
                    after_order(old(units)@[j], order)
                } else {
                    old(units)@[j]
                },
            forall|j: int| i <= j < units@.len() ==> #[trigger] units@[j] == old(units)@[j],
        decreases units@.len() - i,
    {
        let f = &field[i];
        if crate::rules::is_commandable(order_ids, f.net_id, f.faction, f.room_id, faction, room_id) {
            let changed = apply_order(units[i], order);
            units.set(i, changed);
        }
        i = i + 1;
    }
    taken
}

/// Some request among `order_ids` picks the unit at position `i` (see `first_named`).
pub open spec fn picked_by_request(
    units: Seq<FieldUnit>,
    order_ids: Seq<u32>,
    faction: Faction,
    room_id: u32,
    i: int,
) -> bool {
    exists|k: int|
        0 <= k < order_ids.len() && #[trigger] first_named(units, order_ids[k], faction, room_id, 0)
            == Some(i as usize)
}

/// Carries out a move or patrol `order` from a player of `faction` in room `room_id`: each
/// requested id picks the first unit it names that obeys the player, and that unit takes the
/// order; every other unit stays as it was. Returns, for each request in turn, the position of
/// the unit it picked (the caller gives it the destination of that place in the request).
pub fn issue_order_each(
    field: &Vec<FieldUnit>,
    units: &mut Vec<OrderedUnit>,
    order_ids: &Vec<u32>,
    faction: Faction,
    room_id: u32,
    order: UnitOrder,
) -> (matched: Vec<Option<usize>>)
    requires
        old(units)@.len() == field@.len(),
    ensures
        final(units)@.len() == old(units)@.len(),
        forall|i: int|
            0 <= i < field@.len() ==> #[trigger] final(units)@[i] == if picked_by_request(
                field@,
                order_ids@,
                faction,
                room_id,
                i,
            ) {
                after_order(old(units)@[i], order)
            } else {
                old(units)@[i]
            },
        matched@.len() == order_ids@.len(),
        forall|k: int|
            0 <= k < order_ids@.len() ==> #[trigger] matched@[k] == first_named(
                field@,
                order_ids@[k],
                faction,
                room_id,
                0,
            ),
{
    let matched = match_requests(field, order_ids, faction, room_id);
    let field_len = field.len();
    let mut k: usize = 0;
    while k < matched.len()
        invariant
            k <= matched@.len(),
            field_len == field@.len(),
            matched@.len() == order_ids@.len(),
            forall|j: int|
                0 <= j < order_ids@.len() ==> #[trigger] matched@[j] == first_named(
                    field@,
                    order_ids@[j],
                    faction,
                    room_id,
                    0,
                ),
            units@.len() == field@.len(),
            units@.len() == old(units)@.len(),
            forall|i: int|
                0 <= i < field@.len() ==> #[trigger] units@[i] == if exists|j: int|
                    0 <= j < k && #[trigger] matched@[j] == Some(i as usize) {
                    after_order(old(units)@[i], order)
                } else {
                    old(units)@[i]
                },
        decreases matched@.len() - k,
    {
        match matched[k] {
            Some(i) => {
                proof {
                    lemma_first_named_obeys(field@, order_ids@[k as int], faction, room_id, 0);
                }
                let changed = apply_order(units[i], order);
                units.set(i, changed);
                proof {
                    assert forall|x: int| 0 <= x < field@.len() implies #[trigger] units@[x] == if exists|
                        j: int,
                    | 0 <= j < k + 1 && #[trigger] matched@[j] == Some(x as usize) {
                        after_order(old(units)@[x], order)
                    } else {
                        old(units)@[x]
                    } by {
                        if x == i as int {
                            assert(matched@[k as int] == Some(x as usize));
                        } else {
                            if exists|j: int| 0 <= j < k + 1 && #[trigger] matched@[j] == Some(x as usize) {
                                let j = choose|j: int| 0 <= j < k + 1 && #[trigger] matched@[j] == Some(x as usize);
                                assert(j != k as int);
                            }
                        }
                    }
                }
            },
            None => {
                proof {
                    assert forall|x: int| 0 <= x < field@.len() implies #[trigger] units@[x] == if exists|
                        j: int,
                    | 0 <= j < k + 1 && #[trigger] matched@[j] == Some(x as usize) {
                        after_order(old(units)@[x], order)
                    } else {
                        old(units)@[x]
                    } by {
                        if exists|j: int| 0 <= j < k + 1 && #[trigger] matched@[j] == Some(x as usize) {
                            let j = choose|j: int| 0 <= j < k + 1 && #[trigger] matched@[j] == Some(x as usize);
                            assert(j != k as int);
                        }
                    }
                }
            },
        }
        k = k + 1;
    }
    proof {
        assert forall|i: int| 0 <= i < field@.len() implies (exists|j: int|
            0 <= j < matched@.len() && #[trigger] matched@[j] == Some(i as usize))
            == picked_by_request(field@, order_ids@, faction, room_id, i) by {
            if picked_by_request(field@, order_ids@, faction, room_id, i) {
                let j = choose|j: int|
                    0 <= j < order_ids@.len() && #[trigger] first_named(
                        field@,
                        order_ids@[j],
                        faction,
                        room_id,
                        0,
                    ) == Some(i as usize);
                assert(matched@[j] == Some(i as usize));
            }
            if exists|j: int| 0 <= j < matched@.len() && #[trigger] matched@[j] == Some(i as usize) {
                let j = choose|j: int| 0 <= j < matched@.len() && #[trigger] matched@[j] == Some(i as usize);
                assert(first_named(field@, order_ids@[j], faction, room_id, 0) == Some(i as usize));
            }
        }
    }
    matched
}

proof fn lemma_positions_obey(
    units: Seq<FieldUnit>,
    order_ids: Seq<u32>,
    faction: Faction,
    room_id: u32,
    n: int,
)
    requires
        0 <= n <= units.len(),
        units.len() <= usize::MAX,
    ensures
        forall|k: int|
            0 <= k < obeying_positions(units, order_ids, faction, room_id, n).len() ==> {
                let p = #[trigger] obeying_positions(units, order_ids, faction, room_id, n)[k];
                p < n && obeys(units[p as int], order_ids, faction, room_id)
            },
    decreases n,
{
    if n > 0 {
        lemma_positions_obey(units, order_ids, faction, room_id, n - 1);
        let before = obeying_positions(units, order_ids, faction, room_id, n - 1);
        let now = obeying_positions(units, order_ids, faction, room_id, n);
        assert forall|k: int| 0 <= k < now.len() implies {
            let p = #[trigger] now[k];
            p < n && obeys(units[p as int], order_ids, faction, room_id)
        } by {
            if k < before.len() {
                assert(now[k] == before[k]);
            }
        }
    }
}

proof fn lemma_first_named_obeys(
    units: Seq<FieldUnit>,
    id: u32,
    faction: Faction,
    room_id: u32,
    i: int,
)
    requires
        units.len() <= usize::MAX,
    ensures
        first_named(units, id, faction, room_id, i) matches Some(p) ==> i <= p < units.len() && obeys(
            units[p as int],
            seq![id],
            faction,
            room_id,
        ),
    decreases units.len() - i,
{
    if 0 <= i < units.len() && !obeys(units[i], seq![id], faction, room_id) {
        lemma_first_named_obeys(units, id, faction, room_id, i + 1);
    }
}

/// An order reaches only units that the player may command: every unit that takes an order
/// naming `order_ids` is named there, is on the player's side and stands in the player's room;
/// and the unit that a single requested id `id` picks is that very unit, on the player's side
/// and in the player's room.
pub proof fn law_orders_reach_only_commandable(
    units: Seq<FieldUnit>,
    order_ids: Seq<u32>,
    faction: Faction,
    room_id: u32,
    id: u32,
)
    requires
        units.len() <= usize::MAX,
    ensures
        forall|k: int|
            0 <= k < obeying_positions(units, order_ids, faction, room_id, units.len() as int).len()
                ==> {
                let p = #[trigger] obeying_positions(
                    units,
                    order_ids,
                    faction,
                    room_id,
                    units.len() as int,
                )[k];
                &&& p < units.len()
                &&& order_ids.contains(units[p as int].net_id)
                &&& units[p as int].faction == faction
                &&& units[p as int].room_id == room_id
            },
        first_named(units, id, faction, room_id, 0) matches Some(p) ==> p < units.len()
            && units[p as int].net_id == id && units[p as int].faction == faction
            && units[p as int].room_id == room_id,
{
    lemma_positions_obey(units, order_ids, faction, room_id, units.len() as int);
    lemma_first_named_obeys(units, id, faction, room_id, 0);
    if let Some(p) = first_named(units, id, faction, room_id, 0) {
        assert(seq![id].contains(units[p as int].net_id));
        assert(seq![id][0] == id);
    }
}

/// Repeating an order changes nothing: a unit that has obeyed an order is left as it is by
/// the same order again.
pub proof fn law_orders_idempotent(u: OrderedUnit, order: UnitOrder)
    ensures
        after_order(after_order(u, order), order) == after_order(u, order),
{
}

/// An order never gives a unit a combat or mining side that it lacks, nor takes one away.
pub proof fn law_orders_keep_unit_kind(u: OrderedUnit, order: UnitOrder)
    ensures
        after_order(u, order).soldier is Some == u.soldier is Some,
        after_order(u, order).worker is Some == u.worker is Some,
{
}

/// Only move and patrol orders leave a unit walking: every other order (attack, harvest, stop,
/// hold position) drops its move order. Hold position and stop also clear a soldier's target,
/// and hold position makes the unit hold.
pub proof fn law_which_orders_walk(u: OrderedUnit, order: UnitOrder)
    ensures
        after_order(u, order).has_move_order == (order is Move || order is Patrol),
        order is HoldPosition ==> after_order(u, order).stance == Some(StanceKind::HoldPosition)
            && (u.soldier is Some ==> after_order(u, order).soldier == Some(
            SoldierPart { state: SoldierState::HoldingPosition, target: None },
        )),
        order is Stop ==> (u.soldier is Some ==> after_order(u, order).soldier == Some(
            SoldierPart { state: SoldierState::Idle, target: None },
        )),
{
}

/// What each order does to the combat and mining sides of a unit: a move clears a soldier's
/// target and sends it walking (free to fight on an attack move) and idles a worker; a patrol
/// starts an attack move along the patrol; an attack order sends a soldier after the target;
/// a harvest order sends a worker to the field. An order never touches a side it is not about.
pub proof fn law_order_effects(u: OrderedUnit, order: UnitOrder)
    ensures
        ({
            let r = after_order(u, order);
            &&& order matches UnitOrder::Move { attack } ==> (u.soldier is Some ==> r.soldier
                == Some(
                SoldierPart {
                    state: if attack {
                        SoldierState::AttackMoving
                    } else {
                        SoldierState::MovingToGround
                    },
                    target: None,
                },
            )) && (u.worker is Some ==> r.worker == Some(
                WorkerPart { state: WorkerState::Idle, target_field: None },
            ))
            &&& order is Patrol ==> r.stance == Some(StanceKind::Patrol) && (u.soldier is Some
                ==> r.soldier == Some(
                SoldierPart { state: SoldierState::AttackMoving, target: None },
            )) && r.worker == u.worker
            &&& order matches UnitOrder::AttackTarget { target } ==> (u.soldier is Some
                ==> r.soldier == Some(
                SoldierPart { state: SoldierState::ChasingTarget, target: Some(target) },
            )) && r.worker == u.worker && r.stance == u.stance
            &&& order matches UnitOrder::Harvest { field } ==> (u.worker is Some ==> r.worker
                == Some(
                WorkerPart { state: WorkerState::MovingToResource, target_field: Some(field) },
            )) && r.soldier == u.soldier && r.stance == u.stance
            &&& order is Stop ==> (u.worker matches Some(w) ==> r.worker == Some(
                WorkerPart { state: WorkerState::Idle, ..w },
            ))
        }),
{
}

} // verus!
