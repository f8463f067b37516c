use vstd::prelude::*;
use crate::components::WorkerState;
use crate::economy::{after_add_minerals, minerals_of, FactionEconomy};
use crate::faction::Faction;
use crate::matchmaker::{index_of_room, lemma_index_of_room, Matchmaker, Room};

verus! {

/// The mineral field a worker is assigned to, as the worker sees it this tick.
#[derive(Debug, Clone, Copy, PartialEq, Eq, Structural)]
pub struct FieldSighting {
    pub room_id: u32,
    pub remaining: u32,
    /// The worker stands close enough to mine it.
    pub in_reach: bool,
}

/// Where a worker walks this tick.
#[derive(Debug, Clone, Copy, PartialEq, Eq, Structural)]
pub enum Heading {
    Stay,
    ToField,
    ToBase,
}

/// What happens to a worker's harvest timer this tick.
#[derive(Debug, Clone, Copy, PartialEq, Eq, Structural)]
pub enum HarvestTimer {
    Keep,
    Advance,
    Reset,
}

/// The outcome of one mining tick of a worker.
#[derive(Debug, Clone, Copy, PartialEq, Eq, Structural)]
pub struct WorkerTick {
    pub state: WorkerState,
    pub target_field: Option<u32>,
    pub carried: u32,
    /// Minerals taken out of the field now.
    pub mined: u32,
    /// Minerals handed to the side's economy now.
    pub deposit: u32,
    pub heading: Heading,
    pub timer: HarvestTimer,
    /// A busy worker drops any plain move order.
    pub drop_move_order: bool,
}

/// The field can still be mined by a worker of room `room_id`.
pub open spec fn field_usable(field: Option<FieldSighting>, room_id: u32) -> bool {
    field matches Some(f) && f.room_id == room_id && f.remaining > 0
}

/// A worker that gives up its field and stands idle.
pub open spec fn gives_up(carried: u32, busy: bool) -> WorkerTick {
    WorkerTick {
        state: WorkerState::Idle,
        target_field: None,
        carried,
        mined: 0,
        deposit: 0,
        heading: Heading::Stay,
        timer: HarvestTimer::Keep,
        drop_move_order: busy,
    }
}

/// What a worker does in one mining tick.
///
/// `target_field` is the field it is assigned to and `field` what it sees of that field (`None`
/// when the field is gone); `harvest_due` says that the harvest timer has run out with this
/// tick; `base` is `None` when its side has no base in the room, else whether the nearest one is
/// within reach.
pub open spec fn worker_step(
    running: bool,
    state: WorkerState,
    target_field: Option<u32>,
    carried: u32,
    capacity: u32,
    room_id: u32,
    field: Option<FieldSighting>,
    harvest_due: bool,
    base: Option<bool>,
) -> WorkerTick {
    let busy = state != WorkerState::Idle;
    let unchanged = WorkerTick {
        state,
        target_field,
        carried,
        mined: 0,
        deposit: 0,
        heading: Heading::Stay,
        timer: HarvestTimer::Keep,
        drop_move_order: busy,
    };
    if !running {
        WorkerTick { drop_move_order: false, ..unchanged }
    } else {
        match state {
            WorkerState::Idle => unchanged,
            WorkerState::MovingToResource => if target_field is None || !field_usable(field, room_id) {
                gives_up(carried, busy)
            } else if field->Some_0.in_reach {
                WorkerTick { state: WorkerState::Mining, timer: HarvestTimer::Reset, ..unchanged }
            } else {
                WorkerTick { heading: Heading::ToField, ..unchanged }
            },
            WorkerState::Mining => if target_field is None || !field_usable(field, room_id) {
                gives_up(carried, busy)
            } else if harvest_due {
                let remaining = field->Some_0.remaining;
                let amount = if remaining <= capacity {
                    remaining
                } else {
                    capacity
                };
                WorkerTick {
                    state: WorkerState::MovingToBase,
                    carried: amount,
                    mined: amount,
                    timer: HarvestTimer::Reset,
                    ..unchanged
                }
            } else {
                WorkerTick { timer: HarvestTimer::Advance, ..unchanged }
            },
            WorkerState::MovingToBase => match base {
                None => WorkerTick { state: WorkerState::Idle, ..unchanged },
                Some(true) => WorkerTick {
                    state: if target_field is Some {
                        WorkerState::MovingToResource
                    } else {
                        WorkerState::Idle
                    },
                    carried: 0,
                    deposit: carried,
                    ..unchanged
                },
                Some(false) => WorkerTick { heading: Heading::ToBase, ..unchanged },
            },
        }
    }
}

/// One mining tick of a worker: walk to the field, mine a load once the harvest time is up,
/// carry it to the nearest base of its side, hand it over, and go back. In a room that is not
/// running nothing happens.
pub fn worker_tick(
    running: bool,
    state: WorkerState,
    target_field: Option<u32>,
    carried: u32,
    capacity: u32,
    room_id: u32,
    field: Option<FieldSighting>,
    harvest_due: bool,
    base: Option<bool>,
) -> (res: WorkerTick)
    ensures
        res == worker_step(
            running,
            state,
            target_field,
            carried,
            capacity,
            room_id,
            field,
            harvest_due,
            base,
        ),
{
    let busy = state != WorkerState::Idle;
    let unchanged = WorkerTick {
        state,
        target_field,
        carried,
        mined: 0,
        deposit: 0,
        heading: Heading::Stay,
        timer: HarvestTimer::Keep,
        drop_move_order: busy,
    };
    let give_up = WorkerTick {
        state: WorkerState::Idle,
        target_field: None,
        carried,
        mined: 0,
        deposit: 0,
        heading: Heading::Stay,
        timer: HarvestTimer::Keep,
        drop_move_order: busy,
    };
    let usable = match field {
        Some(f) => f.room_id == room_id && f.remaining > 0,
        None => false,
    };
    if !running {
        return WorkerTick { drop_move_order: false, ..unchanged };
    }
    match state {
        WorkerState::Idle => unchanged,
        WorkerState::MovingToResource => {
            if target_field.is_none() || !usable {
                give_up
            } else {
                match field {
                    Some(f) => {
                        if f.in_reach {
                            WorkerTick {
                                state: WorkerState::Mining,
                                timer: HarvestTimer::Reset,
                                ..unchanged
                            }
                        } else {
                            WorkerTick { heading: Heading::ToField, ..unchanged }
                        }
                    },
                    None => give_up,
                }
            }
        },
        WorkerState::Mining => {
            if target_field.is_none() || !usable {
                give_up
            } else if harvest_due {
                let remaining = match field {
                    Some(f) => f.remaining,
                    None => 0,
                };
                let amount = if remaining <= capacity {
                    remaining
                } else {
                    capacity
                };
                WorkerTick {
                    state: WorkerState::MovingToBase,
                    carried: amount,
                    mined: amount,
                    timer: HarvestTimer::Reset,
                    ..unchanged
                }
            } else {
                WorkerTick { timer: HarvestTimer::Advance, ..unchanged }
            }
        },
        WorkerState::MovingToBase => match base {
            None => WorkerTick { state: WorkerState::Idle, ..unchanged },
            Some(true) => {
                let next = if target_field.is_some() {
                    WorkerState::MovingToResource
                } else {
                    WorkerState::Idle
                };
                WorkerTick { state: next, carried: 0, deposit: carried, ..unchanged }
            },
            Some(false) => WorkerTick { heading: Heading::ToBase, ..unchanged },
        },
    }
}

/// Mining creates and destroys no minerals: what a worker carries afterwards plus what it
/// handed over equals what it carried before plus what it took from the field; it never takes
/// more than the field holds or one load; it only takes minerals while mining a usable field
/// once its harvest time is up, and only hands them over at its base.
pub proof fn law_minerals_conserved(
    running: bool,
    state: WorkerState,
    target_field: Option<u32>,
    carried: u32,
    capacity: u32,
    room_id: u32,
    field: Option<FieldSighting>,
    harvest_due: bool,
    base: Option<bool>,
)
    requires
        state == WorkerState::Mining ==> carried == 0,
    ensures
        ({
            let r = worker_step(
                running,
                state,
                target_field,
                carried,
                capacity,
                room_id,
                field,
                harvest_due,
                base,
            );
            &&& r.carried + r.deposit == carried + r.mined
            &&& r.mined > 0 ==> state == WorkerState::Mining && harvest_due && field_usable(
                field,
                room_id,
            ) && r.mined <= field->Some_0.remaining && r.mined <= capacity
            &&& r.deposit > 0 ==> state == WorkerState::MovingToBase && base == Some(true)
        }),
{
}

/// A worker as one mining round of the world sees it: its state, what it carries, and what the
/// caller measured of its surroundings this tick.
#[derive(Debug, Clone, Copy, PartialEq, Eq, Structural)]
pub struct MinerInput {
    /// The worker's room runs.
    pub running: bool,
    pub state: WorkerState,
    pub target_field: Option<u32>,
    /// Position of its field in the round's field list; `None` when that field is gone.
    pub field_slot: Option<usize>,
    pub carried: u32,
    pub capacity: u32,
    pub room_id: u32,
    /// The worker's side; what it hands over goes to this side's economy in its room.
    pub faction: Faction,
    /// The worker stands close enough to mine its field.
    pub in_reach: bool,
    pub harvest_due: bool,
    /// `None` when its side has no base in the room, else whether the nearest one is in reach.
    pub base: Option<bool>,
}

/// A mineral field and what is left in it.
#[derive(Debug, Clone, Copy, PartialEq, Eq, Structural)]
pub struct FieldStock {
    pub room_id: u32,
    pub remaining: u32,
}

/// What worker `w` sees of its field among `fields`.
pub open spec fn sighting_of(w: MinerInput, fields: Seq<FieldStock>) -> Option<FieldSighting> {
    match w.field_slot {
        Some(i) => if i < fields.len() {
            Some(
                FieldSighting {
                    room_id: fields[i as int].room_id,
                    remaining: fields[i as int].remaining,
                    in_reach: w.in_reach,
                },
            )
        } else {
            None
        },
        None => None,
    }
}

/// The mining tick of worker `w` when the fields are `fields`.
pub open spec fn tick_of(w: MinerInput, fields: Seq<FieldStock>) -> WorkerTick {
    worker_step(
        w.running,
        w.state,
        w.target_field,
        w.carried,
        w.capacity,
        w.room_id,
        sighting_of(w, fields),
        w.harvest_due,
        w.base,
    )
}

/// The fields after worker `w` mined what its tick `t` took.
pub open spec fn after_tick(fields: Seq<FieldStock>, w: MinerInput, t: WorkerTick) -> Seq<FieldStock> {
    if t.mined > 0 && w.field_slot is Some && w.field_slot->Some_0 < fields.len() {
        let i = w.field_slot->Some_0 as int;
        fields.update(i, FieldStock { remaining: (fields[i].remaining - t.mined) as u32, ..fields[i] })
    } else {
        fields
    }
}

/// The fields after the first `n` workers took their turn, in order.
pub open spec fn fields_after(fields: Seq<FieldStock>, workers: Seq<MinerInput>, n: int) -> Seq<
    FieldStock,
>
    decreases n,
{
    if n <= 0 {
        fields
    } else {
        let before = fields_after(fields, workers, n - 1);
        after_tick(before, workers[n - 1], tick_of(workers[n - 1], before))
    }
}

/// The tick of worker `k`: it sees the fields as the workers before it left them.
pub open spec fn tick_at(fields: Seq<FieldStock>, workers: Seq<MinerInput>, k: int) -> WorkerTick {
    tick_of(workers[k], fields_after(fields, workers, k))
}

/// Minerals left in the fields.
pub open spec fn stock(fields: Seq<FieldStock>) -> int
    decreases fields.len(),
{
    if fields.len() == 0 {
        0
    } else {
        stock(fields.drop_last()) + fields.last().remaining
    }
}

/// Minerals that the first `n` workers carry before the round.
pub open spec fn carried_before(workers: Seq<MinerInput>, n: int) -> int
    decreases n,
{
    if n <= 0 {
        0
    } else {
        carried_before(workers, n - 1) + workers[n - 1].carried
    }
}

/// Minerals that the first `n` workers carry after the round or handed over in it.
pub open spec fn held_after(fields: Seq<FieldStock>, workers: Seq<MinerInput>, n: int) -> int
    decreases n,
{
    if n <= 0 {
        0
    } else {
        held_after(fields, workers, n - 1) + tick_at(fields, workers, n - 1).carried + tick_at(
            fields,
            workers,
            n - 1,
        ).deposit
    }
}

/// One mining round of the world: each worker in turn takes its tick, seeing its field as the
/// workers before it left it, and what it mines leaves the field. Returns the workers' ticks.
pub fn mining_round(fields: &mut Vec<FieldStock>, workers: &Vec<MinerInput>) -> (ticks: Vec<WorkerTick>)
    ensures
        final(fields)@ == fields_after(old(fields)@, workers@, workers@.len() as int),
        ticks@.len() == workers@.len(),
        forall|k: int| 0 <= k < workers@.len() ==> #[trigger] ticks@[k] == tick_at(old(fields)@, workers@, k),
{
    let mut ticks: Vec<WorkerTick> = Vec::new();
    let mut k: usize = 0;
    while k < workers.len()
        invariant
            k <= workers@.len(),
            fields@ == fields_after(old(fields)@, workers@, k as int),
            ticks@.len() == k,
            forall|j: int| 0 <= j < k ==> #[trigger] ticks@[j] == tick_at(old(fields)@, workers@, j),
        decreases workers@.len() - k,
    {
        let w = workers[k];
        let sighting = match w.field_slot {
            Some(i) => if i < fields.len() {
                Some(FieldSighting { room_id: fields[i].room_id, remaining: fields[i].remaining, in_reach: w.in_reach })
            } else {
                None
            },
            None => None,
        };
        let t = worker_tick(
            w.running,
            w.state,
            w.target_field,
            w.carried,
            w.capacity,
            w.room_id,
            sighting,
            w.harvest_due,
            w.base,
        );
        if t.mined > 0 {
            match w.field_slot {
                Some(i) => if i < fields.len() {
                    let f = fields[i];
                    fields.set(i, FieldStock { remaining: f.remaining - t.mined, ..f });
                },
                None => {},
            }
        }
        ticks.push(t);
        k = k + 1;
    }
    ticks
}

proof fn lemma_stock_update(fields: Seq<FieldStock>, i: int, f: FieldStock)
    requires
        0 <= i < fields.len(),
    ensures
        stock(fields.update(i, f)) == stock(fields) - fields[i].remaining + f.remaining,
    decreases fields.len(),
{
    let u = fields.update(i, f);
    if i == fields.len() - 1 {
        assert(u.drop_last() =~= fields.drop_last());
    } else {
        assert(u.drop_last() =~= fields.drop_last().update(i, f));
        lemma_stock_update(fields.drop_last(), i, f);
    }
}

/// A mining round of the world creates and destroys no minerals: what is left in the fields
/// plus what the workers carried before equals what is left afterwards plus what the workers
/// carry or handed to their side's economy. No field gains minerals, and a worker that carried
/// at most one load carries at most one load afterwards.
pub proof fn law_round_conserves_minerals(fields: Seq<FieldStock>, workers: Seq<MinerInput>, n: int)
    requires
        0 <= n <= workers.len(),
        forall|k: int|
            0 <= k < workers.len() && #[trigger] workers[k].state == WorkerState::Mining
                ==> workers[k].carried == 0,
    ensures
        stock(fields) + carried_before(workers, n) == stock(fields_after(fields, workers, n))
            + held_after(fields, workers, n),
        fields_after(fields, workers, n).len() == fields.len(),
        forall|i: int|
            0 <= i < fields.len() ==> #[trigger] fields_after(fields, workers, n)[i].remaining
                <= fields[i].remaining,
        forall|k: int|
            0 <= k < n && workers[k].carried <= workers[k].capacity ==> #[trigger] tick_at(
                fields,
                workers,
                k,
            ).carried <= workers[k].capacity,
    decreases n,
{
    if n > 0 {
        law_round_conserves_minerals(fields, workers, n - 1);
        let before = fields_after(fields, workers, n - 1);
        let w = workers[n - 1];
        let t = tick_of(w, before);
        assert(w.state == WorkerState::Mining ==> w.carried == 0);
        law_minerals_conserved(
            w.running,
            w.state,
            w.target_field,
            w.carried,
            w.capacity,
            w.room_id,
            sighting_of(w, before),
            w.harvest_due,
            w.base,
        );
        if t.mined > 0 {
            let i = w.field_slot->Some_0 as int;
            lemma_stock_update(
                before,
                i,
                FieldStock { remaining: (before[i].remaining - t.mined) as u32, ..before[i] },
            );
        }
        let now = fields_after(fields, workers, n);
        assert forall|i: int| 0 <= i < fields.len() implies #[trigger] now[i].remaining
            <= fields[i].remaining by {
            assert(before[i].remaining <= fields[i].remaining);
        }
    }
}

/// Minerals that one economy holds over all four sides.
pub open spec fn econ_total(m: Map<Faction, FactionEconomy>) -> int {
    minerals_of(m, Faction::Player1) + minerals_of(m, Faction::Player2) + minerals_of(
        m,
        Faction::HostileAi,
    ) + minerals_of(m, Faction::Neutral)
}

/// Minerals held in all the economies.
pub open spec fn bank(views: Seq<Map<Faction, FactionEconomy>>) -> int
    decreases views.len(),
{
    if views.len() == 0 {
        0
    } else {
        bank(views.drop_last()) + econ_total(views.last())
    }
}

/// The economies of the rooms, in room order.
pub open spec fn economies(rooms: Seq<Room>) -> Seq<Map<Faction, FactionEconomy>> {
    Seq::new(rooms.len(), |i: int| rooms[i].economy@)
}

/// The economies after the first `n` workers handed over what their ticks `ticks` deposit:
/// each deposit goes to the worker's side in the (first) room with the worker's room id.
pub open spec fn credited(
    rooms: Seq<Room>,
    workers: Seq<MinerInput>,
    ticks: Seq<WorkerTick>,
    n: int,
) -> Seq<Map<Faction, FactionEconomy>>
    decreases n,
{
    if n <= 0 {
        economies(rooms)
    } else {
        let before = credited(rooms, workers, ticks, n - 1);
        let w = workers[n - 1];
        let t = ticks[n - 1];
        match index_of_room(rooms, w.room_id, 0) {
            Some(i) => if t.deposit > 0 {
                before.update(i, after_add_minerals(before[i], w.faction, t.deposit))
            } else {
                before
            },
            None => before,
        }
    }
}

/// The ticks of a whole round, worker by worker.
pub open spec fn round_ticks(fields: Seq<FieldStock>, workers: Seq<MinerInput>) -> Seq<WorkerTick> {
    Seq::new(workers.len(), |k: int| tick_at(fields, workers, k))
}

/// The two rooms agree in everything but their economies.
pub open spec fn same_but_economy(a: Room, b: Room) -> bool {
    &&& a.room_id == b.room_id
    &&& a.room_code == b.room_code
    &&& a.mode == b.mode
    &&& a.p1_peer == b.p1_peer
    &&& a.p2_peer == b.p2_peer
    &&& a.is_active == b.is_active
    &&& a.current_wave == b.current_wave
}

impl Matchmaker {
    /// A whole mining tick of the world: the mining round over `fields` and `workers`, then the
    /// deposits credited to the workers' sides. The tick's outcome is `round_ticks`; see
    /// `law_mining_tick_conserves_minerals` for what it keeps.
    pub fn mining_tick(&mut self, fields: &mut Vec<FieldStock>, workers: &Vec<MinerInput>) -> (ticks: Vec<
        WorkerTick,
    >)
        ensures
            final(fields)@ == fields_after(old(fields)@, workers@, workers@.len() as int),
            ticks@ == round_ticks(old(fields)@, workers@),
            final(self).rooms@.len() == old(self).rooms@.len(),
            forall|i: int|
                0 <= i < old(self).rooms@.len() ==> same_but_economy(
                    #[trigger] final(self).rooms@[i],
                    old(self).rooms@[i],
                ),
            economies(final(self).rooms@) == credited(
                old(self).rooms@,
                workers@,
                round_ticks(old(fields)@, workers@),
                workers@.len() as int,
            ),
            final(self).players@ == old(self).players@,
            final(self).connected_peers@ == old(self).connected_peers@,
            final(self).waiting_1v1_peer == old(self).waiting_1v1_peer,
            final(self).next_room_id == old(self).next_room_id,
            final(self).next_net_id == old(self).next_net_id,
    {
        let ticks = mining_round(fields, workers);
        proof {
            assert(ticks@ =~= round_ticks(old(fields)@, workers@));
        }
        self.credit_deposits(workers, &ticks);
        ticks
    }

    /// Credits what the workers handed over in a mining round (`ticks`, worker by worker) to
    /// their side's economy in their room; a worker whose room is gone credits nothing. Nothing
    /// but the economies changes.
    pub fn credit_deposits(&mut self, workers: &Vec<MinerInput>, ticks: &Vec<WorkerTick>)
        requires
            ticks@.len() == workers@.len(),
        ensures
            final(self).rooms@.len() == old(self).rooms@.len(),
            forall|i: int|
                0 <= i < old(self).rooms@.len() ==> same_but_economy(
                    #[trigger] final(self).rooms@[i],
                    old(self).rooms@[i],
                ),
            economies(final(self).rooms@) == credited(
                old(self).rooms@,
                workers@,
                ticks@,
                workers@.len() as int,
            ),
            final(self).players@ == old(self).players@,
            final(self).connected_peers@ == old(self).connected_peers@,
            final(self).waiting_1v1_peer == old(self).waiting_1v1_peer,
            final(self).next_room_id == old(self).next_room_id,
            final(self).next_net_id == old(self).next_net_id,
    {
        let mut k: usize = 0;
        while k < workers.len()
            invariant
                k <= workers@.len(),
                ticks@.len() == workers@.len(),
                self.rooms@.len() == old(self).rooms@.len(),
                forall|i: int|
                    0 <= i < old(self).rooms@.len() ==> same_but_economy(
                        #[trigger] self.rooms@[i],
                        old(self).rooms@[i],
                    ),
                economies(self.rooms@) == credited(old(self).rooms@, workers@, ticks@, k as int),
                self.players@ == old(self).players@,
                self.connected_peers@ == old(self).connected_peers@,
                self.waiting_1v1_peer == old(self).waiting_1v1_peer,
                self.next_room_id == old(self).next_room_id,
                self.next_net_id == old(self).next_net_id,
            decreases workers@.len() - k,
        {
            let w = &workers[k];
            let t = &ticks[k];
            proof {
                lemma_same_ids_same_index(self.rooms@, old(self).rooms@, w.room_id, 0);
            }
            if t.deposit > 0 {
                match self.room_index(w.room_id) {
                    Some(i) => {
                        let ghost before = self.rooms@;
                        let mut room = self.rooms.remove(i);
                        room.economy.add_minerals(w.faction, t.deposit);
                        self.rooms.insert(i, room);
                        proof {
                            assert forall|j: int| 0 <= j < before.len() implies #[trigger] self.rooms@[j]
                                == (if j == i as int {
                                self.rooms@[j]
                            } else {
                                before[j]
                            }) by {}
                            assert(economies(self.rooms@) =~= economies(before).update(
                                i as int,
                                after_add_minerals(before[i as int].economy@, w.faction, t.deposit),
                            ));
                        }
                    },
                    None => {},
                }
            }
            k = k + 1;
        }
    }
}

/// Rooms with the same ids in the same places are looked up at the same place.
proof fn lemma_same_ids_same_index(a: Seq<Room>, b: Seq<Room>, id: u32, from: int)
    requires
        a.len() == b.len(),
        forall|i: int| 0 <= i < a.len() ==> (#[trigger] a[i]).room_id == b[i].room_id,
    ensures
        index_of_room(a, id, from) == index_of_room(b, id, from),
    decreases a.len() - from,
{
    if 0 <= from < a.len() {
        lemma_same_ids_same_index(a, b, id, from + 1);
    }
}

/// What the first `n` workers carry after the round.
pub open spec fn carried_after(fields: Seq<FieldStock>, workers: Seq<MinerInput>, n: int) -> int
    decreases n,
{
    if n <= 0 {
        0
    } else {
        carried_after(fields, workers, n - 1) + tick_at(fields, workers, n - 1).carried
    }
}

/// What the first `n` workers hand over in the round.
pub open spec fn deposits(fields: Seq<FieldStock>, workers: Seq<MinerInput>, n: int) -> int
    decreases n,
{
    if n <= 0 {
        0
    } else {
        deposits(fields, workers, n - 1) + tick_at(fields, workers, n - 1).deposit
    }
}

proof fn lemma_held_split(fields: Seq<FieldStock>, workers: Seq<MinerInput>, n: int)
    ensures
        held_after(fields, workers, n) == carried_after(fields, workers, n) + deposits(
            fields,
            workers,
            n,
        ),
    decreases n,
{
    if n > 0 {
        lemma_held_split(fields, workers, n - 1);
    }
}

proof fn lemma_deposits_bounded(fields: Seq<FieldStock>, workers: Seq<MinerInput>, n: int)
    ensures
        0 <= deposits(fields, workers, n) <= carried_before(workers, n),
        0 <= carried_before(workers, n),
    decreases n,
{
    if n > 0 {
        lemma_deposits_bounded(fields, workers, n - 1);
    }
}

proof fn lemma_carried_before_grows(workers: Seq<MinerInput>, n: int, m: int)
    requires
        n <= m,
    ensures
        carried_before(workers, n) <= carried_before(workers, m),
    decreases m - n,
{
    if n < m {
        lemma_carried_before_grows(workers, n, m - 1);
        if m > 0 {
            assert(carried_before(workers, m) == carried_before(workers, m - 1) + workers[m - 1].carried);
        }
    }
}

proof fn lemma_bank_update(views: Seq<Map<Faction, FactionEconomy>>, i: int, x: Map<Faction, FactionEconomy>)
    requires
        0 <= i < views.len(),
    ensures
        bank(views.update(i, x)) == bank(views) - econ_total(views[i]) + econ_total(x),
    decreases views.len(),
{
    let u = views.update(i, x);
    if i == views.len() - 1 {
        assert(u.drop_last() =~= views.drop_last());
    } else {
        assert(u.drop_last() =~= views.drop_last().update(i, x));
        lemma_bank_update(views.drop_last(), i, x);
    }
}

/// Every worker's room is there and its economy has an entry for the worker's side, and no
/// economy gets near `u32::MAX` even if every load carried now were handed to it.
pub open spec fn deposits_fit(rooms: Seq<Room>, workers: Seq<MinerInput>) -> bool {
    &&& forall|k: int|
        0 <= k < workers.len() ==> (match index_of_room(rooms, #[trigger] workers[k].room_id, 0) {
            Some(i) => rooms[i].economy@.contains_key(workers[k].faction),
            None => false,
        })
    &&& forall|i: int, f: Faction|
        0 <= i < rooms.len() ==> #[trigger] minerals_of(rooms[i].economy@, f) + carried_before(
            workers,
            workers.len() as int,
        ) <= u32::MAX
}

proof fn lemma_credit(fields: Seq<FieldStock>, rooms: Seq<Room>, workers: Seq<MinerInput>, n: int)
    requires
        0 <= n <= workers.len(),
        deposits_fit(rooms, workers),
    ensures
        ({
            let c = credited(rooms, workers, round_ticks(fields, workers), n);
            &&& c.len() == rooms.len()
            &&& forall|i: int, f: Faction|
                0 <= i < rooms.len() ==> #[trigger] c[i].contains_key(f) == rooms[i].economy@.contains_key(
                    f,
                )
            &&& forall|i: int, f: Faction|
                0 <= i < rooms.len() ==> #[trigger] minerals_of(c[i], f) <= minerals_of(
                    rooms[i].economy@,
                    f,
                ) + deposits(fields, workers, n)
            &&& bank(c) == bank(economies(rooms)) + deposits(fields, workers, n)
        }),
    decreases n,
{
    let ts = round_ticks(fields, workers);
    if n > 0 {
        lemma_credit(fields, rooms, workers, n - 1);
        lemma_deposits_bounded(fields, workers, n);
        lemma_carried_before_grows(workers, n, workers.len() as int);
        let prev = credited(rooms, workers, ts, n - 1);
        let c = credited(rooms, workers, ts, n);
        let w = workers[n - 1];
        let t = ts[n - 1];
        assert(t == tick_at(fields, workers, n - 1));
        lemma_index_of_room(rooms, w.room_id, 0);
        if t.deposit > 0 {
            let i = index_of_room(rooms, w.room_id, 0)->Some_0;
            assert(rooms[i].economy@.contains_key(w.faction));
            assert(prev[i].contains_key(w.faction));
            let m = minerals_of(prev[i], w.faction);
            assert(m <= minerals_of(rooms[i].economy@, w.faction) + deposits(fields, workers, n - 1));
            assert(minerals_of(rooms[i].economy@, w.faction) + carried_before(workers, workers.len() as int)
                <= u32::MAX);
            let x = after_add_minerals(prev[i], w.faction, t.deposit);
            assert(minerals_of(x, w.faction) == m + t.deposit);
            assert(econ_total(x) == econ_total(prev[i]) + t.deposit);
            lemma_bank_update(prev, i, x);
            assert forall|j: int, f: Faction| 0 <= j < rooms.len() implies #[trigger] minerals_of(c[j], f)
                <= minerals_of(rooms[j].economy@, f) + deposits(fields, workers, n) by {
                assert(minerals_of(prev[j], f) <= minerals_of(rooms[j].economy@, f) + deposits(
                    fields,
                    workers,
                    n - 1,
                ));
            }
            assert forall|j: int, f: Faction| 0 <= j < rooms.len() implies #[trigger] c[j].contains_key(f)
                == rooms[j].economy@.contains_key(f) by {
                assert(prev[j].contains_key(f) == rooms[j].economy@.contains_key(f));
            }
        } else {
            assert forall|j: int, f: Faction| 0 <= j < rooms.len() implies #[trigger] minerals_of(c[j], f)
                <= minerals_of(rooms[j].economy@, f) + deposits(fields, workers, n) by {
                assert(minerals_of(prev[j], f) <= minerals_of(rooms[j].economy@, f) + deposits(
                    fields,
                    workers,
                    n - 1,
                ));
            }
        }
    }
}

/// A whole mining tick of the world creates and destroys no minerals: what the fields hold,
/// plus what the workers carry, plus what all the economies hold, is the same before the tick
/// and after it, when the workers' deposits are credited to their sides. This needs that a
/// mining worker carries nothing yet, that every worker's room and side have an economy entry,
/// and that no economy comes near `u32::MAX`.
pub proof fn law_mining_tick_conserves_minerals(
    fields: Seq<FieldStock>,
    rooms: Seq<Room>,
    workers: Seq<MinerInput>,
)
    requires
        forall|k: int|
            0 <= k < workers.len() && #[trigger] workers[k].state == WorkerState::Mining
                ==> workers[k].carried == 0,
        deposits_fit(rooms, workers),
    ensures
        stock(fields) + carried_before(workers, workers.len() as int) + bank(economies(rooms))
            == stock(fields_after(fields, workers, workers.len() as int)) + carried_after(
            fields,
            workers,
            workers.len() as int,
        ) + bank(credited(rooms, workers, round_ticks(fields, workers), workers.len() as int)),
{
    let n = workers.len() as int;
    law_round_conserves_minerals(fields, workers, n);
    lemma_held_split(fields, workers, n);
    lemma_credit(fields, rooms, workers, n);
}

/// A harvest keeps the worker on its field: a running worker that mines a usable field whose
/// harvest time is up takes one load (what the field holds, at most its capacity), heads for
/// its base, and keeps its field assignment.
pub proof fn law_harvest_keeps_field(
    state: WorkerState,
    target_field: Option<u32>,
    carried: u32,
    capacity: u32,
    room_id: u32,
    field: Option<FieldSighting>,
    base: Option<bool>,
)
    requires
        state == WorkerState::Mining,
        target_field is Some,
        field_usable(field, room_id),
    ensures
        ({
            let r = worker_step(true, state, target_field, carried, capacity, room_id, field, true, base);
            &&& r.state == WorkerState::MovingToBase
            &&& r.target_field == target_field
            &&& r.mined == r.carried
            &&& r.carried <= capacity
            &&& r.carried <= field->Some_0.remaining
            &&& (r.carried == capacity || r.carried == field->Some_0.remaining)
            &&& r.deposit == 0
        }),
{
}

/// A worker that delivers at its base hands over its whole load and, when it has a field,
/// goes back to that very field; without a field it stands idle.
pub proof fn law_delivery_returns_to_field(
    target_field: Option<u32>,
    carried: u32,
    capacity: u32,
    room_id: u32,
    field: Option<FieldSighting>,
    harvest_due: bool,
)
    ensures
        ({
            let r = worker_step(
                true,
                WorkerState::MovingToBase,
                target_field,
                carried,
                capacity,
                room_id,
                field,
                harvest_due,
                Some(true),
            );
            &&& r.deposit == carried
            &&& r.carried == 0
            &&& r.target_field == target_field
            &&& r.state == (if target_field is Some {
                WorkerState::MovingToResource
            } else {
                WorkerState::Idle
            })
        }),
{
}

/// Mining and delivering go round: a worker that harvests a load from its field and then
/// reaches its base hands over exactly that load and heads back to the same field.
pub proof fn law_mining_cycle(
    target_field: Option<u32>,
    capacity: u32,
    room_id: u32,
    field: Option<FieldSighting>,
    base: Option<bool>,
    later_field: Option<FieldSighting>,
    later_due: bool,
)
    requires
        target_field is Some,
        field_usable(field, room_id),
    ensures
        ({
            let harvest = worker_step(
                true,
                WorkerState::Mining,
                target_field,
                0,
                capacity,
                room_id,
                field,
                true,
                base,
            );
            let deliver = worker_step(
                true,
                harvest.state,
                harvest.target_field,
                harvest.carried,
                capacity,
                room_id,
                later_field,
                later_due,
                Some(true),
            );
            &&& deliver.deposit == harvest.mined
            &&& deliver.state == WorkerState::MovingToResource
            &&& deliver.target_field == target_field
        }),
{
}

/// A worker on its way to a field starts mining once it is in reach, walks on while it is not,
/// and gives the field up (standing idle, keeping its load) when the field is gone, empty or in
/// another room; a mining worker gives up its field the same way.
pub proof fn law_worker_walks_and_gives_up(
    state: WorkerState,
    target_field: Option<u32>,
    carried: u32,
    capacity: u32,
    room_id: u32,
    field: Option<FieldSighting>,
    harvest_due: bool,
    base: Option<bool>,
)
    ensures
        ({
            let r = worker_step(true, state, target_field, carried, capacity, room_id, field, harvest_due, base);
            &&& (state == WorkerState::MovingToResource || state == WorkerState::Mining) && (
            target_field is None || !field_usable(field, room_id)) ==> r.state == WorkerState::Idle
                && r.target_field is None && r.carried == carried && r.mined == 0
            &&& state == WorkerState::MovingToResource && target_field is Some && field_usable(
                field,
                room_id,
            ) ==> r.target_field == target_field && r.mined == 0 && (if field->Some_0.in_reach {
                r.state == WorkerState::Mining && r.heading == Heading::Stay
            } else {
                r.state == WorkerState::MovingToResource && r.heading == Heading::ToField
            })
            &&& state == WorkerState::Mining && target_field is Some && field_usable(field, room_id)
                && !harvest_due ==> r.state == WorkerState::Mining && r.mined == 0 && r.timer
                == HarvestTimer::Advance
            &&& state == WorkerState::Idle ==> r.state == WorkerState::Idle && r.mined == 0
                && r.deposit == 0
        }),
{
}

} // verus!
