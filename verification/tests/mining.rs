use mini_rts::components::WorkerState;
use mini_rts::faction::Faction;
use mini_rts::kinds::GameMode;
use mini_rts::matchmaker::{Matchmaker, Room};
use mini_rts::mining::{mining_round, worker_tick, FieldSighting, FieldStock, HarvestTimer, Heading, MinerInput};

fn field(remaining: u32, in_reach: bool) -> Option<FieldSighting> {
    Some(FieldSighting { room_id: 4, remaining, in_reach })
}

#[test]
fn worker_walks_then_starts_mining() {
    let t = worker_tick(true, WorkerState::MovingToResource, Some(9), 0, 5, 4, field(100, false), false, None);
    assert_eq!(t.state, WorkerState::MovingToResource);
    assert_eq!(t.heading, Heading::ToField);
    assert!(t.drop_move_order);
    let t = worker_tick(true, WorkerState::MovingToResource, Some(9), 0, 5, 4, field(100, true), false, None);
    assert_eq!(t.state, WorkerState::Mining);
    assert_eq!(t.timer, HarvestTimer::Reset);
}

#[test]
fn harvest_takes_one_load_or_what_is_left() {
    let t = worker_tick(true, WorkerState::Mining, Some(9), 0, 5, 4, field(100, true), false, None);
    assert_eq!(t.timer, HarvestTimer::Advance);
    assert_eq!(t.mined, 0);
    let t = worker_tick(true, WorkerState::Mining, Some(9), 0, 5, 4, field(100, true), true, None);
    assert_eq!((t.state, t.carried, t.mined), (WorkerState::MovingToBase, 5, 5));
    let t = worker_tick(true, WorkerState::Mining, Some(9), 0, 5, 4, field(3, true), true, None);
    assert_eq!((t.carried, t.mined), (3, 3));
}

#[test]
fn exhausted_or_foreign_field_is_given_up() {
    for f in [field(0, true), Some(FieldSighting { room_id: 5, remaining: 10, in_reach: true }), None] {
        let t = worker_tick(true, WorkerState::Mining, Some(9), 0, 5, 4, f, true, None);
        assert_eq!((t.state, t.target_field, t.mined), (WorkerState::Idle, None, 0));
    }
    let t = worker_tick(true, WorkerState::MovingToResource, None, 0, 5, 4, field(10, true), true, None);
    assert_eq!(t.state, WorkerState::Idle);
}

#[test]
fn delivery_hands_over_the_load_and_returns() {
    let t = worker_tick(true, WorkerState::MovingToBase, Some(9), 5, 5, 4, None, false, Some(false));
    assert_eq!((t.heading, t.deposit), (Heading::ToBase, 0));
    let t = worker_tick(true, WorkerState::MovingToBase, Some(9), 5, 5, 4, None, false, Some(true));
    assert_eq!((t.state, t.carried, t.deposit), (WorkerState::MovingToResource, 0, 5));
    let t = worker_tick(true, WorkerState::MovingToBase, None, 5, 5, 4, None, false, Some(true));
    assert_eq!(t.state, WorkerState::Idle);
    // Without a base the worker stops and keeps its load.
    let t = worker_tick(true, WorkerState::MovingToBase, Some(9), 5, 5, 4, None, false, None);
    assert_eq!((t.state, t.carried, t.deposit), (WorkerState::Idle, 5, 0));
}

#[test]
fn idle_worker_stays_put() {
    let t = worker_tick(true, WorkerState::Idle, Some(9), 2, 5, 4, field(10, true), true, Some(true));
    assert_eq!((t.state, t.target_field, t.carried), (WorkerState::Idle, Some(9), 2));
    assert!(!t.drop_move_order);
    assert_eq!(t.heading, Heading::Stay);
}

#[test]
fn paused_room_keeps_the_worker_as_it_is() {
    let t = worker_tick(false, WorkerState::Mining, Some(9), 0, 5, 4, field(100, true), true, Some(true));
    assert_eq!((t.state, t.target_field, t.carried, t.mined, t.deposit), (WorkerState::Mining, Some(9), 0, 0, 0));
    assert_eq!((t.heading, t.timer), (Heading::Stay, HarvestTimer::Keep));
    assert!(!t.drop_move_order);
}

fn miner(state: WorkerState, carried: u32, slot: usize, base: Option<bool>) -> MinerInput {
    MinerInput {
        running: true,
        state,
        target_field: Some(9),
        field_slot: Some(slot),
        carried,
        capacity: 5,
        room_id: 4,
        faction: Faction::Player1,
        in_reach: true,
        harvest_due: true,
        base,
    }
}

#[test]
fn a_mining_round_conserves_minerals() {
    // Two workers share a field holding 7: the first takes a full load of 5, the second what is
    // left; a third hands its load of 5 over at the base.
    let mut fields = vec![FieldStock { room_id: 4, remaining: 7 }, FieldStock { room_id: 4, remaining: 50 }];
    let workers = vec![
        miner(WorkerState::Mining, 0, 0, None),
        miner(WorkerState::Mining, 0, 0, None),
        miner(WorkerState::MovingToBase, 5, 1, Some(true)),
    ];
    let ticks = mining_round(&mut fields, &workers);
    assert_eq!(ticks[0].mined, 5);
    assert_eq!(ticks[1].mined, 2);
    assert_eq!(ticks[2].deposit, 5);
    assert_eq!(fields[0].remaining, 0);
    assert_eq!(fields[1].remaining, 50);
    let before: u32 = 7 + 50 + 5;
    let after: u32 = fields.iter().map(|f| f.remaining).sum::<u32>()
        + ticks.iter().map(|t| t.carried + t.deposit).sum::<u32>();
    assert_eq!(before, after);
}

#[test]
fn a_mining_tick_credits_the_economy_and_conserves_minerals() {
    let mut mm = Matchmaker::new();
    mm.insert_room(Room::new(4, None, GameMode::SoloVsAi, Some(1), None));
    let bank_before = mm.rooms[0].economy.get_minerals(Faction::Player1);
    let mut fields = vec![FieldStock { room_id: 4, remaining: 7 }, FieldStock { room_id: 4, remaining: 50 }];
    let workers = vec![
        miner(WorkerState::Mining, 0, 0, None),
        miner(WorkerState::MovingToBase, 5, 1, Some(true)),
        miner(WorkerState::MovingToBase, 4, 1, Some(true)),
    ];
    let ticks = mm.mining_tick(&mut fields, &workers);
    let bank_after = mm.rooms[0].economy.get_minerals(Faction::Player1);
    assert_eq!(bank_after, bank_before + 9);
    let before = 7 + 50 + 5 + 4 + bank_before;
    let after = fields.iter().map(|f| f.remaining).sum::<u32>()
        + ticks.iter().map(|t| t.carried).sum::<u32>()
        + bank_after;
    assert_eq!(before, after);
}
