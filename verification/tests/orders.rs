use mini_rts::components::{SoldierState, WorkerState};
use mini_rts::faction::Faction;
use mini_rts::orders::{
    apply_order, issue_order, issue_order_each, match_requests, obeying_units, FieldUnit, OrderedUnit, SoldierPart, StanceKind,
    UnitOrder, WorkerPart,
};

fn soldier() -> OrderedUnit {
    OrderedUnit {
        soldier: Some(SoldierPart { state: SoldierState::Attacking, target: Some(40) }),
        worker: None,
        stance: Some(StanceKind::Aggressive),
        has_move_order: false,
    }
}

fn worker() -> OrderedUnit {
    OrderedUnit {
        soldier: None,
        worker: Some(WorkerPart { state: WorkerState::Mining, target_field: Some(9) }),
        stance: None,
        has_move_order: false,
    }
}

#[test]
fn move_orders() {
    let s = apply_order(soldier(), UnitOrder::Move { attack: false });
    assert_eq!(s.soldier, Some(SoldierPart { state: SoldierState::MovingToGround, target: None }));
    assert!(s.has_move_order);
    let a = apply_order(soldier(), UnitOrder::Move { attack: true });
    assert_eq!(a.soldier.unwrap().state, SoldierState::AttackMoving);
    let w = apply_order(worker(), UnitOrder::Move { attack: false });
    assert_eq!(w.worker, Some(WorkerPart { state: WorkerState::Idle, target_field: None }));
    assert_eq!(w.stance, None);
}

#[test]
fn patrol_attack_and_harvest() {
    let p = apply_order(soldier(), UnitOrder::Patrol);
    assert_eq!(p.stance, Some(StanceKind::Patrol));
    assert_eq!(p.soldier.unwrap(), SoldierPart { state: SoldierState::AttackMoving, target: None });
    // A patrol does not touch a worker's mining.
    assert_eq!(apply_order(worker(), UnitOrder::Patrol).worker, worker().worker);
    let mut moving = soldier();
    moving.has_move_order = true;
    let t = apply_order(moving, UnitOrder::AttackTarget { target: 77 });
    assert_eq!(t.soldier.unwrap(), SoldierPart { state: SoldierState::ChasingTarget, target: Some(77) });
    assert!(!t.has_move_order);
    let h = apply_order(worker(), UnitOrder::Harvest { field: 12 });
    assert_eq!(h.worker.unwrap(), WorkerPart { state: WorkerState::MovingToResource, target_field: Some(12) });
}

#[test]
fn stop_and_hold() {
    let mut s = soldier();
    s.has_move_order = true;
    s.stance = Some(StanceKind::Patrol);
    let stopped = apply_order(s, UnitOrder::Stop);
    assert_eq!(stopped.soldier.unwrap(), SoldierPart { state: SoldierState::Idle, target: None });
    assert_eq!(stopped.stance, Some(StanceKind::Aggressive));
    assert!(!stopped.has_move_order);
    // Stop idles a worker but leaves its field assignment.
    assert_eq!(
        apply_order(worker(), UnitOrder::Stop).worker,
        Some(WorkerPart { state: WorkerState::Idle, target_field: Some(9) })
    );
    let held = apply_order(worker(), UnitOrder::HoldPosition);
    assert_eq!(held.stance, Some(StanceKind::HoldPosition));
    assert_eq!(held.worker, worker().worker);
    let hs = apply_order(s, UnitOrder::HoldPosition);
    assert_eq!(hs.soldier.unwrap().state, SoldierState::HoldingPosition);
}

#[test]
fn repeating_an_order_changes_nothing() {
    for order in [
        UnitOrder::Move { attack: true },
        UnitOrder::Patrol,
        UnitOrder::AttackTarget { target: 3 },
        UnitOrder::Harvest { field: 4 },
        UnitOrder::Stop,
        UnitOrder::HoldPosition,
    ] {
        for u in [soldier(), worker()] {
            let once = apply_order(u, order);
            assert_eq!(apply_order(once, order), once);
        }
    }
}

#[test]
fn only_own_units_in_the_room_obey() {
    let units = vec![
        FieldUnit { net_id: 1, faction: Faction::Player1, room_id: 5 },
        FieldUnit { net_id: 2, faction: Faction::Player2, room_id: 5 },
        FieldUnit { net_id: 3, faction: Faction::Player1, room_id: 6 },
        FieldUnit { net_id: 4, faction: Faction::Player1, room_id: 5 },
    ];
    assert_eq!(obeying_units(&units, &vec![4, 2, 3, 1], Faction::Player1, 5), vec![0, 3]);
    assert_eq!(
        match_requests(&units, &vec![4, 2, 9, 1], Faction::Player1, 5),
        vec![Some(3), None, None, Some(0)]
    );
}

fn field_unit(net_id: u32, faction: Faction, room_id: u32) -> FieldUnit {
    FieldUnit { net_id, faction, room_id }
}

#[test]
fn only_commandable_units_change() {
    let field = vec![
        field_unit(1, Faction::Player1, 3),
        field_unit(2, Faction::Player2, 3),
        field_unit(3, Faction::Player1, 4),
        field_unit(4, Faction::Player1, 3),
    ];
    let before = vec![soldier(), soldier(), soldier(), worker()];
    let mut units = before.clone();
    let taken = issue_order(&field, &mut units, &vec![1, 2, 3], Faction::Player1, 3, UnitOrder::Stop);
    assert_eq!(taken, vec![0]);
    assert_eq!(units[0], apply_order(before[0], UnitOrder::Stop));
    assert_eq!(&units[1..], &before[1..]);

    let mut units = before.clone();
    let order = UnitOrder::Move { attack: true };
    let matched = issue_order_each(&field, &mut units, &vec![4, 2, 1, 4], Faction::Player1, 3, order);
    assert_eq!(matched, vec![Some(3), None, Some(0), Some(3)]);
    assert_eq!(units[0], apply_order(before[0], order));
    assert_eq!(units[3], apply_order(before[3], order));
    assert_eq!(units[1], before[1]);
    assert_eq!(units[2], before[2]);
}
