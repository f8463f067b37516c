use vstd::prelude::*;
use crate::components::{SoldierState, TankMode};

verus! {

/// What a marching unit does with its current waypoint this tick.
#[derive(Debug, Clone, Copy, PartialEq, Eq, Structural)]
pub enum WaypointStep {
    /// Switch to the next waypoint (the unit stands still this tick).
    NextWaypoint,
    /// The order is done: stop and drop it.
    Arrive,
    /// Keep walking toward the current goal.
    Walk,
}

/// Which leg of a patrol a unit walks.
#[derive(Debug, Clone, Copy, PartialEq, Eq, Structural)]
pub enum PatrolLeg {
    ToTarget,
    ToOrigin,
}

/// A unit with a move order stands still this tick: its room is not running, it is a tank that
/// is not mobile, or it is on an attack move and busy with an enemy. `tank` holds a tank's mode
/// and whether it has a target; `soldier` whether a soldier has a target, and its state.
pub open spec fn halts(
    running: bool,
    tank: Option<(TankMode, bool)>,
    soldier: Option<(bool, SoldierState)>,
    is_attack_move: bool,
) -> bool {
    ||| !running
    ||| (tank matches Some(t) && t.0 != TankMode::Tank)
    ||| is_attack_move && (soldier matches Some(s) && (s.0 || s.1 == SoldierState::Attacking || s.1
        == SoldierState::ChasingTarget))
    ||| is_attack_move && (tank matches Some(t) && t.1)
}

/// Whether a unit with a move order stands still this tick (see `halts`).
pub fn march_halted(
    running: bool,
    tank: Option<(TankMode, bool)>,
    soldier: Option<(bool, SoldierState)>,
    is_attack_move: bool,
) -> (res: bool)
    ensures
        res == halts(running, tank, soldier, is_attack_move),
{
    if !running {
        return true;
    }
    if let Some((mode, _)) = tank {
        if mode != TankMode::Tank {
            return true;
        }
    }
    if is_attack_move {
        if let Some((has_target, state)) = soldier {
            if has_target || state == SoldierState::Attacking || state == SoldierState::ChasingTarget {
                return true;
            }
        }
        if let Some((_, has_target)) = tank {
            if has_target {
                return true;
            }
        }
    }
    false
}

/// The waypoint rule: close to an intermediate waypoint a unit switches to the next one; on
/// the last one it stops once it has arrived; otherwise it walks on. `near_waypoint` and
/// `arrived` are measured by the caller.
pub open spec fn waypoint_rule(on_last: bool, near_waypoint: bool, arrived: bool) -> WaypointStep {
    if !on_last && near_waypoint {
        WaypointStep::NextWaypoint
    } else if on_last && arrived {
        WaypointStep::Arrive
    } else {
        WaypointStep::Walk
    }
}

/// Applies the waypoint rule.
pub fn waypoint_step(on_last: bool, near_waypoint: bool, arrived: bool) -> (res: WaypointStep)
    ensures
        res == waypoint_rule(on_last, near_waypoint, arrived),
{
    if !on_last && near_waypoint {
        WaypointStep::NextWaypoint
    } else if on_last && arrived {
        WaypointStep::Arrive
    } else {
        WaypointStep::Walk
    }
}

/// The leg a patrolling unit without a move order takes next, and whether it is heading for
/// the patrol target afterwards: it turns back at either end of its route.
pub open spec fn patrol_rule(heading_to_target: bool, at_target: bool, at_origin: bool) -> (
    bool,
    PatrolLeg,
) {
    if heading_to_target {
        if at_target {
            (false, PatrolLeg::ToOrigin)
        } else {
            (true, PatrolLeg::ToTarget)
        }
    } else if at_origin {
        (true, PatrolLeg::ToTarget)
    } else {
        (false, PatrolLeg::ToOrigin)
    }
}

/// Applies the patrol rule.
pub fn patrol_turn(heading_to_target: bool, at_target: bool, at_origin: bool) -> (res: (
    bool,
    PatrolLeg,
))
    ensures
        res == patrol_rule(heading_to_target, at_target, at_origin),
{
    if heading_to_target {
        if at_target {
            (false, PatrolLeg::ToOrigin)
        } else {
            (true, PatrolLeg::ToTarget)
        }
    } else if at_origin {
        (true, PatrolLeg::ToTarget)
    } else {
        (false, PatrolLeg::ToOrigin)
    }
}

/// A patrolling unit always heads for the end it is flagged to head for, and it only turns
/// around at the end it was heading for.
pub proof fn law_patrol_consistent(heading_to_target: bool, at_target: bool, at_origin: bool)
    ensures
        ({
            let (h, leg) = patrol_rule(heading_to_target, at_target, at_origin);
            &&& h <==> leg == PatrolLeg::ToTarget
            &&& h != heading_to_target ==> (if heading_to_target {
                at_target
            } else {
                at_origin
            })
        }),
{
}

} // verus!
