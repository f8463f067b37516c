use vstd::prelude::*;
use crate::components::TankMode;

verus! {

/// The mode a siege-mode toggle puts a tank into: a mobile tank starts setting up, a sieged
/// tank starts packing up, and a tank that is already transforming ignores the order (`None`).
pub open spec fn toggled(mode: TankMode) -> Option<TankMode> {
    match mode {
        TankMode::Tank => Some(TankMode::TransformingToSiege),
        TankMode::Siege => Some(TankMode::TransformingToTank),
        _ => None,
    }
}

/// The mode a tank reaches when its transformation time is up; a tank that is not transforming
/// keeps its mode.
pub open spec fn transformed(mode: TankMode) -> TankMode {
    match mode {
        TankMode::TransformingToSiege => TankMode::Siege,
        TankMode::TransformingToTank => TankMode::Tank,
        _ => mode,
    }
}

/// Applies a siege-mode toggle order to a tank; `None` when the tank ignores it.
pub fn toggle_siege(mode: TankMode) -> (res: Option<TankMode>)
    ensures
        res == toggled(mode),
{
    match mode {
        TankMode::Tank => Some(TankMode::TransformingToSiege),
        TankMode::Siege => Some(TankMode::TransformingToTank),
        _ => None,
    }
}

/// Ends a tank's transformation once its transformation time is up.
pub fn finish_transform(mode: TankMode) -> (res: TankMode)
    ensures
        res == transformed(mode),
{
    match mode {
        TankMode::TransformingToSiege => TankMode::Siege,
        TankMode::TransformingToTank => TankMode::Tank,
        _ => mode,
    }
}

/// Toggling siege mode twice, each time letting the transformation finish, brings a settled
/// tank back to the mode it started in; a toggle always leads to the other settled mode.
pub proof fn law_siege_toggle_round_trip(mode: TankMode)
    requires
        mode == TankMode::Tank || mode == TankMode::Siege,
    ensures
        toggled(mode) is Some,
        transformed(toggled(mode)->Some_0) != mode,
        toggled(transformed(toggled(mode)->Some_0)) is Some,
        transformed(toggled(transformed(toggled(mode)->Some_0))->Some_0) == mode,
{
}

} // verus!
