use mini_rts::abilities::{finish_transform, toggle_siege};
use mini_rts::components::TankMode;

#[test]
fn siege_toggle_cycle() {
    let setting_up = toggle_siege(TankMode::Tank).unwrap();
    assert_eq!(setting_up, TankMode::TransformingToSiege);
    // A tank that is transforming ignores further toggles.
    assert_eq!(toggle_siege(setting_up), None);
    let sieged = finish_transform(setting_up);
    assert_eq!(sieged, TankMode::Siege);
    let packing = toggle_siege(sieged).unwrap();
    assert_eq!(packing, TankMode::TransformingToTank);
    assert_eq!(toggle_siege(packing), None);
    assert_eq!(finish_transform(packing), TankMode::Tank);
}

#[test]
fn settled_tanks_do_not_transform_on_their_own() {
    assert_eq!(finish_transform(TankMode::Tank), TankMode::Tank);
    assert_eq!(finish_transform(TankMode::Siege), TankMode::Siege);
}
