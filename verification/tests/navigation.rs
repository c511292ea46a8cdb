use voidrift::navigation::{
    asteroid_expires, asteroid_respawn_ore, autopilot_arrival, is_being_mined, mining_action, returns_to_station,
    uses_mining_threshold, ArrivalAction, AutopilotTargetKind, MiningAction, MiningTargetStatus,
};
use voidrift::ore::LaserTier;
use voidrift::state::ShipState;

#[test]
fn arrivals_by_target() {
    assert_eq!(autopilot_arrival(AutopilotTargetKind::Asteroid, false), (ArrivalAction::StartMining, ShipState::Mining));
    assert_eq!(autopilot_arrival(AutopilotTargetKind::Berth, true), (ArrivalAction::DockWithBottle, ShipState::Navigating));
    assert_eq!(autopilot_arrival(AutopilotTargetKind::Berth, false), (ArrivalAction::DockWithCargo, ShipState::Navigating));
    assert_eq!(autopilot_arrival(AutopilotTargetKind::Station, false), (ArrivalAction::HubDock, ShipState::Docked));
    assert_eq!(autopilot_arrival(AutopilotTargetKind::Bottle, false), (ArrivalAction::CollectBottle, ShipState::Navigating));
    assert_eq!(autopilot_arrival(AutopilotTargetKind::Gone, false), (ArrivalAction::StartMining, ShipState::Mining));
    assert_eq!(autopilot_arrival(AutopilotTargetKind::NoTarget, false), (ArrivalAction::Idle, ShipState::Idle));
    assert!(uses_mining_threshold(AutopilotTargetKind::Asteroid));
    assert!(!uses_mining_threshold(AutopilotTargetKind::Berth));
}

#[test]
fn asteroid_lifecycle() {
    assert!(is_being_mined(&vec![None, Some(4), Some(9)], 9));
    assert!(!is_being_mined(&vec![None, Some(4)], 9));
    assert!(asteroid_expires(true, false, true));
    assert!(!asteroid_expires(false, true, true));
    assert!(asteroid_expires(false, true, false));
    assert!(!asteroid_expires(false, false, false));
}

#[test]
fn respawn_only_below_the_limit() {
    assert_eq!(asteroid_respawn_ore(5, 5), None);
    assert_eq!(asteroid_respawn_ore(6, 5), None);
    for _ in 0..20 {
        assert!(asteroid_respawn_ore(1, 5).is_some());
    }
}

#[test]
fn mining_decisions() {
    let b = LaserTier::Basic;
    let t = LaserTier::Tungsten;
    assert_eq!(mining_action(MiningTargetStatus::NoTarget, b, b, true, true), MiningAction::Search);
    assert_eq!(mining_action(MiningTargetStatus::Gone, b, b, false, true), MiningAction::Retarget);
    assert_eq!(mining_action(MiningTargetStatus::OutOfReach, b, b, false, true), MiningAction::LoseTarget);
    assert_eq!(mining_action(MiningTargetStatus::InReach, t, b, true, true), MiningAction::LaserTooWeak);
    assert_eq!(mining_action(MiningTargetStatus::InReach, t, t, true, false), MiningAction::MineAndAdoptOre);
    assert_eq!(mining_action(MiningTargetStatus::InReach, b, b, false, false), MiningAction::HoldOff);
    assert_eq!(mining_action(MiningTargetStatus::InReach, b, t, false, true), MiningAction::Mine);
    assert!(returns_to_station(true, true));
    assert!(returns_to_station(false, false));
    assert!(!returns_to_station(false, true));
}
