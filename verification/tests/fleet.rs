use voidrift::fleet::{
    autonomous_ship_step, first_drone_berth, held_at_berth, opening_ship_drone, AutonomousAction, AutonomousInput,
};
use voidrift::ore::{Drone, DroneClass};
use voidrift::state::{AutonomousShipState, BerthType};

#[test]
fn autonomous_ship_runs_its_cycle() {
    let travelling = AutonomousInput { at_mining_site: false, at_berth: false, cargo_full: false };
    let arrived = AutonomousInput { at_mining_site: true, at_berth: true, cargo_full: true };
    let mut s = AutonomousShipState::Holding;
    assert_eq!(autonomous_ship_step(&mut s, &travelling), AutonomousAction::Undock);
    assert_eq!(s, AutonomousShipState::Outbound);
    assert_eq!(autonomous_ship_step(&mut s, &travelling), AutonomousAction::Advance);
    assert_eq!(s, AutonomousShipState::Outbound);
    assert_eq!(autonomous_ship_step(&mut s, &arrived), AutonomousAction::Stay);
    assert_eq!(s, AutonomousShipState::Mining);
    assert_eq!(autonomous_ship_step(&mut s, &travelling), AutonomousAction::Mine);
    assert_eq!(s, AutonomousShipState::Mining);
    assert_eq!(autonomous_ship_step(&mut s, &arrived), AutonomousAction::Mine);
    assert_eq!(s, AutonomousShipState::Returning);
    assert_eq!(autonomous_ship_step(&mut s, &travelling), AutonomousAction::Advance);
    assert_eq!(autonomous_ship_step(&mut s, &arrived), AutonomousAction::DockAtDroneBerth);
    assert_eq!(s, AutonomousShipState::Unloading);
    assert_eq!(autonomous_ship_step(&mut s, &travelling), AutonomousAction::Unload);
    assert_eq!(s, AutonomousShipState::Holding);
}

#[test]
fn docked_ships_held_while_unloading_or_holding() {
    assert!(held_at_berth(AutonomousShipState::Holding));
    assert!(held_at_berth(AutonomousShipState::Unloading));
    assert!(!held_at_berth(AutonomousShipState::Outbound));
    assert!(!held_at_berth(AutonomousShipState::Mining));
    assert!(!held_at_berth(AutonomousShipState::Returning));
}

#[test]
fn drone_berth_lookup() {
    assert_eq!(first_drone_berth(&vec![BerthType::Player, BerthType::Drone, BerthType::Drone]), Some(1));
    assert_eq!(first_drone_berth(&vec![BerthType::Player, BerthType::Open]), None);
}

#[test]
fn opening_ship_becomes_mark_one_miner() {
    let m = opening_ship_drone();
    assert_eq!(m.state, AutonomousShipState::Holding);
    assert_eq!(m.drone, Drone { class: DroneClass::Mining, tier: 1 });
    assert!(!m.has_target);
}
