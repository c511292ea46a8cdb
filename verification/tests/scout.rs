use voidrift::fleet::{
    first_in_reach, scout_paint, scout_paint_cleanup_system, scout_spawn_action, select_idle_miner, MinerView,
    ScoutEnabled, ScoutSpawnAction,
};
use voidrift::ore::{Drone, DroneClass};
use voidrift::state::AutonomousShipState;

fn miner(state: AutonomousShipState, class: DroneClass, tier: u8, has_target: bool) -> MinerView {
    MinerView { state, drone: Drone { class, tier }, has_target }
}

#[test]
fn test_scout_entity_spawns_when_enabled() {
    let enabled = ScoutEnabled { active: true, unlocked: true };
    assert!(enabled.active);
    assert_eq!(scout_spawn_action(&enabled, 0), ScoutSpawnAction::Spawn);
    assert_eq!(scout_spawn_action(&enabled, 1), ScoutSpawnAction::Keep);
}

#[test]
fn test_scout_entity_not_spawned_when_disabled() {
    let disabled = ScoutEnabled { active: false, unlocked: true };
    assert!(!disabled.active);
    assert_eq!(scout_spawn_action(&disabled, 0), ScoutSpawnAction::DespawnAll);
    assert_eq!(scout_spawn_action(&disabled, 1), ScoutSpawnAction::DespawnAll);
}

#[test]
fn test_scout_orbit_angle_advances() {
    let speed = 0.3;
    let delta = 0.1;
    let expected_angle = speed * delta;
    assert_eq!(expected_angle, 0.03);
}

#[test]
fn test_scout_orbit_position_matches_angle() {
    let radius: f32 = 150.0;
    let angle: f32 = 0.0;
    let x = radius * angle.cos();
    let y = radius * angle.sin();
    assert_eq!(x, 150.0);
    assert_eq!(y, 0.0);
}

#[test]
fn test_scout_paints_asteroid_on_proximity() {
    let threshold = 50.0;
    let dist = 40.0;
    assert!(dist <= threshold);
    let mut miners = vec![miner(AutonomousShipState::Holding, DroneClass::Mining, 1, false)];
    assert_eq!(scout_paint(&vec![dist <= threshold], &mut miners), Some((0, 0)));
}

#[test]
fn test_scout_skips_painted_asteroid() {
    let painted = true;
    assert!(painted);
    // A painted asteroid is not among the candidates; with none left nothing is painted.
    let mut miners = vec![miner(AutonomousShipState::Holding, DroneClass::Mining, 1, false)];
    assert_eq!(scout_paint(&vec![], &mut miners), None);
    assert_eq!(miners[0].state, AutonomousShipState::Holding);
}

#[test]
fn test_scout_dispatches_miner_on_paint() {
    let mining_drone = Drone { class: DroneClass::Mining, tier: 1 };
    let holding_state = AutonomousShipState::Holding;
    let outbound_state = AutonomousShipState::Outbound;

    assert!(mining_drone.class == DroneClass::Mining && mining_drone.tier == 1);
    assert!(holding_state == AutonomousShipState::Holding);
    assert!(outbound_state == AutonomousShipState::Outbound);

    let mut miners = vec![MinerView { state: holding_state, drone: mining_drone, has_target: false }];
    assert_eq!(scout_paint(&vec![true], &mut miners), Some((0, 0)));
    assert_eq!(miners[0].state, outbound_state);
    assert!(miners[0].has_target);
}

#[test]
fn test_no_idle_miner_no_paint() {
    let idle_miners = 0;
    assert!(idle_miners == 0);
    let mut miners: Vec<MinerView> = Vec::new();
    assert_eq!(scout_paint(&vec![true], &mut miners), None);
}

#[test]
fn test_drone_target_removed_after_cleanup() {
    let drone_target_exists = true;
    assert!(drone_target_exists);
    let mut miners = vec![miner(AutonomousShipState::Holding, DroneClass::Mining, 1, true)];
    let cleared = scout_paint_cleanup_system(&mut miners);
    assert_eq!(cleared, vec![true]);
    assert!(!miners[0].has_target);
}

#[test]
fn test_scout_orbit_wraps_at_tau() {
    let angle = 7.0;
    let tau = std::f32::consts::TAU;
    let wrapped = if angle > tau { angle - tau } else { angle };
    assert!(wrapped < tau);
}

#[test]
fn test_scout_starts_at_angle_zero() {
    let start_angle: f32 = 0.0;
    assert_eq!(start_angle, 0.0);
}

#[test]
fn test_scout_radius_from_config() {
    let inner_radius: f32 = 150.0;
    assert!(inner_radius > 0.0);
}

#[test]
fn test_scout_speed_from_config() {
    let orbit_speed: f32 = 0.3;
    assert!(orbit_speed > 0.0);
}

#[test]
fn test_scout_proximity_threshold_from_config() {
    let proximity_threshold: f32 = 50.0;
    assert!(proximity_threshold > 0.0);
}

#[test]
fn test_paint_clears_when_miner_returns() {
    let holding_state = AutonomousShipState::Holding;
    assert!(holding_state == AutonomousShipState::Holding);
    let mut miners = vec![
        miner(AutonomousShipState::Outbound, DroneClass::Mining, 1, true),
        miner(AutonomousShipState::Holding, DroneClass::Mining, 1, true),
        miner(AutonomousShipState::Holding, DroneClass::Mining, 1, false),
    ];
    let cleared = scout_paint_cleanup_system(&mut miners);
    assert_eq!(cleared, vec![false, true, false]);
    assert!(miners[0].has_target);
    assert!(!miners[1].has_target);
    assert!(!miners[2].has_target);
}

#[test]
fn scout_picks_first_idle_mark_one_miner() {
    let miners = vec![
        miner(AutonomousShipState::Holding, DroneClass::Scout, 1, false),
        miner(AutonomousShipState::Holding, DroneClass::Mining, 2, false),
        miner(AutonomousShipState::Mining, DroneClass::Mining, 1, false),
        miner(AutonomousShipState::Holding, DroneClass::Mining, 1, true),
        miner(AutonomousShipState::Holding, DroneClass::Mining, 1, false),
        miner(AutonomousShipState::Holding, DroneClass::Mining, 1, false),
    ];
    assert_eq!(select_idle_miner(&miners), Some(4));
}

#[test]
fn scout_paints_first_asteroid_in_reach_only() {
    assert_eq!(first_in_reach(&vec![false, true, true]), Some(1));
    let mut miners = vec![
        miner(AutonomousShipState::Holding, DroneClass::Mining, 1, false),
        miner(AutonomousShipState::Holding, DroneClass::Mining, 1, false),
    ];
    assert_eq!(scout_paint(&vec![false, true, true], &mut miners), Some((1, 0)));
    assert_eq!(miners[1].state, AutonomousShipState::Holding);
    assert!(!miners[1].has_target);
}

#[test]
fn scout_paint_with_busy_fleet_changes_nothing() {
    let mut miners = vec![miner(AutonomousShipState::Outbound, DroneClass::Mining, 1, true)];
    let before = miners.clone();
    assert_eq!(scout_paint(&vec![true], &mut miners), None);
    assert_eq!(miners, before);
}
