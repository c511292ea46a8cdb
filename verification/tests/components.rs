use voidrift::ore::{
    laser_permits, laser_requirement_label, ore_config_key, ore_for_roll, ore_is_gated, ore_laser_required, ore_name, ore_sector_id,
    Drone, DroneClass, LaserTier, OreDeposit,
};
use voidrift::state::AutonomousShipState;

#[test]
fn test_drone_component_default_class_is_mining() {
    let drone = Drone::default();
    assert_eq!(drone.class, DroneClass::Mining);
    assert_eq!(drone.tier, 1);
}

#[test]
fn test_drone_class_eq() {
    assert_eq!(DroneClass::Mining, DroneClass::Mining);
    assert_eq!(DroneClass::Scout, DroneClass::Scout);
    assert_ne!(DroneClass::Mining, DroneClass::Scout);
    assert_ne!(DroneClass::Scout, DroneClass::Mining);
}

#[test]
fn test_autonomous_ship_query_includes_drone() {
    let drone = Drone { class: DroneClass::Mining, tier: 1 };
    let ship_state = AutonomousShipState::Holding;
    let ship_cargo: f32 = 0.0;
    let ship_cargo_type = OreDeposit::Iron;

    assert_eq!(drone.class, DroneClass::Mining);
    assert_eq!(ship_state, AutonomousShipState::Holding);
    assert_eq!(ship_cargo, 0.0);
    assert_eq!(ship_cargo_type, OreDeposit::Iron);
}

#[test]
fn test_spawn_drone_attaches_drone_component() {
    let drone = Drone { class: DroneClass::Mining, tier: 1 };

    assert_eq!(drone.class, DroneClass::Mining);
    assert_eq!(drone.tier, 1);

    let default_drone = Drone::default();
    assert_eq!(default_drone.class, DroneClass::Mining);
    assert_eq!(default_drone.tier, 1);
}

#[test]
fn test_ore_deposit_lookup_consistent() {
    assert_eq!(ore_config_key(&OreDeposit::Iron), "metal");
    assert_eq!(ore_config_key(&OreDeposit::Tungsten), "h3_gas");
    assert_eq!(ore_config_key(&OreDeposit::Nickel), "void_essence");
    assert_eq!(ore_config_key(&OreDeposit::Aluminum), "metal");

    assert_eq!(ore_name(&OreDeposit::Iron), "IRON");
    assert_eq!(ore_name(&OreDeposit::Tungsten), "TUNGSTEN");
    assert_eq!(ore_name(&OreDeposit::Nickel), "NICKEL");
    assert_eq!(ore_name(&OreDeposit::Aluminum), "ALUMINUM");

    assert_eq!(ore_laser_required(&OreDeposit::Iron), LaserTier::Basic);
    assert_eq!(ore_laser_required(&OreDeposit::Tungsten), LaserTier::Basic);
    assert_eq!(ore_laser_required(&OreDeposit::Nickel), LaserTier::Basic);
    assert_eq!(ore_laser_required(&OreDeposit::Aluminum), LaserTier::Basic);
}

#[test]
fn basic_laser_mines_every_ore() {
    for ore in [OreDeposit::Iron, OreDeposit::Tungsten, OreDeposit::Nickel, OreDeposit::Aluminum] {
        assert!(laser_permits(ore_laser_required(&ore), LaserTier::Basic));
        assert_eq!(laser_requirement_label(ore_laser_required(&ore)), "");
    }
    assert!(!ore_is_gated(&OreDeposit::Iron));
    assert!(ore_is_gated(&OreDeposit::Tungsten));
    assert!(ore_is_gated(&OreDeposit::Nickel));
    assert!(!ore_is_gated(&OreDeposit::Aluminum));
}

#[test]
fn laser_tiers_are_ordered() {
    assert!(laser_permits(LaserTier::Basic, LaserTier::Composite));
    assert!(laser_permits(LaserTier::Tungsten, LaserTier::Tungsten));
    assert!(laser_permits(LaserTier::Tungsten, LaserTier::Composite));
    assert!(!laser_permits(LaserTier::Tungsten, LaserTier::Basic));
    assert!(!laser_permits(LaserTier::Composite, LaserTier::Tungsten));
}

#[test]
fn ore_roll_covers_all_ores() {
    let rolled: Vec<OreDeposit> = (0..10).map(ore_for_roll).collect();
    let (i, t, n, a) = (OreDeposit::Iron, OreDeposit::Tungsten, OreDeposit::Nickel, OreDeposit::Aluminum);
    assert_eq!(rolled, vec![i, i, i, t, t, t, n, n, n, a]);
}

#[test]
fn ore_sectors_are_named() {
    assert_eq!(ore_sector_id(&OreDeposit::Iron), "S1");
    assert_eq!(ore_sector_id(&OreDeposit::Tungsten), "S2");
    assert_eq!(ore_sector_id(&OreDeposit::Nickel), "S3");
    assert_eq!(ore_sector_id(&OreDeposit::Aluminum), "S4");
}
