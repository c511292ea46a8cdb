use vstd::prelude::*;

verus! {

/// The kinds of ore an asteroid can carry.
#[derive(Clone, Copy, PartialEq, Eq, Debug, Structural)]
pub enum OreDeposit {
    Iron,
    Tungsten,
    Nickel,
    Aluminum,
}

/// Mining laser ratings, weakest first.
#[derive(Clone, Copy, PartialEq, Eq, Debug, Structural)]
pub enum LaserTier {
    Basic,
    Tungsten,
    Composite,
}

/// Law: of the ten respawn rolls, three give iron (0 to 2), three tungsten (3 to
/// 5), three nickel (6 to 8) and one aluminum (9).
pub proof fn law_respawn_odds(roll: u32)
    requires
        roll < 10,
    ensures
        spec_ore_for_roll(roll) == OreDeposit::Iron <==> roll < 3,
        spec_ore_for_roll(roll) == OreDeposit::Tungsten <==> 3 <= roll < 6,
        spec_ore_for_roll(roll) == OreDeposit::Nickel <==> 6 <= roll < 9,
        spec_ore_for_roll(roll) == OreDeposit::Aluminum <==> roll == 9,
{
}

/// Display name of an ore.
pub open spec fn spec_ore_name(ore: OreDeposit) -> Seq<char> {
    match ore {
        OreDeposit::Iron => "IRON"@,
        OreDeposit::Tungsten => "TUNGSTEN"@,
        OreDeposit::Nickel => "NICKEL"@,
        OreDeposit::Aluminum => "ALUMINUM"@,
    }
}

/// Key of the visual configuration section used for an ore.
pub open spec fn spec_ore_config_key(ore: OreDeposit) -> Seq<char> {
    match ore {
        OreDeposit::Iron => "metal"@,
        OreDeposit::Tungsten => "h3_gas"@,
        OreDeposit::Nickel => "void_essence"@,
        OreDeposit::Aluminum => "metal"@,
    }
}

/// The laser rating needed to mine an ore: every ore is mined with the basic laser.
pub open spec fn spec_ore_laser_required(ore: OreDeposit) -> LaserTier {
    LaserTier::Basic
}

/// Position of a laser tier in the ordering Basic < Tungsten < Composite.
pub open spec fn laser_rank(tier: LaserTier) -> nat {
    match tier {
        LaserTier::Basic => 0,
        LaserTier::Tungsten => 1,
        LaserTier::Composite => 2,
    }
}

/// Sector label shown on the map for asteroids of an ore.
pub open spec fn spec_ore_sector_id(ore: OreDeposit) -> Seq<char> {
    match ore {
        OreDeposit::Iron => "S1"@,
        OreDeposit::Tungsten => "S2"@,
        OreDeposit::Nickel => "S3"@,
        OreDeposit::Aluminum => "S4"@,
    }
}

/// The ore picked for a respawn roll in `0..10`: three chances each for iron,
/// tungsten and nickel, one for aluminum.
pub open spec fn spec_ore_for_roll(roll: u32) -> OreDeposit {
    if roll <= 2 {
        OreDeposit::Iron
    } else if roll <= 5 {
        OreDeposit::Tungsten
    } else if roll <= 8 {
        OreDeposit::Nickel
    } else {
        OreDeposit::Aluminum
    }
}

/// Display name of an ore.
pub fn ore_name(ore: &OreDeposit) -> (name: &'static str)
    ensures
        name@ == spec_ore_name(*ore),
{
    match ore {
        OreDeposit::Iron => "IRON",
        OreDeposit::Tungsten => "TUNGSTEN",
        OreDeposit::Nickel => "NICKEL",
        OreDeposit::Aluminum => "ALUMINUM",
    }
}

/// Key of the visual configuration section used for an ore.
pub fn ore_config_key(ore: &OreDeposit) -> (key: &'static str)
    ensures
        key@ == spec_ore_config_key(*ore),
{
    match ore {
        OreDeposit::Iron => "metal",
        OreDeposit::Tungsten => "h3_gas",
        OreDeposit::Nickel => "void_essence",
        OreDeposit::Aluminum => "metal",
    }
}

/// The laser rating needed to mine an ore.
pub fn ore_laser_required(ore: &OreDeposit) -> (tier: LaserTier)
    ensures
        tier == spec_ore_laser_required(*ore),
{
    match ore {
        OreDeposit::Iron => LaserTier::Basic,
        OreDeposit::Tungsten => LaserTier::Basic,
        OreDeposit::Nickel => LaserTier::Basic,
        OreDeposit::Aluminum => LaserTier::Basic,
    }
}

/// Whether a ship with laser `tier` may mine an asteroid that needs `required`:
/// exactly when its laser is at least as strong.
pub fn laser_permits(required: LaserTier, tier: LaserTier) -> (ok: bool)
    ensures
        ok == (laser_rank(tier) >= laser_rank(required)),
{
    match (required, tier) {
        (LaserTier::Basic, _) => true,
        (LaserTier::Tungsten, LaserTier::Tungsten) | (LaserTier::Tungsten, LaserTier::Composite) => true,
        (LaserTier::Composite, LaserTier::Composite) => true,
        _ => false,
    }
}

/// Whether an asteroid of this ore carries a laser requirement label:
/// tungsten and nickel asteroids do. The label reads what
/// `laser_requirement_label` gives for the ore's required laser.
pub fn ore_is_gated(ore: &OreDeposit) -> (gated: bool)
    ensures
        gated == (*ore == OreDeposit::Tungsten || *ore == OreDeposit::Nickel),
{
    match ore {
        OreDeposit::Iron => false,
        OreDeposit::Tungsten | OreDeposit::Nickel => true,
        OreDeposit::Aluminum => false,
    }
}

/// Text of the laser requirement label of a gated asteroid.
pub fn laser_requirement_label(required: LaserTier) -> (label: &'static str)
    ensures
        label@ == match required {
            LaserTier::Tungsten => "[TUNGSTEN LASER REQ]"@,
            LaserTier::Composite => "[COMPOSITE LASER REQ]"@,
            LaserTier::Basic => ""@,
        },
{
    match required {
        LaserTier::Tungsten => "[TUNGSTEN LASER REQ]",
        LaserTier::Composite => "[COMPOSITE LASER REQ]",
        LaserTier::Basic => "",
    }
}

/// Sector label shown on the map for asteroids of an ore.
pub fn ore_sector_id(ore: &OreDeposit) -> (id: &'static str)
    ensures
        id@ == spec_ore_sector_id(*ore),
{
    match ore {
        OreDeposit::Iron => "S1",
        OreDeposit::Tungsten => "S2",
        OreDeposit::Nickel => "S3",
        OreDeposit::Aluminum => "S4",
    }
}

/// The ore of a respawned asteroid for a roll in `0..10`.
pub fn ore_for_roll(roll: u32) -> (ore: OreDeposit)
    requires
        roll < 10,
    ensures
        ore == spec_ore_for_roll(roll),
{
    if roll <= 2 {
        OreDeposit::Iron
    } else if roll <= 5 {
        OreDeposit::Tungsten
    } else if roll <= 8 {
        OreDeposit::Nickel
    } else {
        OreDeposit::Aluminum
    }
}

/// Role of a drone.
#[derive(Clone, Copy, PartialEq, Eq, Debug, Structural)]
pub enum DroneClass {
    Mining,
    Scout,
}

impl Default for DroneClass {
    fn default() -> (c: DroneClass)
        ensures
            c == DroneClass::Mining,
    {
        DroneClass::Mining
    }
}

/// A drone: its class and its tier (Mk I is tier 1).
#[derive(Clone, Copy, PartialEq, Eq, Debug, Structural)]
pub struct Drone {
    pub class: DroneClass,
    pub tier: u8,
}

impl Default for Drone {
    fn default() -> (d: Drone)
        ensures
            d == (Drone { class: DroneClass::Mining, tier: 1 }),
    {
        Drone { class: DroneClass::Mining, tier: 1 }
    }
}

} // verus!
