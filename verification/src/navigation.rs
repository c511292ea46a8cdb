use vstd::prelude::*;
use crate::ore::{laser_permits, laser_rank, spec_ore_for_roll, ore_for_roll, LaserTier, OreDeposit};
use crate::random::random_below;
use crate::state::ShipState;

verus! {

/// What a player-dispatched ship is flying to.
#[derive(Clone, Copy, PartialEq, Eq, Debug, Structural)]
pub enum AutopilotTargetKind {
    /// An asteroid that still exists.
    Asteroid,
    /// A station berth.
    Berth,
    /// The station's hub (only the opening ship docks there).
    Station,
    /// The bottle drifting in space.
    Bottle,
    /// A target that no longer exists (an asteroid that was removed).
    Gone,
    /// No target at all.
    NoTarget,
}

/// What happens when a ship reaches its destination.
#[derive(Clone, Copy, PartialEq, Eq, Debug, Structural)]
pub enum ArrivalAction {
    /// The ship starts mining.
    StartMining,
    /// The ship docks at the berth carrying the bottle (it then leaves the world).
    DockWithBottle,
    /// The ship docks at the berth with its cargo (it then leaves the world).
    DockWithCargo,
    /// The opening ship docks at the hub with an empty hold and stays.
    HubDock,
    /// The ship picks up the bottle and flies back to a berth.
    CollectBottle,
    /// The ship has nowhere to go and idles.
    Idle,
}

/// Whether the ship counts as arrived with the tighter mining distance: only
/// when flying to an asteroid.
pub fn uses_mining_threshold(kind: AutopilotTargetKind) -> (mining: bool)
    ensures
        mining == (kind == AutopilotTargetKind::Asteroid),
{
    match kind {
        AutopilotTargetKind::Asteroid => true,
        _ => false,
    }
}

/// The arrival of a navigating ship, by what it flew to.
pub open spec fn spec_arrival(kind: AutopilotTargetKind, carrying_bottle: bool) -> (ArrivalAction, ShipState) {
    match kind {
        AutopilotTargetKind::Asteroid => (ArrivalAction::StartMining, ShipState::Mining),
        AutopilotTargetKind::Berth => if carrying_bottle {
            (ArrivalAction::DockWithBottle, ShipState::Navigating)
        } else {
            (ArrivalAction::DockWithCargo, ShipState::Navigating)
        },
        AutopilotTargetKind::Station => (ArrivalAction::HubDock, ShipState::Docked),
        AutopilotTargetKind::Bottle => (ArrivalAction::CollectBottle, ShipState::Navigating),
        AutopilotTargetKind::Gone => (ArrivalAction::StartMining, ShipState::Mining),
        AutopilotTargetKind::NoTarget => (ArrivalAction::Idle, ShipState::Idle),
    }
}

/// What a navigating ship does on arrival, and its state afterwards: at an
/// asteroid it mines (also when the asteroid is gone, so that mining may pick
/// another or send it home); at a berth it docks with the bottle or its cargo;
/// at the hub it docks; at the bottle it picks it up and flies on; without a
/// target it idles.
pub fn autopilot_arrival(kind: AutopilotTargetKind, carrying_bottle: bool) -> (arrival: (ArrivalAction, ShipState))
    ensures
        arrival == spec_arrival(kind, carrying_bottle),
{
    match kind {
        AutopilotTargetKind::Asteroid => (ArrivalAction::StartMining, ShipState::Mining),
        AutopilotTargetKind::Berth => if carrying_bottle {
            (ArrivalAction::DockWithBottle, ShipState::Navigating)
        } else {
            (ArrivalAction::DockWithCargo, ShipState::Navigating)
        },
        AutopilotTargetKind::Station => (ArrivalAction::HubDock, ShipState::Docked),
        AutopilotTargetKind::Bottle => (ArrivalAction::CollectBottle, ShipState::Navigating),
        AutopilotTargetKind::Gone => (ArrivalAction::StartMining, ShipState::Mining),
        AutopilotTargetKind::NoTarget => (ArrivalAction::Idle, ShipState::Idle),
    }
}

/// Law: a ship that reaches a berth docks with exactly one of the bottle or
/// its cargo, by whether it carries the bottle; only the hub leaves a ship docked.
pub proof fn law_berth_arrival_docks_once(kind: AutopilotTargetKind, carrying_bottle: bool)
    ensures
        kind == AutopilotTargetKind::Berth ==> (spec_arrival(kind, carrying_bottle).0 == ArrivalAction::DockWithBottle
            <==> carrying_bottle),
        kind == AutopilotTargetKind::Berth ==> (spec_arrival(kind, carrying_bottle).0 == ArrivalAction::DockWithCargo
            <==> !carrying_bottle),
        (spec_arrival(kind, carrying_bottle).1 == ShipState::Docked) <==> (kind == AutopilotTargetKind::Station),
{
}

/// Whether some ship is mining the asteroid `asteroid` (ships' targets by id).
pub fn is_being_mined(targets: &Vec<Option<u64>>, asteroid: u64) -> (mined: bool)
    ensures
        mined == exists|j: int| 0 <= j < targets@.len() && #[trigger] targets@[j] == Some(asteroid),
{
    let mut i: usize = 0;
    while i < targets.len()
        invariant
            0 <= i <= targets@.len(),
            forall|j: int| 0 <= j < i ==> #[trigger] targets@[j] != Some(asteroid),
        decreases targets@.len() - i,
    {
        if targets[i] == Some(asteroid) {
            return true;
        }
        i += 1;
    }
    false
}

/// Whether an asteroid disintegrates: once depleted, or once its lifespan is
/// over while no ship mines it.
pub open spec fn spec_expires(depleted: bool, lifespan_over: bool, being_mined: bool) -> bool {
    depleted || (lifespan_over && !being_mined)
}

/// Whether an asteroid disintegrates (see `spec_expires`).
pub fn asteroid_expires(depleted: bool, lifespan_over: bool, being_mined: bool) -> (gone: bool)
    ensures
        gone == spec_expires(depleted, lifespan_over, being_mined),
{
    depleted || (lifespan_over && !being_mined)
}

/// Law: an asteroid a ship is mining is only removed once it is depleted, and
/// a depleted asteroid is always removed.
pub proof fn law_mined_asteroid_stays_until_depleted(depleted: bool, lifespan_over: bool, being_mined: bool)
    ensures
        being_mined ==> (spec_expires(depleted, lifespan_over, being_mined) <==> depleted),
        depleted ==> spec_expires(depleted, lifespan_over, being_mined),
{
}

/// When the respawn timer runs out: below the station's limit of active
/// asteroids an asteroid of a randomly rolled ore is spawned (three chances in
/// ten each for iron, tungsten and nickel, one for aluminum); at the limit none
/// is. The roll is chance.
pub fn asteroid_respawn_ore(active: u32, max_active: u32) -> (ore: Option<OreDeposit>)
    ensures
        ore is None <==> active >= max_active,
        ore matches Some(o) ==> exists|roll: u32| roll < 10 && o == spec_ore_for_roll(roll),
{
    if active >= max_active {
        None
    } else {
        let roll = random_below(10) as u32;
        let o = ore_for_roll(roll);
        Some(o)
    }
}

/// Where a mining ship's target stands this frame.
#[derive(Clone, Copy, PartialEq, Eq, Debug, Structural)]
pub enum MiningTargetStatus {
    /// The ship has no target.
    NoTarget,
    /// Its target no longer exists.
    Gone,
    /// Its target is too far to mine.
    OutOfReach,
    /// Its target is within mining reach.
    InReach,
}

/// What a mining ship does with its target this frame.
#[derive(Clone, Copy, PartialEq, Eq, Debug, Structural)]
pub enum MiningAction {
    /// Looks for the nearest asteroid within reach that suits its hold.
    Search,
    /// Looks for the nearest asteroid of its hold's ore.
    Retarget,
    /// Drops the target.
    LoseTarget,
    /// Its laser is too weak: it stops (idles) and the player is warned.
    LaserTooWeak,
    /// The asteroid's ore differs from its hold's: it waits this frame.
    HoldOff,
    /// Mines, its hold keeping its ore.
    Mine,
    /// Mines into an empty hold, which takes the asteroid's ore.
    MineAndAdoptOre,
}

/// What a mining ship does with its target (see `mining_action`).
pub open spec fn spec_mining_action(
    status: MiningTargetStatus,
    required: LaserTier,
    tier: LaserTier,
    hold_empty: bool,
    same_ore: bool,
) -> MiningAction {
    match status {
        MiningTargetStatus::NoTarget => MiningAction::Search,
        MiningTargetStatus::Gone => MiningAction::Retarget,
        MiningTargetStatus::OutOfReach => MiningAction::LoseTarget,
        MiningTargetStatus::InReach => if laser_rank(tier) < laser_rank(required) {
            MiningAction::LaserTooWeak
        } else if hold_empty {
            MiningAction::MineAndAdoptOre
        } else if !same_ore {
            MiningAction::HoldOff
        } else {
            MiningAction::Mine
        },
    }
}

/// What a mining ship does with its target: without one it searches; when the
/// target is gone it looks for another of its hold's ore; out of reach it drops
/// it; in reach it mines when its laser is strong enough and its hold is empty
/// or holds the same ore.
pub fn mining_action(
    status: MiningTargetStatus,
    required: LaserTier,
    tier: LaserTier,
    hold_empty: bool,
    same_ore: bool,
) -> (action: MiningAction)
    ensures
        action == spec_mining_action(status, required, tier, hold_empty, same_ore),
{
    match status {
        MiningTargetStatus::NoTarget => MiningAction::Search,
        MiningTargetStatus::Gone => MiningAction::Retarget,
        MiningTargetStatus::OutOfReach => MiningAction::LoseTarget,
        MiningTargetStatus::InReach => if !laser_permits(required, tier) {
            MiningAction::LaserTooWeak
        } else if hold_empty {
            MiningAction::MineAndAdoptOre
        } else if !same_ore {
            MiningAction::HoldOff
        } else {
            MiningAction::Mine
        },
    }
}

/// Whether a mining ship heads back to the station: its hold is full or it has
/// no target left.
pub fn returns_to_station(hold_full: bool, has_target: bool) -> (back: bool)
    ensures
        back == (hold_full || !has_target),
{
    hold_full || !has_target
}

/// Where a mining ship heading back to the station flies.
#[derive(Clone, Copy, PartialEq, Eq, Debug, Structural)]
pub enum HomeTarget {
    /// The station's first berth, where it unloads.
    FirstBerth,
    /// The station's hub, when the station has no berth.
    Hub,
}

/// Where a mining ship heading back flies, and what the autopilot then flies
/// to: the station's first berth when it has one, else the hub with no target
/// to dock at; nowhere when there is no station.
pub open spec fn spec_home_target(station_present: bool, berth_count: nat) -> Option<(HomeTarget, AutopilotTargetKind)> {
    if !station_present {
        None
    } else if berth_count > 0 {
        Some((HomeTarget::FirstBerth, AutopilotTargetKind::Berth))
    } else {
        Some((HomeTarget::Hub, AutopilotTargetKind::NoTarget))
    }
}

/// Where a mining ship heading back to the station flies (see `spec_home_target`).
pub fn home_target(station_present: bool, berth_count: usize) -> (target: Option<(HomeTarget, AutopilotTargetKind)>)
    ensures
        target == spec_home_target(station_present, berth_count as nat),
{
    if !station_present {
        None
    } else if berth_count > 0 {
        Some((HomeTarget::FirstBerth, AutopilotTargetKind::Berth))
    } else {
        Some((HomeTarget::Hub, AutopilotTargetKind::NoTarget))
    }
}

/// Law: a ship only mines an asteroid its laser can handle, and never mixes
/// two ores in its hold.
pub proof fn law_mining_respects_laser_and_hold(
    status: MiningTargetStatus,
    required: LaserTier,
    tier: LaserTier,
    hold_empty: bool,
    same_ore: bool,
)
    ensures
        ({
            let a = spec_mining_action(status, required, tier, hold_empty, same_ore);
            &&& (a == MiningAction::Mine || a == MiningAction::MineAndAdoptOre)
                ==> status == MiningTargetStatus::InReach && laser_rank(tier) >= laser_rank(required)
            &&& a == MiningAction::Mine ==> same_ore && !hold_empty
            &&& a == MiningAction::MineAndAdoptOre ==> hold_empty
        }),
{
}

} // verus!
