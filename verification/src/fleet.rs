use vstd::prelude::*;
use crate::ore::{Drone, DroneClass};
use crate::state::{AutonomousShipState, BerthType};

verus! {

/// What an autonomous ship does in a frame besides changing state.
#[derive(Clone, Copy, PartialEq, Eq, Debug, Structural)]
pub enum AutonomousAction {
    /// Leaves the berth it was docked at.
    Undock,
    /// Flies toward its current destination.
    Advance,
    /// Mines: cargo grows toward its capacity.
    Mine,
    /// Docks at the drone berth.
    DockAtDroneBerth,
    /// Hands its cargo to the station and empties its hold.
    Unload,
    /// Nothing else.
    Stay,
}

/// What an autonomous ship knows of its surroundings this frame.
#[derive(Clone, Copy, PartialEq, Eq, Debug, Structural)]
pub struct AutonomousInput {
    /// Close enough to the asteroid to mine it.
    pub at_mining_site: bool,
    /// Close enough to the drone berth to dock.
    pub at_berth: bool,
    /// The hold is full (after this frame's mining).
    pub cargo_full: bool,
}

/// The state that follows each state in a mining run.
pub open spec fn cycle_successor(s: AutonomousShipState) -> AutonomousShipState {
    match s {
        AutonomousShipState::Holding => AutonomousShipState::Outbound,
        AutonomousShipState::Outbound => AutonomousShipState::Mining,
        AutonomousShipState::Mining => AutonomousShipState::Returning,
        AutonomousShipState::Returning => AutonomousShipState::Unloading,
        AutonomousShipState::Unloading => AutonomousShipState::Holding,
    }
}

/// One frame of an autonomous ship: its next state and its action.
pub open spec fn autonomous_step_spec(s: AutonomousShipState, i: AutonomousInput) -> (AutonomousShipState, AutonomousAction) {
    match s {
        AutonomousShipState::Holding => (AutonomousShipState::Outbound, AutonomousAction::Undock),
        AutonomousShipState::Outbound => if i.at_mining_site {
            (AutonomousShipState::Mining, AutonomousAction::Stay)
        } else {
            (AutonomousShipState::Outbound, AutonomousAction::Advance)
        },
        AutonomousShipState::Mining => if i.cargo_full {
            (AutonomousShipState::Returning, AutonomousAction::Mine)
        } else {
            (AutonomousShipState::Mining, AutonomousAction::Mine)
        },
        AutonomousShipState::Returning => if i.at_berth {
            (AutonomousShipState::Unloading, AutonomousAction::DockAtDroneBerth)
        } else {
            (AutonomousShipState::Returning, AutonomousAction::Advance)
        },
        AutonomousShipState::Unloading => (AutonomousShipState::Holding, AutonomousAction::Unload),
    }
}

/// One frame of an autonomous ship's mining run: a holding ship leaves its
/// berth; an outbound ship flies until it reaches the asteroid; a mining ship
/// mines until its hold is full; a returning ship flies back until it reaches
/// the drone berth and docks; an unloading ship hands over its cargo and holds.
pub fn autonomous_ship_step(ship: &mut AutonomousShipState, input: &AutonomousInput) -> (action: AutonomousAction)
    ensures
        (*final(ship), action) == autonomous_step_spec(*old(ship), *input),
{
    let (next, action) = match *ship {
        AutonomousShipState::Holding => (AutonomousShipState::Outbound, AutonomousAction::Undock),
        AutonomousShipState::Outbound => if input.at_mining_site {
            (AutonomousShipState::Mining, AutonomousAction::Stay)
        } else {
            (AutonomousShipState::Outbound, AutonomousAction::Advance)
        },
        AutonomousShipState::Mining => if input.cargo_full {
            (AutonomousShipState::Returning, AutonomousAction::Mine)
        } else {
            (AutonomousShipState::Mining, AutonomousAction::Mine)
        },
        AutonomousShipState::Returning => if input.at_berth {
            (AutonomousShipState::Unloading, AutonomousAction::DockAtDroneBerth)
        } else {
            (AutonomousShipState::Returning, AutonomousAction::Advance)
        },
        AutonomousShipState::Unloading => (AutonomousShipState::Holding, AutonomousAction::Unload),
    };
    *ship = next;
    action
}

/// Law: a ship only ever stays in its state or moves to the next state of the
/// mining run (Holding, Outbound, Mining, Returning, Unloading, Holding);
/// holding and unloading ships always move on, and cargo is handed over exactly
/// when an unloading ship returns to holding.
pub proof fn law_mining_run_order(s: AutonomousShipState, i: AutonomousInput)
    ensures
        autonomous_step_spec(s, i).0 == s || autonomous_step_spec(s, i).0 == cycle_successor(s),
        s == AutonomousShipState::Holding ==> autonomous_step_spec(s, i).0 == AutonomousShipState::Outbound,
        s == AutonomousShipState::Unloading ==> autonomous_step_spec(s, i).0 == AutonomousShipState::Holding,
        (autonomous_step_spec(s, i).1 == AutonomousAction::Unload) <==> (s == AutonomousShipState::Unloading),
{
}

/// Law: a ship that always arrives and always fills its hold goes round the
/// whole run and is holding again after five frames.
pub proof fn law_full_run_returns_to_holding(i: AutonomousInput)
    requires
        i.at_mining_site,
        i.at_berth,
        i.cargo_full,
    ensures
        ({
            let s1 = autonomous_step_spec(AutonomousShipState::Holding, i).0;
            let s2 = autonomous_step_spec(s1, i).0;
            let s3 = autonomous_step_spec(s2, i).0;
            let s4 = autonomous_step_spec(s3, i).0;
            let s5 = autonomous_step_spec(s4, i).0;
            s1 == AutonomousShipState::Outbound && s2 == AutonomousShipState::Mining
                && s3 == AutonomousShipState::Returning && s4 == AutonomousShipState::Unloading
                && s5 == AutonomousShipState::Holding
        }),
{
}

/// Whether a docked autonomous ship is held at its berth as the station turns:
/// while it unloads or holds.
pub fn held_at_berth(state: AutonomousShipState) -> (held: bool)
    ensures
        held == (state == AutonomousShipState::Unloading || state == AutonomousShipState::Holding),
{
    match state {
        AutonomousShipState::Unloading | AutonomousShipState::Holding => true,
        _ => false,
    }
}

/// Index of the first drone berth, if the station has one.
pub fn first_drone_berth(berths: &Vec<BerthType>) -> (found: Option<usize>)
    ensures
        found is None <==> forall|j: int| 0 <= j < berths@.len() ==> #[trigger] berths@[j] != BerthType::Drone,
        found matches Some(i) ==> i < berths@.len() && berths@[i as int] == BerthType::Drone
            && forall|j: int| 0 <= j < i ==> #[trigger] berths@[j] != BerthType::Drone,
{
    let mut i: usize = 0;
    while i < berths.len()
        invariant
            0 <= i <= berths@.len(),
            forall|j: int| 0 <= j < i ==> #[trigger] berths@[j] != BerthType::Drone,
        decreases berths@.len() - i,
    {
        if berths[i] == BerthType::Drone {
            return Some(i);
        }
        i += 1;
    }
    None
}

/// Whether the scout runs (`active`) and whether the player has unlocked it.
#[derive(Clone, Copy, PartialEq, Eq, Debug, Structural)]
pub struct ScoutEnabled {
    pub active: bool,
    pub unlocked: bool,
}

impl Default for ScoutEnabled {
    fn default() -> (s: ScoutEnabled)
        ensures
            !s.active,
            !s.unlocked,
    {
        ScoutEnabled { active: false, unlocked: false }
    }
}

/// What to do with the scout entity this frame.
#[derive(Clone, Copy, PartialEq, Eq, Debug, Structural)]
pub enum ScoutSpawnAction {
    /// Spawn one scout at the start of its orbit.
    Spawn,
    /// Leave the scout as it is.
    Keep,
    /// Remove every scout there is.
    DespawnAll,
}

/// The scout exists exactly while it is active: an active scout is spawned
/// when there is none, an inactive one is removed.
pub fn scout_spawn_action(enabled: &ScoutEnabled, scouts: usize) -> (action: ScoutSpawnAction)
    ensures
        action == (if !enabled.active {
            ScoutSpawnAction::DespawnAll
        } else if scouts == 0 {
            ScoutSpawnAction::Spawn
        } else {
            ScoutSpawnAction::Keep
        }),
{
    if enabled.active {
        if scouts == 0 {
            ScoutSpawnAction::Spawn
        } else {
            ScoutSpawnAction::Keep
        }
    } else {
        ScoutSpawnAction::DespawnAll
    }
}

/// A mining drone as the scout sees it.
#[derive(Clone, Copy, PartialEq, Eq, Debug, Structural)]
pub struct MinerView {
    pub state: AutonomousShipState,
    pub drone: Drone,
    /// Sent by the scout to a painted asteroid and not yet back.
    pub has_target: bool,
}

/// A drone the scout may send: a Mining Mk I drone holding at the station with
/// no target.
pub open spec fn is_idle_miner(m: MinerView) -> bool {
    !m.has_target && m.state == AutonomousShipState::Holding && m.drone.class == DroneClass::Mining
        && m.drone.tier == 1
}

/// The first idle miner, if any.
pub fn select_idle_miner(miners: &Vec<MinerView>) -> (found: Option<usize>)
    ensures
        found is None <==> forall|j: int| 0 <= j < miners@.len() ==> !is_idle_miner(#[trigger] miners@[j]),
        found matches Some(i) ==> i < miners@.len() && is_idle_miner(miners@[i as int])
            && forall|j: int| 0 <= j < i ==> !is_idle_miner(#[trigger] miners@[j]),
{
    let mut i: usize = 0;
    while i < miners.len()
        invariant
            0 <= i <= miners@.len(),
            forall|j: int| 0 <= j < i ==> !is_idle_miner(#[trigger] miners@[j]),
        decreases miners@.len() - i,
    {
        let m = miners[i];
        if !m.has_target && m.state == AutonomousShipState::Holding && m.drone.class == DroneClass::Mining
            && m.drone.tier == 1 {
            return Some(i);
        }
        i += 1;
    }
    None
}

/// The first asteroid within the scout's reach, if any.
pub fn first_in_reach(in_reach: &Vec<bool>) -> (found: Option<usize>)
    ensures
        found is None <==> forall|j: int| 0 <= j < in_reach@.len() ==> !#[trigger] in_reach@[j],
        found matches Some(i) ==> i < in_reach@.len() && in_reach@[i as int]
            && forall|j: int| 0 <= j < i ==> !#[trigger] in_reach@[j],
{
    let mut i: usize = 0;
    while i < in_reach.len()
        invariant
            0 <= i <= in_reach@.len(),
            forall|j: int| 0 <= j < i ==> !#[trigger] in_reach@[j],
        decreases in_reach@.len() - i,
    {
        if in_reach[i] {
            return Some(i);
        }
        i += 1;
    }
    None
}

/// The scout's paint on one frame: it looks at the first unpainted asteroid
/// within reach (`in_reach`, one entry per unpainted asteroid); when an idle
/// miner exists, that asteroid is painted and the first idle miner is sent
/// out to it (outbound, with a target). At most one asteroid is painted per
/// frame. Returns the asteroid and the miner.
pub fn scout_paint(in_reach: &Vec<bool>, miners: &mut Vec<MinerView>) -> (painted: Option<(usize, usize)>)
    ensures
        match painted {
            None => {
                &&& final(miners)@ == old(miners)@
                &&& ((forall|j: int| 0 <= j < in_reach@.len() ==> !#[trigger] in_reach@[j])
                    || (forall|j: int| 0 <= j < old(miners)@.len() ==> !is_idle_miner(#[trigger] old(miners)@[j])))
            },
            Some((a, m)) => {
                &&& a < in_reach@.len() && in_reach@[a as int]
                &&& forall|j: int| 0 <= j < a ==> !#[trigger] in_reach@[j]
                &&& m < old(miners)@.len() && is_idle_miner(old(miners)@[m as int])
                &&& forall|j: int| 0 <= j < m ==> !is_idle_miner(#[trigger] old(miners)@[j])
                &&& final(miners)@ == old(miners)@.update(m as int, MinerView {
                    state: AutonomousShipState::Outbound,
                    has_target: true,
                    ..old(miners)@[m as int]
                })
            },
        },
{
    match first_in_reach(in_reach) {
        None => None,
        Some(a) => match select_idle_miner(miners) {
            None => None,
            Some(m) => {
                let old_m = miners[m];
                miners.set(m, MinerView { state: AutonomousShipState::Outbound, has_target: true, ..old_m });
                Some((a, m))
            },
        },
    }
}

/// A miner the scout sent out is freed once it holds at the station again.
pub open spec fn cleared(m: MinerView) -> MinerView {
    if m.has_target && m.state == AutonomousShipState::Holding {
        MinerView { has_target: false, ..m }
    } else {
        m
    }
}

/// Frees every miner that came back from a painted asteroid (holding with a
/// target): its target is dropped, so it may be sent again. Returns, per miner,
/// whether its asteroid's paint must be cleared.
pub fn scout_paint_cleanup_system(miners: &mut Vec<MinerView>) -> (clear_paint: Vec<bool>)
    ensures
        final(miners)@.len() == old(miners)@.len(),
        forall|j: int| 0 <= j < old(miners)@.len() ==> #[trigger] final(miners)@[j] == cleared(old(miners)@[j]),
        clear_paint@.len() == old(miners)@.len(),
        forall|j: int| 0 <= j < old(miners)@.len() ==> #[trigger] clear_paint@[j] == (old(miners)@[j].has_target
            && old(miners)@[j].state == AutonomousShipState::Holding),
{
    let mut clear_paint: Vec<bool> = Vec::new();
    let n = miners.len();
    let mut i: usize = 0;
    while i < n
        invariant
            n == miners@.len(),
            n == old(miners)@.len(),
            0 <= i <= n,
            clear_paint@.len() == i,
            forall|j: int| 0 <= j < i ==> #[trigger] miners@[j] == cleared(old(miners)@[j]),
            forall|j: int| i <= j < n ==> #[trigger] miners@[j] == old(miners)@[j],
            forall|j: int| 0 <= j < i ==> #[trigger] clear_paint@[j] == (old(miners)@[j].has_target
                && old(miners)@[j].state == AutonomousShipState::Holding),
        decreases n - i,
    {
        let m = miners[i];
        let back = m.has_target && m.state == AutonomousShipState::Holding;
        if back {
            miners.set(i, MinerView { has_target: false, ..m });
        }
        clear_paint.push(back);
        i += 1;
    }
    clear_paint
}

/// Law: a miner the scout sends out is not an idle miner until it has come
/// back and its paint was cleared; once back and cleared, a Mining Mk I drone
/// is idle again.
pub proof fn law_sent_miner_busy_until_cleared(m: MinerView)
    requires
        is_idle_miner(m),
    ensures
        ({
            let sent = MinerView { state: AutonomousShipState::Outbound, has_target: true, ..m };
            let back = MinerView { state: AutonomousShipState::Holding, ..sent };
            &&& !is_idle_miner(sent)
            &&& !is_idle_miner(back)
            &&& is_idle_miner(cleared(back))
        }),
{
}

/// The drone the opening ship becomes: a Mining Mk I drone holding at the
/// station with no target.
pub fn opening_ship_drone() -> (m: MinerView)
    ensures
        m == (MinerView {
            state: AutonomousShipState::Holding,
            drone: Drone { class: DroneClass::Mining, tier: 1 },
            has_target: false,
        }),
        is_idle_miner(m),
{
    MinerView { state: AutonomousShipState::Holding, drone: Drone { class: DroneClass::Mining, tier: 1 }, has_target: false }
}

} // verus!
