use vstd::prelude::*;

verus! {

/// Which of the two in-game views is shown.
#[derive(Clone, Copy, PartialEq, Eq, Debug, Structural)]
pub enum GameState {
    SpaceView,
    MapView,
}

/// Top-level application screen.
#[derive(Clone, Copy, PartialEq, Eq, Debug, Structural)]
pub enum AppState {
    MainMenu,
    InGame,
}

/// What a player-dispatched ship is doing.
#[derive(Clone, Copy, PartialEq, Eq, Debug, Structural)]
pub enum ShipState {
    Idle,
    Navigating,
    Mining,
    Docked,
}

/// Cycle of an autonomous mining ship.
#[derive(Clone, Copy, PartialEq, Eq, Debug, Structural)]
pub enum AutonomousShipState {
    Holding,
    Outbound,
    Mining,
    Returning,
    Unloading,
}

/// Rotation state of the station while ships dock.
#[derive(Clone, Copy, PartialEq, Eq, Debug, Structural)]
pub enum StationDockState {
    /// Normal rotation.
    Rotating,
    /// Incoming ship detected, decelerating.
    Slowing,
    /// Ship arrived, fully stopped.
    Paused,
    /// Ship docked, accelerating back to full speed.
    Resuming,
}

/// Phases of the opening cinematic, in the order they occur.
#[derive(Clone, Copy, PartialEq, Eq, Debug, Structural)]
pub enum OpeningPhase {
    /// The ship drifts; after three seconds the signal is identified.
    Adrift,
    /// The signal is identified; after two seconds the autopilot engages.
    SignalIdentified,
    /// The ship flies itself until it is within range of the station.
    AutoPiloting,
    InRange,
    Docked,
    Complete,
}

/// Kind of a station berth.
#[derive(Clone, Copy, PartialEq, Eq, Debug, Structural)]
pub enum BerthType {
    Player,
    Drone,
    Open,
}

/// Whether the bottom drawer is open.
#[derive(Clone, Copy, PartialEq, Eq, Debug, Structural)]
pub enum DrawerState {
    Collapsed,
    Expanded,
}

/// The tab shown in the station drawer.
#[derive(Clone, Copy, PartialEq, Eq, Debug, Structural)]
pub enum ActiveStationTab {
    Cargo,
    Production,
    Requests,
    Logs,
}

/// Ore selected on the production tab.
#[derive(Clone, Copy, PartialEq, Eq, Debug, Structural)]
pub enum OreType {
    Iron,
    Tungsten,
    Nickel,
    Aluminum,
}

/// Forge batch size chosen by the player.
#[derive(Clone, Copy, PartialEq, Eq, Debug, Structural)]
pub enum ForgeQuantity {
    One,
    Ten,
    All,
}

/// Kinds of processing job a station runs.
#[derive(Clone, Copy, PartialEq, Eq, Debug, Structural)]
pub enum ProcessingOperation {
    IronRefinery,
    TungstenRefinery,
    NickelRefinery,
    AluminumRefinery,
    HullForge,
    ThrusterForge,
    CoreFabricator,
    AluminumCanisterForge,
}

/// Platform the game runs on.
#[derive(Clone, Copy, PartialEq, Eq, Debug, Structural)]
pub enum DeviceType {
    Desktop,
    Mobile,
}

impl Default for DrawerState {
    fn default() -> (s: DrawerState)
        ensures
            s == DrawerState::Collapsed,
    {
        DrawerState::Collapsed
    }
}

impl Default for ActiveStationTab {
    fn default() -> (t: ActiveStationTab)
        ensures
            t == ActiveStationTab::Cargo,
    {
        ActiveStationTab::Cargo
    }
}

impl Default for GameState {
    fn default() -> (s: GameState)
        ensures
            s == GameState::SpaceView,
    {
        GameState::SpaceView
    }
}

impl Default for AppState {
    fn default() -> (s: AppState)
        ensures
            s == AppState::MainMenu,
    {
        AppState::MainMenu
    }
}

impl Default for StationDockState {
    fn default() -> (s: StationDockState)
        ensures
            s == StationDockState::Rotating,
    {
        StationDockState::Rotating
    }
}

/// The ore picked on the production tab.
#[derive(Clone, Copy, PartialEq, Eq, Debug, Structural)]
pub struct ProductionTabState {
    pub selected_ore: OreType,
}

impl Default for ProductionTabState {
    /// The tab opens on iron.
    fn default() -> (s: ProductionTabState)
        ensures
            s.selected_ore == OreType::Iron,
    {
        ProductionTabState { selected_ore: OreType::Iron }
    }
}

} // verus!
