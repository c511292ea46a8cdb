//! Game rules of the Voidrift station game: ore lookups, the signal feed,
//! quest objectives, content lines, log unlocks, the opening sequence, the
//! drone economy and request cards, autonomous ships and the scout, ship
//! arrivals and mining decisions, the drawer and strip, the menu, saves and
//! session start, each stated over plain values.

pub mod debug_log;
pub mod economy;
pub mod fleet;
pub mod hud;
pub mod logs;
pub mod menu;
pub mod narrative;
pub mod navigation;
pub mod opening;
pub mod persistence;
pub mod ore;
pub mod random;
pub mod text;
pub mod visual;
pub mod content;
pub mod quest;
pub mod session;
pub mod signal;
pub mod signal_feed;
pub mod state;
