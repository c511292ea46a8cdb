use vstd::prelude::*;
use crate::content::ContentState;
use crate::economy::{RequestsTabState, ShipQueue};
use crate::hud::{skip_tutorials_for_loaded_game, TutorialState, FIRST_OPENING_TUTORIAL, LAST_OPENING_TUTORIAL};
use crate::menu::{apply_dev_mode_signal, dev_mode_lines};
use crate::opening::OpeningSequence;
use crate::persistence::{
    restore_lines, restore_save_state, restored_max_dispatch, restored_queue, spec_parse_phase, spec_parse_tab,
    RestoreOutcome, SaveState, StationRestore,
};
use crate::signal::SignalLog;
use crate::state::{ActiveStationTab, DeviceType, DrawerState, GameState, OpeningPhase};
use crate::text::texts;

verus! {

/// Puts the session's state back to a new game's: an empty drone queue, an
/// empty signal feed, the opening from its start, the drawer closed, no
/// content progress, and the production tree closed.
pub fn reset_game_resources(
    queue: &mut ShipQueue,
    log: &mut SignalLog,
    opening: &mut OpeningSequence,
    drawer: &mut DrawerState,
    content: &mut ContentState,
    production_tree_shown: &mut bool,
)
    ensures
        final(queue).available_count == 0,
        final(log).lines() == Seq::<Seq<char>>::empty(),
        final(log).fired@ == Set::<u32>::empty(),
        final(log).last_fired_at@ == Map::<u32, u64>::empty(),
        *final(opening) == (OpeningSequence { phase: OpeningPhase::Adrift, timer: 0, beat_timer: 0 }),
        *final(drawer) == DrawerState::Collapsed,
        texts(final(content).fired_one_shots@) == Seq::<Seq<char>>::empty(),
        texts(final(content).observed_triggers@) == Seq::<Seq<char>>::empty(),
        final(content).ambient_timer == 0,
        !*final(production_tree_shown),
{
    *queue = ShipQueue::default();
    *log = SignalLog::new();
    *opening = OpeningSequence::new();
    *drawer = DrawerState::Collapsed;
    *content = ContentState { fired_one_shots: Vec::new(), observed_triggers: Vec::new(), ambient_timer: 0 };
    assert(texts(content.fired_one_shots@) =~= Seq::<Seq<char>>::empty());
    assert(texts(content.observed_triggers@) =~= Seq::<Seq<char>>::empty());
    *production_tree_shown = false;
}

/// The session state that starting the game touches.
pub struct SessionState {
    pub opening: OpeningSequence,
    pub log: SignalLog,
    pub tab: ActiveStationTab,
    pub queue: ShipQueue,
    pub requests: RequestsTabState,
    pub tutorial: TutorialState,
    /// Whether the camera follows the player's ship.
    pub camera_focused: bool,
    /// Whether developer mode was announced this session.
    pub dev_mode_signal_fired: bool,
}

/// Starts play: the tutorial starts over; a save picked on the menu is
/// restored and the first session's tutorial pop-ups are skipped; developer
/// mode is announced once. Returns what the restore asks of the caller, when a
/// save was loaded.
pub fn ingame_startup_system(
    pending_load: Option<&SaveState>,
    s: &mut SessionState,
    station_present: bool,
    developer_mode: bool,
) -> (restored: Option<RestoreOutcome>)
    ensures
        restored is Some <==> pending_load is Some,
        final(s).tutorial.active is None,
        final(s).tutorial.shown@ == (if pending_load is Some {
            Set::new(|id: u32| FIRST_OPENING_TUTORIAL <= id <= LAST_OPENING_TUTORIAL)
        } else {
            Set::<u32>::empty()
        }),
        match pending_load {
            Some(save) => {
                &&& final(s).opening.phase == spec_parse_phase(save.opening_phase@)
                &&& final(s).opening.timer == 0
                &&& final(s).log.fired@ == save.signal_fired_ids@.to_set()
                &&& final(s).log.lines() == (if developer_mode && !old(s).dev_mode_signal_fired {
                    old(s).log.lines() + restore_lines(save.save_name@) + dev_mode_lines()
                } else {
                    old(s).log.lines() + restore_lines(save.save_name@)
                })
                &&& final(s).requests.collected_requests@ == save.collected_requests@
                &&& final(s).queue.available_count == restored_queue(final(s).opening.phase, save.ship_hulls)
                &&& final(s).tab == spec_parse_tab(save.active_tab@)
                &&& !final(s).camera_focused
                &&& restored matches Some(out) && out.remove_opening_ship == (final(s).opening.phase
                    == OpeningPhase::Complete) && out.station == (if station_present {
                    Some(StationRestore {
                        online: save.station_online,
                        max_dispatch: restored_max_dispatch(save.max_dispatch),
                    })
                } else {
                    None::<StationRestore>
                })
            },
            None => {
                &&& final(s).opening == old(s).opening
                &&& final(s).log.fired@ == old(s).log.fired@
                &&& final(s).log.lines() == (if developer_mode && !old(s).dev_mode_signal_fired {
                    old(s).log.lines() + dev_mode_lines()
                } else {
                    old(s).log.lines()
                })
                &&& final(s).tab == old(s).tab
                &&& final(s).queue == old(s).queue
                &&& final(s).requests.collected_requests@ == old(s).requests.collected_requests@
                &&& final(s).camera_focused == old(s).camera_focused
            },
        },
        final(s).dev_mode_signal_fired == (old(s).dev_mode_signal_fired || developer_mode),
{
    s.tutorial = TutorialState::new();
    let restored = match pending_load {
        Some(save) => {
            let out = restore_save_state(
                save,
                &mut s.opening,
                &mut s.camera_focused,
                &mut s.log,
                &mut s.tab,
                &mut s.queue,
                &mut s.requests,
                station_present,
            );
            skip_tutorials_for_loaded_game(&mut s.tutorial);
            assert(Set::<u32>::empty().union(Set::new(|id: u32| FIRST_OPENING_TUTORIAL <= id <= LAST_OPENING_TUTORIAL))
                =~= Set::new(|id: u32| FIRST_OPENING_TUTORIAL <= id <= LAST_OPENING_TUTORIAL));
            Some(out)
        },
        None => None,
    };
    let ghost mid = s.log.lines();
    apply_dev_mode_signal(developer_mode, &mut s.dev_mode_signal_fired, &mut s.log);
    proof {
        if pending_load is Some {
            let save = pending_load->0;
            assert(old(s).log.lines() + restore_lines(save.save_name@) + dev_mode_lines()
                =~= mid + dev_mode_lines());
        }
    }
    restored
}

/// What the camera centres on.
#[derive(Clone, Copy, PartialEq, Eq, Debug, Structural)]
pub enum CameraAnchor {
    /// The station, moved by the map's pan offset.
    StationWithOffset,
    /// The player's ship.
    Ship,
    /// The pan offset itself.
    Offset,
}

/// What the camera centres on: on the map, the station moved by the pan; in
/// space, the ship while focused on it, otherwise the pan offset.
pub fn camera_anchor(view: GameState, focused: bool) -> (anchor: CameraAnchor)
    ensures
        anchor == (if view == GameState::MapView {
            CameraAnchor::StationWithOffset
        } else if focused {
            CameraAnchor::Ship
        } else {
            CameraAnchor::Offset
        }),
{
    match view {
        GameState::MapView => CameraAnchor::StationWithOffset,
        GameState::SpaceView => if focused { CameraAnchor::Ship } else { CameraAnchor::Offset },
    }
}

/// Whether a drag may pan the view: only after the opening and with a single
/// finger (two fingers zoom).
pub fn pan_allowed(opening_complete: bool, touch_count: u32) -> (allowed: bool)
    ensures
        allowed == (opening_complete && touch_count < 2),
{
    opening_complete && touch_count < 2
}

/// Whether a drag breaks the focus on the ship: in space while focused.
pub fn pan_breaks_focus(view: GameState, focused: bool) -> (breaks: bool)
    ensures
        breaks == (view == GameState::SpaceView && focused),
{
    match view {
        GameState::SpaceView => focused,
        GameState::MapView => false,
    }
}

/// The device kind, from whether the screen takes touches.
pub fn device_type_for(touch_screen: bool) -> (d: DeviceType)
    ensures
        d == (if touch_screen { DeviceType::Mobile } else { DeviceType::Desktop }),
{
    if touch_screen {
        DeviceType::Mobile
    } else {
        DeviceType::Desktop
    }
}

} // verus!
