use voidrift::content::ContentState;
use voidrift::economy::{RequestsTabState, ShipQueue};
use voidrift::hud::{newest_signal_lines, seed_signal_strip, TutorialState};
use voidrift::opening::OpeningSequence;
use voidrift::persistence::{SaveCategory, SaveState, StationRestore, SAVE_VERSION};
use voidrift::session::{
    camera_anchor, device_type_for, ingame_startup_system, pan_allowed, pan_breaks_focus, reset_game_resources,
    CameraAnchor, SessionState,
};
use voidrift::signal::SignalLog;
use voidrift::state::{ActiveStationTab, DeviceType, DrawerState, GameState, OpeningPhase};

fn session() -> SessionState {
    SessionState {
        opening: OpeningSequence::new(),
        log: SignalLog::new(),
        tab: ActiveStationTab::Cargo,
        queue: ShipQueue::default(),
        requests: RequestsTabState::default(),
        tutorial: TutorialState::new(),
        camera_focused: true,
        dev_mode_signal_fired: false,
    }
}

fn save() -> SaveState {
    SaveState {
        save_version: SAVE_VERSION,
        save_name: "Dock".to_string(),
        save_category: SaveCategory::Play,
        timestamp: "10".to_string(),
        description: String::new(),
        opening_complete: true,
        opening_phase: "Complete".to_string(),
        station_online: true,
        ship_hulls: 2,
        max_dispatch: 5,
        signal_fired_ids: vec![1, 2],
        tab_power: false,
        tab_cargo: false,
        tab_refinery: false,
        tab_foundry: false,
        tab_hangar: false,
        drone_count: 2,
        sectors_discovered: Vec::new(),
        active_tab: "Cargo".to_string(),
        drawer_state: "default".to_string(),
        telemetry_consent: None,
        telemetry_sessions: 0,
        collected_requests: Vec::new(),
        unlocked_logs: Vec::new(),
        scout_enabled: false,
    }
}

#[test]
fn new_game_starts_clean() {
    let mut queue = ShipQueue { available_count: 4 };
    let mut log = SignalLog::new();
    log.entries.push_back("x".to_string());
    log.fired.insert(3);
    let mut opening = OpeningSequence { phase: OpeningPhase::Complete, timer: 9, beat_timer: 9 };
    let mut drawer = DrawerState::Expanded;
    let mut content = ContentState {
        fired_one_shots: vec!["a".to_string()],
        observed_triggers: vec!["b".to_string()],
        ambient_timer: 7,
    };
    let mut tree = true;
    reset_game_resources(&mut queue, &mut log, &mut opening, &mut drawer, &mut content, &mut tree);
    assert_eq!(queue.available_count, 0);
    assert!(log.entries.is_empty() && log.fired.is_empty());
    assert_eq!(opening, OpeningSequence::new());
    assert_eq!(drawer, DrawerState::Collapsed);
    assert!(content.fired_one_shots.is_empty() && content.observed_triggers.is_empty());
    assert_eq!(content.ambient_timer, 0);
    assert!(!tree);
}

#[test]
fn starting_a_loaded_game() {
    let mut s = session();
    let out = ingame_startup_system(Some(&save()), &mut s, true, true);
    let out = out.unwrap();
    assert!(out.remove_opening_ship);
    assert_eq!(out.station, Some(StationRestore { online: true, max_dispatch: 5 }));
    assert_eq!(s.opening.phase, OpeningPhase::Complete);
    assert_eq!(s.queue.available_count, 2);
    assert_eq!(s.tab, ActiveStationTab::Cargo);
    assert!(!s.camera_focused);
    for id in 101..=106 {
        assert!(s.tutorial.shown.contains(&id));
    }
    let lines: Vec<String> = s.log.entries.iter().cloned().collect();
    assert_eq!(
        lines,
        vec![
            "ECHO: SAVE LOADED SUCCESSFULLY.",
            "ECHO: DOCK RESTORED.",
            "ECHO: DEVELOPER MODE ENABLED.",
            "ECHO: STAGE SAVES NOW ACCESSIBLE."
        ]
    );
    assert!(s.dev_mode_signal_fired);
}

#[test]
fn starting_a_new_game() {
    let mut s = session();
    s.tutorial.shown.insert(101);
    let out = ingame_startup_system(None, &mut s, true, false);
    assert!(out.is_none());
    assert!(s.camera_focused);
    assert!(s.tutorial.shown.is_empty());
    assert!(s.log.entries.is_empty());
    assert_eq!(s.opening.phase, OpeningPhase::Adrift);
}

#[test]
fn camera_and_panning() {
    assert_eq!(camera_anchor(GameState::MapView, true), CameraAnchor::StationWithOffset);
    assert_eq!(camera_anchor(GameState::SpaceView, true), CameraAnchor::Ship);
    assert_eq!(camera_anchor(GameState::SpaceView, false), CameraAnchor::Offset);
    assert!(pan_allowed(true, 1));
    assert!(!pan_allowed(true, 2));
    assert!(!pan_allowed(false, 0));
    assert!(pan_breaks_focus(GameState::SpaceView, true));
    assert!(!pan_breaks_focus(GameState::MapView, true));
    assert_eq!(device_type_for(true), DeviceType::Mobile);
    assert_eq!(device_type_for(false), DeviceType::Desktop);
}

#[test]
fn strip_seed_and_long_view() {
    let mut log = SignalLog::new();
    seed_signal_strip(&mut log);
    assert_eq!(log.entries.len(), 3);
    assert_eq!(log.entries[0], "> SIGNAL SYSTEM ONLINE");
    for i in 0..30 {
        log.entries.push_back(format!("n{i}"));
    }
    let shown = newest_signal_lines(&log, 20);
    assert_eq!(shown.len(), 20);
    assert_eq!(shown[0], "n10");
    assert_eq!(shown[19], "n29");
}
