use voidrift::economy::{CollectedRequest, FactionId, RequestId, RequestsTabState, ShipQueue};
use voidrift::fleet::ScoutEnabled;
use voidrift::opening::OpeningSequence;
use voidrift::persistence::{
    collect_save_state, current_timestamp, fired_ids, newest_first_order, text_le_exec, key_in_category, migrate_save, parse_active_tab,
    parse_opening_phase, phase_name, restore_save_state, sanitize_filename, save_dir, save_path, starts_with,
    storage_key, tab_name, SaveCategory, SaveSource, SaveState, StationRestore, SAVE_VERSION,
};
use voidrift::signal::SignalLog;
use voidrift::state::{ActiveStationTab, OpeningPhase};
use std::collections::HashSet;

fn blank_save() -> SaveState {
    SaveState {
        save_version: SAVE_VERSION,
        save_name: "Test".to_string(),
        save_category: SaveCategory::Play,
        timestamp: "2024-01-01".to_string(),
        description: "Test save".to_string(),
        opening_complete: false,
        opening_phase: String::new(),
        station_online: false,
        ship_hulls: 0,
        max_dispatch: 0,
        signal_fired_ids: Vec::new(),
        tab_power: false,
        tab_cargo: false,
        tab_refinery: false,
        tab_foundry: false,
        tab_hangar: false,
        drone_count: 0,
        sectors_discovered: Vec::new(),
        active_tab: String::new(),
        drawer_state: String::new(),
        telemetry_consent: None,
        telemetry_sessions: 0,
        collected_requests: Vec::new(),
        unlocked_logs: Vec::new(),
        scout_enabled: false,
    }
}

#[test]
fn sanitize_replaces_unsafe_chars() {
    assert_eq!(sanitize_filename("my save/01-a_b!"), "my_save_01-a_b_");
    assert_eq!(sanitize_filename("Ärger"), "Ärger");
    assert_eq!(sanitize_filename(""), "");
    let once = sanitize_filename("a b.c");
    assert_eq!(sanitize_filename(&once), once);
}

#[test]
fn phase_and_tab_names_read_back() {
    for p in [
        OpeningPhase::Adrift,
        OpeningPhase::SignalIdentified,
        OpeningPhase::AutoPiloting,
        OpeningPhase::InRange,
        OpeningPhase::Docked,
        OpeningPhase::Complete,
    ] {
        assert_eq!(parse_opening_phase(phase_name(p)), p);
        assert_eq!(phase_name(p), format!("{:?}", p));
    }
    for t in [ActiveStationTab::Cargo, ActiveStationTab::Production, ActiveStationTab::Requests, ActiveStationTab::Logs] {
        assert_eq!(parse_active_tab(tab_name(t)), t);
        assert_eq!(tab_name(t), format!("{:?}", t));
    }
    assert_eq!(parse_opening_phase("nonsense"), OpeningPhase::Complete);
    assert_eq!(parse_active_tab("Fleet"), ActiveStationTab::Cargo);
}

#[test]
fn old_saves_are_migrated() {
    let mut s = blank_save();
    s.save_version = 5;
    s.telemetry_sessions = 9;
    s.unlocked_logs = vec!["log_01".to_string()];
    s.drone_count = 3;
    migrate_save(&mut s);
    assert_eq!(s.telemetry_sessions, 0);
    assert!(s.unlocked_logs.is_empty());
    assert_eq!(s.save_version, 5);
    assert_eq!(s.description, "Test save");
    assert_eq!(s.drone_count, 3);
    assert_eq!(s.timestamp, "2024-01-01");

    let mut s = blank_save();
    s.save_version = 6;
    s.telemetry_sessions = 9;
    s.unlocked_logs = vec!["log_01".to_string()];
    migrate_save(&mut s);
    assert_eq!(s.telemetry_sessions, 9);
    assert!(s.unlocked_logs.is_empty());

    let mut s = blank_save();
    s.telemetry_sessions = 9;
    s.unlocked_logs = vec!["log_01".to_string()];
    migrate_save(&mut s);
    assert_eq!(s.telemetry_sessions, 9);
    assert_eq!(s.unlocked_logs, vec!["log_01".to_string()]);
}

#[test]
fn restore_brings_back_state_and_announces_it() {
    let mut s = blank_save();
    s.save_name = "base camp".to_string();
    s.opening_phase = "Complete".to_string();
    s.active_tab = "Requests".to_string();
    s.signal_fired_ids = vec![1, 5, 5, 11];
    s.collected_requests = vec![CollectedRequest { id: RequestId::FirstLight, faction: FactionId::Signal, fulfilled: true }];
    s.station_online = true;

    let mut opening = OpeningSequence::new();
    opening.timer = 1234;
    let mut focused = true;
    let mut log = SignalLog::new();
    log.entries.push_back("old".to_string());
    let mut tab = ActiveStationTab::Cargo;
    let mut queue = ShipQueue { available_count: 4 };
    let mut requests = RequestsTabState::default();

    let out = restore_save_state(&s, &mut opening, &mut focused, &mut log, &mut tab, &mut queue, &mut requests, true);
    assert!(!focused);
    assert_eq!(opening.phase, OpeningPhase::Complete);
    assert_eq!(opening.timer, 0);
    assert_eq!(queue.available_count, 1);
    assert_eq!(tab, ActiveStationTab::Requests);
    assert_eq!(requests.collected_requests, s.collected_requests);
    assert_eq!(log.fired, HashSet::from([1, 5, 11]));
    let lines: Vec<String> = log.entries.iter().cloned().collect();
    assert_eq!(lines, vec!["old", "ECHO: SAVE LOADED SUCCESSFULLY.", "ECHO: BASE CAMP RESTORED."]);
    assert!(out.remove_opening_ship);
    assert_eq!(out.station, Some(StationRestore { online: true, max_dispatch: 5 }));
}

#[test]
fn restore_mid_opening_keeps_queue_and_dispatch_limit() {
    let mut s = blank_save();
    s.opening_phase = "Docked".to_string();
    s.ship_hulls = 0;
    s.max_dispatch = 3;
    let mut opening = OpeningSequence::new();
    let mut focused = false;
    let mut log = SignalLog::new();
    let mut tab = ActiveStationTab::Logs;
    let mut queue = ShipQueue::default();
    let mut requests = RequestsTabState::default();
    let out = restore_save_state(&s, &mut opening, &mut focused, &mut log, &mut tab, &mut queue, &mut requests, true);
    assert_eq!(opening.phase, OpeningPhase::Docked);
    assert_eq!(queue.available_count, 0);
    assert_eq!(tab, ActiveStationTab::Cargo);
    assert!(!out.remove_opening_ship);
    assert_eq!(out.station, Some(StationRestore { online: false, max_dispatch: 3 }));
    let out = restore_save_state(&s, &mut opening, &mut focused, &mut log, &mut tab, &mut queue, &mut requests, false);
    assert_eq!(out.station, None);
}

#[test]
fn save_then_load_round_trip() {
    let mut log = SignalLog::new();
    log.fired.insert(3);
    log.fired.insert(17);
    let opening = OpeningSequence { phase: OpeningPhase::InRange, timer: 40, beat_timer: 0 };
    let queue = ShipQueue { available_count: 3 };
    let mut requests = RequestsTabState::default();
    requests.collected_requests.push(CollectedRequest { id: RequestId::FirstLight, faction: FactionId::Signal, fulfilled: false });
    let source = SaveSource { station_online: true, max_dispatch: 4, drone_count: 2, telemetry_consent: Some(true), telemetry_sessions: 3 };
    let scout = ScoutEnabled { active: true, unlocked: true };
    let save = collect_save_state(
        "slot".to_string(),
        SaveCategory::Stage,
        "note".to_string(),
        current_timestamp(75),
        &source,
        &opening,
        ActiveStationTab::Production,
        &queue,
        &requests,
        &log,
        &scout,
    );
    assert_eq!(save.save_version, 7);
    assert_eq!(save.timestamp, "75");
    assert_eq!(save.opening_phase, "InRange");
    assert!(!save.opening_complete);
    assert_eq!(save.active_tab, "Production");
    assert_eq!(save.drawer_state, "default");
    assert_eq!(save.ship_hulls, 3);
    assert_eq!(save.drone_count, 2);
    assert!(save.scout_enabled);
    let mut ids = save.signal_fired_ids.clone();
    ids.sort();
    assert_eq!(ids, vec![3, 17]);

    let mut opening2 = OpeningSequence::new();
    let mut focused = true;
    let mut log2 = SignalLog::new();
    let mut tab2 = ActiveStationTab::Cargo;
    let mut queue2 = ShipQueue::default();
    let mut requests2 = RequestsTabState::default();
    let out = restore_save_state(&save, &mut opening2, &mut focused, &mut log2, &mut tab2, &mut queue2, &mut requests2, true);
    assert_eq!(opening2.phase, OpeningPhase::InRange);
    assert_eq!(tab2, ActiveStationTab::Production);
    assert_eq!(queue2.available_count, 3);
    assert_eq!(log2.fired, log.fired);
    assert_eq!(requests2.collected_requests, requests.collected_requests);
    assert_eq!(out.station, Some(StationRestore { online: true, max_dispatch: 4 }));
}

#[test]
fn fired_ids_lists_each_id_once() {
    let set: HashSet<u32> = HashSet::from([4, 9, 2]);
    let mut ids = fired_ids(&set);
    ids.sort();
    assert_eq!(ids, vec![2, 4, 9]);
}

#[test]
fn timestamps_are_decimal_seconds() {
    assert_eq!(current_timestamp(0), "0");
    assert_eq!(current_timestamp(3605), "3605");
}

#[test]
fn save_locations() {
    assert_eq!(save_dir(SaveCategory::Play), "saves/play");
    assert_eq!(save_dir(SaveCategory::Stage), "saves/stage");
    assert_eq!(save_dir(SaveCategory::Auto), "saves");
    assert_eq!(save_path(SaveCategory::Play, "my run"), "saves/play/my_run.json");
    assert_eq!(save_path(SaveCategory::Auto, "anything"), "saves/autosave.json");
    assert_eq!(storage_key(SaveCategory::Stage, "a:b"), "voidrift_save_a_b");
    assert_eq!(storage_key(SaveCategory::Auto, "x"), "voidrift_autosave");
    assert!(key_in_category("voidrift_save_x", SaveCategory::Play));
    assert!(!key_in_category("voidrift_autosave", SaveCategory::Play));
    assert!(key_in_category("voidrift_autosave", SaveCategory::Auto));
    assert!(starts_with("abc", ""));
    assert!(!starts_with("ab", "abc"));
    assert_eq!(SaveCategory::default(), SaveCategory::Play);
}

#[test]
fn saves_list_newest_first_and_stable() {
    let strings = |v: &[&str]| -> Vec<String> { v.iter().map(|s| s.to_string()).collect() };
    let order = newest_first_order(&strings(&["30", "120", "30", "9", "", "120"]));
    // Second counts, greatest first: 120, 120, 30, 30, 9; then the stamp that is none.
    assert_eq!(order, vec![1, 5, 0, 2, 3, 4]);
    assert_eq!(newest_first_order(&strings(&["9", "100"])), vec![1, 0]);
    assert_eq!(newest_first_order(&strings(&["100", "9"])), vec![0, 1]);
    // "007" and "7" are the same second: listed order kept.
    assert_eq!(newest_first_order(&strings(&["7", "007", "8"])), vec![2, 0, 1]);
    // Stamps that are no second count come last, greatest text first.
    assert_eq!(newest_first_order(&strings(&["a", "5", "b"])), vec![1, 2, 0]);
    assert!(newest_first_order(&Vec::new()).is_empty());
}

#[test]
fn text_order_matches_string_order() {
    let words = ["", "a", "ab", "b", "Z", "é", "aa", "ä"];
    for x in words {
        for y in words {
            assert_eq!(text_le_exec(x, y), x <= y, "{x} {y}");
        }
    }
}
