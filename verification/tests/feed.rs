use voidrift::debug_log::{log_debug_info, setup_debug_log_system, DebugLog, DEBUG_LOG_MAX};
use voidrift::opening::{opening_sequence_system, opening_text, OpeningInput, OpeningSequence, ABSORB_AT_MS, ADRIFT_MS};
use voidrift::signal::{emit, emit_refirable, fire_signal, push_bounded, push_echo, SignalLog, SIGNAL_LOG_MAX};
use voidrift::signal_feed::{signal_system, signal_text, SignalWorld, StationSignals};
use voidrift::state::{OpeningPhase, ShipState, StationDockState};

fn lines(log: &SignalLog) -> Vec<String> {
    log.entries.iter().cloned().collect()
}

#[test]
fn one_shot_signal_fires_once() {
    let mut log = SignalLog::new();
    assert!(emit(&mut log, 7, "first"));
    assert!(!emit(&mut log, 7, "again"));
    assert_eq!(lines(&log), vec!["first"]);
}

#[test]
fn strip_stays_bounded() {
    let mut log = SignalLog::new();
    for i in 0..15 {
        push_bounded(&mut log, format!("l{i}"));
    }
    assert_eq!(log.entries.len(), SIGNAL_LOG_MAX);
    assert_eq!(log.entries[0], "l5");
    push_echo(&mut log, "hello");
    assert_eq!(log.entries.len(), SIGNAL_LOG_MAX);
    assert_eq!(log.entries[9], "ECHO: hello");
}

#[test]
fn refirable_signal_respects_cooldown_and_reset() {
    let mut log = SignalLog::new();
    assert!(emit_refirable(&mut log, 19, "low", 1000, true, false));
    assert!(!emit_refirable(&mut log, 19, "low", 1500, true, false));
    assert!(!emit_refirable(&mut log, 19, "low", 1600, false, true));
    assert!(!log.fired.contains(&19));
    assert!(!emit_refirable(&mut log, 19, "low", 2500, true, false));
    assert!(emit_refirable(&mut log, 19, "low", 3001, true, false));
    assert_eq!(log.entries.len(), 2);
}

#[test]
fn opening_lines_are_not_trimmed() {
    let mut log = SignalLog::new();
    for id in 0..12 {
        fire_signal(&mut log, 1000 + id, "x");
    }
    fire_signal(&mut log, 1000, "x");
    assert_eq!(log.entries.len(), 12);
}

fn world(phase: OpeningPhase, station: Option<StationSignals>, drones: u32) -> SignalWorld {
    SignalWorld {
        now: 10_000,
        phase,
        opening_timer: 0,
        pause_s2: 2000,
        pause_dock_report: 3000,
        pause_complete: 1000,
        station,
        available_drones: drones,
        opening_ship_docked: false,
    }
}

#[test]
fn signal_feed_announces_opening_then_milestones() {
    let mut log = SignalLog::new();
    assert_eq!(signal_system(&mut log, &world(OpeningPhase::Adrift, None, 0)), vec![1]);
    assert_eq!(lines(&log), vec![signal_text(1)]);
    assert!(signal_system(&mut log, &world(OpeningPhase::Adrift, None, 0)).is_empty());

    let station = StationSignals {
        has_iron: true,
        iron_whole: 10,
        has_tungsten: false,
        online: false,
        has_ai_cores: false,
        has_hull_plates: false,
        dock_state: StationDockState::Rotating,
        processing_active: false,
    };
    let fired = signal_system(&mut log, &world(OpeningPhase::Complete, Some(station), 1));
    assert_eq!(fired, vec![5, 7, 8, 16, 25, 17]);
    assert!(log.entries.len() <= SIGNAL_LOG_MAX);
    assert_eq!(signal_text(19), "> MATERIAL RESERVES CRITICAL. MINING RUN REQUIRED.");
}

#[test]
fn opening_runs_to_completion() {
    let mut o = OpeningSequence::new();
    let mut log = SignalLog::new();
    let step = |dt: u64, within: bool, hub: bool| OpeningInput { dt, present: true, ship_within_range: within, ship_at_hub: hub };

    opening_sequence_system(&mut o, &step(16, false, false), &mut log);
    assert_eq!(log.entries.len(), 6);
    assert_eq!(log.entries[2], opening_text(1002));
    opening_sequence_system(&mut o, &step(ADRIFT_MS, false, false), &mut log);
    assert_eq!(o.phase, OpeningPhase::SignalIdentified);
    opening_sequence_system(&mut o, &step(1999, false, false), &mut log);
    assert_eq!(o.phase, OpeningPhase::SignalIdentified);
    opening_sequence_system(&mut o, &step(501, false, false), &mut log);
    assert_eq!(o.phase, OpeningPhase::AutoPiloting);
    let fx = opening_sequence_system(&mut o, &step(16, true, false), &mut log);
    assert_eq!(fx.ship_state, Some(ShipState::Navigating));
    assert_eq!(o.phase, OpeningPhase::InRange);
    let fx = opening_sequence_system(&mut o, &step(16, true, true), &mut log);
    assert_eq!(o.phase, OpeningPhase::Docked);
    assert_eq!(fx.ship_state, Some(ShipState::Docked));
    assert_eq!(fx.dock_state, Some(StationDockState::Paused));
    let fx = opening_sequence_system(&mut o, &step(ABSORB_AT_MS, true, true), &mut log);
    assert_eq!(o.phase, OpeningPhase::Complete);
    assert!(fx.absorb_ship);
    assert_eq!(fx.dock_state, Some(StationDockState::Resuming));
    assert_eq!(log.entries.back().unwrap(), opening_text(1017));
    let fx = opening_sequence_system(&mut o, &step(16, true, true), &mut log);
    assert!(!fx.absorb_ship);
}

#[test]
fn debug_log_keeps_latest_messages() {
    let mut log = DebugLog::new();
    let system = setup_debug_log_system(&mut log);
    assert_eq!(system.max_entries, DEBUG_LOG_MAX);
    assert_eq!(log.entries[0], "Debug logging system initialized");
    for i in 0..DEBUG_LOG_MAX {
        log_debug_info(&mut log, format!("m{i}"));
    }
    assert_eq!(log.entries.len(), DEBUG_LOG_MAX);
    assert_eq!(log.entries[0], "m0");
    assert_eq!(log.entries[DEBUG_LOG_MAX - 1], format!("m{}", DEBUG_LOG_MAX - 1));
}
