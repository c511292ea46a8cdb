use voidrift::content::{
    build_ambient_pool, content_ambient_step, content_ambient_system, content_event_system, echo_pool_line, fire_one_shot,
    AmbientLine, ContentConfig,
    ContentEvents, ContentState, EventPool, OneShotLine, AMBIENT_MAX_MS, AMBIENT_MIN_MS,
};
use voidrift::logs::{check_log_unlocks, log_trigger_met, LogEntry, LogFacts, LogsConfig};
use voidrift::quest::{init_quest_log, quest_signal_system, quest_update_system, ObjectiveState};
use voidrift::signal::SignalLog;
use voidrift::state::OpeningPhase;

fn one_shot(id: &str, trigger: &str, text: &str) -> OneShotLine {
    OneShotLine { id: id.to_string(), trigger: trigger.to_string(), text: text.to_string() }
}

fn config() -> ContentConfig {
    ContentConfig {
        one_shots: vec![
            one_shot("o1", "opening_complete", "Welcome aboard."),
            one_shot("o2", "first_drone_returned", "First haul in."),
            one_shot("o3", "first_drone_returned", "Never said."),
        ],
        ambient: vec![
            AmbientLine { id: "a1".to_string(), text: "Quiet out here.".to_string(), weight: 2, eligible_after: None },
            AmbientLine {
                id: "a2".to_string(),
                text: "The bottle still hums.".to_string(),
                weight: 1,
                eligible_after: Some("first_bottle_collected".to_string()),
            },
        ],
        event_pools: vec![EventPool { trigger: "drone_returned".to_string(), chance_ppm: 0, lines: vec!["x".to_string()] }],
    }
}

fn empty_state() -> ContentState {
    ContentState { fired_one_shots: Vec::new(), observed_triggers: Vec::new(), ambient_timer: 0 }
}

#[test]
fn story_signals_complete_every_objective() {
    let mut log = init_quest_log();
    quest_signal_system(&mut log, &vec![4, 5, 11, 13, 14, 16, 17]);
    assert_eq!(log.objectives.len(), 7);
    for o in &log.objectives {
        assert_eq!(o.state, ObjectiveState::Complete);
    }
}

#[test]
fn objectives_activate_before_completing() {
    let mut log = init_quest_log();
    assert_eq!(log.objectives[0].state, ObjectiveState::Active);
    assert_eq!(log.objectives[1].state, ObjectiveState::Locked);
    quest_signal_system(&mut log, &vec![4]);
    assert_eq!(log.objectives[0].state, ObjectiveState::Complete);
    assert_eq!(log.objectives[1].state, ObjectiveState::Active);
    quest_signal_system(&mut log, &vec![5]);
    assert_eq!(log.objectives[2].state, ObjectiveState::Active);
    quest_update_system(&mut log, 12);
    assert_eq!(log.objectives[2].progress_current, Some(12));
    assert_eq!(log.objectives[2].progress_target, Some(25));
    quest_signal_system(&mut log, &vec![4]);
    assert_eq!(log.objectives[1].state, ObjectiveState::Complete);
}

#[test]
fn objectives_move_only_on_their_own_signals() {
    let mut log = init_quest_log();
    let before: Vec<ObjectiveState> = log.objectives.iter().map(|o| o.state).collect();
    quest_signal_system(&mut log, &vec![1, 2, 3, 6, 99]);
    let after: Vec<ObjectiveState> = log.objectives.iter().map(|o| o.state).collect();
    assert_eq!(after, before);
    quest_signal_system(&mut log, &vec![11]);
    assert_eq!(log.objectives[2].state, ObjectiveState::Complete);
    assert_eq!(log.objectives[3].state, ObjectiveState::Active);
    assert_eq!(log.objectives[1].state, ObjectiveState::Locked);
    assert_eq!(log.objectives[2].description, "Repair the station");
    assert_eq!(log.objectives[2].progress_target, Some(25));
}

#[test]
fn one_shot_line_fires_once() {
    let cfg = config();
    let mut state = empty_state();
    let mut log = SignalLog::new();
    assert_eq!(fire_one_shot("first_drone_returned", &cfg, &mut state, &mut log), Some(1));
    assert_eq!(fire_one_shot("first_drone_returned", &cfg, &mut state, &mut log), None);
    assert_eq!(fire_one_shot("unknown", &cfg, &mut state, &mut log), None);
    let lines: Vec<String> = log.entries.iter().cloned().collect();
    assert_eq!(lines, vec!["ECHO: First haul in."]);
    assert_eq!(state.fired_one_shots, vec!["first_drone_returned".to_string()]);
}

#[test]
fn content_events_fire_in_order() {
    let cfg = config();
    let mut state = empty_state();
    let mut log = SignalLog::new();
    let e = ContentEvents {
        opening_complete: true,
        drone_returned: true,
        drone_dispatched: false,
        bottle_collected: true,
        request_fulfilled: false,
        available_drones: 1,
    };
    let drawn = content_event_system(&e, &cfg, &mut state, &mut log);
    assert_eq!(drawn, (None, None));
    let lines: Vec<String> = log.entries.iter().cloned().collect();
    assert_eq!(lines, vec!["ECHO: Welcome aboard.", "ECHO: First haul in."]);
    assert_eq!(state.observed_triggers, vec!["first_bottle_collected".to_string()]);
}

#[test]
fn ambient_pool_weights_and_gates() {
    let cfg = config();
    assert_eq!(build_ambient_pool(&cfg.ambient, &Vec::new()), vec![0, 0]);
    assert_eq!(build_ambient_pool(&cfg.ambient, &vec!["first_bottle_collected".to_string()]), vec![0, 0, 1]);
}

#[test]
fn ambient_timer_counts_down_after_opening() {
    let cfg = config();
    let mut state = empty_state();
    let mut log = SignalLog::new();
    assert_eq!(content_ambient_system(16, OpeningPhase::Docked, &cfg, &mut state, &mut log), None);
    assert_eq!(state.ambient_timer, 0);
    assert_eq!(content_ambient_system(16, OpeningPhase::Complete, &cfg, &mut state, &mut log), None);
    assert!(state.ambient_timer >= AMBIENT_MIN_MS && state.ambient_timer <= AMBIENT_MAX_MS);
    let t = state.ambient_timer;
    assert_eq!(content_ambient_system(1000, OpeningPhase::Complete, &cfg, &mut state, &mut log), None);
    assert_eq!(state.ambient_timer, t - 1000);
    let said = content_ambient_system(state.ambient_timer, OpeningPhase::Complete, &cfg, &mut state, &mut log);
    assert_eq!(said, Some(0));
    let lines: Vec<String> = log.entries.iter().cloned().collect();
    assert_eq!(lines, vec!["ECHO: Quiet out here."]);
}

fn entry(id: &str, trigger: &str) -> LogEntry {
    LogEntry { id: id.to_string(), unlock_trigger: trigger.to_string(), title: String::new(), body: String::new() }
}

#[test]
fn logs_unlock_by_milestone() {
    let cfg = LogsConfig {
        logs: vec![
            entry("log_01", "game_start"),
            entry("log_02", "first_drone_built"),
            entry("log_03", "drone_count_3"),
            entry("log_04", "outer_ring_unlocked"),
            entry("log_05", "first_ingot_produced"),
        ],
    };
    let facts = LogFacts {
        drone_count: 1,
        any_ingots: true,
        production_tree_opened: false,
        any_components: false,
        any_canisters: false,
    };
    let mut unlocked: Vec<String> = Vec::new();
    check_log_unlocks(&cfg, &mut unlocked, Some(facts));
    assert_eq!(unlocked, vec!["log_01", "log_02", "log_05"]);
    check_log_unlocks(&cfg, &mut unlocked, Some(facts));
    assert_eq!(unlocked, vec!["log_01", "log_02", "log_05"]);
    let mut none: Vec<String> = Vec::new();
    check_log_unlocks(&cfg, &mut none, None);
    assert!(none.is_empty());
    assert!(!log_trigger_met(&"mystery".to_string(), &facts));
    assert!(log_trigger_met(&"drone_count_3".to_string(), &LogFacts { drone_count: 3, ..facts }));
}

#[test]
fn certain_pool_always_speaks_and_silent_pool_never() {
    let mut cfg = config();
    cfg.event_pools = vec![
        EventPool { trigger: "drone_returned".to_string(), chance_ppm: 1_000_000, lines: vec!["Back.".to_string()] },
        EventPool { trigger: "drone_dispatched".to_string(), chance_ppm: 1_000_000, lines: Vec::new() },
    ];
    let e = ContentEvents {
        opening_complete: false,
        drone_returned: true,
        drone_dispatched: true,
        bottle_collected: false,
        request_fulfilled: false,
        available_drones: 0,
    };
    let mut state = empty_state();
    let mut log = SignalLog::new();
    let drawn = content_event_system(&e, &cfg, &mut state, &mut log);
    assert_eq!(drawn, (Some((0, 0)), None));
    let lines: Vec<String> = log.entries.iter().cloned().collect();
    assert_eq!(lines, vec!["ECHO: Back.", "ECHO: First haul in."]);
}

#[test]
fn pool_line_comes_only_when_the_roll_is_under_the_chance() {
    let mut cfg = config();
    cfg.event_pools = vec![EventPool {
        trigger: "drone_dispatched".to_string(),
        chance_ppm: 100_000,
        lines: vec!["One.".to_string(), "Two.".to_string()],
    }];
    let mut log = SignalLog::new();
    assert_eq!(echo_pool_line("drone_dispatched", &cfg, &mut log, 100_000, 1), None);
    assert!(log.entries.is_empty());
    assert_eq!(echo_pool_line("drone_dispatched", &cfg, &mut log, 99_999, 1), Some((0, 1)));
    assert_eq!(log.entries.back().unwrap(), "ECHO: Two.");
    assert_eq!(echo_pool_line("drone_returned", &cfg, &mut log, 0, 0), None);
    assert_eq!(log.entries.len(), 1);
}

#[test]
fn ambient_step_says_the_drawn_weighted_line() {
    let cfg = config();
    let mut state = empty_state();
    let mut log = SignalLog::new();
    // Not yet complete: nothing changes.
    assert_eq!(content_ambient_step(16, OpeningPhase::Docked, &cfg, &mut state, &mut log, 0, 95_000), None);
    assert_eq!(state.ambient_timer, 0);
    // First frame: the wait is set.
    assert_eq!(content_ambient_step(16, OpeningPhase::Complete, &cfg, &mut state, &mut log, 0, 95_000), None);
    assert_eq!(state.ambient_timer, 95_000);
    assert_eq!(content_ambient_step(5_000, OpeningPhase::Complete, &cfg, &mut state, &mut log, 0, 1), None);
    assert_eq!(state.ambient_timer, 90_000);
    // The wait runs out: position 1 of the pool [0, 0] is the first line.
    assert_eq!(content_ambient_step(90_000, OpeningPhase::Complete, &cfg, &mut state, &mut log, 1, 100_000), Some(0));
    assert_eq!(state.ambient_timer, 100_000);
    assert_eq!(log.entries.back().unwrap(), "ECHO: Quiet out here.");
    // Once the bottle is seen, the pool is [0, 0, 1].
    state.observed_triggers.push("first_bottle_collected".to_string());
    assert_eq!(content_ambient_step(100_000, OpeningPhase::Complete, &cfg, &mut state, &mut log, 2, 91_000), Some(1));
    assert_eq!(log.entries.back().unwrap(), "ECHO: The bottle still hums.");
    assert_eq!(state.ambient_timer, 91_000);
}
