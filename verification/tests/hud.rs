use voidrift::hud::{
    add_log_entry, dismiss_tutorial, drive_drawer, objectives_in_state, skip_tutorials_for_loaded_game, visible_signal_lines,
    TutorialPopup, TutorialState,
};
use voidrift::quest::{init_quest_log, ObjectiveState};
use voidrift::signal::SignalLog;
use voidrift::state::DrawerState;

#[test]
fn drawer_follows_docking() {
    let mut d = DrawerState::Expanded;
    drive_drawer(false, true, &mut d);
    assert_eq!(d, DrawerState::Collapsed);
    drive_drawer(true, true, &mut d);
    assert_eq!(d, DrawerState::Expanded);
    drive_drawer(true, true, &mut d);
    assert_eq!(d, DrawerState::Expanded);
    drive_drawer(true, false, &mut d);
    assert_eq!(d, DrawerState::Collapsed);
    drive_drawer(true, false, &mut d);
    assert_eq!(d, DrawerState::Collapsed);
}

#[test]
fn strip_shows_newest_lines_oldest_first() {
    let mut log = SignalLog::new();
    for i in 0..10 {
        log.entries.push_back(format!("L{i}"));
    }
    assert_eq!(visible_signal_lines(&log, false), vec!["L7", "L8", "L9"]);
    assert_eq!(visible_signal_lines(&log, true), vec!["L2", "L3", "L4", "L5", "L6", "L7", "L8", "L9"]);
    let mut short = SignalLog::new();
    short.entries.push_back("only".to_string());
    assert_eq!(visible_signal_lines(&short, true), vec!["only"]);
    assert!(visible_signal_lines(&SignalLog::new(), false).is_empty());
}

#[test]
fn objectives_split_by_state() {
    let log = init_quest_log();
    assert_eq!(objectives_in_state(&log, ObjectiveState::Active), vec![0, 4]);
    assert_eq!(objectives_in_state(&log, ObjectiveState::Locked), vec![1, 2, 3, 5, 6]);
    assert!(objectives_in_state(&log, ObjectiveState::Complete).is_empty());
}

#[test]
fn dismissing_a_tutorial_marks_it_shown() {
    let mut t = TutorialState::new();
    t.active = Some(TutorialPopup {
        id: 102,
        title: "T".to_string(),
        body: "B".to_string(),
        button_label: "OK".to_string(),
    });
    dismiss_tutorial(&mut t);
    assert!(t.active.is_none());
    assert!(t.shown.contains(&102));
    assert_eq!(t.shown.len(), 1);
    dismiss_tutorial(&mut t);
    assert_eq!(t.shown.len(), 1);
}

#[test]
fn loaded_game_skips_first_session_tutorials() {
    let mut t = TutorialState::new();
    t.shown.insert(7);
    skip_tutorials_for_loaded_game(&mut t);
    for id in 101..=106 {
        assert!(t.shown.contains(&id));
    }
    assert!(t.shown.contains(&7));
    assert_eq!(t.shown.len(), 7);
}

#[test]
fn station_log_skips_repeats_and_stays_bounded() {
    let mut log: std::collections::VecDeque<String> = std::collections::VecDeque::new();
    add_log_entry(&mut log, "a".to_string(), 2);
    add_log_entry(&mut log, "a".to_string(), 2);
    assert_eq!(log, vec!["a".to_string()]);
    add_log_entry(&mut log, "b".to_string(), 2);
    add_log_entry(&mut log, "c".to_string(), 2);
    assert_eq!(log, vec!["b".to_string(), "c".to_string()]);
    add_log_entry(&mut log, "b".to_string(), 2);
    assert_eq!(log, vec!["c".to_string(), "b".to_string()]);
}
