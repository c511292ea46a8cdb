use voidrift::menu::{
    apply_dev_mode_signal, continue_label, format_timestamp, play_save_request, register_title_tap, relative_age,
    save_entry_label, shown_save_count, stage_save_request, stage_save_request_at, DEV_MODE_TAPS,
};
use voidrift::persistence::SaveCategory;
use voidrift::signal::SignalLog;

#[test]
fn seven_taps_unlock_developer_mode() {
    let mut taps: u8 = 0;
    let mut dev = false;
    for _ in 0..(DEV_MODE_TAPS - 1) {
        register_title_tap(&mut taps, &mut dev);
    }
    assert!(!dev);
    register_title_tap(&mut taps, &mut dev);
    assert!(dev);
    assert_eq!(taps, 7);
}

#[test]
fn developer_mode_is_announced_once() {
    let mut log = SignalLog::new();
    let mut fired = false;
    apply_dev_mode_signal(false, &mut fired, &mut log);
    assert!(log.entries.is_empty());
    assert!(!fired);
    apply_dev_mode_signal(true, &mut fired, &mut log);
    apply_dev_mode_signal(true, &mut fired, &mut log);
    let lines: Vec<String> = log.entries.iter().cloned().collect();
    assert_eq!(lines, vec!["ECHO: DEVELOPER MODE ENABLED.", "ECHO: STAGE SAVES NOW ACCESSIBLE."]);
    assert!(fired);
}

#[test]
fn relative_ages() {
    assert_eq!(relative_age(100, 159), "59s ago");
    assert_eq!(relative_age(100, 160), "1m ago");
    assert_eq!(relative_age(0, 3599), "59m ago");
    assert_eq!(relative_age(0, 3600), "1h ago");
    assert_eq!(relative_age(0, 7300), "2h ago");
    assert_eq!(relative_age(500, 100), "0s ago");
}

#[test]
fn timestamps_that_are_not_seconds_are_shown_as_written() {
    assert_eq!(format_timestamp("2024-01-01", 50), "2024-01-01");
    assert_eq!(format_timestamp("40", 50), "10s ago");
    assert_eq!(format_timestamp("x", 5), "x");
    assert_eq!(format_timestamp("0", 120), "2m ago");
    assert_eq!(format_timestamp("+40", 50), "10s ago");
    assert_eq!(format_timestamp("0040", 50), "10s ago");
    assert_eq!(format_timestamp("-5", 50), "-5");
    assert_eq!(format_timestamp("+", 50), "+");
    assert_eq!(format_timestamp(" 40", 50), " 40");
    assert_eq!(format_timestamp("18446744073709551616", 50), "18446744073709551616");
}

#[test]
fn save_buttons() {
    assert_eq!(continue_label(true), "CONTINUE");
    assert_eq!(continue_label(false), "CONTINUE  (no autosave)");
    assert_eq!(save_entry_label("Run", 7, "3m ago"), "Run    3m ago");
    assert_eq!(save_entry_label("Run", 6, "3m ago"), "Run  [VERSION MISMATCH]");
    assert_eq!(shown_save_count(3), 3);
    assert_eq!(shown_save_count(20), 20);
    assert_eq!(shown_save_count(45), 20);
}

#[test]
fn save_requests() {
    let r = play_save_request(&String::new());
    assert_eq!(r.name, "quicksave");
    assert_eq!(r.category, SaveCategory::Play);
    assert!(r.description.is_empty());
    let r = play_save_request(&"mine".to_string());
    assert_eq!(r.name, "mine");

    assert!(stage_save_request(&"snap".to_string(), false).is_none());
    assert!(stage_save_request(&String::new(), true).is_none());
    let r = stage_save_request_at(&"snap".to_string(), true, "2025-03-04 05:06").unwrap();
    assert_eq!(r.name, "snap");
    assert_eq!(r.category, SaveCategory::Stage);
    assert_eq!(r.description, "Stage save - 2025-03-04 05:06");
    let r = stage_save_request(&"snap".to_string(), true).unwrap();
    assert!(r.description.starts_with("Stage save - "));
    assert_eq!(r.description.len(), "Stage save - ".len() + 16);
}
