use vstd::prelude::*;
use vstd::string::*;
use crate::persistence::{decimal_string, decimal_text, SaveCategory, SAVE_VERSION};
use crate::signal::SignalLog;
use crate::text::{parse_u64, parsed_u64};

verus! {

/// Taps on the title that switch developer mode on.
pub const DEV_MODE_TAPS: u8 = 7;

/// Counts a tap on the title; the seventh tap (and every later one) switches
/// developer mode on.
pub fn register_title_tap(taps: &mut u8, developer_mode: &mut bool)
    requires
        *old(taps) < u8::MAX,
    ensures
        *final(taps) == *old(taps) + 1,
        *final(developer_mode) == (*old(developer_mode) || *final(taps) >= DEV_MODE_TAPS),
{
    *taps = *taps + 1;
    if *taps >= DEV_MODE_TAPS {
        *developer_mode = true;
    }
}

/// The lines the strip shows once a session runs in developer mode.
pub open spec fn dev_mode_lines() -> Seq<Seq<char>> {
    seq!["ECHO: DEVELOPER MODE ENABLED."@, "ECHO: STAGE SAVES NOW ACCESSIBLE."@]
}

/// Announces developer mode on the strip, once per session.
pub fn apply_dev_mode_signal(developer_mode: bool, signal_fired: &mut bool, log: &mut SignalLog)
    ensures
        *final(signal_fired) == (*old(signal_fired) || developer_mode),
        final(log).lines() == (if developer_mode && !*old(signal_fired) {
            old(log).lines() + dev_mode_lines()
        } else {
            old(log).lines()
        }),
        final(log).fired@ == old(log).fired@,
        final(log).last_fired_at@ == old(log).last_fired_at@,
{
    if developer_mode && !*signal_fired {
        let ghost before = log.lines();
        log.entries.push_back(String::from_str("ECHO: DEVELOPER MODE ENABLED."));
        log.entries.push_back(String::from_str("ECHO: STAGE SAVES NOW ACCESSIBLE."));
        assert(log.lines() =~= before + dev_mode_lines());
        *signal_fired = true;
    }
}

/// The label of the continue button.
pub fn continue_label(has_autosave: bool) -> (label: &'static str)
    ensures
        label@ == (if has_autosave { "CONTINUE"@ } else { "CONTINUE  (no autosave)"@ }),
{
    if has_autosave {
        "CONTINUE"
    } else {
        "CONTINUE  (no autosave)"
    }
}

/// Most saves a list on the menu shows.
pub const SAVE_LIST_MAX: usize = 20;

/// How many saves of a list the menu shows: the first twenty at most.
pub fn shown_save_count(saves: usize) -> (shown: usize)
    ensures
        shown == (if saves < SAVE_LIST_MAX { saves } else { SAVE_LIST_MAX }),
{
    if saves < SAVE_LIST_MAX {
        saves
    } else {
        SAVE_LIST_MAX
    }
}

/// How long ago a save was made, from its second and the current one: seconds
/// under a minute, whole minutes under an hour, whole hours beyond. A save from
/// the future counts as zero seconds old.
pub open spec fn spec_relative_age(saved: u64, now: u64) -> Seq<char> {
    let diff: nat = if now >= saved { (now - saved) as nat } else { 0 };
    if diff < 60 {
        decimal_text(diff) + "s ago"@
    } else if diff < 3600 {
        decimal_text(diff / 60) + "m ago"@
    } else {
        decimal_text(diff / 3600) + "h ago"@
    }
}

/// How long ago a save was made (see `spec_relative_age`).
pub fn relative_age(saved: u64, now: u64) -> (age: String)
    ensures
        age@ == spec_relative_age(saved, now),
{
    let diff = now.saturating_sub(saved);
    if diff < 60 {
        let mut text = decimal_string(diff);
        text.append("s ago");
        text
    } else if diff < 3600 {
        let mut text = decimal_string(diff / 60);
        text.append("m ago");
        text
    } else {
        let mut text = decimal_string(diff / 3600);
        text.append("h ago");
        text
    }
}

/// The age shown for a save's timestamp at second `now` of play time: the
/// relative age when the timestamp reads as a second count, the timestamp
/// itself otherwise.
pub fn format_timestamp(ts: &str, now: u64) -> (label: String)
    ensures
        label@ == (match parsed_u64(ts@) {
            Some(secs) => spec_relative_age(secs, now),
            None => ts@,
        }),
{
    match parse_u64(ts) {
        Some(secs) => relative_age(secs, now),
        None => ts.to_owned(),
    }
}

/// The text of a save's button: its name and age, or its name marked as a
/// version mismatch when it was written by another version.
pub fn save_entry_label(name: &str, version: u32, age: &str) -> (label: String)
    ensures
        label@ == (if version == SAVE_VERSION {
            name@ + "    "@ + age@
        } else {
            name@ + "  [VERSION MISMATCH]"@
        }),
{
    let mut label = String::from_str(name);
    if version == SAVE_VERSION {
        label.append("    ");
        label.append(age);
    } else {
        label.append("  [VERSION MISMATCH]");
    }
    label
}

/// A request to save the game.
pub struct SaveRequest {
    pub name: String,
    pub category: SaveCategory,
    pub description: String,
}

/// The player's save: under the name typed, or "quicksave" when none was typed.
pub fn play_save_request(input: &String) -> (req: SaveRequest)
    ensures
        req.name@ == (if input@.len() == 0 { "quicksave"@ } else { input@ }),
        req.category == SaveCategory::Play,
        req.description@ == Seq::<char>::empty(),
{
    let name = if input.as_str().unicode_len() == 0 { String::from_str("quicksave") } else { input.clone() };
    SaveRequest { name, category: SaveCategory::Play, description: String::new() }
}

/// Reads the local date and time, to the minute, with
/// `chrono::Local::now().format("%Y-%m-%d %H:%M")`. What it returns depends on
/// the clock and the machine's time zone, so nothing is claimed of it.
#[verifier::external_body]
fn local_minute_stamp() -> (stamp: String) {
    chrono::Local::now().format("%Y-%m-%d %H:%M").to_string()
}

/// A developer snapshot, given the local time read for it: only in developer
/// mode and under a typed name, described as a stage save of that time.
pub fn stage_save_request_at(input: &String, developer_mode: bool, stamp: &str) -> (req: Option<SaveRequest>)
    ensures
        match req {
            Some(r) => developer_mode && input@.len() > 0 && r.name@ == input@ && r.category == SaveCategory::Stage
                && r.description@ == "Stage save - "@ + stamp@,
            None => !developer_mode || input@.len() == 0,
        },
{
    if developer_mode && input.as_str().unicode_len() > 0 {
        let mut description = String::from_str("Stage save - ");
        description.append(stamp);
        Some(SaveRequest { name: input.clone(), category: SaveCategory::Stage, description })
    } else {
        None
    }
}

/// A developer snapshot stamped with the local time: only in developer mode
/// and under a typed name.
pub fn stage_save_request(input: &String, developer_mode: bool) -> (req: Option<SaveRequest>)
    ensures
        match req {
            Some(r) => developer_mode && input@.len() > 0 && r.name@ == input@ && r.category == SaveCategory::Stage
                && "Stage save - "@.is_prefix_of(r.description@),
            None => !developer_mode || input@.len() == 0,
        },
{
    if developer_mode && input.as_str().unicode_len() > 0 {
        let stamp = local_minute_stamp();
        let req = stage_save_request_at(input, developer_mode, stamp.as_str());
        proof {
            if req is Some {
                let d = req->0.description@;
                assert(d.take("Stage save - "@.len() as int) =~= "Stage save - "@);
            }
        }
        req
    } else {
        None
    }
}

} // verus!
