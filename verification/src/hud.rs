use std::collections::HashSet;
use vstd::prelude::*;
use vstd::std_specs::hash::*;
use vstd::string::*;
use crate::quest::{ObjectiveState, QuestLog};
use crate::signal::{lines_of, SignalLog};
use crate::state::DrawerState;

verus! {

broadcast use vstd::std_specs::hash::group_hash_axioms;

/// Lines the signal strip shows when collapsed.
pub const STRIP_LINES_COLLAPSED: usize = 3;

/// Lines the signal strip shows when expanded.
pub const STRIP_LINES_EXPANDED: usize = 8;

/// The drawer as the ship's state drives it: closed during the opening; opened
/// when the ship docks with the drawer closed; closed when the ship leaves with
/// the drawer open.
pub open spec fn driven_drawer(opening_complete: bool, docked: bool, drawer: DrawerState) -> DrawerState {
    if !opening_complete {
        DrawerState::Collapsed
    } else if docked && drawer == DrawerState::Collapsed {
        DrawerState::Expanded
    } else if !docked && drawer == DrawerState::Expanded {
        DrawerState::Collapsed
    } else {
        drawer
    }
}

/// Opens or closes the drawer as the ship's state requires.
pub fn drive_drawer(opening_complete: bool, docked: bool, drawer: &mut DrawerState)
    ensures
        *final(drawer) == driven_drawer(opening_complete, docked, *old(drawer)),
{
    if !opening_complete {
        *drawer = DrawerState::Collapsed;
    } else if docked && *drawer == DrawerState::Collapsed {
        *drawer = DrawerState::Expanded;
    } else if !docked && *drawer == DrawerState::Expanded {
        *drawer = DrawerState::Collapsed;
    }
}

/// Law: during the opening the drawer is closed; afterwards it is open exactly
/// when the ship is docked.
pub proof fn law_drawer_follows_docking(opening_complete: bool, docked: bool, drawer: DrawerState)
    ensures
        !opening_complete ==> driven_drawer(opening_complete, docked, drawer) == DrawerState::Collapsed,
        opening_complete ==> (driven_drawer(opening_complete, docked, drawer) == DrawerState::Expanded <==> docked),
{
}

/// The newest lines of the strip, oldest first: the last `k` of them, or all
/// when there are fewer.
pub open spec fn newest_lines(lines: Seq<Seq<char>>, k: int) -> Seq<Seq<char>> {
    if lines.len() > k {
        lines.skip(lines.len() - k)
    } else {
        lines
    }
}

/// The newest `count` lines of the strip, oldest first (all of them when there
/// are fewer).
pub fn newest_signal_lines(log: &SignalLog, count: usize) -> (shown: Vec<String>)
    ensures
        lines_of(shown@) == newest_lines(log.lines(), count as int),
{
    let n = log.entries.len();
    let start: usize = if n > count { n - count } else { 0 };
    let ghost want = newest_lines(log.lines(), count as int);
    let mut shown: Vec<String> = Vec::new();
    let mut i: usize = start;
    while i < n
        invariant
            n == log.entries@.len(),
            start <= i <= n,
            want == log.lines().skip(start as int),
            lines_of(shown@) == want.take(i - start),
        decreases n - i,
    {
        let line = log.entries[i].clone();
        let ghost before = lines_of(shown@);
        shown.push(line);
        assert(lines_of(shown@) =~= before.push(line@));
        assert(want.take(i + 1 - start) =~= want.take(i - start).push(log.lines()[i as int]));
        i += 1;
    }
    assert(want.take(n - start) =~= want);
    assert(log.lines().skip(0) =~= log.lines());
    shown
}

/// The lines the signal strip shows, oldest first: the newest eight when it is
/// expanded, the newest three otherwise.
pub fn visible_signal_lines(log: &SignalLog, expanded: bool) -> (shown: Vec<String>)
    ensures
        lines_of(shown@) == newest_lines(
            log.lines(),
            if expanded { STRIP_LINES_EXPANDED as int } else { STRIP_LINES_COLLAPSED as int },
        ),
{
    newest_signal_lines(log, if expanded { STRIP_LINES_EXPANDED } else { STRIP_LINES_COLLAPSED })
}

/// The lines the strip starts with when it is first set up.
pub open spec fn strip_seed_lines() -> Seq<Seq<char>> {
    seq!["> SIGNAL SYSTEM ONLINE"@, "> Bevy UI rendering active"@, "> Terminal green text visible"@]
}

/// Sets the strip up with its three start lines after what it holds.
pub fn seed_signal_strip(log: &mut SignalLog)
    ensures
        final(log).lines() == old(log).lines() + strip_seed_lines(),
        final(log).fired@ == old(log).fired@,
        final(log).last_fired_at@ == old(log).last_fired_at@,
{
    let ghost before = log.lines();
    log.entries.push_back(String::from_str("> SIGNAL SYSTEM ONLINE"));
    log.entries.push_back(String::from_str("> Bevy UI rendering active"));
    log.entries.push_back(String::from_str("> Terminal green text visible"));
    assert(log.lines() =~= before + strip_seed_lines());
}

/// Indices of the objectives in state `state`, in the log's order.
pub fn objectives_in_state(log: &QuestLog, state: ObjectiveState) -> (picked: Vec<usize>)
    ensures
        forall|k: int| 0 <= k < picked@.len() ==> #[trigger] picked@[k] < log.objectives@.len()
            && log.objectives@[picked@[k] as int].state == state,
        forall|k: int, l: int| 0 <= k < l < picked@.len() ==> #[trigger] picked@[k] < #[trigger] picked@[l],
        forall|j: int| 0 <= j < log.objectives@.len() && #[trigger] log.objectives@[j].state == state
            ==> picked@.contains(j as usize),
{
    let mut picked: Vec<usize> = Vec::new();
    let mut i: usize = 0;
    while i < log.objectives.len()
        invariant
            0 <= i <= log.objectives@.len(),
            forall|k: int| 0 <= k < picked@.len() ==> #[trigger] picked@[k] < i
                && log.objectives@[picked@[k] as int].state == state,
            forall|k: int, l: int| 0 <= k < l < picked@.len() ==> #[trigger] picked@[k] < #[trigger] picked@[l],
            forall|j: int| 0 <= j < i && #[trigger] log.objectives@[j].state == state ==> picked@.contains(j as usize),
        decreases log.objectives@.len() - i,
    {
        if log.objectives[i].state == state {
            let ghost before = picked@;
            picked.push(i);
            proof {
                assert forall|j: int| 0 <= j < i + 1 && #[trigger] log.objectives@[j].state == state
                    implies picked@.contains(j as usize) by {
                    if j < i {
                        let k = choose|k: int| 0 <= k < before.len() && before[k] == j as usize;
                        assert(picked@[k] == j as usize);
                    } else {
                        assert(picked@[before.len() as int] == i);
                    }
                }
            }
        }
        i += 1;
    }
    picked
}

/// A tutorial pop-up: its id, what it says and the label of its button.
pub struct TutorialPopup {
    pub id: u32,
    pub title: String,
    pub body: String,
    pub button_label: String,
}

/// Which tutorial pop-ups were shown, and the one on screen.
pub struct TutorialState {
    pub shown: HashSet<u32>,
    pub active: Option<TutorialPopup>,
}

impl TutorialState {
    /// No pop-up shown yet and none on screen.
    pub fn new() -> (t: TutorialState)
        ensures
            t.shown@ == Set::<u32>::empty(),
            t.active is None,
    {
        TutorialState { shown: HashSet::new(), active: None }
    }
}

/// Dismisses the pop-up on screen (by its button or a tap elsewhere): it counts
/// as shown and leaves the screen. Without one nothing changes.
pub fn dismiss_tutorial(t: &mut TutorialState)
    ensures
        match old(t).active {
            Some(p) => final(t).shown@ == old(t).shown@.insert(p.id) && final(t).active is None,
            None => final(t).shown@ == old(t).shown@ && final(t).active is None,
        },
{
    if let Some(p) = &t.active {
        let id = p.id;
        t.shown.insert(id);
        t.active = None;
    }
}

/// The first tutorial pop-up id that a loaded game skips.
pub const FIRST_OPENING_TUTORIAL: u32 = 101;

/// The last tutorial pop-up id that a loaded game skips.
pub const LAST_OPENING_TUTORIAL: u32 = 106;

/// Marks the tutorial pop-ups of a first session as shown, so that a loaded
/// game does not show them again.
pub fn skip_tutorials_for_loaded_game(t: &mut TutorialState)
    ensures
        final(t).shown@ == old(t).shown@.union(
            Set::new(|id: u32| FIRST_OPENING_TUTORIAL <= id <= LAST_OPENING_TUTORIAL),
        ),
        final(t).active == old(t).active,
{
    let mut id: u32 = FIRST_OPENING_TUTORIAL;
    while id <= LAST_OPENING_TUTORIAL
        invariant
            FIRST_OPENING_TUTORIAL <= id <= LAST_OPENING_TUTORIAL + 1,
            t.shown@ == old(t).shown@.union(Set::new(|x: u32| FIRST_OPENING_TUTORIAL <= x < id)),
            t.active == old(t).active,
        decreases LAST_OPENING_TUTORIAL + 1 - id,
    {
        t.shown.insert(id);
        assert(t.shown@ =~= old(t).shown@.union(Set::new(|x: u32| FIRST_OPENING_TUTORIAL <= x < id + 1)));
        id += 1;
    }
    assert(t.shown@ =~= old(t).shown@.union(
        Set::new(|x: u32| FIRST_OPENING_TUTORIAL <= x <= LAST_OPENING_TUTORIAL),
    ));
}

/// The station log after an entry is added: an entry equal to the last one is
/// dropped; otherwise it is appended, and the oldest entry goes when the log
/// then holds more than `max_lines`.
pub open spec fn station_log_after(log: Seq<Seq<char>>, entry: Seq<char>, max_lines: int) -> Seq<Seq<char>> {
    if log.len() > 0 && log.last() == entry {
        log
    } else if log.len() + 1 > max_lines {
        log.push(entry).drop_first()
    } else {
        log.push(entry)
    }
}

/// Adds an entry to the station log (see `station_log_after`).
pub fn add_log_entry(log: &mut std::collections::VecDeque<String>, entry: String, max_lines: usize)
    ensures
        lines_of(final(log)@) == station_log_after(lines_of(old(log)@), entry@, max_lines as int),
{
    let n = log.len();
    if n > 0 {
        let same = log[n - 1] == entry;
        if same {
            assert(lines_of(old(log)@).last() == entry@);
            return;
        }
        assert(lines_of(old(log)@).last() != entry@);
    }
    let ghost before = lines_of(log@);
    log.push_back(entry);
    assert(lines_of(log@) =~= before.push(entry@));
    if log.len() > max_lines {
        let _ = log.pop_front();
        assert(lines_of(log@) =~= before.push(entry@).drop_first());
    }
}

/// Law: the station log ends with the entry just added, never holds it twice
/// in a row from one addition, and a log within `max_lines` (at least one) stays
/// within it.
pub proof fn law_station_log_bounded_without_repeats(log: Seq<Seq<char>>, entry: Seq<char>, max_lines: int)
    requires
        max_lines >= 1,
    ensures
        station_log_after(log, entry, max_lines).last() == entry,
        station_log_after(station_log_after(log, entry, max_lines), entry, max_lines)
            == station_log_after(log, entry, max_lines),
        log.len() <= max_lines ==> station_log_after(log, entry, max_lines).len() <= max_lines,
{
}

} // verus!
