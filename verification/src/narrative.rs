use vstd::prelude::*;
use crate::economy::{
    collect_first_light, first_light_card, first_light_count, has_request, lemma_first_light_count_zero, with_first_light,
    CollectedRequest, RequestId, RequestsTabState, ShipQueue,
};
use crate::signal::{bounded_push, push_bounded, push_front_bounded, SignalLog, SIGNAL_LOG_MAX};
use crate::state::GameState;

verus! {

/// The warning shown when a ship's laser is too weak for its target.
pub open spec fn spec_laser_warning_text() -> Seq<char> {
    "> INSUFFICIENT LASER RATING. UPGRADE REQUIRED."@
}

/// The message the bottle carries.
pub open spec fn spec_bottle_signal_text() -> Seq<char> {
    "SIGNAL RECEIVED — ORIGIN UNKNOWN\nFrequency matched. You were expected.\nWe have observed your work. It is... acceptable.\nA proposal follows."@
}

/// The warning shown when a ship's laser is too weak for its target.
pub fn laser_warning_text() -> (t: &'static str)
    ensures
        t@ == spec_laser_warning_text(),
{
    "> INSUFFICIENT LASER RATING. UPGRADE REQUIRED."
}

/// The message the bottle carries.
pub fn bottle_signal_text() -> (t: &'static str)
    ensures
        t@ == spec_bottle_signal_text(),
{
    "SIGNAL RECEIVED — ORIGIN UNKNOWN\nFrequency matched. You were expected.\nWe have observed your work. It is... acceptable.\nA proposal follows."
}

/// The strip after `n` laser warnings, each put at the front and dropped again
/// when the strip is full.
pub open spec fn front_warnings(lines: Seq<Seq<char>>, line: Seq<char>, n: nat) -> Seq<Seq<char>>
    decreases n,
{
    if n == 0 {
        lines
    } else {
        let prev = front_warnings(lines, line, (n - 1) as nat);
        if prev.len() + 1 > SIGNAL_LOG_MAX {
            prev
        } else {
            seq![line] + prev
        }
    }
}

/// The strip after `n` bounded pushes of `line`.
pub open spec fn bounded_pushes(lines: Seq<Seq<char>>, line: Seq<char>, n: nat) -> Seq<Seq<char>>
    decreases n,
{
    if n == 0 {
        lines
    } else {
        bounded_push(bounded_pushes(lines, line, (n - 1) as nat), line)
    }
}

/// Events the story reacts to in one frame.
pub struct NarrativeEvents {
    /// Ships that found their laser too weak.
    pub insufficient_laser: u32,
    /// Drones that came back with the bottle.
    pub bottle_docks: u32,
    /// Ends of the opening sequence (the opening ship becomes a mining drone).
    pub opening_complete: u32,
}

/// Reacts to the frame's story events: a laser warning per weak laser, the
/// bottle's message per delivery together with the First Light card (once),
/// and one more drone in the queue per end of the opening, whose ship becomes
/// a Mining drone (done by the caller). Returns whether the station must resume
/// its rotation (an opening ended and a station exists).
pub fn narrative_event_system(
    log: &mut SignalLog,
    tab: &mut RequestsTabState,
    queue: &mut ShipQueue,
    events: &NarrativeEvents,
    station_present: bool,
) -> (resume_station: bool)
    requires
        old(queue).available_count + events.opening_complete <= u32::MAX,
    ensures
        final(log).lines() == bounded_pushes(
            front_warnings(old(log).lines(), spec_laser_warning_text(), events.insufficient_laser as nat),
            spec_bottle_signal_text(),
            events.bottle_docks as nat,
        ),
        final(log).fired@ == old(log).fired@,
        final(log).last_fired_at@ == old(log).last_fired_at@,
        final(tab).collected_requests@ == (if events.bottle_docks > 0 {
            with_first_light(old(tab).collected_requests@)
        } else {
            old(tab).collected_requests@
        }),
        final(tab).selected_faction == old(tab).selected_faction,
        final(tab).visited_after_t106 == old(tab).visited_after_t106,
        final(queue).available_count == old(queue).available_count + events.opening_complete,
        resume_station == (events.opening_complete > 0 && station_present),
{
    let mut n: u32 = 0;
    while n < events.insufficient_laser
        invariant
            0 <= n <= events.insufficient_laser,
            log.lines() == front_warnings(old(log).lines(), spec_laser_warning_text(), n as nat),
            log.fired@ == old(log).fired@,
            log.last_fired_at@ == old(log).last_fired_at@,
        decreases events.insufficient_laser - n,
    {
        push_front_bounded(log, laser_warning_text().to_owned());
        n += 1;
    }
    let ghost warned = log.lines();
    let mut b: u32 = 0;
    while b < events.bottle_docks
        invariant
            0 <= b <= events.bottle_docks,
            log.lines() == bounded_pushes(warned, spec_bottle_signal_text(), b as nat),
            log.fired@ == old(log).fired@,
            log.last_fired_at@ == old(log).last_fired_at@,
            tab.collected_requests@ == (if b > 0 {
                with_first_light(old(tab).collected_requests@)
            } else {
                old(tab).collected_requests@
            }),
            tab.selected_faction == old(tab).selected_faction,
            tab.visited_after_t106 == old(tab).visited_after_t106,
        decreases events.bottle_docks - b,
    {
        push_bounded(log, bottle_signal_text().to_owned());
        let _ = collect_first_light(tab);
        proof {
            let r = old(tab).collected_requests@;
            if !has_request(r, RequestId::FirstLight) {
                let after = r.push(crate::economy::first_light_card());
                assert(after[r.len() as int].id == RequestId::FirstLight);
                assert(has_request(after, RequestId::FirstLight));
            }
        }
        b += 1;
    }
    queue.available_count = queue.available_count + events.opening_complete;
    events.opening_complete > 0 && station_present
}

/// Whether the bottle timer still runs: once the First Light card is held (the
/// bottle was collected in a loaded game) the bottle counts as spawned and the
/// timer stops for good. `spawned` is updated to match.
pub fn bottle_timer_runs(spawned: &mut bool, tab: &RequestsTabState) -> (runs: bool)
    ensures
        *final(spawned) == (*old(spawned) || has_request(tab.collected_requests@, RequestId::FirstLight)),
        runs == !*final(spawned),
{
    if crate::economy::holds_request(&tab.collected_requests, RequestId::FirstLight) {
        *spawned = true;
    }
    !*spawned
}

/// Whether a tap may dispatch a drone to the bottle: the opening is over, the
/// production tree is closed, the interface does not claim the pointer, fewer
/// than two fingers touch the screen and a drone is ready.
pub fn bottle_input_allowed(
    opening_complete: bool,
    production_tree_open: bool,
    ui_wants_pointer: bool,
    touch_count: u32,
    queue: &ShipQueue,
) -> (allowed: bool)
    ensures
        allowed == (opening_complete && !production_tree_open && !ui_wants_pointer && touch_count < 2
            && queue.available_count > 0),
{
    opening_complete && !production_tree_open && !ui_wants_pointer && touch_count < 2 && queue.available_count > 0
}

/// Whether a tap may send an idle drone to an asteroid: the opening is over,
/// the production tree is closed, no tutorial pop-up is shown, the interface
/// does not claim the pointer, fewer than two fingers touch the screen and an
/// idle drone exists.
pub fn asteroid_input_allowed(
    opening_complete: bool,
    production_tree_open: bool,
    tutorial_shown: bool,
    ui_wants_pointer: bool,
    touch_count: u32,
    idle_drone_exists: bool,
) -> (allowed: bool)
    ensures
        allowed == (opening_complete && !production_tree_open && !tutorial_shown && !ui_wants_pointer
            && touch_count < 2 && idle_drone_exists),
{
    opening_complete && !production_tree_open && !tutorial_shown && !ui_wants_pointer && touch_count < 2
        && idle_drone_exists
}

/// The view after a drone was dispatched from the map: the map closes onto
/// the space view; the space view stays.
pub fn view_after_dispatch(view: GameState) -> (next: GameState)
    ensures
        next == GameState::SpaceView,
{
    match view {
        GameState::MapView => GameState::SpaceView,
        GameState::SpaceView => view,
    }
}

proof fn lemma_front_warnings_len(lines: Seq<Seq<char>>, line: Seq<char>, n: nat)
    ensures
        front_warnings(lines, line, n).len() <= if lines.len() > SIGNAL_LOG_MAX { lines.len() } else { SIGNAL_LOG_MAX as nat },
    decreases n,
{
    if n > 0 {
        lemma_front_warnings_len(lines, line, (n - 1) as nat);
    }
}

proof fn lemma_bounded_pushes_len(lines: Seq<Seq<char>>, line: Seq<char>, n: nat)
    ensures
        bounded_pushes(lines, line, n).len() <= if lines.len() > SIGNAL_LOG_MAX { lines.len() } else { SIGNAL_LOG_MAX as nat },
    decreases n,
{
    if n > 0 {
        lemma_bounded_pushes_len(lines, line, (n - 1) as nat);
    }
}

/// Law: after a frame with any number of bottle deliveries (one or more), a
/// station that held at most one First Light card holds exactly one; and a
/// frame's warnings and bottle messages never grow the strip past the larger of
/// its length and `SIGNAL_LOG_MAX`.
pub proof fn law_bottle_leaves_one_first_light(
    reqs: Seq<CollectedRequest>,
    lines: Seq<Seq<char>>,
    warnings: nat,
    deliveries: nat,
)
    requires
        first_light_count(reqs) <= 1,
    ensures
        first_light_count(with_first_light(reqs)) == 1,
        bounded_pushes(front_warnings(lines, spec_laser_warning_text(), warnings), spec_bottle_signal_text(), deliveries).len()
            <= if lines.len() > SIGNAL_LOG_MAX { lines.len() } else { SIGNAL_LOG_MAX as nat },
{
    lemma_first_light_count_zero(reqs);
    if !has_request(reqs, RequestId::FirstLight) {
        let after = reqs.push(first_light_card());
        assert(after.drop_last() =~= reqs);
    }
    let w = front_warnings(lines, spec_laser_warning_text(), warnings);
    lemma_front_warnings_len(lines, spec_laser_warning_text(), warnings);
    lemma_bounded_pushes_len(w, spec_bottle_signal_text(), deliveries);
}

} // verus!
