use std::collections::HashMap;
use vstd::prelude::*;
use vstd::std_specs::hash::*;
use crate::signal::{SIGNAL_LOG_MAX, SignalLog, bounded_push, cooled_down, emit, emit_refirable};
use crate::state::{OpeningPhase, StationDockState};

verus! {

broadcast use vstd::std_specs::hash::group_hash_axioms;

/// What the signal feed reads of the station each frame. Reserves are real
/// amounts; the feed needs only whether iron and tungsten are present and the
/// whole units of iron held (rounded down).
#[derive(Clone, Copy)]
pub struct StationSignals {
    pub has_iron: bool,
    pub iron_whole: u32,
    pub has_tungsten: bool,
    pub online: bool,
    pub has_ai_cores: bool,
    pub has_hull_plates: bool,
    pub dock_state: StationDockState,
    /// Whether any refinery or forge queue holds a job.
    pub processing_active: bool,
}

/// Everything the signal feed looks at in one frame. Times are milliseconds.
#[derive(Clone, Copy)]
pub struct SignalWorld {
    pub now: u64,
    pub phase: OpeningPhase,
    pub opening_timer: u64,
    pub pause_s2: u64,
    pub pause_dock_report: u64,
    pub pause_complete: u64,
    pub station: Option<StationSignals>,
    pub available_drones: u32,
    /// Whether the opening ship is docked.
    pub opening_ship_docked: bool,
}

/// Iron held below this many whole units is reported as critical.
pub const IRON_CRITICAL_BELOW: u32 = 5;
/// The critical-iron signal re-arms once this many whole units are held.
pub const IRON_RECOVERED_AT: u32 = 15;
/// Whole units of iron at which repairs become possible.
pub const REPAIR_THRESHOLD: u32 = 25;
/// Wait after the manual smelter line before the manual forge line.
pub const FORGE_LINE_DELAY_MS: u64 = 1000;
/// Wait after the first AI core line before the sector 7 line.
pub const SECTOR_SCAN_DELAY_MS: u64 = 3000;

/// The line each signal prints.
pub open spec fn signal_line(id: u32) -> Seq<char> {
    if id == 1 { "> SIGNAL RECEIVED."@ }
    else if id == 2 { "> SOURCE IDENTIFIED. BEARING 047."@ }
    else if id == 3 { "> MOVING TO INVESTIGATE."@ }
    else if id == 4 { "> STRUCTURE DETECTED. DERELICT CLASS."@ }
    else if id == 5 { "> DOCKING COMPLETE."@ }
    else if id == 6 { "> POWER OFFLINE. STRUCTURAL INTEGRITY: 73%."@ }
    else if id == 7 { "> REPAIRS POSSIBLE. MATERIALS REQUIRED."@ }
    else if id == 8 { "> IRON ACQUIRED. REFINERY READY."@ }
    else if id == 9 { "> TUNGSTEN PRODUCED. REPAIR THRESHOLD: 25."@ }
    else if id == 10 { "> REPAIR THRESHOLD MET. INITIATE WHEN READY."@ }
    else if id == 11 { "> POWER RESTORED. STATION ONLINE."@ }
    else if id == 12 { "> AI CORE FABRICATION NOW AVAILABLE."@ }
    else if id == 13 { "> AI CORE NOMINAL. SECTOR 7 SCAN INITIATED."@ }
    else if id == 14 { "> CARBON SIGNATURE DETECTED. BEARING 047. DESIGNATION: SECTOR 7."@ }
    else if id == 15 { "> HULL PLATE FABRICATED. FORGE AVAILABLE."@ }
    else if id == 16 { "> SHIP HULL COMPLETE. ASSEMBLY POSSIBLE."@ }
    else if id == 17 { "> AUTONOMOUS UNIT READY. AWAITING ASSIGNMENT."@ }
    else if id == 18 { "> FLEET STRENGTH GROWING."@ }
    else if id == 19 { "> MATERIAL RESERVES CRITICAL. MINING RUN REQUIRED."@ }
    else if id == 25 { "> SMELTER OPERATIONAL. MANUAL MODE."@ }
    else if id == 26 { "> FORGE OPERATIONAL. MANUAL MODE."@ }
    else if id == 27 { "> AUTOMATED SYSTEMS ONLINE."@ }
    else if id == 28 { "> INCOMING VESSEL DETECTED. DOCKING SEQUENCE INITIATED."@ }
    else if id == 29 { "> ROTATION SUSPENDED. BERTH ALIGNED."@ }
    else if id == 30 { "> DOCKING COMPLETE. ROTATION RESUMING."@ }
    else if id == 31 { "> VESSEL DEPARTED. BERTH CLEAR."@ }
    else if id == 32 { "> INDUSTRIAL PROCESSING ACTIVE. PARALLEL QUEUES COMMENCED."@ }
    else if id == 33 { "> PROCESSING QUEUES EMPTY. PRODUCTION HALTED."@ }
    else { ""@ }
}

/// The signals that re-arm and may fire again.
pub open spec fn is_refirable(id: u32) -> bool {
    id == 19 || (28 <= id && id <= 33)
}

/// The feed as a mathematical value: strip lines, fired ids, fire times, and the
/// ids fired during the current frame, in order.
#[verifier::ext_equal]
pub struct FeedState {
    pub lines: Seq<Seq<char>>,
    pub fired: Set<u32>,
    pub last: Map<u32, u64>,
    pub out: Seq<u32>,
}

pub open spec fn feed_of(log: &SignalLog, out: Seq<u32>) -> FeedState {
    FeedState { lines: log.lines(), fired: log.fired@, last: log.last_fired_at@, out: out }
}

/// One-shot emission of `id`.
pub open spec fn emit_step(s: FeedState, id: u32) -> FeedState {
    if s.fired.contains(id) {
        s
    } else {
        FeedState {
            lines: bounded_push(s.lines, signal_line(id)),
            fired: s.fired.insert(id),
            last: s.last,
            out: s.out.push(id),
        }
    }
}

/// One-shot emission of `id` that also records its time when it fires.
pub open spec fn emit_stamped_step(s: FeedState, id: u32, now: u64) -> FeedState {
    if s.fired.contains(id) {
        s
    } else {
        let e = emit_step(s, id);
        FeedState { last: e.last.insert(id, now), ..e }
    }
}

/// Refirable emission of `id`.
pub open spec fn refire_step(s: FeedState, id: u32, now: u64, condition: bool, reset: bool) -> FeedState {
    if condition && !s.fired.contains(id) && cooled_down(s.last, id, now) {
        emit_stamped_step(s, id, now)
    } else if reset {
        FeedState { fired: s.fired.remove(id), ..s }
    } else {
        s
    }
}

/// Emission of `id` once `delay` has passed since `anchor` last fired
/// (and `anchor` has fired).
pub open spec fn delayed_step(s: FeedState, id: u32, anchor: u32, now: u64, delay: u64) -> FeedState {
    if s.fired.contains(anchor) && s.last.contains_key(anchor) && now >= s.last[anchor]
        && now - s.last[anchor] >= delay {
        emit_step(s, id)
    } else {
        s
    }
}

/// Signals of the opening cinematic.
pub open spec fn opening_steps(w: SignalWorld, s0: FeedState) -> FeedState {
    let s1 = emit_step(s0, 1);
    let s2 = if w.opening_timer >= w.pause_s2 && w.phase == OpeningPhase::SignalIdentified { emit_step(s1, 2) } else { s1 };
    let s3 = if w.phase == OpeningPhase::AutoPiloting { emit_step(s2, 3) } else { s2 };
    let s4 = if w.phase == OpeningPhase::InRange { emit_step(s3, 4) } else { s3 };
    let s5 = if w.phase == OpeningPhase::Docked || w.phase == OpeningPhase::Complete { emit_step(s4, 5) } else { s4 };
    if w.phase == OpeningPhase::Docked && w.opening_timer >= w.pause_dock_report { emit_step(s5, 6) } else { s5 }
}

/// One-shot station milestones.
pub open spec fn milestone_steps(w: SignalWorld, st: StationSignals, s0: FeedState) -> FeedState {
    let s1 = emit_step(s0, 7);
    let s2 = if st.has_iron { emit_step(s1, 8) } else { s1 };
    let s3 = if st.has_tungsten { emit_step(s2, 9) } else { s2 };
    let s4 = if st.iron_whole >= REPAIR_THRESHOLD { emit_step(s3, 10) } else { s3 };
    let s5 = if st.online { emit_step(emit_stamped_step(s4, 11, w.now), 27) } else { s4 };
    let s6 = if st.has_ai_cores { emit_stamped_step(s5, 13, w.now) } else { s5 };
    let s7 = if st.has_hull_plates { emit_step(s6, 15) } else { s6 };
    let s8 = if w.available_drones > 0 { emit_step(s7, 16) } else { s7 };
    if !st.online {
        delayed_step(emit_stamped_step(s8, 25, w.now), 26, 25, w.now, FORGE_LINE_DELAY_MS)
    } else {
        s8
    }
}

/// Signals that follow earlier ones after a delay, and the refirable station alerts.
pub open spec fn alert_steps(w: SignalWorld, st: StationSignals, s0: FeedState) -> FeedState {
    let s1 = if st.online { delayed_step(s0, 12, 11, w.now, w.pause_complete) } else { s0 };
    let s2 = if st.has_ai_cores { delayed_step(s1, 14, 13, w.now, SECTOR_SCAN_DELAY_MS) } else { s1 };
    let s3 = refire_step(s2, 19, w.now, st.iron_whole < IRON_CRITICAL_BELOW, st.iron_whole >= IRON_RECOVERED_AT);
    let s4 = refire_step(s3, 28, w.now, st.dock_state == StationDockState::Slowing, st.dock_state == StationDockState::Rotating);
    let s5 = refire_step(s4, 29, w.now, st.dock_state == StationDockState::Paused, st.dock_state == StationDockState::Slowing);
    let s6 = refire_step(s5, 30, w.now, st.dock_state == StationDockState::Resuming, st.dock_state == StationDockState::Rotating);
    refire_step(
        s6,
        31,
        w.now,
        st.dock_state == StationDockState::Rotating && !w.opening_ship_docked && s6.fired.contains(30),
        st.dock_state == StationDockState::Resuming,
    )
}

/// Refirable processing alerts.
pub open spec fn processing_steps(w: SignalWorld, st: StationSignals, s0: FeedState) -> FeedState {
    let s1 = refire_step(s0, 32, w.now, st.processing_active, !st.processing_active);
    refire_step(s1, 33, w.now, !st.processing_active && s1.fired.contains(32), st.processing_active)
}

/// Fleet size milestones.
pub open spec fn fleet_steps(w: SignalWorld, s0: FeedState) -> FeedState {
    let s1 = if w.available_drones >= 1 { emit_step(s0, 17) } else { s0 };
    if w.available_drones >= 2 { emit_step(s1, 18) } else { s1 }
}

/// One frame of the signal feed: the opening signals, then, once the opening is
/// complete, the station milestones, the delayed and refirable alerts (when there
/// is a station) and the fleet milestones.
pub open spec fn feed_frame(w: SignalWorld, s0: FeedState) -> FeedState {
    let s1 = opening_steps(w, s0);
    if w.phase == OpeningPhase::Complete {
        let s4 = match w.station {
            Some(st) => processing_steps(w, st, alert_steps(w, st, milestone_steps(w, st, s1))),
            None => s1,
        };
        fleet_steps(w, s4)
    } else {
        s1
    }
}



/// What a frame keeps of the feed it starts from: earlier announcements stay,
/// one-shot signals stay fired and are not announced again, and the strip grows
/// no longer than `strip_bound` of its length.
pub open spec fn keeps(a: FeedState, b: FeedState) -> bool {
    &&& a.out.len() <= b.out.len()
    &&& b.out.subrange(0, a.out.len() as int) == a.out
    &&& forall|id: u32| !is_refirable(id) && #[trigger] a.fired.contains(id) ==> b.fired.contains(id)
    &&& forall|id: u32, i: int|
        !is_refirable(id) && #[trigger] a.fired.contains(id) && a.out.len() <= i < b.out.len() ==> #[trigger] b.out[i] != id
    &&& b.lines.len() <= strip_bound(a.lines.len())
}

/// The longest a strip of `len` lines may grow in a frame: `SIGNAL_LOG_MAX`, or
/// its own length when it is already longer.
pub open spec fn strip_bound(len: nat) -> nat {
    if len > SIGNAL_LOG_MAX { len } else { SIGNAL_LOG_MAX as nat }
}

proof fn lemma_keeps_refl(a: FeedState)
    ensures
        keeps(a, a),
{
    assert(a.out.subrange(0, a.out.len() as int) =~= a.out);
}

proof fn lemma_keeps_trans(a: FeedState, b: FeedState, c: FeedState)
    requires
        keeps(a, b),
        keeps(b, c),
    ensures
        keeps(a, c),
{
    assert(c.out.subrange(0, a.out.len() as int) =~= b.out.subrange(0, a.out.len() as int)) by {
        assert forall|i: int| 0 <= i < a.out.len() implies c.out.subrange(0, a.out.len() as int)[i]
            == b.out.subrange(0, a.out.len() as int)[i] by {
            assert(c.out.subrange(0, b.out.len() as int)[i] == b.out[i]);
        }
    }
    assert forall|id: u32, i: int|
        !is_refirable(id) && #[trigger] a.fired.contains(id) && a.out.len() <= i < c.out.len() implies #[trigger] c.out[i] != id by {
        if i < b.out.len() {
            assert(c.out.subrange(0, b.out.len() as int)[i] == b.out[i]);
            assert(b.out[i] != id);
        } else {
            assert(b.fired.contains(id));
        }
    }
}

proof fn lemma_emit_keeps(s: FeedState, k: u32)
    ensures
        keeps(s, emit_step(s, k)),
{
    let t = emit_step(s, k);
    if s.fired.contains(k) {
        lemma_keeps_refl(s);
    } else {
        assert(t.out.subrange(0, s.out.len() as int) =~= s.out);
    }
}

proof fn lemma_stamped_keeps(s: FeedState, k: u32, now: u64)
    ensures
        keeps(s, emit_stamped_step(s, k, now)),
{
    lemma_emit_keeps(s, k);
    if s.fired.contains(k) {
        lemma_keeps_refl(s);
    }
}

proof fn lemma_refire_keeps(s: FeedState, k: u32, now: u64, condition: bool, reset: bool)
    requires
        is_refirable(k),
    ensures
        keeps(s, refire_step(s, k, now, condition, reset)),
{
    if condition && !s.fired.contains(k) && cooled_down(s.last, k, now) {
        lemma_stamped_keeps(s, k, now);
    } else if reset {
        let t = refire_step(s, k, now, condition, reset);
        assert(t.out.subrange(0, s.out.len() as int) =~= s.out);
    } else {
        lemma_keeps_refl(s);
    }
}

proof fn lemma_delayed_keeps(s: FeedState, k: u32, anchor: u32, now: u64, delay: u64)
    ensures
        keeps(s, delayed_step(s, k, anchor, now, delay)),
{
    lemma_emit_keeps(s, k);
    lemma_keeps_refl(s);
}

proof fn lemma_opening_keeps(w: SignalWorld, s0: FeedState)
    ensures
        keeps(s0, opening_steps(w, s0)),
{
    let s1 = emit_step(s0, 1);
    lemma_emit_keeps(s0, 1);
    let s2 = if w.opening_timer >= w.pause_s2 && w.phase == OpeningPhase::SignalIdentified { emit_step(s1, 2) } else { s1 };
    lemma_emit_keeps(s1, 2); lemma_keeps_refl(s1); lemma_keeps_trans(s0, s1, s2);
    let s3 = if w.phase == OpeningPhase::AutoPiloting { emit_step(s2, 3) } else { s2 };
    lemma_emit_keeps(s2, 3); lemma_keeps_refl(s2); lemma_keeps_trans(s0, s2, s3);
    let s4 = if w.phase == OpeningPhase::InRange { emit_step(s3, 4) } else { s3 };
    lemma_emit_keeps(s3, 4); lemma_keeps_refl(s3); lemma_keeps_trans(s0, s3, s4);
    let s5 = if w.phase == OpeningPhase::Docked || w.phase == OpeningPhase::Complete { emit_step(s4, 5) } else { s4 };
    lemma_emit_keeps(s4, 5); lemma_keeps_refl(s4); lemma_keeps_trans(s0, s4, s5);
    let s6 = if w.phase == OpeningPhase::Docked && w.opening_timer >= w.pause_dock_report { emit_step(s5, 6) } else { s5 };
    lemma_emit_keeps(s5, 6); lemma_keeps_refl(s5); lemma_keeps_trans(s0, s5, s6);
}

proof fn lemma_milestones_keep(w: SignalWorld, st: StationSignals, s0: FeedState)
    ensures
        keeps(s0, milestone_steps(w, st, s0)),
{
    let s1 = emit_step(s0, 7);
    lemma_emit_keeps(s0, 7);
    let s2 = if st.has_iron { emit_step(s1, 8) } else { s1 };
    lemma_emit_keeps(s1, 8); lemma_keeps_refl(s1); lemma_keeps_trans(s0, s1, s2);
    let s3 = if st.has_tungsten { emit_step(s2, 9) } else { s2 };
    lemma_emit_keeps(s2, 9); lemma_keeps_refl(s2); lemma_keeps_trans(s0, s2, s3);
    let s4 = if st.iron_whole >= REPAIR_THRESHOLD { emit_step(s3, 10) } else { s3 };
    lemma_emit_keeps(s3, 10); lemma_keeps_refl(s3); lemma_keeps_trans(s0, s3, s4);
    let a = emit_stamped_step(s4, 11, w.now);
    lemma_stamped_keeps(s4, 11, w.now); lemma_emit_keeps(a, 27); lemma_keeps_trans(s4, a, emit_step(a, 27));
    let s5 = if st.online { emit_step(a, 27) } else { s4 };
    lemma_keeps_refl(s4); lemma_keeps_trans(s0, s4, s5);
    let s6 = if st.has_ai_cores { emit_stamped_step(s5, 13, w.now) } else { s5 };
    lemma_stamped_keeps(s5, 13, w.now); lemma_keeps_refl(s5); lemma_keeps_trans(s0, s5, s6);
    let s7 = if st.has_hull_plates { emit_step(s6, 15) } else { s6 };
    lemma_emit_keeps(s6, 15); lemma_keeps_refl(s6); lemma_keeps_trans(s0, s6, s7);
    let s8 = if w.available_drones > 0 { emit_step(s7, 16) } else { s7 };
    lemma_emit_keeps(s7, 16); lemma_keeps_refl(s7); lemma_keeps_trans(s0, s7, s8);
    let b = emit_stamped_step(s8, 25, w.now);
    lemma_stamped_keeps(s8, 25, w.now);
    lemma_delayed_keeps(b, 26, 25, w.now, FORGE_LINE_DELAY_MS);
    lemma_keeps_trans(s8, b, delayed_step(b, 26, 25, w.now, FORGE_LINE_DELAY_MS));
    lemma_keeps_refl(s8);
    let s9 = if !st.online { delayed_step(b, 26, 25, w.now, FORGE_LINE_DELAY_MS) } else { s8 };
    lemma_keeps_trans(s0, s8, s9);
}

proof fn lemma_alerts_keep(w: SignalWorld, st: StationSignals, s0: FeedState)
    ensures
        keeps(s0, alert_steps(w, st, s0)),
{
    let s1 = if st.online { delayed_step(s0, 12, 11, w.now, w.pause_complete) } else { s0 };
    lemma_delayed_keeps(s0, 12, 11, w.now, w.pause_complete); lemma_keeps_refl(s0);
    let s2 = if st.has_ai_cores { delayed_step(s1, 14, 13, w.now, SECTOR_SCAN_DELAY_MS) } else { s1 };
    lemma_delayed_keeps(s1, 14, 13, w.now, SECTOR_SCAN_DELAY_MS); lemma_keeps_refl(s1); lemma_keeps_trans(s0, s1, s2);
    let s3 = refire_step(s2, 19, w.now, st.iron_whole < IRON_CRITICAL_BELOW, st.iron_whole >= IRON_RECOVERED_AT);
    lemma_refire_keeps(s2, 19, w.now, st.iron_whole < IRON_CRITICAL_BELOW, st.iron_whole >= IRON_RECOVERED_AT);
    lemma_keeps_trans(s0, s2, s3);
    let s4 = refire_step(s3, 28, w.now, st.dock_state == StationDockState::Slowing, st.dock_state == StationDockState::Rotating);
    lemma_refire_keeps(s3, 28, w.now, st.dock_state == StationDockState::Slowing, st.dock_state == StationDockState::Rotating);
    lemma_keeps_trans(s0, s3, s4);
    let s5 = refire_step(s4, 29, w.now, st.dock_state == StationDockState::Paused, st.dock_state == StationDockState::Slowing);
    lemma_refire_keeps(s4, 29, w.now, st.dock_state == StationDockState::Paused, st.dock_state == StationDockState::Slowing);
    lemma_keeps_trans(s0, s4, s5);
    let s6 = refire_step(s5, 30, w.now, st.dock_state == StationDockState::Resuming, st.dock_state == StationDockState::Rotating);
    lemma_refire_keeps(s5, 30, w.now, st.dock_state == StationDockState::Resuming, st.dock_state == StationDockState::Rotating);
    lemma_keeps_trans(s0, s5, s6);
    let c = st.dock_state == StationDockState::Rotating && !w.opening_ship_docked && s6.fired.contains(30);
    let r = st.dock_state == StationDockState::Resuming;
    lemma_refire_keeps(s6, 31, w.now, c, r);
    lemma_keeps_trans(s0, s6, refire_step(s6, 31, w.now, c, r));
}

proof fn lemma_processing_keeps(w: SignalWorld, st: StationSignals, s0: FeedState)
    ensures
        keeps(s0, processing_steps(w, st, s0)),
{
    let s1 = refire_step(s0, 32, w.now, st.processing_active, !st.processing_active);
    lemma_refire_keeps(s0, 32, w.now, st.processing_active, !st.processing_active);
    let c = !st.processing_active && s1.fired.contains(32);
    lemma_refire_keeps(s1, 33, w.now, c, st.processing_active);
    lemma_keeps_trans(s0, s1, refire_step(s1, 33, w.now, c, st.processing_active));
}

proof fn lemma_fleet_keeps(w: SignalWorld, s0: FeedState)
    ensures
        keeps(s0, fleet_steps(w, s0)),
{
    let s1 = if w.available_drones >= 1 { emit_step(s0, 17) } else { s0 };
    lemma_emit_keeps(s0, 17); lemma_keeps_refl(s0);
    let s2 = if w.available_drones >= 2 { emit_step(s1, 18) } else { s1 };
    lemma_emit_keeps(s1, 18); lemma_keeps_refl(s1); lemma_keeps_trans(s0, s1, s2);
}

proof fn lemma_frame_keeps(w: SignalWorld, s0: FeedState)
    ensures
        keeps(s0, feed_frame(w, s0)),
        keeps(opening_steps(w, s0), feed_frame(w, s0)),
{
    let s1 = opening_steps(w, s0);
    lemma_opening_keeps(w, s0);
    if w.phase == OpeningPhase::Complete {
        let s4 = match w.station {
            Some(st) => processing_steps(w, st, alert_steps(w, st, milestone_steps(w, st, s1))),
            None => s1,
        };
        match w.station {
            Some(st) => {
                let m = milestone_steps(w, st, s1);
                let a = alert_steps(w, st, m);
                lemma_milestones_keep(w, st, s1);
                lemma_alerts_keep(w, st, m);
                lemma_processing_keeps(w, st, a);
                lemma_keeps_trans(s1, m, a);
                lemma_keeps_trans(s1, a, s4);
            },
            None => {
                lemma_keeps_refl(s1);
            },
        }
        lemma_fleet_keeps(w, s4);
        lemma_keeps_trans(s0, s1, s4);
        lemma_keeps_trans(s0, s4, fleet_steps(w, s4));
        lemma_keeps_trans(s1, s4, fleet_steps(w, s4));
    } else {
        lemma_keeps_refl(s1);
    }
}

/// The ids announced between two states of the feed.
pub open spec fn announced_since(a: FeedState, b: FeedState) -> Seq<u32> {
    b.out.subrange(a.out.len() as int, b.out.len() as int)
}

/// From `a` to `b` the feed touches only the ids of `t`: announcements are
/// appended, each id at most once, and an id is announced exactly when it became
/// fired.
pub open spec fn fresh(a: FeedState, b: FeedState, t: Set<u32>) -> bool {
    &&& a.out.len() <= b.out.len()
    &&& b.out.subrange(0, a.out.len() as int) == a.out
    &&& announced_since(a, b).no_duplicates()
    &&& forall|id: u32| #[trigger] announced_since(a, b).contains(id) <==> (b.fired.contains(id) && !a.fired.contains(id))
    &&& forall|id: u32| !t.contains(id) ==> (#[trigger] b.fired.contains(id) == a.fired.contains(id))
    &&& forall|id: u32| #[trigger] announced_since(a, b).contains(id) ==> t.contains(id)
}

proof fn lemma_fresh_refl(a: FeedState, t: Set<u32>)
    ensures
        fresh(a, a, t),
{
    assert(a.out.subrange(0, a.out.len() as int) =~= a.out);
    assert(announced_since(a, a) =~= Seq::<u32>::empty());
}

proof fn lemma_fresh_emit(s: FeedState, k: u32)
    ensures
        fresh(s, emit_step(s, k), Set::empty().insert(k)),
{
    if s.fired.contains(k) {
        lemma_fresh_refl(s, Set::empty().insert(k));
    } else {
        let t = emit_step(s, k);
        assert(t.out.subrange(0, s.out.len() as int) =~= s.out);
        assert(announced_since(s, t) =~= seq![k]);
        assert forall|id: u32| #[trigger] announced_since(s, t).contains(id) <==> (t.fired.contains(id) && !s.fired.contains(id)) by {
            if id == k {
                assert(announced_since(s, t)[0] == k);
            }
        }
    }
}

proof fn lemma_fresh_stamped(s: FeedState, k: u32, now: u64)
    ensures
        fresh(s, emit_stamped_step(s, k, now), Set::empty().insert(k)),
{
    lemma_fresh_emit(s, k);
    if s.fired.contains(k) {
        lemma_fresh_refl(s, Set::empty().insert(k));
    }
}

proof fn lemma_fresh_refire(s: FeedState, k: u32, now: u64, condition: bool, reset: bool)
    ensures
        fresh(s, refire_step(s, k, now, condition, reset), Set::empty().insert(k)),
{
    if condition && !s.fired.contains(k) && cooled_down(s.last, k, now) {
        lemma_fresh_stamped(s, k, now);
    } else if reset {
        let t = refire_step(s, k, now, condition, reset);
        assert(t.out.subrange(0, s.out.len() as int) =~= s.out);
        assert(announced_since(s, t) =~= Seq::<u32>::empty());
    } else {
        lemma_fresh_refl(s, Set::empty().insert(k));
    }
}

proof fn lemma_fresh_delayed(s: FeedState, k: u32, anchor: u32, now: u64, delay: u64)
    ensures
        fresh(s, delayed_step(s, k, anchor, now, delay), Set::empty().insert(k)),
{
    lemma_fresh_emit(s, k);
    lemma_fresh_refl(s, Set::empty().insert(k));
}

proof fn lemma_fresh_trans(a: FeedState, b: FeedState, c: FeedState, t1: Set<u32>, t2: Set<u32>)
    requires
        fresh(a, b, t1),
        fresh(b, c, t2),
        t1.disjoint(t2),
    ensures
        fresh(a, c, t1.union(t2)),
{
    let ab = announced_since(a, b);
    let bc = announced_since(b, c);
    assert(c.out.subrange(0, b.out.len() as int) == b.out);
    assert(announced_since(a, c) =~= ab + bc) by {
        assert forall|i: int| 0 <= i < ab.len() implies announced_since(a, c)[i] == ab[i] by {
            assert(c.out.subrange(0, b.out.len() as int)[a.out.len() + i] == b.out[a.out.len() + i]);
        }
    }
    assert(c.out.subrange(0, a.out.len() as int) =~= a.out) by {
        assert forall|i: int| 0 <= i < a.out.len() implies c.out.subrange(0, a.out.len() as int)[i] == a.out[i] by {
            assert(c.out.subrange(0, b.out.len() as int)[i] == b.out[i]);
            assert(b.out.subrange(0, a.out.len() as int)[i] == a.out[i]);
        }
    }
    let ac = announced_since(a, c);
    assert forall|i: int, j: int| 0 <= i < ac.len() && 0 <= j < ac.len() && i != j implies ac[i] != ac[j] by {
        if i < ab.len() && j >= ab.len() {
            assert(ab.contains(ac[i]));
            assert(bc.contains(ac[j]) && bc[j - ab.len()] == ac[j]);
            assert(t1.contains(ac[i]) && t2.contains(ac[j]));
        } else if j < ab.len() && i >= ab.len() {
            assert(ab.contains(ac[j]));
            assert(bc.contains(ac[i]) && bc[i - ab.len()] == ac[i]);
            assert(t1.contains(ac[j]) && t2.contains(ac[i]));
        } else if i < ab.len() {
            assert(ab[i] == ac[i] && ab[j] == ac[j]);
        } else {
            assert(bc[i - ab.len()] == ac[i] && bc[j - ab.len()] == ac[j]);
        }
    }
    assert forall|id: u32| #[trigger] ac.contains(id) <==> (c.fired.contains(id) && !a.fired.contains(id)) by {
        if ac.contains(id) {
            let i = choose|i: int| 0 <= i < ac.len() && ac[i] == id;
            if i < ab.len() {
                assert(ab[i] == id);
                assert(ab.contains(id));
                assert(t1.contains(id));
                assert(!t2.contains(id));
            } else {
                assert(bc[i - ab.len()] == id);
                assert(bc.contains(id));
                assert(t2.contains(id));
                assert(!t1.contains(id));
            }
        }
        if c.fired.contains(id) && !a.fired.contains(id) {
            if b.fired.contains(id) {
                assert(ab.contains(id));
                let i = choose|i: int| 0 <= i < ab.len() && ab[i] == id;
                assert(ac[i] == id);
            } else {
                assert(bc.contains(id));
                let i = choose|i: int| 0 <= i < bc.len() && bc[i] == id;
                assert(ac[ab.len() + i] == id);
            }
        }
    }
    assert forall|id: u32| #[trigger] ac.contains(id) implies t1.union(t2).contains(id) by {
        let i = choose|i: int| 0 <= i < ac.len() && ac[i] == id;
        if i < ab.len() {
            assert(ab[i] == id);
            assert(ab.contains(id));
        } else {
            assert(bc[i - ab.len()] == id);
            assert(bc.contains(id));
        }
    }
}

proof fn lemma_fresh_extend(a: FeedState, b: FeedState, c: FeedState, t: Set<u32>, k: u32)
    requires
        fresh(a, b, t),
        fresh(b, c, Set::empty().insert(k)),
        !t.contains(k),
    ensures
        fresh(a, c, t.insert(k)),
{
    lemma_fresh_trans(a, b, c, t, Set::empty().insert(k));
    assert(t.union(Set::empty().insert(k)) =~= t.insert(k));
}

/// The ids each group of the frame touches.
pub open spec fn opening_ids(id: u32) -> bool { 1 <= id <= 6 }
pub open spec fn milestone_ids(id: u32) -> bool { 7 <= id <= 11 || id == 13 || id == 15 || id == 16 || 25 <= id <= 27 }
pub open spec fn alert_ids(id: u32) -> bool { id == 12 || id == 14 || id == 19 || 28 <= id <= 31 }
pub open spec fn processing_ids(id: u32) -> bool { 32 <= id <= 33 }
pub open spec fn fleet_ids(id: u32) -> bool { 17 <= id <= 18 }

proof fn lemma_opening_fresh(w: SignalWorld, s0: FeedState) -> (t: Set<u32>)
    ensures
        fresh(s0, opening_steps(w, s0), t),
        forall|id: u32| #[trigger] t.contains(id) ==> opening_ids(id),
{
    let e = Set::<u32>::empty();
    let s1 = emit_step(s0, 1);
    lemma_fresh_emit(s0, 1);
    let mut t = e.insert(1);
    let s2 = if w.opening_timer >= w.pause_s2 && w.phase == OpeningPhase::SignalIdentified { emit_step(s1, 2) } else { s1 };
    lemma_fresh_emit(s1, 2); lemma_fresh_refl(s1, e.insert(2)); lemma_fresh_extend(s0, s1, s2, t, 2);
    t = t.insert(2);
    let s3 = if w.phase == OpeningPhase::AutoPiloting { emit_step(s2, 3) } else { s2 };
    lemma_fresh_emit(s2, 3); lemma_fresh_refl(s2, e.insert(3)); lemma_fresh_extend(s0, s2, s3, t, 3);
    t = t.insert(3);
    let s4 = if w.phase == OpeningPhase::InRange { emit_step(s3, 4) } else { s3 };
    lemma_fresh_emit(s3, 4); lemma_fresh_refl(s3, e.insert(4)); lemma_fresh_extend(s0, s3, s4, t, 4);
    t = t.insert(4);
    let s5 = if w.phase == OpeningPhase::Docked || w.phase == OpeningPhase::Complete { emit_step(s4, 5) } else { s4 };
    lemma_fresh_emit(s4, 5); lemma_fresh_refl(s4, e.insert(5)); lemma_fresh_extend(s0, s4, s5, t, 5);
    t = t.insert(5);
    let s6 = if w.phase == OpeningPhase::Docked && w.opening_timer >= w.pause_dock_report { emit_step(s5, 6) } else { s5 };
    lemma_fresh_emit(s5, 6); lemma_fresh_refl(s5, e.insert(6)); lemma_fresh_extend(s0, s5, s6, t, 6);
    t = t.insert(6);
    t
}

proof fn lemma_milestones_fresh(w: SignalWorld, st: StationSignals, s0: FeedState) -> (t: Set<u32>)
    ensures
        fresh(s0, milestone_steps(w, st, s0), t),
        forall|id: u32| #[trigger] t.contains(id) ==> milestone_ids(id),
{
    let e = Set::<u32>::empty();
    let s1 = emit_step(s0, 7);
    lemma_fresh_emit(s0, 7);
    let mut t = e.insert(7);
    let s2 = if st.has_iron { emit_step(s1, 8) } else { s1 };
    lemma_fresh_emit(s1, 8); lemma_fresh_refl(s1, e.insert(8)); lemma_fresh_extend(s0, s1, s2, t, 8);
    t = t.insert(8);
    let s3 = if st.has_tungsten { emit_step(s2, 9) } else { s2 };
    lemma_fresh_emit(s2, 9); lemma_fresh_refl(s2, e.insert(9)); lemma_fresh_extend(s0, s2, s3, t, 9);
    t = t.insert(9);
    let s4 = if st.iron_whole >= REPAIR_THRESHOLD { emit_step(s3, 10) } else { s3 };
    lemma_fresh_emit(s3, 10); lemma_fresh_refl(s3, e.insert(10)); lemma_fresh_extend(s0, s3, s4, t, 10);
    t = t.insert(10);
    let a = emit_stamped_step(s4, 11, w.now);
    let s5 = if st.online { emit_step(a, 27) } else { s4 };
    if st.online {
        lemma_fresh_stamped(s4, 11, w.now);
        lemma_fresh_extend(s0, s4, a, t, 11);
        lemma_fresh_emit(a, 27);
        lemma_fresh_extend(s0, a, s5, t.insert(11), 27);
    } else {
        lemma_fresh_refl(s4, e.insert(11));
        lemma_fresh_extend(s0, s4, s4, t, 11);
        lemma_fresh_refl(s4, e.insert(27));
        lemma_fresh_extend(s0, s4, s4, t.insert(11), 27);
    }
    t = t.insert(11).insert(27);
    let s6 = if st.has_ai_cores { emit_stamped_step(s5, 13, w.now) } else { s5 };
    lemma_fresh_stamped(s5, 13, w.now); lemma_fresh_refl(s5, e.insert(13)); lemma_fresh_extend(s0, s5, s6, t, 13);
    t = t.insert(13);
    let s7 = if st.has_hull_plates { emit_step(s6, 15) } else { s6 };
    lemma_fresh_emit(s6, 15); lemma_fresh_refl(s6, e.insert(15)); lemma_fresh_extend(s0, s6, s7, t, 15);
    t = t.insert(15);
    let s8 = if w.available_drones > 0 { emit_step(s7, 16) } else { s7 };
    lemma_fresh_emit(s7, 16); lemma_fresh_refl(s7, e.insert(16)); lemma_fresh_extend(s0, s7, s8, t, 16);
    t = t.insert(16);
    let b = emit_stamped_step(s8, 25, w.now);
    let s9 = if !st.online { delayed_step(b, 26, 25, w.now, FORGE_LINE_DELAY_MS) } else { s8 };
    if !st.online {
        lemma_fresh_stamped(s8, 25, w.now);
        lemma_fresh_extend(s0, s8, b, t, 25);
        lemma_fresh_delayed(b, 26, 25, w.now, FORGE_LINE_DELAY_MS);
        lemma_fresh_extend(s0, b, s9, t.insert(25), 26);
    } else {
        lemma_fresh_refl(s8, e.insert(25));
        lemma_fresh_extend(s0, s8, s8, t, 25);
        lemma_fresh_refl(s8, e.insert(26));
        lemma_fresh_extend(s0, s8, s8, t.insert(25), 26);
    }
    t = t.insert(25).insert(26);
    t
}

proof fn lemma_alerts_fresh(w: SignalWorld, st: StationSignals, s0: FeedState) -> (t: Set<u32>)
    ensures
        fresh(s0, alert_steps(w, st, s0), t),
        forall|id: u32| #[trigger] t.contains(id) ==> alert_ids(id),
{
    let e = Set::<u32>::empty();
    let s1 = if st.online { delayed_step(s0, 12, 11, w.now, w.pause_complete) } else { s0 };
    lemma_fresh_delayed(s0, 12, 11, w.now, w.pause_complete); lemma_fresh_refl(s0, e.insert(12));
    let mut t = e.insert(12);
    let s2 = if st.has_ai_cores { delayed_step(s1, 14, 13, w.now, SECTOR_SCAN_DELAY_MS) } else { s1 };
    lemma_fresh_delayed(s1, 14, 13, w.now, SECTOR_SCAN_DELAY_MS); lemma_fresh_refl(s1, e.insert(14));
    lemma_fresh_extend(s0, s1, s2, t, 14);
    t = t.insert(14);
    let s3 = refire_step(s2, 19, w.now, st.iron_whole < IRON_CRITICAL_BELOW, st.iron_whole >= IRON_RECOVERED_AT);
    lemma_fresh_refire(s2, 19, w.now, st.iron_whole < IRON_CRITICAL_BELOW, st.iron_whole >= IRON_RECOVERED_AT);
    lemma_fresh_extend(s0, s2, s3, t, 19);
    t = t.insert(19);
    let s4 = refire_step(s3, 28, w.now, st.dock_state == StationDockState::Slowing, st.dock_state == StationDockState::Rotating);
    lemma_fresh_refire(s3, 28, w.now, st.dock_state == StationDockState::Slowing, st.dock_state == StationDockState::Rotating);
    lemma_fresh_extend(s0, s3, s4, t, 28);
    t = t.insert(28);
    let s5 = refire_step(s4, 29, w.now, st.dock_state == StationDockState::Paused, st.dock_state == StationDockState::Slowing);
    lemma_fresh_refire(s4, 29, w.now, st.dock_state == StationDockState::Paused, st.dock_state == StationDockState::Slowing);
    lemma_fresh_extend(s0, s4, s5, t, 29);
    t = t.insert(29);
    let s6 = refire_step(s5, 30, w.now, st.dock_state == StationDockState::Resuming, st.dock_state == StationDockState::Rotating);
    lemma_fresh_refire(s5, 30, w.now, st.dock_state == StationDockState::Resuming, st.dock_state == StationDockState::Rotating);
    lemma_fresh_extend(s0, s5, s6, t, 30);
    t = t.insert(30);
    let c = st.dock_state == StationDockState::Rotating && !w.opening_ship_docked && s6.fired.contains(30);
    let r = st.dock_state == StationDockState::Resuming;
    lemma_fresh_refire(s6, 31, w.now, c, r);
    lemma_fresh_extend(s0, s6, refire_step(s6, 31, w.now, c, r), t, 31);
    t = t.insert(31);
    t
}

proof fn lemma_processing_fresh(w: SignalWorld, st: StationSignals, s0: FeedState) -> (t: Set<u32>)
    ensures
        fresh(s0, processing_steps(w, st, s0), t),
        forall|id: u32| #[trigger] t.contains(id) ==> processing_ids(id),
{
    let e = Set::<u32>::empty();
    let s1 = refire_step(s0, 32, w.now, st.processing_active, !st.processing_active);
    lemma_fresh_refire(s0, 32, w.now, st.processing_active, !st.processing_active);
    let c = !st.processing_active && s1.fired.contains(32);
    lemma_fresh_refire(s1, 33, w.now, c, st.processing_active);
    lemma_fresh_extend(s0, s1, refire_step(s1, 33, w.now, c, st.processing_active), e.insert(32), 33);
    e.insert(32).insert(33)
}

proof fn lemma_fleet_fresh(w: SignalWorld, s0: FeedState) -> (t: Set<u32>)
    ensures
        fresh(s0, fleet_steps(w, s0), t),
        forall|id: u32| #[trigger] t.contains(id) ==> fleet_ids(id),
{
    let e = Set::<u32>::empty();
    let s1 = if w.available_drones >= 1 { emit_step(s0, 17) } else { s0 };
    lemma_fresh_emit(s0, 17); lemma_fresh_refl(s0, e.insert(17));
    let s2 = if w.available_drones >= 2 { emit_step(s1, 18) } else { s1 };
    lemma_fresh_emit(s1, 18); lemma_fresh_refl(s1, e.insert(18));
    lemma_fresh_extend(s0, s1, s2, e.insert(17), 18);
    e.insert(17).insert(18)
}

proof fn lemma_frame_fresh(w: SignalWorld, s0: FeedState) -> (t: Set<u32>)
    ensures
        fresh(s0, feed_frame(w, s0), t),
{
    let s1 = opening_steps(w, s0);
    let t1 = lemma_opening_fresh(w, s0);
    if w.phase == OpeningPhase::Complete {
        let s4 = match w.station {
            Some(st) => processing_steps(w, st, alert_steps(w, st, milestone_steps(w, st, s1))),
            None => s1,
        };
        let t4 = match w.station {
            Some(st) => {
                let m = milestone_steps(w, st, s1);
                let a = alert_steps(w, st, m);
                let tm = lemma_milestones_fresh(w, st, s1);
                let ta = lemma_alerts_fresh(w, st, m);
                let tp = lemma_processing_fresh(w, st, a);
                assert(t1.disjoint(tm));
                lemma_fresh_trans(s0, s1, m, t1, tm);
                assert(t1.union(tm).disjoint(ta));
                lemma_fresh_trans(s0, m, a, t1.union(tm), ta);
                assert(t1.union(tm).union(ta).disjoint(tp));
                lemma_fresh_trans(s0, a, s4, t1.union(tm).union(ta), tp);
                let u = t1.union(tm).union(ta).union(tp);
                assert forall|id: u32| #[trigger] u.contains(id) implies !fleet_ids(id) by {}
                u
            },
            None => t1,
        };
        let tf = lemma_fleet_fresh(w, s4);
        assert(t4.disjoint(tf)) by {
            assert forall|id: u32| t4.contains(id) implies !tf.contains(id) by {
                if tf.contains(id) {
                    assert(fleet_ids(id));
                }
            }
        }
        lemma_fresh_trans(s0, s4, fleet_steps(w, s4), t4, tf);
        t4.union(tf)
    } else {
        t1
    }
}

/// Law: after any frame signal 1 is fired; every fired signal that does not
/// re-arm stays fired; the strip grows no longer than `strip_bound` of its
/// length; and the frame announces each newly fired signal exactly once and no
/// other.
pub proof fn law_signal_frame_announces_new_ids(w: SignalWorld, s: FeedState)
    ensures
        feed_frame(w, s).fired.contains(1),
        forall|id: u32| !is_refirable(id) && s.fired.contains(id) ==> #[trigger] feed_frame(w, s).fired.contains(id),
        feed_frame(w, s).lines.len() <= strip_bound(s.lines.len()),
        announced_since(s, feed_frame(w, s)).no_duplicates(),
        forall|id: u32| #[trigger] announced_since(s, feed_frame(w, s)).contains(id)
            <==> (feed_frame(w, s).fired.contains(id) && !s.fired.contains(id)),
{
    lemma_frame_keeps(w, s);
    let _ = lemma_frame_fresh(w, s);
    let s1 = opening_steps(w, s);
    assert(emit_step(s, 1).fired.contains(1));
    assert(s1.fired.contains(1));
    assert(!is_refirable(1));
}

/// A signal that does not re-arm fires at most once: once fired, every later
/// frame keeps it fired and does not announce it again.
pub proof fn law_one_shot_signal_fires_once(w: SignalWorld, s: FeedState, id: u32)
    requires
        !is_refirable(id),
        s.fired.contains(id),
    ensures
        feed_frame(w, s).fired.contains(id),
        !feed_frame(w, s).out.subrange(s.out.len() as int, feed_frame(w, s).out.len() as int).contains(id),
{
    lemma_frame_keeps(w, s);
    let t = feed_frame(w, s);
    let tail = t.out.subrange(s.out.len() as int, t.out.len() as int);
    assert forall|j: int| 0 <= j < tail.len() implies tail[j] != id by {
        assert(tail[j] == t.out[s.out.len() + j]);
    }
}

/// A frame never grows the strip past `SIGNAL_LOG_MAX` lines once it is within
/// that bound.
pub proof fn law_signal_strip_stays_bounded(w: SignalWorld, s: FeedState)
    requires
        s.lines.len() <= SIGNAL_LOG_MAX,
    ensures
        feed_frame(w, s).lines.len() <= SIGNAL_LOG_MAX,
{
    lemma_frame_keeps(w, s);
}

/// Earlier announcements are kept: a frame only appends to the announced ids.
pub proof fn law_frame_appends_announcements(w: SignalWorld, s: FeedState)
    ensures
        s.out.len() <= feed_frame(w, s).out.len(),
        feed_frame(w, s).out.subrange(0, s.out.len() as int) == s.out,
{
    lemma_frame_keeps(w, s);
}

proof fn lemma_fresh_untouched(a: FeedState, b: FeedState, t: Set<u32>, k: u32)
    requires
        fresh(a, b, t),
        !t.contains(k),
    ensures
        b.fired.contains(k) == a.fired.contains(k),
{
}

/// Which one-shot station milestones a frame's milestone step leaves fired.
proof fn lemma_milestone_fired(w: SignalWorld, st: StationSignals, s0: FeedState, k: u32)
    requires
        k != 26,
    ensures
        milestone_steps(w, st, s0).fired.contains(k) <==> (s0.fired.contains(k)
            || k == 7
            || (k == 8 && st.has_iron)
            || (k == 9 && st.has_tungsten)
            || (k == 10 && st.iron_whole >= 25)
            || ((k == 11 || k == 27) && st.online)
            || (k == 13 && st.has_ai_cores)
            || (k == 15 && st.has_hull_plates)
            || (k == 16 && w.available_drones > 0)
            || (k == 25 && !st.online)),
{
}

/// Law: once the opening is complete and there is a station, each one-shot
/// station milestone is fired after a frame exactly when it was fired before or
/// its condition holds: 7 always; 8 with iron held; 9 with tungsten held; 10 with
/// 25 whole units of iron or more; 11 and 27 once the station is online; 13 with
/// an AI core; 15 with a hull plate; 16 with a drone ready; 25 while the station
/// is offline. The fleet milestones follow the ready drones: 17 with one or more,
/// 18 with two or more.
pub proof fn law_station_milestones_follow_the_station(w: SignalWorld, s: FeedState, k: u32)
    requires
        w.phase == OpeningPhase::Complete,
        w.station is Some,
    ensures
        ({
            let st = w.station->0;
            let fired_after = feed_frame(w, s).fired.contains(k);
            &&& k == 7 ==> fired_after
            &&& k == 8 ==> (fired_after <==> (s.fired.contains(8) || st.has_iron))
            &&& k == 9 ==> (fired_after <==> (s.fired.contains(9) || st.has_tungsten))
            &&& k == 10 ==> (fired_after <==> (s.fired.contains(10) || st.iron_whole >= 25))
            &&& (k == 11 || k == 27) ==> (fired_after <==> (s.fired.contains(k) || st.online))
            &&& k == 13 ==> (fired_after <==> (s.fired.contains(13) || st.has_ai_cores))
            &&& k == 15 ==> (fired_after <==> (s.fired.contains(15) || st.has_hull_plates))
            &&& k == 16 ==> (fired_after <==> (s.fired.contains(16) || w.available_drones > 0))
            &&& k == 25 ==> (fired_after <==> (s.fired.contains(25) || !st.online))
            &&& k == 17 ==> (fired_after <==> (s.fired.contains(17) || w.available_drones >= 1))
            &&& k == 18 ==> (fired_after <==> (s.fired.contains(18) || w.available_drones >= 2))
        }),
{
    let st = w.station->0;
    let s1 = opening_steps(w, s);
    let t1 = lemma_opening_fresh(w, s);
    let m = milestone_steps(w, st, s1);
    let tm = lemma_milestones_fresh(w, st, s1);
    let a = alert_steps(w, st, m);
    let ta = lemma_alerts_fresh(w, st, m);
    let p = processing_steps(w, st, a);
    let tp = lemma_processing_fresh(w, st, a);
    let tf = lemma_fleet_fresh(w, p);
    let f = fleet_steps(w, p);
    assert(feed_frame(w, s) == f);
    if 7 <= k <= 18 || 25 <= k <= 27 {
        if !t1.contains(k) {
            lemma_fresh_untouched(s, s1, t1, k);
        } else {
            assert(opening_ids(k));
        }
        if !ta.contains(k) {
            lemma_fresh_untouched(m, a, ta, k);
        }
        if !tp.contains(k) {
            lemma_fresh_untouched(a, p, tp, k);
        } else {
            assert(processing_ids(k));
        }
        if k == 17 || k == 18 {
            if tm.contains(k) {
                assert(milestone_ids(k));
            }
            if ta.contains(k) {
                assert(alert_ids(k));
            }
            lemma_fresh_untouched(s1, m, tm, k);
        } else {
            if tf.contains(k) {
                assert(fleet_ids(k));
            }
            lemma_fresh_untouched(p, f, tf, k);
            if k != 26 {
                lemma_milestone_fired(w, st, s1, k);
                if ta.contains(k) {
                    assert(alert_ids(k));
                }
            }
        }
    }
}

/// Law: the opening signals follow the cinematic. After any frame signal 1 is
/// fired; each of 2 to 6 is fired exactly when it was before or its moment has
/// come: 2 once the signal-identified phase has run `pause_s2`; 3 while
/// autopiloting; 4 in range; 5 once docked (or complete); 6 once the docked phase
/// has run `pause_dock_report`.
pub proof fn law_opening_signals_follow_the_phase(w: SignalWorld, s: FeedState, k: u32)
    ensures
        ({
            let fired_after = feed_frame(w, s).fired.contains(k);
            &&& k == 1 ==> fired_after
            &&& k == 2 ==> (fired_after <==> (s.fired.contains(2)
                || (w.phase == OpeningPhase::SignalIdentified && w.opening_timer >= w.pause_s2)))
            &&& k == 3 ==> (fired_after <==> (s.fired.contains(3) || w.phase == OpeningPhase::AutoPiloting))
            &&& k == 4 ==> (fired_after <==> (s.fired.contains(4) || w.phase == OpeningPhase::InRange))
            &&& k == 5 ==> (fired_after <==> (s.fired.contains(5)
                || w.phase == OpeningPhase::Docked || w.phase == OpeningPhase::Complete))
            &&& k == 6 ==> (fired_after <==> (s.fired.contains(6)
                || (w.phase == OpeningPhase::Docked && w.opening_timer >= w.pause_dock_report)))
        }),
{
    let s1 = opening_steps(w, s);
    if 1 <= k <= 6 {
        assert(s1.fired.contains(k) == feed_frame(w, s).fired.contains(k)) by {
            if w.phase == OpeningPhase::Complete {
                let s4 = match w.station {
                    Some(st) => processing_steps(w, st, alert_steps(w, st, milestone_steps(w, st, s1))),
                    None => s1,
                };
                match w.station {
                    Some(st) => {
                        let m = milestone_steps(w, st, s1);
                        let a = alert_steps(w, st, m);
                        let tm = lemma_milestones_fresh(w, st, s1);
                        let ta = lemma_alerts_fresh(w, st, m);
                        let tp = lemma_processing_fresh(w, st, a);
                        if tm.contains(k) { assert(milestone_ids(k)); }
                        if ta.contains(k) { assert(alert_ids(k)); }
                        if tp.contains(k) { assert(processing_ids(k)); }
                        lemma_fresh_untouched(s1, m, tm, k);
                        lemma_fresh_untouched(m, a, ta, k);
                        lemma_fresh_untouched(a, s4, tp, k);
                    },
                    None => {},
                }
                let tf = lemma_fleet_fresh(w, s4);
                if tf.contains(k) { assert(fleet_ids(k)); }
                lemma_fresh_untouched(s4, fleet_steps(w, s4), tf, k);
            }
        }
    }
}

/// What a refirable step does to its own signal: it becomes fired only when its
/// condition holds, it is cleared when its reset holds (and its condition not),
/// and otherwise stays as it was.
proof fn lemma_refire_own(s: FeedState, k: u32, now: u64, c: bool, r: bool)
    ensures
        refire_step(s, k, now, c, r).fired.contains(k) && !s.fired.contains(k) ==> c,
        r && !c ==> !refire_step(s, k, now, c, r).fired.contains(k),
        !c && !r ==> (refire_step(s, k, now, c, r).fired.contains(k) == s.fired.contains(k)),
{
}

/// Law: the re-arming station alerts follow the station. Once the opening is
/// complete, with a station: the critical-iron alert (19) newly fires only with
/// fewer than 5 whole units of iron and is cleared with 15 or more; the
/// slowing alert (28) newly fires only while the station slows and is cleared
/// while it rotates; the paused alert (29) newly fires only while it is paused
/// and is cleared while it slows; the resuming alert (30) newly fires only while
/// it resumes and is cleared while it rotates; the processing alert (32) newly
/// fires only while a queue holds a job and is cleared while none does. Between
/// its two conditions an alert stays as it was.
pub proof fn law_station_alerts_follow_the_station(w: SignalWorld, s: FeedState, k: u32)
    requires
        w.phase == OpeningPhase::Complete,
        w.station is Some,
    ensures
        ({
            let st = w.station->0;
            let after = feed_frame(w, s).fired.contains(k);
            let before = s.fired.contains(k);
            let (fire, clear) = if k == 19 {
                (st.iron_whole < 5, st.iron_whole >= 15)
            } else if k == 28 {
                (st.dock_state == StationDockState::Slowing, st.dock_state == StationDockState::Rotating)
            } else if k == 29 {
                (st.dock_state == StationDockState::Paused, st.dock_state == StationDockState::Slowing)
            } else if k == 30 {
                (st.dock_state == StationDockState::Resuming, st.dock_state == StationDockState::Rotating)
            } else {
                (st.processing_active, !st.processing_active)
            };
            (k == 19 || k == 28 || k == 29 || k == 30 || k == 32) ==> {
                &&& after && !before ==> fire
                &&& clear ==> !after
                &&& !fire && !clear ==> after == before
            }
        }),
{
    let st = w.station->0;
    if k == 19 || k == 28 || k == 29 || k == 30 || k == 32 {
        let s1 = opening_steps(w, s);
        let t1 = lemma_opening_fresh(w, s);
        let m = milestone_steps(w, st, s1);
        let tm = lemma_milestones_fresh(w, st, s1);
        let a = alert_steps(w, st, m);
        let p = processing_steps(w, st, a);
        let tf = lemma_fleet_fresh(w, p);
        assert(feed_frame(w, s) == fleet_steps(w, p));
        if t1.contains(k) { assert(opening_ids(k)); }
        if tm.contains(k) { assert(milestone_ids(k)); }
        if tf.contains(k) { assert(fleet_ids(k)); }
        lemma_fresh_untouched(s, s1, t1, k);
        lemma_fresh_untouched(s1, m, tm, k);
        lemma_fresh_untouched(p, fleet_steps(w, p), tf, k);
        // Through the alert steps: the delayed steps touch 12 and 14 only, each
        // refirable step only its own signal.
        let e = Set::<u32>::empty();
        let a1 = if st.online { delayed_step(m, 12, 11, w.now, w.pause_complete) } else { m };
        lemma_fresh_delayed(m, 12, 11, w.now, w.pause_complete); lemma_fresh_refl(m, e.insert(12));
        lemma_fresh_untouched(m, a1, e.insert(12), k);
        let a2 = if st.has_ai_cores { delayed_step(a1, 14, 13, w.now, SECTOR_SCAN_DELAY_MS) } else { a1 };
        lemma_fresh_delayed(a1, 14, 13, w.now, SECTOR_SCAN_DELAY_MS); lemma_fresh_refl(a1, e.insert(14));
        lemma_fresh_untouched(a1, a2, e.insert(14), k);
        let c19 = st.iron_whole < IRON_CRITICAL_BELOW;
        let r19 = st.iron_whole >= IRON_RECOVERED_AT;
        let a3 = refire_step(a2, 19, w.now, c19, r19);
        lemma_fresh_refire(a2, 19, w.now, c19, r19);
        lemma_refire_own(a2, 19, w.now, c19, r19);
        let c28 = st.dock_state == StationDockState::Slowing;
        let r28 = st.dock_state == StationDockState::Rotating;
        let a4 = refire_step(a3, 28, w.now, c28, r28);
        lemma_fresh_refire(a3, 28, w.now, c28, r28);
        lemma_refire_own(a3, 28, w.now, c28, r28);
        let c29 = st.dock_state == StationDockState::Paused;
        let r29 = st.dock_state == StationDockState::Slowing;
        let a5 = refire_step(a4, 29, w.now, c29, r29);
        lemma_fresh_refire(a4, 29, w.now, c29, r29);
        lemma_refire_own(a4, 29, w.now, c29, r29);
        let c30 = st.dock_state == StationDockState::Resuming;
        let r30 = st.dock_state == StationDockState::Rotating;
        let a6 = refire_step(a5, 30, w.now, c30, r30);
        lemma_fresh_refire(a5, 30, w.now, c30, r30);
        lemma_refire_own(a5, 30, w.now, c30, r30);
        let c31 = st.dock_state == StationDockState::Rotating && !w.opening_ship_docked && a6.fired.contains(30);
        let r31 = st.dock_state == StationDockState::Resuming;
        lemma_fresh_refire(a6, 31, w.now, c31, r31);
        assert(a == refire_step(a6, 31, w.now, c31, r31));
        if k != 19 { lemma_fresh_untouched(a2, a3, e.insert(19), k); }
        if k != 28 { lemma_fresh_untouched(a3, a4, e.insert(28), k); }
        if k != 29 { lemma_fresh_untouched(a4, a5, e.insert(29), k); }
        if k != 30 { lemma_fresh_untouched(a5, a6, e.insert(30), k); }
        lemma_fresh_untouched(a6, a, e.insert(31), k);
        let cp = st.processing_active;
        let p1 = refire_step(a, 32, w.now, cp, !cp);
        lemma_fresh_refire(a, 32, w.now, cp, !cp);
        lemma_refire_own(a, 32, w.now, cp, !cp);
        let c33 = !cp && p1.fired.contains(32);
        lemma_fresh_refire(p1, 33, w.now, c33, cp);
        assert(p == refire_step(p1, 33, w.now, c33, cp));
        lemma_fresh_untouched(p1, p, e.insert(33), k);
        if k != 32 { lemma_fresh_untouched(a, p1, e.insert(32), k); }
    }
}

/// The text of signal `id`.
pub fn signal_text(id: u32) -> (text: &'static str)
    ensures
        text@ == signal_line(id),
{
    if id == 1 { "> SIGNAL RECEIVED." }
    else if id == 2 { "> SOURCE IDENTIFIED. BEARING 047." }
    else if id == 3 { "> MOVING TO INVESTIGATE." }
    else if id == 4 { "> STRUCTURE DETECTED. DERELICT CLASS." }
    else if id == 5 { "> DOCKING COMPLETE." }
    else if id == 6 { "> POWER OFFLINE. STRUCTURAL INTEGRITY: 73%." }
    else if id == 7 { "> REPAIRS POSSIBLE. MATERIALS REQUIRED." }
    else if id == 8 { "> IRON ACQUIRED. REFINERY READY." }
    else if id == 9 { "> TUNGSTEN PRODUCED. REPAIR THRESHOLD: 25." }
    else if id == 10 { "> REPAIR THRESHOLD MET. INITIATE WHEN READY." }
    else if id == 11 { "> POWER RESTORED. STATION ONLINE." }
    else if id == 12 { "> AI CORE FABRICATION NOW AVAILABLE." }
    else if id == 13 { "> AI CORE NOMINAL. SECTOR 7 SCAN INITIATED." }
    else if id == 14 { "> CARBON SIGNATURE DETECTED. BEARING 047. DESIGNATION: SECTOR 7." }
    else if id == 15 { "> HULL PLATE FABRICATED. FORGE AVAILABLE." }
    else if id == 16 { "> SHIP HULL COMPLETE. ASSEMBLY POSSIBLE." }
    else if id == 17 { "> AUTONOMOUS UNIT READY. AWAITING ASSIGNMENT." }
    else if id == 18 { "> FLEET STRENGTH GROWING." }
    else if id == 19 { "> MATERIAL RESERVES CRITICAL. MINING RUN REQUIRED." }
    else if id == 25 { "> SMELTER OPERATIONAL. MANUAL MODE." }
    else if id == 26 { "> FORGE OPERATIONAL. MANUAL MODE." }
    else if id == 27 { "> AUTOMATED SYSTEMS ONLINE." }
    else if id == 28 { "> INCOMING VESSEL DETECTED. DOCKING SEQUENCE INITIATED." }
    else if id == 29 { "> ROTATION SUSPENDED. BERTH ALIGNED." }
    else if id == 30 { "> DOCKING COMPLETE. ROTATION RESUMING." }
    else if id == 31 { "> VESSEL DEPARTED. BERTH CLEAR." }
    else if id == 32 { "> INDUSTRIAL PROCESSING ACTIVE. PARALLEL QUEUES COMMENCED." }
    else if id == 33 { "> PROCESSING QUEUES EMPTY. PRODUCTION HALTED." }
    else { "" }
}

fn emit_id(log: &mut SignalLog, out: &mut Vec<u32>, id: u32)
    ensures
        feed_of(final(log), final(out)@) == emit_step(feed_of(old(log), old(out)@), id),
{
    if emit(log, id, signal_text(id)) {
        out.push(id);
    }
}

fn emit_stamped(log: &mut SignalLog, out: &mut Vec<u32>, id: u32, now: u64)
    ensures
        feed_of(final(log), final(out)@) == emit_stamped_step(feed_of(old(log), old(out)@), id, now),
{
    if emit(log, id, signal_text(id)) {
        out.push(id);
        log.last_fired_at.insert(id, now);
    }
}

fn refire(log: &mut SignalLog, out: &mut Vec<u32>, id: u32, now: u64, condition: bool, reset: bool)
    ensures
        feed_of(final(log), final(out)@) == refire_step(feed_of(old(log), old(out)@), id, now, condition, reset),
{
    if emit_refirable(log, id, signal_text(id), now, condition, reset) {
        out.push(id);
    }
}

fn emit_after(log: &mut SignalLog, out: &mut Vec<u32>, id: u32, anchor: u32, now: u64, delay: u64)
    ensures
        feed_of(final(log), final(out)@) == delayed_step(feed_of(old(log), old(out)@), id, anchor, now, delay),
{
    if log.fired.contains(&anchor) {
        match log.last_fired_at.get(&anchor) {
            Some(t) => {
                if now >= *t && now - *t >= delay {
                    emit_id(log, out, id);
                }
            },
            None => {},
        }
    }
}

fn run_opening(log: &mut SignalLog, out: &mut Vec<u32>, w: &SignalWorld)
    ensures
        feed_of(final(log), final(out)@) == opening_steps(*w, feed_of(old(log), old(out)@)),
{
    emit_id(log, out, 1);
    if w.opening_timer >= w.pause_s2 && w.phase == OpeningPhase::SignalIdentified {
        emit_id(log, out, 2);
    }
    if w.phase == OpeningPhase::AutoPiloting {
        emit_id(log, out, 3);
    }
    if w.phase == OpeningPhase::InRange {
        emit_id(log, out, 4);
    }
    if w.phase == OpeningPhase::Docked || w.phase == OpeningPhase::Complete {
        emit_id(log, out, 5);
    }
    if w.phase == OpeningPhase::Docked && w.opening_timer >= w.pause_dock_report {
        emit_id(log, out, 6);
    }
}

fn run_milestones(log: &mut SignalLog, out: &mut Vec<u32>, w: &SignalWorld, st: &StationSignals)
    ensures
        feed_of(final(log), final(out)@) == milestone_steps(*w, *st, feed_of(old(log), old(out)@)),
{
    emit_id(log, out, 7);
    if st.has_iron {
        emit_id(log, out, 8);
    }
    if st.has_tungsten {
        emit_id(log, out, 9);
    }
    if st.iron_whole >= REPAIR_THRESHOLD {
        emit_id(log, out, 10);
    }
    if st.online {
        emit_stamped(log, out, 11, w.now);
        emit_id(log, out, 27);
    }
    if st.has_ai_cores {
        emit_stamped(log, out, 13, w.now);
    }
    if st.has_hull_plates {
        emit_id(log, out, 15);
    }
    if w.available_drones > 0 {
        emit_id(log, out, 16);
    }
    if !st.online {
        emit_stamped(log, out, 25, w.now);
        emit_after(log, out, 26, 25, w.now, FORGE_LINE_DELAY_MS);
    }
}

fn run_alerts(log: &mut SignalLog, out: &mut Vec<u32>, w: &SignalWorld, st: &StationSignals)
    ensures
        feed_of(final(log), final(out)@) == alert_steps(*w, *st, feed_of(old(log), old(out)@)),
{
    if st.online {
        emit_after(log, out, 12, 11, w.now, w.pause_complete);
    }
    if st.has_ai_cores {
        emit_after(log, out, 14, 13, w.now, SECTOR_SCAN_DELAY_MS);
    }
    refire(log, out, 19, w.now, st.iron_whole < IRON_CRITICAL_BELOW, st.iron_whole >= IRON_RECOVERED_AT);
    refire(log, out, 28, w.now, st.dock_state == StationDockState::Slowing, st.dock_state == StationDockState::Rotating);
    refire(log, out, 29, w.now, st.dock_state == StationDockState::Paused, st.dock_state == StationDockState::Slowing);
    refire(log, out, 30, w.now, st.dock_state == StationDockState::Resuming, st.dock_state == StationDockState::Rotating);
    let s30_fired = log.fired.contains(&30);
    refire(
        log,
        out,
        31,
        w.now,
        st.dock_state == StationDockState::Rotating && !w.opening_ship_docked && s30_fired,
        st.dock_state == StationDockState::Resuming,
    );
}

fn run_processing(log: &mut SignalLog, out: &mut Vec<u32>, w: &SignalWorld, st: &StationSignals)
    ensures
        feed_of(final(log), final(out)@) == processing_steps(*w, *st, feed_of(old(log), old(out)@)),
{
    refire(log, out, 32, w.now, st.processing_active, !st.processing_active);
    let s32_fired = log.fired.contains(&32);
    refire(log, out, 33, w.now, !st.processing_active && s32_fired, st.processing_active);
}

fn run_fleet(log: &mut SignalLog, out: &mut Vec<u32>, w: &SignalWorld)
    ensures
        feed_of(final(log), final(out)@) == fleet_steps(*w, feed_of(old(log), old(out)@)),
{
    if w.available_drones >= 1 {
        emit_id(log, out, 17);
    }
    if w.available_drones >= 2 {
        emit_id(log, out, 18);
    }
}

/// Runs one frame of the signal feed and returns the ids that fired, in order
/// (each one is announced to the quest tracker).
pub fn signal_system(log: &mut SignalLog, w: &SignalWorld) -> (fired: Vec<u32>)
    ensures
        feed_of(final(log), fired@) == feed_frame(*w, feed_of(old(log), Seq::empty())),
{
    let mut out: Vec<u32> = Vec::new();
    run_opening(log, &mut out, w);
    if w.phase == OpeningPhase::Complete {
        match &w.station {
            Some(st) => {
                run_milestones(log, &mut out, w, st);
                run_alerts(log, &mut out, w, st);
                run_processing(log, &mut out, w, st);
            },
            None => {},
        }
        run_fleet(log, &mut out, w);
    }
    out
}

} // verus!
