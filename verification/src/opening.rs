use vstd::prelude::*;
use crate::signal::{SignalLog, fire_signal};
use crate::state::{OpeningPhase, ShipState, StationDockState};

verus! {

/// Progress of the opening cinematic. Timers are milliseconds since the phase
/// (`timer`) and since the last beat reset (`beat_timer`) began.
#[derive(Clone, Copy, PartialEq, Eq, Debug, Structural)]
pub struct OpeningSequence {
    pub phase: OpeningPhase,
    pub timer: u64,
    pub beat_timer: u64,
}

impl OpeningSequence {
    /// The start of a new game: adrift, timers at zero.
    pub fn new() -> (s: OpeningSequence)
        ensures
            s == (OpeningSequence { phase: OpeningPhase::Adrift, timer: 0, beat_timer: 0 }),
    {
        OpeningSequence { phase: OpeningPhase::Adrift, timer: 0, beat_timer: 0 }
    }
}

/// What the cinematic sees of the world in one frame.
#[derive(Clone, Copy)]
pub struct OpeningInput {
    /// Milliseconds since the last frame.
    pub dt: u64,
    /// Whether both the opening ship and the station exist.
    pub present: bool,
    /// Whether the ship is closer than 300 world units to the station.
    pub ship_within_range: bool,
    /// Whether the ship is closer than 5 world units to the station.
    pub ship_at_hub: bool,
}

/// What the frame asks the world to change.
#[derive(Clone, Copy, PartialEq, Eq, Debug, Structural)]
pub struct OpeningEffects {
    /// New state of the opening ship, if it changes.
    pub ship_state: Option<ShipState>,
    /// New dock state of the station, if it changes.
    pub dock_state: Option<StationDockState>,
    /// Whether the ship is absorbed: despawned and added to the drone queue,
    /// and the station's resume delay restarted.
    pub absorb_ship: bool,
}

pub open spec fn no_effects() -> OpeningEffects {
    OpeningEffects { ship_state: None, dock_state: None, absorb_ship: false }
}

/// How long each phase lasts, or the beat at which a line appears (milliseconds).
pub const EARLY_WINDOW_MS: u64 = 500;
pub const ADRIFT_MS: u64 = 3000;
pub const SIGNAL_IDENTIFIED_MS: u64 = 2000;
pub const ABSORB_AT_MS: u64 = 10_500;

/// The line of each opening signal.
pub open spec fn opening_line(id: u32) -> Seq<char> {
    if id == 1000 || id == 1001 || id == 1010 { "> ..."@ }
    else if id == 1002 { "> SIGNAL DETECTED."@ }
    else if id == 1003 { "> PLOTTING INTERCEPT COURSE."@ }
    else if id == 1004 { "> FUEL CRITICAL - PASSIVE DRIFT ONLY."@ }
    else if id == 1005 { "> ETA: UNKNOWN."@ }
    else if id == 1006 { "> SIGNAL IDENTIFIED. CLASS: STATION."@ }
    else if id == 1007 { "> BEARING 047. CLOSING."@ }
    else if id == 1008 { "> STRUCTURE DETECTED."@ }
    else if id == 1009 { "> STATION CLASS - UNKNOWN."@ }
    else if id == 1011 { "> HELLO."@ }
    else if id == 1012 { "> I HAVE BEEN WAITING."@ }
    else if id == 1013 { "> I AM ECHO - STATION AI, VOIDRIFT STATION."@ }
    else if id == 1014 { "> I HAVE ENOUGH RESERVE POWER FOR THIS MESSAGE."@ }
    else if id == 1015 { "> YOUR SHIP - MAY I?"@ }
    else if id == 1016 { "> I KNOW WHERE THE ORE IS."@ }
    else if id == 1017 { "> THANK YOU, COMMANDER."@ }
    else { ""@ }
}

/// Beat (milliseconds after docking) at which each docked line appears.
pub open spec fn docked_beat(id: u32) -> u64 {
    if id == 1010 { 500 }
    else if id == 1011 { 1500 }
    else if id == 1012 { 2500 }
    else if id == 1013 { 3500 }
    else if id == 1014 { 5000 }
    else if id == 1015 { 6500 }
    else if id == 1016 { 7500 }
    else { 9000 }
}

/// The signal log as seen by the cinematic.
#[verifier::ext_equal]
pub struct OpeningFeed {
    pub lines: Seq<Seq<char>>,
    pub fired: Set<u32>,
}

pub open spec fn opening_feed(log: &SignalLog) -> OpeningFeed {
    OpeningFeed { lines: log.lines(), fired: log.fired@ }
}

/// Records opening signal `id` unless it has fired.
pub open spec fn line_step(s: OpeningFeed, id: u32) -> OpeningFeed {
    if s.fired.contains(id) {
        s
    } else {
        OpeningFeed { lines: s.lines.push(opening_line(id)), fired: s.fired.insert(id) }
    }
}

/// Records the opening signals `first..=last` in order.
pub open spec fn lines_step(s: OpeningFeed, first: int, last: int) -> OpeningFeed
    decreases last + 1 - first,
{
    if first > last {
        s
    } else {
        lines_step(line_step(s, first as u32), first + 1, last)
    }
}

/// Records the docked lines whose beat has come, in order.
pub open spec fn docked_lines(s: OpeningFeed, beat: u64) -> OpeningFeed {
    let s0 = if beat >= docked_beat(1010) { line_step(s, 1010) } else { s };
    let s1 = if beat >= docked_beat(1011) { line_step(s0, 1011) } else { s0 };
    let s2 = if beat >= docked_beat(1012) { line_step(s1, 1012) } else { s1 };
    let s3 = if beat >= docked_beat(1013) { line_step(s2, 1013) } else { s2 };
    let s4 = if beat >= docked_beat(1014) { line_step(s3, 1014) } else { s3 };
    let s5 = if beat >= docked_beat(1015) { line_step(s4, 1015) } else { s4 };
    let s6 = if beat >= docked_beat(1016) { line_step(s5, 1016) } else { s5 };
    if beat >= docked_beat(1017) { line_step(s6, 1017) } else { s6 }
}

/// One frame of the opening cinematic: the new sequence state, the signal log,
/// and the effects asked of the world.
pub open spec fn opening_frame(o: OpeningSequence, i: OpeningInput, f: OpeningFeed)
    -> (OpeningSequence, OpeningFeed, OpeningEffects)
{
    if o.phase == OpeningPhase::Complete {
        (o, f, no_effects())
    } else {
        let t = OpeningSequence {
            timer: sat_add(o.timer, i.dt),
            beat_timer: sat_add(o.beat_timer, i.dt),
            ..o
        };
        let restart = |p: OpeningPhase| OpeningSequence { phase: p, timer: 0, beat_timer: 0 };
        if !i.present {
            (t, f, no_effects())
        } else {
            match t.phase {
                OpeningPhase::Adrift => {
                    let f1 = if t.timer < EARLY_WINDOW_MS { lines_step(f, 1000, 1005) } else { f };
                    (if t.timer >= ADRIFT_MS { restart(OpeningPhase::SignalIdentified) } else { t }, f1, no_effects())
                },
                OpeningPhase::SignalIdentified => {
                    let f1 = if t.timer < EARLY_WINDOW_MS { lines_step(f, 1006, 1007) } else { f };
                    (if t.timer >= SIGNAL_IDENTIFIED_MS { restart(OpeningPhase::AutoPiloting) } else { t }, f1, no_effects())
                },
                OpeningPhase::AutoPiloting => {
                    let early = t.timer < EARLY_WINDOW_MS;
                    let f1 = if early { lines_step(f, 1008, 1009) } else { f };
                    (
                        if i.ship_within_range { restart(OpeningPhase::InRange) } else { t },
                        f1,
                        OpeningEffects { ship_state: if early { Some(ShipState::Navigating) } else { None }, ..no_effects() },
                    )
                },
                OpeningPhase::InRange => {
                    if i.ship_at_hub {
                        (
                            restart(OpeningPhase::Docked),
                            f,
                            OpeningEffects {
                                ship_state: Some(ShipState::Docked),
                                dock_state: Some(StationDockState::Paused),
                                absorb_ship: false,
                            },
                        )
                    } else {
                        (t, f, no_effects())
                    }
                },
                OpeningPhase::Docked => {
                    let f1 = docked_lines(f, t.beat_timer);
                    if t.beat_timer >= ABSORB_AT_MS {
                        (
                            OpeningSequence { phase: OpeningPhase::Complete, beat_timer: 0, ..t },
                            f1,
                            OpeningEffects {
                                ship_state: None,
                                dock_state: Some(StationDockState::Resuming),
                                absorb_ship: true,
                            },
                        )
                    } else {
                        (t, f1, no_effects())
                    }
                },
                OpeningPhase::Complete => (t, f, no_effects()),
            }
        }
    }
}

/// Position of a phase in the cinematic.
pub open spec fn phase_rank(p: OpeningPhase) -> nat {
    match p {
        OpeningPhase::Adrift => 0,
        OpeningPhase::SignalIdentified => 1,
        OpeningPhase::AutoPiloting => 2,
        OpeningPhase::InRange => 3,
        OpeningPhase::Docked => 4,
        OpeningPhase::Complete => 5,
    }
}

/// The cinematic only moves forward, one phase per frame at most.
pub proof fn law_opening_moves_forward(o: OpeningSequence, i: OpeningInput, f: OpeningFeed)
    ensures
        phase_rank(opening_frame(o, i, f).0.phase) >= phase_rank(o.phase),
        phase_rank(opening_frame(o, i, f).0.phase) <= phase_rank(o.phase) + 1,
{
}

/// Once complete, the cinematic changes nothing: the sequence, the log and the
/// world stay as they are.
pub proof fn law_complete_opening_is_final(o: OpeningSequence, i: OpeningInput, f: OpeningFeed)
    requires
        o.phase == OpeningPhase::Complete,
    ensures
        opening_frame(o, i, f) == (o, f, no_effects()),
{
}

/// The opening ship is absorbed into the fleet exactly on the frame the docked
/// phase completes, so at most once in a game.
pub proof fn law_ship_absorbed_on_completion(o: OpeningSequence, i: OpeningInput, f: OpeningFeed)
    ensures
        opening_frame(o, i, f).2.absorb_ship <==> (o.phase == OpeningPhase::Docked
            && opening_frame(o, i, f).0.phase == OpeningPhase::Complete),
{
}

/// Law: each phase of the cinematic moves on only at its cue, and only while the
/// ship and the station are present. Adrift becomes signal-identified once 3000
/// ms have run; signal-identified becomes autopiloting once 2000 ms have run;
/// autopiloting becomes in-range once the ship is within range; in-range becomes
/// docked once the ship is at the hub, docking the ship and pausing the station
/// (otherwise nothing changes but the timers); docked becomes complete once its
/// beat reaches 10500 ms, absorbing the ship and resuming the station. A phase
/// that moves on restarts its timer.
pub proof fn law_opening_phases_advance_on_their_cues(o: OpeningSequence, i: OpeningInput, f: OpeningFeed)
    ensures
        ({
            let (o2, f2, fx) = opening_frame(o, i, f);
            let elapsed = o.timer + i.dt;
            &&& o.phase == OpeningPhase::Adrift ==> (
                (o2.phase == OpeningPhase::SignalIdentified <==> (i.present && elapsed >= 3000))
                && (o2.phase == OpeningPhase::SignalIdentified || o2.phase == OpeningPhase::Adrift)
                && fx == no_effects())
            &&& o.phase == OpeningPhase::SignalIdentified ==> (
                (o2.phase == OpeningPhase::AutoPiloting <==> (i.present && elapsed >= 2000))
                && (o2.phase == OpeningPhase::AutoPiloting || o2.phase == OpeningPhase::SignalIdentified)
                && fx == no_effects())
            &&& o.phase == OpeningPhase::AutoPiloting ==> (
                (o2.phase == OpeningPhase::InRange <==> (i.present && i.ship_within_range))
                && (o2.phase == OpeningPhase::InRange || o2.phase == OpeningPhase::AutoPiloting)
                && fx.dock_state is None && !fx.absorb_ship)
            &&& o.phase == OpeningPhase::InRange ==> (
                (o2.phase == OpeningPhase::Docked <==> (i.present && i.ship_at_hub))
                && (o2.phase == OpeningPhase::Docked ==> fx == (OpeningEffects {
                    ship_state: Some(ShipState::Docked),
                    dock_state: Some(StationDockState::Paused),
                    absorb_ship: false,
                }))
                && (o2.phase != OpeningPhase::Docked ==> o2.phase == OpeningPhase::InRange && fx == no_effects() && f2 == f))
            &&& o.phase == OpeningPhase::Docked ==> (
                (o2.phase == OpeningPhase::Complete <==> (i.present && o.beat_timer + i.dt >= 10500))
                && (o2.phase == OpeningPhase::Complete || o2.phase == OpeningPhase::Docked)
                && (o2.phase == OpeningPhase::Complete ==> fx.absorb_ship && fx.dock_state == Some(StationDockState::Resuming))
                && (o2.phase == OpeningPhase::Docked ==> fx == no_effects()))
            &&& o2.phase != o.phase && o2.phase != OpeningPhase::Complete ==> o2.timer == 0 && o2.beat_timer == 0
        }),
{
}

proof fn lemma_lines_step_grows(s: OpeningFeed, first: int, last: int)
    ensures
        s.fired.subset_of(lines_step(s, first, last).fired),
    decreases last + 1 - first,
{
    if first <= last {
        lemma_lines_step_grows(line_step(s, first as u32), first + 1, last);
    }
}

/// Law: the cinematic's fired signals only grow, and each timer either runs on
/// by the frame's time (stopping at the largest value), restarts at zero, or,
/// once the opening is complete, stays.
pub proof fn law_opening_fired_only_grows(o: OpeningSequence, i: OpeningInput, f: OpeningFeed)
    ensures
        f.fired.subset_of(opening_frame(o, i, f).1.fired),
        o.phase == OpeningPhase::Complete || opening_frame(o, i, f).0.timer == sat_add(o.timer, i.dt)
            || opening_frame(o, i, f).0.timer == 0,
        o.phase == OpeningPhase::Complete || opening_frame(o, i, f).0.beat_timer == sat_add(o.beat_timer, i.dt)
            || opening_frame(o, i, f).0.beat_timer == 0,
{
    lemma_lines_step_grows(f, 1000, 1005);
    lemma_lines_step_grows(f, 1006, 1007);
    lemma_lines_step_grows(f, 1008, 1009);
}

/// Addition that stops at the largest value instead of overflowing.
pub open spec fn sat_add(a: u64, b: u64) -> u64 {
    if a + b > u64::MAX { u64::MAX } else { (a + b) as u64 }
}

/// The text of opening signal `id`.
pub fn opening_text(id: u32) -> (text: &'static str)
    ensures
        text@ == opening_line(id),
{
    if id == 1000 || id == 1001 || id == 1010 { "> ..." }
    else if id == 1002 { "> SIGNAL DETECTED." }
    else if id == 1003 { "> PLOTTING INTERCEPT COURSE." }
    else if id == 1004 { "> FUEL CRITICAL - PASSIVE DRIFT ONLY." }
    else if id == 1005 { "> ETA: UNKNOWN." }
    else if id == 1006 { "> SIGNAL IDENTIFIED. CLASS: STATION." }
    else if id == 1007 { "> BEARING 047. CLOSING." }
    else if id == 1008 { "> STRUCTURE DETECTED." }
    else if id == 1009 { "> STATION CLASS - UNKNOWN." }
    else if id == 1011 { "> HELLO." }
    else if id == 1012 { "> I HAVE BEEN WAITING." }
    else if id == 1013 { "> I AM ECHO - STATION AI, VOIDRIFT STATION." }
    else if id == 1014 { "> I HAVE ENOUGH RESERVE POWER FOR THIS MESSAGE." }
    else if id == 1015 { "> YOUR SHIP - MAY I?" }
    else if id == 1016 { "> I KNOW WHERE THE ORE IS." }
    else if id == 1017 { "> THANK YOU, COMMANDER." }
    else { "" }
}

fn record_line(log: &mut SignalLog, id: u32)
    ensures
        opening_feed(final(log)) == line_step(opening_feed(old(log)), id),
        final(log).last_fired_at@ == old(log).last_fired_at@,
{
    fire_signal(log, id, opening_text(id));
}

fn record_lines(log: &mut SignalLog, first: u32, last: u32)
    requires
        first <= last < u32::MAX,
    ensures
        opening_feed(final(log)) == lines_step(opening_feed(old(log)), first as int, last as int),
        final(log).last_fired_at@ == old(log).last_fired_at@,
{
    let mut id = first;
    while id <= last
        invariant
            first <= id <= last + 1,
            last < u32::MAX,
            lines_step(opening_feed(old(log)), first as int, last as int) == lines_step(opening_feed(log), id as int, last as int),
            log.last_fired_at@ == old(log).last_fired_at@,
        decreases last + 1 - id,
    {
        let ghost before = opening_feed(log);
        record_line(log, id);
        assert(lines_step(before, id as int, last as int) == lines_step(line_step(before, id), id + 1, last as int));
        id += 1;
    }
}

fn record_docked_lines(log: &mut SignalLog, beat: u64)
    ensures
        opening_feed(final(log)) == docked_lines(opening_feed(old(log)), beat),
        final(log).last_fired_at@ == old(log).last_fired_at@,
{
    if beat >= 500 { record_line(log, 1010); }
    if beat >= 1500 { record_line(log, 1011); }
    if beat >= 2500 { record_line(log, 1012); }
    if beat >= 3500 { record_line(log, 1013); }
    if beat >= 5000 { record_line(log, 1014); }
    if beat >= 6500 { record_line(log, 1015); }
    if beat >= 7500 { record_line(log, 1016); }
    if beat >= 9000 { record_line(log, 1017); }
}

/// Advances the opening cinematic by one frame: counts the timers up, records the
/// lines of the current phase, moves to the next phase when its time or distance
/// condition is met, and returns what the world must change. Does nothing once
/// the cinematic is complete; when the ship or the station is missing only the
/// timers move.
pub fn opening_sequence_system(o: &mut OpeningSequence, input: &OpeningInput, log: &mut SignalLog) -> (effects: OpeningEffects)
    ensures
        (*final(o), opening_feed(final(log)), effects) == opening_frame(*old(o), *input, opening_feed(old(log))),
        final(log).last_fired_at@ == old(log).last_fired_at@,
{
    if o.phase == OpeningPhase::Complete {
        return OpeningEffects { ship_state: None, dock_state: None, absorb_ship: false };
    }
    o.timer = o.timer.saturating_add(input.dt);
    o.beat_timer = o.beat_timer.saturating_add(input.dt);
    let none = OpeningEffects { ship_state: None, dock_state: None, absorb_ship: false };
    if !input.present {
        return none;
    }
    match o.phase {
        OpeningPhase::Adrift => {
            if o.timer < EARLY_WINDOW_MS {
                record_lines(log, 1000, 1005);
            }
            if o.timer >= ADRIFT_MS {
                *o = OpeningSequence { phase: OpeningPhase::SignalIdentified, timer: 0, beat_timer: 0 };
            }
            none
        },
        OpeningPhase::SignalIdentified => {
            if o.timer < EARLY_WINDOW_MS {
                record_lines(log, 1006, 1007);
            }
            if o.timer >= SIGNAL_IDENTIFIED_MS {
                *o = OpeningSequence { phase: OpeningPhase::AutoPiloting, timer: 0, beat_timer: 0 };
            }
            none
        },
        OpeningPhase::AutoPiloting => {
            let early = o.timer < EARLY_WINDOW_MS;
            if early {
                record_lines(log, 1008, 1009);
            }
            if input.ship_within_range {
                *o = OpeningSequence { phase: OpeningPhase::InRange, timer: 0, beat_timer: 0 };
            }
            OpeningEffects { ship_state: if early { Some(ShipState::Navigating) } else { None }, dock_state: None, absorb_ship: false }
        },
        OpeningPhase::InRange => {
            if input.ship_at_hub {
                *o = OpeningSequence { phase: OpeningPhase::Docked, timer: 0, beat_timer: 0 };
                OpeningEffects { ship_state: Some(ShipState::Docked), dock_state: Some(StationDockState::Paused), absorb_ship: false }
            } else {
                none
            }
        },
        OpeningPhase::Docked => {
            record_docked_lines(log, o.beat_timer);
            if o.beat_timer >= ABSORB_AT_MS {
                o.phase = OpeningPhase::Complete;
                o.beat_timer = 0;
                OpeningEffects { ship_state: None, dock_state: Some(StationDockState::Resuming), absorb_ship: true }
            } else {
                none
            }
        },
        OpeningPhase::Complete => none,
    }
}

} // verus!
