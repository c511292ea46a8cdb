use vstd::prelude::*;
use crate::random::random_below;
use crate::signal::{SIGNAL_LOG_MAX, SignalLog, keep_last, push_echo};
use crate::state::OpeningPhase;
use crate::text::{texts, insert_text, text_eq, contains_text, insert_text_into, first_index_of,
    lemma_first_index_none, lemma_first_index_found, lemma_first_index_is_first};

verus! {

/// An Echo line that fires once, the first time its trigger is observed.
pub struct OneShotLine {
    pub id: String,
    pub trigger: String,
    pub text: String,
}

/// An Echo line said now and then; lines with a trigger in `eligible_after` are
/// only said once that trigger has been observed. `weight` counts its chances.
pub struct AmbientLine {
    pub id: String,
    pub text: String,
    pub weight: u32,
    pub eligible_after: Option<String>,
}

/// Lines one of which may be said when an event happens, with a chance given in
/// parts per million.
pub struct EventPool {
    pub trigger: String,
    pub chance_ppm: u32,
    pub lines: Vec<String>,
}

/// The Echo content of the game.
pub struct ContentConfig {
    pub one_shots: Vec<OneShotLine>,
    pub ambient: Vec<AmbientLine>,
    pub event_pools: Vec<EventPool>,
}

/// Progress of the content pipeline: triggers whose one-shot line has fired,
/// triggers observed so far, and milliseconds until the next ambient line
/// (0 until the first frame sets it).
pub struct ContentState {
    pub fired_one_shots: Vec<String>,
    pub observed_triggers: Vec<String>,
    pub ambient_timer: u64,
}

/// Shortest and longest wait between ambient lines, in milliseconds.
pub const AMBIENT_MIN_MS: u64 = 90_000;
pub const AMBIENT_MAX_MS: u64 = 120_000;
/// Denominator of an event pool's chance.
pub const PPM: u64 = 1_000_000;

pub open spec fn one_shot_triggers(lines: Seq<OneShotLine>) -> Seq<Seq<char>> {
    lines.map_values(|l: OneShotLine| l.trigger@)
}

pub open spec fn pool_triggers(pools: Seq<EventPool>) -> Seq<Seq<char>> {
    pools.map_values(|p: EventPool| p.trigger@)
}

/// Whether an ambient line may be said once `observed` triggers have been seen.
pub open spec fn ambient_eligible(line: AmbientLine, observed: Seq<Seq<char>>) -> bool {
    match line.eligible_after {
        Some(t) => observed.contains(t@),
        None => true,
    }
}

/// The draw pool of ambient lines: the index of each eligible line, repeated
/// as many times as its weight, in the order of the lines.
pub open spec fn ambient_pool(lines: Seq<AmbientLine>, observed: Seq<Seq<char>>) -> Seq<usize>
    decreases lines.len(),
{
    if lines.len() == 0 {
        Seq::empty()
    } else {
        let rest = ambient_pool(lines.drop_last(), observed);
        if ambient_eligible(lines.last(), observed) {
            rest + Seq::new(lines.last().weight as nat, |k: int| (lines.len() - 1) as usize)
        } else {
            rest
        }
    }
}

/// The content pipeline as a mathematical value.
#[verifier::ext_equal]
pub struct ContentFeed {
    pub fired: Seq<Seq<char>>,
    pub observed: Seq<Seq<char>>,
    pub lines: Seq<Seq<char>>,
}

pub open spec fn content_feed(state: &ContentState, log: &SignalLog) -> ContentFeed {
    ContentFeed { fired: texts(state.fired_one_shots@), observed: texts(state.observed_triggers@), lines: log.lines() }
}

/// Fires the one-shot line of `trigger`: unless it has fired, the first line with
/// that trigger is echoed and the trigger recorded.
pub open spec fn one_shot_step(cfg: Seq<OneShotLine>, s: ContentFeed, trigger: Seq<char>) -> ContentFeed {
    if s.fired.contains(trigger) {
        s
    } else {
        match first_index_of(one_shot_triggers(cfg), trigger) {
            Some(i) => ContentFeed {
                fired: s.fired.push(trigger),
                lines: keep_last(s.lines.push("ECHO: "@ + cfg[i].text@)),
                ..s
            },
            None => s,
        }
    }
}

/// Echoes `line`, if any.
pub open spec fn echo_step(s: ContentFeed, line: Option<Seq<char>>) -> ContentFeed {
    match line {
        Some(l) => ContentFeed { lines: keep_last(s.lines.push("ECHO: "@ + l)), ..s },
        None => s,
    }
}

/// Records that `trigger` was observed.
pub open spec fn observe_step(s: ContentFeed, trigger: Seq<char>) -> ContentFeed {
    ContentFeed { observed: insert_text(s.observed, trigger), ..s }
}

fn find_one_shot(lines: &Vec<OneShotLine>, trigger: &str) -> (found: Option<usize>)
    ensures
        match found {
            Some(i) => first_index_of(one_shot_triggers(lines@), trigger@) == Some(i as int) && i < lines@.len(),
            None => first_index_of(one_shot_triggers(lines@), trigger@) == None::<int>,
        },
{
    let ghost keys = one_shot_triggers(lines@);
    let mut i: usize = 0;
    while i < lines.len()
        invariant
            0 <= i <= lines@.len(),
            keys == one_shot_triggers(lines@),
            forall|j: int| 0 <= j < i ==> keys[j] != trigger@,
        decreases lines@.len() - i,
    {
        if text_eq(&lines[i].trigger, trigger) {
            proof { lemma_first_index_found(keys, trigger@, i as int); }
            return Some(i);
        }
        i += 1;
    }
    proof { lemma_first_index_none(keys, trigger@); }
    None
}

/// Position of the first event pool with this trigger.
pub fn find_pool(pools: &Vec<EventPool>, trigger: &str) -> (found: Option<usize>)
    ensures
        match found {
            Some(i) => first_index_of(pool_triggers(pools@), trigger@) == Some(i as int) && i < pools@.len(),
            None => first_index_of(pool_triggers(pools@), trigger@) == None::<int>,
        },
{
    let ghost keys = pool_triggers(pools@);
    let mut i: usize = 0;
    while i < pools.len()
        invariant
            0 <= i <= pools@.len(),
            keys == pool_triggers(pools@),
            forall|j: int| 0 <= j < i ==> keys[j] != trigger@,
        decreases pools@.len() - i,
    {
        if text_eq(&pools[i].trigger, trigger) {
            proof { lemma_first_index_found(keys, trigger@, i as int); }
            return Some(i);
        }
        i += 1;
    }
    proof { lemma_first_index_none(keys, trigger@); }
    None
}

/// Fires the one-shot line of `trigger` if it has not fired: the first line with
/// that trigger is echoed and the trigger is recorded as fired. Returns the
/// position of the line echoed, if any.
pub fn fire_one_shot(trigger: &str, content: &ContentConfig, state: &mut ContentState, log: &mut SignalLog) -> (echoed: Option<usize>)
    ensures
        content_feed(final(state), final(log)) == one_shot_step(content.one_shots@, content_feed(old(state), old(log)), trigger@),
        final(state).ambient_timer == old(state).ambient_timer,
        final(log).fired@ == old(log).fired@,
        final(log).last_fired_at@ == old(log).last_fired_at@,
        match echoed {
            Some(i) => first_index_of(one_shot_triggers(content.one_shots@), trigger@) == Some(i as int)
                && !texts(old(state).fired_one_shots@).contains(trigger@),
            None => texts(old(state).fired_one_shots@).contains(trigger@)
                || first_index_of(one_shot_triggers(content.one_shots@), trigger@) == None::<int>,
        },
{
    if contains_text(&state.fired_one_shots, trigger) {
        return None;
    }
    match find_one_shot(&content.one_shots, trigger) {
        Some(i) => {
            proof { lemma_first_index_is_first(one_shot_triggers(content.one_shots@), trigger@); }
            push_echo(log, content.one_shots[i].text.as_str());
            let ghost before = texts(state.fired_one_shots@);
            state.fired_one_shots.push(trigger.to_owned());
            assert(texts(state.fired_one_shots@) =~= before.push(trigger@));
            Some(i)
        },
        None => None,
    }
}

/// No line can come from the pool of `trigger`: there is none, or it has no
/// lines, or no chance.
pub open spec fn pool_silent(cfg: Seq<EventPool>, trigger: Seq<char>) -> bool {
    match first_index_of(pool_triggers(cfg), trigger) {
        Some(p) => cfg[p].lines@.len() == 0 || cfg[p].chance_ppm == 0,
        None => true,
    }
}

/// A line always comes from the pool of `trigger`: it exists, has lines and a
/// chance of `PPM` or more.
pub open spec fn pool_certain(cfg: Seq<EventPool>, trigger: Seq<char>) -> bool {
    match first_index_of(pool_triggers(cfg), trigger) {
        Some(p) => cfg[p].lines@.len() > 0 && cfg[p].chance_ppm >= PPM,
        None => false,
    }
}

/// The pool and line that a draw gives for `trigger`: where the pool with that
/// trigger has lines and the `roll` (parts per million) comes in under its
/// chance, its line `pick`; otherwise none.
pub open spec fn pool_draw(cfg: Seq<EventPool>, trigger: Seq<char>, roll: u64, pick: u64) -> Option<(usize, usize)> {
    match first_index_of(pool_triggers(cfg), trigger) {
        Some(p) => if roll < cfg[p].chance_ppm && cfg[p].lines@.len() > 0 {
            Some((p as usize, pick as usize))
        } else {
            None
        },
        None => None,
    }
}

/// Whether `pick` names a line of the pool of `trigger`, where that pool has lines.
pub open spec fn pick_fits(cfg: Seq<EventPool>, trigger: Seq<char>, pick: u64) -> bool {
    match first_index_of(pool_triggers(cfg), trigger) {
        Some(p) => cfg[p].lines@.len() == 0 || pick < cfg[p].lines@.len(),
        None => true,
    }
}

/// The lines after echoing a drawn pool line, if any.
pub open spec fn lines_after_draw(cfg: Seq<EventPool>, lines: Seq<Seq<char>>, drawn: Option<(usize, usize)>) -> Seq<Seq<char>> {
    match drawn {
        Some((p, l)) => keep_last(lines.push("ECHO: "@ + cfg[p as int].lines@[l as int]@)),
        None => lines,
    }
}

/// Echoes the line of the pool of `trigger` that the draws `roll` (parts per
/// million) and `pick` (a line's position) give: line `pick` when the pool
/// exists, has lines and `roll` is under its chance; nothing otherwise.
/// Returns the pool and line echoed.
pub fn echo_pool_line(trigger: &str, content: &ContentConfig, log: &mut SignalLog, roll: u64, pick: u64)
    -> (echoed: Option<(usize, usize)>)
    requires
        pick_fits(content.event_pools@, trigger@, pick),
    ensures
        echoed == pool_draw(content.event_pools@, trigger@, roll, pick),
        final(log).lines() == lines_after_draw(content.event_pools@, old(log).lines(), echoed),
        final(log).fired@ == old(log).fired@,
        final(log).last_fired_at@ == old(log).last_fired_at@,
{
    match find_pool(&content.event_pools, trigger) {
        Some(p) => {
            let n = content.event_pools[p].lines.len();
            if roll < content.event_pools[p].chance_ppm as u64 && n > 0 {
                let l = pick as usize;
                push_echo(log, content.event_pools[p].lines[l].as_str());
                Some((p, l))
            } else {
                None
            }
        },
        None => None,
    }
}

/// Echoes a line of the pool with this trigger when one exists, has lines and its
/// chance comes up, drawing the chance and the line at random (see
/// `echo_pool_line`, which is given the draws). Whatever the draws, a pool with a
/// certain chance (`PPM` or more) and some lines echoes one; without a pool,
/// without lines or with no chance nothing is echoed.
fn fire_event_pool(trigger: &str, content: &ContentConfig, log: &mut SignalLog) -> (echoed: Option<(usize, usize)>)
    ensures
        exists|roll: u64, pick: u64| roll < PPM && pick_fits(content.event_pools@, trigger@, pick)
            && echoed == #[trigger] pool_draw(content.event_pools@, trigger@, roll, pick),
        pool_silent(content.event_pools@, trigger@) ==> echoed is None,
        pool_certain(content.event_pools@, trigger@) ==> echoed is Some,
        final(log).lines() == lines_after_draw(content.event_pools@, old(log).lines(), echoed),
        final(log).fired@ == old(log).fired@,
        final(log).last_fired_at@ == old(log).last_fired_at@,
{
    let mut roll: u64 = 0;
    let mut pick: u64 = 0;
    match find_pool(&content.event_pools, trigger) {
        Some(p) => {
            roll = random_below(PPM);
            let n = content.event_pools[p].lines.len();
            if roll < content.event_pools[p].chance_ppm as u64 && n > 0 {
                pick = random_below(n as u64);
            }
        },
        None => {},
    }
    let echoed = echo_pool_line(trigger, content, log, roll, pick);
    assert(roll < PPM && pick_fits(content.event_pools@, trigger@, pick)
        && echoed == pool_draw(content.event_pools@, trigger@, roll, pick));
    echoed
}

/// What happened this frame, for the content pipeline.
#[derive(Clone, Copy)]
pub struct ContentEvents {
    pub opening_complete: bool,
    pub drone_returned: bool,
    pub drone_dispatched: bool,
    pub bottle_collected: bool,
    pub request_fulfilled: bool,
    pub available_drones: u32,
}

/// Queue size at which the "drone_count_5" line fires.
pub const FULL_FLEET: u32 = 5;

/// The content frame given the lines drawn from the event pools (if any).
pub open spec fn content_frame(
    cfg: Seq<OneShotLine>,
    e: ContentEvents,
    s0: ContentFeed,
    returned_line: Option<Seq<char>>,
    dispatched_line: Option<Seq<char>>,
) -> ContentFeed {
    let s1 = if e.opening_complete { one_shot_step(cfg, s0, "opening_complete"@) } else { s0 };
    let s2 = if e.drone_returned { one_shot_step(cfg, echo_step(s1, returned_line), "first_drone_returned"@) } else { s1 };
    let s3 = if e.drone_dispatched { echo_step(s2, dispatched_line) } else { s2 };
    let s4 = if e.bottle_collected {
        one_shot_step(cfg, observe_step(s3, "first_bottle_collected"@), "first_bottle_collected"@)
    } else {
        s3
    };
    let s5 = if e.request_fulfilled {
        one_shot_step(cfg, observe_step(s4, "first_quest_fulfilled"@), "first_quest_fulfilled"@)
    } else {
        s4
    };
    if e.available_drones >= FULL_FLEET { one_shot_step(cfg, s5, "drone_count_5"@) } else { s5 }
}

/// The line of a pool that was echoed.
pub open spec fn pool_line(cfg: Seq<EventPool>, drawn: Option<(usize, usize)>) -> Option<Seq<char>> {
    match drawn {
        Some((p, l)) => Some(cfg[p as int].lines@[l as int]@),
        None => None,
    }
}

/// What an event's draw gives: the pool draw (see `pool_draw`) when the event
/// happened, none when it did not.
pub open spec fn event_draw(happened: bool, cfg: Seq<EventPool>, trigger: Seq<char>, roll: u64, pick: u64) -> Option<(usize, usize)> {
    if happened {
        pool_draw(cfg, trigger, roll, pick)
    } else {
        None
    }
}

/// Fires the one-shot and event-pool Echo lines for this frame's events, in the
/// game's order: opening complete; a drone returned (pool, then its one-shot); a
/// drone dispatched (pool); the first bottle collected; the first request
/// fulfilled; a full fleet. Returns the pool lines drawn for the returned and
/// dispatched events: each is what `pool_draw` gives for the random roll and
/// pick drawn for it, so a pool with lines and a certain chance always gives
/// one, and a missing pool or one without lines or chance never does.
pub fn content_event_system(e: &ContentEvents, content: &ContentConfig, state: &mut ContentState, log: &mut SignalLog)
    -> (drawn: (Option<(usize, usize)>, Option<(usize, usize)>))
    ensures
        exists|roll: u64, pick: u64| roll < PPM && pick_fits(content.event_pools@, "drone_returned"@, pick)
            && drawn.0 == #[trigger] event_draw(e.drone_returned, content.event_pools@, "drone_returned"@, roll, pick),
        exists|roll: u64, pick: u64| roll < PPM && pick_fits(content.event_pools@, "drone_dispatched"@, pick)
            && drawn.1 == #[trigger] event_draw(e.drone_dispatched, content.event_pools@, "drone_dispatched"@, roll, pick),
        !e.drone_returned ==> drawn.0 is None,
        !e.drone_dispatched ==> drawn.1 is None,
        e.drone_returned && pool_certain(content.event_pools@, "drone_returned"@) ==> drawn.0 is Some,
        pool_silent(content.event_pools@, "drone_returned"@) ==> drawn.0 is None,
        e.drone_dispatched && pool_certain(content.event_pools@, "drone_dispatched"@) ==> drawn.1 is Some,
        pool_silent(content.event_pools@, "drone_dispatched"@) ==> drawn.1 is None,
        content_feed(final(state), final(log)) == content_frame(
            content.one_shots@,
            *e,
            content_feed(old(state), old(log)),
            pool_line(content.event_pools@, drawn.0),
            pool_line(content.event_pools@, drawn.1),
        ),
        final(state).ambient_timer == old(state).ambient_timer,
        final(log).fired@ == old(log).fired@,
        final(log).last_fired_at@ == old(log).last_fired_at@,
{
    if e.opening_complete {
        fire_one_shot("opening_complete", content, state, log);
    }
    let mut returned: Option<(usize, usize)> = None;
    if e.drone_returned {
        returned = fire_event_pool("drone_returned", content, log);
        proof {
            let (r, k) = choose|r: u64, k: u64| r < PPM && pick_fits(content.event_pools@, "drone_returned"@, k)
                && returned == pool_draw(content.event_pools@, "drone_returned"@, r, k);
            assert(returned == event_draw(true, content.event_pools@, "drone_returned"@, r, k));
        }
        fire_one_shot("first_drone_returned", content, state, log);
    } else {
        assert(returned == event_draw(false, content.event_pools@, "drone_returned"@, 0, 0));
    }
    let mut dispatched: Option<(usize, usize)> = None;
    if e.drone_dispatched {
        dispatched = fire_event_pool("drone_dispatched", content, log);
        proof {
            let (r, k) = choose|r: u64, k: u64| r < PPM && pick_fits(content.event_pools@, "drone_dispatched"@, k)
                && dispatched == pool_draw(content.event_pools@, "drone_dispatched"@, r, k);
            assert(dispatched == event_draw(true, content.event_pools@, "drone_dispatched"@, r, k));
        }
    } else {
        assert(dispatched == event_draw(false, content.event_pools@, "drone_dispatched"@, 0, 0));
    }
    if e.bottle_collected {
        insert_text_into(&mut state.observed_triggers, "first_bottle_collected");
        fire_one_shot("first_bottle_collected", content, state, log);
    }
    if e.request_fulfilled {
        insert_text_into(&mut state.observed_triggers, "first_quest_fulfilled");
        fire_one_shot("first_quest_fulfilled", content, state, log);
    }
    if e.available_drones >= FULL_FLEET {
        fire_one_shot("drone_count_5", content, state, log);
    }
    (returned, dispatched)
}


/// Whether the ambient line may be said given the observed triggers.
fn is_ambient_eligible(line: &AmbientLine, observed: &Vec<String>) -> (ok: bool)
    ensures
        ok == ambient_eligible(*line, texts(observed@)),
{
    match &line.eligible_after {
        Some(t) => contains_text(observed, t.as_str()),
        None => true,
    }
}

/// Builds the ambient draw pool: each eligible line's position, repeated by its
/// weight. The pool must fit in memory.
pub fn build_ambient_pool(lines: &Vec<AmbientLine>, observed: &Vec<String>) -> (pool: Vec<usize>)
    requires
        ambient_pool(lines@, texts(observed@)).len() <= usize::MAX,
    ensures
        pool@ == ambient_pool(lines@, texts(observed@)),
{
    let ghost obs = texts(observed@);
    let mut pool: Vec<usize> = Vec::new();
    let mut i: usize = 0;
    assert(lines@.take(0) =~= Seq::<AmbientLine>::empty());
    while i < lines.len()
        invariant
            0 <= i <= lines@.len(),
            obs == texts(observed@),
            pool@ == ambient_pool(lines@.take(i as int), obs),
            ambient_pool(lines@, obs).len() <= usize::MAX,
        decreases lines@.len() - i,
    {
        proof {
            assert(lines@.take(i + 1).drop_last() =~= lines@.take(i as int));
            lemma_pool_prefix_len(lines@, obs, i + 1);
        }
        if is_ambient_eligible(&lines[i], observed) {
            let w = lines[i].weight;
            let ghost base = pool@;
            let mut k: u32 = 0;
            while k < w
                invariant
                    0 <= k <= w,
                    w == lines@[i as int].weight,
                    i < lines@.len(),
                    pool@ == base + Seq::new(k as nat, |m: int| i),
                    base.len() + w <= usize::MAX,
                decreases w - k,
            {
                pool.push(i);
                k += 1;
                assert(pool@ =~= base + Seq::new(k as nat, |m: int| i));
            }
            assert(pool@ =~= ambient_pool(lines@.take(i + 1), obs));
        } else {
            assert(pool@ =~= ambient_pool(lines@.take(i + 1), obs));
        }
        i += 1;
    }
    assert(lines@.take(lines@.len() as int) =~= lines@);
    pool
}

/// The pool of a prefix of the lines is no longer than the pool of all of them.
proof fn lemma_pool_prefix_len(lines: Seq<AmbientLine>, obs: Seq<Seq<char>>, n: int)
    requires
        0 <= n <= lines.len(),
    ensures
        ambient_pool(lines.take(n), obs).len() <= ambient_pool(lines, obs).len(),
    decreases lines.len() - n,
{
    if n < lines.len() {
        lemma_pool_prefix_len(lines, obs, n + 1);
        assert(lines.take(n + 1).drop_last() =~= lines.take(n));
    } else {
        assert(lines.take(n) =~= lines);
    }
}

/// A random wait before the next ambient line, from `AMBIENT_MIN_MS` to
/// `AMBIENT_MAX_MS` inclusive.
fn ambient_delay() -> (d: u64)
    ensures
        AMBIENT_MIN_MS <= d <= AMBIENT_MAX_MS,
{
    AMBIENT_MIN_MS + random_below(AMBIENT_MAX_MS - AMBIENT_MIN_MS + 1)
}

/// The line said and the ambient timer after a frame of `dt` milliseconds,
/// given the timer before, the draw pool, the drawn position `pick` in the pool
/// and a new wait `delay`. Before the opening is complete nothing happens. A
/// timer of 0 (the first frame) is set to the wait; a timer longer than `dt`
/// counts down; otherwise it has run out: the line at `pick` in the pool is said
/// (none when the pool is empty) and the timer is set to the wait.
pub open spec fn ambient_after(dt: u64, phase: OpeningPhase, timer: u64, pool: Seq<usize>, pick: u64, delay: u64)
    -> (Option<usize>, u64)
{
    if phase != OpeningPhase::Complete {
        (None, timer)
    } else if timer == 0 {
        (None, delay)
    } else if timer > dt {
        (None, (timer - dt) as u64)
    } else if pool.len() > 0 {
        (Some(pool[pick as int]), delay)
    } else {
        (None, delay)
    }
}

/// The lines after an ambient line is said, if one is.
pub open spec fn lines_after_ambient(cfg: Seq<AmbientLine>, lines: Seq<Seq<char>>, said: Option<usize>) -> Seq<Seq<char>> {
    match said {
        Some(i) => keep_last(lines.push("ECHO: "@ + cfg[i as int].text@)),
        None => lines,
    }
}

/// One frame of the ambient Echo lines, given the draws: `pick`, a position in
/// the ambient pool (each eligible line repeated by its weight), and `delay`,
/// the next wait (see `ambient_after`).
pub fn content_ambient_step(
    dt: u64,
    phase: OpeningPhase,
    content: &ContentConfig,
    state: &mut ContentState,
    log: &mut SignalLog,
    pick: u64,
    delay: u64,
) -> (said: Option<usize>)
    requires
        ambient_pool(content.ambient@, texts(old(state).observed_triggers@)).len() <= usize::MAX,
        ambient_pool(content.ambient@, texts(old(state).observed_triggers@)).len() == 0
            || pick < ambient_pool(content.ambient@, texts(old(state).observed_triggers@)).len(),
    ensures
        (said, final(state).ambient_timer) == ambient_after(
            dt,
            phase,
            old(state).ambient_timer,
            ambient_pool(content.ambient@, texts(old(state).observed_triggers@)),
            pick,
            delay,
        ),
        final(log).lines() == lines_after_ambient(content.ambient@, old(log).lines(), said),
        final(state).fired_one_shots@ == old(state).fired_one_shots@,
        final(state).observed_triggers@ == old(state).observed_triggers@,
        final(log).fired@ == old(log).fired@,
        final(log).last_fired_at@ == old(log).last_fired_at@,
{
    if phase != OpeningPhase::Complete {
        return None;
    }
    if state.ambient_timer == 0 {
        state.ambient_timer = delay;
        return None;
    }
    if state.ambient_timer > dt {
        state.ambient_timer = state.ambient_timer - dt;
        return None;
    }
    let pool = build_ambient_pool(&content.ambient, &state.observed_triggers);
    let mut said: Option<usize> = None;
    if pool.len() > 0 {
        let idx = pool[pick as usize];
        proof { lemma_pool_indices(content.ambient@, texts(state.observed_triggers@)); }
        push_echo(log, content.ambient[idx].text.as_str());
        said = Some(idx);
    }
    state.ambient_timer = delay;
    said
}

/// Says an ambient Echo line now and then once the opening is complete (see
/// `content_ambient_step`), drawing the position in the weighted pool and the
/// next wait, from `AMBIENT_MIN_MS` to `AMBIENT_MAX_MS`, at random. Returns the
/// position of the line said, if any.
pub fn content_ambient_system(dt: u64, phase: OpeningPhase, content: &ContentConfig, state: &mut ContentState, log: &mut SignalLog)
    -> (said: Option<usize>)
    requires
        ambient_pool(content.ambient@, texts(old(state).observed_triggers@)).len() <= usize::MAX,
    ensures
        exists|pick: u64, delay: u64| {
            &&& AMBIENT_MIN_MS <= delay <= AMBIENT_MAX_MS
            &&& (ambient_pool(content.ambient@, texts(old(state).observed_triggers@)).len() == 0
                || pick < ambient_pool(content.ambient@, texts(old(state).observed_triggers@)).len())
            &&& (said, final(state).ambient_timer) == #[trigger] ambient_after(
                dt,
                phase,
                old(state).ambient_timer,
                ambient_pool(content.ambient@, texts(old(state).observed_triggers@)),
                pick,
                delay,
            )
        },
        final(log).lines() == lines_after_ambient(content.ambient@, old(log).lines(), said),
        final(state).fired_one_shots@ == old(state).fired_one_shots@,
        final(state).observed_triggers@ == old(state).observed_triggers@,
        final(log).fired@ == old(log).fired@,
        final(log).last_fired_at@ == old(log).last_fired_at@,
{
    let delay = ambient_delay();
    let mut pick: u64 = 0;
    if phase == OpeningPhase::Complete && state.ambient_timer != 0 && state.ambient_timer <= dt {
        let n = build_ambient_pool(&content.ambient, &state.observed_triggers).len();
        if n > 0 {
            pick = random_below(n as u64);
        }
    }
    let ghost timer0 = state.ambient_timer;
    let ghost pool = ambient_pool(content.ambient@, texts(state.observed_triggers@));
    let said = content_ambient_step(dt, phase, content, state, log, pick, delay);
    assert((said, state.ambient_timer) == ambient_after(dt, phase, timer0, pool, pick, delay));
    said
}

/// Every entry of the ambient pool is the position of an ambient line.
proof fn lemma_pool_indices(lines: Seq<AmbientLine>, obs: Seq<Seq<char>>)
    ensures
        forall|k: int| 0 <= k < ambient_pool(lines, obs).len() ==> #[trigger] ambient_pool(lines, obs)[k] < lines.len(),
    decreases lines.len(),
{
    if lines.len() > 0 {
        lemma_pool_indices(lines.drop_last(), obs);
        let rest = ambient_pool(lines.drop_last(), obs);
        if ambient_eligible(lines.last(), obs) {
            let p = ambient_pool(lines, obs);
            assert forall|k: int| 0 <= k < p.len() implies #[trigger] p[k] < lines.len() by {
                if k < rest.len() {
                    assert(p[k] == rest[k]);
                }
            }
        }
    }
}

/// A one-shot step fires `trigger` when it has a line, and fires nothing else.
proof fn lemma_one_shot_fired(cfg: Seq<OneShotLine>, s: ContentFeed, trigger: Seq<char>, x: Seq<char>)
    ensures
        one_shot_step(cfg, s, trigger).fired.contains(x) <==> (s.fired.contains(x)
            || (x == trigger && first_index_of(one_shot_triggers(cfg), trigger) is Some)),
        one_shot_step(cfg, s, trigger).observed == s.observed,
{
    let out = one_shot_step(cfg, s, trigger);
    if !s.fired.contains(trigger) && first_index_of(one_shot_triggers(cfg), trigger) is Some {
        assert(out.fired == s.fired.push(trigger));
        assert(out.fired[s.fired.len() as int] == trigger);
        if out.fired.contains(x) {
            let k = choose|k: int| 0 <= k < out.fired.len() && out.fired[k] == x;
            if k < s.fired.len() {
                assert(s.fired[k] == x);
            }
        }
        if s.fired.contains(x) {
            let k = choose|k: int| 0 <= k < s.fired.len() && s.fired[k] == x;
            assert(out.fired[k] == x);
        }
    }
}

/// The last line pushed stays on the strip after one more push.
proof fn lemma_keep_last_keeps_recent(lines: Seq<Seq<char>>, x: Seq<char>)
    requires
        lines.len() > 0,
        lines.len() <= SIGNAL_LOG_MAX,
    ensures
        keep_last(lines.push(x)).contains(lines.last()),
        keep_last(lines.push(x)).len() <= SIGNAL_LOG_MAX,
{
    let p = lines.push(x);
    let k = keep_last(p);
    if p.len() > SIGNAL_LOG_MAX {
        assert(k[k.len() - 2] == p[p.len() - 2]);
    } else {
        assert(k[k.len() - 2] == lines.last());
    }
}

/// Law: each content event speaks its one-shot line. After a frame, the
/// one-shot trigger of each event that happened is fired when the content has
/// a line for it ("opening_complete", "first_drone_returned",
/// "first_bottle_collected", "first_quest_fulfilled", and "drone_count_5" with
/// five drones or more ready); a collected bottle and a fulfilled request are
/// recorded as observed; a trigger becomes fired only when its event happened;
/// fired triggers stay fired. A fulfilled request whose line had not been said
/// puts "ECHO: " and that line on the strip.
pub proof fn law_content_events_fire_their_lines(
    cfg: Seq<OneShotLine>,
    e: ContentEvents,
    s0: ContentFeed,
    returned_line: Option<Seq<char>>,
    dispatched_line: Option<Seq<char>>,
    x: Seq<char>,
)
    ensures
        ({
            let out = content_frame(cfg, e, s0, returned_line, dispatched_line);
            let has = |t: Seq<char>| first_index_of(one_shot_triggers(cfg), t) is Some;
            &&& s0.fired.contains(x) ==> out.fired.contains(x)
            &&& e.opening_complete && has("opening_complete"@) ==> out.fired.contains("opening_complete"@)
            &&& e.drone_returned && has("first_drone_returned"@) ==> out.fired.contains("first_drone_returned"@)
            &&& e.bottle_collected ==> out.observed.contains("first_bottle_collected"@)
            &&& e.bottle_collected && has("first_bottle_collected"@) ==> out.fired.contains("first_bottle_collected"@)
            &&& e.request_fulfilled ==> out.observed.contains("first_quest_fulfilled"@)
            &&& e.request_fulfilled && has("first_quest_fulfilled"@) ==> out.fired.contains("first_quest_fulfilled"@)
            &&& e.available_drones >= 5 && has("drone_count_5"@) ==> out.fired.contains("drone_count_5"@)
            &&& out.fired.contains(x) && !s0.fired.contains(x) ==> (
                (x == "opening_complete"@ && e.opening_complete)
                || (x == "first_drone_returned"@ && e.drone_returned)
                || (x == "first_bottle_collected"@ && e.bottle_collected)
                || (x == "first_quest_fulfilled"@ && e.request_fulfilled)
                || (x == "drone_count_5"@ && e.available_drones >= 5))
            &&& e.request_fulfilled && !s0.fired.contains("first_quest_fulfilled"@) ==> (
                match first_index_of(one_shot_triggers(cfg), "first_quest_fulfilled"@) {
                    Some(i) => out.lines.contains("ECHO: "@ + cfg[i].text@),
                    None => true,
                })
        }),
{
    reveal_strlit("opening_complete");
    reveal_strlit("first_drone_returned");
    reveal_strlit("first_bottle_collected");
    reveal_strlit("first_quest_fulfilled");
    reveal_strlit("drone_count_5");
    assert("opening_complete"@.len() == 16);
    assert("first_drone_returned"@.len() == 20);
    assert("first_bottle_collected"@.len() == 22);
    assert("first_quest_fulfilled"@.len() == 21);
    assert("drone_count_5"@.len() == 13);
    let fq = "first_quest_fulfilled"@;
    let s1 = if e.opening_complete { one_shot_step(cfg, s0, "opening_complete"@) } else { s0 };
    let r = echo_step(s1, returned_line);
    let s2 = if e.drone_returned { one_shot_step(cfg, r, "first_drone_returned"@) } else { s1 };
    let s3 = if e.drone_dispatched { echo_step(s2, dispatched_line) } else { s2 };
    let o4 = observe_step(s3, "first_bottle_collected"@);
    let s4 = if e.bottle_collected { one_shot_step(cfg, o4, "first_bottle_collected"@) } else { s3 };
    let o5 = observe_step(s4, fq);
    let s5 = if e.request_fulfilled { one_shot_step(cfg, o5, fq) } else { s4 };
    let s6 = if e.available_drones >= FULL_FLEET { one_shot_step(cfg, s5, "drone_count_5"@) } else { s5 };
    assert(content_frame(cfg, e, s0, returned_line, dispatched_line) == s6);
    lemma_one_shot_fired(cfg, s0, "opening_complete"@, x);
    lemma_one_shot_fired(cfg, r, "first_drone_returned"@, x);
    lemma_one_shot_fired(cfg, o4, "first_bottle_collected"@, x);
    lemma_one_shot_fired(cfg, o5, fq, x);
    lemma_one_shot_fired(cfg, s5, "drone_count_5"@, x);
    lemma_one_shot_fired(cfg, s0, "opening_complete"@, "opening_complete"@);
    lemma_one_shot_fired(cfg, r, "first_drone_returned"@, "opening_complete"@);
    lemma_one_shot_fired(cfg, o4, "first_bottle_collected"@, "opening_complete"@);
    lemma_one_shot_fired(cfg, o5, fq, "opening_complete"@);
    lemma_one_shot_fired(cfg, s5, "drone_count_5"@, "opening_complete"@);
    lemma_one_shot_fired(cfg, r, "first_drone_returned"@, "first_drone_returned"@);
    lemma_one_shot_fired(cfg, o4, "first_bottle_collected"@, "first_drone_returned"@);
    lemma_one_shot_fired(cfg, o5, fq, "first_drone_returned"@);
    lemma_one_shot_fired(cfg, s5, "drone_count_5"@, "first_drone_returned"@);
    lemma_one_shot_fired(cfg, o4, "first_bottle_collected"@, "first_bottle_collected"@);
    lemma_one_shot_fired(cfg, o5, fq, "first_bottle_collected"@);
    lemma_one_shot_fired(cfg, s5, "drone_count_5"@, "first_bottle_collected"@);
    lemma_one_shot_fired(cfg, s0, "opening_complete"@, fq);
    lemma_one_shot_fired(cfg, r, "first_drone_returned"@, fq);
    lemma_one_shot_fired(cfg, o4, "first_bottle_collected"@, fq);
    lemma_one_shot_fired(cfg, o5, fq, fq);
    lemma_one_shot_fired(cfg, s5, "drone_count_5"@, fq);
    lemma_one_shot_fired(cfg, s5, "drone_count_5"@, "drone_count_5"@);
    assert(insert_text(s3.observed, "first_bottle_collected"@).contains("first_bottle_collected"@)) by {
        if !s3.observed.contains("first_bottle_collected"@) {
            assert(s3.observed.push("first_bottle_collected"@)[s3.observed.len() as int] == "first_bottle_collected"@);
        }
    }
    assert(insert_text(s4.observed, fq).contains(fq)) by {
        if !s4.observed.contains(fq) {
            assert(s4.observed.push(fq)[s4.observed.len() as int] == fq);
        }
    }
    assert(e.bottle_collected ==> s4.observed.contains("first_bottle_collected"@));
    assert(forall|t: Seq<char>| s4.observed.contains(t) ==> insert_text(s4.observed, fq).contains(t)) by {
        assert forall|t: Seq<char>| s4.observed.contains(t) implies insert_text(s4.observed, fq).contains(t) by {
            if !s4.observed.contains(fq) {
                let k = choose|k: int| 0 <= k < s4.observed.len() && s4.observed[k] == t;
                assert(s4.observed.push(fq)[k] == t);
            }
        }
    }
    if e.request_fulfilled && !s0.fired.contains(fq) {
        match first_index_of(one_shot_triggers(cfg), fq) {
            Some(i) => {
                let line = "ECHO: "@ + cfg[i].text@;
                assert(!s4.fired.contains(fq));
                assert(s5.lines == keep_last(s4.lines.push(line)));
                assert(s5.lines.last() == line) by {
                    let p = s4.lines.push(line);
                    if p.len() > SIGNAL_LOG_MAX {
                        assert(keep_last(p)[keep_last(p).len() - 1] == p[p.len() - 1]);
                    }
                }
                assert(s5.lines.contains(line)) by {
                    assert(s5.lines[s5.lines.len() - 1] == line);
                }
                if e.available_drones >= FULL_FLEET && !s5.fired.contains("drone_count_5"@) {
                    match first_index_of(one_shot_triggers(cfg), "drone_count_5"@) {
                        Some(j) => {
                            lemma_keep_last_keeps_recent(s5.lines, "ECHO: "@ + cfg[j].text@);
                        },
                        None => {},
                    }
                }
            },
            None => {},
        }
    }
}

/// Law: a one-shot line fires at most once: firing its trigger again changes
/// nothing, and once fired its trigger stays recorded.
pub proof fn law_one_shot_fires_once(cfg: Seq<OneShotLine>, s: ContentFeed, trigger: Seq<char>)
    ensures
        one_shot_step(cfg, one_shot_step(cfg, s, trigger), trigger) == one_shot_step(cfg, s, trigger),
        s.fired.contains(trigger) ==> one_shot_step(cfg, s, trigger) == s,
        first_index_of(one_shot_triggers(cfg), trigger) is Some ==> one_shot_step(cfg, s, trigger).fired.contains(trigger),
{
    let once = one_shot_step(cfg, s, trigger);
    if !s.fired.contains(trigger) {
        if first_index_of(one_shot_triggers(cfg), trigger) is Some {
            assert(once.fired[once.fired.len() - 1] == trigger);
            assert(once.fired.contains(trigger));
        }
    }
}

} // verus!
