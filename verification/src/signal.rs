use std::collections::{HashMap, HashSet, VecDeque};
use vstd::prelude::*;
use vstd::std_specs::hash::*;
use vstd::string::*;

verus! {

broadcast use vstd::std_specs::hash::group_hash_axioms;

/// Most lines the signal strip keeps once a bounded push trims it.
pub const SIGNAL_LOG_MAX: usize = 10;

/// Play time, in milliseconds, that must pass before a refirable signal may fire again.
pub const REFIRE_COOLDOWN_MS: u64 = 2000;

/// The signal feed: the lines shown on the strip (oldest first), the ids of
/// the signals that have fired, and when each refirable or timed signal last fired
/// (milliseconds of play time).
pub struct SignalLog {
    pub entries: VecDeque<String>,
    pub fired: HashSet<u32>,
    pub last_fired_at: HashMap<u32, u64>,
}

/// The text of each line of a sequence of strings.
pub open spec fn lines_of(entries: Seq<String>) -> Seq<Seq<char>> {
    entries.map_values(|s: String| s@)
}

/// Appends a line and drops the oldest one when the strip then holds more than
/// `SIGNAL_LOG_MAX` lines.
pub open spec fn bounded_push(lines: Seq<Seq<char>>, line: Seq<char>) -> Seq<Seq<char>> {
    let p = lines.push(line);
    if p.len() > SIGNAL_LOG_MAX {
        p.drop_first()
    } else {
        p
    }
}

/// The last `SIGNAL_LOG_MAX` lines (all of them when there are fewer).
pub open spec fn keep_last(lines: Seq<Seq<char>>) -> Seq<Seq<char>> {
    if lines.len() > SIGNAL_LOG_MAX {
        lines.skip(lines.len() - SIGNAL_LOG_MAX)
    } else {
        lines
    }
}

/// Whether a refirable signal's cooldown has passed at `now`: it never fired,
/// or more than `REFIRE_COOLDOWN_MS` have passed since it last did.
pub open spec fn cooled_down(last: Map<u32, u64>, id: u32, now: u64) -> bool {
    !last.contains_key(id) || (now >= last[id] && now - last[id] > REFIRE_COOLDOWN_MS)
}

impl SignalLog {
    pub open spec fn lines(&self) -> Seq<Seq<char>> {
        lines_of(self.entries@)
    }

    pub open spec fn has_fired(&self, id: u32) -> bool {
        self.fired@.contains(id)
    }

    /// An empty feed.
    pub fn new() -> (log: SignalLog)
        ensures
            log.lines() == Seq::<Seq<char>>::empty(),
            log.fired@ == Set::<u32>::empty(),
            log.last_fired_at@ == Map::<u32, u64>::empty(),
    {
        let log = SignalLog { entries: VecDeque::new(), fired: HashSet::new(), last_fired_at: HashMap::new() };
        assert(log.lines() =~= Seq::<Seq<char>>::empty());
        log
    }
}

/// Appends `line` to the strip, then drops the oldest line if it holds more than
/// `SIGNAL_LOG_MAX`.
pub fn push_bounded(log: &mut SignalLog, line: String)
    ensures
        final(log).lines() == bounded_push(old(log).lines(), line@),
        final(log).fired@ == old(log).fired@,
        final(log).last_fired_at@ == old(log).last_fired_at@,
{
    let ghost before = log.lines();
    log.entries.push_back(line);
    assert(log.lines() =~= before.push(line@));
    if log.entries.len() > SIGNAL_LOG_MAX {
        let _ = log.entries.pop_front();
        assert(log.lines() =~= before.push(line@).drop_first());
    }
}

/// Fires signal `id` once: the first time, its line is pushed (bounded) and the
/// id is recorded; later calls change nothing. Returns whether it fired now.
pub fn emit(log: &mut SignalLog, id: u32, line: &str) -> (fired_now: bool)
    ensures
        fired_now == !old(log).has_fired(id),
        final(log).fired@ == old(log).fired@.insert(id),
        final(log).last_fired_at@ == old(log).last_fired_at@,
        fired_now ==> final(log).lines() == bounded_push(old(log).lines(), line@),
        !fired_now ==> final(log).lines() == old(log).lines(),
{
    if !log.fired.contains(&id) {
        push_bounded(log, line.to_owned());
        log.fired.insert(id);
        true
    } else {
        assert(old(log).fired@.insert(id) =~= old(log).fired@);
        false
    }
}

/// Fires a refirable signal: when `condition` holds, the signal is not currently
/// fired and its cooldown has passed, it fires and its time is recorded; otherwise,
/// when `reset_condition` holds, it is cleared so that it may fire again.
/// Returns whether it fired now.
pub fn emit_refirable(
    log: &mut SignalLog,
    id: u32,
    line: &str,
    now: u64,
    condition: bool,
    reset_condition: bool,
) -> (fired_now: bool)
    ensures
        fired_now == (condition && !old(log).has_fired(id) && cooled_down(old(log).last_fired_at@, id, now)),
        fired_now ==> {
            &&& final(log).fired@ == old(log).fired@.insert(id)
            &&& final(log).lines() == bounded_push(old(log).lines(), line@)
            &&& final(log).last_fired_at@ == old(log).last_fired_at@.insert(id, now)
        },
        !fired_now ==> {
            &&& final(log).fired@ == (if reset_condition { old(log).fired@.remove(id) } else { old(log).fired@ })
            &&& final(log).lines() == old(log).lines()
            &&& final(log).last_fired_at@ == old(log).last_fired_at@
        },
{
    let ready = match log.last_fired_at.get(&id) {
        Some(t) => now >= *t && now - *t > REFIRE_COOLDOWN_MS,
        None => true,
    };
    if condition && !log.fired.contains(&id) && ready {
        let fired_now = emit(log, id, line);
        if fired_now {
            log.last_fired_at.insert(id, now);
        }
        fired_now
    } else {
        if reset_condition {
            log.fired.remove(&id);
        }
        false
    }
}

/// Records a line of the opening sequence once per id; these lines are not
/// trimmed.
pub fn fire_signal(log: &mut SignalLog, id: u32, line: &str)
    ensures
        final(log).fired@ == old(log).fired@.insert(id),
        final(log).last_fired_at@ == old(log).last_fired_at@,
        final(log).lines() == (if old(log).has_fired(id) { old(log).lines() } else { old(log).lines().push(line@) }),
{
    if !log.fired.contains(&id) {
        log.fired.insert(id);
        let ghost before = log.lines();
        log.entries.push_back(line.to_owned());
        assert(log.lines() =~= before.push(line@));
    } else {
        assert(old(log).fired@.insert(id) =~= old(log).fired@);
    }
}

/// Pushes an Echo line ("ECHO: " and the text) and trims the strip to its last
/// `SIGNAL_LOG_MAX` lines.
pub fn push_echo(log: &mut SignalLog, text: &str)
    ensures
        final(log).lines() == keep_last(old(log).lines().push("ECHO: "@ + text@)),
        final(log).fired@ == old(log).fired@,
        final(log).last_fired_at@ == old(log).last_fired_at@,
{
    let mut line = String::from_str("ECHO: ");
    line.append(text);
    let ghost full = old(log).lines().push(line@);
    log.entries.push_back(line);
    assert(log.lines() =~= full);
    while log.entries.len() > SIGNAL_LOG_MAX
        invariant
            full.len() >= log.lines().len(),
            log.lines() =~= full.skip(full.len() - log.lines().len()),
            log.lines().len() >= SIGNAL_LOG_MAX || log.lines() =~= full,
            log.fired@ == old(log).fired@,
            log.last_fired_at@ == old(log).last_fired_at@,
        decreases log.entries.len(),
    {
        let ghost before = log.lines();
        let _ = log.entries.pop_front();
        assert(log.lines() =~= before.drop_first());
        assert(log.lines() =~= full.skip(full.len() - log.lines().len()));
    }
}

/// Puts a warning at the front of the strip; when the strip then holds more than
/// `SIGNAL_LOG_MAX` lines, the front line (this warning) is dropped again.
pub fn push_front_bounded(log: &mut SignalLog, line: String)
    ensures
        final(log).lines() == (if old(log).lines().len() + 1 > SIGNAL_LOG_MAX { old(log).lines() } else { seq![line@] + old(log).lines() }),
        final(log).fired@ == old(log).fired@,
        final(log).last_fired_at@ == old(log).last_fired_at@,
{
    let ghost before = log.lines();
    log.entries.push_front(line);
    assert(log.lines() =~= seq![line@] + before);
    if log.entries.len() > SIGNAL_LOG_MAX {
        let _ = log.entries.pop_front();
        assert(log.lines() =~= before);
    }
}

} // verus!
