use std::collections::VecDeque;
use vstd::prelude::*;
use vstd::string::*;

verus! {

/// Most messages the debug buffer keeps; older ones are dropped first.
pub const DEBUG_LOG_MAX: usize = 1000;

/// Buffer of debug messages, oldest first.
pub struct DebugLog {
    pub entries: VecDeque<String>,
}

/// Settings of the debug log system.
pub struct DebugLogSystem {
    pub max_entries: usize,
}

impl Default for DebugLogSystem {
    fn default() -> (s: DebugLogSystem)
        ensures
            s.max_entries == DEBUG_LOG_MAX,
    {
        DebugLogSystem { max_entries: DEBUG_LOG_MAX }
    }
}

/// The last `n` items of `s` (all of them when there are fewer).
pub open spec fn last_n<T>(s: Seq<T>, n: nat) -> Seq<T> {
    if s.len() > n {
        s.skip(s.len() - n)
    } else {
        s
    }
}

impl DebugLog {
    pub open spec fn messages(&self) -> Seq<Seq<char>> {
        self.entries@.map_values(|s: String| s@)
    }

    pub fn new() -> (log: DebugLog)
        ensures
            log.messages() == Seq::<Seq<char>>::empty(),
    {
        let log = DebugLog { entries: VecDeque::new() };
        assert(log.messages() =~= Seq::<Seq<char>>::empty());
        log
    }
}

/// Appends a message, keeping only the most recent `DEBUG_LOG_MAX`.
pub fn log_debug_info(log: &mut DebugLog, message: String)
    ensures
        final(log).messages() == last_n(old(log).messages().push(message@), DEBUG_LOG_MAX as nat),
{
    let ghost full = old(log).messages().push(message@);
    log.entries.push_back(message);
    assert(log.messages() =~= full);
    while log.entries.len() > DEBUG_LOG_MAX
        invariant
            full.len() >= log.messages().len(),
            log.messages() =~= full.skip(full.len() - log.messages().len()),
            log.messages().len() >= DEBUG_LOG_MAX || log.messages() =~= full,
        decreases log.entries.len(),
    {
        let ghost before = log.messages();
        let _ = log.entries.pop_front();
        assert(log.messages() =~= before.drop_first());
        assert(log.messages() =~= full.skip(full.len() - log.messages().len()));
    }
}

/// Starts the debug log system: records that logging is initialised and returns
/// its default settings.
pub fn setup_debug_log_system(log: &mut DebugLog) -> (system: DebugLogSystem)
    ensures
        system.max_entries == DEBUG_LOG_MAX,
        final(log).messages() == last_n(old(log).messages().push("Debug logging system initialized"@), DEBUG_LOG_MAX as nat),
{
    log_debug_info(log, String::from_str("Debug logging system initialized"));
    DebugLogSystem::default()
}

/// A buffer never holds more than `DEBUG_LOG_MAX` messages after a message is logged.
pub proof fn law_debug_log_bounded(messages: Seq<Seq<char>>, message: Seq<char>)
    ensures
        last_n(messages.push(message), DEBUG_LOG_MAX as nat).len() <= DEBUG_LOG_MAX,
        last_n(messages.push(message), DEBUG_LOG_MAX as nat).last() == message,
{
}

/// The buffer after logging each of `msgs` in turn, starting from `start`.
pub open spec fn log_after_all(start: Seq<Seq<char>>, msgs: Seq<Seq<char>>) -> Seq<Seq<char>>
    decreases msgs.len(),
{
    if msgs.len() == 0 {
        start
    } else {
        last_n(log_after_all(start, msgs.drop_last()).push(msgs.last()), DEBUG_LOG_MAX as nat)
    }
}

proof fn lemma_last_n_push(p: Seq<Seq<char>>, m: Seq<char>, n: nat)
    requires
        n >= 1,
    ensures
        last_n(last_n(p, n).push(m), n) == last_n(p.push(m), n),
{
    let lhs = last_n(last_n(p, n).push(m), n);
    let rhs = last_n(p.push(m), n);
    assert(lhs.len() == rhs.len());
    assert forall|i: int| 0 <= i < lhs.len() implies lhs[i] == rhs[i] by {
        if i == lhs.len() - 1 {
        } else if p.len() > n {
        }
    }
    assert(lhs =~= rhs);
}

/// Law: over any run of messages logged into a buffer within its bound (an
/// empty one, say), the buffer is always the last `DEBUG_LOG_MAX` of what it held
/// and the messages, in order, and never holds more than `DEBUG_LOG_MAX`.
pub proof fn law_debug_log_keeps_latest(start: Seq<Seq<char>>, msgs: Seq<Seq<char>>)
    requires
        start.len() <= DEBUG_LOG_MAX,
    ensures
        log_after_all(start, msgs) == last_n(start + msgs, DEBUG_LOG_MAX as nat),
        log_after_all(start, msgs).len() <= DEBUG_LOG_MAX,
    decreases msgs.len(),
{
    if msgs.len() == 0 {
        assert(start + msgs =~= start);
    } else {
        law_debug_log_keeps_latest(start, msgs.drop_last());
        lemma_last_n_push(start + msgs.drop_last(), msgs.last(), DEBUG_LOG_MAX as nat);
        assert((start + msgs.drop_last()).push(msgs.last()) =~= start + msgs);
    }
}

} // verus!
