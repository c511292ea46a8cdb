use vstd::prelude::*;
use crate::text::{texts, insert_text, text_eq, contains_text};

verus! {

/// A station log entry that the player unlocks by reaching a milestone.
pub struct LogEntry {
    pub id: String,
    pub unlock_trigger: String,
    pub title: String,
    pub body: String,
}

/// All station log entries.
pub struct LogsConfig {
    pub logs: Vec<LogEntry>,
}

/// What the unlock triggers look at.
#[derive(Clone, Copy)]
pub struct LogFacts {
    /// Drones built so far (as saved).
    pub drone_count: u8,
    /// Whether the station holds any ingot of any metal.
    pub any_ingots: bool,
    /// Whether the production tree has ever been opened.
    pub production_tree_opened: bool,
    /// Whether the station holds any hull plate, thruster, AI core or canister.
    pub any_components: bool,
    /// Whether the station holds any aluminum canister.
    pub any_canisters: bool,
}

/// Whether the unlock trigger named `t` is met. Unknown triggers, and the outer
/// ring trigger that the game does not reach yet, are never met.
pub open spec fn trigger_met(t: Seq<char>, f: LogFacts) -> bool {
    if t == "game_start"@ { true }
    else if t == "first_drone_built"@ { f.drone_count >= 1 }
    else if t == "drone_count_3"@ { f.drone_count >= 3 }
    else if t == "drone_count_5"@ { f.drone_count >= 5 }
    else if t == "drone_count_10"@ { f.drone_count >= 10 }
    else if t == "first_ingot_produced"@ { f.any_ingots }
    else if t == "pipeline_opened"@ { f.production_tree_opened }
    else if t == "first_component_built"@ { f.any_components }
    else if t == "outer_ring_unlocked"@ { false }
    else if t == "canister_built"@ { f.any_canisters }
    else { false }
}

/// Unlocked log ids after checking the entries in order: an entry not yet
/// unlocked whose trigger is met is added.
pub open spec fn unlock_logs(logs: Seq<LogEntry>, unlocked: Seq<Seq<char>>, f: LogFacts) -> Seq<Seq<char>>
    decreases logs.len(),
{
    if logs.len() == 0 {
        unlocked
    } else {
        let before = unlock_logs(logs.drop_last(), unlocked, f);
        if trigger_met(logs.last().unlock_trigger@, f) {
            insert_text(before, logs.last().id@)
        } else {
            before
        }
    }
}

pub fn log_trigger_met(t: &String, f: &LogFacts) -> (met: bool)
    ensures
        met == trigger_met(t@, *f),
{
    if text_eq(t, "game_start") { true }
    else if text_eq(t, "first_drone_built") { f.drone_count >= 1 }
    else if text_eq(t, "drone_count_3") { f.drone_count >= 3 }
    else if text_eq(t, "drone_count_5") { f.drone_count >= 5 }
    else if text_eq(t, "drone_count_10") { f.drone_count >= 10 }
    else if text_eq(t, "first_ingot_produced") { f.any_ingots }
    else if text_eq(t, "pipeline_opened") { f.production_tree_opened }
    else if text_eq(t, "first_component_built") { f.any_components }
    else if text_eq(t, "outer_ring_unlocked") { false }
    else if text_eq(t, "canister_built") { f.any_canisters }
    else { false }
}

/// Unlocks every log entry whose trigger is met, appending its id to `unlocked`.
/// Without a station (`facts` is `None`) nothing changes.
pub fn check_log_unlocks(config: &LogsConfig, unlocked: &mut Vec<String>, facts: Option<LogFacts>)
    ensures
        texts(final(unlocked)@) == match facts {
            Some(f) => unlock_logs(config.logs@, texts(old(unlocked)@), f),
            None => texts(old(unlocked)@),
        },
{
    let f = match facts {
        Some(f) => f,
        None => return,
    };
    let ghost start = texts(unlocked@);
    let mut i: usize = 0;
    assert(config.logs@.take(0) =~= Seq::<LogEntry>::empty());
    while i < config.logs.len()
        invariant
            0 <= i <= config.logs@.len(),
            texts(unlocked@) == unlock_logs(config.logs@.take(i as int), start, f),
        decreases config.logs@.len() - i,
    {
        proof { assert(config.logs@.take(i + 1).drop_last() =~= config.logs@.take(i as int)); }
        let entry = &config.logs[i];
        if !contains_text(unlocked, entry.id.as_str()) {
            if log_trigger_met(&entry.unlock_trigger, &f) {
                let ghost before = texts(unlocked@);
                unlocked.push(entry.id.clone());
                assert(texts(unlocked@) =~= before.push(entry.id@));
            }
        }
        i += 1;
    }
    assert(config.logs@.take(config.logs@.len() as int) =~= config.logs@);
}

/// Law: each named unlock trigger reads its own milestone: "game_start" is
/// always met; "first_drone_built", "drone_count_3", "drone_count_5" and
/// "drone_count_10" need 1, 3, 5 and 10 drones built; "first_ingot_produced" an
/// ingot held; "pipeline_opened" the production tree opened once;
/// "first_component_built" a component held; "canister_built" a canister held;
/// "outer_ring_unlocked" is never met.
pub proof fn law_each_trigger_reads_its_milestone(f: LogFacts)
    ensures
        trigger_met("game_start"@, f),
        trigger_met("first_drone_built"@, f) == (f.drone_count >= 1),
        trigger_met("drone_count_3"@, f) == (f.drone_count >= 3),
        trigger_met("drone_count_5"@, f) == (f.drone_count >= 5),
        trigger_met("drone_count_10"@, f) == (f.drone_count >= 10),
        trigger_met("first_ingot_produced"@, f) == f.any_ingots,
        trigger_met("pipeline_opened"@, f) == f.production_tree_opened,
        trigger_met("first_component_built"@, f) == f.any_components,
        trigger_met("canister_built"@, f) == f.any_canisters,
        !trigger_met("outer_ring_unlocked"@, f),
{
    reveal_strlit("game_start");
    reveal_strlit("first_drone_built");
    reveal_strlit("drone_count_3");
    reveal_strlit("drone_count_5");
    reveal_strlit("drone_count_10");
    reveal_strlit("first_ingot_produced");
    reveal_strlit("pipeline_opened");
    reveal_strlit("first_component_built");
    reveal_strlit("outer_ring_unlocked");
    reveal_strlit("canister_built");
    assert("game_start"@.len() == 10);
    assert("first_drone_built"@.len() == 17);
    assert("drone_count_3"@.len() == 13);
    assert("drone_count_5"@.len() == 13);
    assert("drone_count_10"@.len() == 14);
    assert("first_ingot_produced"@.len() == 20);
    assert("pipeline_opened"@.len() == 15);
    assert("first_component_built"@.len() == 21);
    assert("outer_ring_unlocked"@.len() == 19);
    assert("canister_built"@.len() == 14);
    assert("drone_count_5"@[12] != "drone_count_3"@[12]);
    assert("canister_built"@[0] != "drone_count_10"@[0]);
}

/// Unlocking only adds: the ids unlocked before stay, in order, at the front.
pub proof fn law_unlocks_only_grow(logs: Seq<LogEntry>, unlocked: Seq<Seq<char>>, f: LogFacts)
    ensures
        unlock_logs(logs, unlocked, f).len() >= unlocked.len(),
        unlock_logs(logs, unlocked, f).subrange(0, unlocked.len() as int) == unlocked,
    decreases logs.len(),
{
    if logs.len() > 0 {
        law_unlocks_only_grow(logs.drop_last(), unlocked, f);
        let before = unlock_logs(logs.drop_last(), unlocked, f);
        let after = unlock_logs(logs, unlocked, f);
        assert(after.subrange(0, unlocked.len() as int) =~= before.subrange(0, unlocked.len() as int));
    }
}

/// An id is never unlocked twice: a list without repeats stays without repeats.
pub proof fn law_unlocked_ids_distinct(logs: Seq<LogEntry>, unlocked: Seq<Seq<char>>, f: LogFacts)
    requires
        unlocked.no_duplicates(),
    ensures
        unlock_logs(logs, unlocked, f).no_duplicates(),
    decreases logs.len(),
{
    if logs.len() > 0 {
        law_unlocked_ids_distinct(logs.drop_last(), unlocked, f);
        let before = unlock_logs(logs.drop_last(), unlocked, f);
        let id = logs.last().id@;
        if !before.contains(id) {
            let after = before.push(id);
            assert forall|i: int, j: int| 0 <= i < after.len() && 0 <= j < after.len() && i != j implies after[i] != after[j] by {
                if i == before.len() {
                    assert(before[j] == after[j]);
                } else if j == before.len() {
                    assert(before[i] == after[i]);
                }
            }
        }
    }
}

/// Checking again with the same facts unlocks nothing new.
pub proof fn law_unlock_check_idempotent(logs: Seq<LogEntry>, unlocked: Seq<Seq<char>>, f: LogFacts)
    ensures
        unlock_logs(logs, unlock_logs(logs, unlocked, f), f) == unlock_logs(logs, unlocked, f),
{
    lemma_unlocked_after_check(logs, unlocked, f);
    law_unlocks_only_grow(logs, unlocked, f);
    lemma_check_no_new(logs, unlock_logs(logs, unlocked, f), f);
}

/// After a check, every entry whose trigger is met has its id unlocked.
proof fn lemma_unlocked_after_check(logs: Seq<LogEntry>, unlocked: Seq<Seq<char>>, f: LogFacts)
    ensures
        forall|k: int| 0 <= k < logs.len() && trigger_met(logs[k].unlock_trigger@, f)
            ==> #[trigger] unlock_logs(logs, unlocked, f).contains(logs[k].id@),
    decreases logs.len(),
{
    if logs.len() > 0 {
        let d = logs.drop_last();
        lemma_unlocked_after_check(d, unlocked, f);
        law_unlocks_only_grow(logs, unlocked, f);
        let before = unlock_logs(d, unlocked, f);
        let after = unlock_logs(logs, unlocked, f);
        assert forall|x: Seq<char>| before.contains(x) implies after.contains(x) by {
            let i = choose|i: int| 0 <= i < before.len() && before[i] == x;
            if trigger_met(logs.last().unlock_trigger@, f) && !before.contains(logs.last().id@) {
                assert(after[i] == x);
            }
        }
        assert forall|k: int| 0 <= k < logs.len() && trigger_met(logs[k].unlock_trigger@, f)
            implies #[trigger] after.contains(logs[k].id@) by {
            if k < d.len() {
                assert(d[k] == logs[k]);
                assert(before.contains(d[k].id@));
            } else {
                if !before.contains(logs.last().id@) {
                    assert(after[before.len() as int] == logs.last().id@);
                }
            }
        }
    }
}

/// A check adds nothing when every met entry is already unlocked.
proof fn lemma_check_no_new(logs: Seq<LogEntry>, unlocked: Seq<Seq<char>>, f: LogFacts)
    requires
        forall|k: int| 0 <= k < logs.len() && trigger_met(logs[k].unlock_trigger@, f) ==> #[trigger] unlocked.contains(logs[k].id@),
    ensures
        unlock_logs(logs, unlocked, f) == unlocked,
    decreases logs.len(),
{
    if logs.len() > 0 {
        let d = logs.drop_last();
        assert forall|k: int| 0 <= k < d.len() && trigger_met(d[k].unlock_trigger@, f) implies #[trigger] unlocked.contains(d[k].id@) by {
            assert(d[k] == logs[k]);
        }
        lemma_check_no_new(d, unlocked, f);
        if trigger_met(logs.last().unlock_trigger@, f) {
            assert(unlocked.contains(logs[logs.len() - 1].id@));
        }
    }
}

} // verus!
