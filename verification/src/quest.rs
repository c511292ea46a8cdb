use vstd::prelude::*;
use vstd::string::*;

verus! {

/// Progress of a quest objective.
#[derive(Clone, Copy, PartialEq, Eq, Debug, Structural)]
pub enum ObjectiveState {
    /// Not yet revealed: shown as a dim placeholder.
    Locked,
    /// The current objective.
    Active,
    /// Done.
    Complete,
}

/// One objective of the quest log.
pub struct QuestObjective {
    pub id: u32,
    pub description: String,
    /// Current value of the progress bar, if the objective has one.
    pub progress_current: Option<u32>,
    pub progress_target: Option<u32>,
    pub state: ObjectiveState,
}

/// The quest log shown in the objectives panel.
pub struct QuestLog {
    pub objectives: Vec<QuestObjective>,
    pub panel_open: bool,
}

/// The signals that reveal and complete an objective, as the objectives file
/// lists them.
#[derive(Clone, Copy, PartialEq, Eq, Debug, Structural)]
pub struct ObjectiveTriggers {
    pub activate_on_signal: Option<u32>,
    pub complete_on_signal: Option<u32>,
}

/// One objective as the objectives file describes it.
pub struct QuestObjectiveDef {
    pub id: u32,
    pub description: String,
    pub progress_target: Option<u32>,
    pub initial_state: String,
    pub triggers: ObjectiveTriggers,
}

/// The objectives file: every objective of the quest.
pub struct QuestConfig {
    pub quest_objectives: Vec<QuestObjectiveDef>,
}

/// An objective as a mathematical value.
pub struct ObjectiveView {
    pub id: u32,
    pub description: Seq<char>,
    pub progress_current: Option<u32>,
    pub progress_target: Option<u32>,
    pub state: ObjectiveState,
}

impl QuestObjective {
    pub open spec fn view(&self) -> ObjectiveView {
        ObjectiveView {
            id: self.id,
            description: self.description@,
            progress_current: self.progress_current,
            progress_target: self.progress_target,
            state: self.state,
        }
    }
}

impl QuestLog {
    pub open spec fn view(&self) -> Seq<ObjectiveView> {
        self.objectives@.map_values(|o: QuestObjective| o.view())
    }
}

/// Order of objective states: Locked, then Active, then Complete.
pub open spec fn state_rank(s: ObjectiveState) -> nat {
    match s {
        ObjectiveState::Locked => 0,
        ObjectiveState::Active => 1,
        ObjectiveState::Complete => 2,
    }
}

/// Signal that reveals an objective (the first objective is revealed from the start).
pub open spec fn activation_signal(id: u32) -> Option<u32> {
    if id == 2 { Some(4u32) }
    else if id == 3 { Some(5u32) }
    else if id == 4 { Some(11u32) }
    else if id == 5 { Some(13u32) }
    else if id == 6 { Some(14u32) }
    else if id == 7 { Some(16u32) }
    else { None }
}

/// Signal that completes an objective.
pub open spec fn completion_signal(id: u32) -> Option<u32> {
    if id == 1 { Some(4u32) }
    else if id == 2 { Some(5u32) }
    else if id == 3 { Some(11u32) }
    else if id == 4 { Some(13u32) }
    else if id == 5 { Some(14u32) }
    else if id == 6 { Some(16u32) }
    else if id == 7 { Some(17u32) }
    else { None }
}

/// State of objective `id` after signal `signal` fires: its completion signal
/// completes it; its activation signal reveals it when it is still locked.
pub open spec fn objective_after(id: u32, state: ObjectiveState, signal: u32) -> ObjectiveState {
    if completion_signal(id) == Some(signal) {
        ObjectiveState::Complete
    } else if activation_signal(id) == Some(signal) && state == ObjectiveState::Locked {
        ObjectiveState::Active
    } else {
        state
    }
}

/// State after a sequence of signals, in order.
pub open spec fn objective_after_all(id: u32, state: ObjectiveState, signals: Seq<u32>) -> ObjectiveState
    decreases signals.len(),
{
    if signals.len() == 0 {
        state
    } else {
        objective_after(id, objective_after_all(id, state, signals.drop_last()), signals.last())
    }
}

/// The same objectives with every state advanced by `f`.
pub open spec fn with_states(objs: Seq<ObjectiveView>, signals: Seq<u32>) -> Seq<ObjectiveView> {
    objs.map_values(|o: ObjectiveView| ObjectiveView { state: objective_after_all(o.id, o.state, signals), ..o })
}

/// The objectives a new game starts with.
pub open spec fn initial_objectives() -> Seq<ObjectiveView> {
    seq![
        ObjectiveView { id: 1, description: "Locate the signal source"@, progress_current: None, progress_target: None, state: ObjectiveState::Active },
        ObjectiveView { id: 2, description: "Dock at the derelict station"@, progress_current: None, progress_target: None, state: ObjectiveState::Locked },
        ObjectiveView { id: 3, description: "Repair the station"@, progress_current: Some(0u32), progress_target: Some(25u32), state: ObjectiveState::Locked },
        ObjectiveView { id: 4, description: "Build an AI Core"@, progress_current: None, progress_target: None, state: ObjectiveState::Locked },
        ObjectiveView { id: 5, description: "Discover Sector 3"@, progress_current: None, progress_target: None, state: ObjectiveState::Active },
        ObjectiveView { id: 6, description: "Mine Carbon 3"@, progress_current: None, progress_target: None, state: ObjectiveState::Locked },
        ObjectiveView { id: 7, description: "Assemble autonomous ship"@, progress_current: None, progress_target: None, state: ObjectiveState::Locked },
    ]
}

impl Default for QuestLog {
    fn default() -> (log: QuestLog)
        ensures
            log.objectives@.len() == 0,
            !log.panel_open,
    {
        QuestLog { objectives: Vec::new(), panel_open: false }
    }
}

fn objective(id: u32, description: &str, progress_current: Option<u32>, progress_target: Option<u32>, state: ObjectiveState) -> (o: QuestObjective)
    ensures
        o.view() == (ObjectiveView { id, description: description@, progress_current, progress_target, state }),
{
    QuestObjective { id, description: String::from_str(description), progress_current, progress_target, state }
}

/// The quest log of a new game, with its panel closed.
pub fn init_quest_log() -> (log: QuestLog)
    ensures
        log.view() == initial_objectives(),
        !log.panel_open,
{
    let mut objectives: Vec<QuestObjective> = Vec::new();
    objectives.push(objective(1, "Locate the signal source", None, None, ObjectiveState::Active));
    objectives.push(objective(2, "Dock at the derelict station", None, None, ObjectiveState::Locked));
    objectives.push(objective(3, "Repair the station", Some(0), Some(25), ObjectiveState::Locked));
    objectives.push(objective(4, "Build an AI Core", None, None, ObjectiveState::Locked));
    objectives.push(objective(5, "Discover Sector 3", None, None, ObjectiveState::Active));
    objectives.push(objective(6, "Mine Carbon 3", None, None, ObjectiveState::Locked));
    objectives.push(objective(7, "Assemble autonomous ship", None, None, ObjectiveState::Locked));
    let log = QuestLog { objectives, panel_open: false };
    assert(log.view() =~= initial_objectives());
    log
}

fn next_state(id: u32, state: ObjectiveState, signal: u32) -> (s: ObjectiveState)
    ensures
        s == objective_after(id, state, signal),
{
    let (activate, complete): (u32, u32) = if id == 1 {
        (0, 4)
    } else if id == 2 {
        (4, 5)
    } else if id == 3 {
        (5, 11)
    } else if id == 4 {
        (11, 13)
    } else if id == 5 {
        (13, 14)
    } else if id == 6 {
        (14, 16)
    } else if id == 7 {
        (16, 17)
    } else {
        return state;
    };
    if signal == complete {
        ObjectiveState::Complete
    } else if id != 1 && signal == activate && state == ObjectiveState::Locked {
        ObjectiveState::Active
    } else {
        state
    }
}

/// Advances every objective of the log by one fired signal.
pub fn apply_quest_signal(log: &mut QuestLog, signal: u32)
    ensures
        final(log).view() == with_states(old(log).view(), seq![signal]),
        final(log).panel_open == old(log).panel_open,
{
    let n = log.objectives.len();
    let mut i: usize = 0;
    while i < n
        invariant
            n == log.objectives@.len(),
            old(log).objectives@.len() == n,
            0 <= i <= n,
            log.panel_open == old(log).panel_open,
            forall|j: int| 0 <= j < i ==> #[trigger] log.objectives@[j].view() == (ObjectiveView {
                state: objective_after(old(log).objectives@[j].id, old(log).objectives@[j].state, signal),
                ..old(log).objectives@[j].view()
            }),
            forall|j: int| i <= j < n ==> #[trigger] log.objectives@[j] == old(log).objectives@[j],
        decreases n - i,
    {
        let new_state = next_state(log.objectives[i].id, log.objectives[i].state, signal);
        log.objectives[i].state = new_state;
        i += 1;
    }
    assert forall|j: int| 0 <= j < n implies #[trigger] log.view()[j] == with_states(old(log).view(), seq![signal])[j] by {
        let o = old(log).view()[j];
        assert(seq![signal].drop_last() =~= Seq::<u32>::empty());
        assert(objective_after_all(o.id, o.state, Seq::<u32>::empty()) == o.state);
        assert(objective_after_all(o.id, o.state, seq![signal]) == objective_after(o.id, o.state, signal));
    }
    assert(log.view() =~= with_states(old(log).view(), seq![signal]));
}


proof fn lemma_with_states_push(v: Seq<ObjectiveView>, s: Seq<u32>, x: u32)
    ensures
        with_states(with_states(v, s), seq![x]) == with_states(v, s.push(x)),
{
    assert(s.push(x).drop_last() =~= s);
    assert(seq![x].drop_last() =~= Seq::<u32>::empty());
    assert forall|j: int| 0 <= j < v.len() implies #[trigger] with_states(with_states(v, s), seq![x])[j]
        == with_states(v, s.push(x))[j] by {
        let o = with_states(v, s)[j];
        assert(objective_after_all(o.id, o.state, Seq::<u32>::empty()) == o.state);
    }
    assert(with_states(with_states(v, s), seq![x]) =~= with_states(v, s.push(x)));
}

/// Advances the objectives by each fired signal in turn.
pub fn quest_signal_system(log: &mut QuestLog, signals: &Vec<u32>)
    ensures
        final(log).view() == with_states(old(log).view(), signals@),
        final(log).panel_open == old(log).panel_open,
{
    let ghost start = log.view();
    assert forall|j: int| 0 <= j < start.len() implies #[trigger] with_states(start, Seq::<u32>::empty())[j] == start[j] by {}
    assert(with_states(start, Seq::<u32>::empty()) =~= start);
    assert(signals@.take(0) =~= Seq::<u32>::empty());
    let mut i: usize = 0;
    while i < signals.len()
        invariant
            0 <= i <= signals@.len(),
            log.view() == with_states(start, signals@.take(i as int)),
            log.panel_open == old(log).panel_open,
        decreases signals@.len() - i,
    {
        let sig = signals[i];
        apply_quest_signal(log, sig);
        proof {
            lemma_with_states_push(start, signals@.take(i as int), sig);
            assert(signals@.take(i as int).push(sig) =~= signals@.take(i + 1));
        }
        i += 1;
    }
    assert(signals@.take(signals@.len() as int) =~= signals@);
}

/// The objectives with the repair objective's progress bar set to the whole
/// units of iron held, while that objective is active.
pub open spec fn with_repair_progress(objs: Seq<ObjectiveView>, iron_whole: u32) -> Seq<ObjectiveView> {
    objs.map_values(|o: ObjectiveView|
        if o.id == 3 && o.state == ObjectiveState::Active {
            ObjectiveView { progress_current: Some(iron_whole), ..o }
        } else {
            o
        })
}

/// Updates the live progress bars: the active "Repair the station" objective
/// tracks the whole units of iron in the station's reserves.
pub fn quest_update_system(log: &mut QuestLog, iron_whole: u32)
    ensures
        final(log).view() == with_repair_progress(old(log).view(), iron_whole),
        final(log).panel_open == old(log).panel_open,
{
    let n = log.objectives.len();
    let mut i: usize = 0;
    while i < n
        invariant
            n == log.objectives@.len(),
            old(log).objectives@.len() == n,
            0 <= i <= n,
            log.panel_open == old(log).panel_open,
            forall|j: int| 0 <= j < i ==> #[trigger] log.objectives@[j].view() == with_repair_progress(old(log).view(), iron_whole)[j],
            forall|j: int| i <= j < n ==> #[trigger] log.objectives@[j] == old(log).objectives@[j],
        decreases n - i,
    {
        if log.objectives[i].id == 3 && log.objectives[i].state == ObjectiveState::Active {
            log.objectives[i].progress_current = Some(iron_whole);
        }
        i += 1;
    }
    assert(log.view() =~= with_repair_progress(old(log).view(), iron_whole));
}

/// Objectives never move backwards: after any sequence of signals an objective
/// is at least as far along (Locked, Active, Complete) as before.
pub proof fn law_objectives_never_regress(id: u32, state: ObjectiveState, signals: Seq<u32>)
    ensures
        state_rank(objective_after_all(id, state, signals)) >= state_rank(state),
    decreases signals.len(),
{
    if signals.len() > 0 {
        law_objectives_never_regress(id, state, signals.drop_last());
    }
}

/// A completed objective stays completed whatever signals follow.
pub proof fn law_completed_objective_stays_complete(id: u32, signals: Seq<u32>)
    ensures
        objective_after_all(id, ObjectiveState::Complete, signals) == ObjectiveState::Complete,
{
    law_objectives_never_regress(id, ObjectiveState::Complete, signals);
}

/// Whether the signal `s`, if there is one, fires among `signals`.
pub open spec fn fires_among(s: Option<u32>, signals: Seq<u32>) -> bool {
    s is Some && signals.contains(s->0)
}

/// Each objective moves only on its own signals: over any sequence of signals
/// it becomes complete only if its completion signal fires, becomes active only
/// from locked and only if its activation signal fires, and stays as it was
/// when neither fires.
pub proof fn law_objective_moves_only_on_its_signals(id: u32, state: ObjectiveState, signals: Seq<u32>)
    ensures
        state != ObjectiveState::Complete && objective_after_all(id, state, signals) == ObjectiveState::Complete
            ==> fires_among(completion_signal(id), signals),
        state != ObjectiveState::Active && objective_after_all(id, state, signals) == ObjectiveState::Active
            ==> state == ObjectiveState::Locked && fires_among(activation_signal(id), signals),
        !fires_among(completion_signal(id), signals) && !fires_among(activation_signal(id), signals)
            ==> objective_after_all(id, state, signals) == state,
    decreases signals.len(),
{
    if signals.len() > 0 {
        let front = signals.drop_last();
        let last = signals.last();
        law_objective_moves_only_on_its_signals(id, state, front);
        law_objectives_never_regress(id, state, front);
        assert forall|x: u32| front.contains(x) implies signals.contains(x) by {
            let k = choose|k: int| 0 <= k < front.len() && front[k] == x;
            assert(signals[k] == x);
        }
        assert(signals[signals.len() - 1] == last);
    }
}

/// A fired signal changes only the states of the objectives: their number,
/// ids, descriptions and progress bars stay as they were.
pub proof fn law_quest_signals_change_only_states(objs: Seq<ObjectiveView>, signals: Seq<u32>)
    ensures
        with_states(objs, signals).len() == objs.len(),
        forall|j: int| 0 <= j < objs.len() ==> {
            let o = #[trigger] with_states(objs, signals)[j];
            &&& o.id == objs[j].id
            &&& o.description == objs[j].description
            &&& o.progress_current == objs[j].progress_current
            &&& o.progress_target == objs[j].progress_target
            &&& o.state == objective_after_all(objs[j].id, objs[j].state, signals)
        },
{
}

/// Law: the objectives follow the story's signals. Signal 4 completes
/// objective 1, 5 objective 2, 11 objective 3, 13 objective 4, 14 objective 5,
/// 16 objective 6 and 17 objective 7, whatever state each is in; no other signal
/// completes an objective that is not complete yet. A locked objective is revealed
/// by its own signal: 4 reveals objective 2, 5 objective 3, 11 objective 4, 13
/// objective 5, 14 objective 6 and 16 objective 7; no other signal reveals one.
pub proof fn law_objectives_follow_the_story(id: u32, state: ObjectiveState, signal: u32)
    ensures
        ({
            let completes = (id == 1 && signal == 4) || (id == 2 && signal == 5) || (id == 3 && signal == 11)
                || (id == 4 && signal == 13) || (id == 5 && signal == 14) || (id == 6 && signal == 16)
                || (id == 7 && signal == 17);
            let reveals = (id == 2 && signal == 4) || (id == 3 && signal == 5) || (id == 4 && signal == 11)
                || (id == 5 && signal == 13) || (id == 6 && signal == 14) || (id == 7 && signal == 16);
            &&& completes ==> objective_after(id, state, signal) == ObjectiveState::Complete
            &&& state != ObjectiveState::Complete ==> (objective_after(id, state, signal) == ObjectiveState::Complete <==> completes)
            &&& state == ObjectiveState::Locked ==> (objective_after(id, state, signal) == ObjectiveState::Active <==> reveals)
            &&& state == ObjectiveState::Active && !completes ==> objective_after(id, state, signal) == ObjectiveState::Active
        }),
{
}

} // verus!
