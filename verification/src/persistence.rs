use std::collections::HashSet;
use vstd::prelude::*;
use vstd::std_specs::hash::*;
use vstd::string::*;
use crate::economy::{CollectedRequest, RequestsTabState, ShipQueue};
use crate::fleet::ScoutEnabled;
use crate::opening::OpeningSequence;
use crate::signal::SignalLog;
use crate::state::{ActiveStationTab, OpeningPhase};
use crate::text::{parse_u64, parsed_u64, text_eq};

verus! {

broadcast use vstd::std_specs::hash::group_hash_axioms;

/// Version written into every save; older saves are migrated on load.
pub const SAVE_VERSION: u32 = 7;

/// Kind of a save: the player's own, a developer snapshot, or the autosave.
#[derive(Clone, Copy, PartialEq, Eq, Debug, Structural)]
pub enum SaveCategory {
    Play,
    Stage,
    Auto,
}

impl Default for SaveCategory {
    fn default() -> (c: SaveCategory)
        ensures
            c == SaveCategory::Play,
    {
        SaveCategory::Play
    }
}

/// What `char::is_alphanumeric` answers for `c` (alphabetic or numeric in
/// Unicode's tables).
pub uninterp spec fn char_is_alphanumeric(c: char) -> bool;

/// An ASCII letter or digit.
pub open spec fn is_ascii_letter_or_digit(c: char) -> bool {
    ('a' <= c && c <= 'z') || ('A' <= c && c <= 'Z') || ('0' <= c && c <= '9')
}

/// Calls `char::is_alphanumeric`; the contract names its answer and states
/// what Unicode's tables give for ASCII: its letters and digits are
/// alphanumeric, and no other ASCII char is.
#[verifier::external_body]
fn is_alphanumeric(c: char) -> (r: bool)
    ensures
        r == char_is_alphanumeric(c),
        c <= '\x7f' ==> (r == is_ascii_letter_or_digit(c)),
{
    c.is_alphanumeric()
}

/// Appends `c` with `String::push`, which adds the char at the end.
#[verifier::external_body]
fn push_char(s: &mut String, c: char)
    ensures
        final(s)@ == old(s)@.push(c),
{
    s.push(c)
}

/// A char kept in a file name: alphanumeric, `_` or `-`.
pub open spec fn is_name_char(c: char) -> bool {
    char_is_alphanumeric(c) || c == '_' || c == '-'
}

/// A save name made safe for a file name: every char that is not alphanumeric,
/// `_` or `-` becomes `_`.
pub open spec fn sanitized(name: Seq<char>) -> Seq<char> {
    name.map_values(|c: char| if is_name_char(c) { c } else { '_' })
}

/// A char an ASCII file name may hold after sanitizing.
pub open spec fn is_ascii_name_char(c: char) -> bool {
    is_ascii_letter_or_digit(c) || c == '_' || c == '-'
}

/// Makes a save name safe for use as a file name: the only ASCII chars left
/// are letters, digits, `_` and `-` (so no `/`, `.` or space).
pub fn sanitize_filename(name: &str) -> (file: String)
    ensures
        file@ == sanitized(name@),
        forall|i: int| 0 <= i < file@.len() && file@[i] <= '\x7f' ==> is_ascii_name_char(#[trigger] file@[i]),
{
    let n = name.unicode_len();
    let mut file = String::new();
    let mut i: usize = 0;
    while i < n
        invariant
            n == name@.len(),
            0 <= i <= n,
            file@ == sanitized(name@.take(i as int)),
            forall|j: int| 0 <= j < file@.len() && file@[j] <= '\x7f' ==> is_ascii_name_char(#[trigger] file@[j]),
        decreases n - i,
    {
        let c = name.get_char(i);
        let keep = is_alphanumeric(c) || c == '_' || c == '-';
        let ghost before = file@;
        if keep {
            push_char(&mut file, c);
        } else {
            push_char(&mut file, '_');
        }
        assert(name@.take(i + 1) =~= name@.take(i as int).push(c));
        assert(sanitized(name@.take(i + 1)) =~= sanitized(name@.take(i as int)).push(if keep { c } else { '_' }));
        i += 1;
    }
    assert(name@.take(n as int) =~= name@);
    file
}

/// Law: a sanitized name keeps its length, holds only file-name chars, and
/// sanitizing it again changes nothing.
pub proof fn law_sanitize_is_idempotent(name: Seq<char>)
    ensures
        sanitized(name).len() == name.len(),
        forall|i: int| 0 <= i < name.len() ==> is_name_char(#[trigger] sanitized(name)[i]),
        sanitized(sanitized(name)) == sanitized(name),
{
    assert(sanitized(sanitized(name)) =~= sanitized(name));
}

/// The name a save gives an opening phase.
pub open spec fn spec_phase_name(p: OpeningPhase) -> Seq<char> {
    match p {
        OpeningPhase::Adrift => "Adrift"@,
        OpeningPhase::SignalIdentified => "SignalIdentified"@,
        OpeningPhase::AutoPiloting => "AutoPiloting"@,
        OpeningPhase::InRange => "InRange"@,
        OpeningPhase::Docked => "Docked"@,
        OpeningPhase::Complete => "Complete"@,
    }
}

/// The phase a saved name stands for; an unknown name counts as a finished
/// opening.
pub open spec fn spec_parse_phase(t: Seq<char>) -> OpeningPhase {
    if t == "Adrift"@ {
        OpeningPhase::Adrift
    } else if t == "SignalIdentified"@ {
        OpeningPhase::SignalIdentified
    } else if t == "AutoPiloting"@ {
        OpeningPhase::AutoPiloting
    } else if t == "InRange"@ {
        OpeningPhase::InRange
    } else if t == "Docked"@ {
        OpeningPhase::Docked
    } else {
        OpeningPhase::Complete
    }
}

/// The name a save gives a station tab.
pub open spec fn spec_tab_name(t: ActiveStationTab) -> Seq<char> {
    match t {
        ActiveStationTab::Cargo => "Cargo"@,
        ActiveStationTab::Production => "Production"@,
        ActiveStationTab::Requests => "Requests"@,
        ActiveStationTab::Logs => "Logs"@,
    }
}

/// The tab a saved name stands for; an unknown name opens the cargo tab.
pub open spec fn spec_parse_tab(t: Seq<char>) -> ActiveStationTab {
    if t == "Production"@ {
        ActiveStationTab::Production
    } else if t == "Requests"@ {
        ActiveStationTab::Requests
    } else if t == "Logs"@ {
        ActiveStationTab::Logs
    } else {
        ActiveStationTab::Cargo
    }
}

/// The name a save gives an opening phase.
pub fn phase_name(p: OpeningPhase) -> (name: &'static str)
    ensures
        name@ == spec_phase_name(p),
{
    match p {
        OpeningPhase::Adrift => "Adrift",
        OpeningPhase::SignalIdentified => "SignalIdentified",
        OpeningPhase::AutoPiloting => "AutoPiloting",
        OpeningPhase::InRange => "InRange",
        OpeningPhase::Docked => "Docked",
        OpeningPhase::Complete => "Complete",
    }
}

/// The phase a saved name stands for; an unknown name counts as a finished
/// opening.
pub fn parse_opening_phase(name: &str) -> (p: OpeningPhase)
    ensures
        p == spec_parse_phase(name@),
{
    let owned = name.to_owned();
    if text_eq(&owned, "Adrift") {
        OpeningPhase::Adrift
    } else if text_eq(&owned, "SignalIdentified") {
        OpeningPhase::SignalIdentified
    } else if text_eq(&owned, "AutoPiloting") {
        OpeningPhase::AutoPiloting
    } else if text_eq(&owned, "InRange") {
        OpeningPhase::InRange
    } else if text_eq(&owned, "Docked") {
        OpeningPhase::Docked
    } else {
        OpeningPhase::Complete
    }
}

/// The name a save gives a station tab.
pub fn tab_name(t: ActiveStationTab) -> (name: &'static str)
    ensures
        name@ == spec_tab_name(t),
{
    match t {
        ActiveStationTab::Cargo => "Cargo",
        ActiveStationTab::Production => "Production",
        ActiveStationTab::Requests => "Requests",
        ActiveStationTab::Logs => "Logs",
    }
}

/// The tab a saved name stands for; an unknown name opens the cargo tab.
pub fn parse_active_tab(name: &str) -> (t: ActiveStationTab)
    ensures
        t == spec_parse_tab(name@),
{
    let owned = name.to_owned();
    if text_eq(&owned, "Production") {
        ActiveStationTab::Production
    } else if text_eq(&owned, "Requests") {
        ActiveStationTab::Requests
    } else if text_eq(&owned, "Logs") {
        ActiveStationTab::Logs
    } else {
        ActiveStationTab::Cargo
    }
}

/// Law: a saved phase or tab name reads back as the phase or tab it was
/// written from.
pub proof fn law_saved_names_read_back(p: OpeningPhase, t: ActiveStationTab)
    ensures
        spec_parse_phase(spec_phase_name(p)) == p,
        spec_parse_tab(spec_tab_name(t)) == t,
{
    reveal_strlit("Adrift");
    reveal_strlit("SignalIdentified");
    reveal_strlit("AutoPiloting");
    reveal_strlit("InRange");
    reveal_strlit("Docked");
    reveal_strlit("Complete");
    reveal_strlit("Cargo");
    reveal_strlit("Production");
    reveal_strlit("Requests");
    reveal_strlit("Logs");
    assert("Adrift"@.len() == 6 && "Docked"@.len() == 6 && "InRange"@.len() == 7);
    assert("Complete"@.len() == 8 && "AutoPiloting"@.len() == 12 && "SignalIdentified"@.len() == 16);
    assert("Adrift"@[0] != "Docked"@[0]);
    assert("Cargo"@.len() == 5 && "Production"@.len() == 10 && "Requests"@.len() == 8 && "Logs"@.len() == 4);
}

/// Everything a save records besides the station's stock and the drones'
/// positions (those are kept by the caller).
pub struct SaveState {
    pub save_version: u32,
    pub save_name: String,
    pub save_category: SaveCategory,
    pub timestamp: String,
    /// Developer note for stage saves.
    pub description: String,
    pub opening_complete: bool,
    pub opening_phase: String,
    pub station_online: bool,
    /// Drones ready in the queue.
    pub ship_hulls: u32,
    pub max_dispatch: u32,
    pub signal_fired_ids: Vec<u32>,
    pub tab_power: bool,
    pub tab_cargo: bool,
    pub tab_refinery: bool,
    pub tab_foundry: bool,
    pub tab_hangar: bool,
    /// The station's running total of drones built, kept as a byte (the low
    /// eight bits of the total).
    pub drone_count: u8,
    pub sectors_discovered: Vec<String>,
    pub active_tab: String,
    pub drawer_state: String,
    /// None while the player was not asked yet.
    pub telemetry_consent: Option<bool>,
    pub telemetry_sessions: u32,
    pub collected_requests: Vec<CollectedRequest>,
    pub unlocked_logs: Vec<String>,
    pub scout_enabled: bool,
}

/// Brings a save written by an older version up to date: saves before version
/// 6 start the telemetry session count at zero, saves before version 7 have no
/// unlocked logs. The version number itself is left as written.
pub fn migrate_save(save: &mut SaveState)
    ensures
        final(save).telemetry_sessions == (if old(save).save_version < 6 { 0 } else { old(save).telemetry_sessions }),
        final(save).unlocked_logs@ == (if old(save).save_version < 7 {
            Seq::<String>::empty()
        } else {
            old(save).unlocked_logs@
        }),
        final(save).save_version == old(save).save_version,
        final(save).telemetry_consent == old(save).telemetry_consent,
        final(save).save_name@ == old(save).save_name@,
        final(save).opening_phase@ == old(save).opening_phase@,
        final(save).active_tab@ == old(save).active_tab@,
        final(save).ship_hulls == old(save).ship_hulls,
        final(save).max_dispatch == old(save).max_dispatch,
        final(save).signal_fired_ids@ == old(save).signal_fired_ids@,
        final(save).collected_requests@ == old(save).collected_requests@,
        final(save).station_online == old(save).station_online,
        final(save).scout_enabled == old(save).scout_enabled,
        final(save).save_category == old(save).save_category,
        final(save).timestamp@ == old(save).timestamp@,
        final(save).description@ == old(save).description@,
        final(save).opening_complete == old(save).opening_complete,
        final(save).tab_power == old(save).tab_power,
        final(save).tab_cargo == old(save).tab_cargo,
        final(save).tab_refinery == old(save).tab_refinery,
        final(save).tab_foundry == old(save).tab_foundry,
        final(save).tab_hangar == old(save).tab_hangar,
        final(save).drone_count == old(save).drone_count,
        final(save).sectors_discovered@ == old(save).sectors_discovered@,
        final(save).drawer_state@ == old(save).drawer_state@,
{
    if save.save_version < 6 {
        save.telemetry_sessions = 0;
    }
    if save.save_version < 7 {
        save.unlocked_logs = Vec::new();
    }
}

/// Drones ready after loading: as saved, except that a finished opening with
/// an empty queue gets one drone so that the fleet is never empty.
pub open spec fn restored_queue(phase: OpeningPhase, saved: u32) -> u32 {
    if phase == OpeningPhase::Complete && saved == 0 {
        1
    } else {
        saved
    }
}

/// The dispatch limit after loading: as saved, or 5 when the save holds none.
pub open spec fn restored_max_dispatch(saved: u32) -> u32 {
    if saved > 0 {
        saved
    } else {
        5
    }
}

/// What `str::to_uppercase` returns for a text (its Unicode upper case).
pub uninterp spec fn str_uppercase(s: Seq<char>) -> Seq<char>;

/// Calls `str::to_uppercase`; the contract names its result.
#[verifier::external_body]
fn to_uppercase(s: &str) -> (up: String)
    ensures
        up@ == str_uppercase(s@),
{
    s.to_uppercase()
}

/// The two lines the strip gains when a save is loaded.
pub open spec fn restore_lines(name: Seq<char>) -> Seq<Seq<char>> {
    seq!["ECHO: SAVE LOADED SUCCESSFULLY."@, "ECHO: "@ + str_uppercase(name) + " RESTORED."@]
}

/// The station's own state taken from a save.
#[derive(Clone, Copy, PartialEq, Eq, Debug, Structural)]
pub struct StationRestore {
    pub online: bool,
    pub max_dispatch: u32,
}

/// What the caller must do after a load besides the state changed here.
pub struct RestoreOutcome {
    /// The opening is over: the opening ship is removed.
    pub remove_opening_ship: bool,
    /// The station's state, when a station exists.
    pub station: Option<StationRestore>,
}

/// Restores the game's state from a save: the opening phase (timer reset), the
/// camera's focus (released, so the view centres on the station), the drone
/// queue, the station's state, the tab, the request cards, the fired signals,
/// and two lines on the strip saying what was loaded.
pub fn restore_save_state(
    save: &SaveState,
    opening: &mut OpeningSequence,
    camera_focused: &mut bool,
    log: &mut SignalLog,
    tab: &mut ActiveStationTab,
    queue: &mut ShipQueue,
    requests: &mut RequestsTabState,
    station_present: bool,
) -> (out: RestoreOutcome)
    ensures
        !*final(camera_focused),
        final(opening).phase == spec_parse_phase(save.opening_phase@),
        final(opening).timer == 0,
        final(opening).beat_timer == old(opening).beat_timer,
        final(queue).available_count == restored_queue(final(opening).phase, save.ship_hulls),
        *final(tab) == spec_parse_tab(save.active_tab@),
        final(requests).collected_requests@ == save.collected_requests@,
        final(requests).selected_faction == old(requests).selected_faction,
        final(requests).visited_after_t106 == old(requests).visited_after_t106,
        final(log).fired@ == save.signal_fired_ids@.to_set(),
        final(log).lines() == old(log).lines() + restore_lines(save.save_name@),
        final(log).last_fired_at@ == old(log).last_fired_at@,
        out.remove_opening_ship == (final(opening).phase == OpeningPhase::Complete),
        out.station == (if station_present {
            Some(StationRestore { online: save.station_online, max_dispatch: restored_max_dispatch(save.max_dispatch) })
        } else {
            None::<StationRestore>
        }),
{
    let phase = parse_opening_phase(save.opening_phase.as_str());
    opening.phase = phase;
    opening.timer = 0;
    *camera_focused = false;
    let complete = phase == OpeningPhase::Complete;

    let mut count = save.ship_hulls;
    if complete && count == 0 {
        count = 1;
    }
    queue.available_count = count;

    let station = if station_present {
        let max_dispatch = if save.max_dispatch > 0 { save.max_dispatch } else { 5 };
        Some(StationRestore { online: save.station_online, max_dispatch })
    } else {
        None
    };

    *tab = parse_active_tab(save.active_tab.as_str());

    let mut cards: Vec<CollectedRequest> = Vec::new();
    let mut i: usize = 0;
    while i < save.collected_requests.len()
        invariant
            0 <= i <= save.collected_requests@.len(),
            cards@ == save.collected_requests@.take(i as int),
        decreases save.collected_requests@.len() - i,
    {
        cards.push(save.collected_requests[i]);
        assert(save.collected_requests@.take(i + 1) =~= save.collected_requests@.take(i as int).push(save.collected_requests@[i as int]));
        i += 1;
    }
    assert(save.collected_requests@.take(i as int) =~= save.collected_requests@);
    requests.collected_requests = cards;

    let mut fired: HashSet<u32> = HashSet::new();
    let ids = &save.signal_fired_ids;
    let mut k: usize = 0;
    while k < ids.len()
        invariant
            0 <= k <= ids@.len(),
            fired@ == ids@.take(k as int).to_set(),
        decreases ids@.len() - k,
    {
        fired.insert(ids[k]);
        proof {
            assert(ids@.take(k + 1) =~= ids@.take(k as int).push(ids@[k as int]));
            ids@.take(k as int).lemma_push_to_set_commute(ids@[k as int]);
        }
        k += 1;
    }
    assert(ids@.take(k as int) =~= ids@);
    log.fired = fired;

    let ghost before = log.lines();
    log.entries.push_back(String::from_str("ECHO: SAVE LOADED SUCCESSFULLY."));
    let mut line = String::from_str("ECHO: ");
    let upper = to_uppercase(save.save_name.as_str());
    line.append(upper.as_str());
    line.append(" RESTORED.");
    log.entries.push_back(line);
    assert(log.lines() =~= before + restore_lines(save.save_name@));

    RestoreOutcome { remove_opening_ship: complete, station }
}

/// The char of a decimal digit.
pub open spec fn digit_char(d: int) -> char {
    ('0' as int + d) as char
}

/// The decimal writing of `n`, without leading zeros.
pub open spec fn decimal_text(n: nat) -> Seq<char>
    decreases n,
{
    if n < 10 {
        seq![digit_char(n as int)]
    } else {
        decimal_text(n / 10).push(digit_char((n % 10) as int))
    }
}

/// Writes `n` with `format!`, which writes an unsigned integer in decimal
/// without leading zeros.
#[verifier::external_body]
pub(crate) fn decimal_string(n: u64) -> (text: String)
    ensures
        text@ == decimal_text(n as nat),
{
    format!("{n}")
}

/// The timestamp a save records: the whole seconds of play time, in decimal.
pub fn current_timestamp(elapsed_secs: u64) -> (stamp: String)
    ensures
        stamp@ == decimal_text(elapsed_secs as nat),
{
    decimal_string(elapsed_secs)
}

/// The ids of a set of fired signals, each once, in the set's walking order.
pub fn fired_ids(fired: &HashSet<u32>) -> (ids: Vec<u32>)
    ensures
        ids@.to_set() == fired@,
        ids@.no_duplicates(),
{
    let mut ids: Vec<u32> = Vec::new();
    for x in it: fired.iter()
        invariant
            ids@.len() == it.index(),
            forall|j: int| 0 <= j < ids@.len() ==> ids@[j] == *it.seq()[j],
    {
        ids.push(*x);
    }
    proof {
        let rem = vstd::std_specs::iter::IteratorSpec::remaining(&spec_hash_keys_iter(fired));
        assert(ids@ =~= rem.unref());
    }
    ids
}

/// What a save needs from the running game besides the station's stock.
pub struct SaveSource {
    pub station_online: bool,
    pub max_dispatch: u32,
    /// The station's running total of drones built.
    pub drone_count: u32,
    pub telemetry_consent: Option<bool>,
    pub telemetry_sessions: u32,
}

/// Copies the request cards one by one.
fn copy_cards(cards: &Vec<CollectedRequest>) -> (copy: Vec<CollectedRequest>)
    ensures
        copy@ == cards@,
{
    let mut copy: Vec<CollectedRequest> = Vec::new();
    let mut i: usize = 0;
    while i < cards.len()
        invariant
            0 <= i <= cards@.len(),
            copy@ == cards@.take(i as int),
        decreases cards@.len() - i,
    {
        copy.push(cards[i]);
        assert(cards@.take(i + 1) =~= cards@.take(i as int).push(cards@[i as int]));
        i += 1;
    }
    assert(cards@.take(i as int) =~= cards@);
    copy
}

/// Gathers a save of the running game: the opening phase by name, the ready
/// drones, the fired signals, the tab by name, the request cards and the
/// scout's switch, stamped with the current version.
pub fn collect_save_state(
    name: String,
    category: SaveCategory,
    description: String,
    timestamp: String,
    source: &SaveSource,
    opening: &OpeningSequence,
    tab: ActiveStationTab,
    queue: &ShipQueue,
    requests: &RequestsTabState,
    log: &SignalLog,
    scout: &ScoutEnabled,
) -> (save: SaveState)
    ensures
        save.save_version == SAVE_VERSION,
        save.save_name@ == name@,
        save.save_category == category,
        save.description@ == description@,
        save.timestamp@ == timestamp@,
        save.opening_complete == (opening.phase == OpeningPhase::Complete),
        save.opening_phase@ == spec_phase_name(opening.phase),
        save.station_online == source.station_online,
        save.ship_hulls == queue.available_count,
        save.max_dispatch == source.max_dispatch,
        save.signal_fired_ids@.to_set() == log.fired@,
        save.signal_fired_ids@.no_duplicates(),
        !save.tab_power && !save.tab_cargo && !save.tab_refinery && !save.tab_foundry && !save.tab_hangar,
        save.drone_count == source.drone_count % 256,
        save.sectors_discovered@.len() == 0,
        save.active_tab@ == spec_tab_name(tab),
        save.drawer_state@ == "default"@,
        save.telemetry_consent == source.telemetry_consent,
        save.telemetry_sessions == source.telemetry_sessions,
        save.collected_requests@ == requests.collected_requests@,
        save.unlocked_logs@.len() == 0,
        save.scout_enabled == scout.active,
{
    SaveState {
        save_version: SAVE_VERSION,
        save_name: name,
        save_category: category,
        timestamp,
        description,
        opening_complete: opening.phase == OpeningPhase::Complete,
        opening_phase: phase_name(opening.phase).to_owned(),
        station_online: source.station_online,
        ship_hulls: queue.available_count,
        max_dispatch: source.max_dispatch,
        signal_fired_ids: fired_ids(&log.fired),
        tab_power: false,
        tab_cargo: false,
        tab_refinery: false,
        tab_foundry: false,
        tab_hangar: false,
        drone_count: (source.drone_count % 256) as u8,
        sectors_discovered: Vec::new(),
        active_tab: tab_name(tab).to_owned(),
        drawer_state: "default".to_owned(),
        telemetry_consent: source.telemetry_consent,
        telemetry_sessions: source.telemetry_sessions,
        collected_requests: copy_cards(&requests.collected_requests),
        unlocked_logs: Vec::new(),
        scout_enabled: scout.active,
    }
}

/// Law: loading a save gives back what saving recorded: the opening phase, the
/// tab, the fired signals, the request cards and the ready drones (except that
/// an empty fleet after the opening gets one drone), and the dispatch limit
/// when one was set.
pub proof fn law_save_then_load_round_trip(
    phase: OpeningPhase,
    tab: ActiveStationTab,
    fired: Set<u32>,
    saved_ids: Seq<u32>,
    ready: u32,
    max_dispatch: u32,
)
    requires
        saved_ids.to_set() == fired,
    ensures
        spec_parse_phase(spec_phase_name(phase)) == phase,
        spec_parse_tab(spec_tab_name(tab)) == tab,
        saved_ids.to_set() == fired,
        !(phase == OpeningPhase::Complete && ready == 0) ==> restored_queue(phase, ready) == ready,
        restored_queue(phase, ready) >= 1 || phase != OpeningPhase::Complete,
        max_dispatch > 0 ==> restored_max_dispatch(max_dispatch) == max_dispatch,
{
    law_saved_names_read_back(phase, tab);
}

/// The folder, under the game's base folder, that holds saves of a category.
pub open spec fn spec_save_dir(category: SaveCategory) -> Seq<char> {
    match category {
        SaveCategory::Play => "saves/play"@,
        SaveCategory::Stage => "saves/stage"@,
        SaveCategory::Auto => "saves"@,
    }
}

/// The folder, under the game's base folder, that holds saves of a category.
pub fn save_dir(category: SaveCategory) -> (dir: &'static str)
    ensures
        dir@ == spec_save_dir(category),
{
    match category {
        SaveCategory::Play => "saves/play",
        SaveCategory::Stage => "saves/stage",
        SaveCategory::Auto => "saves",
    }
}

/// Where a save is written, under the game's base folder: the autosave has a
/// fixed file; other saves are named after their sanitized name.
pub open spec fn spec_save_path(category: SaveCategory, name: Seq<char>) -> Seq<char> {
    match category {
        SaveCategory::Auto => "saves/autosave.json"@,
        _ => spec_save_dir(category) + "/"@ + sanitized(name) + ".json"@,
    }
}

/// Where a save is written, under the game's base folder.
pub fn save_path(category: SaveCategory, name: &str) -> (path: String)
    ensures
        path@ == spec_save_path(category, name@),
{
    match category {
        SaveCategory::Auto => String::from_str("saves/autosave.json"),
        _ => {
            let mut path = String::from_str(save_dir(category));
            path.append("/");
            let file = sanitize_filename(name);
            path.append(file.as_str());
            path.append(".json");
            path
        },
    }
}

/// The browser storage key of a save: a fixed key for the autosave, the
/// sanitized name after a prefix for the others.
pub open spec fn spec_storage_key(category: SaveCategory, name: Seq<char>) -> Seq<char> {
    match category {
        SaveCategory::Auto => "voidrift_autosave"@,
        _ => "voidrift_save_"@ + sanitized(name),
    }
}

/// The browser storage key of a save.
pub fn storage_key(category: SaveCategory, name: &str) -> (key: String)
    ensures
        key@ == spec_storage_key(category, name@),
{
    match category {
        SaveCategory::Auto => String::from_str("voidrift_autosave"),
        _ => {
            let mut key = String::from_str("voidrift_save_");
            let file = sanitize_filename(name);
            key.append(file.as_str());
            key
        },
    }
}

/// The prefix shared by the storage keys listed for a category.
pub open spec fn spec_key_prefix(category: SaveCategory) -> Seq<char> {
    match category {
        SaveCategory::Auto => "voidrift_autosave"@,
        _ => "voidrift_save_"@,
    }
}

/// Whether `prefix` starts `text`.
pub fn starts_with(text: &str, prefix: &str) -> (yes: bool)
    ensures
        yes == prefix@.is_prefix_of(text@),
{
    let n = text.unicode_len();
    let m = prefix.unicode_len();
    if m > n {
        return false;
    }
    let mut i: usize = 0;
    while i < m
        invariant
            n == text@.len(),
            m == prefix@.len(),
            m <= n,
            0 <= i <= m,
            forall|j: int| 0 <= j < i ==> prefix@[j] == text@[j],
        decreases m - i,
    {
        if text.get_char(i) != prefix.get_char(i) {
            assert(text@.take(m as int)[i as int] != prefix@[i as int]);
            return false;
        }
        i += 1;
    }
    assert(text@.take(m as int) =~= prefix@);
    true
}

/// Whether a storage key holds a save of the category (the browser keeps one
/// index of all keys).
pub fn key_in_category(key: &str, category: SaveCategory) -> (yes: bool)
    ensures
        yes == spec_key_prefix(category).is_prefix_of(key@),
{
    match category {
        SaveCategory::Auto => starts_with(key, "voidrift_autosave"),
        _ => starts_with(key, "voidrift_save_"),
    }
}

/// Texts in lexicographic order of their chars (the order in which Rust
/// compares strings: by UTF-8 bytes, which keep the order of chars): `a` comes
/// no later than `b`.
pub open spec fn text_le(a: Seq<char>, b: Seq<char>) -> bool
    decreases a.len(),
{
    if a.len() == 0 {
        true
    } else if b.len() == 0 {
        false
    } else if a[0] < b[0] {
        true
    } else if a[0] == b[0] {
        text_le(a.drop_first(), b.drop_first())
    } else {
        false
    }
}

/// Every text comes no later than itself.
pub proof fn lemma_text_le_reflexive(a: Seq<char>)
    ensures
        text_le(a, a),
    decreases a.len(),
{
    if a.len() > 0 {
        lemma_text_le_reflexive(a.drop_first());
    }
}

/// Of two texts, one comes no later than the other.
pub proof fn lemma_text_le_total(a: Seq<char>, b: Seq<char>)
    ensures
        text_le(a, b) || text_le(b, a),
    decreases a.len(),
{
    if a.len() > 0 && b.len() > 0 {
        if a[0] == b[0] {
            lemma_text_le_total(a.drop_first(), b.drop_first());
        } else {
            assert(a[0] < b[0] || b[0] < a[0]);
        }
    }
}

/// The order is transitive.
pub proof fn lemma_text_le_transitive(a: Seq<char>, b: Seq<char>, c: Seq<char>)
    requires
        text_le(a, b),
        text_le(b, c),
    ensures
        text_le(a, c),
    decreases a.len(),
{
    if a.len() > 0 && b.len() > 0 && c.len() > 0 && a[0] == b[0] && b[0] == c[0] {
        lemma_text_le_transitive(a.drop_first(), b.drop_first(), c.drop_first());
    }
}

/// Whether `a` comes no later than `b` (see `text_le`).
pub fn text_le_exec(a: &str, b: &str) -> (le: bool)
    ensures
        le == text_le(a@, b@),
{
    let n = a.unicode_len();
    let m = b.unicode_len();
    let mut i: usize = 0;
    assert(a@.skip(0) =~= a@ && b@.skip(0) =~= b@);
    while i < n && i < m
        invariant
            n == a@.len(),
            m == b@.len(),
            0 <= i <= n,
            i <= m,
            text_le(a@, b@) == text_le(a@.skip(i as int), b@.skip(i as int)),
        decreases n - i,
    {
        let x = a.get_char(i);
        let y = b.get_char(i);
        assert(a@.skip(i as int)[0] == x && b@.skip(i as int)[0] == y);
        if x < y {
            return true;
        }
        if x != y {
            return false;
        }
        assert(a@.skip(i as int).drop_first() =~= a@.skip(i + 1));
        assert(b@.skip(i as int).drop_first() =~= b@.skip(i + 1));
        i += 1;
    }
    assert(a@.skip(i as int).len() == 0 || b@.skip(i as int).len() == 0);
    i >= n
}

/// `order` lists the positions `0..n` once each.
pub open spec fn is_order_of(order: Seq<usize>, n: int) -> bool {
    &&& order.len() == n
    &&& forall|k: int| 0 <= k < n ==> #[trigger] order[k] < n
    &&& order.no_duplicates()
}

/// Whether a save stamped `a` ranks no newer than one stamped `b`. A stamp
/// that reads as a second count (see `parsed_u64`) ranks by that number; one
/// that does not ranks below every one that does, and two such stamps rank as
/// their texts compare.
pub open spec fn stamp_le(a: Seq<char>, b: Seq<char>) -> bool {
    match (parsed_u64(a), parsed_u64(b)) {
        (Some(x), Some(y)) => x <= y,
        (None, Some(_)) => true,
        (Some(_), None) => false,
        (None, None) => text_le(a, b),
    }
}

/// Every stamp ranks no newer than itself.
pub proof fn lemma_stamp_le_reflexive(a: Seq<char>)
    ensures
        stamp_le(a, a),
{
    lemma_text_le_reflexive(a);
}

/// Of two stamps, one ranks no newer than the other.
pub proof fn lemma_stamp_le_total(a: Seq<char>, b: Seq<char>)
    ensures
        stamp_le(a, b) || stamp_le(b, a),
{
    lemma_text_le_total(a, b);
}

/// The ranking is transitive.
pub proof fn lemma_stamp_le_transitive(a: Seq<char>, b: Seq<char>, c: Seq<char>)
    requires
        stamp_le(a, b),
        stamp_le(b, c),
    ensures
        stamp_le(a, c),
{
    if parsed_u64(a) is None && parsed_u64(b) is None && parsed_u64(c) is None {
        lemma_text_le_transitive(a, b, c);
    }
}

/// Whether a save stamped `a` ranks no newer than one stamped `b`, given what
/// each stamp parses to.
fn stamp_le_exec(va: Option<u64>, a: &str, vb: Option<u64>, b: &str) -> (le: bool)
    requires
        va == parsed_u64(a@),
        vb == parsed_u64(b@),
    ensures
        le == stamp_le(a@, b@),
{
    match (va, vb) {
        (Some(x), Some(y)) => x <= y,
        (None, Some(_)) => true,
        (Some(_), None) => false,
        (None, None) => text_le_exec(a, b),
    }
}

/// `order` lists saves newest first: each ranks no newer than those before it
/// (see `stamp_le`), and saves that rank alike keep their listed order.
pub open spec fn newest_first(stamps: Seq<Seq<char>>, order: Seq<usize>) -> bool {
    &&& forall|k: int, l: int| 0 <= k < l < order.len() ==> stamp_le(stamps[#[trigger] order[l] as int], stamps[#[trigger] order[k] as int])
    &&& forall|k: int, l: int| 0 <= k < l < order.len() && stamp_le(stamps[#[trigger] order[k] as int], stamps[#[trigger] order[l] as int])
        ==> order[k] < order[l]
}

/// Law: in a save list, timestamps that read as second counts never increase
/// from one save to a later one, and every such save comes before each save
/// whose timestamp is no second count.
pub proof fn law_save_list_newest_first(stamps: Seq<Seq<char>>, order: Seq<usize>, k: int, l: int)
    requires
        is_order_of(order, stamps.len() as int),
        newest_first(stamps, order),
        0 <= k < l < order.len(),
    ensures
        parsed_u64(stamps[order[l] as int]) matches Some(later_secs) ==> (parsed_u64(stamps[order[k] as int]) matches Some(earlier_secs)
            && later_secs <= earlier_secs),
{
    assert(stamp_le(stamps[order[l] as int], stamps[order[k] as int]));
}

/// The order in which a save list shows saves: newest first, the greatest
/// second count first; stamps that are no second count come after those that
/// are, the greatest text first; saves that rank alike stay in their listed
/// order (a stable sort).
pub fn newest_first_order(stamps: &Vec<String>) -> (order: Vec<usize>)
    ensures
        is_order_of(order@, stamps@.len() as int),
        newest_first(crate::text::texts(stamps@), order@),
{
    let ghost ts = crate::text::texts(stamps@);
    let mut values: Vec<Option<u64>> = Vec::new();
    let mut j: usize = 0;
    while j < stamps.len()
        invariant
            0 <= j <= stamps@.len(),
            ts == crate::text::texts(stamps@),
            values@.len() == j,
            forall|q: int| 0 <= q < j ==> #[trigger] values@[q] == parsed_u64(ts[q]),
        decreases stamps@.len() - j,
    {
        values.push(parse_u64(stamps[j].as_str()));
        j += 1;
    }
    let mut order: Vec<usize> = Vec::new();
    let mut i: usize = 0;
    while i < stamps.len()
        invariant
            0 <= i <= stamps@.len(),
            ts == crate::text::texts(stamps@),
            values@.len() == stamps@.len(),
            forall|q: int| 0 <= q < stamps@.len() ==> #[trigger] values@[q] == parsed_u64(ts[q]),
            is_order_of(order@, i as int),
            newest_first(ts, order@),
        decreases stamps@.len() - i,
    {
        let key = stamps[i].as_str();
        let mut p: usize = 0;
        while p < order.len() && stamp_le_exec(values[i], key, values[order[p]], stamps[order[p]].as_str())
            invariant
                0 <= p <= order@.len(),
                i < stamps@.len(),
                ts == crate::text::texts(stamps@),
                values@.len() == stamps@.len(),
                forall|q: int| 0 <= q < stamps@.len() ==> #[trigger] values@[q] == parsed_u64(ts[q]),
                key@ == ts[i as int],
                is_order_of(order@, i as int),
                forall|q: int| 0 <= q < p ==> stamp_le(ts[i as int], ts[#[trigger] order@[q] as int]),
            decreases order@.len() - p,
        {
            p += 1;
        }
        proof {
            assert forall|q: int| p <= q < order@.len() implies !stamp_le(ts[i as int], #[trigger] ts[order@[q] as int]) by {
                if q > p {
                    if stamp_le(ts[i as int], ts[order@[q] as int]) {
                        assert(stamp_le(ts[order@[q] as int], ts[order@[p as int] as int]));
                        lemma_stamp_le_transitive(ts[i as int], ts[order@[q] as int], ts[order@[p as int] as int]);
                    }
                }
            }
        }
        let ghost before = order@;
        order.insert(p, i);
        proof {
            assert(order@ =~= before.take(p as int).push(i) + before.skip(p as int));
            assert forall|k: int| 0 <= k < i + 1 implies #[trigger] order@[k] < i + 1 by {
                if k < p {
                    assert(order@[k] == before[k]);
                } else if k > p {
                    assert(order@[k] == before[k - 1]);
                }
            }
            assert(order@.no_duplicates()) by {
                assert forall|k: int, l: int| 0 <= k < order@.len() && 0 <= l < order@.len() && k != l
                    implies order@[k] != order@[l] by {
                    let bk = if k < p { k } else { k - 1 };
                    let bl = if l < p { l } else { l - 1 };
                    if k != p && l != p {
                        assert(order@[k] == before[bk]);
                        assert(order@[l] == before[bl]);
                    } else if k == p {
                        assert(order@[l] == before[bl]);
                        assert(before[bl] < i);
                    } else {
                        assert(order@[k] == before[bk]);
                        assert(before[bk] < i);
                    }
                }
            }
            assert forall|k: int, l: int| 0 <= k < l < order@.len()
                implies stamp_le(ts[#[trigger] order@[l] as int], ts[#[trigger] order@[k] as int]) by {
                if l < p {
                    assert(order@[k] == before[k] && order@[l] == before[l]);
                } else if k > p {
                    assert(order@[k] == before[k - 1] && order@[l] == before[l - 1]);
                } else if k < p && l > p {
                    assert(order@[k] == before[k] && order@[l] == before[l - 1]);
                } else if k == p {
                    assert(order@[l] == before[l - 1]);
                    lemma_stamp_le_total(ts[i as int], ts[before[l - 1] as int]);
                } else {
                    assert(order@[k] == before[k]);
                }
            }
            assert forall|k: int, l: int| 0 <= k < l < order@.len()
                && stamp_le(ts[#[trigger] order@[k] as int], ts[#[trigger] order@[l] as int]) implies order@[k] < order@[l] by {
                if l < p {
                    assert(order@[k] == before[k] && order@[l] == before[l]);
                } else if k > p {
                    assert(order@[k] == before[k - 1] && order@[l] == before[l - 1]);
                } else if k < p && l > p {
                    assert(order@[k] == before[k] && order@[l] == before[l - 1]);
                } else if k == p {
                    assert(order@[l] == before[l - 1]);
                } else {
                    assert(order@[k] == before[k]);
                }
            }
        }
        i += 1;
    }
    order
}

} // verus!
