use vstd::prelude::*;

verus! {

/// The request a card stands for.
#[derive(Clone, Copy, PartialEq, Eq, Debug, Structural)]
pub enum RequestId {
    FirstLight,
}

/// The faction that issued a request.
#[derive(Clone, Copy, PartialEq, Eq, Debug, Structural)]
pub enum FactionId {
    Signal,
}

impl Default for FactionId {
    fn default() -> (f: FactionId)
        ensures
            f == FactionId::Signal,
    {
        FactionId::Signal
    }
}

/// A request card the station holds, and whether it was fulfilled.
#[derive(Clone, Copy, PartialEq, Eq, Debug, Structural)]
pub struct CollectedRequest {
    pub id: RequestId,
    pub faction: FactionId,
    pub fulfilled: bool,
}

/// State of the requests tab: the faction shown and the cards collected so far.
pub struct RequestsTabState {
    pub selected_faction: FactionId,
    pub collected_requests: Vec<CollectedRequest>,
    pub visited_after_t106: bool,
}

impl Default for RequestsTabState {
    fn default() -> (s: RequestsTabState)
        ensures
            s.selected_faction == FactionId::Signal,
            s.collected_requests@ == Seq::<CollectedRequest>::empty(),
            !s.visited_after_t106,
    {
        RequestsTabState { selected_faction: FactionId::Signal, collected_requests: Vec::new(), visited_after_t106: false }
    }
}

/// The drones ready to be dispatched from the station.
#[derive(Clone, Copy, PartialEq, Eq, Debug, Structural)]
pub struct ShipQueue {
    pub available_count: u32,
}

impl Default for ShipQueue {
    fn default() -> (q: ShipQueue)
        ensures
            q.available_count == 0,
    {
        ShipQueue { available_count: 0 }
    }
}

/// A card matching `id` and `faction` that is not fulfilled yet.
pub open spec fn is_open_request(r: CollectedRequest, id: RequestId, faction: FactionId) -> bool {
    r.id == id && r.faction == faction && !r.fulfilled
}

/// Some card matching `id` and `faction` is still open.
pub open spec fn has_open_request(reqs: Seq<CollectedRequest>, id: RequestId, faction: FactionId) -> bool {
    exists|i: int| 0 <= i < reqs.len() && is_open_request(#[trigger] reqs[i], id, faction)
}

/// `i` is the first open card matching `id` and `faction`.
pub open spec fn is_first_open(reqs: Seq<CollectedRequest>, id: RequestId, faction: FactionId, i: int) -> bool {
    &&& 0 <= i < reqs.len()
    &&& is_open_request(reqs[i], id, faction)
    &&& forall|j: int| 0 <= j < i ==> !is_open_request(#[trigger] reqs[j], id, faction)
}

/// The cards after a fulfil request: the first open matching card is marked
/// fulfilled; without one nothing changes.
pub open spec fn fulfill_step(reqs: Seq<CollectedRequest>, id: RequestId, faction: FactionId) -> Seq<CollectedRequest> {
    if has_open_request(reqs, id, faction) {
        let i = choose|i: int| is_first_open(reqs, id, faction, i);
        reqs.update(i, CollectedRequest { fulfilled: true, ..reqs[i] })
    } else {
        reqs
    }
}

/// The cards after each fulfil request in turn.
pub open spec fn requests_after(reqs: Seq<CollectedRequest>, asks: Seq<(RequestId, FactionId)>) -> Seq<CollectedRequest>
    decreases asks.len(),
{
    if asks.len() == 0 {
        reqs
    } else {
        let prev = requests_after(reqs, asks.drop_last());
        fulfill_step(prev, asks.last().0, asks.last().1)
    }
}

/// Number of `true` entries.
pub open spec fn count_true(s: Seq<bool>) -> nat
    decreases s.len(),
{
    if s.len() == 0 {
        0
    } else {
        count_true(s.drop_last()) + if s.last() { 1nat } else { 0nat }
    }
}

/// `a - b`, or 0 when `b` is larger.
pub open spec fn sat_sub(a: int, b: int) -> int {
    if a > b {
        a - b
    } else {
        0
    }
}

/// Two first open cards are the same card.
pub proof fn lemma_first_open_unique(reqs: Seq<CollectedRequest>, id: RequestId, faction: FactionId, i: int, k: int)
    requires
        is_first_open(reqs, id, faction, i),
        is_first_open(reqs, id, faction, k),
    ensures
        i == k,
{
    if i < k {
        assert(!is_open_request(reqs[i], id, faction));
    } else if k < i {
        assert(!is_open_request(reqs[k], id, faction));
    }
}

/// An open card at `k` means there is a first open card.
pub proof fn lemma_first_open_exists(reqs: Seq<CollectedRequest>, id: RequestId, faction: FactionId, k: int)
    requires
        0 <= k < reqs.len(),
        is_open_request(reqs[k], id, faction),
    ensures
        exists|i: int| is_first_open(reqs, id, faction, i),
    decreases k,
{
    if forall|j: int| 0 <= j < k ==> !is_open_request(#[trigger] reqs[j], id, faction) {
        assert(is_first_open(reqs, id, faction, k));
    } else {
        let j = choose|j: int| 0 <= j < k && is_open_request(#[trigger] reqs[j], id, faction);
        lemma_first_open_exists(reqs, id, faction, j);
    }
}

/// Where the first open card is `i`, a fulfil request marks exactly that card.
proof fn lemma_fulfill_step_at(reqs: Seq<CollectedRequest>, id: RequestId, faction: FactionId, i: int)
    requires
        is_first_open(reqs, id, faction, i),
    ensures
        fulfill_step(reqs, id, faction) == reqs.update(i, CollectedRequest { fulfilled: true, ..reqs[i] }),
{
    assert(has_open_request(reqs, id, faction)) by {
        assert(is_open_request(reqs[i], id, faction));
    }
    let c = choose|c: int| is_first_open(reqs, id, faction, c);
    lemma_first_open_unique(reqs, id, faction, i, c);
}

/// Index of the first open card matching `id` and `faction`, if any.
pub fn find_open_request(reqs: &Vec<CollectedRequest>, id: RequestId, faction: FactionId) -> (found: Option<usize>)
    ensures
        found is None <==> !has_open_request(reqs@, id, faction),
        found matches Some(i) ==> is_first_open(reqs@, id, faction, i as int),
{
    let mut i: usize = 0;
    while i < reqs.len()
        invariant
            0 <= i <= reqs@.len(),
            forall|j: int| 0 <= j < i ==> !is_open_request(#[trigger] reqs@[j], id, faction),
        decreases reqs@.len() - i,
    {
        let r = reqs[i];
        if r.id == id && r.faction == faction && !r.fulfilled {
            return Some(i);
        }
        i += 1;
    }
    None
}

/// Marks the first open card matching `id` and `faction` fulfilled. Returns
/// whether a card was fulfilled.
pub fn fulfill_request(reqs: &mut Vec<CollectedRequest>, id: RequestId, faction: FactionId) -> (done: bool)
    ensures
        done == has_open_request(old(reqs)@, id, faction),
        final(reqs)@ == fulfill_step(old(reqs)@, id, faction),
{
    match find_open_request(reqs, id, faction) {
        Some(i) => {
            proof {
                lemma_fulfill_step_at(reqs@, id, faction, i as int);
            }
            let r = reqs[i];
            reqs.set(i, CollectedRequest { fulfilled: true, ..r });
            true
        },
        None => false,
    }
}

/// Whether some card is the request `id`.
pub open spec fn has_request(reqs: Seq<CollectedRequest>, id: RequestId) -> bool {
    exists|i: int| 0 <= i < reqs.len() && (#[trigger] reqs[i]).id == id
}

/// Whether some card is the request `id`.
pub fn holds_request(reqs: &Vec<CollectedRequest>, id: RequestId) -> (found: bool)
    ensures
        found == has_request(reqs@, id),
{
    let mut i: usize = 0;
    while i < reqs.len()
        invariant
            0 <= i <= reqs@.len(),
            forall|j: int| 0 <= j < i ==> (#[trigger] reqs@[j]).id != id,
        decreases reqs@.len() - i,
    {
        if reqs[i].id == id {
            return true;
        }
        i += 1;
    }
    false
}

/// The First Light card as it is first collected: from the Signal, not fulfilled.
pub open spec fn first_light_card() -> CollectedRequest {
    CollectedRequest { id: RequestId::FirstLight, faction: FactionId::Signal, fulfilled: false }
}

/// The cards after the bottle is delivered: the First Light card is added
/// unless one is already held.
pub open spec fn with_first_light(reqs: Seq<CollectedRequest>) -> Seq<CollectedRequest> {
    if has_request(reqs, RequestId::FirstLight) {
        reqs
    } else {
        reqs.push(first_light_card())
    }
}

/// Number of First Light cards held.
pub open spec fn first_light_count(reqs: Seq<CollectedRequest>) -> nat
    decreases reqs.len(),
{
    if reqs.len() == 0 {
        0
    } else {
        first_light_count(reqs.drop_last()) + if reqs.last().id == RequestId::FirstLight { 1nat } else { 0nat }
    }
}

/// No First Light card is counted exactly when none is held.
pub proof fn lemma_first_light_count_zero(reqs: Seq<CollectedRequest>)
    ensures
        (first_light_count(reqs) == 0) == !has_request(reqs, RequestId::FirstLight),
    decreases reqs.len(),
{
    if reqs.len() > 0 {
        let init = reqs.drop_last();
        lemma_first_light_count_zero(init);
        if has_request(init, RequestId::FirstLight) {
            let j = choose|j: int| 0 <= j < init.len() && (#[trigger] init[j]).id == RequestId::FirstLight;
            assert(reqs[j] == init[j]);
        }
        if has_request(reqs, RequestId::FirstLight) && reqs.last().id != RequestId::FirstLight {
            let j = choose|j: int| 0 <= j < reqs.len() && (#[trigger] reqs[j]).id == RequestId::FirstLight;
            assert(j < reqs.len() - 1);
            assert(init[j] == reqs[j]);
        }
    }
}

/// Adds the First Light card unless one is already held. Returns whether it was added.
pub fn collect_first_light(tab: &mut RequestsTabState) -> (added: bool)
    ensures
        added == !has_request(old(tab).collected_requests@, RequestId::FirstLight),
        final(tab).collected_requests@ == with_first_light(old(tab).collected_requests@),
        final(tab).selected_faction == old(tab).selected_faction,
        final(tab).visited_after_t106 == old(tab).visited_after_t106,
{
    if holds_request(&tab.collected_requests, RequestId::FirstLight) {
        false
    } else {
        tab.collected_requests.push(CollectedRequest { id: RequestId::FirstLight, faction: FactionId::Signal, fulfilled: false });
        true
    }
}

/// What docked ships, fulfilled requests, repairs and dispatches brought in one frame.
pub struct EconomyEvents {
    /// One entry per ship that docked with cargo: whether it is a dispatched
    /// drone that leaves the world (true) or an autonomous ship that cycles on.
    pub cargo_docks: Vec<bool>,
    /// Drones that came back with the bottle.
    pub bottle_docks: u32,
    /// Requests the player asked to fulfil, in order.
    pub fulfil_asks: Vec<(RequestId, FactionId)>,
    /// Repair orders.
    pub repairs: u32,
    /// Drones sent out.
    pub dispatches: u32,
}

/// What the station's numbers must take from the frame.
pub struct EconomyOutcome {
    /// Per fulfil request, whether a card was fulfilled (the station then pays
    /// its iron ingots and gains power).
    pub fulfilled: Vec<bool>,
    /// Whether the station was repaired.
    pub repaired: bool,
    /// Whether the station resumes its rotation (a ship unloaded cargo into it).
    pub resume_station: bool,
    /// Autosaves to write: one per ship that docked.
    pub autosaves: u64,
}

/// The drone count after a frame: one back per dispatched drone that docked
/// and per bottle carrier, then one out per dispatch while any is left.
pub open spec fn queue_after_frame(count: int, cargo_docks: Seq<bool>, bottle_docks: int, dispatches: int) -> int {
    sat_sub(count + count_true(cargo_docks) + bottle_docks, dispatches)
}

proof fn lemma_count_true_step(s: Seq<bool>, i: int)
    requires
        0 <= i < s.len(),
    ensures
        count_true(s.take(i + 1)) == count_true(s.take(i)) + if s[i] { 1nat } else { 0nat },
        count_true(s.take(i)) <= i,
{
    assert(s.take(i + 1).drop_last() =~= s.take(i));
    lemma_count_true_bound(s.take(i));
}

proof fn lemma_count_true_prefix(s: Seq<bool>, i: int)
    requires
        0 <= i <= s.len(),
    ensures
        count_true(s.take(i)) <= count_true(s),
    decreases s.len() - i,
{
    if i == s.len() {
        assert(s.take(i) =~= s);
    } else {
        lemma_count_true_prefix(s, i + 1);
        lemma_count_true_step(s, i);
    }
}

proof fn lemma_count_true_bound(s: Seq<bool>)
    ensures
        count_true(s) <= s.len(),
    decreases s.len(),
{
    if s.len() > 0 {
        lemma_count_true_bound(s.drop_last());
    }
}

/// Settles the station's economy for a frame: ships back with cargo or the
/// bottle return drones to the queue (cargo unloaded into a station sets it
/// resuming its rotation), fulfil requests mark the first open matching card
/// (only while a station exists), and each dispatch takes one drone from the
/// queue when one is left.
pub fn ship_docked_economy_system(
    queue: &mut ShipQueue,
    tab: &mut RequestsTabState,
    events: &EconomyEvents,
    station_present: bool,
) -> (out: EconomyOutcome)
    requires
        old(queue).available_count + count_true(events.cargo_docks@) + events.bottle_docks <= u32::MAX,
        events.cargo_docks@.len() + events.bottle_docks <= u64::MAX,
    ensures
        final(queue).available_count == queue_after_frame(
            old(queue).available_count as int,
            events.cargo_docks@,
            events.bottle_docks as int,
            events.dispatches as int,
        ),
        final(tab).collected_requests@ == (if station_present {
            requests_after(old(tab).collected_requests@, events.fulfil_asks@)
        } else {
            old(tab).collected_requests@
        }),
        final(tab).selected_faction == old(tab).selected_faction,
        final(tab).visited_after_t106 == old(tab).visited_after_t106,
        out.fulfilled@.len() == events.fulfil_asks@.len(),
        forall|k: int| 0 <= k < events.fulfil_asks@.len() ==> #[trigger] out.fulfilled@[k] == (station_present
            && has_open_request(
                requests_after(old(tab).collected_requests@, events.fulfil_asks@.take(k)),
                events.fulfil_asks@[k].0,
                events.fulfil_asks@[k].1,
            )),
        out.repaired == (station_present && events.repairs > 0),
        out.resume_station == (station_present && events.cargo_docks@.len() > 0),
        out.autosaves == events.cargo_docks@.len() + events.bottle_docks,
{
    let ghost start = queue.available_count as int;
    let ghost docks = events.cargo_docks@;
    let mut i: usize = 0;
    while i < events.cargo_docks.len()
        invariant
            0 <= i <= docks.len(),
            docks == events.cargo_docks@,
            start + count_true(docks) + events.bottle_docks <= u32::MAX,
            queue.available_count == start + count_true(docks.take(i as int)),
        decreases docks.len() - i,
    {
        proof {
            lemma_count_true_step(docks, i as int);
            lemma_count_true_prefix(docks, i + 1);
        }
        if events.cargo_docks[i] {
            queue.available_count = queue.available_count + 1;
        }
        i += 1;
    }
    assert(docks.take(docks.len() as int) =~= docks);
    proof {
        lemma_count_true_bound(docks);
    }
    queue.available_count = queue.available_count + events.bottle_docks;

    let ghost reqs0 = tab.collected_requests@;
    let ghost asks = events.fulfil_asks@;
    let mut fulfilled: Vec<bool> = Vec::new();
    let mut k: usize = 0;
    assert(asks.take(0) =~= Seq::<(RequestId, FactionId)>::empty());
    while k < events.fulfil_asks.len()
        invariant
            0 <= k <= asks.len(),
            asks == events.fulfil_asks@,
            fulfilled@.len() == k,
            tab.collected_requests@ == (if station_present { requests_after(reqs0, asks.take(k as int)) } else { reqs0 }),
            tab.selected_faction == old(tab).selected_faction,
            tab.visited_after_t106 == old(tab).visited_after_t106,
            reqs0 == old(tab).collected_requests@,
            forall|m: int| 0 <= m < k ==> #[trigger] fulfilled@[m] == (station_present
                && has_open_request(requests_after(reqs0, asks.take(m)), asks[m].0, asks[m].1)),
        decreases asks.len() - k,
    {
        let (id, faction) = events.fulfil_asks[k];
        proof {
            assert(asks.take(k + 1).drop_last() =~= asks.take(k as int));
            assert(asks.take(k + 1).last() == asks[k as int]);
        }
        if station_present {
            let done = fulfill_request(&mut tab.collected_requests, id, faction);
            fulfilled.push(done);
        } else {
            fulfilled.push(false);
        }
        k += 1;
    }
    assert(asks.take(asks.len() as int) =~= asks);

    let repaired = station_present && events.repairs > 0;
    let resume_station = station_present && events.cargo_docks.len() > 0;

    let mut d: u32 = 0;
    while d < events.dispatches
        invariant
            0 <= d <= events.dispatches,
            queue.available_count == sat_sub(start + count_true(docks) + events.bottle_docks, d as int),
        decreases events.dispatches - d,
    {
        if queue.available_count > 0 {
            queue.available_count = queue.available_count - 1;
        }
        d += 1;
    }
    let autosaves = events.cargo_docks.len() as u64 + events.bottle_docks as u64;
    EconomyOutcome { fulfilled, repaired, resume_station, autosaves }
}

/// Law: a drone sent out and docking again leaves the queue as it was; with
/// no drone ready, a dispatch takes nothing.
pub proof fn law_dispatch_then_dock_restores_queue(count: u32)
    ensures
        count > 0 ==> queue_after_frame(
            queue_after_frame(count as int, Seq::<bool>::empty(), 0, 1),
            seq![true],
            0,
            0,
        ) == count,
        queue_after_frame(0, Seq::<bool>::empty(), 0, 1) == 0,
{
    assert(count_true(Seq::<bool>::empty()) == 0);
    assert(seq![true].drop_last() =~= Seq::<bool>::empty());
    assert(count_true(seq![true]) == 1);
}

/// Whether the drone assembly line advances this frame: building is switched
/// on, the station is online, the queue is below its cap and the parts for one
/// drone are in stock.
pub fn drone_build_ticks(build_enabled: bool, online: bool, queue: &ShipQueue, max_queue: u32, has_parts: bool) -> (ticks: bool)
    ensures
        ticks == (build_enabled && online && queue.available_count < max_queue && has_parts),
{
    build_enabled && online && queue.available_count < max_queue && has_parts
}

/// Drones finished when the build progress has crossed `built` whole units:
/// no more than the parts pay for, nor than the queue has room for.
pub open spec fn drones_completed(built: int, affordable: int, max_queue: int, available: int) -> int {
    let room = sat_sub(max_queue, available);
    if built <= affordable && built <= room {
        built
    } else if affordable <= room {
        affordable
    } else {
        room
    }
}

/// Adds the drones that crossing `built` whole units of progress completes,
/// clamped to the `affordable` count and to the room left under `max_queue`,
/// and counts them into `drones_built`, the station's running total of drones
/// built (which stops at `u32::MAX`). Returns how many were added (the station
/// then pays their parts).
pub fn complete_drones(queue: &mut ShipQueue, drones_built: &mut u32, built: u32, affordable: u32, max_queue: u32) -> (added: u32)
    ensures
        added == drones_completed(built as int, affordable as int, max_queue as int, old(queue).available_count as int),
        final(queue).available_count == old(queue).available_count + added,
        *final(drones_built) == (if *old(drones_built) + added <= u32::MAX { *old(drones_built) + added } else { u32::MAX as int }),
{
    let room = max_queue.saturating_sub(queue.available_count);
    let mut added = built;
    if affordable < added {
        added = affordable;
    }
    if room < added {
        added = room;
    }
    queue.available_count = queue.available_count + added;
    *drones_built = drones_built.saturating_add(added);
    added
}

/// Law: assembling never fills the queue past its cap; a queue already at or
/// over the cap gains nothing.
pub proof fn law_drone_queue_within_cap(built: u32, affordable: u32, max_queue: u32, available: u32)
    ensures
        available <= max_queue ==> available + drones_completed(built as int, affordable as int, max_queue as int, available as int) <= max_queue,
        available >= max_queue ==> drones_completed(built as int, affordable as int, max_queue as int, available as int) == 0,
        drones_completed(built as int, affordable as int, max_queue as int, available as int) <= affordable,
        drones_completed(built as int, affordable as int, max_queue as int, available as int) <= built,
{
}

/// Law: a fulfilled card stays fulfilled, and a fulfil request changes no
/// card's id or faction nor the number of cards.
pub proof fn law_fulfilled_cards_stay_fulfilled(reqs: Seq<CollectedRequest>, id: RequestId, faction: FactionId, j: int)
    requires
        0 <= j < reqs.len(),
    ensures
        fulfill_step(reqs, id, faction).len() == reqs.len(),
        fulfill_step(reqs, id, faction)[j].id == reqs[j].id,
        fulfill_step(reqs, id, faction)[j].faction == reqs[j].faction,
        reqs[j].fulfilled ==> fulfill_step(reqs, id, faction)[j].fulfilled,
{
    if has_open_request(reqs, id, faction) {
        let k = choose|k: int| 0 <= k < reqs.len() && is_open_request(#[trigger] reqs[k], id, faction);
        lemma_first_open_exists(reqs, id, faction, k);
    }
}

/// Law: a fulfil request marks exactly the first open card that matches and
/// leaves every other card as it was; with no open match nothing changes.
pub proof fn law_fulfil_marks_first_open_card(reqs: Seq<CollectedRequest>, id: RequestId, faction: FactionId, i: int)
    requires
        is_first_open(reqs, id, faction, i),
    ensures
        fulfill_step(reqs, id, faction)[i].fulfilled,
        forall|j: int| 0 <= j < reqs.len() && j != i ==> #[trigger] fulfill_step(reqs, id, faction)[j] == reqs[j],
        !has_open_request(fulfill_step(reqs, id, faction), id, faction) || exists|k: int| i < k < reqs.len() && is_open_request(#[trigger] reqs[k], id, faction),
{
    lemma_fulfill_step_at(reqs, id, faction, i);
    let after = fulfill_step(reqs, id, faction);
    if has_open_request(after, id, faction) {
        let k = choose|k: int| 0 <= k < after.len() && is_open_request(#[trigger] after[k], id, faction);
        assert(k != i);
        assert(after[k] == reqs[k]);
        assert(i < k);
    }
}

/// Law: where one card alone is open for a request, fulfilling it twice is
/// fulfilling it once: the second request finds no open card (so nothing more
/// is paid) and changes no card.
pub proof fn law_second_fulfil_changes_nothing(reqs: Seq<CollectedRequest>, id: RequestId, faction: FactionId, i: int)
    requires
        is_first_open(reqs, id, faction, i),
        forall|k: int| 0 <= k < reqs.len() && k != i ==> !is_open_request(#[trigger] reqs[k], id, faction),
    ensures
        fulfill_step(reqs, id, faction)[i].fulfilled,
        !has_open_request(fulfill_step(reqs, id, faction), id, faction),
        fulfill_step(fulfill_step(reqs, id, faction), id, faction) == fulfill_step(reqs, id, faction),
{
    lemma_fulfill_step_at(reqs, id, faction, i);
    let after = fulfill_step(reqs, id, faction);
    assert forall|k: int| 0 <= k < after.len() implies !is_open_request(#[trigger] after[k], id, faction) by {
        if k != i {
            assert(after[k] == reqs[k]);
        }
    }
}

/// Law: delivering the bottle again adds no second First Light card; after a
/// delivery the card is held.
pub proof fn law_first_light_collected_once(reqs: Seq<CollectedRequest>)
    ensures
        with_first_light(with_first_light(reqs)) == with_first_light(reqs),
        has_request(with_first_light(reqs), RequestId::FirstLight),
{
    if !has_request(reqs, RequestId::FirstLight) {
        let after = reqs.push(first_light_card());
        assert(after[reqs.len() as int].id == RequestId::FirstLight);
    }
}

/// Which production lines the player has switched on.
#[derive(Clone, Copy, PartialEq, Eq, Debug, Structural)]
pub struct ProductionToggles {
    pub refine_iron: bool,
    pub refine_tungsten: bool,
    pub refine_nickel: bool,
    pub refine_aluminum: bool,
    pub forge_hull: bool,
    pub forge_thruster: bool,
    pub forge_core: bool,
    pub forge_aluminum_canister: bool,
    pub build_drones: bool,
}

impl Default for ProductionToggles {
    /// Every line starts switched on.
    fn default() -> (t: ProductionToggles)
        ensures
            t == (ProductionToggles {
                refine_iron: true,
                refine_tungsten: true,
                refine_nickel: true,
                refine_aluminum: true,
                forge_hull: true,
                forge_thruster: true,
                forge_core: true,
                forge_aluminum_canister: true,
                build_drones: true,
            }),
    {
        ProductionToggles {
            refine_iron: true,
            refine_tungsten: true,
            refine_nickel: true,
            refine_aluminum: true,
            forge_hull: true,
            forge_thruster: true,
            forge_core: true,
            forge_aluminum_canister: true,
            build_drones: true,
        }
    }
}

} // verus!
