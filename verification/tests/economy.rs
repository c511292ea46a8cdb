use voidrift::economy::{
    collect_first_light, complete_drones, drone_build_ticks, fulfill_request, ship_docked_economy_system,
    CollectedRequest, EconomyEvents, FactionId, RequestId, RequestsTabState, ShipQueue,
};
use voidrift::narrative::{
    asteroid_input_allowed, bottle_input_allowed, bottle_signal_text, bottle_timer_runs, laser_warning_text,
    narrative_event_system, view_after_dispatch, NarrativeEvents,
};
use voidrift::signal::SignalLog;
use voidrift::state::GameState;

fn card(fulfilled: bool) -> CollectedRequest {
    CollectedRequest { id: RequestId::FirstLight, faction: FactionId::Signal, fulfilled }
}

fn events(cargo_docks: Vec<bool>, bottle_docks: u32, fulfil: usize, repairs: u32, dispatches: u32) -> EconomyEvents {
    EconomyEvents {
        cargo_docks,
        bottle_docks,
        fulfil_asks: vec![(RequestId::FirstLight, FactionId::Signal); fulfil],
        repairs,
        dispatches,
    }
}

#[test]
fn docked_drones_return_to_queue_and_dispatch_takes_them() {
    let mut queue = ShipQueue { available_count: 2 };
    let mut tab = RequestsTabState::default();
    let out = ship_docked_economy_system(&mut queue, &mut tab, &events(vec![true, false, true], 1, 0, 0, 1), true);
    assert_eq!(queue.available_count, 2 + 2 + 1 - 1);
    assert_eq!(out.autosaves, 4);
    assert!(!out.repaired);
    assert!(out.resume_station);
    assert!(out.fulfilled.is_empty());
}

#[test]
fn dispatch_never_takes_the_queue_below_zero() {
    let mut queue = ShipQueue { available_count: 1 };
    let mut tab = RequestsTabState::default();
    ship_docked_economy_system(&mut queue, &mut tab, &events(vec![], 0, 0, 0, 5), true);
    assert_eq!(queue.available_count, 0);
}

#[test]
fn fulfilling_marks_the_card_once() {
    let mut queue = ShipQueue::default();
    let mut tab = RequestsTabState::default();
    tab.collected_requests.push(card(false));
    let out = ship_docked_economy_system(&mut queue, &mut tab, &events(vec![], 0, 2, 0, 0), true);
    assert_eq!(out.fulfilled, vec![true, false]);
    assert_eq!(tab.collected_requests, vec![card(true)]);
}

#[test]
fn without_a_station_nothing_is_fulfilled_or_repaired() {
    let mut queue = ShipQueue::default();
    let mut tab = RequestsTabState::default();
    tab.collected_requests.push(card(false));
    let out = ship_docked_economy_system(&mut queue, &mut tab, &events(vec![true], 0, 1, 1, 0), false);
    assert_eq!(out.fulfilled, vec![false]);
    assert!(!out.repaired);
    assert_eq!(tab.collected_requests, vec![card(false)]);
    assert_eq!(queue.available_count, 1);
}

#[test]
fn repair_order_repairs_the_station() {
    let mut queue = ShipQueue::default();
    let mut tab = RequestsTabState::default();
    let out = ship_docked_economy_system(&mut queue, &mut tab, &events(vec![], 0, 0, 1, 0), true);
    assert!(out.repaired);
    assert!(!out.resume_station);
}

#[test]
fn fulfil_picks_the_first_open_card() {
    let mut cards = vec![card(true), card(false), card(false)];
    assert!(fulfill_request(&mut cards, RequestId::FirstLight, FactionId::Signal));
    assert_eq!(cards, vec![card(true), card(true), card(false)]);
    let mut none_open = vec![card(true)];
    assert!(!fulfill_request(&mut none_open, RequestId::FirstLight, FactionId::Signal));
    assert_eq!(none_open, vec![card(true)]);
}

#[test]
fn first_light_is_collected_once() {
    let mut tab = RequestsTabState::default();
    assert!(collect_first_light(&mut tab));
    assert!(!collect_first_light(&mut tab));
    assert_eq!(tab.collected_requests, vec![card(false)]);
}

#[test]
fn drone_assembly_respects_parts_and_cap() {
    let mut built = 10u32;
    let mut queue = ShipQueue { available_count: 3 };
    assert_eq!(complete_drones(&mut queue, &mut built, 4, 10, 5), 2);
    assert_eq!(queue.available_count, 5);
    assert_eq!(built, 12);
    let mut queue = ShipQueue { available_count: 0 };
    assert_eq!(complete_drones(&mut queue, &mut built, 3, 1, 5), 1);
    assert_eq!(queue.available_count, 1);
    assert_eq!(built, 13);
    let mut queue = ShipQueue { available_count: 7 };
    assert_eq!(complete_drones(&mut queue, &mut built, 3, 3, 5), 0);
    assert_eq!(queue.available_count, 7);
    assert_eq!(built, 13);
    let mut full = u32::MAX - 1;
    let mut queue = ShipQueue { available_count: 0 };
    assert_eq!(complete_drones(&mut queue, &mut full, 3, 3, 5), 3);
    assert_eq!(full, u32::MAX);
}

#[test]
fn drone_assembly_ticks_only_when_possible() {
    let queue = ShipQueue { available_count: 4 };
    assert!(drone_build_ticks(true, true, &queue, 5, true));
    assert!(!drone_build_ticks(false, true, &queue, 5, true));
    assert!(!drone_build_ticks(true, false, &queue, 5, true));
    assert!(!drone_build_ticks(true, true, &queue, 4, true));
    assert!(!drone_build_ticks(true, true, &queue, 5, false));
}

#[test]
fn bottle_delivery_adds_message_and_card() {
    let mut log = SignalLog::new();
    let mut tab = RequestsTabState::default();
    let mut queue = ShipQueue::default();
    let ev = NarrativeEvents { insufficient_laser: 1, bottle_docks: 2, opening_complete: 1 };
    let resume = narrative_event_system(&mut log, &mut tab, &mut queue, &ev, true);
    assert!(resume);
    assert_eq!(queue.available_count, 1);
    assert_eq!(tab.collected_requests, vec![card(false)]);
    let lines: Vec<String> = log.entries.iter().cloned().collect();
    assert_eq!(lines, vec![laser_warning_text().to_string(), bottle_signal_text().to_string(), bottle_signal_text().to_string()]);
    assert!(bottle_signal_text().starts_with("SIGNAL RECEIVED"));
}

#[test]
fn laser_warning_on_full_strip_is_dropped_again() {
    let mut log = SignalLog::new();
    for i in 0..10 {
        log.entries.push_back(format!("line {i}"));
    }
    let mut tab = RequestsTabState::default();
    let mut queue = ShipQueue::default();
    let ev = NarrativeEvents { insufficient_laser: 1, bottle_docks: 0, opening_complete: 0 };
    let resume = narrative_event_system(&mut log, &mut tab, &mut queue, &ev, false);
    assert!(!resume);
    assert_eq!(log.entries.len(), 10);
    assert_eq!(log.entries[0], "line 0");
}

#[test]
fn bottle_timer_stops_once_collected() {
    let mut spawned = false;
    let mut tab = RequestsTabState::default();
    assert!(bottle_timer_runs(&mut spawned, &tab));
    tab.collected_requests.push(card(false));
    assert!(!bottle_timer_runs(&mut spawned, &tab));
    assert!(spawned);
}

#[test]
fn input_gates() {
    let queue = ShipQueue { available_count: 1 };
    assert!(bottle_input_allowed(true, false, false, 1, &queue));
    assert!(!bottle_input_allowed(true, false, false, 2, &queue));
    assert!(!bottle_input_allowed(false, false, false, 0, &queue));
    assert!(!bottle_input_allowed(true, false, false, 0, &ShipQueue { available_count: 0 }));
    assert!(asteroid_input_allowed(true, false, false, false, 0, true));
    assert!(!asteroid_input_allowed(true, false, true, false, 0, true));
    assert!(!asteroid_input_allowed(true, true, false, false, 0, true));
    assert!(!asteroid_input_allowed(true, false, false, false, 0, false));
    assert_eq!(view_after_dispatch(GameState::MapView), GameState::SpaceView);
    assert_eq!(view_after_dispatch(GameState::SpaceView), GameState::SpaceView);
}
