use twoexcamim::events::{EventType, SignalSide};
use twoexcamim::scenarios::{
    available_fixtures, confirmed_then_filled_signal, decision_with_multiple_fills,
    load_fixture_named, vetoed_signal_without_fill, ReplayHarness, ScenarioError,
};
use twoexcamim::store::JsonlEventStore;

#[test]
fn every_available_fixture_loads_under_its_name() {
    for name in available_fixtures() {
        let fixture = load_fixture_named(name).unwrap();
        assert_eq!(fixture.name, name);
        assert!(fixture.description.is_some());
        assert!(!fixture.events.is_empty());
    }
}

#[test]
fn unknown_fixture_is_refused_with_its_name() {
    match load_fixture_named("no_such_fixture") {
        Err(ScenarioError::UnknownFixture(name)) => assert_eq!(name, "no_such_fixture"),
        other => panic!("unexpected outcome: {:?}", other.map(|f| f.name)),
    }
}

#[test]
fn confirmed_fixture_replays_to_one_filled_decision() {
    let fixture = confirmed_then_filled_signal();
    let kinds: Vec<EventType> = fixture.events.iter().map(|e| e.event_type).collect();
    assert_eq!(
        kinds,
        vec![
            EventType::SignalGenerated,
            EventType::SignalConfirmed,
            EventType::DecisionFormed,
            EventType::FillReceived,
        ]
    );
    let mut store = JsonlEventStore::new("memory.jsonl");
    let mut harness = ReplayHarness::new(&mut store);
    let result = harness.run_fixture(&fixture).unwrap();
    assert_eq!(result.total_events, 4);
    assert_eq!(result.confirmed_signals_count, 1);
    assert_eq!(result.vetoed_signals_count, 0);
    assert_eq!(result.decisions_with_fills_count, 1);
    assert_eq!(result.decisions_without_fills_count, 0);
    assert_eq!(result.decision_projections[0].decision_id, "dec-confirmed-1");
    assert_eq!(result.decision_projections[0].side, Some(SignalSide::Long));
}

#[test]
fn vetoed_fixture_replays_to_a_decision_without_fills() {
    let mut store = JsonlEventStore::new("memory.jsonl");
    let mut harness = ReplayHarness::new(&mut store);
    let result = harness.run_fixture(&vetoed_signal_without_fill()).unwrap();
    assert_eq!(result.total_events, 3);
    assert_eq!(result.confirmed_signals_count, 0);
    assert_eq!(result.vetoed_signals_count, 1);
    assert_eq!(result.decisions_with_fills_count, 0);
    assert_eq!(result.decisions_without_fills_count, 1);
}

#[test]
fn multiple_fills_count_on_one_decision() {
    let fixture = decision_with_multiple_fills();
    let mut store = JsonlEventStore::new("memory.jsonl");
    let mut harness = ReplayHarness::new(&mut store);
    let result = harness.run_fixture(&fixture).unwrap();
    assert_eq!(result.total_events, 4);
    assert_eq!(result.decisions_with_fills_count, 1);
    assert_eq!(result.decision_projections[0].fills_count, 2);
    let again = harness.run_fixture(&fixture).unwrap();
    assert_eq!(again.total_events, 4);
}
