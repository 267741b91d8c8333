use twoexcamim::events::{
    Binary64, EventEnvelope, Linkage, Provenance, SignalConfirmed, SignalGenerated, SignalSide,
    SourceKind,
};
use twoexcamim::observability::{build_observability_summary, OperationalSummaryFormat};
use twoexcamim::scenarios::{available_fixtures, ReplayHarness, ScenarioError, ScenarioFixture};
use twoexcamim::store::{JsonlEventStore, StoredEvent};

fn events() -> Vec<StoredEvent> {
    let linkage = Linkage {
        hypothesis_id: None,
        signal_id: Some("sig-1".to_string()),
        decision_id: None,
        order_id: None,
        position_id: None,
        parent_event_id: None,
        correlation_id: Some("corr-1".to_string()),
    };
    let provenance = Provenance {
        source_kind: SourceKind::Derived,
        source_ref: None,
        producer_run_id: None,
        actor: None,
        trace_id: None,
        notes: None,
    };
    let generated = EventEnvelope::new_signal_generated(
        "signal-engine",
        None,
        linkage.clone(),
        provenance.clone(),
        SignalGenerated {
            signal_id: "sig-1".to_string(),
            hypothesis_id: None,
            instrument: "ETHUSDT".to_string(),
            timeframe: "4h".to_string(),
            side: SignalSide::Short,
            strength: Binary64 { bits: 0.8f64.to_bits() },
            rationale: None,
        },
    )
    .unwrap();
    let confirmed = EventEnvelope::new_signal_confirmed(
        "risk-engine",
        None,
        linkage,
        provenance,
        SignalConfirmed {
            signal_id: "sig-1".to_string(),
            confirmed_by: "risk-check".to_string(),
            confirmation_reason: None,
            confirmation_score: None,
        },
    )
    .unwrap();
    vec![StoredEvent::from_envelope(generated).unwrap(), StoredEvent::from_envelope(confirmed).unwrap()]
}

#[test]
fn summary_counts_the_log() {
    let summary = build_observability_summary(&events()).unwrap();
    assert_eq!(summary.total_events, 2);
    assert_eq!(summary.total_signals, 1);
    assert_eq!(summary.confirmed_signals, 1);
    assert_eq!(summary.vetoed_signals, 0);
    assert_eq!(summary.total_decisions, 0);
    assert_eq!(summary.total_fills, 0);
    assert_eq!(summary.unique_correlation_ids, 1);
    assert_eq!(
        summary.event_counts_by_type,
        vec![("signal.confirmed".to_string(), 1), ("signal.generated".to_string(), 1)]
    );
    assert_eq!(OperationalSummaryFormat::Markdown.as_str(), "markdown");
}

#[test]
fn replay_appends_and_counts() {
    let mut store = JsonlEventStore::new("memory.jsonl");
    let fixture = ScenarioFixture { name: "test".to_string(), description: None, events: events() };
    let mut harness = ReplayHarness::new(&mut store);
    let result = harness.run_fixture(&fixture).unwrap();
    assert_eq!(result.total_events, 2);
    assert_eq!(result.confirmed_signals_count, 1);
    assert_eq!(result.signal_projections.len(), 1);
    assert_eq!(result.decisions_with_fills_count, 0);
    let again = harness.run_fixture(&fixture).unwrap();
    assert_eq!(again.total_events, 2);
    assert_eq!(available_fixtures().len(), 3);
    match ScenarioError::unknown_fixture("nope") {
        ScenarioError::UnknownFixture(name) => assert_eq!(name, "nope"),
        _ => panic!("expected an unknown fixture"),
    }
}
