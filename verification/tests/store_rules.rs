use twoexcamim::events::{
    Binary64, EventEnvelope, EventType, Linkage, Provenance, SignalConfirmed, SignalGenerated, SignalSide,
    SourceKind,
};
use twoexcamim::execution::{paper_candidate_action, PaperCandidateAction, PaperRiskGuardDecision};
use twoexcamim::materialization::{materialize_decisions, DecisionMaterializationOptions};
use twoexcamim::store::{JsonlEventStore, StoredEvent};

fn linkage(signal_id: &str) -> Linkage {
    Linkage {
        hypothesis_id: None,
        signal_id: Some(signal_id.to_string()),
        decision_id: None,
        order_id: None,
        position_id: None,
        parent_event_id: None,
        correlation_id: None,
    }
}

fn provenance() -> Provenance {
    Provenance {
        source_kind: SourceKind::Derived,
        source_ref: Some("test://rules".to_string()),
        producer_run_id: None,
        actor: None,
        trace_id: None,
        notes: None,
    }
}

fn confirmed(signal_id: &str) -> StoredEvent {
    let envelope = EventEnvelope::new_signal_confirmed(
        "risk-engine",
        Some("BTCUSDT".to_string()),
        linkage(signal_id),
        provenance(),
        SignalConfirmed {
            signal_id: signal_id.to_string(),
            confirmed_by: "risk-check".to_string(),
            confirmation_reason: None,
            confirmation_score: None,
        },
    )
    .unwrap();
    StoredEvent::from_envelope(envelope).unwrap()
}

fn generated_by(producer: &str, signal_id: &str) -> StoredEvent {
    let envelope = EventEnvelope::new_signal_generated(
        producer,
        Some("BTCUSDT".to_string()),
        linkage(signal_id),
        provenance(),
        SignalGenerated {
            signal_id: signal_id.to_string(),
            hypothesis_id: None,
            instrument: "BTCUSDT".to_string(),
            timeframe: "1h".to_string(),
            side: SignalSide::Long,
            strength: Binary64 { bits: 0.5f64.to_bits() },
            rationale: None,
        },
    )
    .unwrap();
    StoredEvent::from_envelope(envelope).unwrap()
}

#[test]
fn batch_append_holds_events_against_the_last_one_under_their_key() {
    let first = generated_by("engine-a", "sig-1");
    let last = generated_by("engine-b", "sig-1");
    assert_eq!(first.idempotency_key, last.idempotency_key);
    let mut store = JsonlEventStore::from_events("memory.jsonl", &vec![1, 3], vec![first.clone(), last.clone()]).unwrap();
    assert_eq!(store.append_events(&vec![last.duplicate()]).unwrap(), 0);
    assert!(store.append_events(&vec![first.duplicate()]).is_err());
    assert!(!store.append_event(&first).unwrap());
    assert!(store.append_event(&last).is_err());
    assert_eq!(store.len(), 2);
}

#[test]
fn event_ids_may_take_every_form_the_uuid_parser_reads() {
    let event = generated_by("engine-a", "sig-1");
    let id = event.event_id.clone();
    let mut braced = event.duplicate();
    braced.event_id = format!("{{{id}}}");
    assert!(braced.validate().is_ok());
    let mut urn = event.duplicate();
    urn.event_id = format!("URN:uuid:{id}");
    assert!(urn.validate().is_ok());
    let mut simple = event.duplicate();
    simple.event_id = id.replace('-', "").to_uppercase();
    assert!(simple.validate().is_ok());
    let mut blank = event.duplicate();
    blank.event_id = "   ".to_string();
    assert_eq!(blank.validate().unwrap_err().to_text(), "invalid store data: event_id cannot be empty");
    let mut wrong = event.duplicate();
    wrong.event_id = "not-a-uuid".to_string();
    assert!(wrong.validate().is_err());
}

#[test]
fn decision_report_counts_add_up_and_notes_quote_the_signal_as_json() {
    let mut store = JsonlEventStore::new("memory.jsonl");
    store.append_event(&generated_by("engine-a", "sig\"1")).unwrap();
    store.append_event(&confirmed("sig\"1")).unwrap();
    store.append_event(&generated_by("engine-a", "sig-2")).unwrap();
    let dry = materialize_decisions(&mut store, DecisionMaterializationOptions { dry_run: true }).unwrap();
    assert_eq!(dry.decisions_materialized, 0);
    assert_eq!(store.len(), 3);
    let report = materialize_decisions(&mut store, DecisionMaterializationOptions { dry_run: false }).unwrap();
    assert_eq!(report.signals_inspected, report.items.len());
    assert_eq!(
        report.eligible + report.blocked + report.inconsistent + report.skipped - report.duplicates,
        report.items.len()
    );
    assert_eq!(report.decisions_materialized, 1);
    assert_eq!(report.items[0].candidate_decision_id.as_deref(), Some("decision-sig\"1"));
    let formed = store.find_by_event_type(EventType::DecisionFormed);
    assert_eq!(formed.len(), 1);
    assert_eq!(
        formed[0].provenance.notes.as_deref(),
        Some("{\"materialization_flow\":\"decision_materialization_flow_v1\",\"signal_id\":\"sig\\\"1\"}")
    );
}

#[test]
fn ready_request_is_blocked_recorded_or_executed() {
    assert_eq!(
        paper_candidate_action(PaperRiskGuardDecision::BlockedMarketExposure, false),
        PaperCandidateAction::Block
    );
    assert_eq!(
        paper_candidate_action(PaperRiskGuardDecision::BlockedMaxOpenPositions, true),
        PaperCandidateAction::Block
    );
    assert_eq!(paper_candidate_action(PaperRiskGuardDecision::Allowed, true), PaperCandidateAction::DryRun);
    assert_eq!(paper_candidate_action(PaperRiskGuardDecision::Allowed, false), PaperCandidateAction::Execute);
}

#[test]
fn a_log_with_a_broken_event_names_its_line() {
    let good = generated_by("engine-a", "sig-1");
    let mut bad = generated_by("engine-a", "sig-2");
    bad.produced_by = " ".to_string();
    let err = match JsonlEventStore::from_events("memory.jsonl", &vec![1, 4], vec![good, bad]) {
        Ok(_) => panic!("a broken event must be refused"),
        Err(e) => e,
    };
    assert_eq!(
        err.to_text(),
        "invalid store data: invalid event at line 4: invalid store data: produced_by cannot be empty"
    );
}

#[test]
fn batch_trace_ids_carry_the_compact_utc_time() {
    let id = twoexcamim::materialization::plan::batch_trace_id("fill-observation-").unwrap();
    let stamp = &id["fill-observation-".len()..];
    assert_eq!(stamp.len(), 20);
    assert_eq!(&stamp[8..9], "T");
    assert!(stamp.ends_with('Z'));
    assert!(stamp[..8].chars().all(|c| c.is_ascii_digit()));
}
