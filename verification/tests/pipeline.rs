use twoexcamim::events::{
    Binary64, DecisionAction, DecisionFormed, EventEnvelope, EventType, FillReceived, FillSide,
    Linkage, Provenance, SignalConfirmed, SignalGenerated, SignalSide, SourceKind, Timestamp,
    VetoRaised, VetoScope,
};
use twoexcamim::materialization::{
    materialize_decisions, materialize_orders, observe_fill, submit_orders,
    DecisionMaterializationDisposition, DecisionMaterializationOptions, FillObservationDisposition,
    FillObservationOptions, FillObservationRequest, MaterializationError,
    OrderMaterializationDisposition, OrderMaterializationOptions, OrderSubmissionDisposition,
    OrderSubmissionOptions,
};
use twoexcamim::queries::{
    PromotionNextStep, PromotionPolicyStatus, QueryService, SignalReadinessStatus,
};
use twoexcamim::store::{JsonlEventStore, StoredEvent};

fn provenance() -> Provenance {
    Provenance {
        source_kind: SourceKind::Derived,
        source_ref: Some("test://pipeline".to_string()),
        producer_run_id: Some("run-1".to_string()),
        actor: Some("tests".to_string()),
        trace_id: Some("trace-1".to_string()),
        notes: None,
    }
}

fn signal_linkage(signal_id: &str) -> Linkage {
    Linkage {
        hypothesis_id: Some("hyp-1".to_string()),
        signal_id: Some(signal_id.to_string()),
        decision_id: None,
        order_id: None,
        position_id: None,
        parent_event_id: None,
        correlation_id: Some(format!("corr-{signal_id}")),
    }
}

fn generated(signal_id: &str) -> StoredEvent {
    let envelope = EventEnvelope::new_signal_generated(
        "signal-engine",
        Some("BTCUSDT".to_string()),
        signal_linkage(signal_id),
        provenance(),
        SignalGenerated {
            signal_id: signal_id.to_string(),
            hypothesis_id: Some("hyp-1".to_string()),
            instrument: "BTCUSDT".to_string(),
            timeframe: "1h".to_string(),
            side: SignalSide::Long,
            strength: Binary64 { bits: 0.8f64.to_bits() },
            rationale: Some("test".to_string()),
        },
    )
    .unwrap();
    StoredEvent::from_envelope(envelope).unwrap()
}

fn confirmed(signal_id: &str) -> StoredEvent {
    let envelope = EventEnvelope::new_signal_confirmed(
        "risk-engine",
        Some("BTCUSDT".to_string()),
        signal_linkage(signal_id),
        provenance(),
        SignalConfirmed {
            signal_id: signal_id.to_string(),
            confirmed_by: "risk-check".to_string(),
            confirmation_reason: Some("validated".to_string()),
            confirmation_score: Some(Binary64 { bits: 0.9f64.to_bits() }),
        },
    )
    .unwrap();
    StoredEvent::from_envelope(envelope).unwrap()
}

fn vetoed(signal_id: &str) -> StoredEvent {
    let envelope = EventEnvelope::new_veto_raised(
        "risk-engine",
        Some("BTCUSDT".to_string()),
        signal_linkage(signal_id),
        provenance(),
        VetoRaised {
            veto_id: format!("veto-{signal_id}"),
            scope: VetoScope::Signal,
            target_id: signal_id.to_string(),
            reason_code: "risk_limit".to_string(),
            reason_text: None,
            raised_by: "risk-engine".to_string(),
        },
    )
    .unwrap();
    StoredEvent::from_envelope(envelope).unwrap()
}

fn store_with(events: Vec<StoredEvent>) -> JsonlEventStore {
    let mut store = JsonlEventStore::new("memory.jsonl");
    for event in &events {
        store.append_event(event).unwrap();
    }
    store
}

#[test]
fn appending_the_same_event_twice_writes_it_once() {
    let event = generated("sig-1");
    let mut store = JsonlEventStore::new("memory.jsonl");
    assert!(store.append_event(&event).unwrap());
    assert!(!store.append_event(&event).unwrap());
    assert_eq!(store.len(), 1);
    assert!(store.exists_by_idempotency_key("signal.generated:v1:sig-1"));
}

#[test]
fn blank_producer_is_refused() {
    let result = EventEnvelope::new_signal_generated(
        "   ",
        None,
        signal_linkage("sig-1"),
        provenance(),
        SignalGenerated {
            signal_id: "sig-1".to_string(),
            hypothesis_id: None,
            instrument: "BTCUSDT".to_string(),
            timeframe: "1h".to_string(),
            side: SignalSide::Long,
            strength: Binary64 { bits: 0.5f64.to_bits() },
            rationale: None,
        },
    );
    let error = result.err().unwrap();
    assert_eq!(error.to_text(), "validation error: produced_by cannot be empty");
}

#[test]
fn strength_outside_the_unit_interval_is_refused() {
    let result = EventEnvelope::new_signal_generated(
        "signal-engine",
        None,
        signal_linkage("sig-1"),
        provenance(),
        SignalGenerated {
            signal_id: "sig-1".to_string(),
            hypothesis_id: None,
            instrument: "BTCUSDT".to_string(),
            timeframe: "1h".to_string(),
            side: SignalSide::Long,
            strength: Binary64 { bits: 1.5f64.to_bits() },
            rationale: None,
        },
    );
    assert!(result.is_err());
}

#[test]
fn confirmed_signal_is_ready_and_eligible_for_a_decision() {
    let store = store_with(vec![generated("sig-1"), confirmed("sig-1")]);
    let service = QueryService::new(&store);
    let readiness = service.signal_readiness("sig-1").unwrap().unwrap();
    assert_eq!(readiness.status, SignalReadinessStatus::ReadyForDecision);
    let policy = service.signal_promotion_policy("sig-1").unwrap().unwrap();
    assert_eq!(policy.status, PromotionPolicyStatus::Eligible);
    assert_eq!(policy.next_step, Some(PromotionNextStep::FormDecision));
    assert!(service.signal_readiness("sig-unknown").unwrap().is_none());
}

#[test]
fn unconfirmed_signal_waits_for_confirmation() {
    let store = store_with(vec![generated("sig-1")]);
    let service = QueryService::new(&store);
    let readiness = service.signal_readiness("sig-1").unwrap().unwrap();
    assert_eq!(readiness.status, SignalReadinessStatus::GeneratedUnconfirmed);
}

#[test]
fn vetoed_signal_is_blocked() {
    let store = store_with(vec![generated("sig-1"), confirmed("sig-1"), vetoed("sig-1")]);
    let service = QueryService::new(&store);
    let readiness = service.signal_readiness("sig-1").unwrap().unwrap();
    assert_eq!(readiness.status, SignalReadinessStatus::BlockedByVeto);
    let policy = service.signal_promotion_policy("sig-1").unwrap().unwrap();
    assert_eq!(policy.status, PromotionPolicyStatus::Blocked);
    assert_eq!(policy.next_step, None);
}

#[test]
fn projections_follow_the_log() {
    let store = store_with(vec![generated("sig-1"), confirmed("sig-1"), generated("sig-2"), vetoed("sig-2")]);
    let service = QueryService::new(&store);
    let all = service.all_signal_projections().unwrap();
    assert_eq!(all.len(), 2);
    assert_eq!(all[0].signal_id, "sig-1");
    assert!(all[0].confirmed);
    assert!(!all[0].vetoed);
    assert!(all[1].vetoed);
    assert_eq!(service.confirmed_signals().unwrap().len(), 1);
    assert_eq!(service.vetoed_signals().unwrap().len(), 1);
    let timeline = service.timeline_for_correlation("corr-sig-2").unwrap();
    assert_eq!(timeline.len(), 2);
}

#[test]
fn decision_flow_forms_one_decision_per_ready_signal() {
    let mut store = store_with(vec![generated("sig-1"), confirmed("sig-1"), generated("sig-2")]);
    let dry = materialize_decisions(&mut store, DecisionMaterializationOptions { dry_run: true }).unwrap();
    assert_eq!(store.len(), 3);
    assert_eq!(dry.signals_inspected, 2);
    assert_eq!(dry.eligible, 1);
    assert_eq!(dry.items[0].disposition, DecisionMaterializationDisposition::Eligible);
    assert_eq!(dry.items[1].disposition, DecisionMaterializationDisposition::Skipped);
    assert!(dry.batch_trace_id.starts_with("decision-materialization-"));

    let report = materialize_decisions(&mut store, DecisionMaterializationOptions { dry_run: false }).unwrap();
    assert_eq!(report.decisions_materialized, 1);
    assert_eq!(report.items[0].disposition, DecisionMaterializationDisposition::Materialized);
    assert_eq!(report.items[0].candidate_decision_id.as_deref(), Some("decision-sig-1"));
    assert!(report.items[0].persisted);
    assert_eq!(store.len(), 4);
    let formed = store.find_by_event_type(EventType::DecisionFormed);
    assert_eq!(formed.len(), 1);
    assert_eq!(formed[0].produced_by, "runtime.decision_materialization");

    let again = materialize_decisions(&mut store, DecisionMaterializationOptions { dry_run: false }).unwrap();
    assert_eq!(again.decisions_materialized, 0);
    assert_eq!(again.items[0].disposition, DecisionMaterializationDisposition::Skipped);
    assert_eq!(again.items[0].reasons[0], "ExistingDecisionIds(decision-sig-1)");
    assert_eq!(store.len(), 4);
}

#[test]
fn order_flow_then_submission_then_fill_observation() {
    let mut store = store_with(vec![generated("sig-1"), confirmed("sig-1")]);
    materialize_decisions(&mut store, DecisionMaterializationOptions { dry_run: false }).unwrap();

    let orders = materialize_orders(&mut store, OrderMaterializationOptions { dry_run: false }).unwrap();
    assert_eq!(orders.decisions_inspected, 1);
    assert_eq!(orders.items[0].decision_id, "decision-sig-1");
    assert_eq!(orders.items[0].candidate_order_id.as_deref(), Some("order-decision-sig-1"));
    assert_eq!(orders.items[0].disposition, OrderMaterializationDisposition::Materialized);
    assert_eq!(orders.orders_registered, 1);
    let registered = store.find_by_event_type(EventType::OrderRegistered);
    assert_eq!(registered.len(), 1);

    let again = materialize_orders(&mut store, OrderMaterializationOptions { dry_run: false }).unwrap();
    assert_eq!(again.items[0].disposition, OrderMaterializationDisposition::Skipped);
    assert_eq!(again.items[0].reasons[0], "ExistingOrderIds(order-decision-sig-1)");

    let submission = submit_orders(&mut store, OrderSubmissionOptions { dry_run: false }).unwrap();
    assert_eq!(submission.orders_inspected, 1);
    assert_eq!(submission.items[0].order_id, "order-decision-sig-1");
    assert_eq!(submission.items[0].disposition, OrderSubmissionDisposition::Submitted);
    assert_eq!(submission.submitted, 1);
    assert_eq!(store.find_by_event_type(EventType::OrderSubmitted).len(), 1);

    let request = FillObservationRequest {
        fill_id: "fill-1".to_string(),
        order_id: "order-decision-sig-1".to_string(),
        decision_id: None,
        instrument: None,
        side: FillSide::Buy,
        quantity: Binary64 { bits: 1.5f64.to_bits() },
        price: Binary64 { bits: 101.0f64.to_bits() },
        venue: None,
        executed_at: Timestamp { seconds: 1_775_000_000, nanos: 0 },
    };
    let dry = observe_fill(&mut store, &request, FillObservationOptions { dry_run: true }).unwrap();
    assert_eq!(dry.disposition, FillObservationDisposition::Eligible);
    assert!(!dry.persisted);
    let observed = observe_fill(&mut store, &request, FillObservationOptions { dry_run: false }).unwrap();
    assert_eq!(observed.disposition, FillObservationDisposition::Observed);
    assert!(observed.persisted);
    assert_eq!(observed.resolved_decision_id.as_deref(), Some("decision-sig-1"));
    assert_eq!(observed.resolved_venue, "paper");
    assert_eq!(observed.resolved_instrument, "BTCUSDT");
    let duplicate = observe_fill(&mut store, &request, FillObservationOptions { dry_run: false }).unwrap();
    assert!(duplicate.duplicate);
    assert_eq!(duplicate.reasons[0], "DuplicateFillObservation");
}

#[test]
fn fill_for_an_unknown_order_is_refused() {
    let mut store = store_with(vec![generated("sig-1")]);
    let request = FillObservationRequest {
        fill_id: "fill-1".to_string(),
        order_id: "order-x".to_string(),
        decision_id: None,
        instrument: None,
        side: FillSide::Buy,
        quantity: Binary64 { bits: 1.0f64.to_bits() },
        price: Binary64 { bits: 1.0f64.to_bits() },
        venue: None,
        executed_at: Timestamp { seconds: 1_775_000_000, nanos: 0 },
    };
    match observe_fill(&mut store, &request, FillObservationOptions { dry_run: false }) {
        Err(MaterializationError::InvalidState(message)) => {
            assert_eq!(message, "order order-x is not visible in local lifecycle")
        },
        other => panic!("unexpected outcome: {:?}", other.is_ok()),
    }
}

#[test]
fn decision_projections_count_fills() {
    let decision = EventEnvelope::new_decision_formed(
        "decision-engine",
        Some("BTCUSDT".to_string()),
        Linkage {
            hypothesis_id: None,
            signal_id: Some("sig-1".to_string()),
            decision_id: Some("dec-1".to_string()),
            order_id: None,
            position_id: None,
            parent_event_id: None,
            correlation_id: Some("corr-1".to_string()),
        },
        provenance(),
        DecisionFormed {
            decision_id: "dec-1".to_string(),
            instrument: "BTCUSDT".to_string(),
            action: DecisionAction::Enter,
            side: Some(SignalSide::Long),
            size_hint: None,
            rationale: None,
        },
    )
    .unwrap();
    let fill = EventEnvelope::new_fill_received(
        "execution-gateway",
        Some("BTCUSDT".to_string()),
        Linkage {
            hypothesis_id: None,
            signal_id: Some("sig-1".to_string()),
            decision_id: Some("dec-1".to_string()),
            order_id: Some("ord-1".to_string()),
            position_id: None,
            parent_event_id: None,
            correlation_id: Some("corr-1".to_string()),
        },
        provenance(),
        FillReceived {
            fill_id: "fill-1".to_string(),
            decision_id: Some("dec-1".to_string()),
            order_id: "ord-1".to_string(),
            instrument: "BTCUSDT".to_string(),
            side: FillSide::Buy,
            quantity: Binary64 { bits: 2.0f64.to_bits() },
            price: Binary64 { bits: 100.0f64.to_bits() },
            venue: "binance".to_string(),
            executed_at: Timestamp { seconds: 1_775_000_000, nanos: 0 },
        },
    )
    .unwrap();
    let store = store_with(vec![
        StoredEvent::from_envelope(decision).unwrap(),
        StoredEvent::from_envelope(fill).unwrap(),
    ]);
    let service = QueryService::new(&store);
    let projection = service.decision_projection("dec-1").unwrap().unwrap();
    assert!(projection.formed);
    assert_eq!(projection.fills_count, 1);
    assert_eq!(projection.order_ids, vec!["ord-1".to_string()]);
    assert_eq!(projection.fill_amounts.len(), 1);
    assert_eq!(projection.last_event_type, EventType::FillReceived);
    assert_eq!(service.decisions_with_fills().unwrap().len(), 1);
    assert_eq!(service.decisions_without_fills().unwrap().len(), 0);
    assert!(service.decision_projection("dec-2").unwrap().is_none());
}
