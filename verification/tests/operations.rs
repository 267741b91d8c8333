use twoexcamim::events::{
    Binary64, FillSide, Linkage, Provenance, SignalConfirmed, SignalGenerated, SignalSide,
    SourceKind, Timestamp, EventEnvelope,
};
use twoexcamim::execution::{PaperBook, PaperFillRecord, PaperOrderStatus, PaperOrderView};
use twoexcamim::materialization::{
    materialize_decisions, materialize_orders, observe_fill, submit_orders,
    DecisionMaterializationOptions, FillObservationOptions, FillObservationRequest,
    OrderMaterializationOptions, OrderSubmissionOptions,
};
use twoexcamim::operations::{
    latest_indices, pipeline_recap, recent_fills, recent_orders, ActivityKey,
    PaperPipelineReport, RECENT_ACTIVITY_LIMIT,
};
use twoexcamim::queries::{
    order_execution_evidence, order_execution_outcome, OrderExecutionEvidence,
    OrderExecutionStatus, OrderLifecycleStatus, QuantityComparison,
};
use twoexcamim::store::{JsonlEventStore, StoredEvent};

fn bits(x: f64) -> Binary64 {
    Binary64 { bits: x.to_bits() }
}

fn at(seconds: i64) -> Timestamp {
    Timestamp { seconds, nanos: 0 }
}

fn provenance() -> Provenance {
    Provenance {
        source_kind: SourceKind::Derived,
        source_ref: Some("test://operations".to_string()),
        producer_run_id: Some("run-1".to_string()),
        actor: Some("tests".to_string()),
        trace_id: Some("trace-1".to_string()),
        notes: None,
    }
}

fn linkage(signal_id: &str) -> Linkage {
    Linkage {
        hypothesis_id: Some("hyp-1".to_string()),
        signal_id: Some(signal_id.to_string()),
        decision_id: None,
        order_id: None,
        position_id: None,
        parent_event_id: None,
        correlation_id: Some(format!("corr-{signal_id}")),
    }
}

fn confirmed_signal(signal_id: &str) -> Vec<StoredEvent> {
    let generated = EventEnvelope::new_signal_generated(
        "signal-engine",
        Some("BTCUSDT".to_string()),
        linkage(signal_id),
        provenance(),
        SignalGenerated {
            signal_id: signal_id.to_string(),
            hypothesis_id: Some("hyp-1".to_string()),
            instrument: "BTCUSDT".to_string(),
            timeframe: "1h".to_string(),
            side: SignalSide::Long,
            strength: bits(0.8),
            rationale: None,
        },
    )
    .unwrap();
    let confirmed = EventEnvelope::new_signal_confirmed(
        "risk-engine",
        Some("BTCUSDT".to_string()),
        linkage(signal_id),
        provenance(),
        SignalConfirmed {
            signal_id: signal_id.to_string(),
            confirmed_by: "risk-check".to_string(),
            confirmation_reason: None,
            confirmation_score: None,
        },
    )
    .unwrap();
    vec![
        StoredEvent::from_envelope(generated).unwrap(),
        StoredEvent::from_envelope(confirmed).unwrap(),
    ]
}

fn filled_store() -> JsonlEventStore {
    let mut store = JsonlEventStore::new("memory.jsonl");
    for event in &confirmed_signal("sig-1") {
        store.append_event(event).unwrap();
    }
    materialize_decisions(&mut store, DecisionMaterializationOptions { dry_run: false }).unwrap();
    materialize_orders(&mut store, OrderMaterializationOptions { dry_run: false }).unwrap();
    submit_orders(&mut store, OrderSubmissionOptions { dry_run: false }).unwrap();
    let request = FillObservationRequest {
        fill_id: "fill-1".to_string(),
        order_id: "order-decision-sig-1".to_string(),
        decision_id: None,
        instrument: None,
        side: FillSide::Buy,
        quantity: bits(1.5),
        price: bits(101.0),
        venue: None,
        executed_at: at(1_775_000_000),
    };
    observe_fill(&mut store, &request, FillObservationOptions { dry_run: false }).unwrap();
    store
}

fn evidence(refs: &[&str], status: OrderLifecycleStatus, ordered: Option<f64>, fills: usize) -> OrderExecutionEvidence {
    OrderExecutionEvidence {
        order_id: "ord-1".to_string(),
        lifecycle_status: status,
        decision_refs: refs.iter().map(|r| r.to_string()).collect(),
        lifecycle_notes: vec!["lifecycle note".to_string()],
        decision_found: true,
        ordered_quantity: ordered.map(bits),
        fills: (0..fills).map(|_| (bits(1.0), bits(2.0))).collect(),
    }
}

#[test]
fn execution_evidence_follows_the_log() {
    let store = filled_store();
    let events = store.read_all();
    let ev = order_execution_evidence(&events, "order-decision-sig-1").unwrap().unwrap();
    assert_eq!(ev.decision_refs, vec!["decision-sig-1".to_string()]);
    assert!(ev.decision_found);
    assert_eq!(ev.ordered_quantity, None);
    assert_eq!(ev.fills, vec![(bits(1.5), bits(101.0))]);

    let outcome = order_execution_outcome(&ev, QuantityComparison::Matches);
    assert_eq!(outcome.status, OrderExecutionStatus::TargetQuantityUnknown);
    assert_eq!(outcome.status.as_str(), "target_quantity_unknown");
    assert_eq!(outcome.decision_id.as_deref(), Some("decision-sig-1"));
    assert_eq!(
        outcome.reasons,
        vec!["ObservedFillCount(1)".to_string(), "MissingOrderedQuantity".to_string()]
    );
    assert!(outcome
        .notes
        .contains(&"decision decision-sig-1 has no size_hint in the current log".to_string()));
    let mut sorted = outcome.notes.clone();
    sorted.sort();
    sorted.dedup();
    assert_eq!(sorted, outcome.notes);
}

#[test]
fn execution_evidence_of_an_unknown_order_is_absent() {
    let store = filled_store();
    let events = store.read_all();
    assert!(order_execution_evidence(&events, "order-missing").unwrap().is_none());
}

#[test]
fn several_decision_references_make_the_execution_inconsistent() {
    let ev = evidence(&["dec-1", "dec-2"], OrderLifecycleStatus::ObservedWithFills, Some(2.0), 1);
    let outcome = order_execution_outcome(&ev, QuantityComparison::Matches);
    assert_eq!(outcome.status, OrderExecutionStatus::Inconsistent);
    assert_eq!(outcome.decision_id, None);
    assert!(!outcome.ordered_quantity_reported);
    assert_eq!(
        outcome.reasons,
        vec!["ObservedFillCount(1)".to_string(), "MultipleDecisionReferences".to_string()]
    );
    assert_eq!(
        outcome.notes,
        vec![
            "execution reconciliation requires a single decision reference for one local order"
                .to_string(),
            "lifecycle note".to_string(),
        ]
    );
}

#[test]
fn weak_lifecycle_makes_the_execution_inconsistent() {
    let ev = evidence(&["dec-1"], OrderLifecycleStatus::Weak, Some(2.0), 0);
    let outcome = order_execution_outcome(&ev, QuantityComparison::Below);
    assert_eq!(outcome.status, OrderExecutionStatus::Inconsistent);
    assert_eq!(outcome.reasons, vec!["Lifecycle::Weak".to_string()]);
    assert!(outcome.ordered_quantity_reported);
    assert_eq!(outcome.decision_id.as_deref(), Some("dec-1"));
}

#[test]
fn quantities_decide_partial_full_and_over_fills() {
    let ev = evidence(&["dec-1"], OrderLifecycleStatus::ObservedWithFills, Some(2.0), 2);
    let above = order_execution_outcome(&ev, QuantityComparison::Above);
    assert_eq!(above.status, OrderExecutionStatus::Overfilled);
    assert_eq!(above.reasons[1], "ObservedQuantityExceedsOrderedQuantity");
    assert_eq!(above.reasons[0], "ObservedFillCount(2)");
    let matches = order_execution_outcome(&ev, QuantityComparison::Matches);
    assert_eq!(matches.status, OrderExecutionStatus::FullyFilled);
    assert_eq!(matches.notes, vec!["lifecycle note".to_string()]);
    let below = order_execution_outcome(&ev, QuantityComparison::Below);
    assert_eq!(below.status, OrderExecutionStatus::PartiallyFilled);

    let none = evidence(&["dec-1"], OrderLifecycleStatus::Submitted, Some(2.0), 0);
    let waiting = order_execution_outcome(&none, QuantityComparison::Matches);
    assert_eq!(waiting.status, OrderExecutionStatus::SubmittedWithoutFills);
    assert_eq!(waiting.reasons, vec!["NoObservedFills".to_string()]);
}

fn order(id: &str, registered: Option<i64>, submitted: Option<i64>) -> PaperOrderView {
    PaperOrderView {
        order_id: id.to_string(),
        decision_id: None,
        signal_id: None,
        instrument: "market".to_string(),
        venue: "polymarket_paper".to_string(),
        status: if submitted.is_some() { PaperOrderStatus::Submitted } else { PaperOrderStatus::Registered },
        registered_at: registered.map(at),
        submitted_at: submitted.map(at),
        fill_count: 0,
    }
}

fn fill(id: &str, executed: i64) -> PaperFillRecord {
    PaperFillRecord {
        fill_id: id.to_string(),
        order_id: "ord".to_string(),
        decision_id: None,
        signal_id: None,
        instrument: "market".to_string(),
        outcome: "yes".to_string(),
        side: FillSide::Buy,
        quantity: bits(1.0),
        price: bits(0.5),
        venue: "polymarket_paper".to_string(),
        executed_at: at(executed),
    }
}

#[test]
fn recent_orders_list_the_latest_activity_first() {
    let book = PaperBook {
        orders: vec![
            order("ord-a", Some(10), None),
            order("ord-b", Some(5), Some(30)),
            order("ord-c", None, None),
            order("ord-d", Some(30), None),
        ],
        fills: Vec::new(),
        backend_accounts_seen: Vec::new(),
    };
    let recent = recent_orders(&book);
    let ids: Vec<&str> = recent.iter().map(|o| o.order_id.as_str()).collect();
    assert_eq!(ids, vec!["ord-b", "ord-d", "ord-a", "ord-c"]);
    assert_eq!(recent[0].status, "Submitted");
    assert_eq!(recent[2].status, "Registered");
}

#[test]
fn recent_activity_keeps_only_the_limit() {
    let orders: Vec<PaperOrderView> =
        (0..12).map(|i| order(&format!("ord-{i:02}"), Some(i), None)).collect();
    let fills: Vec<PaperFillRecord> = (0..10).map(|i| fill(&format!("fill-{i:02}"), 100 - i)).collect();
    let book = PaperBook { orders, fills, backend_accounts_seen: Vec::new() };
    let recent = recent_orders(&book);
    assert_eq!(recent.len(), RECENT_ACTIVITY_LIMIT);
    assert_eq!(recent[0].order_id, "ord-11");
    assert_eq!(recent[7].order_id, "ord-04");
    let latest = recent_fills(&book);
    assert_eq!(latest.len(), 8);
    assert_eq!(latest[0].fill_id, "fill-00");
    assert_eq!(latest[7].fill_id, "fill-07");
}

#[test]
fn ties_in_activity_go_by_identifier() {
    let keys = vec![
        ActivityKey { at: Some(at(7)), id: "b".to_string() },
        ActivityKey { at: Some(at(7)), id: "a".to_string() },
        ActivityKey { at: None, id: "c".to_string() },
    ];
    assert_eq!(latest_indices(&keys, 2), vec![1, 0]);
    assert_eq!(latest_indices(&keys, 5), vec![1, 0, 2]);
    assert_eq!(latest_indices(&keys, 0), Vec::<usize>::new());
}

#[test]
fn pipeline_recap_reports_the_counts_of_a_run() {
    let report = PaperPipelineReport {
        dry_run: false,
        stages: vec!["load_existing_signals".to_string()],
        signals_seen: 2,
        signals_generated: 0,
        signals_confirmed: 1,
        execution_requests_sent: 1,
        fills_persisted: 1,
        blocked_by_risk: 0,
        open_positions: 1,
        total_notional_spent: bits(4.0),
        total_notional_received: bits(0.0),
        readiness_states_materialized: None,
    };
    let recap = pipeline_recap(Some(&report));
    assert!(recap.report_available);
    assert_eq!(recap.signals_seen, Some(2));
    assert_eq!(recap.fills_persisted, Some(1));
    assert_eq!(recap.blocked_by_risk, Some(0));
    let missing = pipeline_recap(None);
    assert!(!missing.report_available);
    assert_eq!(missing.signals_seen, None);
}
