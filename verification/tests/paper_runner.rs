use std::cell::RefCell;

use twoexcamim::events::{
    Binary64, EventEnvelope, FillSide, Linkage, Provenance, SignalConfirmed, SignalGenerated,
    SignalSide, SourceKind, Timestamp,
};
use twoexcamim::execution::{
    confirmed_signal_candidates, dry_run_item, executed_signal_ids, execute_paper_candidate,
    paper_book, plan_paper_candidate, PaperCandidatePlan, PaperDecisionRunConfig,
    PaperDecisionRunDisposition, PaperExecutionRequest, PaperOrderStatus,
    PolymarketPaperAdapterError, PolymarketPaperBackend, PolymarketPaperTrade,
};
use twoexcamim::store::{JsonlEventStore, StoredEvent};

fn provenance() -> Provenance {
    Provenance {
        source_kind: SourceKind::Derived,
        source_ref: None,
        producer_run_id: None,
        actor: Some("tests".to_string()),
        trace_id: None,
        notes: None,
    }
}

fn linkage(signal_id: &str) -> Linkage {
    Linkage {
        hypothesis_id: None,
        signal_id: Some(signal_id.to_string()),
        decision_id: None,
        order_id: None,
        position_id: None,
        parent_event_id: None,
        correlation_id: Some(format!("corr-{signal_id}")),
    }
}

fn signal(signal_id: &str, market: &str, side: SignalSide) -> Vec<StoredEvent> {
    let generated = EventEnvelope::new_signal_generated(
        "signal-engine",
        Some(market.to_string()),
        linkage(signal_id),
        provenance(),
        SignalGenerated {
            signal_id: signal_id.to_string(),
            hypothesis_id: None,
            instrument: format!("polymarket:{market}"),
            timeframe: "1h".to_string(),
            side,
            strength: Binary64 { bits: 0.7f64.to_bits() },
            rationale: None,
        },
    )
    .unwrap();
    let confirmed = EventEnvelope::new_signal_confirmed(
        "risk-engine",
        Some(market.to_string()),
        linkage(signal_id),
        provenance(),
        SignalConfirmed {
            signal_id: signal_id.to_string(),
            confirmed_by: "risk-check".to_string(),
            confirmation_reason: None,
            confirmation_score: None,
        },
    )
    .unwrap();
    vec![StoredEvent::from_envelope(generated).unwrap(), StoredEvent::from_envelope(confirmed).unwrap()]
}

struct FixedBackend {
    calls: RefCell<usize>,
}

impl PolymarketPaperBackend for FixedBackend {
    fn execute_and_export_trades(
        &self,
        request: &PaperExecutionRequest,
    ) -> Result<Vec<PolymarketPaperTrade>, PolymarketPaperAdapterError> {
        *self.calls.borrow_mut() += 1;
        Ok(vec![PolymarketPaperTrade {
            backend_trade_id: "trade-1".to_string(),
            market_slug: request.market_slug.clone(),
            outcome: request.outcome.to_uppercase(),
            side: request.side,
            shares: Binary64 { bits: 20.0f64.to_bits() },
            avg_price: Binary64 { bits: 0.5f64.to_bits() },
            fee: None,
            slippage_bps: None,
            executed_at: Timestamp { seconds: 1_775_000_000, nanos: 5 },
        }])
    }
}

#[test]
fn confirmed_signals_are_candidates_in_order_of_generation() {
    let mut events = signal("sig-b", "market-b", SignalSide::Long);
    events.extend(signal("sig-a", "market-a", SignalSide::Short));
    let mut store = JsonlEventStore::new("memory.jsonl");
    store.append_events(&events).unwrap();
    let candidates = confirmed_signal_candidates(&store.read_all()).unwrap();
    assert_eq!(candidates.len(), 2);
    assert!(!candidates[1].generated_at.is_before(&candidates[0].generated_at));
    let markets: Vec<&str> = candidates.iter().map(|c| c.market_slug.as_str()).collect();
    assert!(markets.contains(&"market-a") && markets.contains(&"market-b"));
}

#[test]
fn a_paper_run_step_executes_then_skips() {
    let mut store = JsonlEventStore::new("memory.jsonl");
    store.append_events(&signal("sig-1", "market-1", SignalSide::Long)).unwrap();
    let config = PaperDecisionRunConfig::default();
    let candidates = confirmed_signal_candidates(&store.read_all()).unwrap();
    assert_eq!(candidates.len(), 1);
    let candidate = &candidates[0];
    assert_eq!(candidate.market_slug, "market-1");
    let executed = executed_signal_ids(&store.read_all()).unwrap();
    assert!(executed.is_empty());

    let request = match plan_paper_candidate(&store, candidate, &executed, &config).unwrap() {
        PaperCandidatePlan::Ready(request) => request,
        PaperCandidatePlan::Settled(item) => panic!("unexpected settled item {:?}", item.reasons),
    };
    assert_eq!(request.order_id, "pm-paper-order-yes-sig-1");
    assert_eq!(request.decision_id, "paper-decision-sig-1");
    let dry = dry_run_item(candidate, &request);
    assert_eq!(dry.disposition, PaperDecisionRunDisposition::Eligible);

    let backend = FixedBackend { calls: RefCell::new(0) };
    let item = execute_paper_candidate(&mut store, &backend, candidate, &request).unwrap();
    assert_eq!(*backend.calls.borrow(), 1);
    assert_eq!(item.disposition, PaperDecisionRunDisposition::Executed);
    assert!(item.execution_request_sent);
    assert!(item.persisted);
    assert_eq!(item.fill_id.as_deref(), Some("pm-paper-default-trade-1"));
    assert_eq!(item.backend_trade_id.as_deref(), Some("trade-1"));

    let book = paper_book(&store.read_all()).unwrap();
    assert_eq!(book.orders.len(), 1);
    assert_eq!(book.orders[0].order_id, "pm-paper-order-yes-sig-1");
    assert_eq!(book.orders[0].status, PaperOrderStatus::Filled);
    assert_eq!(book.orders[0].fill_count, 1);
    assert_eq!(book.orders[0].decision_id.as_deref(), Some("paper-decision-sig-1"));
    assert_eq!(book.fills.len(), 1);
    assert_eq!(book.fills[0].outcome, "yes");
    assert_eq!(book.fills[0].side, FillSide::Buy);
    assert_eq!(book.backend_accounts_seen, vec!["default-trade".to_string()]);

    let executed = executed_signal_ids(&store.read_all()).unwrap();
    assert_eq!(executed, vec!["sig-1".to_string()]);
    match plan_paper_candidate(&store, candidate, &executed, &config).unwrap() {
        PaperCandidatePlan::Settled(item) => {
            assert_eq!(item.disposition, PaperDecisionRunDisposition::SkippedAlreadyExecuted);
            assert_eq!(item.reasons, vec!["SignalAlreadyHasPaperFill".to_string()]);
        },
        PaperCandidatePlan::Ready(_) => panic!("an executed signal must be skipped"),
    }
}

#[test]
fn flat_signals_are_unsupported() {
    let mut store = JsonlEventStore::new("memory.jsonl");
    store.append_events(&signal("sig-flat", "market-1", SignalSide::Flat)).unwrap();
    let candidates = confirmed_signal_candidates(&store.read_all()).unwrap();
    match plan_paper_candidate(&store, &candidates[0], &Vec::new(), &PaperDecisionRunConfig::default()).unwrap() {
        PaperCandidatePlan::Settled(item) => {
            assert_eq!(item.disposition, PaperDecisionRunDisposition::SkippedUnsupported);
            assert_eq!(item.reasons, vec!["UnsupportedSignalSide(Flat)".to_string()]);
        },
        PaperCandidatePlan::Ready(_) => panic!("a flat signal has no paper order"),
    }
}
