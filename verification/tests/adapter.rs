use std::cell::RefCell;

use chrono::{TimeZone, Utc};
use twoexcamim::events::{Binary64, FillSide, Timestamp};
use twoexcamim::execution::{
    simulate_paper_fill, submit_paper_order_and_map_fill, PaperDecisionRunnerError, PaperExecutionImportDisposition, PaperExecutionRequest,
    PolymarketPaperAdapterError, PolymarketPaperBackend, PolymarketPaperTrade,
    POLYMARKET_PAPER_VENUE,
};

struct MockBackend {
    calls: RefCell<usize>,
    trades: Vec<PolymarketPaperTrade>,
}

impl PolymarketPaperBackend for MockBackend {
    fn execute_and_export_trades(
        &self,
        _request: &PaperExecutionRequest,
    ) -> Result<Vec<PolymarketPaperTrade>, PolymarketPaperAdapterError> {
        *self.calls.borrow_mut() += 1;
        Ok(self.trades.clone())
    }
}

fn bits(x: f64) -> Binary64 {
    Binary64 { bits: x.to_bits() }
}

fn request() -> PaperExecutionRequest {
    PaperExecutionRequest {
        order_id: "ord-1".to_string(),
        decision_id: "dec-1".to_string(),
        market_slug: "will-bitcoin-hit-100k".to_string(),
        outcome: "yes".to_string(),
        side: FillSide::Buy,
        amount_usd: bits(100.0),
        backend_account: "paper-main".to_string(),
        backend_data_dir: "var/polymarket-paper".to_string(),
    }
}

fn trade(backend_trade_id: &str) -> PolymarketPaperTrade {
    let at = Utc.with_ymd_and_hms(2026, 4, 14, 12, 0, 0).unwrap();
    PolymarketPaperTrade {
        backend_trade_id: backend_trade_id.to_string(),
        market_slug: "will-bitcoin-hit-100k".to_string(),
        outcome: "YES".to_string(),
        side: FillSide::Buy,
        shares: bits(200.0),
        avg_price: bits(0.5),
        fee: Some(bits(0.02)),
        slippage_bps: Some(bits(12.0)),
        executed_at: Timestamp { seconds: at.timestamp(), nanos: 0 },
    }
}

#[test]
fn request_to_adapter_call_to_mapped_fill_result() {
    let backend = MockBackend { calls: RefCell::new(0), trades: vec![trade("trade-1")] };

    let report = submit_paper_order_and_map_fill(&backend, &request(), &Vec::new()).unwrap();
    let fill = report.fill_result.unwrap();
    let payload = fill.to_fill_received_payload();

    assert_eq!(*backend.calls.borrow(), 1);
    assert_eq!(fill.backend_trade_id, "trade-1");
    assert_eq!(fill.fill_id, "pm-paper-paper-main-trade-1");
    assert_eq!(payload.fill_id, fill.fill_id);
    assert_eq!(payload.venue, POLYMARKET_PAPER_VENUE);
    assert_eq!(payload.order_id, "ord-1");
    assert_eq!(payload.decision_id.as_deref(), Some("dec-1"));
    assert_eq!(f64::from_bits(payload.quantity.bits), 200.0);
    assert_eq!(f64::from_bits(payload.price.bits), 0.5);
}

#[test]
fn repeated_import_does_not_duplicate_same_backend_trade() {
    let backend = MockBackend { calls: RefCell::new(0), trades: vec![trade("trade-1")] };
    let imported = vec!["trade-1".to_string()];

    let report = submit_paper_order_and_map_fill(&backend, &request(), &imported).unwrap();

    assert_eq!(report.disposition, PaperExecutionImportDisposition::SkippedDuplicate);
    assert_eq!(report.backend_trade_id.as_deref(), Some("trade-1"));
    assert!(report.fill_result.is_none());
}

#[test]
fn mapping_into_canonical_fill_data_is_stable() {
    let backend = MockBackend { calls: RefCell::new(0), trades: vec![trade("trade-1")] };

    let first = submit_paper_order_and_map_fill(&backend, &request(), &Vec::new()).unwrap();
    let second = submit_paper_order_and_map_fill(&backend, &request(), &Vec::new()).unwrap();

    assert_eq!(
        first.fill_result.unwrap().to_fill_received_payload(),
        second.fill_result.unwrap().to_fill_received_payload()
    );
}

#[test]
fn simulation_of_a_refused_request_never_calls_the_backend() {
    let backend = MockBackend { calls: RefCell::new(0), trades: vec![trade("trade-1")] };
    let mut store = twoexcamim::store::JsonlEventStore::new("memory.jsonl");
    let mut bad = request();
    bad.order_id = "  ".to_string();
    match simulate_paper_fill(&mut store, &backend, &bad, false) {
        Err(PaperDecisionRunnerError::Adapter(PolymarketPaperAdapterError::InvalidRequest(m))) => {
            assert_eq!(m, "order_id cannot be empty")
        }
        other => panic!("unexpected outcome: {:?}", other.is_ok()),
    }
    assert_eq!(*backend.calls.borrow(), 0);
    assert_eq!(store.len(), 0);
}

#[test]
fn simulation_without_a_matching_trade_observes_nothing() {
    let mut other = trade("trade-9");
    other.market_slug = "another-market".to_string();
    let backend = MockBackend { calls: RefCell::new(0), trades: vec![other] };
    let mut store = twoexcamim::store::JsonlEventStore::new("memory.jsonl");
    let simulation = simulate_paper_fill(&mut store, &backend, &request(), false).unwrap();
    assert!(simulation.import.fill_result.is_none());
    assert!(simulation.observation.is_none());
    assert_eq!(*backend.calls.borrow(), 1);
    assert_eq!(store.len(), 0);
}
