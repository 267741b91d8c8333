use twoexcamim::events::{Binary64, FillSide, SignalSide, Timestamp};
use twoexcamim::execution::{
    evaluate_paper_risk_checks, map_backend_trades, paper_order_side, paper_run_report,
    signal_id_from_paper_order_id, submit_paper_order_and_map_fill, build_paper_decision_id,
    build_paper_order_id, validate_config, PaperDecisionRunConfig, PaperDecisionRunnerError,
    PaperExecutionImportDisposition, PaperExecutionRequest, PaperRiskFacts, PaperRiskGuardConfig,
    PaperRiskGuardDecision, PolymarketPaperAdapterError, PolymarketPaperBackend,
    PolymarketPaperTrade, POLYMARKET_PAPER_VENUE,
};
use std::cell::RefCell;

fn request() -> PaperExecutionRequest {
    PaperExecutionRequest {
        order_id: "ord-1".to_string(),
        decision_id: "dec-1".to_string(),
        market_slug: "market-1".to_string(),
        outcome: "yes".to_string(),
        side: FillSide::Buy,
        amount_usd: Binary64 { bits: 10.0f64.to_bits() },
        backend_account: "paper-main".to_string(),
        backend_data_dir: "var/paper".to_string(),
    }
}

fn trade(id: &str, market: &str, outcome: &str, seconds: i64) -> PolymarketPaperTrade {
    PolymarketPaperTrade {
        backend_trade_id: id.to_string(),
        market_slug: market.to_string(),
        outcome: outcome.to_string(),
        side: FillSide::Buy,
        shares: Binary64 { bits: 20.0f64.to_bits() },
        avg_price: Binary64 { bits: 0.5f64.to_bits() },
        fee: None,
        slippage_bps: None,
        executed_at: Timestamp { seconds, nanos: 0 },
    }
}

struct MockBackend {
    calls: RefCell<usize>,
    trades: Vec<PolymarketPaperTrade>,
}

impl PolymarketPaperBackend for MockBackend {
    fn execute_and_export_trades(
        &self,
        _request: &PaperExecutionRequest,
    ) -> Result<Vec<PolymarketPaperTrade>, PolymarketPaperAdapterError> {
        *self.calls.borrow_mut() += 1;
        Ok(self.trades.clone())
    }
}

#[test]
fn imports_the_latest_matching_trade() {
    let trades = vec![
        trade("t-1", "market-1", "YES", 100),
        trade("t-2", "market-1", "yes", 200),
        trade("t-3", "market-2", "yes", 300),
        trade("t-4", "market-1", "no", 400),
    ];
    let report = map_backend_trades(&trades, &request(), &Vec::new());
    assert_eq!(report.disposition, PaperExecutionImportDisposition::Imported);
    assert_eq!(report.backend_trade_id.as_deref(), Some("t-2"));
    let fill = report.fill_result.unwrap();
    assert_eq!(fill.fill_id, "pm-paper-paper-main-t-2");
    assert_eq!(fill.order_id, "ord-1");
    assert_eq!(fill.instrument, "market-1");
    let payload = fill.to_fill_received_payload();
    assert_eq!(payload.venue, POLYMARKET_PAPER_VENUE);
    assert_eq!(payload.decision_id.as_deref(), Some("dec-1"));
    let observation = fill.to_fill_observation_request();
    assert_eq!(observation.venue.as_deref(), Some("polymarket-paper"));
}

#[test]
fn already_imported_trade_is_skipped() {
    let trades = vec![trade("t-1", "market-1", "yes", 100)];
    let report = map_backend_trades(&trades, &request(), &vec!["t-1".to_string()]);
    assert_eq!(report.disposition, PaperExecutionImportDisposition::SkippedDuplicate);
    assert_eq!(report.backend_trade_id.as_deref(), Some("t-1"));
    assert!(report.fill_result.is_none());
    assert_eq!(report.notes, vec!["backend trade was already imported".to_string()]);
}

#[test]
fn no_matching_trade_is_reported() {
    let report = map_backend_trades(&vec![trade("t-1", "market-9", "yes", 1)], &request(), &Vec::new());
    assert_eq!(report.disposition, PaperExecutionImportDisposition::NoMatchingTrade);
    assert_eq!(report.notes, vec!["backend export contained no matching trade".to_string()]);
}

#[test]
fn trade_identifiers_are_cleaned_into_the_fill_id() {
    let trades = vec![trade("t/1 x", "market-1", "yes", 1)];
    let mut req = request();
    req.backend_account = "acct.main".to_string();
    let report = map_backend_trades(&trades, &req, &Vec::new());
    assert_eq!(report.fill_result.unwrap().fill_id, "pm-paper-acct-main-t-1-x");
}

#[test]
fn invalid_request_never_reaches_the_backend() {
    let backend = MockBackend { calls: RefCell::new(0), trades: vec![trade("t-1", "market-1", "yes", 1)] };
    let mut req = request();
    req.amount_usd = Binary64 { bits: 0.0f64.to_bits() };
    match submit_paper_order_and_map_fill(&backend, &req, &Vec::new()) {
        Err(PolymarketPaperAdapterError::InvalidRequest(message)) => assert_eq!(message, "amount_usd must be > 0"),
        _ => panic!("expected an invalid request"),
    }
    assert_eq!(*backend.calls.borrow(), 0);
    let report = submit_paper_order_and_map_fill(&backend, &request(), &Vec::new()).unwrap();
    assert_eq!(report.disposition, PaperExecutionImportDisposition::Imported);
    assert_eq!(*backend.calls.borrow(), 1);
}

#[test]
fn blank_order_id_is_the_first_problem() {
    let mut req = request();
    req.order_id = "  ".to_string();
    req.amount_usd = Binary64 { bits: (-1.0f64).to_bits() };
    match req.validate() {
        Err(PolymarketPaperAdapterError::InvalidRequest(message)) => assert_eq!(message, "order_id cannot be empty"),
        _ => panic!("expected an invalid request"),
    }
    assert!(request().validate().is_ok());
}

fn facts(open: Vec<(&str, &str)>) -> PaperRiskFacts {
    PaperRiskFacts {
        open_positions: open.into_iter().map(|(m, o)| (m.to_string(), o.to_string())).collect(),
        order_markets: Vec::new(),
        total_exposure_exceeded: None,
        market_exposure_exceeded: None,
    }
}

#[test]
fn blocks_when_max_open_positions_is_reached() {
    let outcome = evaluate_paper_risk_checks(
        &facts(vec![("other-market", "yes")]),
        "market-1",
        "yes",
        &PaperRiskGuardConfig { max_open_positions: Some(1), ..PaperRiskGuardConfig::default() },
    );
    assert_eq!(outcome.decision, PaperRiskGuardDecision::BlockedMaxOpenPositions);
    assert_eq!(outcome.reason.as_deref(), Some("open_positions=1 max_open_positions=1"));
}

#[test]
fn blocks_when_market_exposure_is_exceeded() {
    let mut f = facts(vec![("market-1", "no")]);
    let open_exposure = 15.0f64;
    let request_amount = 10.0f64;
    let limit = 20.0f64;
    let projected = open_exposure + request_amount;
    if projected > limit {
        f.market_exposure_exceeded = Some(format!(
            "projected_market_exposure={projected:.8} max_exposure_per_market={limit:.8}"
        ));
    }
    assert_eq!(
        f.market_exposure_exceeded.as_deref(),
        Some("projected_market_exposure=25.00000000 max_exposure_per_market=20.00000000")
    );
    let outcome = evaluate_paper_risk_checks(
        &f,
        "market-1",
        "yes",
        &PaperRiskGuardConfig {
            max_exposure_per_market: Some(Binary64 { bits: 20.0f64.to_bits() }),
            ..PaperRiskGuardConfig::default()
        },
    );
    assert_eq!(outcome.decision, PaperRiskGuardDecision::BlockedMarketExposure);
}

#[test]
fn blocks_duplicate_same_market_same_outcome() {
    let outcome = evaluate_paper_risk_checks(
        &facts(vec![("market-1", "yes")]),
        "market-1",
        "yes",
        &PaperRiskGuardConfig { block_same_market_same_outcome_if_open: true, ..PaperRiskGuardConfig::default() },
    );
    assert_eq!(outcome.decision, PaperRiskGuardDecision::BlockedDuplicateMarketOutcome);
    assert_eq!(
        outcome.reason.as_deref(),
        Some("open position already exists for market=market-1 outcome=yes")
    );
}

#[test]
fn blocks_when_the_market_has_too_many_orders() {
    let mut f = facts(vec![]);
    f.order_markets = vec!["market-1".to_string(), "market-2".to_string(), "market-1".to_string()];
    let outcome = evaluate_paper_risk_checks(
        &f,
        "market-1",
        "yes",
        &PaperRiskGuardConfig { max_orders_per_market: Some(2), ..PaperRiskGuardConfig::default() },
    );
    assert_eq!(outcome.decision, PaperRiskGuardDecision::BlockedMarketOrderLimit);
    assert_eq!(outcome.reason.as_deref(), Some("orders_for_market=2 max_orders_per_market=2"));
}

#[test]
fn allows_valid_request() {
    let outcome = evaluate_paper_risk_checks(
        &facts(vec![("other-market", "yes")]),
        "market-1",
        "yes",
        &PaperRiskGuardConfig {
            max_open_positions: Some(2),
            max_total_notional_exposure: Some(Binary64 { bits: 50.0f64.to_bits() }),
            max_exposure_per_market: Some(Binary64 { bits: 20.0f64.to_bits() }),
            max_orders_per_market: Some(2),
            block_same_market_same_outcome_if_open: true,
        },
    );
    assert_eq!(outcome.decision, PaperRiskGuardDecision::Allowed);
    assert!(outcome.reason.is_none());
}

#[test]
fn paper_identifiers_round_trip() {
    assert_eq!(build_paper_decision_id("sig-1"), "paper-decision-sig-1");
    assert_eq!(build_paper_order_id("sig-1", "yes"), "pm-paper-order-yes-sig-1");
    assert_eq!(signal_id_from_paper_order_id("pm-paper-order-yes-sig-1").as_deref(), Some("sig-1"));
    assert_eq!(signal_id_from_paper_order_id("pm-paper-order-no-sig-2").as_deref(), Some("sig-2"));
    assert_eq!(signal_id_from_paper_order_id("pm-paper-order-sig-3").as_deref(), Some("sig-3"));
    assert_eq!(signal_id_from_paper_order_id("order-1"), None);
    assert_eq!(paper_order_side(SignalSide::Long), Some(("yes".to_string(), FillSide::Buy)));
    assert_eq!(paper_order_side(SignalSide::Short), Some(("no".to_string(), FillSide::Buy)));
    assert_eq!(paper_order_side(SignalSide::Flat), None);
}

#[test]
fn runner_configuration_is_checked() {
    let config = PaperDecisionRunConfig::default();
    assert_eq!(f64::from_bits(config.usd_size.bits), 100.0);
    assert!(validate_config(&config).is_ok());
    let mut bad = PaperDecisionRunConfig::default();
    bad.usd_size = Binary64 { bits: f64::NAN.to_bits() };
    match validate_config(&bad) {
        Err(PaperDecisionRunnerError::InvalidConfig(message)) => assert_eq!(message, "usd_size must be > 0"),
        _ => panic!("expected an invalid configuration"),
    }
    let mut blank = PaperDecisionRunConfig::default();
    blank.backend_account = " ".to_string();
    match validate_config(&blank) {
        Err(PaperDecisionRunnerError::InvalidConfig(message)) => {
            assert_eq!(message, "backend_account cannot be empty")
        },
        _ => panic!("expected an invalid configuration"),
    }
}

#[test]
fn empty_run_report_counts_nothing() {
    let report = paper_run_report(true, Vec::new(), &Vec::new());
    assert!(report.dry_run);
    assert_eq!(report.confirmed_signals_seen, 0);
    assert_eq!(report.blocked_by_risk, 0);
    let blocked = paper_run_report(
        false,
        Vec::new(),
        &vec![PaperRiskGuardDecision::BlockedMarketExposure, PaperRiskGuardDecision::BlockedMarketExposure],
    );
    assert_eq!(blocked.blocked_by_risk, 2);
    assert_eq!(blocked.blocked_market_exposure, 2);
    assert_eq!(blocked.blocked_max_open_positions, 0);
}
