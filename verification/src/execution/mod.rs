//! Paper execution: the boundary to the paper trading backend, the book of
//! paper orders and fills, the risk guard and the decision runner.
pub mod adapter;

pub use adapter::{
    map_backend_trades, submit_paper_order_and_map_fill, PaperExecutionImportDisposition,
    PaperExecutionImportReport, PaperExecutionRequest, PaperExecutionResult,
    PolymarketPaperAdapterError, PolymarketPaperBackend, PolymarketPaperTrade,
    DEFAULT_POLYMARKET_PAPER_DATA_DIR, POLYMARKET_PAPER_VENUE,
};
pub mod risk;

pub use risk::{
    evaluate_paper_risk_checks, PaperRiskFacts, PaperRiskGuardConfig, PaperRiskGuardDecision,
    PaperRiskGuardOutcome,
};
pub mod candidates;

pub use candidates::{
    confirmed_signal_candidates, executed_signal_ids, signal_id_from_paper_order_id,
    ConfirmedSignalCandidate,
};
pub mod runner;

pub use runner::{
    blocked_by_risk_item, build_paper_decision_id, build_paper_order_id, dry_run_item,
    execute_paper_candidate, paper_candidate_action, paper_order_side, paper_run_report, persist_paper_order_evidence,
    plan_paper_candidate, simulate_paper_fill, validate_config, PaperFillSimulation, PaperCandidatePlan, PaperDecisionRunConfig,
    PaperDecisionRunDisposition, PaperDecisionRunItem, PaperDecisionRunReport,
    PaperDecisionRunnerError, PaperCandidateAction,
};
pub mod book;

pub use book::{
    paper_book, PaperBook, PaperFillRecord, PaperOrderStatus, PaperOrderView,
    PaperPositionLifecycle,
};
