//! The paper decision runner: each confirmed signal that is eligible becomes a
//! paper order, sent to the backend, whose fill is recorded.
//!
//! The run alternates decisions with work outside the log: the exposure of the
//! paper book (a sum of binary64 amounts) and the backend. The decisions are
//! here, one function per step; the loop that feeds them is the caller's.
use vstd::prelude::*;

use crate::codecs::{all_decode, CodecError};
use crate::events::{
    Binary64, EventEnvelope, EventError, EventType, FillSide, Linkage, OrderRegistered,
    OrderSubmitted, PayloadView, Provenance, ProvenanceView, SignalSide, SourceKind, is_positive_finite,
};
use crate::execution::adapter::{
    import_outcome, submit_paper_order_and_map_fill, PaperExecutionImportReport,
    PaperExecutionImportReportView, request_problem, PolymarketPaperAdapterErrorView,
    PaperExecutionRequest, PaperExecutionRequestView, PaperExecutionResultView,
    PolymarketPaperAdapterError, PolymarketPaperBackend, PolymarketPaperTradeView,
    DEFAULT_POLYMARKET_PAPER_DATA_DIR, POLYMARKET_PAPER_VENUE,
};
use crate::execution::candidates::{paper_fill_signal, CandidateView, ConfirmedSignalCandidate};
use crate::execution::risk::{PaperRiskGuardConfig, PaperRiskGuardDecision, PaperRiskGuardOutcome};
use crate::json_text::{json_string, json_string_text};
use crate::materialization::fill::{fill_report_follows, fill_written, order_context_of};
use crate::materialization::{
    observe_fill, FillObservationDisposition, FillObservationOptions, FillObservationReport,
    FillObservationReportView,
    FillObservationRequestView, MaterializationError,
};
use crate::queries::{signal_promotion_of, PromotionPolicyStatus, QueryError, QueryService};
use crate::store::{after_append, JsonlEventStore, StoreError, StoredEvent, StoredEventView};
use crate::events::{
    idempotency_key_of, linkage_problem, order_problem, payload_kind, payload_problem, provenance_problem,
    LinkageView, OrderView,
};
use crate::ids::{is_hyphenated_uuid_text, uuid_text_parses};
use crate::store::jsonl_store::{append_outcome, first_key_index, has_key, AppendOutcome};
use crate::store::stored_event::{envelope_as_stored, link_problem, stored_problem};
use crate::text::lemma_not_blank_joined;
use crate::text::{blank, clone_opt, is_blank, opt_view, owned, strs};

verus! {

/// How the runner trades; the order size travels as its binary64 encoding and
/// the backend's data directory as the text of its path.
#[derive(Debug, Clone, PartialEq, Eq)]
pub struct PaperDecisionRunConfig {
    pub usd_size: Binary64,
    pub backend_account: String,
    pub backend_data_dir: String,
    pub risk: PaperRiskGuardConfig,
    pub dry_run: bool,
}

impl Default for PaperDecisionRunConfig {
    fn default() -> (r: Self)
        ensures
            r.usd_size == (Binary64 { bits: 0x4059_0000_0000_0000 }),
            r.backend_account@ == "default"@,
            r.backend_data_dir@ == DEFAULT_POLYMARKET_PAPER_DATA_DIR@,
            !r.dry_run,
    {
        PaperDecisionRunConfig {
            usd_size: Binary64 { bits: 0x4059_0000_0000_0000 },
            backend_account: owned("default"),
            backend_data_dir: owned(DEFAULT_POLYMARKET_PAPER_DATA_DIR),
            risk: PaperRiskGuardConfig::default(),
            dry_run: false,
        }
    }
}

#[derive(Debug)]
pub enum PaperDecisionRunnerError {
    Query(QueryError),
    Codec(CodecError),
    Event(EventError),
    Store(StoreError),
    Materialization(MaterializationError),
    Adapter(PolymarketPaperAdapterError),
    Serde(serde_json::Error),
    InvalidConfig(String),
}

/// The message of a configuration the runner refuses: the size must be a
/// positive finite number and the account must not be blank.
pub open spec fn config_problem(usd_size: Binary64, backend_account: Seq<char>) -> Option<Seq<char>> {
    if !is_positive_finite(usd_size) {
        Some("usd_size must be > 0"@)
    } else if is_blank(backend_account) {
        Some("backend_account cannot be empty"@)
    } else {
        None
    }
}

pub fn validate_config(config: &PaperDecisionRunConfig) -> (r: Result<(), PaperDecisionRunnerError>)
    ensures
        r is Ok <==> config_problem(config.usd_size, config.backend_account@) is None,
        r matches Err(e) ==> (e matches PaperDecisionRunnerError::InvalidConfig(m) && config_problem(
            config.usd_size,
            config.backend_account@,
        ) == Some(m@)),
{
    if !config.usd_size.positive_finite() {
        return Err(PaperDecisionRunnerError::InvalidConfig(owned("usd_size must be > 0")));
    }
    if blank(config.backend_account.as_str()) {
        return Err(PaperDecisionRunnerError::InvalidConfig(owned("backend_account cannot be empty")));
    }
    Ok(())
}

/// The outcome and side of the paper order for a signal: long buys `yes`,
/// short buys `no`, flat has none.
pub open spec fn paper_side_of(side: SignalSide) -> Option<(Seq<char>, FillSide)> {
    match side {
        SignalSide::Long => Some(("yes"@, FillSide::Buy)),
        SignalSide::Short => Some(("no"@, FillSide::Buy)),
        SignalSide::Flat => None,
    }
}

pub fn paper_order_side(signal_side: SignalSide) -> (r: Option<(String, FillSide)>)
    ensures
        match r {
            Some((o, s)) => paper_side_of(signal_side) == Some((o@, s)),
            None => paper_side_of(signal_side) is None,
        },
{
    match signal_side {
        SignalSide::Long => Some((owned("yes"), FillSide::Buy)),
        SignalSide::Short => Some((owned("no"), FillSide::Buy)),
        SignalSide::Flat => None,
    }
}

pub open spec fn paper_decision_id_for(signal_id: Seq<char>) -> Seq<char> {
    "paper-decision-"@ + signal_id
}

pub open spec fn paper_order_id_for(signal_id: Seq<char>, outcome: Seq<char>) -> Seq<char> {
    "pm-paper-order-"@ + outcome + "-"@ + signal_id
}

pub fn build_paper_decision_id(signal_id: &str) -> (r: String)
    ensures
        r@ == paper_decision_id_for(signal_id@),
{
    let mut r = owned("paper-decision-");
    r.append(signal_id);
    r
}

pub fn build_paper_order_id(signal_id: &str, outcome: &str) -> (r: String)
    ensures
        r@ == paper_order_id_for(signal_id@, outcome@),
{
    let mut r = owned("pm-paper-order-");
    r.append(outcome);
    r.append("-");
    r.append(signal_id);
    r
}

#[derive(Debug, Clone, Copy, PartialEq, Eq, Structural)]
pub enum PaperDecisionRunDisposition {
    Executed,
    Eligible,
    SkippedAlreadyExecuted,
    SkippedUnsupported,
    BlockedByRisk,
    Duplicate,
}

#[derive(Debug, Clone, PartialEq, Eq)]
pub struct PaperDecisionRunItem {
    pub signal_id: String,
    pub decision_id: Option<String>,
    pub order_id: Option<String>,
    pub market_slug: Option<String>,
    pub outcome: Option<String>,
    pub side: Option<FillSide>,
    pub disposition: PaperDecisionRunDisposition,
    pub execution_request_sent: bool,
    pub fill_id: Option<String>,
    pub backend_trade_id: Option<String>,
    pub persisted: bool,
    pub duplicate: bool,
    pub reasons: Vec<String>,
}

#[verifier::ext_equal]
pub struct PaperDecisionRunItemView {
    pub signal_id: Seq<char>,
    pub decision_id: Option<Seq<char>>,
    pub order_id: Option<Seq<char>>,
    pub market_slug: Option<Seq<char>>,
    pub outcome: Option<Seq<char>>,
    pub side: Option<FillSide>,
    pub disposition: PaperDecisionRunDisposition,
    pub execution_request_sent: bool,
    pub fill_id: Option<Seq<char>>,
    pub backend_trade_id: Option<Seq<char>>,
    pub persisted: bool,
    pub duplicate: bool,
    pub reasons: Seq<Seq<char>>,
}

impl View for PaperDecisionRunItem {
    type V = PaperDecisionRunItemView;

    open spec fn view(&self) -> PaperDecisionRunItemView {
        PaperDecisionRunItemView {
            signal_id: self.signal_id@,
            decision_id: opt_view(self.decision_id),
            order_id: opt_view(self.order_id),
            market_slug: opt_view(self.market_slug),
            outcome: opt_view(self.outcome),
            side: self.side,
            disposition: self.disposition,
            execution_request_sent: self.execution_request_sent,
            fill_id: opt_view(self.fill_id),
            backend_trade_id: opt_view(self.backend_trade_id),
            persisted: self.persisted,
            duplicate: self.duplicate,
            reasons: strs(self.reasons@),
        }
    }
}

/// An item that names only the signal and its market: the runner went no further.
pub open spec fn early_item(
    c: CandidateView,
    outcome: Option<Seq<char>>,
    side: Option<FillSide>,
    reason: Seq<char>,
) -> PaperDecisionRunItemView {
    PaperDecisionRunItemView {
        signal_id: c.signal_id,
        decision_id: None,
        order_id: None,
        market_slug: Some(c.market_slug),
        outcome,
        side,
        disposition: if reason == "SignalAlreadyHasPaperFill"@ {
            PaperDecisionRunDisposition::SkippedAlreadyExecuted
        } else {
            PaperDecisionRunDisposition::SkippedUnsupported
        },
        execution_request_sent: false,
        fill_id: None,
        backend_trade_id: None,
        persisted: false,
        duplicate: false,
        reasons: seq![reason],
    }
}

/// The request the runner sends for a candidate.
pub open spec fn paper_request_for(
    c: CandidateView,
    outcome: Seq<char>,
    side: FillSide,
    usd_size: Binary64,
    account: Seq<char>,
    data_dir: Seq<char>,
) -> PaperExecutionRequestView {
    PaperExecutionRequestView {
        order_id: paper_order_id_for(c.signal_id, outcome),
        decision_id: paper_decision_id_for(c.signal_id),
        market_slug: c.market_slug,
        outcome,
        side,
        amount_usd: usd_size,
        backend_account: account,
        backend_data_dir: data_dir,
    }
}

/// What the runner does with a candidate before any risk check: a signal with
/// a paper fill is skipped, a flat one is unsupported, one whose promotion
/// policy is not eligible is skipped; any other gets a paper request.
pub enum PaperCandidatePlan {
    Settled(PaperDecisionRunItem),
    Ready(PaperExecutionRequest),
}

pub enum PaperCandidatePlanView {
    Settled(PaperDecisionRunItemView),
    Ready(PaperExecutionRequestView),
}

impl View for PaperCandidatePlan {
    type V = PaperCandidatePlanView;

    open spec fn view(&self) -> PaperCandidatePlanView {
        match self {
            PaperCandidatePlan::Settled(i) => PaperCandidatePlanView::Settled(i@),
            PaperCandidatePlan::Ready(r) => PaperCandidatePlanView::Ready(r@),
        }
    }
}

pub open spec fn candidate_plan(
    log: Seq<StoredEventView>,
    c: CandidateView,
    executed: Seq<Seq<char>>,
    usd_size: Binary64,
    account: Seq<char>,
    data_dir: Seq<char>,
) -> PaperCandidatePlanView {
    if executed.contains(c.signal_id) {
        PaperCandidatePlanView::Settled(early_item(c, None, None, "SignalAlreadyHasPaperFill"@))
    } else {
        match paper_side_of(c.signal_side) {
            None => PaperCandidatePlanView::Settled(early_item(c, None, None, "UnsupportedSignalSide(Flat)"@)),
            Some((outcome, side)) => match signal_promotion_of(log, c.signal_id) {
                Some(p) => if p.status == PromotionPolicyStatus::Eligible {
                    PaperCandidatePlanView::Ready(paper_request_for(c, outcome, side, usd_size, account, data_dir))
                } else {
                    PaperCandidatePlanView::Settled(
                        early_item(c, Some(outcome), Some(side), "SignalNotEligibleForPaperDecision"@),
                    )
                },
                None => PaperCandidatePlanView::Settled(
                    early_item(c, Some(outcome), Some(side), "SignalNotEligibleForPaperDecision"@),
                ),
            },
        }
    }
}

fn early(c: &ConfirmedSignalCandidate, outcome: Option<String>, side: Option<FillSide>, reason: &str) -> (r: PaperDecisionRunItem)
    ensures
        r@ == early_item(c@, opt_view(outcome), side, reason@),
{
    let skipped = crate::text::same_text(reason, "SignalAlreadyHasPaperFill");
    let reasons = vec![owned(reason)];
    proof {
        assert(strs(reasons@) =~= seq![reason@]);
    }
    PaperDecisionRunItem {
        signal_id: c.signal_id.clone(),
        decision_id: None,
        order_id: None,
        market_slug: Some(c.market_slug.clone()),
        outcome,
        side,
        disposition: if skipped {
            PaperDecisionRunDisposition::SkippedAlreadyExecuted
        } else {
            PaperDecisionRunDisposition::SkippedUnsupported
        },
        execution_request_sent: false,
        fill_id: None,
        backend_trade_id: None,
        persisted: false,
        duplicate: false,
        reasons,
    }
}

fn contains_signal(ids: &Vec<String>, x: &str) -> (r: bool)
    ensures
        r == strs(ids@).contains(x@),
{
    let mut i: usize = 0;
    while i < ids.len()
        invariant
            i <= ids.len(),
            forall|j: int| 0 <= j < i ==> strs(ids@)[j] != x@,
        decreases ids.len() - i,
    {
        if crate::text::same_text(ids[i].as_str(), x) {
            proof {
                assert(strs(ids@)[i as int] == x@);
            }
            return true;
        }
        i = i + 1;
    }
    false
}

/// Screens a candidate against the signals already executed and its promotion
/// policy over the store.
pub fn plan_paper_candidate(
    store: &JsonlEventStore,
    candidate: &ConfirmedSignalCandidate,
    executed: &Vec<String>,
    config: &PaperDecisionRunConfig,
) -> (r: Result<PaperCandidatePlan, PaperDecisionRunnerError>)
    ensures
        r matches Ok(p) ==> p@ == candidate_plan(
            store@,
            candidate@,
            strs(executed@),
            config.usd_size,
            config.backend_account@,
            config.backend_data_dir@,
        ),
        r is Err ==> !all_decode(store@),
        all_decode(store@) ==> r is Ok,
{
    if contains_signal(executed, candidate.signal_id.as_str()) {
        return Ok(PaperCandidatePlan::Settled(early(candidate, None, None, "SignalAlreadyHasPaperFill")));
    }
    let (outcome, side) = match paper_order_side(candidate.signal_side) {
        Some(x) => x,
        None => {
            return Ok(PaperCandidatePlan::Settled(early(candidate, None, None, "UnsupportedSignalSide(Flat)")));
        },
    };
    let qs = QueryService::new(store);
    let policy = match qs.signal_promotion_policy(candidate.signal_id.as_str()) {
        Ok(p) => p,
        Err(e) => return Err(PaperDecisionRunnerError::Query(e)),
    };
    let eligible = match &policy {
        Some(p) => p.status == PromotionPolicyStatus::Eligible,
        None => false,
    };
    if !eligible {
        return Ok(PaperCandidatePlan::Settled(early(candidate, Some(outcome), Some(side), "SignalNotEligibleForPaperDecision")));
    }
    let order_id = build_paper_order_id(candidate.signal_id.as_str(), outcome.as_str());
    let decision_id = build_paper_decision_id(candidate.signal_id.as_str());
    Ok(PaperCandidatePlan::Ready(PaperExecutionRequest {
        order_id,
        decision_id,
        market_slug: candidate.market_slug.clone(),
        outcome,
        side,
        amount_usd: config.usd_size,
        backend_account: config.backend_account.clone(),
        backend_data_dir: config.backend_data_dir.clone(),
    }))
}

/// The item of a request the risk guard blocked; the guard's reason, else the
/// decision's name.
pub open spec fn risk_decision_name(d: PaperRiskGuardDecision) -> Seq<char> {
    match d {
        PaperRiskGuardDecision::Allowed => "Allowed"@,
        PaperRiskGuardDecision::BlockedMaxOpenPositions => "BlockedMaxOpenPositions"@,
        PaperRiskGuardDecision::BlockedMaxTotalExposure => "BlockedMaxTotalExposure"@,
        PaperRiskGuardDecision::BlockedMarketExposure => "BlockedMarketExposure"@,
        PaperRiskGuardDecision::BlockedDuplicateMarketOutcome => "BlockedDuplicateMarketOutcome"@,
        PaperRiskGuardDecision::BlockedMarketOrderLimit => "BlockedMarketOrderLimit"@,
    }
}

pub open spec fn request_item(
    c: CandidateView,
    r: PaperExecutionRequestView,
    d: PaperDecisionRunDisposition,
    reasons: Seq<Seq<char>>,
) -> PaperDecisionRunItemView {
    PaperDecisionRunItemView {
        signal_id: c.signal_id,
        decision_id: Some(r.decision_id),
        order_id: Some(r.order_id),
        market_slug: Some(c.market_slug),
        outcome: Some(r.outcome),
        side: Some(r.side),
        disposition: d,
        execution_request_sent: false,
        fill_id: None,
        backend_trade_id: None,
        persisted: false,
        duplicate: false,
        reasons,
    }
}

fn request_item_of(
    c: &ConfirmedSignalCandidate,
    request: &PaperExecutionRequest,
    d: PaperDecisionRunDisposition,
    reasons: Vec<String>,
) -> (r: PaperDecisionRunItem)
    ensures
        r@ == request_item(c@, request@, d, strs(reasons@)),
{
    PaperDecisionRunItem {
        signal_id: c.signal_id.clone(),
        decision_id: Some(request.decision_id.clone()),
        order_id: Some(request.order_id.clone()),
        market_slug: Some(c.market_slug.clone()),
        outcome: Some(request.outcome.clone()),
        side: Some(request.side),
        disposition: d,
        execution_request_sent: false,
        fill_id: None,
        backend_trade_id: None,
        persisted: false,
        duplicate: false,
        reasons,
    }
}

pub fn blocked_by_risk_item(
    candidate: &ConfirmedSignalCandidate,
    request: &PaperExecutionRequest,
    risk: &PaperRiskGuardOutcome,
) -> (r: PaperDecisionRunItem)
    ensures
        r@ == request_item(
            candidate@,
            request@,
            PaperDecisionRunDisposition::BlockedByRisk,
            seq![
                match risk@.reason {
                    Some(m) => m,
                    None => risk_decision_name(risk.decision),
                },
            ],
        ),
{
    let reason = match &risk.reason {
        Some(m) => m.clone(),
        None => owned(
            match risk.decision {
                PaperRiskGuardDecision::Allowed => "Allowed",
                PaperRiskGuardDecision::BlockedMaxOpenPositions => "BlockedMaxOpenPositions",
                PaperRiskGuardDecision::BlockedMaxTotalExposure => "BlockedMaxTotalExposure",
                PaperRiskGuardDecision::BlockedMarketExposure => "BlockedMarketExposure",
                PaperRiskGuardDecision::BlockedDuplicateMarketOutcome => "BlockedDuplicateMarketOutcome",
                PaperRiskGuardDecision::BlockedMarketOrderLimit => "BlockedMarketOrderLimit",
            },
        ),
    };
    let reasons = vec![reason];
    proof {
        assert(strs(reasons@) =~= seq![reason@]);
    }
    request_item_of(candidate, request, PaperDecisionRunDisposition::BlockedByRisk, reasons)
}

/// What a run does with a candidate whose request is ready.
#[derive(Debug, Clone, Copy, PartialEq, Eq, Structural)]
pub enum PaperCandidateAction {
    /// The risk guard does not allow the request: the candidate is reported blocked.
    Block,
    /// A dry run reports the request it would send.
    DryRun,
    /// The request goes to the backend.
    Execute,
}

/// The next step for a ready request: the risk guard's decision comes first,
/// then whether the run is dry.
pub fn paper_candidate_action(decision: PaperRiskGuardDecision, dry_run: bool) -> (r: PaperCandidateAction)
    ensures
        r == if decision != PaperRiskGuardDecision::Allowed {
            PaperCandidateAction::Block
        } else if dry_run {
            PaperCandidateAction::DryRun
        } else {
            PaperCandidateAction::Execute
        },
{
    if decision != PaperRiskGuardDecision::Allowed {
        PaperCandidateAction::Block
    } else if dry_run {
        PaperCandidateAction::DryRun
    } else {
        PaperCandidateAction::Execute
    }
}

/// The item of a request a dry run would send.
pub fn dry_run_item(candidate: &ConfirmedSignalCandidate, request: &PaperExecutionRequest) -> (r: PaperDecisionRunItem)
    ensures
        r@ == request_item(candidate@, request@, PaperDecisionRunDisposition::Eligible, Seq::empty()),
{
    let reasons: Vec<String> = Vec::new();
    proof {
        assert(strs(reasons@) =~= Seq::<Seq<char>>::empty());
    }
    request_item_of(candidate, request, PaperDecisionRunDisposition::Eligible, reasons)
}

/// A log that `after` continues: `before` with events appended.
pub open spec fn log_extends(before: Seq<StoredEventView>, after: Seq<StoredEventView>) -> bool {
    before.len() <= after.len() && after.take(before.len() as int) == before
}

/// The order the runner registers and submits for a candidate's request, on
/// the paper venue.
pub open spec fn runner_order(c: CandidateView, r: PaperExecutionRequestView) -> OrderView {
    OrderView {
        order_id: r.order_id,
        decision_id: Some(r.decision_id),
        instrument: c.market_slug,
        venue: POLYMARKET_PAPER_VENUE@,
    }
}

/// The links of the runner's order events, under the given parent.
pub open spec fn runner_linkage_of(c: CandidateView, r: PaperExecutionRequestView, parent: Seq<char>) -> LinkageView {
    LinkageView {
        hypothesis_id: c.hypothesis_id,
        signal_id: Some(c.signal_id),
        decision_id: Some(r.decision_id),
        order_id: Some(r.order_id),
        position_id: None,
        parent_event_id: Some(parent),
        correlation_id: c.correlation_id,
    }
}

/// The payload of the runner's order event of a kind.
pub open spec fn runner_payload(kind: EventType, c: CandidateView, r: PaperExecutionRequestView) -> PayloadView {
    if kind == EventType::OrderRegistered {
        PayloadView::OrderRegistered(runner_order(c, r))
    } else {
        PayloadView::OrderSubmitted(runner_order(c, r))
    }
}

/// An order event the runner writes for a candidate's request, on the paper
/// venue, under the given parent: a fresh event id, and every other field
/// fixed by the candidate and the request.
pub open spec fn is_runner_order_event(
    e: StoredEventView,
    kind: EventType,
    c: CandidateView,
    r: PaperExecutionRequestView,
    parent: Seq<char>,
) -> bool {
    &&& kind == EventType::OrderRegistered || kind == EventType::OrderSubmitted
    &&& e.event_type == kind
    &&& e.schema_version == "v1"@
    &&& e.produced_by == "runtime.paper_decision_runner"@
    &&& e.aggregate_key == Some(c.market_slug)
    &&& e.linkage == runner_linkage_of(c, r, parent)
    &&& e.provenance == runner_provenance_of(c.signal_id, r.order_id)
    &&& e.payload == runner_payload(kind, c, r)
    &&& e.idempotency_key == idempotency_key_of(runner_payload(kind, c, r))
    &&& is_hyphenated_uuid_text(e.event_id)
    &&& uuid_text_parses(e.event_id)
}

/// Whether the runner's order breaks a rule of an order payload; both of its
/// events then fail to build.
pub open spec fn runner_order_problem(c: CandidateView, r: PaperExecutionRequestView) -> bool {
    order_problem(runner_order(c, r)) is Some
}

/// The candidate and request make order events that pass every check: the
/// order and decision ids are fit identifiers, the market, signal and
/// confirmation are not blank, and the candidate's optional links are not
/// blank where given.
pub open spec fn runner_evidence_fit(c: CandidateView, r: PaperExecutionRequestView) -> bool {
    &&& !is_blank(r.order_id) && !r.order_id.contains(':')
    &&& !is_blank(r.decision_id) && !r.decision_id.contains(':')
    &&& !is_blank(c.market_slug)
    &&& !is_blank(c.signal_id)
    &&& !is_blank(c.confirmed_event_id)
    &&& (c.hypothesis_id matches Some(h) ==> !is_blank(h))
    &&& (c.correlation_id matches Some(x) ==> !is_blank(x))
}

/// The registration's key is free in the log or first holds the same fact,
/// and the submission's key is free.
pub open spec fn evidence_keys_settled(log: Seq<StoredEventView>, c: CandidateView, r: PaperExecutionRequestView) -> bool {
    &&& match first_key_index(log, idempotency_key_of(runner_payload(EventType::OrderRegistered, c, r))) {
        Some(i) => {
            let e = log[i];
            &&& e.event_type == EventType::OrderRegistered
            &&& e.schema_version == "v1"@
            &&& e.produced_by == "runtime.paper_decision_runner"@
            &&& e.aggregate_key == Some(c.market_slug)
            &&& e.linkage == runner_linkage_of(c, r, c.confirmed_event_id)
            &&& e.payload == runner_payload(EventType::OrderRegistered, c, r)
        },
        None => true,
    }
    &&& !has_key(log, idempotency_key_of(runner_payload(EventType::OrderSubmitted, c, r)))
}

/// The store refuses an event: it breaks a rule, or another fact holds its key.
pub open spec fn refused(o: AppendOutcome) -> bool {
    o is Rejected || o is Conflict
}

/// The evidence stops at one of its two events: one of them breaks a rule of a
/// stored event, or the store refuses the registration, leaving the log as it
/// was; or the store refuses the submission after taking the registration.
pub open spec fn evidence_stops(
    before: Seq<StoredEventView>,
    after: Seq<StoredEventView>,
    reg: StoredEventView,
    sub: StoredEventView,
    c: CandidateView,
    r: PaperExecutionRequestView,
) -> bool {
    &&& is_runner_order_event(reg, EventType::OrderRegistered, c, r, c.confirmed_event_id)
    &&& is_runner_order_event(sub, EventType::OrderSubmitted, c, r, reg.event_id)
    &&& {
        ||| after == before && (stored_problem(reg) is Some || stored_problem(sub) is Some || refused(
            append_outcome(before, reg),
        ))
        ||| after == after_append(before, reg) && !refused(append_outcome(before, reg)) && refused(
            append_outcome(after_append(before, reg), sub),
        )
    }
}

/// The ways the evidence of a paper order fails: its order breaks a rule, or
/// it stops at one of its events.
pub open spec fn evidence_fails(
    before: Seq<StoredEventView>,
    after: Seq<StoredEventView>,
    c: CandidateView,
    r: PaperExecutionRequestView,
) -> bool {
    ||| after == before && runner_order_problem(c, r)
    ||| exists|reg: StoredEventView, sub: StoredEventView| evidence_stops(before, after, reg, sub, c, r)
}

/// The evidence of a paper order: its registration under the confirmation,
/// then its submission under the registration, each appended unless present.
pub open spec fn evidence_appended(
    before: Seq<StoredEventView>,
    after: Seq<StoredEventView>,
    c: CandidateView,
    r: PaperExecutionRequestView,
) -> bool {
    exists|reg: StoredEventView, sub: StoredEventView|
        #![trigger after_append(after_append(before, reg), sub)]
        {
            &&& is_runner_order_event(reg, EventType::OrderRegistered, c, r, c.confirmed_event_id)
            &&& is_runner_order_event(sub, EventType::OrderSubmitted, c, r, reg.event_id)
            &&& after == after_append(after_append(before, reg), sub)
        }
}

proof fn lemma_append_extends(events: Seq<StoredEventView>, e: StoredEventView)
    ensures
        log_extends(events, after_append(events, e)),
{
    crate::store::jsonl_store::lemma_append_keeps_log(events, e);
    assert(after_append(events, e).take(events.len() as int) =~= events);
}

/// The provenance of the runner's order events for a candidate.
pub open spec fn runner_provenance_of(signal_id: Seq<char>, order_id: Seq<char>) -> ProvenanceView {
    ProvenanceView {
        source_kind: SourceKind::Runtime,
        source_ref: Some("run-paper-decisions://signal/"@ + signal_id),
        producer_run_id: Some(order_id),
        actor: Some("paper_decision_runner_v1"@),
        trace_id: Some(signal_id),
        notes: Some(
            "{\"runner\":\"paper_decision_runner_v1\",\"signal_id\":"@ + json_string_text(signal_id)
                + ",\"venue\":\"polymarket-paper\"}"@,
        ),
    }
}

fn runner_provenance(candidate: &ConfirmedSignalCandidate, order_id: &String) -> (r: Result<Provenance, PaperDecisionRunnerError>)
    ensures
        r matches Ok(p) && p@ == runner_provenance_of(candidate.signal_id@, order_id@),
{
    let quoted = match json_string(candidate.signal_id.as_str()) {
        Ok(q) => q,
        Err(e) => return Err(PaperDecisionRunnerError::Serde(e)),
    };
    let mut notes = owned("{\"runner\":\"paper_decision_runner_v1\",\"signal_id\":");
    notes.append(quoted.as_str());
    notes.append(",\"venue\":\"polymarket-paper\"}");
    let mut source_ref = owned("run-paper-decisions://signal/");
    source_ref.append(candidate.signal_id.as_str());
    Ok(Provenance {
        source_kind: SourceKind::Runtime,
        source_ref: Some(source_ref),
        producer_run_id: Some(order_id.clone()),
        actor: Some(owned("paper_decision_runner_v1")),
        trace_id: Some(candidate.signal_id.clone()),
        notes: Some(notes),
    })
}

fn runner_linkage(candidate: &ConfirmedSignalCandidate, request: &PaperExecutionRequest, parent: &String) -> (l: Linkage)
    ensures
        l@.signal_id == Some(candidate.signal_id@),
        l@.decision_id == Some(request.decision_id@),
        l@.order_id == Some(request.order_id@),
        l@.parent_event_id == Some(parent@),
        l@ == runner_linkage_of(candidate@, request@, parent@),
{
    Linkage {
        hypothesis_id: clone_opt(&candidate.hypothesis_id),
        signal_id: Some(candidate.signal_id.clone()),
        decision_id: Some(request.decision_id.clone()),
        order_id: Some(request.order_id.clone()),
        position_id: None,
        parent_event_id: Some(parent.clone()),
        correlation_id: clone_opt(&candidate.correlation_id),
    }
}

/// The registration's and the submission's keys differ, and neither is blank.
proof fn lemma_runner_keys(c: CandidateView, r: PaperExecutionRequestView)
    ensures
        idempotency_key_of(runner_payload(EventType::OrderRegistered, c, r)) != idempotency_key_of(
            runner_payload(EventType::OrderSubmitted, c, r),
        ),
        !is_blank(idempotency_key_of(runner_payload(EventType::OrderRegistered, c, r))),
        !is_blank(idempotency_key_of(runner_payload(EventType::OrderSubmitted, c, r))),
        !is_blank("runtime.paper_decision_runner"@),
{
    reveal_strlit("order.registered:v1:");
    reveal_strlit("order.submitted:v1:");
    reveal_strlit("runtime.paper_decision_runner");
    let o = runner_order(c, r);
    let a = "order.registered:v1:"@ + o.venue + ":"@ + o.order_id;
    let b = "order.submitted:v1:"@ + o.venue + ":"@ + o.order_id;
    assert(a[6] == 'r');
    assert(b[6] == 's');
    lemma_not_blank_joined(a, Seq::empty(), 0);
    lemma_not_blank_joined(b, Seq::empty(), 0);
    lemma_not_blank_joined("runtime.paper_decision_runner"@, Seq::empty(), 0);
}

/// The order of a fit candidate and request breaks no rule of an order.
proof fn lemma_runner_order_fit(c: CandidateView, r: PaperExecutionRequestView)
    requires
        runner_evidence_fit(c, r),
    ensures
        order_problem(runner_order(c, r)) is None,
{
    reveal_strlit("polymarket-paper");
    lemma_not_blank_joined("polymarket-paper"@, Seq::empty(), 0);
    assert(!"polymarket-paper"@.contains(':'));
}

/// An order event of the runner for a fit candidate and request passes every
/// check of a stored event.
proof fn lemma_runner_event_clean(
    e: StoredEventView,
    kind: EventType,
    c: CandidateView,
    r: PaperExecutionRequestView,
    parent: Seq<char>,
)
    requires
        is_runner_order_event(e, kind, c, r, parent),
        runner_evidence_fit(c, r),
        !is_blank(parent),
    ensures
        stored_problem(e) is None,
{
    crate::events::envelope::lemma_uuid_text_not_blank(e.event_id);
    lemma_runner_keys(c, r);
    reveal_strlit("v1");
    reveal_strlit("polymarket-paper");
    reveal_strlit("run-paper-decisions://signal/");
    reveal_strlit("paper_decision_runner_v1");
    reveal_strlit("{\"runner\":\"paper_decision_runner_v1\",\"signal_id\":");
    lemma_not_blank_joined("v1"@, Seq::empty(), 0);
    lemma_not_blank_joined("polymarket-paper"@, Seq::empty(), 0);
    assert(!"polymarket-paper"@.contains(':'));
    lemma_not_blank_joined("run-paper-decisions://signal/"@, c.signal_id, 0);
    lemma_not_blank_joined("paper_decision_runner_v1"@, Seq::empty(), 0);
    let n0 = "{\"runner\":\"paper_decision_runner_v1\",\"signal_id\":"@;
    let n = n0 + json_string_text(c.signal_id) + ",\"venue\":\"polymarket-paper\"}"@;
    assert(n == n0 + (json_string_text(c.signal_id) + ",\"venue\":\"polymarket-paper\"}"@));
    lemma_not_blank_joined(n0, json_string_text(c.signal_id) + ",\"venue\":\"polymarket-paper\"}"@, 0);
    assert(order_problem(runner_order(c, r)) is None);
    assert(payload_problem(e.payload) is None);
    assert(linkage_problem(e.linkage) is None);
    assert(provenance_problem(e.provenance) is None);
    assert(payload_kind(e.payload) == e.event_type);
    assert(link_problem(e.linkage, e.payload) is None);
}

/// Registers and submits the paper order of a request in the store, under the
/// candidate's confirmation.
pub fn persist_paper_order_evidence(
    store: &mut JsonlEventStore,
    candidate: &ConfirmedSignalCandidate,
    request: &PaperExecutionRequest,
) -> (r: Result<(), PaperDecisionRunnerError>)
    ensures
        log_extends(old(store)@, final(store)@),
        r is Ok ==> evidence_appended(old(store)@, final(store)@, candidate@, request@),
        r is Err ==> evidence_fails(old(store)@, final(store)@, candidate@, request@),
        runner_evidence_fit(candidate@, request@) && evidence_keys_settled(old(store)@, candidate@, request@) ==> r is Ok,
        runner_evidence_fit(candidate@, request@) && evidence_keys_settled(old(store)@, candidate@, request@) ==> (
        order_context_of(final(store)@, request.order_id@) matches Some(ctx) && ctx.signal_id == Some(
            candidate.signal_id@,
        ) && ctx.venue == POLYMARKET_PAPER_VENUE@),
{
    proof {
        assert(store@.take(store@.len() as int) =~= store@);
    }
    let ghost c = candidate@;
    let ghost rq = request@;
    let provenance = match runner_provenance(candidate, &request.order_id) {
        Ok(p) => p,
        Err(e) => return Err(e),
    };
    let reg_payload = OrderRegistered {
        order_id: request.order_id.clone(),
        decision_id: Some(request.decision_id.clone()),
        instrument: candidate.market_slug.clone(),
        venue: owned(POLYMARKET_PAPER_VENUE),
    };
    let ghost rp = reg_payload@;
    proof {
        lemma_runner_keys(c, rq);
        assert(rp == runner_order(c, rq));
    }
    let registered = match EventEnvelope::new_order_registered(
        "runtime.paper_decision_runner",
        Some(candidate.market_slug.clone()),
        runner_linkage(candidate, request, &candidate.confirmed_event_id),
        provenance,
        reg_payload,
    ) {
        Ok(e) => e,
        Err(e) => {
            proof {
                assert(order_problem(rp) is Some);
                if runner_evidence_fit(c, rq) {
                    lemma_runner_order_fit(c, rq);
                }
            }
            return Err(PaperDecisionRunnerError::Event(e));
        },
    };
    let provenance = match runner_provenance(candidate, &request.order_id) {
        Ok(p) => p,
        Err(e) => return Err(e),
    };
    let registered_id = registered.event_id.clone();
    let sub_payload = OrderSubmitted {
        order_id: request.order_id.clone(),
        decision_id: Some(request.decision_id.clone()),
        instrument: candidate.market_slug.clone(),
        venue: owned(POLYMARKET_PAPER_VENUE),
    };
    let ghost sp = sub_payload@;
    let submitted = match EventEnvelope::new_order_submitted(
        "runtime.paper_decision_runner",
        Some(candidate.market_slug.clone()),
        runner_linkage(candidate, request, &registered_id),
        provenance,
        sub_payload,
    ) {
        Ok(e) => e,
        Err(e) => {
            proof {
                assert(sp == runner_order(c, rq));
                assert(order_problem(sp) is Some);
                if runner_evidence_fit(c, rq) {
                    lemma_runner_order_fit(c, rq);
                }
            }
            return Err(PaperDecisionRunnerError::Event(e));
        },
    };
    let ghost regv = envelope_as_stored(registered);
    let ghost subv = envelope_as_stored(submitted);
    let ghost start = store@;
    proof {
        assert(is_runner_order_event(regv, EventType::OrderRegistered, c, rq, c.confirmed_event_id));
        assert(is_runner_order_event(subv, EventType::OrderSubmitted, c, rq, regv.event_id));
        if runner_evidence_fit(c, rq) {
            lemma_runner_event_clean(regv, EventType::OrderRegistered, c, rq, c.confirmed_event_id);
            crate::events::envelope::lemma_uuid_text_not_blank(regv.event_id);
            lemma_runner_event_clean(subv, EventType::OrderSubmitted, c, rq, regv.event_id);
        }
    }
    let reg = match StoredEvent::from_envelope(registered) {
        Ok(s) => s,
        Err(e) => {
            proof {
                assert(evidence_stops(start, store@, regv, subv, c, rq));
            }
            return Err(PaperDecisionRunnerError::Store(e));
        },
    };
    let sub = match StoredEvent::from_envelope(submitted) {
        Ok(s) => s,
        Err(e) => {
            proof {
                assert(evidence_stops(start, store@, regv, subv, c, rq));
            }
            return Err(PaperDecisionRunnerError::Store(e));
        },
    };
    proof {
        crate::store::jsonl_store::lemma_first_key_index_found(start, regv.idempotency_key);
    }
    match store.append_event(&reg) {
        Ok(_) => {},
        Err(e) => {
            proof {
                lemma_append_extends(start, reg@);
                assert(evidence_stops(start, store@, regv, subv, c, rq));
            }
            return Err(PaperDecisionRunnerError::Store(e));
        },
    }
    let ghost mid = store@;
    proof {
        lemma_append_extends(start, reg@);
        crate::store::jsonl_store::lemma_first_key_index_found(mid, subv.idempotency_key);
        if evidence_keys_settled(start, c, rq) && first_key_index(mid, subv.idempotency_key) is Some {
            let i = first_key_index(mid, subv.idempotency_key)->0;
            if i < start.len() {
                assert(mid[i] == start[i]);
            }
        }
    }
    match store.append_event(&sub) {
        Ok(_) => {},
        Err(e) => {
            proof {
                lemma_append_extends(mid, sub@);
                assert(store@.take(start.len() as int) =~= start) by {
                    assert(store@.take(mid.len() as int) == mid);
                    assert(mid.take(start.len() as int) == start);
                }
                assert(evidence_stops(start, store@, regv, subv, c, rq));
            }
            return Err(PaperDecisionRunnerError::Store(e));
        },
    }
    proof {
        lemma_append_extends(mid, sub@);
        assert(store@.take(start.len() as int) =~= start) by {
            assert(store@.take(mid.len() as int) == mid);
            assert(mid.take(start.len() as int) == start);
        }
        assert(store@ == after_append(after_append(start, reg@), sub@));
        if runner_evidence_fit(c, rq) && evidence_keys_settled(start, c, rq) {
            assert(append_outcome(mid, sub@) is Appended);
            assert(store@ == mid.push(sub@));
            assert(store@.drop_last() =~= mid);
            assert(store@.last() == sub@);
        }
    }
    Ok(())
}

/// The request that records a fill result through the fill observation flow.
pub open spec fn observation_request_of(f: PaperExecutionResultView) -> FillObservationRequestView {
    FillObservationRequestView {
        fill_id: f.fill_id,
        order_id: f.order_id,
        decision_id: Some(f.decision_id),
        instrument: Some(f.instrument),
        side: f.side,
        quantity: f.quantity,
        price: f.avg_price,
        venue: Some(POLYMARKET_PAPER_VENUE@),
        executed_at: f.executed_at,
    }
}

/// The item of a request sent to the backend: without a fill the candidate is
/// unsupported and the boundary's notes are its reasons; with one, the fill's
/// observation decides (a duplicate, an executed fill, or neither).
pub open spec fn executed_item(
    c: CandidateView,
    r: PaperExecutionRequestView,
    rep: PaperExecutionImportReportView,
    obs: FillObservationReportView,
) -> PaperDecisionRunItemView {
    match rep.fill_result {
        None => PaperDecisionRunItemView {
            signal_id: c.signal_id,
            decision_id: Some(r.decision_id),
            order_id: Some(r.order_id),
            market_slug: Some(c.market_slug),
            outcome: Some(r.outcome),
            side: Some(r.side),
            disposition: PaperDecisionRunDisposition::SkippedUnsupported,
            execution_request_sent: true,
            fill_id: None,
            backend_trade_id: rep.backend_trade_id,
            persisted: false,
            duplicate: false,
            reasons: rep.notes,
        },
        Some(f) => PaperDecisionRunItemView {
            signal_id: c.signal_id,
            decision_id: Some(r.decision_id),
            order_id: Some(r.order_id),
            market_slug: Some(c.market_slug),
            outcome: Some(r.outcome),
            side: Some(r.side),
            disposition: if obs.duplicate {
                PaperDecisionRunDisposition::Duplicate
            } else if obs.disposition == FillObservationDisposition::Observed {
                PaperDecisionRunDisposition::Executed
            } else {
                PaperDecisionRunDisposition::SkippedUnsupported
            },
            execution_request_sent: true,
            fill_id: Some(f.fill_id),
            backend_trade_id: Some(f.backend_trade_id),
            persisted: obs.persisted,
            duplicate: obs.duplicate,
            reasons: obs.reasons,
        },
    }
}

/// An item explained by the trades a backend reported for the request and by
/// the observation of the fill they map to, over the log it met.
pub open spec fn execution_explains(
    item: PaperDecisionRunItemView,
    c: CandidateView,
    r: PaperExecutionRequestView,
    trades: Seq<PolymarketPaperTradeView>,
    obs: FillObservationReportView,
    log: Seq<StoredEventView>,
) -> bool {
    let rep = import_outcome(trades, r, Seq::empty());
    &&& item == executed_item(c, r, rep, obs)
    &&& (rep.fill_result matches Some(f) ==> fill_report_follows(obs, observation_request_of(f), log, false))
}

/// What a step does to the log it met after the order's evidence: a persisted
/// fill is the one event it appends, else the log stays as it is.
pub open spec fn execution_store_effect(
    persisted: bool,
    r: PaperExecutionRequestView,
    trades: Seq<PolymarketPaperTradeView>,
    log: Seq<StoredEventView>,
    after: Seq<StoredEventView>,
) -> bool {
    if persisted {
        import_outcome(trades, r, Seq::empty()).fill_result matches Some(f) && fill_written(
            log,
            after,
            observation_request_of(f),
        )
    } else {
        after == log
    }
}

/// Sends the request of a candidate: the order's evidence is written, the
/// backend executes it, and the fill it reports is recorded. Whatever trades
/// the backend reports, the item is what they make of the request, and the
/// log gains the evidence and, when the fill is persisted, that fill.
pub fn execute_paper_candidate<B: PolymarketPaperBackend>(
    store: &mut JsonlEventStore,
    backend: &B,
    candidate: &ConfirmedSignalCandidate,
    request: &PaperExecutionRequest,
) -> (r: Result<PaperDecisionRunItem, PaperDecisionRunnerError>)
    ensures
        log_extends(old(store)@, final(store)@),
        r matches Ok(item) ==> exists|
            trades: Seq<PolymarketPaperTradeView>,
            obs: FillObservationReportView,
            log: Seq<StoredEventView>,
        |
            #[trigger] execution_explains(item@, candidate@, request@, trades, obs, log)
                && backend.reports(request@, trades)
                && evidence_appended(old(store)@, log, candidate@, request@)
                && execution_store_effect(item.persisted, request@, trades, log, final(store)@),
        r is Err ==> evidence_fails(old(store)@, final(store)@, candidate@, request@) || evidence_appended(
            old(store)@,
            final(store)@,
            candidate@,
            request@,
        ),
        runner_evidence_fit(candidate@, request@) && evidence_keys_settled(old(store)@, candidate@, request@) && r is Err
            ==> evidence_appended(old(store)@, final(store)@, candidate@, request@),
        runner_evidence_fit(candidate@, request@) && evidence_keys_settled(old(store)@, candidate@, request@) && (r matches Ok(
            item,
        ) && item.persisted) ==> final(store)@.len() > 0 && paper_fill_signal(final(store)@.last()) == Some(
            candidate.signal_id@,
        ),
{
    let ghost start = store@;
    match persist_paper_order_evidence(store, candidate, request) {
        Ok(()) => {},
        Err(e) => return Err(e),
    }
    let ghost evidenced = store@;
    let none: Vec<String> = Vec::new();
    let report = match submit_paper_order_and_map_fill(backend, request, &none) {
        Ok(rep) => rep,
        Err(e) => return Err(PaperDecisionRunnerError::Adapter(e)),
    };
    proof {
        assert(strs(none@) =~= Seq::<Seq<char>>::empty());
    }
    let ghost trades = choose|trades: Seq<PolymarketPaperTradeView>|
        backend.reports(request@, trades) && report@ == import_outcome(trades, request@, strs(none@));
    match report.fill_result {
        None => {
            let item = PaperDecisionRunItem {
                signal_id: candidate.signal_id.clone(),
                decision_id: Some(request.decision_id.clone()),
                order_id: Some(request.order_id.clone()),
                market_slug: Some(candidate.market_slug.clone()),
                outcome: Some(request.outcome.clone()),
                side: Some(request.side),
                disposition: PaperDecisionRunDisposition::SkippedUnsupported,
                execution_request_sent: true,
                fill_id: None,
                backend_trade_id: report.backend_trade_id,
                persisted: false,
                duplicate: false,
                reasons: report.notes,
            };
            proof {
                let obs = arbitrary::<FillObservationReportView>();
                assert(item@ =~= executed_item(candidate@, request@, import_outcome(trades, request@, Seq::empty()), obs));
                assert(execution_explains(item@, candidate@, request@, trades, obs, store@));
                assert(execution_store_effect(item.persisted, request@, trades, store@, store@));
            }
            Ok(item)
        },
        Some(fill) => {
            let ghost mid = store@;
            let obs_request = fill.to_fill_observation_request();
            let observation = match observe_fill(store, &obs_request, FillObservationOptions { dry_run: false }) {
                Ok(o) => o,
                Err(e) => {
                    proof {
                        assert(store@ == mid);
                        assert(mid == evidenced);
                    }
                    return Err(PaperDecisionRunnerError::Materialization(e));
                },
            };
            proof {
                if observation.persisted {
                    assert(store@.drop_last() == mid);
                    assert(mid == evidenced);
                    assert(store@.len() > 0);
                    assert(store@.take(start.len() as int) =~= start) by {
                        assert(mid.take(start.len() as int) == start);
                        assert(store@.take(mid.len() as int) =~= mid);
                    }
                }
            }
            let disposition = if observation.duplicate {
                PaperDecisionRunDisposition::Duplicate
            } else if observation.disposition == FillObservationDisposition::Observed {
                PaperDecisionRunDisposition::Executed
            } else {
                PaperDecisionRunDisposition::SkippedUnsupported
            };
            let item = PaperDecisionRunItem {
                signal_id: candidate.signal_id.clone(),
                decision_id: Some(request.decision_id.clone()),
                order_id: Some(request.order_id.clone()),
                market_slug: Some(candidate.market_slug.clone()),
                outcome: Some(request.outcome.clone()),
                side: Some(request.side),
                disposition,
                execution_request_sent: true,
                fill_id: Some(fill.fill_id.clone()),
                backend_trade_id: Some(fill.backend_trade_id.clone()),
                persisted: observation.persisted,
                duplicate: observation.duplicate,
                reasons: observation.reasons,
            };
            proof {
                assert(item@ =~= executed_item(candidate@, request@, import_outcome(trades, request@, Seq::empty()), observation@));
                assert(execution_explains(item@, candidate@, request@, trades, observation@, mid));
                assert(execution_store_effect(item.persisted, request@, trades, mid, store@));
            }
            Ok(item)
        },
    }
}

#[derive(Debug, Clone, PartialEq, Eq)]
pub struct PaperDecisionRunReport {
    pub dry_run: bool,
    pub confirmed_signals_seen: usize,
    pub execution_requests_sent: usize,
    pub fills_persisted: usize,
    pub skipped_already_executed: usize,
    pub skipped_unsupported: usize,
    pub duplicates: usize,
    pub blocked_by_risk: usize,
    pub blocked_max_open_positions: usize,
    pub blocked_max_total_exposure: usize,
    pub blocked_market_exposure: usize,
    pub blocked_duplicate_market_outcome: usize,
    pub blocked_market_order_limit: usize,
    pub items: Vec<PaperDecisionRunItem>,
}

pub open spec fn count_run_items(items: Seq<PaperDecisionRunItemView>, f: spec_fn(PaperDecisionRunItemView) -> bool) -> nat
    decreases items.len(),
{
    if items.len() == 0 {
        0
    } else {
        count_run_items(items.drop_last(), f) + if f(items.last()) {
            1nat
        } else {
            0nat
        }
    }
}

pub open spec fn count_blocks(blocks: Seq<PaperRiskGuardDecision>, d: PaperRiskGuardDecision) -> nat
    decreases blocks.len(),
{
    if blocks.len() == 0 {
        0
    } else {
        count_blocks(blocks.drop_last(), d) + if blocks.last() == d {
            1nat
        } else {
            0nat
        }
    }
}

pub open spec fn run_item_views(v: Seq<PaperDecisionRunItem>) -> Seq<PaperDecisionRunItemView> {
    v.map_values(|x: PaperDecisionRunItem| x@)
}

fn count_items_where(items: &Vec<PaperDecisionRunItem>, which: u8) -> (r: usize)
    requires
        which < 5,
    ensures
        r == count_run_items(run_item_views(items@), item_test(which)),
{
    let ghost v = run_item_views(items@);
    let mut n: usize = 0;
    let mut i: usize = 0;
    proof {
        assert(v.take(0) =~= Seq::<PaperDecisionRunItemView>::empty());
    }
    while i < items.len()
        invariant
            i <= items.len(),
            which < 5,
            v == run_item_views(items@),
            n == count_run_items(v.take(i as int), item_test(which)),
            n <= i,
        decreases items.len() - i,
    {
        proof {
            assert(v.take(i as int + 1).drop_last() =~= v.take(i as int));
            assert(v.take(i as int + 1).last() == items@[i as int]@);
        }
        let x = &items[i];
        let hit = if which == 0 {
            x.execution_request_sent
        } else if which == 1 {
            x.persisted
        } else if which == 2 {
            x.disposition == PaperDecisionRunDisposition::SkippedAlreadyExecuted
        } else if which == 3 {
            x.disposition == PaperDecisionRunDisposition::SkippedUnsupported
        } else {
            x.duplicate
        };
        if hit {
            n = n + 1;
        }
        i = i + 1;
    }
    proof {
        assert(v.take(items.len() as int) =~= v);
    }
    n
}

/// The tests the report counts items by.
pub open spec fn item_test(which: u8) -> spec_fn(PaperDecisionRunItemView) -> bool {
    |x: PaperDecisionRunItemView|
        if which == 0 {
            x.execution_request_sent
        } else if which == 1 {
            x.persisted
        } else if which == 2 {
            x.disposition == PaperDecisionRunDisposition::SkippedAlreadyExecuted
        } else if which == 3 {
            x.disposition == PaperDecisionRunDisposition::SkippedUnsupported
        } else {
            x.duplicate
        }
}

fn count_blocks_of(blocks: &Vec<PaperRiskGuardDecision>, d: PaperRiskGuardDecision) -> (r: usize)
    ensures
        r == count_blocks(blocks@, d),
{
    let mut n: usize = 0;
    let mut i: usize = 0;
    proof {
        assert(blocks@.take(0) =~= Seq::<PaperRiskGuardDecision>::empty());
    }
    while i < blocks.len()
        invariant
            i <= blocks.len(),
            n == count_blocks(blocks@.take(i as int), d),
            n <= i,
        decreases blocks.len() - i,
    {
        proof {
            assert(blocks@.take(i as int + 1).drop_last() =~= blocks@.take(i as int));
        }
        if blocks[i] == d {
            n = n + 1;
        }
        i = i + 1;
    }
    proof {
        assert(blocks@.take(blocks.len() as int) =~= blocks@);
    }
    n
}

/// The report of a run: its items, counted; `blocks` holds the guard's
/// decision for each item it blocked.
pub fn paper_run_report(
    dry_run: bool,
    items: Vec<PaperDecisionRunItem>,
    blocks: &Vec<PaperRiskGuardDecision>,
) -> (r: PaperDecisionRunReport)
    ensures
        r.dry_run == dry_run,
        r.items@ == items@,
        r.confirmed_signals_seen == items.len(),
        r.execution_requests_sent == count_run_items(run_item_views(items@), item_test(0)),
        r.fills_persisted == count_run_items(run_item_views(items@), item_test(1)),
        r.skipped_already_executed == count_run_items(run_item_views(items@), item_test(2)),
        r.skipped_unsupported == count_run_items(run_item_views(items@), item_test(3)),
        r.duplicates == count_run_items(run_item_views(items@), item_test(4)),
        r.blocked_by_risk == blocks.len(),
        r.blocked_max_open_positions == count_blocks(blocks@, PaperRiskGuardDecision::BlockedMaxOpenPositions),
        r.blocked_max_total_exposure == count_blocks(blocks@, PaperRiskGuardDecision::BlockedMaxTotalExposure),
        r.blocked_market_exposure == count_blocks(blocks@, PaperRiskGuardDecision::BlockedMarketExposure),
        r.blocked_duplicate_market_outcome == count_blocks(blocks@, PaperRiskGuardDecision::BlockedDuplicateMarketOutcome),
        r.blocked_market_order_limit == count_blocks(blocks@, PaperRiskGuardDecision::BlockedMarketOrderLimit),
{
    PaperDecisionRunReport {
        dry_run,
        confirmed_signals_seen: items.len(),
        execution_requests_sent: count_items_where(&items, 0),
        fills_persisted: count_items_where(&items, 1),
        skipped_already_executed: count_items_where(&items, 2),
        skipped_unsupported: count_items_where(&items, 3),
        duplicates: count_items_where(&items, 4),
        blocked_by_risk: blocks.len(),
        blocked_max_open_positions: count_blocks_of(blocks, PaperRiskGuardDecision::BlockedMaxOpenPositions),
        blocked_max_total_exposure: count_blocks_of(blocks, PaperRiskGuardDecision::BlockedMaxTotalExposure),
        blocked_market_exposure: count_blocks_of(blocks, PaperRiskGuardDecision::BlockedMarketExposure),
        blocked_duplicate_market_outcome: count_blocks_of(blocks, PaperRiskGuardDecision::BlockedDuplicateMarketOutcome),
        blocked_market_order_limit: count_blocks_of(blocks, PaperRiskGuardDecision::BlockedMarketOrderLimit),
        items,
    }
}

/// A signal that already has a paper fill is skipped, whatever its policy.
pub proof fn lemma_executed_signal_is_skipped(
    log: Seq<StoredEventView>,
    c: CandidateView,
    executed: Seq<Seq<char>>,
    usd_size: Binary64,
    account: Seq<char>,
    data_dir: Seq<char>,
)
    requires
        executed.contains(c.signal_id),
    ensures
        candidate_plan(log, c, executed, usd_size, account, data_dir) matches PaperCandidatePlanView::Settled(item)
            && item.disposition == PaperDecisionRunDisposition::SkippedAlreadyExecuted,
{
}

/// Only a signal whose promotion policy is eligible gets a paper request.
pub proof fn lemma_requests_need_eligible_signals(
    log: Seq<StoredEventView>,
    c: CandidateView,
    executed: Seq<Seq<char>>,
    usd_size: Binary64,
    account: Seq<char>,
    data_dir: Seq<char>,
)
    ensures
        candidate_plan(log, c, executed, usd_size, account, data_dir) is Ready ==> {
            &&& !executed.contains(c.signal_id)
            &&& paper_side_of(c.signal_side) is Some
            &&& signal_promotion_of(log, c.signal_id) matches Some(p) && p.status == PromotionPolicyStatus::Eligible
        },
{
}

/// One request sent to the backend, and the observation of the fill it maps
/// to, when it maps to one.
#[derive(Debug)]
pub struct PaperFillSimulation {
    pub import: PaperExecutionImportReport,
    pub observation: Option<FillObservationReport>,
}

/// Sends a request to the backend and records the fill it maps to. A request
/// the adapter refuses never reaches the backend and leaves the log as it is.
pub fn simulate_paper_fill<B: PolymarketPaperBackend>(
    store: &mut JsonlEventStore,
    backend: &B,
    request: &PaperExecutionRequest,
    dry_run: bool,
) -> (r: Result<PaperFillSimulation, PaperDecisionRunnerError>)
    ensures
        request_problem(request@) matches Some(m) ==> (r matches Err(e) && e matches PaperDecisionRunnerError::Adapter(a)
            && a@ == PolymarketPaperAdapterErrorView::InvalidRequest(m) && final(store)@ == old(store)@),
        dry_run ==> final(store)@ == old(store)@,
        r is Err ==> final(store)@ == old(store)@,
        r matches Ok(sim) ==> exists|trades: Seq<PolymarketPaperTradeView>|
            backend.reports(request@, trades) && #[trigger] import_outcome(trades, request@, Seq::empty())
                == sim.import@ && match sim.import@.fill_result {
                None => sim.observation is None && final(store)@ == old(store)@,
                Some(f) => sim.observation matches Some(obs) && fill_report_follows(
                    obs@,
                    observation_request_of(f),
                    old(store)@,
                    dry_run,
                ) && if obs.persisted {
                    fill_written(old(store)@, final(store)@, observation_request_of(f))
                } else {
                    final(store)@ == old(store)@
                },
            },
{
    let none: Vec<String> = Vec::new();
    proof {
        assert(strs(none@) =~= Seq::<Seq<char>>::empty());
    }
    let import = match submit_paper_order_and_map_fill(backend, request, &none) {
        Ok(rep) => rep,
        Err(e) => return Err(PaperDecisionRunnerError::Adapter(e)),
    };
    let observation = match &import.fill_result {
        None => None,
        Some(fill) => {
            let obs_request = fill.to_fill_observation_request();
            match observe_fill(store, &obs_request, FillObservationOptions { dry_run }) {
                Ok(o) => Some(o),
                Err(e) => return Err(PaperDecisionRunnerError::Materialization(e)),
            }
        },
    };
    Ok(PaperFillSimulation { import, observation })
}


/// A repeated run sends no second request for a signal: once the log holds a
/// paper fill for a candidate's signal, planning the candidate against the
/// executed signals of that log settles it as already executed.
pub proof fn lemma_filled_signal_is_settled(
    log: Seq<StoredEventView>,
    i: int,
    c: CandidateView,
    executed: Seq<Seq<char>>,
    usd_size: Binary64,
    account: Seq<char>,
    data_dir: Seq<char>,
)
    requires
        0 <= i < log.len(),
        crate::execution::candidates::paper_fill_signal(log[i]) == Some(c.signal_id),
        executed.to_set() == crate::execution::candidates::executed_signals(log),
    ensures
        candidate_plan(log, c, executed, usd_size, account, data_dir) == PaperCandidatePlanView::Settled(
            early_item(c, None, None, "SignalAlreadyHasPaperFill"@),
        ),
{
    crate::execution::candidates::lemma_paper_fill_executes_its_signal(log, i);
    assert(executed.to_set().contains(c.signal_id));
}

} // verus!
