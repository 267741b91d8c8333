//! The fill observation flow: a fill reported by a venue is recorded against a
//! local order once the order has been submitted.
use vstd::prelude::*;

use crate::codecs::all_decode;
use crate::events::{
    Binary64, EventEnvelope, EventPayload, EventType, FillReceived, FillSide, Linkage, OrderView,
    PayloadView, Provenance, SourceKind, Timestamp,
};
use crate::json_text::{json_string, json_string_text};
use crate::materialization::error::{MaterializationError, MaterializationErrorView};
use crate::materialization::plan::{batch_trace_id, lead_then, led_by};
use crate::queries::render::{order_lifecycle_reason_text, render_order_lifecycle_reason};
use crate::queries::support::or_else;
use crate::queries::{
    order_lifecycle_of, OrderLifecycleReport, OrderLifecycleReportView, OrderLifecycleStatus,
    QueryService,
};
use crate::events::envelope::lemma_uuid_text_not_blank;
use crate::events::{is_positive_finite, linkage_problem, provenance_problem, FillReceivedView, LinkageView};
use crate::store::jsonl_store::{first_key_index, has_key, lemma_first_key_index_found};
use crate::store::stored_event::{envelope_as_stored, link_problem, stored_problem};
use crate::text::{is_blank, lemma_not_blank_joined};
use crate::store::{event_views, JsonlEventStore, StoredEvent, StoredEventView};
use crate::text::{clone_opt, opt_view, owned, same_text, strs};

verus! {

/// A fill reported for a local order. Quantity and price travel as their
/// binary64 encodings; the fields left out are taken from the local order.
#[derive(Debug, Clone, PartialEq, Eq)]
pub struct FillObservationRequest {
    pub fill_id: String,
    pub order_id: String,
    pub decision_id: Option<String>,
    pub instrument: Option<String>,
    pub side: FillSide,
    pub quantity: Binary64,
    pub price: Binary64,
    pub venue: Option<String>,
    pub executed_at: Timestamp,
}

pub struct FillObservationRequestView {
    pub fill_id: Seq<char>,
    pub order_id: Seq<char>,
    pub decision_id: Option<Seq<char>>,
    pub instrument: Option<Seq<char>>,
    pub side: FillSide,
    pub quantity: Binary64,
    pub price: Binary64,
    pub venue: Option<Seq<char>>,
    pub executed_at: Timestamp,
}

impl View for FillObservationRequest {
    type V = FillObservationRequestView;

    open spec fn view(&self) -> FillObservationRequestView {
        FillObservationRequestView {
            fill_id: self.fill_id@,
            order_id: self.order_id@,
            decision_id: opt_view(self.decision_id),
            instrument: opt_view(self.instrument),
            side: self.side,
            quantity: self.quantity,
            price: self.price,
            venue: opt_view(self.venue),
            executed_at: self.executed_at,
        }
    }
}

#[derive(Debug, Clone, Copy, PartialEq, Eq)]
pub struct FillObservationOptions {
    pub dry_run: bool,
}

impl Default for FillObservationOptions {
    fn default() -> (r: Self)
        ensures
            !r.dry_run,
    {
        FillObservationOptions { dry_run: false }
    }
}

#[derive(Debug, Clone, Copy, PartialEq, Eq, Structural)]
pub enum FillObservationDisposition {
    Eligible,
    Observed,
    Skipped,
    Inconsistent,
}

#[derive(Debug, Clone, PartialEq, Eq)]
pub struct FillObservationReport {
    pub dry_run: bool,
    pub batch_trace_id: String,
    pub fill_id: String,
    pub order_id: String,
    pub order_status_before: Option<String>,
    pub resolved_decision_id: Option<String>,
    pub resolved_instrument: String,
    pub resolved_venue: String,
    pub disposition: FillObservationDisposition,
    pub persisted: bool,
    pub duplicate: bool,
    pub reasons: Vec<String>,
    pub notes: Vec<String>,
}

pub struct FillObservationReportView {
    pub dry_run: bool,
    pub batch_trace_id: Seq<char>,
    pub fill_id: Seq<char>,
    pub order_id: Seq<char>,
    pub order_status_before: Option<Seq<char>>,
    pub resolved_decision_id: Option<Seq<char>>,
    pub resolved_instrument: Seq<char>,
    pub resolved_venue: Seq<char>,
    pub disposition: FillObservationDisposition,
    pub persisted: bool,
    pub duplicate: bool,
    pub reasons: Seq<Seq<char>>,
    pub notes: Seq<Seq<char>>,
}

impl View for FillObservationReport {
    type V = FillObservationReportView;

    open spec fn view(&self) -> FillObservationReportView {
        FillObservationReportView {
            dry_run: self.dry_run,
            batch_trace_id: self.batch_trace_id@,
            fill_id: self.fill_id@,
            order_id: self.order_id@,
            order_status_before: opt_view(self.order_status_before),
            resolved_decision_id: opt_view(self.resolved_decision_id),
            resolved_instrument: self.resolved_instrument@,
            resolved_venue: self.resolved_venue@,
            disposition: self.disposition,
            persisted: self.persisted,
            duplicate: self.duplicate,
            reasons: strs(self.reasons@),
            notes: strs(self.notes@),
        }
    }
}

/// What the latest local record of an order says about it.
pub struct LocalOrderContext {
    pub decision_id: Option<String>,
    pub hypothesis_id: Option<String>,
    pub signal_id: Option<String>,
    pub instrument: String,
    pub venue: String,
    pub parent_event_id: String,
    pub correlation_id: Option<String>,
}

pub struct OrderContextView {
    pub decision_id: Option<Seq<char>>,
    pub hypothesis_id: Option<Seq<char>>,
    pub signal_id: Option<Seq<char>>,
    pub instrument: Seq<char>,
    pub venue: Seq<char>,
    pub parent_event_id: Seq<char>,
    pub correlation_id: Option<Seq<char>>,
}

impl View for LocalOrderContext {
    type V = OrderContextView;

    open spec fn view(&self) -> OrderContextView {
        OrderContextView {
            decision_id: opt_view(self.decision_id),
            hypothesis_id: opt_view(self.hypothesis_id),
            signal_id: opt_view(self.signal_id),
            instrument: self.instrument@,
            venue: self.venue@,
            parent_event_id: self.event_id_view(),
            correlation_id: opt_view(self.correlation_id),
        }
    }
}

impl LocalOrderContext {
    pub open spec fn event_id_view(&self) -> Seq<char> {
        self.parent_event_id@
    }
}

/// The context an order event gives: the decision from its payload, else from
/// its linkage.
pub open spec fn event_context(e: StoredEventView, p: OrderView) -> OrderContextView {
    OrderContextView {
        decision_id: or_else(p.decision_id, e.linkage.decision_id),
        hypothesis_id: e.linkage.hypothesis_id,
        signal_id: e.linkage.signal_id,
        instrument: p.instrument,
        venue: p.venue,
        parent_event_id: e.event_id,
        correlation_id: e.linkage.correlation_id,
    }
}

/// The context of an order over a log: its latest submission, else its first
/// registration.
pub open spec fn order_context_of(s: Seq<StoredEventView>, id: Seq<char>) -> Option<OrderContextView>
    decreases s.len(),
{
    if s.len() == 0 {
        None
    } else {
        let prev = order_context_of(s.drop_last(), id);
        let e = s.last();
        match e.payload {
            PayloadView::OrderSubmitted(p) => if p.order_id == id {
                Some(event_context(e, p))
            } else {
                prev
            },
            PayloadView::OrderRegistered(p) => if p.order_id == id && prev is None {
                Some(event_context(e, p))
            } else {
                prev
            },
            _ => prev,
        }
    }
}

pub open spec fn lifecycle_status_name(s: OrderLifecycleStatus) -> Seq<char> {
    match s {
        OrderLifecycleStatus::Registered => "Registered"@,
        OrderLifecycleStatus::Submitted => "Submitted"@,
        OrderLifecycleStatus::ObservedWithFills => "ObservedWithFills"@,
        OrderLifecycleStatus::Weak => "Weak"@,
        OrderLifecycleStatus::Inconsistent => "Inconsistent"@,
    }
}

pub fn lifecycle_status_text(s: OrderLifecycleStatus) -> (r: &'static str)
    ensures
        r@ == lifecycle_status_name(s),
{
    match s {
        OrderLifecycleStatus::Registered => "Registered",
        OrderLifecycleStatus::Submitted => "Submitted",
        OrderLifecycleStatus::ObservedWithFills => "ObservedWithFills",
        OrderLifecycleStatus::Weak => "Weak",
        OrderLifecycleStatus::Inconsistent => "Inconsistent",
    }
}

pub open spec fn unwrap_text_or(o: Option<Seq<char>>, d: Seq<char>) -> Seq<char> {
    match o {
        Some(x) => x,
        None => d,
    }
}

pub open spec fn mismatch_text(kind: Seq<char>, requested: Seq<char>, local: Seq<char>) -> Seq<char> {
    kind + "(requested="@ + requested + ", local="@ + local + ")"@
}

/// The first disagreement between the request and the local order: decision,
/// then instrument, then venue.
pub open spec fn mismatch_reason(req: FillObservationRequestView, ctx: OrderContextView) -> Option<Seq<char>> {
    if req.decision_id is Some && ctx.decision_id is Some && req.decision_id->0 != ctx.decision_id->0 {
        Some(mismatch_text("DecisionIdMismatch"@, req.decision_id->0, ctx.decision_id->0))
    } else if req.instrument is Some && req.instrument->0 != ctx.instrument {
        Some(mismatch_text("InstrumentMismatch"@, req.instrument->0, ctx.instrument))
    } else if req.venue is Some && req.venue->0 != ctx.venue {
        Some(mismatch_text("VenueMismatch"@, req.venue->0, ctx.venue))
    } else {
        None
    }
}

/// Whether the flow goes on to record the fill: the request agrees with the
/// local order and the order has been submitted.
pub open spec fn fill_goes_ahead(req: FillObservationRequestView, ctx: OrderContextView, st: OrderLifecycleStatus) -> bool {
    mismatch_reason(req, ctx) is None && (st == OrderLifecycleStatus::Submitted || st
        == OrderLifecycleStatus::ObservedWithFills)
}

pub open spec fn fill_disposition(
    req: FillObservationRequestView,
    ctx: OrderContextView,
    st: OrderLifecycleStatus,
    dry_run: bool,
    appended: bool,
) -> FillObservationDisposition {
    if mismatch_reason(req, ctx) is Some {
        FillObservationDisposition::Inconsistent
    } else if st == OrderLifecycleStatus::Registered {
        FillObservationDisposition::Skipped
    } else if fill_goes_ahead(req, ctx, st) {
        if dry_run {
            FillObservationDisposition::Eligible
        } else if appended {
            FillObservationDisposition::Observed
        } else {
            FillObservationDisposition::Skipped
        }
    } else {
        FillObservationDisposition::Inconsistent
    }
}

pub open spec fn fill_lead(
    req: FillObservationRequestView,
    ctx: OrderContextView,
    st: OrderLifecycleStatus,
    dry_run: bool,
    appended: bool,
) -> Option<Seq<char>> {
    match mismatch_reason(req, ctx) {
        Some(m) => Some(m),
        None => if st == OrderLifecycleStatus::Registered {
            Some("OrderNotSubmittedLocally"@)
        } else if fill_goes_ahead(req, ctx, st) {
            if !dry_run && !appended {
                Some("DuplicateFillObservation"@)
            } else {
                None
            }
        } else {
            Some("LifecycleNotEligible("@ + lifecycle_status_name(st) + ")"@)
        },
    }
}

pub open spec fn waiting_note() -> Seq<char> {
    "fill observation boundary waits for local order submission before recording observed execution"@
}

pub open spec fn fill_notes(
    req: FillObservationRequestView,
    ctx: OrderContextView,
    lc: OrderLifecycleReportView,
) -> Seq<Seq<char>> {
    if mismatch_reason(req, ctx) is None && lc.status == OrderLifecycleStatus::Registered {
        lc.notes.push(waiting_note())
    } else {
        lc.notes
    }
}

/// The report of an observation over the log it met: the order's lifecycle
/// and local context decide it; `persisted` tells whether the fill was newly
/// written.
pub open spec fn fill_report_follows(
    rep: FillObservationReportView,
    req: FillObservationRequestView,
    log: Seq<StoredEventView>,
    dry_run: bool,
) -> bool {
    match (order_lifecycle_of(log, req.order_id), order_context_of(log, req.order_id)) {
        (Some(lc), Some(ctx)) => {
            let appended = rep.persisted;
            &&& rep.dry_run == dry_run
            &&& rep.fill_id == req.fill_id
            &&& rep.order_id == req.order_id
            &&& rep.order_status_before == Some(lifecycle_status_name(lc.status))
            &&& rep.resolved_decision_id == or_else(req.decision_id, ctx.decision_id)
            &&& rep.resolved_instrument == unwrap_text_or(req.instrument, ctx.instrument)
            &&& rep.resolved_venue == unwrap_text_or(req.venue, ctx.venue)
            &&& rep.disposition == fill_disposition(req, ctx, lc.status, dry_run, appended)
            &&& rep.persisted ==> fill_goes_ahead(req, ctx, lc.status) && !dry_run
            &&& rep.duplicate == (fill_goes_ahead(req, ctx, lc.status) && !dry_run && !appended)
            &&& rep.reasons == led_by(
                fill_lead(req, ctx, lc.status, dry_run, appended),
                lc.reasons.map_values(|r| order_lifecycle_reason_text(r)),
            )
            &&& rep.notes == fill_notes(req, ctx, lc)
        },
        _ => false,
    }
}

/// The idempotency key of the fill this flow writes for a request.
pub open spec fn observed_key(req: FillObservationRequestView, ctx: OrderContextView) -> Seq<char> {
    "fill.received:v1:"@ + unwrap_text_or(req.venue, ctx.venue) + ":"@ + req.order_id + ":"@
        + req.fill_id
}

/// A fill written by this flow: the request's fill, against its order, with
/// what the request left out taken from the local order.
pub open spec fn is_observed_fill(e: StoredEventView, req: FillObservationRequestView, ctx: OrderContextView) -> bool {
    &&& e.event_type == EventType::FillReceived
    &&& e.idempotency_key == observed_key(req, ctx)
    &&& e.produced_by == "runtime.fill_observation"@
    &&& e.linkage.order_id == Some(req.order_id)
    &&& e.linkage == fill_linkage(req, ctx)
    &&& e.schema_version == "v1"@
    &&& e.aggregate_key == Some(unwrap_text_or(req.instrument, ctx.instrument))
    &&& e.provenance.source_kind == SourceKind::Runtime
    &&& e.provenance.source_ref == Some("observe-fill://order/"@ + req.order_id)
    &&& e.provenance.producer_run_id is Some
    &&& e.provenance.actor == Some("execution_observation_v1"@)
    &&& e.provenance.trace_id == Some(req.fill_id)
    &&& e.provenance.notes == Some(
        "{\"execution_observation\":\"execution_observation_v1\",\"fill_id\":"@ + json_string_text(req.fill_id)
            + ",\"order_id\":"@ + json_string_text(req.order_id) + "}"@,
    )
    &&& e.payload matches PayloadView::FillReceived(p) && {
        &&& p.fill_id == req.fill_id
        &&& p.order_id == req.order_id
        &&& p.decision_id == or_else(req.decision_id, ctx.decision_id)
        &&& p.instrument == unwrap_text_or(req.instrument, ctx.instrument)
        &&& p.venue == unwrap_text_or(req.venue, ctx.venue)
        &&& p.side == req.side
        &&& p.quantity == req.quantity
        &&& p.price == req.price
        &&& p.executed_at == req.executed_at
    }
}

pub open spec fn fill_written(
    before: Seq<StoredEventView>,
    after: Seq<StoredEventView>,
    req: FillObservationRequestView,
) -> bool {
    &&& after.len() == before.len() + 1
    &&& after.drop_last() == before
    &&& order_context_of(before, req.order_id) matches Some(ctx) && is_observed_fill(after.last(), req, ctx)
        && !has_key(before, observed_key(req, ctx))
}

fn context_from(e: &StoredEvent, p: &crate::events::OrderRegistered) -> (c: LocalOrderContext)
    ensures
        c@ == event_context(e@, p@),
{
    LocalOrderContext {
        decision_id: match &p.decision_id {
            Some(d) => Some(d.clone()),
            None => clone_opt(&e.linkage.decision_id),
        },
        hypothesis_id: clone_opt(&e.linkage.hypothesis_id),
        signal_id: clone_opt(&e.linkage.signal_id),
        instrument: p.instrument.clone(),
        venue: p.venue.clone(),
        parent_event_id: e.event_id.clone(),
        correlation_id: clone_opt(&e.linkage.correlation_id),
    }
}

fn context_from_submitted(e: &StoredEvent, p: &crate::events::OrderSubmitted) -> (c: LocalOrderContext)
    ensures
        c@ == event_context(e@, p@),
{
    LocalOrderContext {
        decision_id: match &p.decision_id {
            Some(d) => Some(d.clone()),
            None => clone_opt(&e.linkage.decision_id),
        },
        hypothesis_id: clone_opt(&e.linkage.hypothesis_id),
        signal_id: clone_opt(&e.linkage.signal_id),
        instrument: p.instrument.clone(),
        venue: p.venue.clone(),
        parent_event_id: e.event_id.clone(),
        correlation_id: clone_opt(&e.linkage.correlation_id),
    }
}

/// The local context of an order: its latest submission, else its first registration.
fn latest_context(events: &Vec<StoredEvent>, order_id: &str) -> (r: Option<LocalOrderContext>)
    ensures
        match r {
            Some(c) => order_context_of(event_views(events@), order_id@) == Some(c@),
            None => order_context_of(event_views(events@), order_id@) is None,
        },
{
    let ghost s = event_views(events@);
    let mut latest: Option<LocalOrderContext> = None;
    let mut i: usize = 0;
    proof {
        assert(s.take(0) =~= Seq::<StoredEventView>::empty());
    }
    while i < events.len()
        invariant
            i <= events.len(),
            s == event_views(events@),
            match latest {
                Some(c) => order_context_of(s.take(i as int), order_id@) == Some(c@),
                None => order_context_of(s.take(i as int), order_id@) is None,
            },
        decreases events.len() - i,
    {
        proof {
            assert(s.take(i as int + 1).drop_last() =~= s.take(i as int));
            assert(s.take(i as int + 1).last() == events@[i as int]@);
        }
        let e = &events[i];
        match &e.payload {
            EventPayload::OrderSubmitted(p) => {
                if same_text(p.order_id.as_str(), order_id) {
                    latest = Some(context_from_submitted(e, p));
                }
            },
            EventPayload::OrderRegistered(p) => {
                if same_text(p.order_id.as_str(), order_id) && latest.is_none() {
                    latest = Some(context_from(e, p));
                }
            },
            _ => {},
        }
        i = i + 1;
    }
    proof {
        assert(s.take(events.len() as int) =~= s);
    }
    latest
}

fn mismatch_of(kind: &str, requested: &String, local: &String) -> (r: String)
    ensures
        r@ == mismatch_text(kind@, requested@, local@),
{
    let mut t = owned(kind);
    t.append("(requested=");
    t.append(requested.as_str());
    t.append(", local=");
    t.append(local.as_str());
    t.append(")");
    t
}

fn find_mismatch(req: &FillObservationRequest, ctx: &LocalOrderContext) -> (r: Option<String>)
    ensures
        opt_view(r) == mismatch_reason(req@, ctx@),
{
    match (&req.decision_id, &ctx.decision_id) {
        (Some(d), Some(l)) => {
            if !same_text(d.as_str(), l.as_str()) {
                return Some(mismatch_of("DecisionIdMismatch", d, l));
            }
        },
        _ => {},
    }
    match &req.instrument {
        Some(i) => {
            if !same_text(i.as_str(), ctx.instrument.as_str()) {
                return Some(mismatch_of("InstrumentMismatch", i, &ctx.instrument));
            }
        },
        None => {},
    }
    match &req.venue {
        Some(v) => {
            if !same_text(v.as_str(), ctx.venue.as_str()) {
                return Some(mismatch_of("VenueMismatch", v, &ctx.venue));
            }
        },
        None => {},
    }
    None
}

fn rendered_reasons(lc: &OrderLifecycleReport) -> (r: Vec<String>)
    ensures
        strs(r@) == lc@.reasons.map_values(|x| order_lifecycle_reason_text(x)),
{
    let ghost lv = lc@;
    let mut reasons: Vec<String> = Vec::new();
    let mut k: usize = 0;
    while k < lc.reasons.len()
        invariant
            k <= lc.reasons.len(),
            lv == lc@,
            strs(reasons@) == lv.reasons.take(k as int).map_values(|x| order_lifecycle_reason_text(x)),
        decreases lc.reasons.len() - k,
    {
        let t = render_order_lifecycle_reason(&lc.reasons[k]);
        let ghost before = reasons@;
        reasons.push(t);
        proof {
            assert(strs(reasons@) =~= strs(before).push(t@));
            assert(lv.reasons.take(k as int + 1).map_values(|x| order_lifecycle_reason_text(x))
                =~= lv.reasons.take(k as int).map_values(|x| order_lifecycle_reason_text(x)).push(
                order_lifecycle_reason_text(lv.reasons[k as int]),
            ));
        }
        k = k + 1;
    }
    proof {
        assert(lv.reasons.take(k as int) =~= lv.reasons);
    }
    reasons
}

fn text_or(o: &Option<String>, d: &String) -> (r: String)
    ensures
        r@ == unwrap_text_or(opt_view(*o), d@),
{
    match o {
        Some(x) => x.clone(),
        None => d.clone(),
    }
}

fn first_of(a: &Option<String>, b: &Option<String>) -> (r: Option<String>)
    ensures
        opt_view(r) == or_else(opt_view(*a), opt_view(*b)),
{
    match a {
        Some(x) => Some(x.clone()),
        None => clone_opt(b),
    }
}

/// Given, a text is not blank.
pub open spec fn filled_in(o: Option<Seq<char>>) -> bool {
    o matches Some(t) ==> !is_blank(t)
}

/// A fit identifier: not blank, free of `:`.
pub open spec fn fit_id(t: Seq<char>) -> bool {
    !is_blank(t) && !t.contains(':')
}

/// The inputs on which the fill of a request is written when its key is free:
/// the fill and order ids and the venue are fit identifiers, the instrument
/// is not blank, the quantity and price are positive and finite, and what the
/// local order lends the event is not blank where given.
pub open spec fn fill_write_owed(req: FillObservationRequestView, ctx: OrderContextView) -> bool {
    &&& fit_id(req.fill_id)
    &&& fit_id(req.order_id)
    &&& fit_id(unwrap_text_or(req.venue, ctx.venue))
    &&& !is_blank(unwrap_text_or(req.instrument, ctx.instrument))
    &&& filled_in(or_else(req.decision_id, ctx.decision_id))
    &&& is_positive_finite(req.quantity)
    &&& is_positive_finite(req.price)
    &&& filled_in(ctx.hypothesis_id)
    &&& filled_in(ctx.signal_id)
    &&& filled_in(ctx.correlation_id)
    &&& !is_blank(ctx.parent_event_id)
}

/// The linkage of the fill this flow writes.
pub open spec fn fill_linkage(req: FillObservationRequestView, ctx: OrderContextView) -> LinkageView {
    LinkageView {
        hypothesis_id: ctx.hypothesis_id,
        signal_id: ctx.signal_id,
        decision_id: or_else(req.decision_id, ctx.decision_id),
        order_id: Some(req.order_id),
        position_id: None,
        parent_event_id: Some(ctx.parent_event_id),
        correlation_id: ctx.correlation_id,
    }
}

/// The stored event `e` states the same fact as the fill this flow writes for
/// the request: the store takes the two as one.
pub open spec fn same_observed_fill(e: StoredEventView, req: FillObservationRequestView, ctx: OrderContextView) -> bool {
    &&& e.event_type == EventType::FillReceived
    &&& e.schema_version == "v1"@
    &&& e.produced_by == "runtime.fill_observation"@
    &&& e.aggregate_key == Some(unwrap_text_or(req.instrument, ctx.instrument))
    &&& e.linkage == fill_linkage(req, ctx)
    &&& e.payload == PayloadView::FillReceived(
        FillReceivedView {
            fill_id: req.fill_id,
            decision_id: or_else(req.decision_id, ctx.decision_id),
            order_id: req.order_id,
            instrument: unwrap_text_or(req.instrument, ctx.instrument),
            side: req.side,
            quantity: req.quantity,
            price: req.price,
            venue: unwrap_text_or(req.venue, ctx.venue),
            executed_at: req.executed_at,
        },
    )
}

/// The fill's key is free in the log, or the event first stored under it
/// states the same fact.
pub open spec fn fill_key_settled(log: Seq<StoredEventView>, req: FillObservationRequestView, ctx: OrderContextView) -> bool {
    match first_key_index(log, observed_key(req, ctx)) {
        Some(i) => same_observed_fill(log[i], req, ctx),
        None => true,
    }
}

/// Records the requested fill: `Ok(true)` when it is new to the store,
/// `Ok(false)` when the store already holds it.
#[verifier::rlimit(80)]
#[verifier::spinoff_prover]
fn persist_fill(
    store: &mut JsonlEventStore,
    req: &FillObservationRequest,
    ctx: &LocalOrderContext,
    batch: &String,
) -> (r: Result<bool, MaterializationError>)
    ensures
        match r {
            Ok(true) => {
                &&& final(store)@.len() == old(store)@.len() + 1
                &&& final(store)@.drop_last() == old(store)@
                &&& is_observed_fill(final(store)@.last(), req@, ctx@)
                &&& final(store)@.last().provenance.producer_run_id == Some(batch@)
                &&& !has_key(old(store)@, observed_key(req@, ctx@))
            },
            _ => final(store)@ == old(store)@,
        },
        fill_write_owed(req@, ctx@) && !is_blank(batch@) && !has_key(old(store)@, observed_key(req@, ctx@)) ==> r matches Ok(true),
        fill_write_owed(req@, ctx@) && !is_blank(batch@) && fill_key_settled(old(store)@, req@, ctx@) ==> r is Ok,
        r matches Ok(false) ==> has_key(old(store)@, observed_key(req@, ctx@)),
{
    let quoted_fill = match json_string(req.fill_id.as_str()) {
        Ok(q) => q,
        Err(e) => return Err(MaterializationError::Serde(e)),
    };
    let quoted_order = match json_string(req.order_id.as_str()) {
        Ok(q) => q,
        Err(e) => return Err(MaterializationError::Serde(e)),
    };
    let mut notes = owned("{\"execution_observation\":\"execution_observation_v1\",\"fill_id\":");
    notes.append(quoted_fill.as_str());
    notes.append(",\"order_id\":");
    notes.append(quoted_order.as_str());
    notes.append("}");
    let mut source_ref = owned("observe-fill://order/");
    source_ref.append(req.order_id.as_str());
    let provenance = Provenance {
        source_kind: SourceKind::Runtime,
        source_ref: Some(source_ref),
        producer_run_id: Some(batch.clone()),
        actor: Some(owned("execution_observation_v1")),
        trace_id: Some(req.fill_id.clone()),
        notes: Some(notes),
    };
    let instrument = text_or(&req.instrument, &ctx.instrument);
    let linkage = Linkage {
        hypothesis_id: clone_opt(&ctx.hypothesis_id),
        signal_id: clone_opt(&ctx.signal_id),
        decision_id: first_of(&req.decision_id, &ctx.decision_id),
        order_id: Some(req.order_id.clone()),
        position_id: None,
        parent_event_id: Some(ctx.parent_event_id.clone()),
        correlation_id: clone_opt(&ctx.correlation_id),
    };
    let payload = FillReceived {
        fill_id: req.fill_id.clone(),
        decision_id: first_of(&req.decision_id, &ctx.decision_id),
        order_id: req.order_id.clone(),
        instrument: instrument.clone(),
        side: req.side,
        quantity: req.quantity,
        price: req.price,
        venue: text_or(&req.venue, &ctx.venue),
        executed_at: req.executed_at,
    };
    proof {
        if fill_write_owed(req@, ctx@) && !is_blank(batch@) {
            reveal_strlit("runtime.fill_observation");
            reveal_strlit("v1");
            reveal_strlit("fill.received:v1:");
            reveal_strlit("observe-fill://order/");
            reveal_strlit("execution_observation_v1");
            reveal_strlit("{\"execution_observation\":\"execution_observation_v1\",\"fill_id\":");
            lemma_not_blank_joined("runtime.fill_observation"@, Seq::empty(), 0);
            lemma_not_blank_joined("v1"@, Seq::empty(), 0);
            let k1 = "fill.received:v1:"@ + payload@.venue + ":"@ + payload@.order_id + ":"@;
            assert(k1[0] == "fill.received:v1:"@[0]);
            lemma_not_blank_joined(k1, payload@.fill_id, 0);
            lemma_not_blank_joined("observe-fill://order/"@, req.order_id@, 0);
            lemma_not_blank_joined("execution_observation_v1"@, Seq::empty(), 0);
            assert(notes@[0] == '{');
            lemma_not_blank_joined(notes@, Seq::empty(), 0);
        }
    }
    let envelope = match EventEnvelope::new_fill_received(
        "runtime.fill_observation",
        Some(instrument),
        linkage,
        provenance,
        payload,
    ) {
        Ok(e) => e,
        Err(e) => return Err(MaterializationError::Event(e)),
    };
    proof {
        if fill_write_owed(req@, ctx@) && !is_blank(batch@) {
            lemma_uuid_text_not_blank(envelope.event_id@);
            assert(linkage_problem(envelope.linkage@) is None);
            assert(provenance_problem(envelope.provenance@) is None);
            assert(link_problem(envelope.linkage@, PayloadView::FillReceived(envelope.payload@)) is None);
            assert(stored_problem(envelope_as_stored(envelope)) is None);
        }
    }
    let stored = match StoredEvent::from_envelope(envelope) {
        Ok(s) => s,
        Err(e) => return Err(MaterializationError::Store(e)),
    };
    proof {
        lemma_first_key_index_found(old(store)@, stored@.idempotency_key);
        assert(stored@.linkage == fill_linkage(req@, ctx@));
        assert(stored@.idempotency_key == observed_key(req@, ctx@));
    }
    match store.append_event(&stored) {
        Ok(appended) => {
            proof {
                if appended {
                    assert(store@.drop_last() =~= old(store)@);
                }
            }
            Ok(appended)
        },
        Err(e) => Err(MaterializationError::Store(e)),
    }
}

/// The inputs on which the flow reports without writing, and so cannot fail:
/// the log decodes, the order has a lifecycle and a local record, and either
/// the run is dry or the fill is not to be recorded.
pub open spec fn fill_report_owed(log: Seq<StoredEventView>, req: FillObservationRequestView, dry_run: bool) -> bool {
    &&& all_decode(log)
    &&& match (order_lifecycle_of(log, req.order_id), order_context_of(log, req.order_id)) {
        (Some(lc), Some(ctx)) => dry_run || !fill_goes_ahead(req, ctx, lc.status),
        _ => false,
    }
}

/// The inputs on which a run that writes records the fill, or finds it
/// already stored, and so cannot fail: the log decodes, the order has a
/// lifecycle and a local record, the fill goes ahead, its event can be built,
/// and its key is free or holds the same fact.
pub open spec fn fill_record_owed(log: Seq<StoredEventView>, req: FillObservationRequestView) -> bool {
    &&& all_decode(log)
    &&& match (order_lifecycle_of(log, req.order_id), order_context_of(log, req.order_id)) {
        (Some(lc), Some(ctx)) => fill_goes_ahead(req, ctx, lc.status) && fill_write_owed(req, ctx)
            && fill_key_settled(log, req, ctx),
        _ => false,
    }
}

/// Whether the fill of the request is new to the log.
pub open spec fn fill_is_new(log: Seq<StoredEventView>, req: FillObservationRequestView) -> bool {
    match order_context_of(log, req.order_id) {
        Some(ctx) => !has_key(log, observed_key(req, ctx)),
        None => false,
    }
}

pub open spec fn not_visible_text(id: Seq<char>) -> Seq<char> {
    "order "@ + id + " is not visible in local lifecycle"@
}

pub open spec fn no_evidence_text(id: Seq<char>) -> Seq<char> {
    "order "@ + id + " has lifecycle but no local order.registered/order.submitted evidence"@
}

/// Records a fill reported for a local order, once the order has been
/// submitted and the request agrees with it. A request that disagrees with the
/// local order, or comes before the submission, is reported and not recorded;
/// a dry run records nothing.
pub fn observe_fill(
    store: &mut JsonlEventStore,
    request: &FillObservationRequest,
    options: FillObservationOptions,
) -> (r: Result<FillObservationReport, MaterializationError>)
    ensures
        r matches Ok(rep) ==> fill_report_follows(rep@, request@, old(store)@, options.dry_run),
        r matches Ok(rep) ==> if rep.persisted {
            fill_written(old(store)@, final(store)@, request@)
        } else {
            final(store)@ == old(store)@
        },
        r is Err ==> final(store)@ == old(store)@,
        options.dry_run ==> final(store)@ == old(store)@,
        !all_decode(old(store)@) ==> r is Err,
        all_decode(old(store)@) && order_lifecycle_of(old(store)@, request.order_id@) is None ==> (r matches Err(e)
            && e@ == MaterializationErrorView::InvalidState(not_visible_text(request.order_id@))),
        all_decode(old(store)@) && order_lifecycle_of(old(store)@, request.order_id@) is Some && order_context_of(
            old(store)@,
            request.order_id@,
        ) is None ==> (r matches Err(e) && e@ == MaterializationErrorView::InvalidState(
            no_evidence_text(request.order_id@),
        )),
        fill_report_owed(old(store)@, request@, options.dry_run) ==> r is Ok,
        !options.dry_run && fill_record_owed(old(store)@, request@) ==> (r matches Ok(rep) && rep.persisted
            == fill_is_new(old(store)@, request@)),
{
    let ghost start = store@;
    let batch = match batch_trace_id("fill-observation-") {
        Ok(b) => b,
        Err(e) => return Err(e),
    };
    let lifecycle = {
        let qs = QueryService::new(&*store);
        match qs.order_lifecycle(request.order_id.as_str()) {
            Ok(Some(l)) => l,
            Ok(None) => {
                let mut m = owned("order ");
                m.append(request.order_id.as_str());
                m.append(" is not visible in local lifecycle");
                return Err(MaterializationError::InvalidState(m));
            },
            Err(e) => return Err(MaterializationError::Query(e)),
        }
    };
    let context = {
        let events = store.read_all();
        match latest_context(&events, request.order_id.as_str()) {
            Some(c) => c,
            None => {
                let mut m = owned("order ");
                m.append(request.order_id.as_str());
                m.append(" has lifecycle but no local order.registered/order.submitted evidence");
                return Err(MaterializationError::InvalidState(m));
            },
        }
    };
    let ghost lc = lifecycle@;
    let ghost ctx = context@;
    proof {
        reveal_strlit("fill-observation-");
        assert(!crate::text::is_white_space("fill-observation-"@[0]));
        let t = choose|t: Seq<char>| batch@ == "fill-observation-"@ + t;
        lemma_not_blank_joined("fill-observation-"@, t, 0);
    }
    let status = lifecycle.status;
    let reasons = rendered_reasons(&lifecycle);
    let mut notes = lifecycle.notes;
    let mismatch = find_mismatch(request, &context);
    let goes_ahead = mismatch.is_none() && (status == OrderLifecycleStatus::Submitted || status
        == OrderLifecycleStatus::ObservedWithFills);
    let mut appended = false;
    if goes_ahead && !options.dry_run {
        match persist_fill(store, request, &context, &batch) {
            Ok(a) => {
                appended = a;
            },
            Err(e) => return Err(e),
        }
    }
    let (disposition, lead): (FillObservationDisposition, Option<String>) = match mismatch {
        Some(m) => (FillObservationDisposition::Inconsistent, Some(m)),
        None => {
            if status == OrderLifecycleStatus::Registered {
                notes.push(owned(
                    "fill observation boundary waits for local order submission before recording observed execution",
                ));
                (FillObservationDisposition::Skipped, Some(owned("OrderNotSubmittedLocally")))
            } else if goes_ahead {
                if options.dry_run {
                    (FillObservationDisposition::Eligible, None)
                } else if appended {
                    (FillObservationDisposition::Observed, None)
                } else {
                    (FillObservationDisposition::Skipped, Some(owned("DuplicateFillObservation")))
                }
            } else {
                let mut l = owned("LifecycleNotEligible(");
                l.append(lifecycle_status_text(status));
                l.append(")");
                (FillObservationDisposition::Inconsistent, Some(l))
            }
        },
    };
    proof {
        assert(crate::text::opt_view(lead) == fill_lead(request@, ctx, lc.status, options.dry_run, appended));
        assert(strs(notes@) == fill_notes(request@, ctx, lc));
    }
    let report = FillObservationReport {
        dry_run: options.dry_run,
        batch_trace_id: batch,
        fill_id: request.fill_id.clone(),
        order_id: request.order_id.clone(),
        order_status_before: Some(owned(lifecycle_status_text(status))),
        resolved_decision_id: first_of(&request.decision_id, &context.decision_id),
        resolved_instrument: text_or(&request.instrument, &context.instrument),
        resolved_venue: text_or(&request.venue, &context.venue),
        disposition,
        persisted: appended,
        duplicate: goes_ahead && !options.dry_run && !appended,
        reasons: lead_then(lead, reasons),
        notes,
    };
    Ok(report)
}

/// A fill is recorded only by a run that is not dry, for an order that has
/// been submitted, when the request agrees with the local order.
pub proof fn lemma_recorded_fill_needs_submission(
    rep: FillObservationReportView,
    req: FillObservationRequestView,
    log: Seq<StoredEventView>,
    dry_run: bool,
)
    requires
        fill_report_follows(rep, req, log, dry_run),
        rep.persisted,
    ensures
        !dry_run,
        order_lifecycle_of(log, req.order_id) matches Some(lc) && (lc.status == OrderLifecycleStatus::Submitted
            || lc.status == OrderLifecycleStatus::ObservedWithFills),
        order_context_of(log, req.order_id) matches Some(ctx) && mismatch_reason(req, ctx) is None,
{
}

/// A fill is written once: after a request's fill is written, the log holds
/// its key under the same order context, so the same request is not written
/// again.
pub proof fn lemma_fill_is_written_once(
    before: Seq<StoredEventView>,
    mid: Seq<StoredEventView>,
    after: Seq<StoredEventView>,
    req: FillObservationRequestView,
)
    requires
        fill_written(before, mid, req),
    ensures
        !fill_written(mid, after, req),
{
    let ctx = order_context_of(before, req.order_id)->0;
    assert(mid.drop_last() == before);
    assert(order_context_of(mid, req.order_id) == order_context_of(before, req.order_id));
    assert(mid[mid.len() - 1].idempotency_key == observed_key(req, ctx));
    assert(has_key(mid, observed_key(req, ctx)));
}

} // verus!
