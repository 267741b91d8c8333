//! The lineage of a decision: what it stands on upstream and what followed it
//! downstream, read off the event log.
use vstd::prelude::*;

use crate::codecs::check_decodes;
use crate::events::{EventPayload, PayloadView, VetoScope};
use crate::queries::error::QueryError;
use crate::queries::readiness::{
    refers_to_decision, signal_readiness, signal_readiness_of, SignalReadiness,
    SignalReadinessStatus,
};
use crate::queries::support::{
    add_opt, answers, contains_text, firsts, insert_opt, lemma_take_step, lemma_views_push, pairs,
    triples, viewed, views_of, only_if,
};
use crate::store::{event_views, StoredEvent, StoredEventView};
use crate::text::{
    clone_strs, insert_sorted, lemma_sorted_elements_of, opt_text_is, owned, same_text,
    sorted_elements, strictly_sorted, strs,
};

verus! {

#[derive(Debug, Clone, Copy, PartialEq, Eq, Structural)]
pub enum DecisionLineageStatus {
    Supported,
    Weak,
    Blocked,
    Inconsistent,
}

#[derive(Debug, Clone, PartialEq, Eq)]
pub enum DecisionLineageReason {
    DecisionFormedObserved,
    MissingDecisionFormed,
    UpstreamSignalSupported { signal_id: String },
    UpstreamSignalGeneratedUnconfirmed { signal_id: String },
    UpstreamSignalBlocked { signal_id: String },
    UpstreamSignalInconsistent { signal_id: String },
    MissingUpstreamSignalReference,
    ConflictingSignalReferences { values: Vec<String> },
    HypothesisTraced { hypothesis_id: String },
    ConflictingHypothesisReferences { values: Vec<String> },
    DirectDecisionVetoObserved { veto_id: String, reason_code: String },
    LocalOrderRegistered { order_id: String, venue: String },
    DownstreamFillObserved { fill_id: String, order_id: String },
    FillInstrumentMismatch { fill_id: String, fill_instrument: String },
}

pub enum DecisionLineageReasonView {
    DecisionFormedObserved,
    MissingDecisionFormed,
    UpstreamSignalSupported { signal_id: Seq<char> },
    UpstreamSignalGeneratedUnconfirmed { signal_id: Seq<char> },
    UpstreamSignalBlocked { signal_id: Seq<char> },
    UpstreamSignalInconsistent { signal_id: Seq<char> },
    MissingUpstreamSignalReference,
    ConflictingSignalReferences { values: Seq<Seq<char>> },
    HypothesisTraced { hypothesis_id: Seq<char> },
    ConflictingHypothesisReferences { values: Seq<Seq<char>> },
    DirectDecisionVetoObserved { veto_id: Seq<char>, reason_code: Seq<char> },
    LocalOrderRegistered { order_id: Seq<char>, venue: Seq<char> },
    DownstreamFillObserved { fill_id: Seq<char>, order_id: Seq<char> },
    FillInstrumentMismatch { fill_id: Seq<char>, fill_instrument: Seq<char> },
}

impl View for DecisionLineageReason {
    type V = DecisionLineageReasonView;

    open spec fn view(&self) -> DecisionLineageReasonView {
        match self {
            DecisionLineageReason::DecisionFormedObserved => DecisionLineageReasonView::DecisionFormedObserved,
            DecisionLineageReason::MissingDecisionFormed => DecisionLineageReasonView::MissingDecisionFormed,
            DecisionLineageReason::UpstreamSignalSupported { signal_id } => DecisionLineageReasonView::UpstreamSignalSupported {
                signal_id: signal_id@,
            },
            DecisionLineageReason::UpstreamSignalGeneratedUnconfirmed { signal_id } => DecisionLineageReasonView::UpstreamSignalGeneratedUnconfirmed {
                signal_id: signal_id@,
            },
            DecisionLineageReason::UpstreamSignalBlocked { signal_id } => DecisionLineageReasonView::UpstreamSignalBlocked {
                signal_id: signal_id@,
            },
            DecisionLineageReason::UpstreamSignalInconsistent { signal_id } => DecisionLineageReasonView::UpstreamSignalInconsistent {
                signal_id: signal_id@,
            },
            DecisionLineageReason::MissingUpstreamSignalReference => DecisionLineageReasonView::MissingUpstreamSignalReference,
            DecisionLineageReason::ConflictingSignalReferences { values } => DecisionLineageReasonView::ConflictingSignalReferences {
                values: strs(values@),
            },
            DecisionLineageReason::HypothesisTraced { hypothesis_id } => DecisionLineageReasonView::HypothesisTraced {
                hypothesis_id: hypothesis_id@,
            },
            DecisionLineageReason::ConflictingHypothesisReferences { values } => DecisionLineageReasonView::ConflictingHypothesisReferences {
                values: strs(values@),
            },
            DecisionLineageReason::DirectDecisionVetoObserved { veto_id, reason_code } => DecisionLineageReasonView::DirectDecisionVetoObserved {
                veto_id: veto_id@,
                reason_code: reason_code@,
            },
            DecisionLineageReason::LocalOrderRegistered { order_id, venue } => DecisionLineageReasonView::LocalOrderRegistered {
                order_id: order_id@,
                venue: venue@,
            },
            DecisionLineageReason::DownstreamFillObserved { fill_id, order_id } => DecisionLineageReasonView::DownstreamFillObserved {
                fill_id: fill_id@,
                order_id: order_id@,
            },
            DecisionLineageReason::FillInstrumentMismatch { fill_id, fill_instrument } => DecisionLineageReasonView::FillInstrumentMismatch {
                fill_id: fill_id@,
                fill_instrument: fill_instrument@,
            },
        }
    }
}

#[derive(Debug, Clone, PartialEq, Eq)]
pub struct LineageVetoRef {
    pub veto_id: String,
    pub target_id: String,
    pub reason_code: String,
}

impl View for LineageVetoRef {
    type V = (Seq<char>, Seq<char>, Seq<char>);

    open spec fn view(&self) -> (Seq<char>, Seq<char>, Seq<char>) {
        (self.veto_id@, self.target_id@, self.reason_code@)
    }
}

#[derive(Debug, Clone, PartialEq, Eq)]
pub struct DecisionUpstreamRefs {
    pub signal_ids: Vec<String>,
    pub hypothesis_ids: Vec<String>,
    pub decision_vetoes: Vec<LineageVetoRef>,
    pub signal_vetoes: Vec<LineageVetoRef>,
}

pub struct DecisionUpstreamRefsView {
    pub signal_ids: Seq<Seq<char>>,
    pub hypothesis_ids: Seq<Seq<char>>,
    pub decision_vetoes: Seq<(Seq<char>, Seq<char>, Seq<char>)>,
    pub signal_vetoes: Seq<(Seq<char>, Seq<char>, Seq<char>)>,
}

impl View for DecisionUpstreamRefs {
    type V = DecisionUpstreamRefsView;

    open spec fn view(&self) -> DecisionUpstreamRefsView {
        DecisionUpstreamRefsView {
            signal_ids: strs(self.signal_ids@),
            hypothesis_ids: strs(self.hypothesis_ids@),
            decision_vetoes: views_of(self.decision_vetoes@),
            signal_vetoes: views_of(self.signal_vetoes@),
        }
    }
}

#[derive(Debug, Clone, PartialEq, Eq)]
pub struct DecisionDownstreamRefs {
    pub fill_ids: Vec<String>,
    pub order_ids: Vec<String>,
    pub local_order_ids: Vec<String>,
    /// The orders of the decision whose submission is logged, in increasing order.
    pub submitted_order_ids: Vec<String>,
}

pub struct DecisionDownstreamRefsView {
    pub fill_ids: Seq<Seq<char>>,
    pub order_ids: Seq<Seq<char>>,
    pub local_order_ids: Seq<Seq<char>>,
    pub submitted_order_ids: Seq<Seq<char>>,
}

impl View for DecisionDownstreamRefs {
    type V = DecisionDownstreamRefsView;

    open spec fn view(&self) -> DecisionDownstreamRefsView {
        DecisionDownstreamRefsView {
            fill_ids: strs(self.fill_ids@),
            order_ids: strs(self.order_ids@),
            local_order_ids: strs(self.local_order_ids@),
            submitted_order_ids: strs(self.submitted_order_ids@),
        }
    }
}

#[derive(Debug, Clone, PartialEq, Eq)]
pub struct DecisionLineageReport {
    pub decision_id: String,
    pub status: DecisionLineageStatus,
    pub reasons: Vec<DecisionLineageReason>,
    pub upstream_refs: DecisionUpstreamRefs,
    pub downstream_refs: DecisionDownstreamRefs,
    pub notes: Vec<String>,
}

pub struct DecisionLineageReportView {
    pub decision_id: Seq<char>,
    pub status: DecisionLineageStatus,
    pub reasons: Seq<DecisionLineageReasonView>,
    pub upstream_refs: DecisionUpstreamRefsView,
    pub downstream_refs: DecisionDownstreamRefsView,
    pub notes: Seq<Seq<char>>,
}

impl View for DecisionLineageReport {
    type V = DecisionLineageReportView;

    open spec fn view(&self) -> DecisionLineageReportView {
        DecisionLineageReportView {
            decision_id: self.decision_id@,
            status: self.status,
            reasons: views_of(self.reasons@),
            upstream_refs: self.upstream_refs@,
            downstream_refs: self.downstream_refs@,
            notes: strs(self.notes@),
        }
    }
}

/// What one pass over the log says about a decision, before its signals are followed.
pub struct LineageFacts {
    pub relevant: bool,
    pub formed_instruments: Set<Seq<char>>,
    pub signal_ids: Set<Seq<char>>,
    pub hypothesis_ids: Set<Seq<char>>,
    /// `(veto_id, target_id, reason_code)` of each veto of the decision.
    pub decision_vetoes: Seq<(Seq<char>, Seq<char>, Seq<char>)>,
    /// `(order_id, venue)` of each local registration of an order of the decision.
    pub local_orders: Seq<(Seq<char>, Seq<char>)>,
    pub local_order_ids: Set<Seq<char>>,
    pub submitted_order_ids: Set<Seq<char>>,
    /// `(fill_id, order_id)` of each fill of the decision.
    pub fills: Seq<(Seq<char>, Seq<char>)>,
    pub fill_order_ids: Set<Seq<char>>,
    /// `(fill_id, fill_instrument)` of each fill on an instrument the decision was not formed on.
    pub mismatches: Seq<(Seq<char>, Seq<char>)>,
}

pub open spec fn no_lineage_facts() -> LineageFacts {
    LineageFacts {
        relevant: false,
        formed_instruments: Set::empty(),
        signal_ids: Set::empty(),
        hypothesis_ids: Set::empty(),
        decision_vetoes: Seq::empty(),
        local_orders: Seq::empty(),
        local_order_ids: Set::empty(),
        submitted_order_ids: Set::empty(),
        fills: Seq::empty(),
        fill_order_ids: Set::empty(),
        mismatches: Seq::empty(),
    }
}

pub open spec fn lineage_step(f: LineageFacts, e: StoredEventView, id: Seq<char>) -> LineageFacts {
    match e.payload {
        PayloadView::DecisionFormed(p) => if p.decision_id == id {
            LineageFacts {
                relevant: true,
                formed_instruments: f.formed_instruments.insert(p.instrument),
                signal_ids: add_opt(f.signal_ids, e.linkage.signal_id),
                hypothesis_ids: add_opt(f.hypothesis_ids, e.linkage.hypothesis_id),
                ..f
            }
        } else {
            f
        },
        PayloadView::VetoRaised(p) => if p.scope == VetoScope::Decision && p.target_id == id {
            LineageFacts {
                relevant: true,
                decision_vetoes: f.decision_vetoes.push((p.veto_id, p.target_id, p.reason_code)),
                ..f
            }
        } else {
            f
        },
        PayloadView::OrderRegistered(p) => if refers_to_decision(p.decision_id, e.linkage.decision_id, id) {
            LineageFacts {
                relevant: true,
                local_order_ids: f.local_order_ids.insert(p.order_id),
                local_orders: f.local_orders.push((p.order_id, p.venue)),
                ..f
            }
        } else {
            f
        },
        PayloadView::OrderSubmitted(p) => if refers_to_decision(p.decision_id, e.linkage.decision_id, id) {
            LineageFacts { submitted_order_ids: f.submitted_order_ids.insert(p.order_id), ..f }
        } else {
            f
        },
        PayloadView::FillReceived(p) => if refers_to_decision(p.decision_id, e.linkage.decision_id, id)
            || f.local_order_ids.contains(p.order_id) {
            LineageFacts {
                relevant: true,
                mismatches: if sorted_elements(f.formed_instruments).len() > 0
                    && !f.formed_instruments.contains(p.instrument) {
                    f.mismatches.push((p.fill_id, p.instrument))
                } else {
                    f.mismatches
                },
                fills: f.fills.push((p.fill_id, p.order_id)),
                fill_order_ids: f.fill_order_ids.insert(p.order_id),
                ..f
            }
        } else {
            f
        },
        _ => f,
    }
}

pub open spec fn lineage_facts(s: Seq<StoredEventView>, id: Seq<char>) -> LineageFacts
    decreases s.len(),
{
    if s.len() == 0 {
        no_lineage_facts()
    } else {
        lineage_step(lineage_facts(s.drop_last(), id), s.last(), id)
    }
}

/// What following the signals `signals` adds: hypotheses they trace to, and their vetoes.
pub struct SignalTrace {
    pub hypothesis_ids: Set<Seq<char>>,
    pub signal_vetoes: Seq<(Seq<char>, Seq<char>, Seq<char>)>,
}

pub open spec fn trace_step(t: SignalTrace, e: StoredEventView, signals: Set<Seq<char>>) -> SignalTrace {
    match e.payload {
        PayloadView::SignalGenerated(p) => if signals.contains(p.signal_id) {
            SignalTrace {
                hypothesis_ids: add_opt(add_opt(t.hypothesis_ids, p.hypothesis_id), e.linkage.hypothesis_id),
                ..t
            }
        } else {
            t
        },
        PayloadView::SignalConfirmed(p) => if signals.contains(p.signal_id) {
            SignalTrace { hypothesis_ids: add_opt(t.hypothesis_ids, e.linkage.hypothesis_id), ..t }
        } else {
            t
        },
        PayloadView::VetoRaised(p) => if p.scope == VetoScope::Signal && signals.contains(p.target_id) {
            SignalTrace { signal_vetoes: t.signal_vetoes.push((p.veto_id, p.target_id, p.reason_code)), ..t }
        } else {
            t
        },
        _ => t,
    }
}

pub open spec fn signal_trace(
    s: Seq<StoredEventView>,
    signals: Set<Seq<char>>,
    start: Set<Seq<char>>,
) -> SignalTrace
    decreases s.len(),
{
    if s.len() == 0 {
        SignalTrace { hypothesis_ids: start, signal_vetoes: Seq::empty() }
    } else {
        trace_step(signal_trace(s.drop_last(), signals, start), s.last(), signals)
    }
}

/// The readiness status of each upstream signal, `None` where it has no readiness.
pub open spec fn upstream_statuses(s: Seq<StoredEventView>, signals: Seq<Seq<char>>) -> Seq<Option<SignalReadinessStatus>> {
    signals.map_values(
        |sid: Seq<char>|
            match signal_readiness_of(s, sid) {
                Some(r) => Some(r.status),
                None => None,
            },
    )
}

pub open spec fn upstream_lineage_reason(sid: Seq<char>, st: Option<SignalReadinessStatus>) -> DecisionLineageReasonView {
    match st {
        Some(SignalReadinessStatus::ReadyForDecision) => DecisionLineageReasonView::UpstreamSignalSupported { signal_id: sid },
        Some(SignalReadinessStatus::GeneratedUnconfirmed) => DecisionLineageReasonView::UpstreamSignalGeneratedUnconfirmed { signal_id: sid },
        Some(SignalReadinessStatus::BlockedByVeto) => DecisionLineageReasonView::UpstreamSignalBlocked { signal_id: sid },
        _ => DecisionLineageReasonView::UpstreamSignalInconsistent { signal_id: sid },
    }
}

pub open spec fn upstream_lineage_reasons(sids: Seq<Seq<char>>, sts: Seq<Option<SignalReadinessStatus>>) -> Seq<DecisionLineageReasonView> {
    Seq::new(sids.len(), |k: int| upstream_lineage_reason(sids[k], sts[k]))
}

pub open spec fn lineage_veto_reasons(v: Seq<(Seq<char>, Seq<char>, Seq<char>)>) -> Seq<DecisionLineageReasonView> {
    v.map_values(
        |x: (Seq<char>, Seq<char>, Seq<char>)| DecisionLineageReasonView::DirectDecisionVetoObserved { veto_id: x.0, reason_code: x.2 },
    )
}

pub open spec fn lineage_order_reasons(v: Seq<(Seq<char>, Seq<char>)>) -> Seq<DecisionLineageReasonView> {
    v.map_values(
        |x: (Seq<char>, Seq<char>)| DecisionLineageReasonView::LocalOrderRegistered { order_id: x.0, venue: x.1 },
    )
}

pub open spec fn lineage_fill_reasons(v: Seq<(Seq<char>, Seq<char>)>) -> Seq<DecisionLineageReasonView> {
    v.map_values(
        |x: (Seq<char>, Seq<char>)| DecisionLineageReasonView::DownstreamFillObserved { fill_id: x.0, order_id: x.1 },
    )
}

pub open spec fn lineage_mismatch_reasons(v: Seq<(Seq<char>, Seq<char>)>) -> Seq<DecisionLineageReasonView> {
    v.map_values(
        |x: (Seq<char>, Seq<char>)| DecisionLineageReasonView::FillInstrumentMismatch { fill_id: x.0, fill_instrument: x.1 },
    )
}

pub open spec fn lineage_reasons(
    f: LineageFacts,
    hyps: Seq<Seq<char>>,
    sts: Seq<Option<SignalReadinessStatus>>,
) -> Seq<DecisionLineageReasonView> {
    let sids = sorted_elements(f.signal_ids);
    seq![
        if sorted_elements(f.formed_instruments).len() > 0 {
            DecisionLineageReasonView::DecisionFormedObserved
        } else {
            DecisionLineageReasonView::MissingDecisionFormed
        },
    ] + only_if(sids.len() == 0, seq![DecisionLineageReasonView::MissingUpstreamSignalReference])
        + only_if(sids.len() > 1, seq![DecisionLineageReasonView::ConflictingSignalReferences { values: sids }])
        + only_if(hyps.len() == 1, seq![DecisionLineageReasonView::HypothesisTraced { hypothesis_id: hyps[0] }])
        + only_if(hyps.len() > 1, seq![DecisionLineageReasonView::ConflictingHypothesisReferences { values: hyps }])
        + lineage_veto_reasons(f.decision_vetoes) + lineage_order_reasons(f.local_orders)
        + lineage_fill_reasons(f.fills) + lineage_mismatch_reasons(f.mismatches)
        + upstream_lineage_reasons(sids, sts)
}

pub open spec fn lineage_notes(f: LineageFacts, hyps: Seq<Seq<char>>) -> Seq<Seq<char>> {
    only_if(
        f.fills.len() > 0,
        seq!["fill observation is downstream external evidence; order lifecycle remains out of scope in v1"@],
    ) + only_if(
        f.local_orders.len() > 0,
        seq!["order.registered provides local contractual support for downstream execution traceability"@],
    ) + only_if(hyps.len() == 0, seq!["no hypothesis is contractually traceable from the current lineage"@])
        + only_if(
        sorted_elements(f.signal_ids).len() == 0,
        seq!["decision lineage is weak because the current model has no traceable signal upstream"@],
    )
}

pub open spec fn lineage_status(
    f: LineageFacts,
    hyps: Seq<Seq<char>>,
    sts: Seq<Option<SignalReadinessStatus>>,
) -> DecisionLineageStatus {
    let formed = sorted_elements(f.formed_instruments).len() > 0;
    if !formed || sorted_elements(f.signal_ids).len() > 1 || hyps.len() > 1 || sts.contains(
        Some(SignalReadinessStatus::Inconsistent),
    ) || sts.contains(None) || f.mismatches.len() > 0 {
        DecisionLineageStatus::Inconsistent
    } else if f.decision_vetoes.len() > 0 || sts.contains(Some(SignalReadinessStatus::BlockedByVeto)) {
        DecisionLineageStatus::Blocked
    } else if sts.contains(Some(SignalReadinessStatus::ReadyForDecision)) {
        DecisionLineageStatus::Supported
    } else {
        DecisionLineageStatus::Weak
    }
}

/// The lineage of the decision `id` over the log `s`; `None` when no event concerns it.
pub closed spec fn decision_lineage_of(s: Seq<StoredEventView>, id: Seq<char>) -> Option<DecisionLineageReportView> {
    let f = lineage_facts(s, id);
    let t = signal_trace(s, f.signal_ids, f.hypothesis_ids);
    let hyps = sorted_elements(t.hypothesis_ids);
    let sts = upstream_statuses(s, sorted_elements(f.signal_ids));
    if !f.relevant {
        None
    } else {
        Some(
            DecisionLineageReportView {
                decision_id: id,
                status: lineage_status(f, hyps, sts),
                reasons: lineage_reasons(f, hyps, sts),
                upstream_refs: DecisionUpstreamRefsView {
                    signal_ids: sorted_elements(f.signal_ids),
                    hypothesis_ids: hyps,
                    decision_vetoes: f.decision_vetoes,
                    signal_vetoes: t.signal_vetoes,
                },
                downstream_refs: DecisionDownstreamRefsView {
                    fill_ids: firsts(f.fills),
                    order_ids: sorted_elements(f.fill_order_ids),
                    local_order_ids: sorted_elements(f.local_order_ids),
                    submitted_order_ids: sorted_elements(f.submitted_order_ids),
                },
                notes: lineage_notes(f, hyps),
            },
        )
    }
}

struct LineageScan {
    relevant: bool,
    formed_instruments: Vec<String>,
    signal_ids: Vec<String>,
    hypothesis_ids: Vec<String>,
    decision_vetoes: Vec<(String, String, String)>,
    local_orders: Vec<(String, String)>,
    local_order_ids: Vec<String>,
    submitted_order_ids: Vec<String>,
    fills: Vec<(String, String)>,
    fill_order_ids: Vec<String>,
    mismatches: Vec<(String, String)>,
}

impl LineageScan {
    spec fn facts(&self) -> LineageFacts {
        LineageFacts {
            relevant: self.relevant,
            formed_instruments: strs(self.formed_instruments@).to_set(),
            signal_ids: strs(self.signal_ids@).to_set(),
            hypothesis_ids: strs(self.hypothesis_ids@).to_set(),
            decision_vetoes: triples(self.decision_vetoes@),
            local_orders: pairs(self.local_orders@),
            local_order_ids: strs(self.local_order_ids@).to_set(),
            submitted_order_ids: strs(self.submitted_order_ids@).to_set(),
            fills: pairs(self.fills@),
            fill_order_ids: strs(self.fill_order_ids@).to_set(),
            mismatches: pairs(self.mismatches@),
        }
    }

    spec fn sorted(&self) -> bool {
        &&& strictly_sorted(strs(self.formed_instruments@))
        &&& strictly_sorted(strs(self.signal_ids@))
        &&& strictly_sorted(strs(self.hypothesis_ids@))
        &&& strictly_sorted(strs(self.local_order_ids@))
        &&& strictly_sorted(strs(self.submitted_order_ids@))
        &&& strictly_sorted(strs(self.fill_order_ids@))
    }

    fn observe(&mut self, e: &StoredEvent, id: &str)
        requires
            old(self).sorted(),
        ensures
            final(self).sorted(),
            final(self).facts() == lineage_step(old(self).facts(), e@, id@),
    {
        match &e.payload {
            EventPayload::DecisionFormed(p) => {
                if same_text(p.decision_id.as_str(), id) {
                    self.relevant = true;
                    insert_sorted(&mut self.formed_instruments, p.instrument.clone());
                    insert_opt(&mut self.signal_ids, &e.linkage.signal_id);
                    insert_opt(&mut self.hypothesis_ids, &e.linkage.hypothesis_id);
                }
            },
            EventPayload::VetoRaised(p) => {
                if p.scope == VetoScope::Decision && same_text(p.target_id.as_str(), id) {
                    self.relevant = true;
                    self.decision_vetoes.push(
                        (p.veto_id.clone(), p.target_id.clone(), p.reason_code.clone()),
                    );
                    proof {
                        assert(triples(self.decision_vetoes@) =~= triples(
                            old(self).decision_vetoes@,
                        ).push((p.veto_id@, p.target_id@, p.reason_code@)));
                    }
                }
            },
            EventPayload::OrderRegistered(p) => {
                if opt_text_is(&p.decision_id, id) || opt_text_is(&e.linkage.decision_id, id) {
                    self.relevant = true;
                    insert_sorted(&mut self.local_order_ids, p.order_id.clone());
                    self.local_orders.push((p.order_id.clone(), p.venue.clone()));
                    proof {
                        assert(pairs(self.local_orders@) =~= pairs(old(self).local_orders@).push(
                            (p.order_id@, p.venue@),
                        ));
                    }
                }
            },
            EventPayload::OrderSubmitted(p) => {
                if opt_text_is(&p.decision_id, id) || opt_text_is(&e.linkage.decision_id, id) {
                    insert_sorted(&mut self.submitted_order_ids, p.order_id.clone());
                }
            },
            EventPayload::FillReceived(p) => {
                if opt_text_is(&p.decision_id, id) || opt_text_is(&e.linkage.decision_id, id)
                    || contains_text(&self.local_order_ids, p.order_id.as_str()) {
                    self.relevant = true;
                    proof {
                        lemma_sorted_elements_of(strs(self.formed_instruments@));
                    }
                    if self.formed_instruments.len() > 0 && !contains_text(
                        &self.formed_instruments,
                        p.instrument.as_str(),
                    ) {
                        self.mismatches.push((p.fill_id.clone(), p.instrument.clone()));
                        proof {
                            assert(pairs(self.mismatches@) =~= pairs(old(self).mismatches@).push(
                                (p.fill_id@, p.instrument@),
                            ));
                        }
                    }
                    self.fills.push((p.fill_id.clone(), p.order_id.clone()));
                    insert_sorted(&mut self.fill_order_ids, p.order_id.clone());
                    proof {
                        assert(pairs(self.fills@) =~= pairs(old(self).fills@).push(
                            (p.fill_id@, p.order_id@),
                        ));
                    }
                }
            },
            _ => {},
        }
    }
}

fn scan_lineage(events: &[StoredEvent], id: &str) -> (r: LineageScan)
    ensures
        r.sorted(),
        r.facts() == lineage_facts(event_views(events@), id@),
{
    let ghost s = event_views(events@);
    let mut scan = LineageScan {
        relevant: false,
        formed_instruments: Vec::new(),
        signal_ids: Vec::new(),
        hypothesis_ids: Vec::new(),
        decision_vetoes: Vec::new(),
        local_orders: Vec::new(),
        local_order_ids: Vec::new(),
        submitted_order_ids: Vec::new(),
        fills: Vec::new(),
        fill_order_ids: Vec::new(),
        mismatches: Vec::new(),
    };
    proof {
        assert(strs(scan.formed_instruments@).to_set() =~= Set::empty());
        assert(strs(scan.signal_ids@).to_set() =~= Set::empty());
        assert(strs(scan.hypothesis_ids@).to_set() =~= Set::empty());
        assert(strs(scan.local_order_ids@).to_set() =~= Set::empty());
        assert(strs(scan.submitted_order_ids@).to_set() =~= Set::empty());
        assert(strs(scan.fill_order_ids@).to_set() =~= Set::empty());
        assert(triples(scan.decision_vetoes@) =~= Seq::empty());
        assert(pairs(scan.local_orders@) =~= Seq::empty());
        assert(pairs(scan.fills@) =~= Seq::empty());
        assert(pairs(scan.mismatches@) =~= Seq::empty());
        assert(scan.facts() == no_lineage_facts());
        assert(s.take(0) =~= Seq::<StoredEventView>::empty());
    }
    let mut i: usize = 0;
    while i < events.len()
        invariant
            i <= events.len(),
            s == event_views(events@),
            scan.sorted(),
            scan.facts() == lineage_facts(s.take(i as int), id@),
        decreases events.len() - i,
    {
        proof {
            lemma_take_step(s, i as int);
        }
        scan.observe(&events[i], id);
        i = i + 1;
    }
    proof {
        assert(s.take(i as int) =~= s);
    }
    scan
}

/// Follows the signals `signals` through the log: the hypotheses they trace to
/// are added to `hypotheses`, and their vetoes are returned.
fn trace_signals(
    events: &[StoredEvent],
    signals: &Vec<String>,
    hypotheses: &mut Vec<String>,
) -> (vetoes: Vec<(String, String, String)>)
    requires
        strictly_sorted(strs(old(hypotheses)@)),
    ensures
        strictly_sorted(strs(final(hypotheses)@)),
        ({
            let t = signal_trace(
                event_views(events@),
                strs(signals@).to_set(),
                strs(old(hypotheses)@).to_set(),
            );
            &&& strs(final(hypotheses)@).to_set() == t.hypothesis_ids
            &&& triples(vetoes@) == t.signal_vetoes
        }),
{
    let ghost s = event_views(events@);
    let ghost set = strs(signals@).to_set();
    let ghost start = strs(hypotheses@).to_set();
    let mut vetoes: Vec<(String, String, String)> = Vec::new();
    proof {
        assert(s.take(0) =~= Seq::<StoredEventView>::empty());
        assert(triples(vetoes@) =~= Seq::empty());
    }
    let mut i: usize = 0;
    while i < events.len()
        invariant
            i <= events.len(),
            s == event_views(events@),
            set == strs(signals@).to_set(),
            strictly_sorted(strs(hypotheses@)),
            strs(hypotheses@).to_set() == signal_trace(s.take(i as int), set, start).hypothesis_ids,
            triples(vetoes@) == signal_trace(s.take(i as int), set, start).signal_vetoes,
        decreases events.len() - i,
    {
        proof {
            lemma_take_step(s, i as int);
        }
        let e = &events[i];
        match &e.payload {
            EventPayload::SignalGenerated(p) => {
                if contains_text(signals, p.signal_id.as_str()) {
                    insert_opt(hypotheses, &p.hypothesis_id);
                    insert_opt(hypotheses, &e.linkage.hypothesis_id);
                }
            },
            EventPayload::SignalConfirmed(p) => {
                if contains_text(signals, p.signal_id.as_str()) {
                    insert_opt(hypotheses, &e.linkage.hypothesis_id);
                }
            },
            EventPayload::VetoRaised(p) => {
                if p.scope == VetoScope::Signal && contains_text(signals, p.target_id.as_str()) {
                    let ghost before = vetoes@;
                    vetoes.push((p.veto_id.clone(), p.target_id.clone(), p.reason_code.clone()));
                    proof {
                        assert(triples(vetoes@) =~= triples(before).push(
                            (p.veto_id@, p.target_id@, p.reason_code@),
                        ));
                    }
                }
            },
            _ => {},
        }
        i = i + 1;
    }
    proof {
        assert(s.take(i as int) =~= s);
    }
    vetoes
}

fn push_lineage_reason(out: &mut Vec<DecisionLineageReason>, x: DecisionLineageReason)
    ensures
        views_of(final(out)@) == views_of(old(out)@).push(x@),
{
    let ghost before = out@;
    out.push(x);
    proof {
        lemma_views_push(before, x);
    }
}

/// `kind` selects the reasons made of each pair: local orders (0), fills (1) or
/// instrument mismatches (any other).
pub open spec fn lineage_pair_reasons(kind: u8, v: Seq<(Seq<char>, Seq<char>)>) -> Seq<DecisionLineageReasonView> {
    if kind == 0 {
        lineage_order_reasons(v)
    } else if kind == 1 {
        lineage_fill_reasons(v)
    } else {
        lineage_mismatch_reasons(v)
    }
}

fn push_lineage_pairs(out: &mut Vec<DecisionLineageReason>, items: &Vec<(String, String)>, kind: u8)
    ensures
        views_of(final(out)@) == views_of(old(out)@) + lineage_pair_reasons(kind, pairs(items@)),
{
    let ghost p0 = views_of(out@);
    let mut k: usize = 0;
    while k < items.len()
        invariant
            k <= items.len(),
            views_of(out@) == p0 + lineage_pair_reasons(kind, pairs(items@).take(k as int)),
        decreases items.len() - k,
    {
        let a = items[k].0.clone();
        let b = items[k].1.clone();
        let x = if kind == 0 {
            DecisionLineageReason::LocalOrderRegistered { order_id: a, venue: b }
        } else if kind == 1 {
            DecisionLineageReason::DownstreamFillObserved { fill_id: a, order_id: b }
        } else {
            DecisionLineageReason::FillInstrumentMismatch { fill_id: a, fill_instrument: b }
        };
        push_lineage_reason(out, x);
        proof {
            assert(lineage_pair_reasons(kind, pairs(items@).take(k as int + 1)) =~= lineage_pair_reasons(
                kind,
                pairs(items@).take(k as int),
            ).push(x@));
        }
        k = k + 1;
    }
    proof {
        assert(pairs(items@).take(k as int) =~= pairs(items@));
    }
}

fn push_lineage_vetoes(out: &mut Vec<DecisionLineageReason>, items: &Vec<(String, String, String)>)
    ensures
        views_of(final(out)@) == views_of(old(out)@) + lineage_veto_reasons(triples(items@)),
{
    let ghost p0 = views_of(out@);
    let mut k: usize = 0;
    while k < items.len()
        invariant
            k <= items.len(),
            views_of(out@) == p0 + lineage_veto_reasons(triples(items@).take(k as int)),
        decreases items.len() - k,
    {
        let x = DecisionLineageReason::DirectDecisionVetoObserved {
            veto_id: items[k].0.clone(),
            reason_code: items[k].2.clone(),
        };
        push_lineage_reason(out, x);
        proof {
            assert(lineage_veto_reasons(triples(items@).take(k as int + 1)) =~= lineage_veto_reasons(
                triples(items@).take(k as int),
            ).push(x@));
        }
        k = k + 1;
    }
    proof {
        assert(triples(items@).take(k as int) =~= triples(items@));
    }
}

fn veto_refs(items: &Vec<(String, String, String)>) -> (r: Vec<LineageVetoRef>)
    ensures
        views_of(r@) == triples(items@),
{
    let mut r: Vec<LineageVetoRef> = Vec::new();
    let mut k: usize = 0;
    while k < items.len()
        invariant
            k <= items.len(),
            views_of(r@) == triples(items@).take(k as int),
        decreases items.len() - k,
    {
        let x = LineageVetoRef {
            veto_id: items[k].0.clone(),
            target_id: items[k].1.clone(),
            reason_code: items[k].2.clone(),
        };
        let ghost before = r@;
        r.push(x);
        proof {
            lemma_views_push(before, x);
            assert(triples(items@).take(k as int + 1) =~= triples(items@).take(k as int).push(x@));
        }
        k = k + 1;
    }
    proof {
        assert(triples(items@).take(k as int) =~= triples(items@));
    }
    r
}

fn first_ids(items: &Vec<(String, String)>) -> (r: Vec<String>)
    ensures
        strs(r@) == firsts(pairs(items@)),
{
    let mut r: Vec<String> = Vec::new();
    let mut k: usize = 0;
    while k < items.len()
        invariant
            k <= items.len(),
            strs(r@) == firsts(pairs(items@)).take(k as int),
        decreases items.len() - k,
    {
        let ghost before = r@;
        r.push(items[k].0.clone());
        proof {
            assert(strs(r@) =~= strs(before).push(items@[k as int].0@));
            assert(firsts(pairs(items@)).take(k as int + 1) =~= firsts(pairs(items@)).take(
                k as int,
            ).push(items@[k as int].0@));
        }
        k = k + 1;
    }
    proof {
        assert(firsts(pairs(items@)).take(k as int) =~= firsts(pairs(items@)));
    }
    r
}

fn signal_status_of(r: &Option<SignalReadiness>) -> (st: Option<SignalReadinessStatus>)
    ensures
        st == match viewed(*r) {
            Some(x) => Some(x.status),
            None => None,
        },
{
    match r {
        Some(x) => Some(x.status),
        None => None,
    }
}

/// The lineage of a decision: the signals and hypotheses it traces to, the
/// vetoes on it and on them, and the orders and fills that followed it.
#[verifier::rlimit(40)]
pub fn decision_lineage(events: &[StoredEvent], decision_id: &str) -> (r: Result<
    Option<DecisionLineageReport>,
    QueryError,
>)
    ensures
        answers(r, event_views(events@), decision_lineage_of(event_views(events@), decision_id@)),
{
    let ghost s = event_views(events@);
    match check_decodes(events) {
        Err(e) => return Err(QueryError::Codec(e)),
        Ok(_) => {},
    }
    let mut scan = scan_lineage(events, decision_id);
    let ghost f = scan.facts();
    if !scan.relevant {
        return Ok(None);
    }
    let mut hypotheses = clone_strs(&scan.hypothesis_ids);
    let signal_vetoes = trace_signals(events, &scan.signal_ids, &mut hypotheses);
    let ghost t = signal_trace(s, f.signal_ids, f.hypothesis_ids);
    proof {
        lemma_sorted_elements_of(strs(scan.formed_instruments@));
        lemma_sorted_elements_of(strs(scan.signal_ids@));
        lemma_sorted_elements_of(strs(hypotheses@));
        lemma_sorted_elements_of(strs(scan.local_order_ids@));
        lemma_sorted_elements_of(strs(scan.fill_order_ids@));
        lemma_sorted_elements_of(strs(scan.submitted_order_ids@));
    }
    let ghost hyps = sorted_elements(t.hypothesis_ids);
    let formed = scan.formed_instruments.len() > 0;
    let mut reasons: Vec<DecisionLineageReason> = Vec::new();
    if formed {
        push_lineage_reason(&mut reasons, DecisionLineageReason::DecisionFormedObserved);
    } else {
        push_lineage_reason(&mut reasons, DecisionLineageReason::MissingDecisionFormed);
    }
    if scan.signal_ids.len() == 0 {
        push_lineage_reason(&mut reasons, DecisionLineageReason::MissingUpstreamSignalReference);
    }
    if scan.signal_ids.len() > 1 {
        push_lineage_reason(
            &mut reasons,
            DecisionLineageReason::ConflictingSignalReferences { values: clone_strs(&scan.signal_ids) },
        );
    }
    if hypotheses.len() == 1 {
        push_lineage_reason(
            &mut reasons,
            DecisionLineageReason::HypothesisTraced { hypothesis_id: hypotheses[0].clone() },
        );
    }
    if hypotheses.len() > 1 {
        push_lineage_reason(
            &mut reasons,
            DecisionLineageReason::ConflictingHypothesisReferences { values: clone_strs(&hypotheses) },
        );
    }
    push_lineage_vetoes(&mut reasons, &scan.decision_vetoes);
    push_lineage_pairs(&mut reasons, &scan.local_orders, 0);
    push_lineage_pairs(&mut reasons, &scan.fills, 1);
    push_lineage_pairs(&mut reasons, &scan.mismatches, 2);
    let ghost p0 = views_of(reasons@);
    let ghost sids = strs(scan.signal_ids@);
    let ghost all_sts = upstream_statuses(s, sids);
    let mut any_inconsistent = false;
    let mut any_blocked = false;
    let mut any_supported = false;
    let mut k: usize = 0;
    while k < scan.signal_ids.len()
        invariant
            k <= scan.signal_ids.len(),
            s == event_views(events@),
            sids == strs(scan.signal_ids@),
            all_sts == upstream_statuses(s, sids),
            views_of(reasons@) == p0 + upstream_lineage_reasons(sids.take(k as int), all_sts.take(k as int)),
            any_inconsistent == (all_sts.take(k as int).contains(Some(SignalReadinessStatus::Inconsistent))
                || all_sts.take(k as int).contains(None)),
            any_blocked == all_sts.take(k as int).contains(Some(SignalReadinessStatus::BlockedByVeto)),
            any_supported == all_sts.take(k as int).contains(Some(SignalReadinessStatus::ReadyForDecision)),
        decreases scan.signal_ids.len() - k,
    {
        let sid = &scan.signal_ids[k];
        let upstream = match signal_readiness(events, sid.as_str()) {
            Ok(x) => x,
            Err(e) => return Err(e),
        };
        let st = signal_status_of(&upstream);
        proof {
            assert(st == all_sts[k as int]);
        }
        let x = match st {
            Some(SignalReadinessStatus::ReadyForDecision) => {
                any_supported = true;
                DecisionLineageReason::UpstreamSignalSupported { signal_id: sid.clone() }
            },
            Some(SignalReadinessStatus::GeneratedUnconfirmed) => DecisionLineageReason::UpstreamSignalGeneratedUnconfirmed {
                signal_id: sid.clone(),
            },
            Some(SignalReadinessStatus::BlockedByVeto) => {
                any_blocked = true;
                DecisionLineageReason::UpstreamSignalBlocked { signal_id: sid.clone() }
            },
            _ => {
                any_inconsistent = true;
                DecisionLineageReason::UpstreamSignalInconsistent { signal_id: sid.clone() }
            },
        };
        push_lineage_reason(&mut reasons, x);
        proof {
            let a = all_sts.take(k as int + 1);
            assert(a =~= all_sts.take(k as int).push(st));
            assert(upstream_lineage_reasons(sids.take(k as int + 1), a) =~= upstream_lineage_reasons(
                sids.take(k as int),
                all_sts.take(k as int),
            ).push(x@));
            assert forall|y: Option<SignalReadinessStatus>| a.contains(y) <==> (all_sts.take(
                k as int,
            ).contains(y) || y == st) by {
                if a.contains(y) {
                    let j = choose|j: int| 0 <= j < a.len() && a[j] == y;
                    if j < k {
                        assert(all_sts.take(k as int)[j] == y);
                    }
                }
                if all_sts.take(k as int).contains(y) {
                    let j = choose|j: int| 0 <= j < k && all_sts.take(k as int)[j] == y;
                    assert(a[j] == y);
                }
                if y == st {
                    assert(a[k as int] == y);
                }
            }
        }
        k = k + 1;
    }
    proof {
        assert(sids.take(k as int) =~= sids);
        assert(all_sts.take(k as int) =~= all_sts);
        assert(views_of(reasons@) =~= lineage_reasons(f, hyps, all_sts));
    }
    let mut notes: Vec<String> = Vec::new();
    if scan.fills.len() > 0 {
        notes.push(
            owned(
                "fill observation is downstream external evidence; order lifecycle remains out of scope in v1",
            ),
        );
    }
    if scan.local_orders.len() > 0 {
        notes.push(
            owned(
                "order.registered provides local contractual support for downstream execution traceability",
            ),
        );
    }
    if hypotheses.len() == 0 {
        notes.push(owned("no hypothesis is contractually traceable from the current lineage"));
    }
    if scan.signal_ids.len() == 0 {
        notes.push(
            owned(
                "decision lineage is weak because the current model has no traceable signal upstream",
            ),
        );
    }
    proof {
        assert(strs(notes@) =~= lineage_notes(f, hyps));
    }
    let status = if !formed || scan.signal_ids.len() > 1 || hypotheses.len() > 1 || any_inconsistent
        || scan.mismatches.len() > 0 {
        DecisionLineageStatus::Inconsistent
    } else if scan.decision_vetoes.len() > 0 || any_blocked {
        DecisionLineageStatus::Blocked
    } else if any_supported {
        DecisionLineageStatus::Supported
    } else {
        DecisionLineageStatus::Weak
    };
    let upstream_refs = DecisionUpstreamRefs {
        signal_ids: clone_strs(&scan.signal_ids),
        hypothesis_ids: hypotheses,
        decision_vetoes: veto_refs(&scan.decision_vetoes),
        signal_vetoes: veto_refs(&signal_vetoes),
    };
    let downstream_refs = DecisionDownstreamRefs {
        fill_ids: first_ids(&scan.fills),
        order_ids: clone_strs(&scan.fill_order_ids),
        local_order_ids: clone_strs(&scan.local_order_ids),
        submitted_order_ids: clone_strs(&scan.submitted_order_ids),
    };
    Ok(
        Some(
            DecisionLineageReport {
                decision_id: owned(decision_id),
                status,
                reasons,
                upstream_refs,
                downstream_refs,
                notes,
            },
        ),
    )
}


// ---------------------------------------------------------------------------
// Laws of lineage
// ---------------------------------------------------------------------------
/// A decision's lineage is supported only when the decision was formed, no veto
/// stands against it, it traces to one signal at most, and some signal it traces
/// to is ready for a decision.
pub proof fn lemma_supported_lineage(s: Seq<StoredEventView>, id: Seq<char>)
    requires
        decision_lineage_of(s, id) matches Some(l) && l.status == DecisionLineageStatus::Supported,
    ensures
        sorted_elements(lineage_facts(s, id).formed_instruments).len() > 0,
        lineage_facts(s, id).decision_vetoes.len() == 0,
        sorted_elements(lineage_facts(s, id).signal_ids).len() <= 1,
        upstream_statuses(s, sorted_elements(lineage_facts(s, id).signal_ids)).contains(
            Some(SignalReadinessStatus::ReadyForDecision),
        ),
{
}

/// A veto against a decision keeps its lineage from being supported.
pub proof fn lemma_vetoed_decision_lineage_is_not_supported(s: Seq<StoredEventView>, id: Seq<char>)
    requires
        lineage_facts(s, id).decision_vetoes.len() > 0,
    ensures
        decision_lineage_of(s, id) matches Some(l) ==> (l.status == DecisionLineageStatus::Blocked || l.status
            == DecisionLineageStatus::Inconsistent),
{
}

} // verus!
