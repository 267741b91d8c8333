//! Governance of signals and decisions: whether each may go forward, with the
//! references that support or block it.
use vstd::prelude::*;

use crate::queries::boundary::{
    decision_boundary_of, decision_execution_boundary, ExecutionBoundaryReason,
    ExecutionBoundaryReasonView, ExecutionBoundaryReport, ExecutionBoundaryReportView,
    ExecutionBoundaryStatus,
};
use crate::queries::error::QueryError;
use crate::queries::lineage::{
    decision_lineage, decision_lineage_of, DecisionLineageReason, DecisionLineageReasonView,
    DecisionLineageReport, DecisionLineageReportView, DecisionLineageStatus, LineageVetoRef,
};
use crate::queries::readiness::{
    decision_readiness, decision_readiness_of, signal_readiness, signal_readiness_of,
    DecisionReadiness, DecisionReadinessReason, DecisionReadinessReasonView,
    DecisionReadinessStatus, DecisionReadinessView, SignalReadinessReason,
    SignalReadinessReasonView, SignalReadinessStatus, SignalReadinessView,
};
use crate::queries::support::{answers, lemma_take_step, lemma_views_push, viewed, views_of};
use crate::store::{event_views, StoredEvent, StoredEventView};
use crate::text::{
    clone_strs, insert_sorted, lemma_sorted_elements_of, owned, same_text, sorted_elements,
    strictly_sorted, strs,
};

verus! {

#[derive(Debug, Clone, Copy, PartialEq, Eq, Structural)]
pub enum GovernanceRefType {
    Signal,
    Decision,
    Hypothesis,
    Veto,
    Order,
    Fill,
}

#[derive(Debug, Clone, PartialEq, Eq)]
pub struct GovernanceRef {
    pub ref_id: String,
    pub ref_type: GovernanceRefType,
}

impl View for GovernanceRef {
    type V = (Seq<char>, GovernanceRefType);

    open spec fn view(&self) -> (Seq<char>, GovernanceRefType) {
        (self.ref_id@, self.ref_type)
    }
}

#[derive(Debug, Clone, Copy, PartialEq, Eq, Structural)]
pub enum GovernanceStatus {
    Eligible,
    Weak,
    Blocked,
    Inconsistent,
}

/// Adds a reference to a list unless the list already holds it.
pub open spec fn with_ref(
    refs: Seq<(Seq<char>, GovernanceRefType)>,
    r: (Seq<char>, GovernanceRefType),
) -> Seq<(Seq<char>, GovernanceRefType)> {
    if refs.contains(r) {
        refs
    } else {
        refs.push(r)
    }
}

/// `with_ref` for each of `ids`, in order, all of type `t`.
pub open spec fn with_refs(
    refs: Seq<(Seq<char>, GovernanceRefType)>,
    ids: Seq<Seq<char>>,
    t: GovernanceRefType,
) -> Seq<(Seq<char>, GovernanceRefType)>
    decreases ids.len(),
{
    if ids.len() == 0 {
        refs
    } else {
        with_ref(with_refs(refs, ids.drop_last(), t), (ids.last(), t))
    }
}

fn push_ref(refs: &mut Vec<GovernanceRef>, ref_id: &String, ref_type: GovernanceRefType)
    ensures
        views_of(final(refs)@) == with_ref(views_of(old(refs)@), (ref_id@, ref_type)),
{
    let ghost v = views_of(refs@);
    let mut i: usize = 0;
    while i < refs.len()
        invariant
            i <= refs.len(),
            v == views_of(refs@),
            forall|j: int| 0 <= j < i ==> v[j] != (ref_id@, ref_type),
        decreases refs.len() - i,
    {
        if refs[i].ref_type == ref_type && same_text(refs[i].ref_id.as_str(), ref_id.as_str()) {
            proof {
                assert(v[i as int] == (ref_id@, ref_type));
            }
            return;
        }
        i = i + 1;
    }
    proof {
        if v.contains((ref_id@, ref_type)) {
            let j = choose|j: int| 0 <= j < v.len() && v[j] == (ref_id@, ref_type);
            assert(v[j] != (ref_id@, ref_type));
        }
    }
    let x = GovernanceRef { ref_id: ref_id.clone(), ref_type };
    let ghost before = refs@;
    refs.push(x);
    proof {
        lemma_views_push(before, x);
    }
}

fn push_refs(refs: &mut Vec<GovernanceRef>, ids: &Vec<String>, ref_type: GovernanceRefType)
    ensures
        views_of(final(refs)@) == with_refs(views_of(old(refs)@), strs(ids@), ref_type),
{
    let ghost start = views_of(refs@);
    let mut k: usize = 0;
    proof {
        assert(strs(ids@).take(0) =~= Seq::<Seq<char>>::empty());
    }
    while k < ids.len()
        invariant
            k <= ids.len(),
            views_of(refs@) == with_refs(start, strs(ids@).take(k as int), ref_type),
        decreases ids.len() - k,
    {
        proof {
            lemma_take_step(strs(ids@), k as int);
        }
        push_ref(refs, &ids[k], ref_type);
        k = k + 1;
    }
    proof {
        assert(strs(ids@).take(k as int) =~= strs(ids@));
    }
}

// ---------------------------------------------------------------------------
// Signals
// ---------------------------------------------------------------------------
#[derive(Debug, Clone, PartialEq, Eq)]
pub enum SignalGovernanceReason {
    SignalGeneratedObserved,
    SignalConfirmedObserved { confirmed_by: String },
    SignalVetoObserved { veto_id: String, reason_code: String },
    MissingSignalGenerated,
    SignalConfirmationBeforeGeneration,
    SignalVetoBeforeGeneration,
    DownstreamDecisionObservedWithoutHealthySignal { decision_id: String },
    ConflictingHypothesisReferences { values: Vec<String> },
}

pub enum SignalGovernanceReasonView {
    SignalGeneratedObserved,
    SignalConfirmedObserved { confirmed_by: Seq<char> },
    SignalVetoObserved { veto_id: Seq<char>, reason_code: Seq<char> },
    MissingSignalGenerated,
    SignalConfirmationBeforeGeneration,
    SignalVetoBeforeGeneration,
    DownstreamDecisionObservedWithoutHealthySignal { decision_id: Seq<char> },
    ConflictingHypothesisReferences { values: Seq<Seq<char>> },
}

impl View for SignalGovernanceReason {
    type V = SignalGovernanceReasonView;

    open spec fn view(&self) -> SignalGovernanceReasonView {
        match self {
            SignalGovernanceReason::SignalGeneratedObserved => SignalGovernanceReasonView::SignalGeneratedObserved,
            SignalGovernanceReason::SignalConfirmedObserved { confirmed_by } => SignalGovernanceReasonView::SignalConfirmedObserved {
                confirmed_by: confirmed_by@,
            },
            SignalGovernanceReason::SignalVetoObserved { veto_id, reason_code } => SignalGovernanceReasonView::SignalVetoObserved {
                veto_id: veto_id@,
                reason_code: reason_code@,
            },
            SignalGovernanceReason::MissingSignalGenerated => SignalGovernanceReasonView::MissingSignalGenerated,
            SignalGovernanceReason::SignalConfirmationBeforeGeneration => SignalGovernanceReasonView::SignalConfirmationBeforeGeneration,
            SignalGovernanceReason::SignalVetoBeforeGeneration => SignalGovernanceReasonView::SignalVetoBeforeGeneration,
            SignalGovernanceReason::DownstreamDecisionObservedWithoutHealthySignal { decision_id } => SignalGovernanceReasonView::DownstreamDecisionObservedWithoutHealthySignal {
                decision_id: decision_id@,
            },
            SignalGovernanceReason::ConflictingHypothesisReferences { values } => SignalGovernanceReasonView::ConflictingHypothesisReferences {
                values: strs(values@),
            },
        }
    }
}

#[derive(Debug, Clone, PartialEq, Eq)]
pub struct SignalGovernanceReport {
    pub ref_id: String,
    pub ref_type: GovernanceRefType,
    pub status: GovernanceStatus,
    pub reasons: Vec<SignalGovernanceReason>,
    pub supporting_refs: Vec<GovernanceRef>,
    pub blocking_refs: Vec<GovernanceRef>,
    pub notes: Vec<String>,
}

pub struct SignalGovernanceReportView {
    pub ref_id: Seq<char>,
    pub ref_type: GovernanceRefType,
    pub status: GovernanceStatus,
    pub reasons: Seq<SignalGovernanceReasonView>,
    pub supporting_refs: Seq<(Seq<char>, GovernanceRefType)>,
    pub blocking_refs: Seq<(Seq<char>, GovernanceRefType)>,
    pub notes: Seq<Seq<char>>,
}

impl View for SignalGovernanceReport {
    type V = SignalGovernanceReportView;

    open spec fn view(&self) -> SignalGovernanceReportView {
        SignalGovernanceReportView {
            ref_id: self.ref_id@,
            ref_type: self.ref_type,
            status: self.status,
            reasons: views_of(self.reasons@),
            supporting_refs: views_of(self.supporting_refs@),
            blocking_refs: views_of(self.blocking_refs@),
            notes: strs(self.notes@),
        }
    }
}

pub open spec fn signal_governance_reason(r: SignalReadinessReasonView) -> SignalGovernanceReasonView {
    match r {
        SignalReadinessReasonView::SignalGeneratedObserved => SignalGovernanceReasonView::SignalGeneratedObserved,
        SignalReadinessReasonView::SignalConfirmedObserved { confirmed_by } => SignalGovernanceReasonView::SignalConfirmedObserved {
            confirmed_by,
        },
        SignalReadinessReasonView::SignalVetoObserved { veto_id, reason_code } => SignalGovernanceReasonView::SignalVetoObserved {
            veto_id,
            reason_code,
        },
        SignalReadinessReasonView::MissingSignalGenerated => SignalGovernanceReasonView::MissingSignalGenerated,
        SignalReadinessReasonView::SignalConfirmationBeforeGeneration => SignalGovernanceReasonView::SignalConfirmationBeforeGeneration,
        SignalReadinessReasonView::SignalVetoBeforeGeneration => SignalGovernanceReasonView::SignalVetoBeforeGeneration,
        SignalReadinessReasonView::DecisionObservedWithoutConfirmedSignal { decision_id } => SignalGovernanceReasonView::DownstreamDecisionObservedWithoutHealthySignal {
            decision_id,
        },
        SignalReadinessReasonView::ConflictingHypothesisReferences { values } => SignalGovernanceReasonView::ConflictingHypothesisReferences {
            values,
        },
    }
}

/// The references a readiness reason of a signal blocks on.
pub open spec fn signal_blocking_refs(rs: Seq<SignalReadinessReasonView>) -> Seq<(Seq<char>, GovernanceRefType)>
    decreases rs.len(),
{
    if rs.len() == 0 {
        Seq::empty()
    } else {
        let b = signal_blocking_refs(rs.drop_last());
        match rs.last() {
            SignalReadinessReasonView::SignalVetoObserved { veto_id, .. } => with_ref(b, (veto_id, GovernanceRefType::Veto)),
            SignalReadinessReasonView::DecisionObservedWithoutConfirmedSignal { decision_id } => with_ref(
                b,
                (decision_id, GovernanceRefType::Decision),
            ),
            _ => b,
        }
    }
}

pub open spec fn governance_of_signal_status(s: SignalReadinessStatus) -> GovernanceStatus {
    match s {
        SignalReadinessStatus::ReadyForDecision => GovernanceStatus::Eligible,
        SignalReadinessStatus::GeneratedUnconfirmed => GovernanceStatus::Weak,
        SignalReadinessStatus::BlockedByVeto => GovernanceStatus::Blocked,
        SignalReadinessStatus::Inconsistent => GovernanceStatus::Inconsistent,
    }
}

/// The governance report of a signal, made from its readiness.
pub open spec fn signal_governance_from(id: Seq<char>, r: SignalReadinessView) -> SignalGovernanceReportView {
    SignalGovernanceReportView {
        ref_id: id,
        ref_type: GovernanceRefType::Signal,
        status: governance_of_signal_status(r.status),
        reasons: r.reasons.map_values(|x: SignalReadinessReasonView| signal_governance_reason(x)),
        supporting_refs: seq![(id, GovernanceRefType::Signal)],
        blocking_refs: signal_blocking_refs(r.reasons),
        notes: seq!["governance v1 derives signal eligibility from readiness semantics over the event log"@],
    }
}

/// The governance of the signal `id` over the log `s`; `None` when it has no readiness.
pub closed spec fn signal_governance_of(s: Seq<StoredEventView>, id: Seq<char>) -> Option<SignalGovernanceReportView> {
    match signal_readiness_of(s, id) {
        Some(r) => Some(signal_governance_from(id, r)),
        None => None,
    }
}

fn signal_governance_reason_of(r: &SignalReadinessReason) -> (g: SignalGovernanceReason)
    ensures
        g@ == signal_governance_reason(r@),
{
    match r {
        SignalReadinessReason::SignalGeneratedObserved => SignalGovernanceReason::SignalGeneratedObserved,
        SignalReadinessReason::SignalConfirmedObserved { confirmed_by } => SignalGovernanceReason::SignalConfirmedObserved {
            confirmed_by: confirmed_by.clone(),
        },
        SignalReadinessReason::SignalVetoObserved { veto_id, reason_code } => SignalGovernanceReason::SignalVetoObserved {
            veto_id: veto_id.clone(),
            reason_code: reason_code.clone(),
        },
        SignalReadinessReason::MissingSignalGenerated => SignalGovernanceReason::MissingSignalGenerated,
        SignalReadinessReason::SignalConfirmationBeforeGeneration => SignalGovernanceReason::SignalConfirmationBeforeGeneration,
        SignalReadinessReason::SignalVetoBeforeGeneration => SignalGovernanceReason::SignalVetoBeforeGeneration,
        SignalReadinessReason::DecisionObservedWithoutConfirmedSignal { decision_id } => SignalGovernanceReason::DownstreamDecisionObservedWithoutHealthySignal {
            decision_id: decision_id.clone(),
        },
        SignalReadinessReason::ConflictingHypothesisReferences { values } => SignalGovernanceReason::ConflictingHypothesisReferences {
            values: clone_strs(values),
        },
    }
}

/// The governance of a signal: its readiness read as eligible, weak, blocked or inconsistent.
pub fn signal_governance(events: &[StoredEvent], signal_id: &str) -> (r: Result<
    Option<SignalGovernanceReport>,
    QueryError,
>)
    ensures
        answers(r, event_views(events@), signal_governance_of(event_views(events@), signal_id@)),
{
    let readiness = match signal_readiness(events, signal_id) {
        Ok(Some(x)) => x,
        Ok(None) => return Ok(None),
        Err(e) => return Err(e),
    };
    let ghost rv = readiness@;
    let mut reasons: Vec<SignalGovernanceReason> = Vec::new();
    let mut blocking_refs: Vec<GovernanceRef> = Vec::new();
    let mut supporting_refs: Vec<GovernanceRef> = Vec::new();
    let sid = owned(signal_id);
    push_ref(&mut supporting_refs, &sid, GovernanceRefType::Signal);
    proof {
        assert(views_of(supporting_refs@) =~= seq![(signal_id@, GovernanceRefType::Signal)]);
        assert(views_of(readiness.reasons@).take(0) =~= Seq::<SignalReadinessReasonView>::empty());
    }
    let mut k: usize = 0;
    while k < readiness.reasons.len()
        invariant
            k <= readiness.reasons.len(),
            rv == readiness@,
            views_of(reasons@) == rv.reasons.take(k as int).map_values(
                |x: SignalReadinessReasonView| signal_governance_reason(x),
            ),
            views_of(blocking_refs@) == signal_blocking_refs(rv.reasons.take(k as int)),
        decreases readiness.reasons.len() - k,
    {
        proof {
            lemma_take_step(rv.reasons, k as int);
        }
        let r = &readiness.reasons[k];
        match r {
            SignalReadinessReason::SignalVetoObserved { veto_id, .. } => push_ref(
                &mut blocking_refs,
                veto_id,
                GovernanceRefType::Veto,
            ),
            SignalReadinessReason::DecisionObservedWithoutConfirmedSignal { decision_id } => push_ref(
                &mut blocking_refs,
                decision_id,
                GovernanceRefType::Decision,
            ),
            _ => {},
        }
        let g = signal_governance_reason_of(r);
        let ghost before = reasons@;
        reasons.push(g);
        proof {
            lemma_views_push(before, g);
            assert(rv.reasons.take(k as int + 1).map_values(
                |x: SignalReadinessReasonView| signal_governance_reason(x),
            ) =~= rv.reasons.take(k as int).map_values(
                |x: SignalReadinessReasonView| signal_governance_reason(x),
            ).push(signal_governance_reason(rv.reasons[k as int])));
        }
        k = k + 1;
    }
    proof {
        assert(rv.reasons.take(k as int) =~= rv.reasons);
    }
    let status = match readiness.status {
        SignalReadinessStatus::ReadyForDecision => GovernanceStatus::Eligible,
        SignalReadinessStatus::GeneratedUnconfirmed => GovernanceStatus::Weak,
        SignalReadinessStatus::BlockedByVeto => GovernanceStatus::Blocked,
        SignalReadinessStatus::Inconsistent => GovernanceStatus::Inconsistent,
    };
    let mut notes: Vec<String> = Vec::new();
    notes.push(owned("governance v1 derives signal eligibility from readiness semantics over the event log"));
    proof {
        assert(strs(notes@) =~= seq!["governance v1 derives signal eligibility from readiness semantics over the event log"@]);
    }
    Ok(
        Some(
            SignalGovernanceReport {
                ref_id: sid,
                ref_type: GovernanceRefType::Signal,
                status,
                reasons,
                supporting_refs,
                blocking_refs,
                notes,
            },
        ),
    )
}


// ---------------------------------------------------------------------------
// Decisions
// ---------------------------------------------------------------------------
#[derive(Debug, Clone, PartialEq, Eq)]
pub enum DecisionGovernanceReason {
    DecisionFormedObserved,
    MissingDecisionFormed,
    UpstreamSignalEligible { signal_id: String },
    UpstreamSignalWeak { signal_id: String },
    UpstreamSignalBlocked { signal_id: String },
    UpstreamSignalInconsistent { signal_id: String },
    MissingUpstreamSignalReference,
    ConflictingSignalReferences { values: Vec<String> },
    HypothesisTraced { hypothesis_id: String },
    ConflictingHypothesisReferences { values: Vec<String> },
    DecisionVetoObserved { veto_id: String, reason_code: String },
    ExecutionBoundaryClear,
    ExecutionBoundaryPending,
    ExecutionBoundaryWeak,
    ExecutionBoundaryBlocked,
    ExecutionBoundaryInconsistent,
    LocalOrderRegistered { order_id: String, venue: String },
    DownstreamFillObserved { fill_id: String, order_id: String },
    FillInstrumentMismatch { fill_id: String, fill_instrument: String },
}

pub enum DecisionGovernanceReasonView {
    DecisionFormedObserved,
    MissingDecisionFormed,
    UpstreamSignalEligible { signal_id: Seq<char> },
    UpstreamSignalWeak { signal_id: Seq<char> },
    UpstreamSignalBlocked { signal_id: Seq<char> },
    UpstreamSignalInconsistent { signal_id: Seq<char> },
    MissingUpstreamSignalReference,
    ConflictingSignalReferences { values: Seq<Seq<char>> },
    HypothesisTraced { hypothesis_id: Seq<char> },
    ConflictingHypothesisReferences { values: Seq<Seq<char>> },
    DecisionVetoObserved { veto_id: Seq<char>, reason_code: Seq<char> },
    ExecutionBoundaryClear,
    ExecutionBoundaryPending,
    ExecutionBoundaryWeak,
    ExecutionBoundaryBlocked,
    ExecutionBoundaryInconsistent,
    LocalOrderRegistered { order_id: Seq<char>, venue: Seq<char> },
    DownstreamFillObserved { fill_id: Seq<char>, order_id: Seq<char> },
    FillInstrumentMismatch { fill_id: Seq<char>, fill_instrument: Seq<char> },
}

impl View for DecisionGovernanceReason {
    type V = DecisionGovernanceReasonView;

    open spec fn view(&self) -> DecisionGovernanceReasonView {
        match self {
            DecisionGovernanceReason::DecisionFormedObserved => DecisionGovernanceReasonView::DecisionFormedObserved,
            DecisionGovernanceReason::MissingDecisionFormed => DecisionGovernanceReasonView::MissingDecisionFormed,
            DecisionGovernanceReason::UpstreamSignalEligible { signal_id } => DecisionGovernanceReasonView::UpstreamSignalEligible {
                signal_id: signal_id@,
            },
            DecisionGovernanceReason::UpstreamSignalWeak { signal_id } => DecisionGovernanceReasonView::UpstreamSignalWeak {
                signal_id: signal_id@,
            },
            DecisionGovernanceReason::UpstreamSignalBlocked { signal_id } => DecisionGovernanceReasonView::UpstreamSignalBlocked {
                signal_id: signal_id@,
            },
            DecisionGovernanceReason::UpstreamSignalInconsistent { signal_id } => DecisionGovernanceReasonView::UpstreamSignalInconsistent {
                signal_id: signal_id@,
            },
            DecisionGovernanceReason::MissingUpstreamSignalReference => DecisionGovernanceReasonView::MissingUpstreamSignalReference,
            DecisionGovernanceReason::ConflictingSignalReferences { values } => DecisionGovernanceReasonView::ConflictingSignalReferences {
                values: strs(values@),
            },
            DecisionGovernanceReason::HypothesisTraced { hypothesis_id } => DecisionGovernanceReasonView::HypothesisTraced {
                hypothesis_id: hypothesis_id@,
            },
            DecisionGovernanceReason::ConflictingHypothesisReferences { values } => DecisionGovernanceReasonView::ConflictingHypothesisReferences {
                values: strs(values@),
            },
            DecisionGovernanceReason::DecisionVetoObserved { veto_id, reason_code } => DecisionGovernanceReasonView::DecisionVetoObserved {
                veto_id: veto_id@,
                reason_code: reason_code@,
            },
            DecisionGovernanceReason::ExecutionBoundaryClear => DecisionGovernanceReasonView::ExecutionBoundaryClear,
            DecisionGovernanceReason::ExecutionBoundaryPending => DecisionGovernanceReasonView::ExecutionBoundaryPending,
            DecisionGovernanceReason::ExecutionBoundaryWeak => DecisionGovernanceReasonView::ExecutionBoundaryWeak,
            DecisionGovernanceReason::ExecutionBoundaryBlocked => DecisionGovernanceReasonView::ExecutionBoundaryBlocked,
            DecisionGovernanceReason::ExecutionBoundaryInconsistent => DecisionGovernanceReasonView::ExecutionBoundaryInconsistent,
            DecisionGovernanceReason::LocalOrderRegistered { order_id, venue } => DecisionGovernanceReasonView::LocalOrderRegistered {
                order_id: order_id@,
                venue: venue@,
            },
            DecisionGovernanceReason::DownstreamFillObserved { fill_id, order_id } => DecisionGovernanceReasonView::DownstreamFillObserved {
                fill_id: fill_id@,
                order_id: order_id@,
            },
            DecisionGovernanceReason::FillInstrumentMismatch { fill_id, fill_instrument } => DecisionGovernanceReasonView::FillInstrumentMismatch {
                fill_id: fill_id@,
                fill_instrument: fill_instrument@,
            },
        }
    }
}

#[derive(Debug, Clone, PartialEq, Eq)]
pub struct DecisionGovernanceReport {
    pub ref_id: String,
    pub ref_type: GovernanceRefType,
    pub status: GovernanceStatus,
    pub reasons: Vec<DecisionGovernanceReason>,
    pub supporting_refs: Vec<GovernanceRef>,
    pub blocking_refs: Vec<GovernanceRef>,
    pub notes: Vec<String>,
}

pub struct DecisionGovernanceReportView {
    pub ref_id: Seq<char>,
    pub ref_type: GovernanceRefType,
    pub status: GovernanceStatus,
    pub reasons: Seq<DecisionGovernanceReasonView>,
    pub supporting_refs: Seq<(Seq<char>, GovernanceRefType)>,
    pub blocking_refs: Seq<(Seq<char>, GovernanceRefType)>,
    pub notes: Seq<Seq<char>>,
}

impl View for DecisionGovernanceReport {
    type V = DecisionGovernanceReportView;

    open spec fn view(&self) -> DecisionGovernanceReportView {
        DecisionGovernanceReportView {
            ref_id: self.ref_id@,
            ref_type: self.ref_type,
            status: self.status,
            reasons: views_of(self.reasons@),
            supporting_refs: views_of(self.supporting_refs@),
            blocking_refs: views_of(self.blocking_refs@),
            notes: strs(self.notes@),
        }
    }
}

/// Reasons and references gathered so far for a decision.
pub struct Trail {
    pub reasons: Seq<DecisionGovernanceReasonView>,
    pub supporting: Seq<(Seq<char>, GovernanceRefType)>,
    pub blocking: Seq<(Seq<char>, GovernanceRefType)>,
}

pub open spec fn readiness_trail_step(t: Trail, r: DecisionReadinessReasonView) -> Trail {
    match r {
        DecisionReadinessReasonView::DecisionFormedObserved => Trail {
            reasons: t.reasons.push(DecisionGovernanceReasonView::DecisionFormedObserved),
            ..t
        },
        DecisionReadinessReasonView::DecisionVetoObserved { veto_id, reason_code } => Trail {
            reasons: t.reasons.push(DecisionGovernanceReasonView::DecisionVetoObserved { veto_id, reason_code }),
            blocking: with_ref(t.blocking, (veto_id, GovernanceRefType::Veto)),
            ..t
        },
        DecisionReadinessReasonView::UpstreamSignalReady { signal_id } => Trail {
            reasons: t.reasons.push(DecisionGovernanceReasonView::UpstreamSignalEligible { signal_id }),
            supporting: with_ref(t.supporting, (signal_id, GovernanceRefType::Signal)),
            ..t
        },
        DecisionReadinessReasonView::UpstreamSignalGeneratedUnconfirmed { signal_id } => Trail {
            reasons: t.reasons.push(DecisionGovernanceReasonView::UpstreamSignalWeak { signal_id }),
            supporting: with_ref(t.supporting, (signal_id, GovernanceRefType::Signal)),
            ..t
        },
        DecisionReadinessReasonView::UpstreamSignalBlocked { signal_id } => Trail {
            reasons: t.reasons.push(DecisionGovernanceReasonView::UpstreamSignalBlocked { signal_id }),
            blocking: with_ref(t.blocking, (signal_id, GovernanceRefType::Signal)),
            ..t
        },
        DecisionReadinessReasonView::UpstreamSignalInconsistent { signal_id } => Trail {
            reasons: t.reasons.push(DecisionGovernanceReasonView::UpstreamSignalInconsistent { signal_id }),
            blocking: with_ref(t.blocking, (signal_id, GovernanceRefType::Signal)),
            ..t
        },
        DecisionReadinessReasonView::MissingDecisionFormed => Trail {
            reasons: t.reasons.push(DecisionGovernanceReasonView::MissingDecisionFormed),
            ..t
        },
        DecisionReadinessReasonView::MissingUpstreamSignalReference => Trail {
            reasons: t.reasons.push(DecisionGovernanceReasonView::MissingUpstreamSignalReference),
            ..t
        },
        DecisionReadinessReasonView::ConflictingSignalReferences { values } => Trail {
            reasons: t.reasons.push(DecisionGovernanceReasonView::ConflictingSignalReferences { values }),
            ..t
        },
        DecisionReadinessReasonView::FillInstrumentMismatch { fill_id, fill_instrument } => Trail {
            reasons: t.reasons.push(DecisionGovernanceReasonView::FillInstrumentMismatch { fill_id, fill_instrument }),
            blocking: with_ref(t.blocking, (fill_id, GovernanceRefType::Fill)),
            ..t
        },
    }
}

pub open spec fn readiness_trail(t: Trail, rs: Seq<DecisionReadinessReasonView>) -> Trail
    decreases rs.len(),
{
    if rs.len() == 0 {
        t
    } else {
        readiness_trail_step(readiness_trail(t, rs.drop_last()), rs.last())
    }
}

/// Blocks on each signal veto and on the signal it vetoes.
pub open spec fn with_signal_vetoes(
    refs: Seq<(Seq<char>, GovernanceRefType)>,
    vetoes: Seq<(Seq<char>, Seq<char>, Seq<char>)>,
) -> Seq<(Seq<char>, GovernanceRefType)>
    decreases vetoes.len(),
{
    if vetoes.len() == 0 {
        refs
    } else {
        let b = with_signal_vetoes(refs, vetoes.drop_last());
        with_ref(with_ref(b, (vetoes.last().0, GovernanceRefType::Veto)), (vetoes.last().1, GovernanceRefType::Signal))
    }
}

pub open spec fn veto_ids(vetoes: Seq<(Seq<char>, Seq<char>, Seq<char>)>) -> Seq<Seq<char>> {
    vetoes.map_values(|v: (Seq<char>, Seq<char>, Seq<char>)| v.0)
}

pub open spec fn lineage_ref_trail(t: Trail, l: DecisionLineageReportView) -> Trail {
    Trail {
        reasons: t.reasons,
        supporting: with_refs(
            with_refs(
                with_refs(
                    with_refs(t.supporting, l.upstream_refs.signal_ids, GovernanceRefType::Signal),
                    l.upstream_refs.hypothesis_ids,
                    GovernanceRefType::Hypothesis,
                ),
                l.downstream_refs.local_order_ids,
                GovernanceRefType::Order,
            ),
            l.downstream_refs.fill_ids,
            GovernanceRefType::Fill,
        ),
        blocking: with_signal_vetoes(
            with_refs(t.blocking, veto_ids(l.upstream_refs.decision_vetoes), GovernanceRefType::Veto),
            l.upstream_refs.signal_vetoes,
        ),
    }
}

/// The governance reason a lineage reason carries over, if any.
pub open spec fn lineage_governance_reasons(rs: Seq<DecisionLineageReasonView>) -> Seq<DecisionGovernanceReasonView>
    decreases rs.len(),
{
    if rs.len() == 0 {
        Seq::empty()
    } else {
        lineage_governance_reasons(rs.drop_last()) + match rs.last() {
            DecisionLineageReasonView::HypothesisTraced { hypothesis_id } => seq![
                DecisionGovernanceReasonView::HypothesisTraced { hypothesis_id },
            ],
            DecisionLineageReasonView::ConflictingHypothesisReferences { values } => seq![
                DecisionGovernanceReasonView::ConflictingHypothesisReferences { values },
            ],
            DecisionLineageReasonView::DirectDecisionVetoObserved { veto_id, reason_code } => seq![
                DecisionGovernanceReasonView::DecisionVetoObserved { veto_id, reason_code },
            ],
            DecisionLineageReasonView::LocalOrderRegistered { order_id, venue } => seq![
                DecisionGovernanceReasonView::LocalOrderRegistered { order_id, venue },
            ],
            DecisionLineageReasonView::DownstreamFillObserved { fill_id, order_id } => seq![
                DecisionGovernanceReasonView::DownstreamFillObserved { fill_id, order_id },
            ],
            DecisionLineageReasonView::FillInstrumentMismatch { fill_id, fill_instrument } => seq![
                DecisionGovernanceReasonView::FillInstrumentMismatch { fill_id, fill_instrument },
            ],
            _ => Seq::empty(),
        }
    }
}

/// A boundary reason that keeps a boundary with no execution from counting as pending.
pub open spec fn problematic(r: ExecutionBoundaryReasonView) -> bool {
    match r {
        ExecutionBoundaryReasonView::MissingLocalOrderRegistration { .. } => true,
        ExecutionBoundaryReasonView::AmbiguousDecisionReferences { .. } => true,
        ExecutionBoundaryReasonView::AmbiguousExternalOrderReferences { .. } => true,
        ExecutionBoundaryReasonView::FillDecisionInstrumentMismatch { .. } => true,
        ExecutionBoundaryReasonView::BlockedDecisionHasObservedFill { .. } => true,
        ExecutionBoundaryReasonView::DecisionLineageWeak { .. } => true,
        ExecutionBoundaryReasonView::DecisionLineageBlocked { .. } => true,
        ExecutionBoundaryReasonView::DecisionLineageInconsistent { .. } => true,
        ExecutionBoundaryReasonView::DecisionNotFound { .. } => true,
        ExecutionBoundaryReasonView::ExternalOrderReferenceOnly { .. } => true,
        ExecutionBoundaryReasonView::LocalOrderReferencesMissingDecision { .. } => true,
        _ => false,
    }
}

/// A boundary is pending when no execution was observed and nothing else is wrong with it.
pub open spec fn pending(rs: Seq<ExecutionBoundaryReasonView>) -> bool {
    &&& exists|k: int| 0 <= k < rs.len() && rs[k] is NoExecutionObservedForDecision
    &&& forall|k: int| 0 <= k < rs.len() ==> !problematic(#[trigger] rs[k])
}

pub open spec fn boundary_governance_reason(b: ExecutionBoundaryReportView) -> DecisionGovernanceReasonView {
    match b.status {
        ExecutionBoundaryStatus::Clear => DecisionGovernanceReasonView::ExecutionBoundaryClear,
        ExecutionBoundaryStatus::Weak => if pending(b.reasons) {
            DecisionGovernanceReasonView::ExecutionBoundaryPending
        } else {
            DecisionGovernanceReasonView::ExecutionBoundaryWeak
        },
        ExecutionBoundaryStatus::Blocked => DecisionGovernanceReasonView::ExecutionBoundaryBlocked,
        ExecutionBoundaryStatus::Inconsistent => DecisionGovernanceReasonView::ExecutionBoundaryInconsistent,
    }
}

pub open spec fn decision_governance_status(
    r: Option<DecisionReadinessView>,
    l: Option<DecisionLineageReportView>,
    b: Option<ExecutionBoundaryReportView>,
) -> GovernanceStatus {
    let rs = match r {
        Some(x) => Some(x.status),
        None => None,
    };
    let ls = match l {
        Some(x) => Some(x.status),
        None => None,
    };
    let bs = match b {
        Some(x) => Some(x.status),
        None => None,
    };
    let progress = match b {
        Some(x) => x.status == ExecutionBoundaryStatus::Clear || (x.status == ExecutionBoundaryStatus::Weak
            && pending(x.reasons)),
        None => false,
    };
    if rs == Some(DecisionReadinessStatus::Inconsistent) || ls == Some(DecisionLineageStatus::Inconsistent)
        || bs == Some(ExecutionBoundaryStatus::Inconsistent) {
        GovernanceStatus::Inconsistent
    } else if rs == Some(DecisionReadinessStatus::Blocked) || ls == Some(DecisionLineageStatus::Blocked)
        || bs == Some(ExecutionBoundaryStatus::Blocked) {
        GovernanceStatus::Blocked
    } else if rs == Some(DecisionReadinessStatus::Ready) && ls == Some(DecisionLineageStatus::Supported)
        && progress {
        GovernanceStatus::Eligible
    } else {
        GovernanceStatus::Weak
    }
}

pub open spec fn frozen_note() -> Seq<char> {
    "governance v1 does not model a separate frozen state; veto and inconsistency remain the current blockers"@
}

pub open spec fn governance_notes(
    l: Option<DecisionLineageReportView>,
    b: Option<ExecutionBoundaryReportView>,
) -> Set<Seq<char>> {
    let ln = match l {
        Some(x) => x.notes.to_set(),
        None => Set::empty(),
    };
    let bn = match b {
        Some(x) => x.notes.to_set(),
        None => Set::empty(),
    };
    ln.union(bn).insert(frozen_note())
}

pub open spec fn governance_trail(
    id: Seq<char>,
    r: Option<DecisionReadinessView>,
    l: Option<DecisionLineageReportView>,
    b: Option<ExecutionBoundaryReportView>,
) -> Trail {
    let t0 = Trail { reasons: Seq::empty(), supporting: seq![(id, GovernanceRefType::Decision)], blocking: Seq::empty() };
    let t1 = match r {
        Some(x) => readiness_trail(t0, x.reasons),
        None => t0,
    };
    let t2 = match l {
        Some(x) => {
            let t = lineage_ref_trail(t1, x);
            Trail { reasons: t.reasons + lineage_governance_reasons(x.reasons), ..t }
        },
        None => t1,
    };
    match b {
        Some(x) => Trail { reasons: t2.reasons.push(boundary_governance_reason(x)), ..t2 },
        None => t2,
    }
}

/// The governance of the decision `id` over the log `s`, made from its readiness,
/// lineage and execution boundary; `None` when none of them exists.
pub closed spec fn decision_governance_of(s: Seq<StoredEventView>, id: Seq<char>) -> Option<DecisionGovernanceReportView> {
    let r = decision_readiness_of(s, id);
    let l = decision_lineage_of(s, id);
    let b = decision_boundary_of(s, id);
    let t = governance_trail(id, r, l, b);
    if r is None && l is None && b is None {
        None
    } else {
        Some(
            DecisionGovernanceReportView {
                ref_id: id,
                ref_type: GovernanceRefType::Decision,
                status: decision_governance_status(r, l, b),
                reasons: t.reasons,
                supporting_refs: t.supporting,
                blocking_refs: t.blocking,
                notes: sorted_elements(governance_notes(l, b)),
            },
        )
    }
}

fn push_gov_reason(out: &mut Vec<DecisionGovernanceReason>, x: DecisionGovernanceReason)
    ensures
        views_of(final(out)@) == views_of(old(out)@).push(x@),
{
    let ghost before = out@;
    out.push(x);
    proof {
        lemma_views_push(before, x);
    }
}

fn follow_readiness(
    reasons: &mut Vec<DecisionGovernanceReason>,
    supporting: &mut Vec<GovernanceRef>,
    blocking: &mut Vec<GovernanceRef>,
    readiness: &DecisionReadiness,
)
    ensures
        ({
            let t = readiness_trail(
                Trail {
                    reasons: views_of(old(reasons)@),
                    supporting: views_of(old(supporting)@),
                    blocking: views_of(old(blocking)@),
                },
                readiness@.reasons,
            );
            &&& views_of(final(reasons)@) == t.reasons
            &&& views_of(final(supporting)@) == t.supporting
            &&& views_of(final(blocking)@) == t.blocking
        }),
{
    let ghost t0 = Trail {
        reasons: views_of(reasons@),
        supporting: views_of(supporting@),
        blocking: views_of(blocking@),
    };
    let ghost rs = readiness@.reasons;
    proof {
        assert(rs.take(0) =~= Seq::<DecisionReadinessReasonView>::empty());
    }
    let mut k: usize = 0;
    while k < readiness.reasons.len()
        invariant
            k <= readiness.reasons.len(),
            rs == readiness@.reasons,
            ({
                let t = readiness_trail(t0, rs.take(k as int));
                &&& views_of(reasons@) == t.reasons
                &&& views_of(supporting@) == t.supporting
                &&& views_of(blocking@) == t.blocking
            }),
        decreases readiness.reasons.len() - k,
    {
        proof {
            lemma_take_step(rs, k as int);
        }
        match &readiness.reasons[k] {
            DecisionReadinessReason::DecisionFormedObserved => push_gov_reason(
                reasons,
                DecisionGovernanceReason::DecisionFormedObserved,
            ),
            DecisionReadinessReason::DecisionVetoObserved { veto_id, reason_code } => {
                push_ref(blocking, veto_id, GovernanceRefType::Veto);
                push_gov_reason(
                    reasons,
                    DecisionGovernanceReason::DecisionVetoObserved {
                        veto_id: veto_id.clone(),
                        reason_code: reason_code.clone(),
                    },
                );
            },
            DecisionReadinessReason::UpstreamSignalReady { signal_id } => {
                push_ref(supporting, signal_id, GovernanceRefType::Signal);
                push_gov_reason(
                    reasons,
                    DecisionGovernanceReason::UpstreamSignalEligible { signal_id: signal_id.clone() },
                );
            },
            DecisionReadinessReason::UpstreamSignalGeneratedUnconfirmed { signal_id } => {
                push_ref(supporting, signal_id, GovernanceRefType::Signal);
                push_gov_reason(
                    reasons,
                    DecisionGovernanceReason::UpstreamSignalWeak { signal_id: signal_id.clone() },
                );
            },
            DecisionReadinessReason::UpstreamSignalBlocked { signal_id } => {
                push_ref(blocking, signal_id, GovernanceRefType::Signal);
                push_gov_reason(
                    reasons,
                    DecisionGovernanceReason::UpstreamSignalBlocked { signal_id: signal_id.clone() },
                );
            },
            DecisionReadinessReason::UpstreamSignalInconsistent { signal_id } => {
                push_ref(blocking, signal_id, GovernanceRefType::Signal);
                push_gov_reason(
                    reasons,
                    DecisionGovernanceReason::UpstreamSignalInconsistent { signal_id: signal_id.clone() },
                );
            },
            DecisionReadinessReason::MissingDecisionFormed => push_gov_reason(
                reasons,
                DecisionGovernanceReason::MissingDecisionFormed,
            ),
            DecisionReadinessReason::MissingUpstreamSignalReference => push_gov_reason(
                reasons,
                DecisionGovernanceReason::MissingUpstreamSignalReference,
            ),
            DecisionReadinessReason::ConflictingSignalReferences { values } => push_gov_reason(
                reasons,
                DecisionGovernanceReason::ConflictingSignalReferences { values: clone_strs(values) },
            ),
            DecisionReadinessReason::FillInstrumentMismatch { fill_id, fill_instrument } => {
                push_ref(blocking, fill_id, GovernanceRefType::Fill);
                push_gov_reason(
                    reasons,
                    DecisionGovernanceReason::FillInstrumentMismatch {
                        fill_id: fill_id.clone(),
                        fill_instrument: fill_instrument.clone(),
                    },
                );
            },
        }
        k = k + 1;
    }
    proof {
        assert(rs.take(k as int) =~= rs);
    }
}

fn push_veto_refs(refs: &mut Vec<GovernanceRef>, vetoes: &Vec<LineageVetoRef>, with_targets: bool)
    ensures
        views_of(final(refs)@) == if with_targets {
            with_signal_vetoes(views_of(old(refs)@), views_of(vetoes@))
        } else {
            with_refs(views_of(old(refs)@), veto_ids(views_of(vetoes@)), GovernanceRefType::Veto)
        },
{
    let ghost start = views_of(refs@);
    let ghost vs = views_of(vetoes@);
    proof {
        assert(vs.take(0) =~= Seq::<(Seq<char>, Seq<char>, Seq<char>)>::empty());
        assert(veto_ids(vs.take(0)) =~= Seq::<Seq<char>>::empty());
    }
    let mut k: usize = 0;
    while k < vetoes.len()
        invariant
            k <= vetoes.len(),
            vs == views_of(vetoes@),
            views_of(refs@) == if with_targets {
                with_signal_vetoes(start, vs.take(k as int))
            } else {
                with_refs(start, veto_ids(vs.take(k as int)), GovernanceRefType::Veto)
            },
        decreases vetoes.len() - k,
    {
        proof {
            lemma_take_step(vs, k as int);
            assert(veto_ids(vs.take(k as int + 1)).drop_last() =~= veto_ids(vs.take(k as int)));
        }
        push_ref(refs, &vetoes[k].veto_id, GovernanceRefType::Veto);
        if with_targets {
            push_ref(refs, &vetoes[k].target_id, GovernanceRefType::Signal);
        }
        k = k + 1;
    }
    proof {
        assert(vs.take(k as int) =~= vs);
    }
}

fn follow_lineage_reasons(reasons: &mut Vec<DecisionGovernanceReason>, lineage: &DecisionLineageReport)
    ensures
        views_of(final(reasons)@) == views_of(old(reasons)@) + lineage_governance_reasons(lineage@.reasons),
{
    let ghost p0 = views_of(reasons@);
    let ghost rs = lineage@.reasons;
    proof {
        assert(rs.take(0) =~= Seq::<DecisionLineageReasonView>::empty());
        assert(views_of(reasons@) =~= p0 + lineage_governance_reasons(rs.take(0)));
    }
    let mut k: usize = 0;
    while k < lineage.reasons.len()
        invariant
            k <= lineage.reasons.len(),
            rs == lineage@.reasons,
            views_of(reasons@) == p0 + lineage_governance_reasons(rs.take(k as int)),
        decreases lineage.reasons.len() - k,
    {
        proof {
            lemma_take_step(rs, k as int);
        }
        let ghost before = views_of(reasons@);
        match &lineage.reasons[k] {
            DecisionLineageReason::HypothesisTraced { hypothesis_id } => push_gov_reason(
                reasons,
                DecisionGovernanceReason::HypothesisTraced { hypothesis_id: hypothesis_id.clone() },
            ),
            DecisionLineageReason::ConflictingHypothesisReferences { values } => push_gov_reason(
                reasons,
                DecisionGovernanceReason::ConflictingHypothesisReferences { values: clone_strs(values) },
            ),
            DecisionLineageReason::DirectDecisionVetoObserved { veto_id, reason_code } => push_gov_reason(
                reasons,
                DecisionGovernanceReason::DecisionVetoObserved {
                    veto_id: veto_id.clone(),
                    reason_code: reason_code.clone(),
                },
            ),
            DecisionLineageReason::LocalOrderRegistered { order_id, venue } => push_gov_reason(
                reasons,
                DecisionGovernanceReason::LocalOrderRegistered { order_id: order_id.clone(), venue: venue.clone() },
            ),
            DecisionLineageReason::DownstreamFillObserved { fill_id, order_id } => push_gov_reason(
                reasons,
                DecisionGovernanceReason::DownstreamFillObserved {
                    fill_id: fill_id.clone(),
                    order_id: order_id.clone(),
                },
            ),
            DecisionLineageReason::FillInstrumentMismatch { fill_id, fill_instrument } => push_gov_reason(
                reasons,
                DecisionGovernanceReason::FillInstrumentMismatch {
                    fill_id: fill_id.clone(),
                    fill_instrument: fill_instrument.clone(),
                },
            ),
            _ => {},
        }
        proof {
            assert(views_of(reasons@) =~= p0 + lineage_governance_reasons(rs.take(k as int + 1)));
        }
        k = k + 1;
    }
    proof {
        assert(rs.take(k as int) =~= rs);
    }
}

pub fn is_pending_boundary(reasons: &Vec<ExecutionBoundaryReason>) -> (r: bool)
    ensures
        r == pending(views_of(reasons@)),
{
    let ghost rs = views_of(reasons@);
    let mut saw = false;
    let mut bad = false;
    let mut k: usize = 0;
    while k < reasons.len()
        invariant
            k <= reasons.len(),
            rs == views_of(reasons@),
            saw == exists|j: int| 0 <= j < k && rs[j] is NoExecutionObservedForDecision,
            bad == exists|j: int| 0 <= j < k && problematic(#[trigger] rs[j]),
        decreases reasons.len() - k,
    {
        let ghost x = rs[k as int];
        match &reasons[k] {
            ExecutionBoundaryReason::NoExecutionObservedForDecision => {
                saw = true;
            },
            ExecutionBoundaryReason::MissingLocalOrderRegistration { .. }
            | ExecutionBoundaryReason::AmbiguousDecisionReferences { .. }
            | ExecutionBoundaryReason::AmbiguousExternalOrderReferences { .. }
            | ExecutionBoundaryReason::FillDecisionInstrumentMismatch { .. }
            | ExecutionBoundaryReason::BlockedDecisionHasObservedFill { .. }
            | ExecutionBoundaryReason::DecisionLineageWeak { .. }
            | ExecutionBoundaryReason::DecisionLineageBlocked { .. }
            | ExecutionBoundaryReason::DecisionLineageInconsistent { .. }
            | ExecutionBoundaryReason::DecisionNotFound { .. }
            | ExecutionBoundaryReason::ExternalOrderReferenceOnly { .. }
            | ExecutionBoundaryReason::LocalOrderReferencesMissingDecision { .. } => {
                bad = true;
            },
            _ => {},
        }
        proof {
            assert(rs[k as int] == reasons@[k as int]@);
            if saw {
                if !(exists|j: int| 0 <= j < k && rs[j] is NoExecutionObservedForDecision) {
                    assert(rs[k as int] is NoExecutionObservedForDecision);
                }
            }
            if bad {
                if !(exists|j: int| 0 <= j < k && problematic(#[trigger] rs[j])) {
                    assert(problematic(rs[k as int]));
                }
            }
        }
        k = k + 1;
    }
    saw && !bad
}

fn add_notes(notes: &mut Vec<String>, more: &Vec<String>)
    requires
        strictly_sorted(strs(old(notes)@)),
    ensures
        strictly_sorted(strs(final(notes)@)),
        strs(final(notes)@).to_set() == strs(old(notes)@).to_set().union(strs(more@).to_set()),
{
    let ghost start = strs(notes@).to_set();
    let mut k: usize = 0;
    proof {
        assert(start.union(strs(more@).take(0).to_set()) =~= start);
    }
    while k < more.len()
        invariant
            k <= more.len(),
            strictly_sorted(strs(notes@)),
            strs(notes@).to_set() == start.union(strs(more@).take(k as int).to_set()),
        decreases more.len() - k,
    {
        insert_sorted(notes, more[k].clone());
        proof {
            assert(strs(more@).take(k as int + 1) =~= strs(more@).take(k as int).push(more@[k as int]@));
            strs(more@).take(k as int).lemma_push_to_set_commute(more@[k as int]@);
            assert(strs(more@).take(k as int + 1).to_set() =~= strs(more@).take(k as int).to_set().insert(
                more@[k as int]@,
            ));
            assert(strs(notes@).to_set() =~= start.union(strs(more@).take(k as int + 1).to_set()));
        }
        k = k + 1;
    }
    proof {
        assert(strs(more@).take(k as int) =~= strs(more@));
    }
}

/// The governance of a decision: its readiness, lineage and execution boundary
/// read together as eligible, weak, blocked or inconsistent.
#[verifier::rlimit(40)]
pub fn decision_governance(events: &[StoredEvent], decision_id: &str) -> (r: Result<
    Option<DecisionGovernanceReport>,
    QueryError,
>)
    ensures
        answers(r, event_views(events@), decision_governance_of(event_views(events@), decision_id@)),
{
    let ghost s = event_views(events@);
    let readiness = match decision_readiness(events, decision_id) {
        Ok(x) => x,
        Err(e) => return Err(e),
    };
    let lineage = match decision_lineage(events, decision_id) {
        Ok(x) => x,
        Err(e) => return Err(e),
    };
    let boundary = match decision_execution_boundary(events, decision_id) {
        Ok(x) => x,
        Err(e) => return Err(e),
    };
    if readiness.is_none() && lineage.is_none() && boundary.is_none() {
        return Ok(None);
    }
    let ghost rv = viewed(readiness);
    let ghost lv = viewed(lineage);
    let ghost bv = viewed(boundary);
    let did = owned(decision_id);
    let mut reasons: Vec<DecisionGovernanceReason> = Vec::new();
    let mut supporting: Vec<GovernanceRef> = Vec::new();
    let mut blocking: Vec<GovernanceRef> = Vec::new();
    push_ref(&mut supporting, &did, GovernanceRefType::Decision);
    proof {
        assert(views_of(supporting@) =~= seq![(decision_id@, GovernanceRefType::Decision)]);
        assert(views_of(reasons@) =~= Seq::empty());
        assert(views_of(blocking@) =~= Seq::empty());
    }
    match &readiness {
        Some(x) => follow_readiness(&mut reasons, &mut supporting, &mut blocking, x),
        None => {},
    }
    let mut notes: Vec<String> = Vec::new();
    proof {
        assert(strs(notes@).to_set() =~= Set::empty());
    }
    match &lineage {
        Some(x) => {
            push_refs(&mut supporting, &x.upstream_refs.signal_ids, GovernanceRefType::Signal);
            push_refs(&mut supporting, &x.upstream_refs.hypothesis_ids, GovernanceRefType::Hypothesis);
            push_veto_refs(&mut blocking, &x.upstream_refs.decision_vetoes, false);
            push_veto_refs(&mut blocking, &x.upstream_refs.signal_vetoes, true);
            push_refs(&mut supporting, &x.downstream_refs.local_order_ids, GovernanceRefType::Order);
            push_refs(&mut supporting, &x.downstream_refs.fill_ids, GovernanceRefType::Fill);
            add_notes(&mut notes, &x.notes);
            follow_lineage_reasons(&mut reasons, x);
        },
        None => {},
    }
    let progress = match &boundary {
        Some(x) => {
            add_notes(&mut notes, &x.notes);
            let p = is_pending_boundary(&x.reasons);
            let g = match x.status {
                ExecutionBoundaryStatus::Clear => DecisionGovernanceReason::ExecutionBoundaryClear,
                ExecutionBoundaryStatus::Weak => if p {
                    DecisionGovernanceReason::ExecutionBoundaryPending
                } else {
                    DecisionGovernanceReason::ExecutionBoundaryWeak
                },
                ExecutionBoundaryStatus::Blocked => DecisionGovernanceReason::ExecutionBoundaryBlocked,
                ExecutionBoundaryStatus::Inconsistent => DecisionGovernanceReason::ExecutionBoundaryInconsistent,
            };
            push_gov_reason(&mut reasons, g);
            x.status == ExecutionBoundaryStatus::Clear || (x.status == ExecutionBoundaryStatus::Weak && p)
        },
        None => false,
    };
    insert_sorted(
        &mut notes,
        owned(
            "governance v1 does not model a separate frozen state; veto and inconsistency remain the current blockers",
        ),
    );
    proof {
        let t = governance_trail(decision_id@, rv, lv, bv);
        assert(views_of(reasons@) =~= t.reasons);
        assert(views_of(supporting@) =~= t.supporting);
        assert(views_of(blocking@) =~= t.blocking);
        assert(strs(notes@).to_set() =~= governance_notes(lv, bv));
        lemma_sorted_elements_of(strs(notes@));
    }
    let rs: Option<DecisionReadinessStatus> = match &readiness {
        Some(x) => Some(x.status),
        None => None,
    };
    let ls: Option<DecisionLineageStatus> = match &lineage {
        Some(x) => Some(x.status),
        None => None,
    };
    let bs: Option<ExecutionBoundaryStatus> = match &boundary {
        Some(x) => Some(x.status),
        None => None,
    };
    let status = if rs == Some(DecisionReadinessStatus::Inconsistent) || ls == Some(
        DecisionLineageStatus::Inconsistent,
    ) || bs == Some(ExecutionBoundaryStatus::Inconsistent) {
        GovernanceStatus::Inconsistent
    } else if rs == Some(DecisionReadinessStatus::Blocked) || ls == Some(DecisionLineageStatus::Blocked)
        || bs == Some(ExecutionBoundaryStatus::Blocked) {
        GovernanceStatus::Blocked
    } else if rs == Some(DecisionReadinessStatus::Ready) && ls == Some(DecisionLineageStatus::Supported)
        && progress {
        GovernanceStatus::Eligible
    } else {
        GovernanceStatus::Weak
    };
    Ok(
        Some(
            DecisionGovernanceReport {
                ref_id: did,
                ref_type: GovernanceRefType::Decision,
                status,
                reasons,
                supporting_refs: supporting,
                blocking_refs: blocking,
                notes,
            },
        ),
    )
}


// ---------------------------------------------------------------------------
// Laws of governance
// ---------------------------------------------------------------------------
/// The governance of a signal is its readiness read as a decision; it exists
/// exactly when the readiness does, a ready signal is eligible, an unconfirmed one
/// weak, a vetoed one blocked and an inconsistent one inconsistent; the signal
/// supports itself and its reasons are its readiness reasons, one for one.
pub proof fn lemma_signal_governance_follows_readiness(s: Seq<StoredEventView>, id: Seq<char>)
    ensures
        signal_governance_of(s, id) is Some <==> signal_readiness_of(s, id) is Some,
        signal_readiness_of(s, id) matches Some(r) ==> {
            &&& signal_governance_of(s, id) matches Some(g)
            &&& g.status == governance_of_signal_status(r.status)
            &&& g.reasons.len() == r.reasons.len()
            &&& g.supporting_refs == seq![(id, GovernanceRefType::Signal)]
        },
{
}

/// A decision is eligible only when its readiness is ready, its lineage is
/// supported and its execution boundary is clear or merely pending.
pub proof fn lemma_eligible_decision_is_ready_supported_and_unobstructed(s: Seq<StoredEventView>, id: Seq<char>)
    requires
        decision_governance_of(s, id) matches Some(g) && g.status == GovernanceStatus::Eligible,
    ensures
        decision_readiness_of(s, id) matches Some(r) && r.status == DecisionReadinessStatus::Ready,
        decision_lineage_of(s, id) matches Some(l) && l.status == DecisionLineageStatus::Supported,
        decision_boundary_of(s, id) matches Some(b) && (b.status == ExecutionBoundaryStatus::Clear
            || (b.status == ExecutionBoundaryStatus::Weak && pending(b.reasons))),
{
}

/// Inconsistency dominates: when the readiness, lineage or execution boundary of a
/// decision is inconsistent, so is its governance.
pub proof fn lemma_inconsistency_dominates_decision_governance(s: Seq<StoredEventView>, id: Seq<char>)
    requires
        (decision_readiness_of(s, id) matches Some(r) && r.status == DecisionReadinessStatus::Inconsistent)
            || (decision_lineage_of(s, id) matches Some(l) && l.status == DecisionLineageStatus::Inconsistent)
            || (decision_boundary_of(s, id) matches Some(b) && b.status == ExecutionBoundaryStatus::Inconsistent),
    ensures
        decision_governance_of(s, id) matches Some(g) && g.status == GovernanceStatus::Inconsistent,
{
}

/// The notes of a decision's governance are sorted and hold no note twice.
pub proof fn lemma_decision_governance_notes_sorted(s: Seq<StoredEventView>, id: Seq<char>)
    requires
        decision_governance_of(s, id) is Some,
    ensures
        decision_governance_of(s, id) matches Some(g) && crate::text::strictly_sorted(g.notes),
{
    let r = decision_readiness_of(s, id);
    let l = decision_lineage_of(s, id);
    let b = decision_boundary_of(s, id);
    lemma_notes_finite(l, b);
    let set = governance_notes(l, b);
    crate::text::lemma_sorted_elements_exist(set);
}

proof fn lemma_notes_finite(l: Option<DecisionLineageReportView>, b: Option<ExecutionBoundaryReportView>)
    ensures
        governance_notes(l, b).finite(),
{
    let ln = match l {
        Some(x) => x.notes.to_set(),
        None => Set::empty(),
    };
    let bn = match b {
        Some(x) => x.notes.to_set(),
        None => Set::empty(),
    };
    match l {
        Some(x) => vstd::seq_lib::seq_to_set_is_finite(x.notes),
        None => {},
    }
    match b {
        Some(x) => vstd::seq_lib::seq_to_set_is_finite(x.notes),
        None => {},
    }
    assert(ln.finite());
    assert(bn.finite());
}

proof fn lemma_with_ref_distinct(refs: Seq<(Seq<char>, GovernanceRefType)>, r: (Seq<char>, GovernanceRefType))
    requires
        refs.no_duplicates(),
    ensures
        with_ref(refs, r).no_duplicates(),
{
    if !refs.contains(r) {
        let q = refs.push(r);
        assert forall|i: int, j: int| 0 <= i < q.len() && 0 <= j < q.len() && i != j implies q[i] != q[j] by {
            if i < refs.len() && j < refs.len() {
                assert(q[i] == refs[i] && q[j] == refs[j]);
            } else if i < refs.len() {
                assert(q[i] == refs[i]);
            } else {
                assert(q[j] == refs[j]);
            }
        }
    }
}

proof fn lemma_with_refs_distinct(refs: Seq<(Seq<char>, GovernanceRefType)>, ids: Seq<Seq<char>>, t: GovernanceRefType)
    requires
        refs.no_duplicates(),
    ensures
        with_refs(refs, ids, t).no_duplicates(),
    decreases ids.len(),
{
    if ids.len() > 0 {
        lemma_with_refs_distinct(refs, ids.drop_last(), t);
        lemma_with_ref_distinct(with_refs(refs, ids.drop_last(), t), (ids.last(), t));
    }
}

proof fn lemma_signal_vetoes_distinct(
    refs: Seq<(Seq<char>, GovernanceRefType)>,
    vetoes: Seq<(Seq<char>, Seq<char>, Seq<char>)>,
)
    requires
        refs.no_duplicates(),
    ensures
        with_signal_vetoes(refs, vetoes).no_duplicates(),
    decreases vetoes.len(),
{
    if vetoes.len() > 0 {
        lemma_signal_vetoes_distinct(refs, vetoes.drop_last());
        let b = with_signal_vetoes(refs, vetoes.drop_last());
        lemma_with_ref_distinct(b, (vetoes.last().0, GovernanceRefType::Veto));
        lemma_with_ref_distinct(with_ref(b, (vetoes.last().0, GovernanceRefType::Veto)), (vetoes.last().1, GovernanceRefType::Signal));
    }
}

proof fn lemma_readiness_trail_distinct(t: Trail, rs: Seq<DecisionReadinessReasonView>)
    requires
        t.supporting.no_duplicates(),
        t.blocking.no_duplicates(),
    ensures
        readiness_trail(t, rs).supporting.no_duplicates(),
        readiness_trail(t, rs).blocking.no_duplicates(),
    decreases rs.len(),
{
    if rs.len() > 0 {
        lemma_readiness_trail_distinct(t, rs.drop_last());
        let u = readiness_trail(t, rs.drop_last());
        match rs.last() {
            DecisionReadinessReasonView::DecisionVetoObserved { veto_id, reason_code } => {
                lemma_with_ref_distinct(u.blocking, (veto_id, GovernanceRefType::Veto));
            },
            DecisionReadinessReasonView::UpstreamSignalReady { signal_id } => {
                lemma_with_ref_distinct(u.supporting, (signal_id, GovernanceRefType::Signal));
            },
            DecisionReadinessReasonView::UpstreamSignalGeneratedUnconfirmed { signal_id } => {
                lemma_with_ref_distinct(u.supporting, (signal_id, GovernanceRefType::Signal));
            },
            DecisionReadinessReasonView::UpstreamSignalBlocked { signal_id } => {
                lemma_with_ref_distinct(u.blocking, (signal_id, GovernanceRefType::Signal));
            },
            DecisionReadinessReasonView::UpstreamSignalInconsistent { signal_id } => {
                lemma_with_ref_distinct(u.blocking, (signal_id, GovernanceRefType::Signal));
            },
            DecisionReadinessReasonView::FillInstrumentMismatch { fill_id, fill_instrument } => {
                lemma_with_ref_distinct(u.blocking, (fill_id, GovernanceRefType::Fill));
            },
            _ => {},
        }
    }
}

/// A decision has governance exactly when it has readiness, lineage or an
/// execution boundary. Its status then goes by the first that holds:
/// inconsistent when any of the three is inconsistent; else blocked when any
/// is blocked; else eligible when it is ready, its lineage is supported and
/// its execution boundary is clear or merely pending; else weak. The report is
/// of that decision, and neither its supporting nor its blocking references
/// hold a reference twice.
pub proof fn lemma_decision_governance_law(s: Seq<StoredEventView>, id: Seq<char>)
    ensures
        decision_governance_of(s, id) is None <==> (decision_readiness_of(s, id) is None && decision_lineage_of(s, id)
            is None && decision_boundary_of(s, id) is None),
        decision_governance_of(s, id) matches Some(g) ==> {
            &&& g.ref_id == id
            &&& g.ref_type == GovernanceRefType::Decision
            &&& g.status == decision_governance_status(
                decision_readiness_of(s, id),
                decision_lineage_of(s, id),
                decision_boundary_of(s, id),
            )
            &&& g.supporting_refs.no_duplicates()
            &&& g.blocking_refs.no_duplicates()
        },
{
    let r = decision_readiness_of(s, id);
    let l = decision_lineage_of(s, id);
    let b = decision_boundary_of(s, id);
    let t0 = Trail { reasons: Seq::empty(), supporting: seq![(id, GovernanceRefType::Decision)], blocking: Seq::empty() };
    assert(t0.supporting.no_duplicates());
    assert(t0.blocking.no_duplicates());
    let t1 = match r {
        Some(x) => readiness_trail(t0, x.reasons),
        None => t0,
    };
    if let Some(x) = r {
        lemma_readiness_trail_distinct(t0, x.reasons);
    }
    if let Some(x) = l {
        lemma_with_refs_distinct(t1.supporting, x.upstream_refs.signal_ids, GovernanceRefType::Signal);
        let a1 = with_refs(t1.supporting, x.upstream_refs.signal_ids, GovernanceRefType::Signal);
        lemma_with_refs_distinct(a1, x.upstream_refs.hypothesis_ids, GovernanceRefType::Hypothesis);
        let a2 = with_refs(a1, x.upstream_refs.hypothesis_ids, GovernanceRefType::Hypothesis);
        lemma_with_refs_distinct(a2, x.downstream_refs.local_order_ids, GovernanceRefType::Order);
        let a3 = with_refs(a2, x.downstream_refs.local_order_ids, GovernanceRefType::Order);
        lemma_with_refs_distinct(a3, x.downstream_refs.fill_ids, GovernanceRefType::Fill);
        lemma_with_refs_distinct(t1.blocking, veto_ids(x.upstream_refs.decision_vetoes), GovernanceRefType::Veto);
        lemma_signal_vetoes_distinct(
            with_refs(t1.blocking, veto_ids(x.upstream_refs.decision_vetoes), GovernanceRefType::Veto),
            x.upstream_refs.signal_vetoes,
        );
    }
}


/// An event about another signal, or about none, leaves a signal's governance
/// as it was.
pub proof fn lemma_signal_governance_unmoved(s: Seq<StoredEventView>, e: StoredEventView, id: Seq<char>)
    requires
        crate::projections::signal_laws::signal_of_event(e) != Some(id),
    ensures
        signal_governance_of(s.push(e), id) == signal_governance_of(s, id),
{
    crate::queries::readiness::lemma_signal_readiness_unmoved(s, e, id);
}

} // verus!
