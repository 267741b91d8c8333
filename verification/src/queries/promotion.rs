//! Promotion policy: whether a signal, decision or order may be carried one
//! step further down the pipeline, and which step that is.
use vstd::prelude::*;

use crate::queries::boundary::{
    decision_boundary_of, decision_execution_boundary, ExecutionBoundaryReport,
    ExecutionBoundaryReportView, ExecutionBoundaryStatus,
};
use crate::queries::error::QueryError;
use crate::queries::governance::{
    decision_governance, decision_governance_of, signal_governance, signal_governance_of,
    DecisionGovernanceReport, DecisionGovernanceReportView, GovernanceRef, GovernanceRefType,
    GovernanceStatus,
};
use crate::queries::lifecycle::{
    boundary_status_name, boundary_status_text, governance_status_name, governance_status_text,
    order_lifecycle, order_lifecycle_of, OrderLifecycleReport, OrderLifecycleReportView,
    OrderLifecycleStatus,
};
use crate::queries::lineage::{
    decision_lineage, decision_lineage_of, DecisionLineageReport, DecisionLineageReportView,
    DecisionLineageStatus,
};
use crate::queries::render::{
    decision_governance_reason_text, order_lifecycle_reason_text, render_decision_governance_reason,
    render_order_lifecycle_reason, render_signal_governance_reason, signal_governance_reason_text,
};
use crate::queries::support::{answers, lemma_views_push, viewed, views_of};
use crate::store::{event_views, StoredEvent, StoredEventView};
use crate::text::{clone_strs, owned, strs};

verus! {

#[derive(Debug, Clone, Copy, PartialEq, Eq, Structural)]
pub enum PromotionPolicyStatus {
    Eligible,
    Weak,
    Blocked,
    Frozen,
    Inconsistent,
}

#[derive(Debug, Clone, Copy, PartialEq, Eq, Structural)]
pub enum PromotionNextStep {
    FormDecision,
    RegisterOrder,
    SubmitOrder,
    ObserveExecution,
    ReconcileObservedExecution,
}

/// What every promotion report holds.
pub struct PromotionReportView {
    pub ref_id: Seq<char>,
    pub ref_type: GovernanceRefType,
    pub status: PromotionPolicyStatus,
    pub next_step: Option<PromotionNextStep>,
    pub reasons: Seq<Seq<char>>,
    pub supporting_refs: Seq<(Seq<char>, GovernanceRefType)>,
    pub blocking_refs: Seq<(Seq<char>, GovernanceRefType)>,
    pub notes: Seq<Seq<char>>,
}

#[derive(Debug, Clone, PartialEq, Eq)]
pub struct SignalPromotionReport {
    pub ref_id: String,
    pub ref_type: GovernanceRefType,
    pub status: PromotionPolicyStatus,
    pub next_step: Option<PromotionNextStep>,
    pub reasons: Vec<String>,
    pub supporting_refs: Vec<GovernanceRef>,
    pub blocking_refs: Vec<GovernanceRef>,
    pub notes: Vec<String>,
}

#[derive(Debug, Clone, PartialEq, Eq)]
pub struct DecisionPromotionReport {
    pub ref_id: String,
    pub ref_type: GovernanceRefType,
    pub status: PromotionPolicyStatus,
    pub next_step: Option<PromotionNextStep>,
    pub reasons: Vec<String>,
    pub supporting_refs: Vec<GovernanceRef>,
    pub blocking_refs: Vec<GovernanceRef>,
    pub notes: Vec<String>,
}

#[derive(Debug, Clone, PartialEq, Eq)]
pub struct OrderPromotionReport {
    pub ref_id: String,
    pub ref_type: GovernanceRefType,
    pub status: PromotionPolicyStatus,
    pub next_step: Option<PromotionNextStep>,
    pub reasons: Vec<String>,
    pub supporting_refs: Vec<GovernanceRef>,
    pub blocking_refs: Vec<GovernanceRef>,
    pub notes: Vec<String>,
}

/// Whether an order may be submitted now.
#[derive(Debug, Clone, PartialEq, Eq)]
pub struct OrderSubmissionPolicyReport {
    pub ref_id: String,
    pub ref_type: GovernanceRefType,
    pub status: PromotionPolicyStatus,
    pub next_step: Option<PromotionNextStep>,
    pub reasons: Vec<String>,
    pub supporting_refs: Vec<GovernanceRef>,
    pub blocking_refs: Vec<GovernanceRef>,
    pub notes: Vec<String>,
}

impl View for SignalPromotionReport {
    type V = PromotionReportView;

    open spec fn view(&self) -> PromotionReportView {
        PromotionReportView {
            ref_id: self.ref_id@,
            ref_type: self.ref_type,
            status: self.status,
            next_step: self.next_step,
            reasons: strs(self.reasons@),
            supporting_refs: views_of(self.supporting_refs@),
            blocking_refs: views_of(self.blocking_refs@),
            notes: strs(self.notes@),
        }
    }
}

impl View for DecisionPromotionReport {
    type V = PromotionReportView;

    open spec fn view(&self) -> PromotionReportView {
        PromotionReportView {
            ref_id: self.ref_id@,
            ref_type: self.ref_type,
            status: self.status,
            next_step: self.next_step,
            reasons: strs(self.reasons@),
            supporting_refs: views_of(self.supporting_refs@),
            blocking_refs: views_of(self.blocking_refs@),
            notes: strs(self.notes@),
        }
    }
}

impl View for OrderPromotionReport {
    type V = PromotionReportView;

    open spec fn view(&self) -> PromotionReportView {
        PromotionReportView {
            ref_id: self.ref_id@,
            ref_type: self.ref_type,
            status: self.status,
            next_step: self.next_step,
            reasons: strs(self.reasons@),
            supporting_refs: views_of(self.supporting_refs@),
            blocking_refs: views_of(self.blocking_refs@),
            notes: strs(self.notes@),
        }
    }
}

impl View for OrderSubmissionPolicyReport {
    type V = PromotionReportView;

    open spec fn view(&self) -> PromotionReportView {
        PromotionReportView {
            ref_id: self.ref_id@,
            ref_type: self.ref_type,
            status: self.status,
            next_step: self.next_step,
            reasons: strs(self.reasons@),
            supporting_refs: views_of(self.supporting_refs@),
            blocking_refs: views_of(self.blocking_refs@),
            notes: strs(self.notes@),
        }
    }
}

// ---------------------------------------------------------------------------
// Signals
// ---------------------------------------------------------------------------
pub open spec fn signal_promotion_step(g: GovernanceStatus) -> (PromotionPolicyStatus, Option<PromotionNextStep>) {
    match g {
        GovernanceStatus::Eligible => (PromotionPolicyStatus::Eligible, Some(PromotionNextStep::FormDecision)),
        GovernanceStatus::Weak => (PromotionPolicyStatus::Weak, Some(PromotionNextStep::FormDecision)),
        GovernanceStatus::Blocked => (PromotionPolicyStatus::Blocked, None),
        GovernanceStatus::Inconsistent => (PromotionPolicyStatus::Inconsistent, None),
    }
}

pub open spec fn signal_promotion_note() -> Seq<char> {
    "signal promotion policy v1 is derived from signal governance; no separate freeze rule is defined for signals"@
}

/// The promotion policy of the signal `id` over the log `s`; `None` when it has no governance.
pub closed spec fn signal_promotion_of(s: Seq<StoredEventView>, id: Seq<char>) -> Option<PromotionReportView> {
    match signal_governance_of(s, id) {
        Some(g) => Some(
            PromotionReportView {
                ref_id: g.ref_id,
                ref_type: g.ref_type,
                status: signal_promotion_step(g.status).0,
                next_step: signal_promotion_step(g.status).1,
                reasons: g.reasons.map_values(|r| signal_governance_reason_text(r)),
                supporting_refs: g.supporting_refs,
                blocking_refs: g.blocking_refs,
                notes: g.notes.push(signal_promotion_note()),
            },
        ),
        None => None,
    }
}

/// The promotion policy of a signal: eligible or weak signals may go on to form a decision.
pub fn signal_promotion_policy(events: &[StoredEvent], signal_id: &str) -> (r: Result<
    Option<SignalPromotionReport>,
    QueryError,
>)
    ensures
        answers(r, event_views(events@), signal_promotion_of(event_views(events@), signal_id@)),
{
    let governance = match signal_governance(events, signal_id) {
        Ok(Some(g)) => g,
        Ok(None) => return Ok(None),
        Err(e) => return Err(e),
    };
    let ghost g = governance@;
    let (status, next_step) = match governance.status {
        GovernanceStatus::Eligible => (PromotionPolicyStatus::Eligible, Some(PromotionNextStep::FormDecision)),
        GovernanceStatus::Weak => (PromotionPolicyStatus::Weak, Some(PromotionNextStep::FormDecision)),
        GovernanceStatus::Blocked => (PromotionPolicyStatus::Blocked, None),
        GovernanceStatus::Inconsistent => (PromotionPolicyStatus::Inconsistent, None),
    };
    let mut reasons: Vec<String> = Vec::new();
    let mut k: usize = 0;
    while k < governance.reasons.len()
        invariant
            k <= governance.reasons.len(),
            g == governance@,
            strs(reasons@) == g.reasons.take(k as int).map_values(|r| signal_governance_reason_text(r)),
        decreases governance.reasons.len() - k,
    {
        let t = render_signal_governance_reason(&governance.reasons[k]);
        let ghost before = reasons@;
        reasons.push(t);
        proof {
            assert(strs(reasons@) =~= strs(before).push(t@));
            assert(g.reasons.take(k as int + 1).map_values(|r| signal_governance_reason_text(r))
                =~= g.reasons.take(k as int).map_values(|r| signal_governance_reason_text(r)).push(
                signal_governance_reason_text(g.reasons[k as int]),
            ));
        }
        k = k + 1;
    }
    proof {
        assert(g.reasons.take(k as int) =~= g.reasons);
    }
    let mut notes = governance.notes;
    let ghost n0 = notes@;
    notes.push(
        owned(
            "signal promotion policy v1 is derived from signal governance; no separate freeze rule is defined for signals",
        ),
    );
    proof {
        assert(strs(notes@) =~= strs(n0).push(signal_promotion_note()));
    }
    Ok(
        Some(
            SignalPromotionReport {
                ref_id: governance.ref_id,
                ref_type: governance.ref_type,
                status,
                next_step,
                reasons,
                supporting_refs: governance.supporting_refs,
                blocking_refs: governance.blocking_refs,
                notes,
            },
        ),
    )
}


// ---------------------------------------------------------------------------
// Decisions
// ---------------------------------------------------------------------------
pub open spec fn lineage_status_name(s: DecisionLineageStatus) -> Seq<char> {
    match s {
        DecisionLineageStatus::Supported => "Supported"@,
        DecisionLineageStatus::Weak => "Weak"@,
        DecisionLineageStatus::Blocked => "Blocked"@,
        DecisionLineageStatus::Inconsistent => "Inconsistent"@,
    }
}

pub fn lineage_status_text(s: DecisionLineageStatus) -> (r: &'static str)
    ensures
        r@ == lineage_status_name(s),
{
    match s {
        DecisionLineageStatus::Supported => "Supported",
        DecisionLineageStatus::Weak => "Weak",
        DecisionLineageStatus::Blocked => "Blocked",
        DecisionLineageStatus::Inconsistent => "Inconsistent",
    }
}

pub open spec fn observed_note() -> Seq<char> {
    "decision promotion is frozen because execution has already been observed under the current model"@
}

pub open spec fn in_flight_note() -> Seq<char> {
    "decision promotion is frozen because local submission is already in flight and the current model should wait for execution follow-up"@
}

pub open spec fn local_activity_note() -> Seq<char> {
    "decision promotion is frozen because local order activity exists but submission is not yet visible"@
}

/// Reasons, references and notes a decision's promotion report carries.
pub struct PromotionBody {
    pub reasons: Seq<Seq<char>>,
    pub supporting: Seq<(Seq<char>, GovernanceRefType)>,
    pub blocking: Seq<(Seq<char>, GovernanceRefType)>,
    pub notes: Seq<Seq<char>>,
}

pub open spec fn decision_report(
    id: Seq<char>,
    status: PromotionPolicyStatus,
    next_step: Option<PromotionNextStep>,
    b: PromotionBody,
) -> PromotionReportView {
    PromotionReportView {
        ref_id: id,
        ref_type: GovernanceRefType::Decision,
        status,
        next_step,
        reasons: b.reasons,
        supporting_refs: b.supporting,
        blocking_refs: b.blocking,
        notes: b.notes,
    }
}

/// The decision's promotion once governance and lineage let it go on, by what its
/// execution boundary shows.
pub open spec fn boundary_promotion(
    id: Seq<char>,
    next: Option<PromotionNextStep>,
    body: PromotionBody,
    l: Option<DecisionLineageReportView>,
    b: Option<ExecutionBoundaryReportView>,
) -> PromotionReportView {
    match b {
        None => decision_report(id, PromotionPolicyStatus::Weak, next, body),
        Some(x) => {
            let body2 = PromotionBody {
                reasons: body.reasons.push("ExecutionBoundary::"@ + boundary_status_name(x.status)),
                notes: body.notes + x.notes,
                ..body
            };
            let submitted = match l {
                Some(y) => y.downstream_refs.submitted_order_ids,
                None => Seq::empty(),
            };
            let local = match l {
                Some(y) => y.downstream_refs.local_order_ids,
                None => Seq::empty(),
            };
            match x.status {
                ExecutionBoundaryStatus::Inconsistent => decision_report(id, PromotionPolicyStatus::Inconsistent, None, body2),
                ExecutionBoundaryStatus::Blocked => decision_report(id, PromotionPolicyStatus::Blocked, None, body2),
                ExecutionBoundaryStatus::Clear => decision_report(
                    id,
                    PromotionPolicyStatus::Frozen,
                    Some(PromotionNextStep::ReconcileObservedExecution),
                    PromotionBody { notes: body2.notes.push(observed_note()), ..body2 },
                ),
                ExecutionBoundaryStatus::Weak => if x.observed_order_ids.len() == 0
                    && x.submitted_order_ids.len() == 0 {
                    if submitted.len() > 0 {
                        decision_report(
                            id,
                            PromotionPolicyStatus::Frozen,
                            Some(PromotionNextStep::ObserveExecution),
                            PromotionBody { notes: body2.notes.push(in_flight_note()), ..body2 },
                        )
                    } else if local.len() > 0 {
                        decision_report(
                            id,
                            PromotionPolicyStatus::Frozen,
                            Some(PromotionNextStep::SubmitOrder),
                            PromotionBody { notes: body2.notes.push(local_activity_note()), ..body2 },
                        )
                    } else {
                        decision_report(id, PromotionPolicyStatus::Eligible, Some(PromotionNextStep::RegisterOrder), body2)
                    }
                } else if x.submitted_order_ids.len() == 0 {
                    decision_report(
                        id,
                        PromotionPolicyStatus::Frozen,
                        Some(PromotionNextStep::SubmitOrder),
                        PromotionBody { notes: body2.notes.push(local_activity_note()), ..body2 },
                    )
                } else {
                    decision_report(
                        id,
                        PromotionPolicyStatus::Frozen,
                        Some(PromotionNextStep::ObserveExecution),
                        PromotionBody { notes: body2.notes.push(in_flight_note()), ..body2 },
                    )
                },
            }
        },
    }
}

/// The decision's promotion once governance lets it go on, by what its lineage shows.
pub open spec fn lineage_promotion(
    id: Seq<char>,
    next: Option<PromotionNextStep>,
    body: PromotionBody,
    l: Option<DecisionLineageReportView>,
    b: Option<ExecutionBoundaryReportView>,
) -> PromotionReportView {
    match l {
        None => boundary_promotion(id, next, body, l, b),
        Some(x) => {
            let body1 = PromotionBody {
                reasons: body.reasons.push("DecisionLineage::"@ + lineage_status_name(x.status)),
                notes: body.notes + x.notes,
                ..body
            };
            match x.status {
                DecisionLineageStatus::Inconsistent => decision_report(id, PromotionPolicyStatus::Inconsistent, None, body1),
                DecisionLineageStatus::Blocked => decision_report(id, PromotionPolicyStatus::Blocked, None, body1),
                DecisionLineageStatus::Weak => boundary_promotion(
                    id,
                    if next is None {
                        Some(PromotionNextStep::RegisterOrder)
                    } else {
                        next
                    },
                    body1,
                    l,
                    b,
                ),
                DecisionLineageStatus::Supported => boundary_promotion(id, next, body1, l, b),
            }
        },
    }
}

pub open spec fn decision_promotion_from(
    id: Seq<char>,
    g: Option<DecisionGovernanceReportView>,
    l: Option<DecisionLineageReportView>,
    b: Option<ExecutionBoundaryReportView>,
) -> PromotionReportView {
    match g {
        None => lineage_promotion(
            id,
            None,
            PromotionBody { reasons: Seq::empty(), supporting: Seq::empty(), blocking: Seq::empty(), notes: Seq::empty() },
            l,
            b,
        ),
        Some(x) => {
            let body = PromotionBody {
                reasons: x.reasons.map_values(|r| decision_governance_reason_text(r)),
                supporting: x.supporting_refs,
                blocking: x.blocking_refs,
                notes: x.notes,
            };
            match x.status {
                GovernanceStatus::Inconsistent => decision_report(id, PromotionPolicyStatus::Inconsistent, None, body),
                GovernanceStatus::Blocked => decision_report(id, PromotionPolicyStatus::Blocked, None, body),
                GovernanceStatus::Weak => lineage_promotion(id, Some(PromotionNextStep::RegisterOrder), body, l, b),
                GovernanceStatus::Eligible => lineage_promotion(id, None, body, l, b),
            }
        },
    }
}

/// The promotion policy of the decision `id` over the log `s`; `None` when it has
/// neither governance, lineage nor execution boundary.
pub closed spec fn decision_promotion_of(s: Seq<StoredEventView>, id: Seq<char>) -> Option<PromotionReportView> {
    let g = decision_governance_of(s, id);
    let l = decision_lineage_of(s, id);
    let b = decision_boundary_of(s, id);
    if g is None && l is None && b is None {
        None
    } else {
        Some(decision_promotion_from(id, g, l, b))
    }
}

struct Body {
    reasons: Vec<String>,
    supporting: Vec<GovernanceRef>,
    blocking: Vec<GovernanceRef>,
    notes: Vec<String>,
}

impl Body {
    spec fn body(&self) -> PromotionBody {
        PromotionBody {
            reasons: strs(self.reasons@),
            supporting: views_of(self.supporting@),
            blocking: views_of(self.blocking@),
            notes: strs(self.notes@),
        }
    }

    fn report(self, id: &str, status: PromotionPolicyStatus, next_step: Option<PromotionNextStep>) -> (r: DecisionPromotionReport)
        ensures
            r@ == decision_report(id@, status, next_step, self.body()),
    {
        DecisionPromotionReport {
            ref_id: owned(id),
            ref_type: GovernanceRefType::Decision,
            status,
            next_step,
            reasons: self.reasons,
            supporting_refs: self.supporting,
            blocking_refs: self.blocking,
            notes: self.notes,
        }
    }

    fn push_reason(&mut self, t: String)
        ensures
            final(self).body() == (PromotionBody { reasons: old(self).body().reasons.push(t@), ..old(self).body() }),
    {
        let ghost before = self.reasons@;
        self.reasons.push(t);
        proof {
            assert(strs(self.reasons@) =~= strs(before).push(t@));
        }
    }

    fn push_note(&mut self, t: &str)
        ensures
            final(self).body() == (PromotionBody { notes: old(self).body().notes.push(t@), ..old(self).body() }),
    {
        let ghost before = self.notes@;
        self.notes.push(owned(t));
        proof {
            assert(strs(self.notes@) =~= strs(before).push(t@));
        }
    }

    fn extend_notes(&mut self, more: &Vec<String>)
        ensures
            final(self).body() == (PromotionBody { notes: old(self).body().notes + strs(more@), ..old(self).body() }),
    {
        let ghost start = strs(self.notes@);
        let mut k: usize = 0;
        while k < more.len()
            invariant
                k <= more.len(),
                self.body() == (PromotionBody { notes: start + strs(more@).take(k as int), ..old(self).body() }),
            decreases more.len() - k,
        {
            let ghost before = self.notes@;
            self.notes.push(more[k].clone());
            proof {
                assert(strs(self.notes@) =~= strs(before).push(more@[k as int]@));
                assert(start + strs(more@).take(k as int + 1) =~= (start + strs(more@).take(k as int)).push(
                    more@[k as int]@,
                ));
            }
            k = k + 1;
        }
        proof {
            assert(strs(more@).take(k as int) =~= strs(more@));
        }
    }
}

fn promote_by_boundary(
    id: &str,
    next: Option<PromotionNextStep>,
    body: Body,
    lineage: &Option<DecisionLineageReport>,
    boundary: &Option<ExecutionBoundaryReport>,
) -> (r: DecisionPromotionReport)
    ensures
        r@ == boundary_promotion(id@, next, body.body(), viewed(*lineage), viewed(*boundary)),
{
    let mut body = body;
    match boundary {
        None => body.report(id, PromotionPolicyStatus::Weak, next),
        Some(x) => {
            let mut t = owned("ExecutionBoundary::");
            t.append(boundary_status_text(x.status));
            body.push_reason(t);
            body.extend_notes(&x.notes);
            let (submitted, local) = match lineage {
                Some(y) => (y.downstream_refs.submitted_order_ids.len(), y.downstream_refs.local_order_ids.len()),
                None => (0, 0),
            };
            match x.status {
                ExecutionBoundaryStatus::Inconsistent => body.report(id, PromotionPolicyStatus::Inconsistent, None),
                ExecutionBoundaryStatus::Blocked => body.report(id, PromotionPolicyStatus::Blocked, None),
                ExecutionBoundaryStatus::Clear => {
                    body.push_note(
                        "decision promotion is frozen because execution has already been observed under the current model",
                    );
                    body.report(id, PromotionPolicyStatus::Frozen, Some(PromotionNextStep::ReconcileObservedExecution))
                },
                ExecutionBoundaryStatus::Weak => {
                    if x.observed_order_ids.len() == 0 && x.submitted_order_ids.len() == 0 {
                        if submitted > 0 {
                            body.push_note(
                                "decision promotion is frozen because local submission is already in flight and the current model should wait for execution follow-up",
                            );
                            body.report(id, PromotionPolicyStatus::Frozen, Some(PromotionNextStep::ObserveExecution))
                        } else if local > 0 {
                            body.push_note(
                                "decision promotion is frozen because local order activity exists but submission is not yet visible",
                            );
                            body.report(id, PromotionPolicyStatus::Frozen, Some(PromotionNextStep::SubmitOrder))
                        } else {
                            body.report(id, PromotionPolicyStatus::Eligible, Some(PromotionNextStep::RegisterOrder))
                        }
                    } else if x.submitted_order_ids.len() == 0 {
                        body.push_note(
                            "decision promotion is frozen because local order activity exists but submission is not yet visible",
                        );
                        body.report(id, PromotionPolicyStatus::Frozen, Some(PromotionNextStep::SubmitOrder))
                    } else {
                        body.push_note(
                            "decision promotion is frozen because local submission is already in flight and the current model should wait for execution follow-up",
                        );
                        body.report(id, PromotionPolicyStatus::Frozen, Some(PromotionNextStep::ObserveExecution))
                    }
                },
            }
        },
    }
}

fn promote_by_lineage(
    id: &str,
    next: Option<PromotionNextStep>,
    body: Body,
    lineage: &Option<DecisionLineageReport>,
    boundary: &Option<ExecutionBoundaryReport>,
) -> (r: DecisionPromotionReport)
    ensures
        r@ == lineage_promotion(id@, next, body.body(), viewed(*lineage), viewed(*boundary)),
{
    let mut body = body;
    match lineage {
        None => promote_by_boundary(id, next, body, lineage, boundary),
        Some(x) => {
            let mut t = owned("DecisionLineage::");
            t.append(lineage_status_text(x.status));
            body.push_reason(t);
            body.extend_notes(&x.notes);
            match x.status {
                DecisionLineageStatus::Inconsistent => body.report(id, PromotionPolicyStatus::Inconsistent, None),
                DecisionLineageStatus::Blocked => body.report(id, PromotionPolicyStatus::Blocked, None),
                DecisionLineageStatus::Weak => {
                    let n = if next.is_none() {
                        Some(PromotionNextStep::RegisterOrder)
                    } else {
                        next
                    };
                    promote_by_boundary(id, n, body, lineage, boundary)
                },
                DecisionLineageStatus::Supported => promote_by_boundary(id, next, body, lineage, boundary),
            }
        },
    }
}

fn governance_body(g: DecisionGovernanceReport) -> (b: Body)
    ensures
        b.body() == (PromotionBody {
            reasons: g@.reasons.map_values(|r| decision_governance_reason_text(r)),
            supporting: g@.supporting_refs,
            blocking: g@.blocking_refs,
            notes: g@.notes,
        }),
{
    let ghost gv = g@;
    let mut reasons: Vec<String> = Vec::new();
    let mut k: usize = 0;
    while k < g.reasons.len()
        invariant
            k <= g.reasons.len(),
            gv == g@,
            strs(reasons@) == gv.reasons.take(k as int).map_values(|r| decision_governance_reason_text(r)),
        decreases g.reasons.len() - k,
    {
        let t = render_decision_governance_reason(&g.reasons[k]);
        let ghost before = reasons@;
        reasons.push(t);
        proof {
            assert(strs(reasons@) =~= strs(before).push(t@));
            assert(gv.reasons.take(k as int + 1).map_values(|r| decision_governance_reason_text(r))
                =~= gv.reasons.take(k as int).map_values(|r| decision_governance_reason_text(r)).push(
                decision_governance_reason_text(gv.reasons[k as int]),
            ));
        }
        k = k + 1;
    }
    proof {
        assert(gv.reasons.take(k as int) =~= gv.reasons);
    }
    Body { reasons, supporting: g.supporting_refs, blocking: g.blocking_refs, notes: g.notes }
}

/// The promotion policy of a decision: blocked or inconsistent decisions stop;
/// otherwise the next step follows from what has already been executed for it.
pub fn decision_promotion_policy(events: &[StoredEvent], decision_id: &str) -> (r: Result<
    Option<DecisionPromotionReport>,
    QueryError,
>)
    ensures
        answers(r, event_views(events@), decision_promotion_of(event_views(events@), decision_id@)),
{
    let governance = match decision_governance(events, decision_id) {
        Ok(x) => x,
        Err(e) => return Err(e),
    };
    let lineage = match decision_lineage(events, decision_id) {
        Ok(x) => x,
        Err(e) => return Err(e),
    };
    let boundary = match decision_execution_boundary(events, decision_id) {
        Ok(x) => x,
        Err(e) => return Err(e),
    };
    if governance.is_none() && lineage.is_none() && boundary.is_none() {
        return Ok(None);
    }
    match governance {
        None => {
            let body = Body { reasons: Vec::new(), supporting: Vec::new(), blocking: Vec::new(), notes: Vec::new() };
            proof {
                assert(strs(body.reasons@) =~= Seq::empty());
                assert(strs(body.notes@) =~= Seq::empty());
                assert(views_of(body.supporting@) =~= Seq::empty());
                assert(views_of(body.blocking@) =~= Seq::empty());
                assert(body.body() == (PromotionBody {
                    reasons: Seq::empty(),
                    supporting: Seq::empty(),
                    blocking: Seq::empty(),
                    notes: Seq::empty(),
                }));
            }
            Ok(Some(promote_by_lineage(decision_id, None, body, &lineage, &boundary)))
        },
        Some(g) => {
            let status = g.status;
            let body = governance_body(g);
            match status {
                GovernanceStatus::Inconsistent => Ok(Some(body.report(decision_id, PromotionPolicyStatus::Inconsistent, None))),
                GovernanceStatus::Blocked => Ok(Some(body.report(decision_id, PromotionPolicyStatus::Blocked, None))),
                GovernanceStatus::Weak => Ok(
                    Some(
                        promote_by_lineage(
                            decision_id,
                            Some(PromotionNextStep::RegisterOrder),
                            body,
                            &lineage,
                            &boundary,
                        ),
                    ),
                ),
                GovernanceStatus::Eligible => Ok(Some(promote_by_lineage(decision_id, None, body, &lineage, &boundary))),
            }
        },
    }
}

// ---------------------------------------------------------------------------
// Orders
// ---------------------------------------------------------------------------
pub open spec fn registered_order_note() -> Seq<char> {
    "order policy freezes locally registered orders until explicit submission is visible"@
}

pub open spec fn order_report(
    id: Seq<char>,
    status: PromotionPolicyStatus,
    next_step: Option<PromotionNextStep>,
    b: PromotionBody,
) -> PromotionReportView {
    PromotionReportView {
        ref_id: id,
        ref_type: GovernanceRefType::Order,
        status,
        next_step,
        reasons: b.reasons,
        supporting_refs: b.supporting,
        blocking_refs: b.blocking,
        notes: b.notes,
    }
}

/// The order's promotion by its lifecycle alone.
pub open spec fn lifecycle_promotion(id: Seq<char>, st: OrderLifecycleStatus, b: PromotionBody) -> PromotionReportView {
    match st {
        OrderLifecycleStatus::Registered => order_report(
            id,
            PromotionPolicyStatus::Frozen,
            Some(PromotionNextStep::SubmitOrder),
            PromotionBody { notes: b.notes.push(registered_order_note()), ..b },
        ),
        OrderLifecycleStatus::Submitted => order_report(id, PromotionPolicyStatus::Eligible, Some(PromotionNextStep::ObserveExecution), b),
        OrderLifecycleStatus::ObservedWithFills => order_report(
            id,
            PromotionPolicyStatus::Eligible,
            Some(PromotionNextStep::ReconcileObservedExecution),
            b,
        ),
        OrderLifecycleStatus::Weak => order_report(id, PromotionPolicyStatus::Weak, Some(PromotionNextStep::SubmitOrder), b),
        OrderLifecycleStatus::Inconsistent => order_report(id, PromotionPolicyStatus::Inconsistent, None, b),
    }
}

pub open spec fn order_promotion_from(
    s: Seq<StoredEventView>,
    id: Seq<char>,
    lc: OrderLifecycleReportView,
) -> PromotionReportView {
    let body = PromotionBody {
        reasons: lc.reasons.map_values(|r| order_lifecycle_reason_text(r)),
        supporting: seq![(id, GovernanceRefType::Order)] + lc.decision_refs.map_values(
            |d: Seq<char>| (d, GovernanceRefType::Decision),
        ) + lc.observed_fill_ids.map_values(|f: Seq<char>| (f, GovernanceRefType::Fill)),
        blocking: Seq::empty(),
        notes: lc.notes,
    };
    if lc.decision_refs.len() == 1 {
        let d = lc.decision_refs[0];
        match decision_governance_of(s, d) {
            Some(g) => {
                let body1 = PromotionBody {
                    reasons: body.reasons.push("DecisionGovernance::"@ + governance_status_name(g.status)),
                    ..body
                };
                match g.status {
                    GovernanceStatus::Inconsistent => order_report(
                        id,
                        PromotionPolicyStatus::Inconsistent,
                        None,
                        PromotionBody { blocking: seq![(d, GovernanceRefType::Decision)], ..body1 },
                    ),
                    GovernanceStatus::Blocked => order_report(
                        id,
                        PromotionPolicyStatus::Blocked,
                        None,
                        PromotionBody { blocking: seq![(d, GovernanceRefType::Decision)], ..body1 },
                    ),
                    _ => lifecycle_promotion(id, lc.status, body1),
                }
            },
            None => lifecycle_promotion(id, lc.status, body),
        }
    } else {
        lifecycle_promotion(id, lc.status, body)
    }
}

/// The promotion policy of the order `id` over the log `s`; `None` when it has no lifecycle.
pub closed spec fn order_promotion_of(s: Seq<StoredEventView>, id: Seq<char>) -> Option<PromotionReportView> {
    match order_lifecycle_of(s, id) {
        Some(lc) => Some(order_promotion_from(s, id, lc)),
        None => None,
    }
}

fn order_body(order_id: &str, lc: OrderLifecycleReport) -> (b: Body)
    ensures
        b.body() == (PromotionBody {
            reasons: lc@.reasons.map_values(|r| order_lifecycle_reason_text(r)),
            supporting: seq![(order_id@, GovernanceRefType::Order)] + lc@.decision_refs.map_values(
                |d: Seq<char>| (d, GovernanceRefType::Decision),
            ) + lc@.observed_fill_ids.map_values(|f: Seq<char>| (f, GovernanceRefType::Fill)),
            blocking: Seq::empty(),
            notes: lc@.notes,
        }),
{
    let ghost lv = lc@;
    let mut reasons: Vec<String> = Vec::new();
    let mut k: usize = 0;
    while k < lc.reasons.len()
        invariant
            k <= lc.reasons.len(),
            lv == lc@,
            strs(reasons@) == lv.reasons.take(k as int).map_values(|r| order_lifecycle_reason_text(r)),
        decreases lc.reasons.len() - k,
    {
        let t = render_order_lifecycle_reason(&lc.reasons[k]);
        let ghost before = reasons@;
        reasons.push(t);
        proof {
            assert(strs(reasons@) =~= strs(before).push(t@));
            assert(lv.reasons.take(k as int + 1).map_values(|r| order_lifecycle_reason_text(r))
                =~= lv.reasons.take(k as int).map_values(|r| order_lifecycle_reason_text(r)).push(
                order_lifecycle_reason_text(lv.reasons[k as int]),
            ));
        }
        k = k + 1;
    }
    proof {
        assert(lv.reasons.take(k as int) =~= lv.reasons);
    }
    let mut supporting: Vec<GovernanceRef> = Vec::new();
    let first = GovernanceRef { ref_id: owned(order_id), ref_type: GovernanceRefType::Order };
    supporting.push(first);
    let ghost s0 = views_of(supporting@);
    proof {
        assert(s0 =~= seq![(order_id@, GovernanceRefType::Order)]);
    }
    let mut k: usize = 0;
    while k < lc.decision_refs.len()
        invariant
            k <= lc.decision_refs.len(),
            lv == lc@,
            views_of(supporting@) == s0 + lv.decision_refs.take(k as int).map_values(
                |d: Seq<char>| (d, GovernanceRefType::Decision),
            ),
        decreases lc.decision_refs.len() - k,
    {
        let x = GovernanceRef { ref_id: lc.decision_refs[k].clone(), ref_type: GovernanceRefType::Decision };
        let ghost before = supporting@;
        supporting.push(x);
        proof {
            lemma_views_push(before, x);
            assert(lv.decision_refs.take(k as int + 1).map_values(|d: Seq<char>| (d, GovernanceRefType::Decision))
                =~= lv.decision_refs.take(k as int).map_values(|d: Seq<char>| (d, GovernanceRefType::Decision)).push(
                x@,
            ));
        }
        k = k + 1;
    }
    proof {
        assert(lv.decision_refs.take(k as int) =~= lv.decision_refs);
    }
    let ghost s1 = views_of(supporting@);
    let mut k: usize = 0;
    while k < lc.observed_fill_ids.len()
        invariant
            k <= lc.observed_fill_ids.len(),
            lv == lc@,
            views_of(supporting@) == s1 + lv.observed_fill_ids.take(k as int).map_values(
                |f: Seq<char>| (f, GovernanceRefType::Fill),
            ),
        decreases lc.observed_fill_ids.len() - k,
    {
        let x = GovernanceRef { ref_id: lc.observed_fill_ids[k].clone(), ref_type: GovernanceRefType::Fill };
        let ghost before = supporting@;
        supporting.push(x);
        proof {
            lemma_views_push(before, x);
            assert(lv.observed_fill_ids.take(k as int + 1).map_values(|f: Seq<char>| (f, GovernanceRefType::Fill))
                =~= lv.observed_fill_ids.take(k as int).map_values(|f: Seq<char>| (f, GovernanceRefType::Fill)).push(
                x@,
            ));
        }
        k = k + 1;
    }
    proof {
        assert(lv.observed_fill_ids.take(k as int) =~= lv.observed_fill_ids);
    }
    let blocking: Vec<GovernanceRef> = Vec::new();
    proof {
        assert(views_of(blocking@) =~= Seq::empty());
    }
    Body { reasons, supporting, blocking, notes: lc.notes }
}

impl Body {
    fn order_report(self, id: &str, status: PromotionPolicyStatus, next_step: Option<PromotionNextStep>) -> (r: OrderPromotionReport)
        ensures
            r@ == order_report(id@, status, next_step, self.body()),
    {
        OrderPromotionReport {
            ref_id: owned(id),
            ref_type: GovernanceRefType::Order,
            status,
            next_step,
            reasons: self.reasons,
            supporting_refs: self.supporting,
            blocking_refs: self.blocking,
            notes: self.notes,
        }
    }
}

fn promote_by_lifecycle(id: &str, st: OrderLifecycleStatus, body: Body) -> (r: OrderPromotionReport)
    ensures
        r@ == lifecycle_promotion(id@, st, body.body()),
{
    let mut body = body;
    match st {
        OrderLifecycleStatus::Registered => {
            body.push_note("order policy freezes locally registered orders until explicit submission is visible");
            body.order_report(id, PromotionPolicyStatus::Frozen, Some(PromotionNextStep::SubmitOrder))
        },
        OrderLifecycleStatus::Submitted => body.order_report(
            id,
            PromotionPolicyStatus::Eligible,
            Some(PromotionNextStep::ObserveExecution),
        ),
        OrderLifecycleStatus::ObservedWithFills => body.order_report(
            id,
            PromotionPolicyStatus::Eligible,
            Some(PromotionNextStep::ReconcileObservedExecution),
        ),
        OrderLifecycleStatus::Weak => body.order_report(id, PromotionPolicyStatus::Weak, Some(PromotionNextStep::SubmitOrder)),
        OrderLifecycleStatus::Inconsistent => body.order_report(id, PromotionPolicyStatus::Inconsistent, None),
    }
}

/// The promotion policy of an order: what its lifecycle allows, unless the single
/// decision it belongs to is blocked or inconsistent.
pub fn order_promotion_policy(events: &[StoredEvent], order_id: &str) -> (r: Result<
    Option<OrderPromotionReport>,
    QueryError,
>)
    ensures
        answers(r, event_views(events@), order_promotion_of(event_views(events@), order_id@)),
{
    let ghost s = event_views(events@);
    let lifecycle = match order_lifecycle(events, order_id) {
        Ok(Some(x)) => x,
        Ok(None) => return Ok(None),
        Err(e) => return Err(e),
    };
    let ghost lv = lifecycle@;
    let status = lifecycle.status;
    let single: Option<String> = if lifecycle.decision_refs.len() == 1 {
        Some(lifecycle.decision_refs[0].clone())
    } else {
        None
    };
    let mut body = order_body(order_id, lifecycle);
    match &single {
        Some(d) => {
            let governance = match decision_governance(events, d.as_str()) {
                Ok(x) => x,
                Err(e) => return Err(e),
            };
            match governance {
                Some(g) => {
                    let mut t = owned("DecisionGovernance::");
                    t.append(governance_status_text(g.status));
                    body.push_reason(t);
                    match g.status {
                        GovernanceStatus::Inconsistent | GovernanceStatus::Blocked => {
                            let mut blocking: Vec<GovernanceRef> = Vec::new();
                            let x = GovernanceRef { ref_id: d.clone(), ref_type: GovernanceRefType::Decision };
                            blocking.push(x);
                            proof {
                                assert(views_of(blocking@) =~= seq![(d@, GovernanceRefType::Decision)]);
                            }
                            body.blocking = blocking;
                            let st = if g.status == GovernanceStatus::Inconsistent {
                                PromotionPolicyStatus::Inconsistent
                            } else {
                                PromotionPolicyStatus::Blocked
                            };
                            Ok(Some(body.order_report(order_id, st, None)))
                        },
                        _ => Ok(Some(promote_by_lifecycle(order_id, status, body))),
                    }
                },
                None => Ok(Some(promote_by_lifecycle(order_id, status, body))),
            }
        },
        None => Ok(Some(promote_by_lifecycle(order_id, status, body))),
    }
}

// ---------------------------------------------------------------------------
// Submission of orders
// ---------------------------------------------------------------------------
pub open spec fn submittable_note() -> Seq<char> {
    "order submission policy v1 treats a registered order whose submission is not yet visible as submittable"@
}

pub open spec fn submitted_note() -> Seq<char> {
    "order submission policy v1 freezes orders whose submission is already visible"@
}

/// The submission policy made from an order's promotion policy: an order frozen
/// until its submission becomes eligible for submission, and an order already
/// submitted is frozen.
pub open spec fn submission_from(p: PromotionReportView) -> PromotionReportView {
    if p.status == PromotionPolicyStatus::Frozen && p.next_step == Some(PromotionNextStep::SubmitOrder) {
        PromotionReportView { status: PromotionPolicyStatus::Eligible, notes: p.notes.push(submittable_note()), ..p }
    } else if p.status == PromotionPolicyStatus::Eligible {
        PromotionReportView { status: PromotionPolicyStatus::Frozen, notes: p.notes.push(submitted_note()), ..p }
    } else {
        p
    }
}

/// The submission policy of the order `id` over the log `s`; `None` when it has no lifecycle.
pub closed spec fn order_submission_of(s: Seq<StoredEventView>, id: Seq<char>) -> Option<PromotionReportView> {
    match order_promotion_of(s, id) {
        Some(p) => Some(submission_from(p)),
        None => None,
    }
}

/// The submission policy of an order: whether it may be submitted now.
pub fn order_submission_policy(events: &[StoredEvent], order_id: &str) -> (r: Result<
    Option<OrderSubmissionPolicyReport>,
    QueryError,
>)
    ensures
        answers(r, event_views(events@), order_submission_of(event_views(events@), order_id@)),
{
    let p = match order_promotion_policy(events, order_id) {
        Ok(Some(x)) => x,
        Ok(None) => return Ok(None),
        Err(e) => return Err(e),
    };
    let ghost pv = p@;
    let mut notes = p.notes;
    let ghost n0 = notes@;
    let status = if p.status == PromotionPolicyStatus::Frozen && p.next_step == Some(PromotionNextStep::SubmitOrder) {
        notes.push(
            owned(
                "order submission policy v1 treats a registered order whose submission is not yet visible as submittable",
            ),
        );
        proof {
            assert(strs(notes@) =~= strs(n0).push(submittable_note()));
        }
        PromotionPolicyStatus::Eligible
    } else if p.status == PromotionPolicyStatus::Eligible {
        notes.push(owned("order submission policy v1 freezes orders whose submission is already visible"));
        proof {
            assert(strs(notes@) =~= strs(n0).push(submitted_note()));
        }
        PromotionPolicyStatus::Frozen
    } else {
        p.status
    };
    Ok(
        Some(
            OrderSubmissionPolicyReport {
                ref_id: p.ref_id,
                ref_type: p.ref_type,
                status,
                next_step: p.next_step,
                reasons: p.reasons,
                supporting_refs: p.supporting_refs,
                blocking_refs: p.blocking_refs,
                notes,
            },
        ),
    )
}


// ---------------------------------------------------------------------------
// Laws of promotion
// ---------------------------------------------------------------------------
/// What stops does not go on: a blocked or inconsistent promotion names no next step.
pub open spec fn stops_without_next_step(p: PromotionReportView) -> bool {
    (p.status == PromotionPolicyStatus::Blocked || p.status == PromotionPolicyStatus::Inconsistent)
        ==> p.next_step is None
}

/// A signal's promotion exists exactly when its governance does; eligible and weak
/// signals may go on to form a decision, blocked and inconsistent ones may not.
pub proof fn lemma_signal_promotion_follows_governance(s: Seq<StoredEventView>, id: Seq<char>)
    ensures
        signal_promotion_of(s, id) is Some <==> signal_governance_of(s, id) is Some,
        signal_governance_of(s, id) matches Some(g) ==> {
            &&& signal_promotion_of(s, id) matches Some(p)
            &&& (g.status == GovernanceStatus::Eligible || g.status == GovernanceStatus::Weak) ==> p.next_step
                == Some(PromotionNextStep::FormDecision)
            &&& (g.status == GovernanceStatus::Blocked || g.status == GovernanceStatus::Inconsistent) ==> p.next_step
                is None
            &&& stops_without_next_step(p)
        },
{
}

/// A decision whose governance is blocked or inconsistent is promoted no further,
/// and no decision promotion that stops names a next step.
pub proof fn lemma_blocked_decision_is_not_promoted(s: Seq<StoredEventView>, id: Seq<char>)
    ensures
        decision_promotion_of(s, id) matches Some(p) ==> stops_without_next_step(p),
        decision_governance_of(s, id) matches Some(g) ==> (g.status == GovernanceStatus::Blocked ==> (
        decision_promotion_of(s, id) matches Some(p) && p.status == PromotionPolicyStatus::Blocked)),
        decision_governance_of(s, id) matches Some(g) ==> (g.status == GovernanceStatus::Inconsistent ==> (
        decision_promotion_of(s, id) matches Some(p) && p.status == PromotionPolicyStatus::Inconsistent)),
{
}

/// An order whose single decision is blocked or inconsistent is not promoted, and
/// no order promotion that stops names a next step.
pub proof fn lemma_order_promotion_respects_decision(s: Seq<StoredEventView>, id: Seq<char>)
    ensures
        order_promotion_of(s, id) matches Some(p) ==> stops_without_next_step(p),
        order_lifecycle_of(s, id) matches Some(lc) ==> (lc.decision_refs.len() == 1 && (
        decision_governance_of(s, lc.decision_refs[0]) matches Some(g) && (g.status
            == GovernanceStatus::Blocked || g.status == GovernanceStatus::Inconsistent)) ==> (
        order_promotion_of(s, id) matches Some(p) && p.next_step is None && p.blocking_refs == seq![
            (lc.decision_refs[0], GovernanceRefType::Decision),
        ])),
{
}

/// An order may be submitted only while its submission is the next step, and an
/// order whose submission is visible is never submittable again.
pub proof fn lemma_submittable_order_awaits_submission(s: Seq<StoredEventView>, id: Seq<char>)
    ensures
        order_submission_of(s, id) matches Some(p) ==> (p.status == PromotionPolicyStatus::Eligible ==> p.next_step
            == Some(PromotionNextStep::SubmitOrder)),
        order_submission_of(s, id) matches Some(p) ==> (p.status == PromotionPolicyStatus::Eligible ==> (
        order_lifecycle_of(s, id) matches Some(lc) && lc.status == OrderLifecycleStatus::Registered)),
{
}

/// A decision has a promotion policy exactly when it has governance, lineage
/// or an execution boundary. The policy is of that decision; a blocked or
/// inconsistent decision goes no further; an eligible one goes on to register
/// its order; a frozen one awaits the submission of its order, the
/// observation of its execution, or the reconciliation of what was observed.
pub proof fn lemma_decision_promotion_law(s: Seq<StoredEventView>, id: Seq<char>)
    ensures
        decision_promotion_of(s, id) is None <==> (decision_governance_of(s, id) is None && decision_lineage_of(s, id)
            is None && decision_boundary_of(s, id) is None),
        decision_promotion_of(s, id) matches Some(p) ==> {
            &&& p.ref_id == id
            &&& p.ref_type == GovernanceRefType::Decision
            &&& stops_without_next_step(p)
            &&& p.status == PromotionPolicyStatus::Eligible ==> p.next_step == Some(PromotionNextStep::RegisterOrder)
            &&& p.status == PromotionPolicyStatus::Frozen ==> (p.next_step == Some(PromotionNextStep::SubmitOrder)
                || p.next_step == Some(PromotionNextStep::ObserveExecution) || p.next_step == Some(
                PromotionNextStep::ReconcileObservedExecution,
            ))
        },
{
}


/// An event about another signal, or about none, leaves a signal's promotion
/// policy as it was.
pub proof fn lemma_signal_promotion_unmoved(s: Seq<StoredEventView>, e: StoredEventView, id: Seq<char>)
    requires
        crate::projections::signal_laws::signal_of_event(e) != Some(id),
    ensures
        signal_promotion_of(s.push(e), id) == signal_promotion_of(s, id),
{
    crate::queries::governance::lemma_signal_governance_unmoved(s, e, id);
}

} // verus!
