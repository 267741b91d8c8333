//! The `Debug` renderings of governance reasons, as promotion reports list them.
use vstd::prelude::*;

use crate::queries::governance::{
    DecisionGovernanceReason, DecisionGovernanceReasonView, SignalGovernanceReason,
    SignalGovernanceReasonView,
};
use crate::queries::lifecycle::{OrderLifecycleReason, OrderLifecycleReasonView};
use crate::text::{debug_list, debug_list_text, debug_quoted, debug_quoted_text, owned};

verus! {

/// What `Debug` writes for a `SignalGovernanceReason`.
pub open spec fn signal_governance_reason_text(r: SignalGovernanceReasonView) -> Seq<char> {
    match r {
        SignalGovernanceReasonView::SignalGeneratedObserved => "SignalGeneratedObserved"@,
        SignalGovernanceReasonView::SignalConfirmedObserved { confirmed_by } => "SignalConfirmedObserved { confirmed_by: "@ + debug_quoted_text(confirmed_by) + " }"@,
        SignalGovernanceReasonView::SignalVetoObserved { veto_id, reason_code } => "SignalVetoObserved { veto_id: "@ + debug_quoted_text(veto_id) + ", reason_code: "@ + debug_quoted_text(reason_code) + " }"@,
        SignalGovernanceReasonView::MissingSignalGenerated => "MissingSignalGenerated"@,
        SignalGovernanceReasonView::SignalConfirmationBeforeGeneration => "SignalConfirmationBeforeGeneration"@,
        SignalGovernanceReasonView::SignalVetoBeforeGeneration => "SignalVetoBeforeGeneration"@,
        SignalGovernanceReasonView::DownstreamDecisionObservedWithoutHealthySignal { decision_id } => "DownstreamDecisionObservedWithoutHealthySignal { decision_id: "@ + debug_quoted_text(decision_id) + " }"@,
        SignalGovernanceReasonView::ConflictingHypothesisReferences { values } => "ConflictingHypothesisReferences { values: "@ + debug_list_text(values) + " }"@,
    }
}

pub fn render_signal_governance_reason(r: &SignalGovernanceReason) -> (t: String)
    ensures
        t@ == signal_governance_reason_text(r@),
{
    match r {
        SignalGovernanceReason::SignalGeneratedObserved => owned("SignalGeneratedObserved"),
        SignalGovernanceReason::SignalConfirmedObserved { confirmed_by } => {
            let mut t = owned("SignalConfirmedObserved { confirmed_by: ");
            let x = debug_quoted(confirmed_by.as_str());
            t.append(x.as_str());
            t.append(" }");
            t
        },
        SignalGovernanceReason::SignalVetoObserved { veto_id, reason_code } => {
            let mut t = owned("SignalVetoObserved { veto_id: ");
            let x = debug_quoted(veto_id.as_str());
            t.append(x.as_str());
            t.append(", reason_code: ");
            let x = debug_quoted(reason_code.as_str());
            t.append(x.as_str());
            t.append(" }");
            t
        },
        SignalGovernanceReason::MissingSignalGenerated => owned("MissingSignalGenerated"),
        SignalGovernanceReason::SignalConfirmationBeforeGeneration => owned("SignalConfirmationBeforeGeneration"),
        SignalGovernanceReason::SignalVetoBeforeGeneration => owned("SignalVetoBeforeGeneration"),
        SignalGovernanceReason::DownstreamDecisionObservedWithoutHealthySignal { decision_id } => {
            let mut t = owned("DownstreamDecisionObservedWithoutHealthySignal { decision_id: ");
            let x = debug_quoted(decision_id.as_str());
            t.append(x.as_str());
            t.append(" }");
            t
        },
        SignalGovernanceReason::ConflictingHypothesisReferences { values } => {
            let mut t = owned("ConflictingHypothesisReferences { values: ");
            let x = debug_list(values);
            t.append(x.as_str());
            t.append(" }");
            t
        },
    }
}

/// What `Debug` writes for a `DecisionGovernanceReason`.
pub open spec fn decision_governance_reason_text(r: DecisionGovernanceReasonView) -> Seq<char> {
    match r {
        DecisionGovernanceReasonView::DecisionFormedObserved => "DecisionFormedObserved"@,
        DecisionGovernanceReasonView::MissingDecisionFormed => "MissingDecisionFormed"@,
        DecisionGovernanceReasonView::UpstreamSignalEligible { signal_id } => "UpstreamSignalEligible { signal_id: "@ + debug_quoted_text(signal_id) + " }"@,
        DecisionGovernanceReasonView::UpstreamSignalWeak { signal_id } => "UpstreamSignalWeak { signal_id: "@ + debug_quoted_text(signal_id) + " }"@,
        DecisionGovernanceReasonView::UpstreamSignalBlocked { signal_id } => "UpstreamSignalBlocked { signal_id: "@ + debug_quoted_text(signal_id) + " }"@,
        DecisionGovernanceReasonView::UpstreamSignalInconsistent { signal_id } => "UpstreamSignalInconsistent { signal_id: "@ + debug_quoted_text(signal_id) + " }"@,
        DecisionGovernanceReasonView::MissingUpstreamSignalReference => "MissingUpstreamSignalReference"@,
        DecisionGovernanceReasonView::ConflictingSignalReferences { values } => "ConflictingSignalReferences { values: "@ + debug_list_text(values) + " }"@,
        DecisionGovernanceReasonView::HypothesisTraced { hypothesis_id } => "HypothesisTraced { hypothesis_id: "@ + debug_quoted_text(hypothesis_id) + " }"@,
        DecisionGovernanceReasonView::ConflictingHypothesisReferences { values } => "ConflictingHypothesisReferences { values: "@ + debug_list_text(values) + " }"@,
        DecisionGovernanceReasonView::DecisionVetoObserved { veto_id, reason_code } => "DecisionVetoObserved { veto_id: "@ + debug_quoted_text(veto_id) + ", reason_code: "@ + debug_quoted_text(reason_code) + " }"@,
        DecisionGovernanceReasonView::ExecutionBoundaryClear => "ExecutionBoundaryClear"@,
        DecisionGovernanceReasonView::ExecutionBoundaryPending => "ExecutionBoundaryPending"@,
        DecisionGovernanceReasonView::ExecutionBoundaryWeak => "ExecutionBoundaryWeak"@,
        DecisionGovernanceReasonView::ExecutionBoundaryBlocked => "ExecutionBoundaryBlocked"@,
        DecisionGovernanceReasonView::ExecutionBoundaryInconsistent => "ExecutionBoundaryInconsistent"@,
        DecisionGovernanceReasonView::LocalOrderRegistered { order_id, venue } => "LocalOrderRegistered { order_id: "@ + debug_quoted_text(order_id) + ", venue: "@ + debug_quoted_text(venue) + " }"@,
        DecisionGovernanceReasonView::DownstreamFillObserved { fill_id, order_id } => "DownstreamFillObserved { fill_id: "@ + debug_quoted_text(fill_id) + ", order_id: "@ + debug_quoted_text(order_id) + " }"@,
        DecisionGovernanceReasonView::FillInstrumentMismatch { fill_id, fill_instrument } => "FillInstrumentMismatch { fill_id: "@ + debug_quoted_text(fill_id) + ", fill_instrument: "@ + debug_quoted_text(fill_instrument) + " }"@,
    }
}

pub fn render_decision_governance_reason(r: &DecisionGovernanceReason) -> (t: String)
    ensures
        t@ == decision_governance_reason_text(r@),
{
    match r {
        DecisionGovernanceReason::DecisionFormedObserved => owned("DecisionFormedObserved"),
        DecisionGovernanceReason::MissingDecisionFormed => owned("MissingDecisionFormed"),
        DecisionGovernanceReason::UpstreamSignalEligible { signal_id } => {
            let mut t = owned("UpstreamSignalEligible { signal_id: ");
            let x = debug_quoted(signal_id.as_str());
            t.append(x.as_str());
            t.append(" }");
            t
        },
        DecisionGovernanceReason::UpstreamSignalWeak { signal_id } => {
            let mut t = owned("UpstreamSignalWeak { signal_id: ");
            let x = debug_quoted(signal_id.as_str());
            t.append(x.as_str());
            t.append(" }");
            t
        },
        DecisionGovernanceReason::UpstreamSignalBlocked { signal_id } => {
            let mut t = owned("UpstreamSignalBlocked { signal_id: ");
            let x = debug_quoted(signal_id.as_str());
            t.append(x.as_str());
            t.append(" }");
            t
        },
        DecisionGovernanceReason::UpstreamSignalInconsistent { signal_id } => {
            let mut t = owned("UpstreamSignalInconsistent { signal_id: ");
            let x = debug_quoted(signal_id.as_str());
            t.append(x.as_str());
            t.append(" }");
            t
        },
        DecisionGovernanceReason::MissingUpstreamSignalReference => owned("MissingUpstreamSignalReference"),
        DecisionGovernanceReason::ConflictingSignalReferences { values } => {
            let mut t = owned("ConflictingSignalReferences { values: ");
            let x = debug_list(values);
            t.append(x.as_str());
            t.append(" }");
            t
        },
        DecisionGovernanceReason::HypothesisTraced { hypothesis_id } => {
            let mut t = owned("HypothesisTraced { hypothesis_id: ");
            let x = debug_quoted(hypothesis_id.as_str());
            t.append(x.as_str());
            t.append(" }");
            t
        },
        DecisionGovernanceReason::ConflictingHypothesisReferences { values } => {
            let mut t = owned("ConflictingHypothesisReferences { values: ");
            let x = debug_list(values);
            t.append(x.as_str());
            t.append(" }");
            t
        },
        DecisionGovernanceReason::DecisionVetoObserved { veto_id, reason_code } => {
            let mut t = owned("DecisionVetoObserved { veto_id: ");
            let x = debug_quoted(veto_id.as_str());
            t.append(x.as_str());
            t.append(", reason_code: ");
            let x = debug_quoted(reason_code.as_str());
            t.append(x.as_str());
            t.append(" }");
            t
        },
        DecisionGovernanceReason::ExecutionBoundaryClear => owned("ExecutionBoundaryClear"),
        DecisionGovernanceReason::ExecutionBoundaryPending => owned("ExecutionBoundaryPending"),
        DecisionGovernanceReason::ExecutionBoundaryWeak => owned("ExecutionBoundaryWeak"),
        DecisionGovernanceReason::ExecutionBoundaryBlocked => owned("ExecutionBoundaryBlocked"),
        DecisionGovernanceReason::ExecutionBoundaryInconsistent => owned("ExecutionBoundaryInconsistent"),
        DecisionGovernanceReason::LocalOrderRegistered { order_id, venue } => {
            let mut t = owned("LocalOrderRegistered { order_id: ");
            let x = debug_quoted(order_id.as_str());
            t.append(x.as_str());
            t.append(", venue: ");
            let x = debug_quoted(venue.as_str());
            t.append(x.as_str());
            t.append(" }");
            t
        },
        DecisionGovernanceReason::DownstreamFillObserved { fill_id, order_id } => {
            let mut t = owned("DownstreamFillObserved { fill_id: ");
            let x = debug_quoted(fill_id.as_str());
            t.append(x.as_str());
            t.append(", order_id: ");
            let x = debug_quoted(order_id.as_str());
            t.append(x.as_str());
            t.append(" }");
            t
        },
        DecisionGovernanceReason::FillInstrumentMismatch { fill_id, fill_instrument } => {
            let mut t = owned("FillInstrumentMismatch { fill_id: ");
            let x = debug_quoted(fill_id.as_str());
            t.append(x.as_str());
            t.append(", fill_instrument: ");
            let x = debug_quoted(fill_instrument.as_str());
            t.append(x.as_str());
            t.append(" }");
            t
        },
    }
}

/// What `Debug` writes for a `OrderLifecycleReason`.
pub open spec fn order_lifecycle_reason_text(r: OrderLifecycleReasonView) -> Seq<char> {
    match r {
        OrderLifecycleReasonView::OrderRegisteredObserved { venue } => "OrderRegisteredObserved { venue: "@ + debug_quoted_text(venue) + " }"@,
        OrderLifecycleReasonView::OrderSubmittedObserved { venue } => "OrderSubmittedObserved { venue: "@ + debug_quoted_text(venue) + " }"@,
        OrderLifecycleReasonView::FillObserved { fill_id, venue } => "FillObserved { fill_id: "@ + debug_quoted_text(fill_id) + ", venue: "@ + debug_quoted_text(venue) + " }"@,
        OrderLifecycleReasonView::DecisionLinked { decision_id } => "DecisionLinked { decision_id: "@ + debug_quoted_text(decision_id) + " }"@,
        OrderLifecycleReasonView::MissingLocalOrderRegistration => "MissingLocalOrderRegistration"@,
        OrderLifecycleReasonView::MissingLocalOrderSubmission => "MissingLocalOrderSubmission"@,
        OrderLifecycleReasonView::SubmittedWithoutRegistration => "SubmittedWithoutRegistration"@,
        OrderLifecycleReasonView::ConflictingDecisionReferences { values } => "ConflictingDecisionReferences { values: "@ + debug_list_text(values) + " }"@,
        OrderLifecycleReasonView::ConflictingVenueReferences { values } => "ConflictingVenueReferences { values: "@ + debug_list_text(values) + " }"@,
        OrderLifecycleReasonView::ConflictingInstrumentReferences { values } => "ConflictingInstrumentReferences { values: "@ + debug_list_text(values) + " }"@,
    }
}

pub fn render_order_lifecycle_reason(r: &OrderLifecycleReason) -> (t: String)
    ensures
        t@ == order_lifecycle_reason_text(r@),
{
    match r {
        OrderLifecycleReason::OrderRegisteredObserved { venue } => {
            let mut t = owned("OrderRegisteredObserved { venue: ");
            let x = debug_quoted(venue.as_str());
            t.append(x.as_str());
            t.append(" }");
            t
        },
        OrderLifecycleReason::OrderSubmittedObserved { venue } => {
            let mut t = owned("OrderSubmittedObserved { venue: ");
            let x = debug_quoted(venue.as_str());
            t.append(x.as_str());
            t.append(" }");
            t
        },
        OrderLifecycleReason::FillObserved { fill_id, venue } => {
            let mut t = owned("FillObserved { fill_id: ");
            let x = debug_quoted(fill_id.as_str());
            t.append(x.as_str());
            t.append(", venue: ");
            let x = debug_quoted(venue.as_str());
            t.append(x.as_str());
            t.append(" }");
            t
        },
        OrderLifecycleReason::DecisionLinked { decision_id } => {
            let mut t = owned("DecisionLinked { decision_id: ");
            let x = debug_quoted(decision_id.as_str());
            t.append(x.as_str());
            t.append(" }");
            t
        },
        OrderLifecycleReason::MissingLocalOrderRegistration => owned("MissingLocalOrderRegistration"),
        OrderLifecycleReason::MissingLocalOrderSubmission => owned("MissingLocalOrderSubmission"),
        OrderLifecycleReason::SubmittedWithoutRegistration => owned("SubmittedWithoutRegistration"),
        OrderLifecycleReason::ConflictingDecisionReferences { values } => {
            let mut t = owned("ConflictingDecisionReferences { values: ");
            let x = debug_list(values);
            t.append(x.as_str());
            t.append(" }");
            t
        },
        OrderLifecycleReason::ConflictingVenueReferences { values } => {
            let mut t = owned("ConflictingVenueReferences { values: ");
            let x = debug_list(values);
            t.append(x.as_str());
            t.append(" }");
            t
        },
        OrderLifecycleReason::ConflictingInstrumentReferences { values } => {
            let mut t = owned("ConflictingInstrumentReferences { values: ");
            let x = debug_list(values);
            t.append(x.as_str());
            t.append(" }");
            t
        },
    }
}

} // verus!
