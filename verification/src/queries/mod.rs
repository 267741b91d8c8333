//! Governance queries over the event log: readiness, lineage, execution
//! boundaries, governance and promotion policy.
pub mod boundary;
pub mod error;
pub mod governance;
pub mod lifecycle;
pub mod lineage;
pub mod order_execution;
pub mod promotion;
pub mod readiness;
pub mod render;
pub mod service;
pub mod support;

pub use error::{query_error_text, QueryError, QueryErrorView};
pub use readiness::{
    fill_readiness, fill_readiness_of, FillReadiness, FillReadinessReason, FillReadinessReasonView,
    FillReadinessStatus, FillReadinessView,
    decision_readiness, decision_readiness_of, DecisionReadiness, DecisionReadinessReason,
    DecisionReadinessReasonView, DecisionReadinessStatus, DecisionReadinessView, signal_readiness, signal_readiness_of, SignalReadiness, SignalReadinessReason,
    SignalReadinessReasonView, SignalReadinessStatus, SignalReadinessView,
};
pub use support::{answers, viewed, views_of};
pub use lineage::{
    decision_lineage, decision_lineage_of, DecisionDownstreamRefs, DecisionDownstreamRefsView,
    DecisionLineageReason, DecisionLineageReasonView, DecisionLineageReport,
    DecisionLineageReportView, DecisionLineageStatus, DecisionUpstreamRefs,
    DecisionUpstreamRefsView, LineageVetoRef,
};
pub use boundary::{
    decision_boundary_of, decision_execution_boundary, fill_boundary_of, fill_execution_boundary, ExecutionBoundaryReason,
    ExecutionBoundaryReasonView, ExecutionBoundaryRefType, ExecutionBoundaryReport,
    ExecutionBoundaryReportView, ExecutionBoundaryStatus,
};
pub use governance::{
    decision_governance, decision_governance_of, is_pending_boundary, DecisionGovernanceReason,
    DecisionGovernanceReasonView, DecisionGovernanceReport, DecisionGovernanceReportView,
    signal_governance, signal_governance_of, GovernanceRef, GovernanceRefType, GovernanceStatus,
    SignalGovernanceReason, SignalGovernanceReasonView, SignalGovernanceReport,
    SignalGovernanceReportView,
};
pub use lifecycle::{
    order_lifecycle, order_lifecycle_of, OrderLifecycleReason,
    OrderLifecycleReasonView, OrderLifecycleReport, OrderLifecycleReportView,
    OrderLifecycleStatus,
};
pub use promotion::{
    decision_promotion_of, decision_promotion_policy, order_promotion_of, order_promotion_policy,
    order_submission_of, order_submission_policy, signal_promotion_of, signal_promotion_policy, DecisionPromotionReport, OrderPromotionReport,
    OrderSubmissionPolicyReport, PromotionNextStep, PromotionPolicyStatus, PromotionReportView,
    SignalPromotionReport,
};
pub use service::QueryService;
pub use order_execution::{
    order_execution_evidence, order_execution_outcome, OrderExecutionEvidence,
    OrderExecutionOutcome, OrderExecutionStatus, QuantityComparison,
};
