//! Materialization flows: the runs that carry eligible signals, decisions and
//! orders one step further by writing the next event to the store.
pub mod error;
pub mod plan;

pub use error::{MaterializationError, MaterializationErrorView};
pub use plan::{Plan, Verdict};
pub mod decision;

pub use decision::{
    materialize_decisions, DecisionMaterializationDisposition, DecisionMaterializationItem,
    DecisionMaterializationItemView, DecisionMaterializationOptions, DecisionMaterializationReport,
};
pub mod order;

pub use order::{
    materialize_orders, OrderMaterializationDisposition, OrderMaterializationItem,
    OrderMaterializationItemView, OrderMaterializationOptions, OrderMaterializationReport,
};
pub mod submit;

pub use submit::{
    submit_orders, OrderSubmissionDisposition, OrderSubmissionItem, OrderSubmissionItemView,
    OrderSubmissionOptions, OrderSubmissionReport,
};
pub mod fill;

pub use fill::{
    observe_fill, FillObservationDisposition, FillObservationOptions, FillObservationReport,
    FillObservationReportView, FillObservationRequest, FillObservationRequestView,
};
