//! Read models derived from the event log.
pub mod decision;
pub mod error;
pub mod signal;
pub mod signal_laws;

pub use error::{projection_error_text, ProjectionError, ProjectionErrorView};
pub mod timeline;

pub use timeline::{
    derefs, timeline, timeline_for_correlation_id, timeline_for_decision_id,
    timeline_for_signal_id, TimelineEvent,
};
pub use signal::{
    build_signal_projections, signal_projections_of, SignalProjection, SignalProjectionView,
};
pub use decision::{
    build_decision_projections, copy_projection, decision_keys_of, decision_projection_keys,
    decision_projections_of, DecisionProjection, DecisionProjectionView,
};
