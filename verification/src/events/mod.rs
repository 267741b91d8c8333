//! Events: what happened in the decision pipeline, as typed, checked facts.
pub mod envelope;
pub mod error;
pub mod types;
pub mod validation;

pub use envelope::{idempotency_key_of, EventTyped, EventEnvelope, header_problem, envelope_problem, validate_envelope, build_problem, built};
pub use error::{EventError, EventErrorView, event_error_text};
pub use types::{EventType, event_type_name, SignalSide, FillSide, DecisionAction, VetoScope, SourceKind, Timestamp, timestamp_lt, Binary64, is_positive_finite, is_unit_interval, Linkage, LinkageView, empty_linkage, Provenance, ProvenanceView, HypothesisGenerated, HypothesisGeneratedView, SignalGenerated, SignalGeneratedView, SignalConfirmed, SignalConfirmedView, VetoRaised, VetoRaisedView, DecisionFormed, DecisionFormedView, OrderRegistered, OrderSubmitted, OrderView, FillReceived, FillReceivedView, EventPayload, PayloadView, payload_kind};
pub use validation::{first_problem, required_problem, optional_problem, component_problem, positive_problem, probability_problem, optional_probability_problem, optional_positive_problem, optional_component_problem, payload_problem, order_problem, provenance_problem, linkage_problem, outcome, validate_required_string, validate_optional_string, validate_idempotency_component, validate_positive_finite, validate_probability, Validate};
