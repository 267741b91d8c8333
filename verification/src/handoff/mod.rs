//! The handoff of research signals: rows exported by the research pipeline
//! become `signal.generated` events.
pub mod error;
pub mod signals;

pub use error::{HandoffError, HandoffErrorView};
pub use signals::{
    build_batch_trace_id, ingest_research_records, map_direction_to_side, sanitize_id_component,
    translate_record_to_signal_event, IngestedResearchSignal, ResearchRecordTexts,
    ResearchSignalIngestOptions, ResearchSignalIngestRejection, ResearchSignalIngestReport,
    ResearchSignalInputRecord, ResearchSignalRejectedReason, RESEARCH_SIGNAL_HANDOFF_SCHEMA_VERSION,
};
