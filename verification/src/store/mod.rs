//! The event store: stored events and the append-only log that holds them.
pub mod error;
pub mod jsonl_store;
pub mod stored_event;

pub use error::StoreError;
pub use jsonl_store::{
    after_append, all_valid, append_batch, append_outcome, batch_outcome, first_key_index, has_key, last_key_index,
    lemma_append_is_idempotent, lemma_append_keeps_log, lemma_append_keeps_log_valid,
    AppendOutcome, JsonlEventStore,
};
pub use stored_event::{
    envelope_as_stored, equivalent, event_views, link_problem, stored_problem, StoredEvent,
    StoredEventView,
};
