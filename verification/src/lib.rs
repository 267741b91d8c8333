//! Event-sourced paper-trading decision log: typed events, an idempotent
//! append-only store, projections and the governance queries built on them.
pub mod clock;
pub mod events;
pub mod ids;
pub mod text;
pub mod store;
pub mod codecs;
pub mod projections;
pub mod queries;
pub mod json_text;
pub mod materialization;
pub mod io_error;
pub mod execution;
pub mod handoff;
pub mod observability;
pub mod scenarios;
pub mod operations;
