# twoexcamim

An event-sourced decision log for paper trading on prediction markets,
verified with Verus.

The library (`src/`) holds the typed events and their validation, an
idempotent append-only log, the signal and decision projections, the
governance queries (readiness, lineage, execution boundaries, lifecycle,
promotion policy), the materialization flows that turn ready signals into
decisions, orders, submissions and observed fills, the research-signal
handoff, the paper execution boundary (adapter, risk checks, candidate
planning, the paper book) and the operational summary's recap and recent
activity. Every function there carries a contract that Verus proves; the
calls into `chrono`, `uuid` and `serde_json` go through small trusted wrappers
whose contracts state what those crates document.

Quantities and prices are carried as their binary64 encodings: the library
stores, compares and range-checks them. The arithmetic on them (notionals,
positions, profit and loss, exposures) lives in the program under `app/`,
which also reads and appends the JSONL log file, parses the command line,
runs the paper trading backends and renders the results.

Layout:

- `src/events`, `src/store`, `src/codecs`: the event vocabulary, the log and
  its decoding.
- `src/projections`, `src/queries`: projections and governance queries.
- `src/materialization`: decision, order, submission and fill flows.
- `src/handoff`: research rows to `signal.generated` events.
- `src/execution`: paper execution, risk checks, candidates, runner steps and
  the paper book.
- `src/observability`, `src/operations`, `src/scenarios`: summaries, recent
  activity and replayable fixtures.
- `app/`: the command line program.
- `tests/`: tests of the library.
