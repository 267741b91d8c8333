use twoexcamim::events::{Binary64, SignalSide};
use twoexcamim::handoff::{
    build_batch_trace_id, ingest_research_records, map_direction_to_side, sanitize_id_component,
    translate_record_to_signal_event, HandoffError, ResearchRecordTexts,
    ResearchSignalIngestOptions, ResearchSignalInputRecord, RESEARCH_SIGNAL_HANDOFF_SCHEMA_VERSION,
};
use twoexcamim::store::{JsonlEventStore, StoredEvent};

fn valid_record() -> ResearchSignalInputRecord {
    ResearchSignalInputRecord {
        handoff_schema_version: Some(RESEARCH_SIGNAL_HANDOFF_SCHEMA_VERSION.to_string()),
        row_number: 1,
        market_id: Some("market-1".to_string()),
        timestamp: Some("2026-04-03T17:57:41.047Z".to_string()),
        signal_name: Some("vwap_reversion".to_string()),
        strength: Some(Binary64 { bits: 0.8f64.to_bits() }),
        direction: Some("long_yes".to_string()),
        probability: Some(Binary64 { bits: 0.2f64.to_bits() }),
        spread_tight: Some(Binary64 { bits: 0.9f64.to_bits() }),
        volume_spike_24h: Some(Binary64 { bits: 1.0f64.to_bits() }),
        price_deviation_vwap_1h: Some(Binary64 { bits: (-12.0f64).to_bits() }),
        source: Some("polymarket".to_string()),
        metadata: Some("{\"foo\":\"bar\"}".to_string()),
    }
}

fn texts() -> ResearchRecordTexts {
    ResearchRecordTexts { probability_display: Some("0.2".to_string()), provenance_notes: "{}".to_string() }
}

#[test]
fn translates_valid_record_to_signal_generated() {
    let envelope = translate_record_to_signal_event("signals.parquet", "batch-1", &valid_record(), &texts()).unwrap();
    assert_eq!(envelope.payload.instrument, "polymarket:market-1");
    assert_eq!(envelope.payload.timeframe, "research_snapshot");
    assert_eq!(envelope.payload.side, SignalSide::Long);
    assert_eq!(envelope.payload.hypothesis_id, None);
    assert_eq!(envelope.linkage.correlation_id, Some(envelope.payload.signal_id.clone()));
    assert_eq!(envelope.provenance.producer_run_id.as_deref(), Some("batch-1"));
    assert_eq!(
        envelope.payload.signal_id,
        "research-polymarket-market-1-vwap_reversion-20260403T175741_047Z-long_yes"
    );
    assert_eq!(
        envelope.payload.rationale.as_deref(),
        Some("research signal_name=vwap_reversion direction=long_yes probability=0.2")
    );
    assert_eq!(envelope.provenance.source_ref.as_deref(), Some("research-signals://signals.parquet#row=1"));
    assert_eq!(envelope.provenance.trace_id.as_deref(), Some("batch-1-row-1"));
}

#[test]
fn rejects_invalid_direction() {
    let mut record = valid_record();
    record.direction = Some("sideways".to_string());
    let error = translate_record_to_signal_event("signals.parquet", "batch-1", &record, &texts()).err().unwrap();
    assert!(error
        .to_text()
        .contains("direction must be one of long_yes, long_no, short_yes, short_no"));
}

#[test]
fn rejects_missing_and_blank_fields() {
    let mut record = valid_record();
    record.market_id = None;
    let error = translate_record_to_signal_event("p", "b", &record, &texts()).err().unwrap();
    assert_eq!(error.to_text(), "handoff invalid input: missing market_id");
    let mut record = valid_record();
    record.source = Some("  ".to_string());
    let error = translate_record_to_signal_event("p", "b", &record, &texts()).err().unwrap();
    assert_eq!(error.to_text(), "handoff invalid input: source cannot be blank");
    let mut record = valid_record();
    record.handoff_schema_version = Some("v0".to_string());
    let error = translate_record_to_signal_event("p", "b", &record, &texts()).err().unwrap();
    assert_eq!(
        error.to_text(),
        "handoff invalid input: handoff_schema_version must be research-signals.v1; got v0"
    );
}

#[test]
fn rejects_bad_numbers_metadata_and_timestamps() {
    let mut record = valid_record();
    record.strength = Some(Binary64 { bits: 1.5f64.to_bits() });
    let error = translate_record_to_signal_event("p", "b", &record, &texts()).err().unwrap();
    assert_eq!(error.to_text(), "handoff invalid input: strength must be in [0,1]");
    let mut record = valid_record();
    record.metadata = Some("[1,2]".to_string());
    let error = translate_record_to_signal_event("p", "b", &record, &texts()).err().unwrap();
    assert_eq!(error.to_text(), "handoff invalid input: metadata must be a JSON object string");
    let mut record = valid_record();
    record.metadata = Some("{not json".to_string());
    match translate_record_to_signal_event("p", "b", &record, &texts()) {
        Err(HandoffError::Serde(_)) => {},
        _ => panic!("expected a serialization error"),
    }
    let mut record = valid_record();
    record.timestamp = Some("yesterday".to_string());
    let error = translate_record_to_signal_event("p", "b", &record, &texts()).err().unwrap();
    assert!(error.to_text().starts_with("handoff invalid input: timestamp must be RFC3339: "));
}

#[test]
fn ingests_and_deduplicates_records() {
    let mut store = JsonlEventStore::new("memory.jsonl");
    let record = valid_record();
    let first_event = translate_record_to_signal_event("signals.parquet", "batch-1", &record, &texts()).unwrap();
    let second_event = translate_record_to_signal_event("signals.parquet", "batch-1", &record, &texts()).unwrap();
    let appended_first = store.append_event(&StoredEvent::from_envelope(first_event).unwrap()).unwrap();
    let appended_second = store.append_event(&StoredEvent::from_envelope(second_event).unwrap()).unwrap();
    assert!(appended_first);
    assert!(!appended_second);
    assert_eq!(store.len(), 1);
}

#[test]
fn ingest_counts_written_duplicate_and_rejected_rows() {
    let mut store = JsonlEventStore::new("memory.jsonl");
    let mut bad = valid_record();
    bad.row_number = 2;
    bad.direction = Some("sideways".to_string());
    let records = vec![valid_record(), bad.clone(), valid_record(), bad];
    let all_texts = vec![texts(), texts(), texts(), texts()];
    let report = ingest_research_records(
        &mut store,
        "signals.parquet",
        42,
        "batch-1",
        &records,
        &all_texts,
        ResearchSignalIngestOptions { dry_run: false },
    )
    .unwrap();
    assert_eq!(report.rows_read, 4);
    assert_eq!(report.rows_valid, 2);
    assert_eq!(report.rows_invalid, 2);
    assert_eq!(report.events_written, 1);
    assert_eq!(report.duplicates, 1);
    assert!(report.ingested_signals[0].event_written);
    assert!(report.ingested_signals[1].deduplicated);
    assert_eq!(report.rejected_reasons.len(), 1);
    assert_eq!(report.rejected_reasons[0].count, 2);
    assert_eq!(report.generated_event_types, vec!["signal.generated".to_string()]);
    assert_eq!(store.len(), 1);

    let dry = ingest_research_records(
        &mut store,
        "signals.parquet",
        42,
        "batch-1",
        &vec![valid_record()],
        &vec![texts()],
        ResearchSignalIngestOptions { dry_run: true },
    )
    .unwrap();
    assert_eq!(dry.events_written, 0);
    assert_eq!(dry.duplicates, 0);
    assert!(!dry.ingested_signals[0].deduplicated);
    assert_eq!(store.len(), 1);
}

#[test]
fn identifiers_are_sanitized() {
    assert_eq!(sanitize_id_component("a b:c/d-e_f"), "a_b_c_d-e_f");
    assert_eq!(
        build_batch_trace_id("signals.parquet", 1024, 1700000000),
        "research-batch-research-signals_v1-signals_parquet-1024-1700000000"
    );
    assert_eq!(map_direction_to_side("short_no").unwrap(), SignalSide::Long);
    assert_eq!(map_direction_to_side("short_yes").unwrap(), SignalSide::Short);
}

#[test]
fn reingesting_the_same_rows_from_another_batch_writes_nothing() {
    let mut store = JsonlEventStore::new("memory.jsonl");
    let records = vec![valid_record()];
    let all_texts = vec![texts()];
    let first = ingest_research_records(
        &mut store,
        "signals.parquet",
        42,
        "batch-1",
        &records,
        &all_texts,
        ResearchSignalIngestOptions { dry_run: false },
    )
    .unwrap();
    assert_eq!(first.events_written, 1);
    assert_eq!(store.len(), 1);
    let again = ingest_research_records(
        &mut store,
        "signals.parquet",
        42,
        "batch-2",
        &records,
        &all_texts,
        ResearchSignalIngestOptions { dry_run: false },
    )
    .unwrap();
    assert_eq!(again.events_written, 0);
    assert_eq!(again.duplicates, 1);
    assert!(again.ingested_signals[0].deduplicated);
    assert_eq!(store.len(), 1);
}
