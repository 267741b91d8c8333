//! Research signal rows become `signal.generated` events: each row is checked,
//! its fields normalised, and the event written unless the log holds it.
use vstd::prelude::*;

use chrono::DateTime;

use crate::clock::{compact_utc, compact_utc_text};
use crate::events::{
    event_error_text, idempotency_key_of, is_unit_interval, payload_problem, Binary64, EventEnvelope,
    EventErrorView, Linkage, LinkageView, PayloadView, Provenance, ProvenanceView, SignalGenerated,
    SignalGeneratedView, SignalSide, SourceKind, Timestamp,
};
use crate::events::envelope::lemma_uuid_text_not_blank;
use crate::events::{linkage_problem, payload_kind, provenance_problem, EventType};
use crate::ids::{is_hyphenated_uuid_text, uuid_text_parses};
use crate::store::stored_event::{envelope_as_stored, link_problem, stored_problem};
use crate::text::lemma_not_blank_joined;
use crate::handoff::error::{handoff_error_prefix, handoff_error_text, HandoffError, HandoffErrorView};
use crate::store::{after_append, append_outcome, has_key, JsonlEventStore, StoredEvent, StoredEventView};
use crate::store::jsonl_store::lemma_first_key_index_found;
use crate::text::{
    blank, decimal, decimal_text, decimal_text_u64, is_blank, is_white_space, opt_view, owned, same_text, strs,
    trim_text, trimmed,
};

verus! {

pub const RESEARCH_SIGNAL_HANDOFF_SCHEMA_VERSION: &'static str = "research-signals.v1";

#[derive(Debug, Clone, Copy, PartialEq, Eq)]
pub struct ResearchSignalIngestOptions {
    pub dry_run: bool,
}

impl Default for ResearchSignalIngestOptions {
    fn default() -> (r: Self)
        ensures
            !r.dry_run,
    {
        ResearchSignalIngestOptions { dry_run: false }
    }
}

/// A row of the research export; numbers travel as binary64 encodings.
#[derive(Debug, Clone, PartialEq, Eq)]
pub struct ResearchSignalInputRecord {
    pub handoff_schema_version: Option<String>,
    pub row_number: usize,
    pub market_id: Option<String>,
    pub timestamp: Option<String>,
    pub signal_name: Option<String>,
    pub strength: Option<Binary64>,
    pub direction: Option<String>,
    pub probability: Option<Binary64>,
    pub spread_tight: Option<Binary64>,
    pub volume_spike_24h: Option<Binary64>,
    pub price_deviation_vwap_1h: Option<Binary64>,
    pub source: Option<String>,
    pub metadata: Option<String>,
}

pub struct ResearchRecordView {
    pub handoff_schema_version: Option<Seq<char>>,
    pub row_number: nat,
    pub market_id: Option<Seq<char>>,
    pub timestamp: Option<Seq<char>>,
    pub signal_name: Option<Seq<char>>,
    pub strength: Option<Binary64>,
    pub direction: Option<Seq<char>>,
    pub probability: Option<Binary64>,
    pub source: Option<Seq<char>>,
    pub metadata: Option<Seq<char>>,
}

impl View for ResearchSignalInputRecord {
    type V = ResearchRecordView;

    open spec fn view(&self) -> ResearchRecordView {
        ResearchRecordView {
            handoff_schema_version: opt_view(self.handoff_schema_version),
            row_number: self.row_number as nat,
            market_id: opt_view(self.market_id),
            timestamp: opt_view(self.timestamp),
            signal_name: opt_view(self.signal_name),
            strength: self.strength,
            direction: opt_view(self.direction),
            probability: self.probability,
            source: opt_view(self.source),
            metadata: opt_view(self.metadata),
        }
    }
}

/// What a row's event carries that is written from binary64 numbers: the
/// `Display` text of the row's probability, and the provenance notes (a JSON
/// object of the row's fields).
#[derive(Debug, Clone, PartialEq, Eq)]
pub struct ResearchRecordTexts {
    pub probability_display: Option<String>,
    pub provenance_notes: String,
}

#[derive(Debug, Clone, PartialEq, Eq)]
pub struct ResearchSignalIngestRejection {
    pub row_number: usize,
    pub market_id: Option<String>,
    pub reason: String,
}

#[derive(Debug, Clone, PartialEq, Eq)]
pub struct IngestedResearchSignal {
    pub row_number: usize,
    pub signal_id: String,
    pub event_type: String,
    pub deduplicated: bool,
    pub event_written: bool,
}

#[derive(Debug, Clone, PartialEq, Eq)]
pub struct ResearchSignalRejectedReason {
    pub reason: String,
    pub count: usize,
}

#[derive(Debug, Clone, PartialEq, Eq)]
pub struct ResearchSignalIngestReport {
    pub handoff_schema_version: String,
    pub input_path: String,
    pub dry_run: bool,
    pub batch_trace_id: String,
    pub input_file_size_bytes: u64,
    pub rows_read: usize,
    pub rows_valid: usize,
    pub rows_invalid: usize,
    pub events_written: usize,
    pub duplicates: usize,
    pub generated_event_types: Vec<String>,
    pub rejected_reasons: Vec<ResearchSignalRejectedReason>,
    pub ingested_signals: Vec<IngestedResearchSignal>,
    pub rejections: Vec<ResearchSignalIngestRejection>,
}

// ---------------------------------------------------------------------------
// Outside parsers
// ---------------------------------------------------------------------------

/// What `DateTime::parse_from_rfc3339` makes of a text: the instant in UTC, or
/// the text of its parse error.
pub uninterp spec fn rfc3339_reading(s: Seq<char>) -> Result<Timestamp, Seq<char>>;

/// Calls `chrono::DateTime::parse_from_rfc3339` and reads the instant in UTC
/// (seconds and nanoseconds), or the `to_string` of the parse error. The result
/// is named; an instant chrono parsed is one it can format again.
#[verifier::external_body]
fn parse_rfc3339(s: &str) -> (r: Result<Timestamp, String>)
    ensures
        match r {
            Ok(t) => rfc3339_reading(s@) == Ok::<Timestamp, Seq<char>>(t) && compact_utc_text(t.seconds, t.nanos)
                is Some,
            Err(m) => rfc3339_reading(s@) == Err::<Timestamp, Seq<char>>(m@),
        },
{
    match DateTime::parse_from_rfc3339(s) {
        Ok(t) => Ok(Timestamp { seconds: t.timestamp(), nanos: t.timestamp_subsec_nanos() }),
        Err(e) => Err(e.to_string()),
    }
}

/// Whether a text parses as a JSON value (`Some`), and whether that value is
/// an object.
pub uninterp spec fn json_object_reading(s: Seq<char>) -> Option<bool>;

/// Calls `serde_json::from_str::<serde_json::Value>` and `Value::is_object`.
/// The result is named.
#[verifier::external_body]
fn parse_json_object(s: &str) -> (r: Result<bool, serde_json::Error>)
    ensures
        match r {
            Ok(b) => json_object_reading(s@) == Some(b),
            Err(_) => json_object_reading(s@) is None,
        },
{
    match serde_json::from_str::<serde_json::Value>(s) {
        Ok(v) => Ok(v.is_object()),
        Err(e) => Err(e),
    }
}

// ---------------------------------------------------------------------------
// Checking a row
// ---------------------------------------------------------------------------

/// A required text field: present and not blank; its value is trimmed.
pub open spec fn required_field(v: Option<Seq<char>>, field: Seq<char>) -> Result<Seq<char>, Seq<char>> {
    match v {
        None => Err("missing "@ + field),
        Some(x) => if is_blank(x) {
            Err(field + " cannot be blank"@)
        } else {
            Ok(trim_text(x))
        },
    }
}

pub open spec fn side_of_direction(d: Seq<char>) -> Option<SignalSide> {
    if d == "long_yes"@ || d == "short_no"@ {
        Some(SignalSide::Long)
    } else if d == "long_no"@ || d == "short_yes"@ {
        Some(SignalSide::Short)
    } else {
        None
    }
}

/// `c` when it is an ASCII letter or digit, `-` or `_`; `_` otherwise.
pub open spec fn id_char(c: char) -> char {
    let u = c as u32;
    if (0x30 <= u && u <= 0x39) || (0x41 <= u && u <= 0x5a) || (0x61 <= u && u <= 0x7a) || c == '-'
        || c == '_' {
        c
    } else {
        '_'
    }
}

pub open spec fn sanitized(s: Seq<char>) -> Seq<char> {
    s.map_values(|c: char| id_char(c))
}

/// What a row says once checked.
pub struct ResearchSignalView {
    pub signal_id: Seq<char>,
    pub instrument: Seq<char>,
    pub side: SignalSide,
    pub strength: Binary64,
    pub rationale: Seq<char>,
}

pub open spec fn invalid(m: Seq<char>) -> Result<ResearchSignalView, HandoffErrorView> {
    Err(HandoffErrorView::InvalidInput(m))
}

/// The checks of a row, in order: schema version, the required texts, the
/// strength and probability ranges, the metadata object, the timestamp, the
/// direction; then the signal it makes.
pub open spec fn research_signal(r: ResearchRecordView, probability_display: Option<Seq<char>>) -> Result<
    ResearchSignalView,
    HandoffErrorView,
> {
    match r.handoff_schema_version {
        None => invalid("missing handoff_schema_version"@),
        Some(v) => if v != RESEARCH_SIGNAL_HANDOFF_SCHEMA_VERSION@ {
            invalid("handoff_schema_version must be research-signals.v1; got "@ + v)
        } else {
            match (
                required_field(r.market_id, "market_id"@),
                required_field(r.timestamp, "timestamp"@),
                required_field(r.signal_name, "signal_name"@),
                required_field(r.direction, "direction"@),
                required_field(r.source, "source"@),
            ) {
                (Err(m), _, _, _, _) => invalid(m),
                (_, Err(m), _, _, _) => invalid(m),
                (_, _, Err(m), _, _) => invalid(m),
                (_, _, _, Err(m), _) => invalid(m),
                (_, _, _, _, Err(m)) => invalid(m),
                (Ok(market), Ok(ts), Ok(name), Ok(direction), Ok(source)) => match r.strength {
                    None => invalid("missing strength"@),
                    Some(strength) => if !is_unit_interval(strength) {
                        invalid("strength must be in [0,1]"@)
                    } else if r.probability is Some && !is_unit_interval(r.probability->0) {
                        invalid("probability must be in [0,1]"@)
                    } else if r.metadata is Some && is_blank(r.metadata->0) {
                        invalid("metadata cannot be blank when provided"@)
                    } else if r.metadata is Some && json_object_reading(r.metadata->0) is None {
                        Err(HandoffErrorView::Serde)
                    } else if r.metadata is Some && json_object_reading(r.metadata->0) == Some(false) {
                        invalid("metadata must be a JSON object string"@)
                    } else {
                        match rfc3339_reading(ts) {
                            Err(m) => invalid("timestamp must be RFC3339: "@ + m),
                            Ok(t) => match side_of_direction(direction) {
                                None => invalid(
                                    "direction must be one of long_yes, long_no, short_yes, short_no; got "@
                                        + direction,
                                ),
                                Some(side) => Ok(
                                    ResearchSignalView {
                                        signal_id: sanitized(
                                            "research-"@ + source + "-"@ + market + "-"@ + name + "-"@
                                                + compact_utc_text(t.seconds, t.nanos)->0 + "-"@ + direction,
                                        ),
                                        instrument: source + ":"@ + market,
                                        side,
                                        strength,
                                        rationale: match probability_display {
                                            Some(p) => "research signal_name="@ + name + " direction="@
                                                + direction + " probability="@ + p,
                                            None => "research signal_name="@ + name + " direction="@
                                                + direction,
                                        },
                                    },
                                ),
                            },
                        }
                    }
                },
            }
        },
    }
}

pub open spec fn signal_payload_of(v: ResearchSignalView) -> SignalGeneratedView {
    SignalGeneratedView {
        signal_id: v.signal_id,
        hypothesis_id: None,
        instrument: v.instrument,
        timeframe: "research_snapshot"@,
        side: v.side,
        strength: v.strength,
        rationale: Some(v.rationale),
    }
}

/// What keeps the event of a checked row from being built.
pub open spec fn signal_build_problem(v: ResearchSignalView) -> Option<EventErrorView> {
    let p = PayloadView::SignalGenerated(signal_payload_of(v));
    if is_blank(idempotency_key_of(p)) {
        Some(EventErrorView::Validation("idempotency_key cannot be empty"@))
    } else {
        payload_problem(p)
    }
}

/// The outcome of a row: the checked signal, or the error that rejects it.
pub open spec fn row_outcome(r: ResearchRecordView, probability_display: Option<Seq<char>>) -> Result<
    ResearchSignalView,
    HandoffErrorView,
> {
    match research_signal(r, probability_display) {
        Err(e) => Err(e),
        Ok(v) => match signal_build_problem(v) {
            Some(p) => Err(HandoffErrorView::Event(p)),
            None => Ok(v),
        },
    }
}

pub open spec fn row_linkage(signal_id: Seq<char>) -> LinkageView {
    LinkageView {
        hypothesis_id: None,
        signal_id: Some(signal_id),
        decision_id: None,
        order_id: None,
        position_id: None,
        parent_event_id: None,
        correlation_id: Some(signal_id),
    }
}

pub open spec fn row_provenance(path: Seq<char>, batch: Seq<char>, row: nat, notes: Seq<char>) -> ProvenanceView {
    ProvenanceView {
        source_kind: SourceKind::Research,
        source_ref: Some("research-signals://"@ + path + "#row="@ + decimal(row)),
        producer_run_id: Some(batch),
        actor: Some("research_prediction_markets"@),
        trace_id: Some(batch + "-row-"@ + decimal(row)),
        notes: Some(notes),
    }
}

/// The event of a row: its checked signal as payload, linked to itself, with
/// the row's provenance.
pub open spec fn is_row_event(
    env: EventEnvelope<SignalGenerated>,
    r: ResearchRecordView,
    probability_display: Option<Seq<char>>,
    path: Seq<char>,
    batch: Seq<char>,
    notes: Seq<char>,
) -> bool {
    match row_outcome(r, probability_display) {
        Ok(v) => {
            &&& env.payload@ == signal_payload_of(v)
            &&& env.linkage@ == row_linkage(v.signal_id)
            &&& env.provenance@ == row_provenance(path, batch, r.row_number, notes)
            &&& opt_view(env.aggregate_key) == Some(v.instrument)
            &&& env.produced_by@ == "runtime.handoff.research_signals"@
            &&& env.event_type == EventType::SignalGenerated
            &&& env.schema_version@ == "v1"@
            &&& env.idempotency_key@ == idempotency_key_of(PayloadView::SignalGenerated(env.payload@))
            &&& is_hyphenated_uuid_text(env.event_id@)
            &&& uuid_text_parses(env.event_id@)
        },
        Err(_) => false,
    }
}

/// The stored event of an accepted row passes every check of a stored event,
/// when the batch and the row's notes are not blank.
pub proof fn lemma_row_record_stores_cleanly(
    e: StoredEventView,
    r: ResearchRecordView,
    probability_display: Option<Seq<char>>,
    path: Seq<char>,
    batch: Seq<char>,
    notes: Seq<char>,
)
    requires
        is_row_record(e, r, probability_display, path, batch, notes),
        !is_blank(batch),
        !is_blank(notes),
    ensures
        stored_problem(e) is None,
{
    let v = row_outcome(r, probability_display)->Ok_0;
    lemma_uuid_text_not_blank(e.event_id);
    reveal_strlit("v1");
    assert(!is_white_space("v1"@[0]));
    lemma_not_blank_joined("v1"@, Seq::empty(), 0);
    reveal_strlit("runtime.handoff.research_signals");
    assert(!is_white_space("runtime.handoff.research_signals"@[0]));
    lemma_not_blank_joined("runtime.handoff.research_signals"@, Seq::empty(), 0);
    reveal_strlit("signal.generated:v1:");
    assert(!is_white_space("signal.generated:v1:"@[0]));
    lemma_not_blank_joined("signal.generated:v1:"@, v.signal_id, 0);
    let p = PayloadView::SignalGenerated(signal_payload_of(v));
    assert(signal_build_problem(v) is None);
    assert(payload_problem(p) is None);
    assert(!is_blank(v.signal_id));
    assert(!is_blank(v.instrument));
    assert(linkage_problem(e.linkage) is None);
    reveal_strlit("research-signals://");
    assert(!is_white_space("research-signals://"@[0]));
    let src = "research-signals://"@ + path + "#row="@ + decimal(r.row_number);
    assert(src == "research-signals://"@ + (path + "#row="@ + decimal(r.row_number)));
    lemma_not_blank_joined("research-signals://"@, path + "#row="@ + decimal(r.row_number), 0);
    reveal_strlit("research_prediction_markets");
    assert(!is_white_space("research_prediction_markets"@[0]));
    lemma_not_blank_joined("research_prediction_markets"@, Seq::empty(), 0);
    reveal_strlit("-row-");
    assert(!is_white_space("-row-"@[0]));
    let tr = batch + "-row-"@ + decimal(r.row_number);
    assert(tr == batch + ("-row-"@ + decimal(r.row_number)));
    lemma_not_blank_joined("-row-"@, decimal(r.row_number), 0);
    lemma_not_blank_joined("-row-"@ + decimal(r.row_number), batch, 0);
    assert(provenance_problem(e.provenance) is None);
    assert(payload_kind(e.payload) == e.event_type);
    assert(link_problem(e.linkage, e.payload) is None);
}

fn required_string(v: &Option<String>, field: &str) -> (r: Result<String, HandoffError>)
    ensures
        match r {
            Ok(x) => required_field(opt_view(*v), field@) == Ok::<Seq<char>, Seq<char>>(x@),
            Err(e) => required_field(opt_view(*v), field@) matches Err(m) && e@ == HandoffErrorView::InvalidInput(m),
        },
{
    match v {
        None => {
            let mut m = owned("missing ");
            m.append(field);
            Err(HandoffError::InvalidInput(m))
        },
        Some(x) => {
            if blank(x.as_str()) {
                let mut m = owned(field);
                m.append(" cannot be blank");
                Err(HandoffError::InvalidInput(m))
            } else {
                Ok(trimmed(x.as_str()))
            }
        },
    }
}

/// Replaces every character but ASCII letters, digits, `-` and `_` by `_`.
pub fn sanitize_id_component(value: &str) -> (r: String)
    ensures
        r@ == sanitized(value@),
{
    let n = value.unicode_len();
    let mut r = String::new();
    let mut i: usize = 0;
    while i < n
        invariant
            n == value@.len(),
            i <= n,
            r@ == sanitized(value@.take(i as int)),
        decreases n - i,
    {
        let c = value.get_char(i);
        let u = c as u32;
        if (0x30 <= u && u <= 0x39) || (0x41 <= u && u <= 0x5a) || (0x61 <= u && u <= 0x7a) || c
            == '-' || c == '_' {
            let piece = value.substring_char(i, i + 1);
            r.append(piece);
        } else {
            r.append("_");
        }
        proof {
            assert(value@.take(i as int + 1) =~= value@.take(i as int).push(c));
            assert(sanitized(value@.take(i as int + 1)) =~= sanitized(value@.take(i as int)).push(id_char(c)));
            reveal_strlit("_");
        }
        i = i + 1;
    }
    proof {
        assert(value@.take(n as int) =~= value@);
    }
    r
}

/// Maps a research direction to a signal side.
pub fn map_direction_to_side(value: &str) -> (r: Result<SignalSide, HandoffError>)
    ensures
        match r {
            Ok(s) => side_of_direction(value@) == Some(s),
            Err(e) => side_of_direction(value@) is None && e@ == HandoffErrorView::InvalidInput(
                "direction must be one of long_yes, long_no, short_yes, short_no; got "@ + value@,
            ),
        },
{
    if same_text(value, "long_yes") || same_text(value, "short_no") {
        Ok(SignalSide::Long)
    } else if same_text(value, "long_no") || same_text(value, "short_yes") {
        Ok(SignalSide::Short)
    } else {
        let mut m = owned("direction must be one of long_yes, long_no, short_yes, short_no; got ");
        m.append(value);
        Err(HandoffError::InvalidInput(m))
    }
}

/// `source:market`.
pub fn build_instrument(source: &str, market_id: &str) -> (r: String)
    ensures
        r@ == source@ + ":"@ + market_id@,
{
    let mut r = owned(source);
    r.append(":");
    r.append(market_id);
    r
}

/// Checks a row and builds its `signal.generated` event.
pub fn translate_record_to_signal_event(
    input_path: &str,
    batch_trace_id: &str,
    record: &ResearchSignalInputRecord,
    texts: &ResearchRecordTexts,
) -> (r: Result<EventEnvelope<SignalGenerated>, HandoffError>)
    ensures
        match r {
            Ok(env) => is_row_event(
                env,
                record@,
                opt_view(texts.probability_display),
                input_path@,
                batch_trace_id@,
                texts.provenance_notes@,
            ),
            Err(e) => row_outcome(record@, opt_view(texts.probability_display)) == Err::<
                ResearchSignalView,
                HandoffErrorView,
            >(e@),
        },
        r matches Ok(env) ==> (!is_blank(batch_trace_id@) && !is_blank(texts.provenance_notes@) ==> stored_problem(
            envelope_as_stored(env),
        ) is None),
{
    let ghost pd = opt_view(texts.probability_display);
    match &record.handoff_schema_version {
        None => return Err(HandoffError::invalid_input("missing handoff_schema_version")),
        Some(v) => {
            if !same_text(v.as_str(), RESEARCH_SIGNAL_HANDOFF_SCHEMA_VERSION) {
                let mut m = owned("handoff_schema_version must be research-signals.v1; got ");
                m.append(v.as_str());
                return Err(HandoffError::InvalidInput(m));
            }
        },
    }
    let market = match required_string(&record.market_id, "market_id") {
        Ok(x) => x,
        Err(e) => return Err(e),
    };
    let ts = match required_string(&record.timestamp, "timestamp") {
        Ok(x) => x,
        Err(e) => return Err(e),
    };
    let name = match required_string(&record.signal_name, "signal_name") {
        Ok(x) => x,
        Err(e) => return Err(e),
    };
    let direction = match required_string(&record.direction, "direction") {
        Ok(x) => x,
        Err(e) => return Err(e),
    };
    let source = match required_string(&record.source, "source") {
        Ok(x) => x,
        Err(e) => return Err(e),
    };
    let strength = match record.strength {
        None => return Err(HandoffError::invalid_input("missing strength")),
        Some(x) => x,
    };
    if !strength.in_unit_interval() {
        return Err(HandoffError::invalid_input("strength must be in [0,1]"));
    }
    match record.probability {
        Some(p) => {
            if !p.in_unit_interval() {
                return Err(HandoffError::invalid_input("probability must be in [0,1]"));
            }
        },
        None => {},
    }
    match &record.metadata {
        Some(raw) => {
            if blank(raw.as_str()) {
                return Err(HandoffError::invalid_input("metadata cannot be blank when provided"));
            }
            match parse_json_object(raw.as_str()) {
                Err(e) => return Err(HandoffError::Serde(e)),
                Ok(false) => return Err(HandoffError::invalid_input("metadata must be a JSON object string")),
                Ok(true) => {},
            }
        },
        None => {},
    }
    let t = match parse_rfc3339(ts.as_str()) {
        Ok(t) => t,
        Err(m) => {
            let mut msg = owned("timestamp must be RFC3339: ");
            msg.append(m.as_str());
            return Err(HandoffError::InvalidInput(msg));
        },
    };
    let side = match map_direction_to_side(direction.as_str()) {
        Ok(s) => s,
        Err(e) => return Err(e),
    };
    let stamp = match compact_utc(t) {
        Some(x) => x,
        None => {
            proof {
                assert(false);
            }
            return Err(HandoffError::invalid_input("timestamp cannot be formatted"));
        },
    };
    let mut raw_id = owned("research-");
    raw_id.append(source.as_str());
    raw_id.append("-");
    raw_id.append(market.as_str());
    raw_id.append("-");
    raw_id.append(name.as_str());
    raw_id.append("-");
    raw_id.append(stamp.as_str());
    raw_id.append("-");
    raw_id.append(direction.as_str());
    let signal_id = sanitize_id_component(raw_id.as_str());
    let mut rationale = owned("research signal_name=");
    rationale.append(name.as_str());
    rationale.append(" direction=");
    rationale.append(direction.as_str());
    match &texts.probability_display {
        Some(p) => {
            rationale.append(" probability=");
            rationale.append(p.as_str());
        },
        None => {},
    }
    let mut source_ref = owned("research-signals://");
    source_ref.append(input_path);
    source_ref.append("#row=");
    let row = decimal_text(record.row_number);
    source_ref.append(row.as_str());
    let mut trace = owned(batch_trace_id);
    trace.append("-row-");
    trace.append(row.as_str());
    let linkage = Linkage {
        hypothesis_id: None,
        signal_id: Some(signal_id.clone()),
        decision_id: None,
        order_id: None,
        position_id: None,
        parent_event_id: None,
        correlation_id: Some(signal_id.clone()),
    };
    let provenance = Provenance {
        source_kind: SourceKind::Research,
        source_ref: Some(source_ref),
        producer_run_id: Some(owned(batch_trace_id)),
        actor: Some(owned("research_prediction_markets")),
        trace_id: Some(trace),
        notes: Some(texts.provenance_notes.clone()),
    };
    let payload = SignalGenerated {
        signal_id,
        hypothesis_id: None,
        instrument: build_instrument(source.as_str(), market.as_str()),
        timeframe: owned("research_snapshot"),
        side,
        strength,
        rationale: Some(rationale),
    };
    let ghost expected = research_signal(record@, pd);
    proof {
        reveal_strlit("runtime.handoff.research_signals");
        assert(!is_white_space("runtime.handoff.research_signals"@[0]));
        assert(!is_blank("runtime.handoff.research_signals"@));
        assert(expected matches Ok(v) && signal_payload_of(v) == payload@);
    }
    let aggregate = build_instrument(source.as_str(), market.as_str());
    match EventEnvelope::new_signal_generated("runtime.handoff.research_signals", Some(aggregate), linkage, provenance, payload) {
        Ok(env) => {
            proof {
                let v = expected->Ok_0;
                assert(signal_build_problem(v) is None);
                assert(row_outcome(record@, pd) == Ok::<ResearchSignalView, HandoffErrorView>(v));
                assert(env.payload@ == signal_payload_of(v));
                assert(env.linkage@ == row_linkage(v.signal_id));
                assert(env.provenance@ == row_provenance(input_path@, batch_trace_id@, record.row_number as nat, texts.provenance_notes@));
                assert(opt_view(env.aggregate_key) == Some(v.instrument));
                assert(env.produced_by@ == "runtime.handoff.research_signals"@);
                assert(is_row_event(env, record@, pd, input_path@, batch_trace_id@, texts.provenance_notes@));
                assert(is_row_record(
                    envelope_as_stored(env),
                    record@,
                    pd,
                    input_path@,
                    batch_trace_id@,
                    texts.provenance_notes@,
                ));
                if !is_blank(batch_trace_id@) && !is_blank(texts.provenance_notes@) {
                    lemma_row_record_stores_cleanly(
                        envelope_as_stored(env),
                        record@,
                        pd,
                        input_path@,
                        batch_trace_id@,
                        texts.provenance_notes@,
                    );
                }
            }
            Ok(env)
        },
        Err(e) => {
            proof {
                let v = expected->Ok_0;
                assert(row_outcome(record@, pd) == Err::<ResearchSignalView, HandoffErrorView>(HandoffErrorView::Event(e@)));
            }
            Err(HandoffError::Event(e))
        },
    }
}

// ---------------------------------------------------------------------------
// Ingesting rows
// ---------------------------------------------------------------------------

pub open spec fn record_views(v: Seq<ResearchSignalInputRecord>) -> Seq<ResearchRecordView> {
    v.map_values(|r: ResearchSignalInputRecord| r@)
}

pub open spec fn displays_of(v: Seq<ResearchRecordTexts>) -> Seq<Option<Seq<char>>> {
    v.map_values(|t: ResearchRecordTexts| opt_view(t.probability_display))
}

/// The rows a batch accepts, in order: row number and signal.
pub open spec fn accepted_rows(recs: Seq<ResearchRecordView>, pds: Seq<Option<Seq<char>>>) -> Seq<(nat, Seq<char>)>
    decreases recs.len(),
{
    if recs.len() == 0 || pds.len() == 0 {
        Seq::empty()
    } else {
        let rest = accepted_rows(recs.drop_last(), pds.drop_last());
        match row_outcome(recs.last(), pds.last()) {
            Ok(v) => rest.push((recs.last().row_number, v.signal_id)),
            Err(_) => rest,
        }
    }
}

/// The rows a batch rejects, in order: row number, market and error.
pub open spec fn rejected_rows(recs: Seq<ResearchRecordView>, pds: Seq<Option<Seq<char>>>) -> Seq<
    (nat, Option<Seq<char>>, HandoffErrorView),
>
    decreases recs.len(),
{
    if recs.len() == 0 || pds.len() == 0 {
        Seq::empty()
    } else {
        let rest = rejected_rows(recs.drop_last(), pds.drop_last());
        match row_outcome(recs.last(), pds.last()) {
            Ok(_) => rest,
            Err(e) => rest.push((recs.last().row_number, recs.last().market_id, e)),
        }
    }
}

/// The text a rejection gives as its reason: the error's message.
pub open spec fn reason_fits(reason: Seq<char>, e: HandoffErrorView) -> bool {
    match handoff_error_text(e) {
        Some(t) => reason == t,
        None => handoff_error_prefix(e).len() <= reason.len() && reason.take(handoff_error_prefix(e).len() as int)
            == handoff_error_prefix(e),
    }
}

pub open spec fn occurrences(v: Seq<Seq<char>>, x: Seq<char>) -> nat
    decreases v.len(),
{
    if v.len() == 0 {
        0
    } else {
        occurrences(v.drop_last(), x) + if v.last() == x {
            1nat
        } else {
            0nat
        }
    }
}

pub open spec fn ingested_views(v: Seq<IngestedResearchSignal>) -> Seq<(nat, Seq<char>)> {
    v.map_values(|x: IngestedResearchSignal| (x.row_number as nat, x.signal_id@))
}

pub open spec fn rejection_views(v: Seq<ResearchSignalIngestRejection>) -> Seq<(nat, Option<Seq<char>>)> {
    v.map_values(|x: ResearchSignalIngestRejection| (x.row_number as nat, opt_view(x.market_id)))
}

pub open spec fn rejection_reasons(v: Seq<ResearchSignalIngestRejection>) -> Seq<Seq<char>> {
    v.map_values(|x: ResearchSignalIngestRejection| x.reason@)
}

pub open spec fn row_keys(v: Seq<(nat, Option<Seq<char>>, HandoffErrorView)>) -> Seq<(nat, Option<Seq<char>>)> {
    v.map_values(|x: (nat, Option<Seq<char>>, HandoffErrorView)| (x.0, x.1))
}

/// The provenance notes of each row.
pub open spec fn notes_of(v: Seq<ResearchRecordTexts>) -> Seq<Seq<char>> {
    v.map_values(|t: ResearchRecordTexts| t.provenance_notes@)
}

/// The stored event of an accepted row: the event `translate_record_to_signal_event`
/// builds for it, as the store holds it.
pub open spec fn is_row_record(
    e: StoredEventView,
    r: ResearchRecordView,
    probability_display: Option<Seq<char>>,
    path: Seq<char>,
    batch: Seq<char>,
    notes: Seq<char>,
) -> bool {
    match row_outcome(r, probability_display) {
        Ok(v) => {
            &&& e.event_type == EventType::SignalGenerated
            &&& e.schema_version == "v1"@
            &&& e.produced_by == "runtime.handoff.research_signals"@
            &&& e.idempotency_key == idempotency_key_of(PayloadView::SignalGenerated(signal_payload_of(v)))
            &&& e.aggregate_key == Some(v.instrument)
            &&& e.linkage == row_linkage(v.signal_id)
            &&& e.provenance == row_provenance(path, batch, r.row_number, notes)
            &&& e.payload == PayloadView::SignalGenerated(signal_payload_of(v))
            &&& is_hyphenated_uuid_text(e.event_id)
            &&& uuid_text_parses(e.event_id)
        },
        Err(_) => false,
    }
}

/// `evs[i]` is the event of row `i` when the row is accepted, and `None` when
/// it is rejected.
pub open spec fn rows_events(
    evs: Seq<Option<StoredEventView>>,
    recs: Seq<ResearchRecordView>,
    pds: Seq<Option<Seq<char>>>,
    notes: Seq<Seq<char>>,
    path: Seq<char>,
    batch: Seq<char>,
) -> bool {
    &&& evs.len() <= recs.len()
    &&& evs.len() <= pds.len()
    &&& evs.len() <= notes.len()
    &&& forall|i: int| 0 <= i < evs.len() ==> match #[trigger] evs[i] {
        Some(e) => is_row_record(e, recs[i], pds[i], path, batch, notes[i]),
        None => row_outcome(recs[i], pds[i]) is Err,
    }
}

/// The log after the events of the rows are appended in order; a dry run
/// leaves it as it was.
pub open spec fn ingested_log(s: Seq<StoredEventView>, evs: Seq<Option<StoredEventView>>, dry_run: bool) -> Seq<
    StoredEventView,
>
    decreases evs.len(),
{
    if dry_run || evs.len() == 0 {
        s
    } else {
        let before = ingested_log(s, evs.drop_last(), dry_run);
        match evs.last() {
            Some(e) => after_append(before, e),
            None => before,
        }
    }
}

/// The idempotency key of the event of an accepted row.
pub open spec fn row_key(r: ResearchRecordView, probability_display: Option<Seq<char>>) -> Seq<char> {
    idempotency_key_of(PayloadView::SignalGenerated(signal_payload_of(row_outcome(r, probability_display)->Ok_0)))
}

/// The log holds the key of every accepted row.
pub open spec fn rows_stored(s: Seq<StoredEventView>, recs: Seq<ResearchRecordView>, pds: Seq<Option<Seq<char>>>) -> bool {
    forall|j: int|
        0 <= j < recs.len() && j < pds.len() && row_outcome(recs[j], pds[j]) is Ok ==> has_key(
            s,
            #[trigger] row_key(recs[j], pds[j]),
        )
}

proof fn lemma_rows_stored_step(
    before: Seq<StoredEventView>,
    after: Seq<StoredEventView>,
    recs: Seq<ResearchRecordView>,
    pds: Seq<Option<Seq<char>>>,
    i: int,
)
    requires
        0 <= i < recs.len(),
        i < pds.len(),
        rows_stored(before, recs.take(i), pds.take(i)),
        before.len() <= after.len(),
        forall|n: int| 0 <= n < before.len() ==> #[trigger] after[n] == before[n],
        row_outcome(recs[i], pds[i]) is Ok ==> has_key(after, row_key(recs[i], pds[i])),
    ensures
        rows_stored(after, recs.take(i + 1), pds.take(i + 1)),
{
    let rt = recs.take(i + 1);
    let pt = pds.take(i + 1);
    assert forall|j: int| 0 <= j < rt.len() && j < pt.len() && row_outcome(rt[j], pt[j]) is Ok implies has_key(
        after,
        #[trigger] row_key(rt[j], pt[j]),
    ) by {
        if j < i {
            assert(rt[j] == recs.take(i)[j] && pt[j] == pds.take(i)[j]);
            let k = row_key(rt[j], pt[j]);
            assert(has_key(before, k));
            let n = choose|n: int| 0 <= n < before.len() && #[trigger] before[n].idempotency_key == k;
            assert(after[n] == before[n]);
        } else {
            assert(rt[j] == recs[i] && pt[j] == pds[i]);
        }
    }
}

/// Ingesting rows again writes nothing: once the log holds the key of every
/// accepted row, as it does after an ingest of those rows that succeeded, the
/// events of the same rows, from any batch, leave the log as it was.
pub proof fn lemma_reingest_writes_nothing(
    s: Seq<StoredEventView>,
    evs: Seq<Option<StoredEventView>>,
    recs: Seq<ResearchRecordView>,
    pds: Seq<Option<Seq<char>>>,
    notes: Seq<Seq<char>>,
    path: Seq<char>,
    batch: Seq<char>,
)
    requires
        rows_events(evs, recs, pds, notes, path, batch),
        rows_stored(s, recs, pds),
    ensures
        ingested_log(s, evs, false) == s,
    decreases evs.len(),
{
    if evs.len() > 0 {
        let rest = evs.drop_last();
        assert forall|i: int| 0 <= i < rest.len() implies match #[trigger] rest[i] {
            Some(e) => is_row_record(e, recs[i], pds[i], path, batch, notes[i]),
            None => row_outcome(recs[i], pds[i]) is Err,
        } by {
            assert(rest[i] == evs[i]);
        }
        lemma_reingest_writes_nothing(s, rest, recs, pds, notes, path, batch);
        let j = evs.len() - 1;
        assert(evs.last() == evs[j]);
        if let Some(e) = evs[j] {
            assert(has_key(s, row_key(recs[j], pds[j])));
            lemma_first_key_index_found(s, e.idempotency_key);
        }
    }
}

/// The batch stops at the last row of `evs`: its event breaks a rule, or, in a
/// run that writes, another fact holds its key in the log as the rows before
/// it left it.
pub open spec fn ingest_stops_at(
    s: Seq<StoredEventView>,
    evs: Seq<Option<StoredEventView>>,
    dry_run: bool,
) -> bool {
    &&& evs.len() > 0
    &&& evs.last() matches Some(e) && {
        let o = append_outcome(ingested_log(s, evs.drop_last(), dry_run), e);
        o is Rejected || (!dry_run && o is Conflict)
    }
}

/// A report of ingesting `recs`: every row read, the accepted rows ingested in
/// order, the rejected ones listed in order with their error's message, the
/// reasons counted, and the written and duplicate counts.
pub open spec fn ingest_report_follows(
    rep: ResearchSignalIngestReport,
    recs: Seq<ResearchRecordView>,
    pds: Seq<Option<Seq<char>>>,
    path: Seq<char>,
    size: u64,
    batch: Seq<char>,
    dry_run: bool,
) -> bool {
    let rejected = rejected_rows(recs, pds);
    let reasons = rejection_reasons(rep.rejections@);
    &&& rep.handoff_schema_version@ == RESEARCH_SIGNAL_HANDOFF_SCHEMA_VERSION@
    &&& rep.input_path@ == path
    &&& rep.dry_run == dry_run
    &&& rep.batch_trace_id@ == batch
    &&& rep.input_file_size_bytes == size
    &&& rep.rows_read == recs.len()
    &&& rep.rows_valid == rep.ingested_signals.len()
    &&& rep.rows_invalid == rep.rejections.len()
    &&& ingested_views(rep.ingested_signals@) == accepted_rows(recs, pds)
    &&& rejection_views(rep.rejections@) == row_keys(rejected)
    &&& forall|i: int| 0 <= i < rejected.len() ==> reason_fits(#[trigger] reasons[i], rejected[i].2)
    &&& forall|i: int| 0 <= i < rep.ingested_signals.len() ==> {
        let x = #[trigger] rep.ingested_signals@[i];
        &&& x.event_type@ == "signal.generated"@
        &&& x.event_written ==> !dry_run
        &&& x.deduplicated == (!dry_run && !x.event_written)
    }
    &&& rep.events_written == count_flags(rep.ingested_signals@, true)
    &&& rep.duplicates == count_flags(rep.ingested_signals@, false) - (if dry_run {
        rep.ingested_signals.len() as int
    } else {
        0int
    })
    &&& strs(rep.generated_event_types@) == seq!["signal.generated"@]
    &&& crate::text::strictly_sorted(rep.rejected_reasons@.map_values(|x: ResearchSignalRejectedReason| x.reason@))
    &&& rep.rejected_reasons@.map_values(|x: ResearchSignalRejectedReason| x.reason@).to_set() == reasons.to_set()
    &&& forall|i: int| 0 <= i < rep.rejected_reasons.len() ==> (#[trigger] rep.rejected_reasons@[i]).count == occurrences(
        reasons,
        rep.rejected_reasons@[i].reason@,
    )
}

/// How many ingested rows wrote their event (`true`) or did not (`false`).
pub open spec fn count_flags(v: Seq<IngestedResearchSignal>, written: bool) -> nat
    decreases v.len(),
{
    if v.len() == 0 {
        0
    } else {
        count_flags(v.drop_last(), written) + if v.last().event_written == written {
            1nat
        } else {
            0nat
        }
    }
}

pub fn count_occurrences(v: &Vec<String>, x: &str) -> (r: usize)
    ensures
        r == occurrences(strs(v@), x@),
{
    let ghost sv = strs(v@);
    let mut n: usize = 0;
    let mut i: usize = 0;
    proof {
        assert(sv.take(0) =~= Seq::<Seq<char>>::empty());
    }
    while i < v.len()
        invariant
            i <= v.len(),
            sv == strs(v@),
            n == occurrences(sv.take(i as int), x@),
            n <= i,
        decreases v.len() - i,
    {
        proof {
            assert(sv.take(i as int + 1).drop_last() =~= sv.take(i as int));
        }
        if same_text(v[i].as_str(), x) {
            n = n + 1;
        }
        i = i + 1;
    }
    proof {
        assert(sv.take(v.len() as int) =~= sv);
    }
    n
}

/// Writes the `signal.generated` events of a batch of rows, rejecting the rows
/// that do not check out; `texts[i]` holds what row `i` writes from its
/// numbers. A dry run writes nothing.
pub fn ingest_research_records(
    store: &mut JsonlEventStore,
    input_path: &str,
    input_file_size_bytes: u64,
    batch_trace_id: &str,
    records: &Vec<ResearchSignalInputRecord>,
    texts: &Vec<ResearchRecordTexts>,
    options: ResearchSignalIngestOptions,
) -> (r: Result<ResearchSignalIngestReport, HandoffError>)
    requires
        records.len() == texts.len(),
    ensures
        options.dry_run ==> final(store)@ == old(store)@,
        r matches Ok(rep) ==> ingest_report_follows(
            rep,
            record_views(records@),
            displays_of(texts@),
            input_path@,
            input_file_size_bytes,
            batch_trace_id@,
            options.dry_run,
        ),
        options.dry_run && !is_blank(batch_trace_id@) && (forall|i: int|
            0 <= i < texts.len() ==> !is_blank(#[trigger] texts@[i].provenance_notes@)) ==> r is Ok,
        r is Ok ==> exists|evs: Seq<Option<StoredEventView>>|
            {
                &&& evs.len() == records.len()
                &&& rows_events(evs, record_views(records@), displays_of(texts@), notes_of(texts@), input_path@, batch_trace_id@)
                &&& final(store)@ == ingested_log(old(store)@, evs, options.dry_run)
            },
        r is Ok && !options.dry_run ==> rows_stored(final(store)@, record_views(records@), displays_of(texts@)),
        r is Err ==> exists|evs: Seq<Option<StoredEventView>>|
            {
                &&& rows_events(evs, record_views(records@), displays_of(texts@), notes_of(texts@), input_path@, batch_trace_id@)
                &&& ingest_stops_at(old(store)@, evs, options.dry_run)
                &&& final(store)@ == ingested_log(old(store)@, evs.drop_last(), options.dry_run)
            },
{
    let ghost recs = record_views(records@);
    let ghost pds = displays_of(texts@);
    let dry_run = options.dry_run;
    let mut ingested: Vec<IngestedResearchSignal> = Vec::new();
    let mut rejections: Vec<ResearchSignalIngestRejection> = Vec::new();
    let mut reasons: Vec<String> = Vec::new();
    let mut events_written: usize = 0;
    let mut duplicates: usize = 0;
    let mut i: usize = 0;
    let ghost start = store@;
    let ghost nts = notes_of(texts@);
    let ghost mut evs: Seq<Option<StoredEventView>> = Seq::empty();
    proof {
        assert(recs.take(0) =~= Seq::<ResearchRecordView>::empty());
        assert(pds.take(0) =~= Seq::<Option<Seq<char>>>::empty());
        assert(ingested_views(ingested@) =~= Seq::<(nat, Seq<char>)>::empty());
        assert(rejection_views(rejections@) =~= Seq::<(nat, Option<Seq<char>>)>::empty());
        assert(strs(reasons@) =~= Seq::<Seq<char>>::empty());
    }
    while i < records.len()
        invariant
            i <= records.len(),
            records.len() == texts.len(),
            recs == record_views(records@),
            pds == displays_of(texts@),
            dry_run == options.dry_run,
            dry_run ==> store@ == start,
            start == old(store)@,
            ingested_views(ingested@) == accepted_rows(recs.take(i as int), pds.take(i as int)),
            rejection_views(rejections@) == row_keys(rejected_rows(recs.take(i as int), pds.take(i as int))),
            rejected_rows(recs.take(i as int), pds.take(i as int)).len() == rejections.len(),
            strs(reasons@) == rejection_reasons(rejections@),
            forall|j: int| 0 <= j < rejections.len() ==> reason_fits(
                #[trigger] rejection_reasons(rejections@)[j],
                rejected_rows(recs.take(i as int), pds.take(i as int))[j].2,
            ),
            forall|j: int| 0 <= j < ingested.len() ==> {
                let x = #[trigger] ingested@[j];
                &&& x.event_type@ == "signal.generated"@
                &&& x.event_written ==> !dry_run
                &&& x.deduplicated == (!dry_run && !x.event_written)
            },
            events_written == count_flags(ingested@, true),
            duplicates == count_flags(ingested@, false) - (if dry_run {
                ingested.len() as int
            } else {
                0int
            }),
            ingested.len() + rejections.len() == i,
            nts == notes_of(texts@),
            evs.len() == i,
            rows_events(evs, recs, pds, nts, input_path@, batch_trace_id@),
            store@ == ingested_log(start, evs, dry_run),
            !dry_run ==> rows_stored(store@, recs.take(i as int), pds.take(i as int)),
        decreases records.len() - i,
    {
        let ghost rt = recs.take(i as int + 1);
        let ghost pt = pds.take(i as int + 1);
        proof {
            assert(rt.drop_last() =~= recs.take(i as int));
            assert(pt.drop_last() =~= pds.take(i as int));
            assert(rt.last() == records@[i as int]@);
            assert(pt.last() == opt_view(texts@[i as int].probability_display));
            lemma_flag_counts_bounded(ingested@);
        }
        let record = &records[i];
        match translate_record_to_signal_event(input_path, batch_trace_id, record, &texts[i]) {
            Ok(env) => {
                let signal_id = env.payload.signal_id.clone();
                let ghost ev = envelope_as_stored(env);
                let ghost evs2 = evs.push(Some(ev));
                proof {
                    assert(nts[i as int] == texts@[i as int].provenance_notes@);
                    assert(is_row_record(ev, recs[i as int], pds[i as int], input_path@, batch_trace_id@, nts[i as int]));
                    assert forall|j: int| 0 <= j < evs2.len() implies match #[trigger] evs2[j] {
                        Some(e) => is_row_record(e, recs[j], pds[j], input_path@, batch_trace_id@, nts[j]),
                        None => row_outcome(recs[j], pds[j]) is Err,
                    } by {
                        if j < evs.len() {
                            assert(evs2[j] == evs[j]);
                        }
                    }
                    assert(rows_events(evs2, recs, pds, nts, input_path@, batch_trace_id@));
                    assert(evs2.drop_last() =~= evs);
                }
                let stored = match StoredEvent::from_envelope(env) {
                    Ok(s) => s,
                    Err(e) => {
                        proof {
                            assert(ingest_stops_at(start, evs2, dry_run));
                        }
                        return Err(HandoffError::Store(e));
                    },
                };
                let appended = if dry_run {
                    false
                } else {
                    match store.append_event(&stored) {
                        Ok(a) => a,
                        Err(e) => {
                            proof {
                                assert(ingest_stops_at(start, evs2, dry_run));
                            }
                            return Err(HandoffError::Store(e));
                        },
                    }
                };
                proof {
                    assert(store@ == ingested_log(start, evs2, dry_run));
                    if !dry_run {
                        let before = ingested_log(start, evs, dry_run);
                        crate::store::lemma_append_keeps_log(before, stored@);
                        assert(stored@.idempotency_key == row_key(recs[i as int], pds[i as int]));
                        lemma_rows_stored_step(before, store@, recs, pds, i as int);
                    }
                    evs = evs2;
                }
                if appended {
                    events_written = events_written + 1;
                } else if !dry_run {
                    duplicates = duplicates + 1;
                }
                let item = IngestedResearchSignal {
                    row_number: record.row_number,
                    signal_id,
                    event_type: owned(stored.event_type.as_str()),
                    deduplicated: !dry_run && !appended,
                    event_written: appended,
                };
                let ghost before = ingested@;
                ingested.push(item);
                proof {
                    assert(ingested@.drop_last() =~= before);
                    assert(ingested_views(ingested@) =~= ingested_views(before).push((record.row_number as nat, item.signal_id@)));
                    assert(stored@.event_type == crate::events::EventType::SignalGenerated);
                }
            },
            Err(error) => {
                let reason = error.to_text();
                let ghost rb = rejections@;
                let ghost rr = rejected_rows(recs.take(i as int), pds.take(i as int));
                let rejection = ResearchSignalIngestRejection {
                    row_number: record.row_number,
                    market_id: crate::text::clone_opt(&record.market_id),
                    reason: reason.clone(),
                };
                reasons.push(reason);
                rejections.push(rejection);
                proof {
                    assert(rejections@.drop_last() =~= rb);
                    assert(rejection_views(rejections@) =~= rejection_views(rb).push(
                        (record.row_number as nat, opt_view(record.market_id)),
                    ));
                    assert(rejection_reasons(rejections@) =~= rejection_reasons(rb).push(rejection.reason@));
                    assert(strs(reasons@) =~= rejection_reasons(rejections@));
                    let rr2 = rejected_rows(rt, pt);
                    assert(rr2 == rr.push((record.row_number as nat, opt_view(record.market_id), error@)));
                    assert(row_keys(rr2) =~= row_keys(rr).push((record.row_number as nat, opt_view(record.market_id))));
                    assert forall|j: int| 0 <= j < rejections.len() implies reason_fits(
                        #[trigger] rejection_reasons(rejections@)[j],
                        rr2[j].2,
                    ) by {
                        if j < rb.len() {
                            assert(rejection_reasons(rejections@)[j] == rejection_reasons(rb)[j]);
                            assert(rr2[j] == rr[j]);
                        }
                    }
                    let evs2 = evs.push(None);
                    assert(row_outcome(recs[i as int], pds[i as int]) is Err);
                    assert forall|j: int| 0 <= j < evs2.len() implies match #[trigger] evs2[j] {
                        Some(e) => is_row_record(e, recs[j], pds[j], input_path@, batch_trace_id@, nts[j]),
                        None => row_outcome(recs[j], pds[j]) is Err,
                    } by {
                        if j < evs.len() {
                            assert(evs2[j] == evs[j]);
                        }
                    }
                    assert(evs2.drop_last() =~= evs);
                    assert(store@ == ingested_log(start, evs2, dry_run));
                    if !dry_run {
                        lemma_rows_stored_step(store@, store@, recs, pds, i as int);
                    }
                    evs = evs2;
                }
            },
        }
        i = i + 1;
    }
    proof {
        assert(recs.take(records.len() as int) =~= recs);
        assert(pds.take(records.len() as int) =~= pds);
    }
    let mut distinct: Vec<String> = Vec::new();
    let mut k: usize = 0;
    proof {
        assert(strs(reasons@).take(0).to_set() =~= Set::<Seq<char>>::empty());
        assert(strs(distinct@).to_set() =~= Set::<Seq<char>>::empty());
    }
    while k < reasons.len()
        invariant
            k <= reasons.len(),
            crate::text::strictly_sorted(strs(distinct@)),
            strs(distinct@).to_set() == strs(reasons@).take(k as int).to_set(),
        decreases reasons.len() - k,
    {
        proof {
            assert(strs(reasons@).take(k as int + 1) =~= strs(reasons@).take(k as int).push(reasons@[k as int]@));
            strs(reasons@).take(k as int).lemma_push_to_set_commute(reasons@[k as int]@);
        }
        crate::text::insert_sorted(&mut distinct, reasons[k].clone());
        k = k + 1;
    }
    proof {
        assert(strs(reasons@).take(reasons.len() as int) =~= strs(reasons@));
    }
    let mut rejected_reasons: Vec<ResearchSignalRejectedReason> = Vec::new();
    let mut m: usize = 0;
    while m < distinct.len()
        invariant
            m <= distinct.len(),
            rejected_reasons@.map_values(|x: ResearchSignalRejectedReason| x.reason@) == strs(distinct@).take(m as int),
            forall|j: int| 0 <= j < m ==> (#[trigger] rejected_reasons@[j]).count == occurrences(
                strs(reasons@),
                rejected_reasons@[j].reason@,
            ),
        decreases distinct.len() - m,
    {
        let count = count_occurrences(&reasons, distinct[m].as_str());
        let entry = ResearchSignalRejectedReason { reason: distinct[m].clone(), count };
        let ghost before = rejected_reasons@;
        rejected_reasons.push(entry);
        proof {
            assert(entry.reason@ == distinct@[m as int]@);
            assert(strs(distinct@).take(m as int + 1) =~= strs(distinct@).take(m as int).push(distinct@[m as int]@));
            assert(rejected_reasons@ =~= before.push(entry));
            assert(rejected_reasons@.map_values(|x: ResearchSignalRejectedReason| x.reason@) =~= strs(distinct@).take(
                m as int + 1,
            ));
            assert forall|j: int| 0 <= j < m + 1 implies (#[trigger] rejected_reasons@[j]).count == occurrences(
                strs(reasons@),
                rejected_reasons@[j].reason@,
            ) by {
                if j < m {
                    assert(rejected_reasons@[j] == before[j]);
                }
            }
        }
        m = m + 1;
    }
    proof {
        assert(strs(distinct@).take(distinct.len() as int) =~= strs(distinct@));
    }
    let rows_valid = ingested.len();
    let rows_invalid = rejections.len();
    let report = ResearchSignalIngestReport {
        handoff_schema_version: owned(RESEARCH_SIGNAL_HANDOFF_SCHEMA_VERSION),
        input_path: owned(input_path),
        dry_run,
        batch_trace_id: owned(batch_trace_id),
        input_file_size_bytes,
        rows_read: records.len(),
        rows_valid,
        rows_invalid,
        events_written,
        duplicates,
        generated_event_types: vec![owned("signal.generated")],
        rejected_reasons,
        ingested_signals: ingested,
        rejections,
    };
    proof {
        assert(strs(report.generated_event_types@) =~= seq!["signal.generated"@]);
    }
    Ok(report)
}

proof fn lemma_flag_counts_bounded(v: Seq<IngestedResearchSignal>)
    ensures
        count_flags(v, true) <= v.len(),
        count_flags(v, false) <= v.len(),
        count_flags(v, true) + count_flags(v, false) == v.len(),
    decreases v.len(),
{
    if v.len() > 0 {
        lemma_flag_counts_bounded(v.drop_last());
    }
}

/// The trace id of a batch: the schema, the input file's name, its size and
/// the time it was last modified (seconds since the epoch), made an identifier.
pub fn build_batch_trace_id(file_name: &str, size_bytes: u64, modified_secs: u64) -> (r: String)
    ensures
        r@ == sanitized(
            "research-batch-"@ + RESEARCH_SIGNAL_HANDOFF_SCHEMA_VERSION@ + "-"@ + file_name@ + "-"@ + decimal(
                size_bytes as nat,
            ) + "-"@ + decimal(modified_secs as nat),
        ),
{
    let mut raw = owned("research-batch-");
    raw.append(RESEARCH_SIGNAL_HANDOFF_SCHEMA_VERSION);
    raw.append("-");
    raw.append(file_name);
    raw.append("-");
    let a = decimal_text_u64(size_bytes);
    raw.append(a.as_str());
    raw.append("-");
    let b = decimal_text_u64(modified_secs);
    raw.append(b.as_str());
    sanitize_id_component(raw.as_str())
}


/// Two events of the same row, whatever their ids, times and batches, state
/// the same fact under the same key: the store keeps the first and takes the
/// second as already present.
pub proof fn lemma_row_events_same_fact(
    e1: StoredEventView,
    e2: StoredEventView,
    r: ResearchRecordView,
    probability_display: Option<Seq<char>>,
    path: Seq<char>,
    batch1: Seq<char>,
    batch2: Seq<char>,
    notes: Seq<char>,
)
    requires
        is_row_record(e1, r, probability_display, path, batch1, notes),
        is_row_record(e2, r, probability_display, path, batch2, notes),
    ensures
        e1.idempotency_key == e2.idempotency_key,
        crate::store::stored_event::equivalent(e1, e2),
{
}


/// A research direction is a stance and an outcome: the signal is long when
/// the stance agrees with the outcome (long on yes, short on no) and short
/// when it opposes it (long on no, short on yes).
pub proof fn lemma_direction_sides(stance: Seq<char>, outcome: Seq<char>)
    requires
        stance == "long"@ || stance == "short"@,
        outcome == "yes"@ || outcome == "no"@,
    ensures
        side_of_direction(stance + "_"@ + outcome) == Some(
            if (stance == "long"@) == (outcome == "yes"@) {
                SignalSide::Long
            } else {
                SignalSide::Short
            },
        ),
{
    reveal_strlit("long");
    reveal_strlit("short");
    reveal_strlit("yes");
    reveal_strlit("no");
    reveal_strlit("_");
    reveal_strlit("long_yes");
    reveal_strlit("long_no");
    reveal_strlit("short_yes");
    reveal_strlit("short_no");
    let d = stance + "_"@ + outcome;
    if stance == "long"@ && outcome == "yes"@ {
        assert(d =~= "long_yes"@);
    } else if stance == "long"@ {
        assert(d =~= "long_no"@);
        assert(d != "long_yes"@ && d != "short_no"@) by {
            assert(d.len() == 7);
        }
    } else if outcome == "yes"@ {
        assert(d =~= "short_yes"@);
        assert(d != "long_yes"@ && d != "short_no"@) by {
            assert(d.len() == 9);
            assert(d[0] == 's');
        }
    } else {
        assert(d =~= "short_no"@);
    }
}

} // verus!
