//! The envelope every event travels in, the idempotency key of each kind of
//! payload, and the checks an envelope must pass.
use vstd::prelude::*;
use vstd::string::*;

use crate::clock::{compact_utc_text, now};
use crate::events::error::{EventError, EventErrorView};
use crate::events::types::{
    payload_kind, DecisionFormed, EventPayload, EventType, FillReceived, HypothesisGenerated,
    Linkage, OrderRegistered, OrderSubmitted, PayloadView, Provenance, SignalConfirmed,
    SignalGenerated, Timestamp, VetoRaised,
};
use crate::events::validation::{outcome, Validate};
use crate::ids::{is_hyphenated_uuid_text, new_uuid_text, uuid_text_parses};
use crate::text::{blank, is_blank, opt_view, owned, same_text};

verus! {

/// The idempotency key of a payload: what makes two writes of the same fact
/// the same write.
pub open spec fn idempotency_key_of(p: PayloadView) -> Seq<char> {
    match p {
        PayloadView::HypothesisGenerated(h) => "hypothesis.generated:v1:"@ + h.hypothesis_id,
        PayloadView::SignalGenerated(s) => "signal.generated:v1:"@ + s.signal_id,
        PayloadView::SignalConfirmed(c) => "signal.confirmed:v1:"@ + c.signal_id + ":"@
            + c.confirmed_by,
        PayloadView::VetoRaised(v) => "veto.raised:v1:"@ + v.veto_id,
        PayloadView::DecisionFormed(d) => "decision.formed:v1:"@ + d.decision_id,
        PayloadView::OrderRegistered(o) => "order.registered:v1:"@ + o.venue + ":"@ + o.order_id,
        PayloadView::OrderSubmitted(o) => "order.submitted:v1:"@ + o.venue + ":"@ + o.order_id,
        PayloadView::FillReceived(f) => "fill.received:v1:"@ + f.venue + ":"@ + f.order_id
            + ":"@ + f.fill_id,
    }
}

fn key1(prefix: &str, a: &String) -> (r: String)
    ensures
        r@ == prefix@ + a@,
{
    let mut r = owned(prefix);
    r.append(a.as_str());
    r
}

fn key2(prefix: &str, a: &String, b: &String) -> (r: String)
    ensures
        r@ == prefix@ + a@ + ":"@ + b@,
{
    let mut r = owned(prefix);
    r.append(a.as_str());
    r.append(":");
    r.append(b.as_str());
    r
}

fn key3(prefix: &str, a: &String, b: &String, c: &String) -> (r: String)
    ensures
        r@ == prefix@ + a@ + ":"@ + b@ + ":"@ + c@,
{
    let mut r = key2(prefix, a, b);
    r.append(":");
    r.append(c.as_str());
    r
}

/// A payload that belongs to one kind of event.
pub trait EventTyped: Sized {
    spec fn payload_view(&self) -> PayloadView;

    spec fn spec_event_type() -> EventType;

    fn event_type() -> (r: EventType)
        ensures
            r == Self::spec_event_type(),
    ;

    fn idempotency_key(&self) -> (r: String)
        ensures
            r@ == idempotency_key_of(self.payload_view()),
    ;

    fn to_payload(&self) -> (r: EventPayload)
        ensures
            r@ == self.payload_view(),
            payload_kind(r@) == Self::spec_event_type(),
    ;
}

impl EventTyped for HypothesisGenerated {
    open spec fn payload_view(&self) -> PayloadView {
        PayloadView::HypothesisGenerated(self@)
    }

    open spec fn spec_event_type() -> EventType {
        EventType::HypothesisGenerated
    }

    fn event_type() -> (r: EventType) {
        EventType::HypothesisGenerated
    }

    fn idempotency_key(&self) -> (r: String) {
        let r = key1("hypothesis.generated:v1:", &self.hypothesis_id);
        assert(r@ =~= idempotency_key_of(self.payload_view()));
        r
    }

    fn to_payload(&self) -> (r: EventPayload) {
        EventPayload::HypothesisGenerated(self.duplicate())
    }
}

impl EventTyped for SignalGenerated {
    open spec fn payload_view(&self) -> PayloadView {
        PayloadView::SignalGenerated(self@)
    }

    open spec fn spec_event_type() -> EventType {
        EventType::SignalGenerated
    }

    fn event_type() -> (r: EventType) {
        EventType::SignalGenerated
    }

    fn idempotency_key(&self) -> (r: String) {
        let r = key1("signal.generated:v1:", &self.signal_id);
        assert(r@ =~= idempotency_key_of(self.payload_view()));
        r
    }

    fn to_payload(&self) -> (r: EventPayload) {
        EventPayload::SignalGenerated(self.duplicate())
    }
}

impl EventTyped for SignalConfirmed {
    open spec fn payload_view(&self) -> PayloadView {
        PayloadView::SignalConfirmed(self@)
    }

    open spec fn spec_event_type() -> EventType {
        EventType::SignalConfirmed
    }

    fn event_type() -> (r: EventType) {
        EventType::SignalConfirmed
    }

    fn idempotency_key(&self) -> (r: String) {
        let r = key2("signal.confirmed:v1:", &self.signal_id, &self.confirmed_by);
        assert(r@ =~= idempotency_key_of(self.payload_view()));
        r
    }

    fn to_payload(&self) -> (r: EventPayload) {
        EventPayload::SignalConfirmed(self.duplicate())
    }
}

impl EventTyped for VetoRaised {
    open spec fn payload_view(&self) -> PayloadView {
        PayloadView::VetoRaised(self@)
    }

    open spec fn spec_event_type() -> EventType {
        EventType::VetoRaised
    }

    fn event_type() -> (r: EventType) {
        EventType::VetoRaised
    }

    fn idempotency_key(&self) -> (r: String) {
        let r = key1("veto.raised:v1:", &self.veto_id);
        assert(r@ =~= idempotency_key_of(self.payload_view()));
        r
    }

    fn to_payload(&self) -> (r: EventPayload) {
        EventPayload::VetoRaised(self.duplicate())
    }
}

impl EventTyped for DecisionFormed {
    open spec fn payload_view(&self) -> PayloadView {
        PayloadView::DecisionFormed(self@)
    }

    open spec fn spec_event_type() -> EventType {
        EventType::DecisionFormed
    }

    fn event_type() -> (r: EventType) {
        EventType::DecisionFormed
    }

    fn idempotency_key(&self) -> (r: String) {
        let r = key1("decision.formed:v1:", &self.decision_id);
        assert(r@ =~= idempotency_key_of(self.payload_view()));
        r
    }

    fn to_payload(&self) -> (r: EventPayload) {
        EventPayload::DecisionFormed(self.duplicate())
    }
}

impl EventTyped for OrderRegistered {
    open spec fn payload_view(&self) -> PayloadView {
        PayloadView::OrderRegistered(self@)
    }

    open spec fn spec_event_type() -> EventType {
        EventType::OrderRegistered
    }

    fn event_type() -> (r: EventType) {
        EventType::OrderRegistered
    }

    fn idempotency_key(&self) -> (r: String) {
        let r = key2("order.registered:v1:", &self.venue, &self.order_id);
        assert(r@ =~= idempotency_key_of(self.payload_view()));
        r
    }

    fn to_payload(&self) -> (r: EventPayload) {
        EventPayload::OrderRegistered(self.duplicate())
    }
}

impl EventTyped for OrderSubmitted {
    open spec fn payload_view(&self) -> PayloadView {
        PayloadView::OrderSubmitted(self@)
    }

    open spec fn spec_event_type() -> EventType {
        EventType::OrderSubmitted
    }

    fn event_type() -> (r: EventType) {
        EventType::OrderSubmitted
    }

    fn idempotency_key(&self) -> (r: String) {
        let r = key2("order.submitted:v1:", &self.venue, &self.order_id);
        assert(r@ =~= idempotency_key_of(self.payload_view()));
        r
    }

    fn to_payload(&self) -> (r: EventPayload) {
        EventPayload::OrderSubmitted(self.duplicate())
    }
}

impl EventTyped for FillReceived {
    open spec fn payload_view(&self) -> PayloadView {
        PayloadView::FillReceived(self@)
    }

    open spec fn spec_event_type() -> EventType {
        EventType::FillReceived
    }

    fn event_type() -> (r: EventType) {
        EventType::FillReceived
    }

    fn idempotency_key(&self) -> (r: String) {
        let r = key3("fill.received:v1:", &self.venue, &self.order_id, &self.fill_id);
        assert(r@ =~= idempotency_key_of(self.payload_view()));
        r
    }

    fn to_payload(&self) -> (r: EventPayload) {
        EventPayload::FillReceived(self.duplicate())
    }
}

impl EventPayload {
    pub fn idempotency_key(&self) -> (r: String)
        ensures
            r@ == idempotency_key_of(self@),
    {
        match self {
            EventPayload::HypothesisGenerated(p) => p.idempotency_key(),
            EventPayload::SignalGenerated(p) => p.idempotency_key(),
            EventPayload::SignalConfirmed(p) => p.idempotency_key(),
            EventPayload::VetoRaised(p) => p.idempotency_key(),
            EventPayload::DecisionFormed(p) => p.idempotency_key(),
            EventPayload::OrderRegistered(p) => p.idempotency_key(),
            EventPayload::OrderSubmitted(p) => p.idempotency_key(),
            EventPayload::FillReceived(p) => p.idempotency_key(),
        }
    }
}

#[derive(Debug, Clone, PartialEq, Eq)]
pub struct EventEnvelope<TPayload> {
    pub event_id: String,
    pub event_type: EventType,
    pub schema_version: String,
    pub occurred_at: Timestamp,
    pub produced_by: String,
    pub idempotency_key: String,
    pub aggregate_key: Option<String>,
    pub linkage: Linkage,
    pub provenance: Provenance,
    pub payload: TPayload,
}

/// The first rule an envelope breaks: its header fields, the agreement of its
/// declared kind with its payload, then the payload's own rules.
pub open spec fn header_problem(
    event_id: Seq<char>,
    schema_version: Seq<char>,
    produced_by: Seq<char>,
    idempotency_key: Seq<char>,
    type_matches: bool,
    payload_problem: Option<EventErrorView>,
) -> Option<EventErrorView> {
    if is_blank(event_id) {
        Some(EventErrorView::Validation("event_id cannot be empty"@))
    } else if schema_version != "v1"@ {
        Some(EventErrorView::Validation("schema_version must be v1"@))
    } else if is_blank(produced_by) {
        Some(EventErrorView::Validation("produced_by cannot be empty"@))
    } else if is_blank(idempotency_key) {
        Some(EventErrorView::Validation("idempotency_key cannot be empty"@))
    } else if !type_matches {
        Some(EventErrorView::Invariant("event_type does not match payload type"@))
    } else {
        payload_problem
    }
}

pub open spec fn envelope_problem<T: Validate + EventTyped>(e: EventEnvelope<T>) -> Option<
    EventErrorView,
> {
    header_problem(
        e.event_id@,
        e.schema_version@,
        e.produced_by@,
        e.idempotency_key@,
        e.event_type == T::spec_event_type(),
        e.payload.problem(),
    )
}

pub fn validate_envelope<T: Validate + EventTyped>(event: &EventEnvelope<T>) -> (r: Result<
    (),
    EventError,
>)
    ensures
        outcome(r, envelope_problem(*event)),
{
    if blank(event.event_id.as_str()) {
        return Err(EventError::validation("event_id cannot be empty"));
    }
    if !same_text(event.schema_version.as_str(), "v1") {
        return Err(EventError::validation("schema_version must be v1"));
    }
    if blank(event.produced_by.as_str()) {
        return Err(EventError::validation("produced_by cannot be empty"));
    }
    if blank(event.idempotency_key.as_str()) {
        return Err(EventError::validation("idempotency_key cannot be empty"));
    }
    if event.event_type != T::event_type() {
        return Err(EventError::invariant_error("event_type does not match payload type"));
    }
    event.payload.validate()
}

pub proof fn lemma_uuid_text_not_blank(s: Seq<char>)
    requires
        is_hyphenated_uuid_text(s),
    ensures
        !is_blank(s),
{
    assert(s[0] == '0' || !crate::text::is_white_space(s[0]));
}

impl<T: Validate + EventTyped> EventEnvelope<T> {
    /// Stamps a payload with a fresh identifier, the current time and its
    /// idempotency key, and checks the result.
    fn build(
        produced_by: &str,
        aggregate_key: Option<String>,
        linkage: Linkage,
        provenance: Provenance,
        payload: T,
    ) -> (r: Result<Self, EventError>)
        ensures
            match r {
                Ok(e) => {
                    &&& build_problem(produced_by@, payload) is None
                    &&& e.event_type == T::spec_event_type()
                    &&& e.schema_version@ == "v1"@
                    &&& e.produced_by@ == produced_by@
                    &&& e.idempotency_key@ == idempotency_key_of(payload.payload_view())
                    &&& opt_view(e.aggregate_key) == opt_view(aggregate_key)
                    &&& e.linkage@ == linkage@
                    &&& e.provenance@ == provenance@
                    &&& e.payload == payload
                    &&& is_hyphenated_uuid_text(e.event_id@)
                    &&& uuid_text_parses(e.event_id@)
                    &&& compact_utc_text(e.occurred_at.seconds, e.occurred_at.nanos) is Some
                },
                Err(err) => build_problem(produced_by@, payload) == Some(err@),
            },
    {
        let event = EventEnvelope {
            event_id: new_uuid_text(),
            event_type: T::event_type(),
            schema_version: owned("v1"),
            occurred_at: now(),
            produced_by: owned(produced_by),
            idempotency_key: payload.idempotency_key(),
            aggregate_key,
            linkage,
            provenance,
            payload,
        };
        proof {
            lemma_uuid_text_not_blank(event.event_id@);
        }
        validate_envelope(&event)?;
        Ok(event)
    }

    pub fn validate(&self) -> (r: Result<(), EventError>)
        ensures
            outcome(r, envelope_problem(*self)),
    {
        validate_envelope(self)
    }
}

/// The first rule a freshly stamped envelope breaks: the producer must be
/// named, the idempotency key must not be blank, and the payload must pass.
pub open spec fn build_problem<T: Validate + EventTyped>(produced_by: Seq<char>, payload: T) -> Option<
    EventErrorView,
> {
    if is_blank(produced_by) {
        Some(EventErrorView::Validation("produced_by cannot be empty"@))
    } else if is_blank(idempotency_key_of(payload.payload_view())) {
        Some(EventErrorView::Validation("idempotency_key cannot be empty"@))
    } else {
        payload.problem()
    }
}

impl EventEnvelope<HypothesisGenerated> {
    pub fn new_hypothesis_generated(
        produced_by: &str,
        aggregate_key: Option<String>,
        linkage: Linkage,
        provenance: Provenance,
        payload: HypothesisGenerated,
    ) -> (r: Result<Self, EventError>)
        ensures
            match r {
                Ok(e) => built(e, produced_by@, aggregate_key, linkage, provenance, payload),
                Err(err) => build_problem(produced_by@, payload) == Some(err@),
            },
    {
        Self::build(produced_by, aggregate_key, linkage, provenance, payload)
    }
}

impl EventEnvelope<SignalGenerated> {
    pub fn new_signal_generated(
        produced_by: &str,
        aggregate_key: Option<String>,
        linkage: Linkage,
        provenance: Provenance,
        payload: SignalGenerated,
    ) -> (r: Result<Self, EventError>)
        ensures
            match r {
                Ok(e) => built(e, produced_by@, aggregate_key, linkage, provenance, payload),
                Err(err) => build_problem(produced_by@, payload) == Some(err@),
            },
    {
        Self::build(produced_by, aggregate_key, linkage, provenance, payload)
    }
}

impl EventEnvelope<SignalConfirmed> {
    pub fn new_signal_confirmed(
        produced_by: &str,
        aggregate_key: Option<String>,
        linkage: Linkage,
        provenance: Provenance,
        payload: SignalConfirmed,
    ) -> (r: Result<Self, EventError>)
        ensures
            match r {
                Ok(e) => built(e, produced_by@, aggregate_key, linkage, provenance, payload),
                Err(err) => build_problem(produced_by@, payload) == Some(err@),
            },
    {
        Self::build(produced_by, aggregate_key, linkage, provenance, payload)
    }
}

impl EventEnvelope<VetoRaised> {
    pub fn new_veto_raised(
        produced_by: &str,
        aggregate_key: Option<String>,
        linkage: Linkage,
        provenance: Provenance,
        payload: VetoRaised,
    ) -> (r: Result<Self, EventError>)
        ensures
            match r {
                Ok(e) => built(e, produced_by@, aggregate_key, linkage, provenance, payload),
                Err(err) => build_problem(produced_by@, payload) == Some(err@),
            },
    {
        Self::build(produced_by, aggregate_key, linkage, provenance, payload)
    }
}

impl EventEnvelope<DecisionFormed> {
    pub fn new_decision_formed(
        produced_by: &str,
        aggregate_key: Option<String>,
        linkage: Linkage,
        provenance: Provenance,
        payload: DecisionFormed,
    ) -> (r: Result<Self, EventError>)
        ensures
            match r {
                Ok(e) => built(e, produced_by@, aggregate_key, linkage, provenance, payload),
                Err(err) => build_problem(produced_by@, payload) == Some(err@),
            },
    {
        Self::build(produced_by, aggregate_key, linkage, provenance, payload)
    }
}

impl EventEnvelope<OrderRegistered> {
    pub fn new_order_registered(
        produced_by: &str,
        aggregate_key: Option<String>,
        linkage: Linkage,
        provenance: Provenance,
        payload: OrderRegistered,
    ) -> (r: Result<Self, EventError>)
        ensures
            match r {
                Ok(e) => built(e, produced_by@, aggregate_key, linkage, provenance, payload),
                Err(err) => build_problem(produced_by@, payload) == Some(err@),
            },
    {
        Self::build(produced_by, aggregate_key, linkage, provenance, payload)
    }
}

impl EventEnvelope<OrderSubmitted> {
    pub fn new_order_submitted(
        produced_by: &str,
        aggregate_key: Option<String>,
        linkage: Linkage,
        provenance: Provenance,
        payload: OrderSubmitted,
    ) -> (r: Result<Self, EventError>)
        ensures
            match r {
                Ok(e) => built(e, produced_by@, aggregate_key, linkage, provenance, payload),
                Err(err) => build_problem(produced_by@, payload) == Some(err@),
            },
    {
        Self::build(produced_by, aggregate_key, linkage, provenance, payload)
    }
}

impl EventEnvelope<FillReceived> {
    pub fn new_fill_received(
        produced_by: &str,
        aggregate_key: Option<String>,
        linkage: Linkage,
        provenance: Provenance,
        payload: FillReceived,
    ) -> (r: Result<Self, EventError>)
        ensures
            match r {
                Ok(e) => built(e, produced_by@, aggregate_key, linkage, provenance, payload),
                Err(err) => build_problem(produced_by@, payload) == Some(err@),
            },
    {
        Self::build(produced_by, aggregate_key, linkage, provenance, payload)
    }
}

/// What a successful build holds: every field given, the payload's kind and
/// key, schema `v1`, a fresh hyphenated UUID as identifier, and as time of
/// occurrence the time of the build, an instant chrono can represent.
pub open spec fn built<T: Validate + EventTyped>(
    e: EventEnvelope<T>,
    produced_by: Seq<char>,
    aggregate_key: Option<String>,
    linkage: Linkage,
    provenance: Provenance,
    payload: T,
) -> bool {
    &&& build_problem(produced_by, payload) is None
    &&& e.event_type == T::spec_event_type()
    &&& e.schema_version@ == "v1"@
    &&& e.produced_by@ == produced_by
    &&& e.idempotency_key@ == idempotency_key_of(payload.payload_view())
    &&& opt_view(e.aggregate_key) == opt_view(aggregate_key)
    &&& e.linkage@ == linkage@
    &&& e.provenance@ == provenance@
    &&& e.payload == payload
    &&& is_hyphenated_uuid_text(e.event_id@)
    &&& uuid_text_parses(e.event_id@)
    &&& compact_utc_text(e.occurred_at.seconds, e.occurred_at.nanos) is Some
}

} // verus!
