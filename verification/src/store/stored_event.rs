//! The stored form of an event and the checks every stored event passes.
use vstd::prelude::*;
use vstd::string::*;

use crate::events::{
    envelope_problem, event_error_text, event_type_name, idempotency_key_of, linkage_problem,
    payload_kind, payload_problem, provenance_problem, EventEnvelope, EventErrorView, EventPayload,
    EventType, EventTyped, Linkage, LinkageView, PayloadView, Provenance, ProvenanceView,
    Timestamp, Validate, VetoScope,
};
use crate::ids::{uuid_parses, uuid_text_parses};
use crate::store::error::StoreError;
use crate::text::{blank, clone_opt, is_blank, opt_view, owned, same_text};

verus! {

#[derive(Debug, Clone, PartialEq, Eq)]
pub struct StoredEvent {
    pub event_id: String,
    pub event_type: EventType,
    pub schema_version: String,
    pub occurred_at: Timestamp,
    pub produced_by: String,
    pub idempotency_key: String,
    pub aggregate_key: Option<String>,
    pub linkage: Linkage,
    pub provenance: Provenance,
    pub payload: EventPayload,
}

pub struct StoredEventView {
    pub event_id: Seq<char>,
    pub event_type: EventType,
    pub schema_version: Seq<char>,
    pub occurred_at: Timestamp,
    pub produced_by: Seq<char>,
    pub idempotency_key: Seq<char>,
    pub aggregate_key: Option<Seq<char>>,
    pub linkage: LinkageView,
    pub provenance: ProvenanceView,
    pub payload: PayloadView,
}

impl View for StoredEvent {
    type V = StoredEventView;

    open spec fn view(&self) -> StoredEventView {
        StoredEventView {
            event_id: self.event_id@,
            event_type: self.event_type,
            schema_version: self.schema_version@,
            occurred_at: self.occurred_at,
            produced_by: self.produced_by@,
            idempotency_key: self.idempotency_key@,
            aggregate_key: opt_view(self.aggregate_key),
            linkage: self.linkage@,
            provenance: self.provenance@,
            payload: self.payload@,
        }
    }
}

pub open spec fn event_views(s: Seq<StoredEvent>) -> Seq<StoredEventView> {
    s.map_values(|e: StoredEvent| e@)
}

/// A link that both the linkage and the payload carry must agree.
pub open spec fn mismatch_problem(
    linkage_value: Option<Seq<char>>,
    payload_value: Option<Seq<char>>,
    linkage_field: Seq<char>,
    payload_field: Seq<char>,
) -> Option<Seq<char>> {
    match (linkage_value, payload_value) {
        (Some(l), Some(p)) => if l != p {
            Some(linkage_field + " must match "@ + payload_field)
        } else {
            None
        },
        _ => None,
    }
}

pub open spec fn first_text(a: Option<Seq<char>>, b: Option<Seq<char>>) -> Option<Seq<char>> {
    if a is Some {
        a
    } else {
        b
    }
}

pub open spec fn as_text(p: Option<EventErrorView>) -> Option<Seq<char>> {
    match p {
        Some(e) => Some(event_error_text(e)),
        None => None,
    }
}

/// The links of each kind of payload that the linkage must agree with.
pub open spec fn link_problem(l: LinkageView, p: PayloadView) -> Option<Seq<char>> {
    match p {
        PayloadView::HypothesisGenerated(h) => mismatch_problem(
            l.hypothesis_id,
            Some(h.hypothesis_id),
            "linkage.hypothesis_id"@,
            "payload.hypothesis_id"@,
        ),
        PayloadView::SignalGenerated(s) => first_text(
            mismatch_problem(
                l.signal_id,
                Some(s.signal_id),
                "linkage.signal_id"@,
                "payload.signal_id"@,
            ),
            mismatch_problem(
                l.hypothesis_id,
                s.hypothesis_id,
                "linkage.hypothesis_id"@,
                "payload.hypothesis_id"@,
            ),
        ),
        PayloadView::SignalConfirmed(c) => mismatch_problem(
            l.signal_id,
            Some(c.signal_id),
            "linkage.signal_id"@,
            "payload.signal_id"@,
        ),
        PayloadView::VetoRaised(v) => match v.scope {
            VetoScope::Signal => mismatch_problem(
                l.signal_id,
                Some(v.target_id),
                "linkage.signal_id"@,
                "payload.target_id"@,
            ),
            VetoScope::Decision => mismatch_problem(
                l.decision_id,
                Some(v.target_id),
                "linkage.decision_id"@,
                "payload.target_id"@,
            ),
            VetoScope::Order => mismatch_problem(
                l.order_id,
                Some(v.target_id),
                "linkage.order_id"@,
                "payload.target_id"@,
            ),
            VetoScope::Global => None,
        },
        PayloadView::DecisionFormed(d) => mismatch_problem(
            l.decision_id,
            Some(d.decision_id),
            "linkage.decision_id"@,
            "payload.decision_id"@,
        ),
        PayloadView::OrderRegistered(o) => first_text(
            mismatch_problem(
                l.order_id,
                Some(o.order_id),
                "linkage.order_id"@,
                "payload.order_id"@,
            ),
            mismatch_problem(
                l.decision_id,
                o.decision_id,
                "linkage.decision_id"@,
                "payload.decision_id"@,
            ),
        ),
        PayloadView::OrderSubmitted(o) => first_text(
            mismatch_problem(
                l.order_id,
                Some(o.order_id),
                "linkage.order_id"@,
                "payload.order_id"@,
            ),
            mismatch_problem(
                l.decision_id,
                o.decision_id,
                "linkage.decision_id"@,
                "payload.decision_id"@,
            ),
        ),
        PayloadView::FillReceived(f) => first_text(
            mismatch_problem(
                l.order_id,
                Some(f.order_id),
                "linkage.order_id"@,
                "payload.order_id"@,
            ),
            mismatch_problem(
                l.decision_id,
                f.decision_id,
                "linkage.decision_id"@,
                "payload.decision_id"@,
            ),
        ),
    }
}

/// The first rule a stored event breaks, as the text of the store's error.
/// Checked in order: the header texts, the identifier's UUID form, the links
/// and provenance, the payload against its declared kind and its own rules,
/// then the agreement of links carried twice.
pub open spec fn stored_problem(e: StoredEventView) -> Option<Seq<char>> {
    if is_blank(e.event_id) {
        Some("event_id cannot be empty"@)
    } else if !uuid_text_parses(e.event_id) {
        Some("event_id must be a valid UUID"@)
    } else if is_blank(e.schema_version) {
        Some("schema_version cannot be empty"@)
    } else if e.schema_version != "v1"@ {
        Some("schema_version must be v1"@)
    } else if is_blank(e.produced_by) {
        Some("produced_by cannot be empty"@)
    } else if is_blank(e.idempotency_key) {
        Some("idempotency_key cannot be empty"@)
    } else if e.aggregate_key is Some && is_blank(e.aggregate_key->0) {
        Some("aggregate_key cannot be blank when provided"@)
    } else if linkage_problem(e.linkage) is Some {
        as_text(linkage_problem(e.linkage))
    } else if provenance_problem(e.provenance) is Some {
        as_text(provenance_problem(e.provenance))
    } else if payload_kind(e.payload) != e.event_type {
        Some("payload does not match "@ + event_type_name(e.event_type) + " schema"@)
    } else if payload_problem(e.payload) is Some {
        as_text(payload_problem(e.payload))
    } else {
        link_problem(e.linkage, e.payload)
    }
}

/// A stored event is valid exactly when its id is a UUID, its schema is `v1`,
/// its producer and key are not blank, its aggregate key is not blank where
/// given, its links and provenance pass, its payload is of its declared kind
/// and passes its own rules, and the links it carries twice agree.
pub proof fn lemma_stored_event_valid_iff(e: StoredEventView)
    ensures
        stored_problem(e) is None <==> {
            &&& uuid_text_parses(e.event_id)
            &&& e.schema_version == "v1"@
            &&& !is_blank(e.produced_by)
            &&& !is_blank(e.idempotency_key)
            &&& (e.aggregate_key matches Some(k) ==> !is_blank(k))
            &&& linkage_problem(e.linkage) is None
            &&& provenance_problem(e.provenance) is None
            &&& payload_kind(e.payload) == e.event_type
            &&& payload_problem(e.payload) is None
            &&& link_problem(e.linkage, e.payload) is None
        },
{
    if is_blank(e.event_id) {
        crate::ids::lemma_blank_never_parses(e.event_id);
    }
    reveal_strlit("v1");
    crate::text::lemma_not_blank_joined("v1"@, Seq::empty(), 0);
}

fn check_match(
    linkage_value: &Option<String>,
    payload_value: Option<&String>,
    linkage_field: &str,
    payload_field: &str,
) -> (r: Result<(), StoreError>)
    ensures
        match r {
            Ok(_) => mismatch_problem(
                opt_view(*linkage_value),
                match payload_value {
                    Some(p) => Some(p@),
                    None => None,
                },
                linkage_field@,
                payload_field@,
            ) is None,
            Err(err) => mismatch_problem(
                opt_view(*linkage_value),
                match payload_value {
                    Some(p) => Some(p@),
                    None => None,
                },
                linkage_field@,
                payload_field@,
            ) == Some(err@),
        },
{
    if let (Some(l), Some(p)) = (linkage_value, payload_value) {
        if !same_text(l.as_str(), p.as_str()) {
            let mut m = owned(linkage_field);
            m.append(" must match ");
            m.append(payload_field);
            return Err(StoreError::InvalidData(m));
        }
    }
    Ok(())
}

fn check_links(linkage: &Linkage, payload: &EventPayload) -> (r: Result<(), StoreError>)
    ensures
        match r {
            Ok(_) => link_problem(linkage@, payload@) is None,
            Err(err) => link_problem(linkage@, payload@) == Some(err@),
        },
{
    match payload {
        EventPayload::HypothesisGenerated(h) => check_match(
            &linkage.hypothesis_id,
            Some(&h.hypothesis_id),
            "linkage.hypothesis_id",
            "payload.hypothesis_id",
        ),
        EventPayload::SignalGenerated(s) => {
            check_match(
                &linkage.signal_id,
                Some(&s.signal_id),
                "linkage.signal_id",
                "payload.signal_id",
            )?;
            check_match(
                &linkage.hypothesis_id,
                s.hypothesis_id.as_ref(),
                "linkage.hypothesis_id",
                "payload.hypothesis_id",
            )
        },
        EventPayload::SignalConfirmed(c) => check_match(
            &linkage.signal_id,
            Some(&c.signal_id),
            "linkage.signal_id",
            "payload.signal_id",
        ),
        EventPayload::VetoRaised(v) => match v.scope {
            VetoScope::Signal => check_match(
                &linkage.signal_id,
                Some(&v.target_id),
                "linkage.signal_id",
                "payload.target_id",
            ),
            VetoScope::Decision => check_match(
                &linkage.decision_id,
                Some(&v.target_id),
                "linkage.decision_id",
                "payload.target_id",
            ),
            VetoScope::Order => check_match(
                &linkage.order_id,
                Some(&v.target_id),
                "linkage.order_id",
                "payload.target_id",
            ),
            VetoScope::Global => Ok(()),
        },
        EventPayload::DecisionFormed(d) => check_match(
            &linkage.decision_id,
            Some(&d.decision_id),
            "linkage.decision_id",
            "payload.decision_id",
        ),
        EventPayload::OrderRegistered(o) => {
            check_match(
                &linkage.order_id,
                Some(&o.order_id),
                "linkage.order_id",
                "payload.order_id",
            )?;
            check_match(
                &linkage.decision_id,
                o.decision_id.as_ref(),
                "linkage.decision_id",
                "payload.decision_id",
            )
        },
        EventPayload::OrderSubmitted(o) => {
            check_match(
                &linkage.order_id,
                Some(&o.order_id),
                "linkage.order_id",
                "payload.order_id",
            )?;
            check_match(
                &linkage.decision_id,
                o.decision_id.as_ref(),
                "linkage.decision_id",
                "payload.decision_id",
            )
        },
        EventPayload::FillReceived(f) => {
            check_match(
                &linkage.order_id,
                Some(&f.order_id),
                "linkage.order_id",
                "payload.order_id",
            )?;
            check_match(
                &linkage.decision_id,
                f.decision_id.as_ref(),
                "linkage.decision_id",
                "payload.decision_id",
            )
        },
    }
}

fn store_text(message: &str) -> (r: StoreError)
    ensures
        r@ == message@,
{
    StoreError::InvalidData(owned(message))
}

impl StoredEvent {
    pub fn validate(&self) -> (r: Result<(), StoreError>)
        ensures
            match r {
                Ok(_) => stored_problem(self@) is None,
                Err(err) => stored_problem(self@) == Some(err@),
            },
    {
        if blank(self.event_id.as_str()) {
            return Err(store_text("event_id cannot be empty"));
        }
        if !uuid_parses(self.event_id.as_str()) {
            return Err(store_text("event_id must be a valid UUID"));
        }
        if blank(self.schema_version.as_str()) {
            return Err(store_text("schema_version cannot be empty"));
        }
        if !same_text(self.schema_version.as_str(), "v1") {
            return Err(store_text("schema_version must be v1"));
        }
        if blank(self.produced_by.as_str()) {
            return Err(store_text("produced_by cannot be empty"));
        }
        if blank(self.idempotency_key.as_str()) {
            return Err(store_text("idempotency_key cannot be empty"));
        }
        if let Some(a) = &self.aggregate_key {
            if blank(a.as_str()) {
                return Err(store_text("aggregate_key cannot be blank when provided"));
            }
        }
        if let Err(e) = self.linkage.validate() {
            return Err(StoreError::InvalidData(e.to_text()));
        }
        if let Err(e) = self.provenance.validate() {
            return Err(StoreError::InvalidData(e.to_text()));
        }
        if self.payload.kind() != self.event_type {
            let mut m = owned("payload does not match ");
            m.append(self.event_type.as_str());
            m.append(" schema");
            return Err(StoreError::InvalidData(m));
        }
        if let Err(e) = self.payload.validate() {
            return Err(StoreError::InvalidData(e.to_text()));
        }
        check_links(&self.linkage, &self.payload)
    }

    pub fn duplicate(&self) -> (r: Self)
        ensures
            r@ == self@,
    {
        StoredEvent {
            event_id: self.event_id.clone(),
            event_type: self.event_type,
            schema_version: self.schema_version.clone(),
            occurred_at: self.occurred_at,
            produced_by: self.produced_by.clone(),
            idempotency_key: self.idempotency_key.clone(),
            aggregate_key: clone_opt(&self.aggregate_key),
            linkage: self.linkage.duplicate(),
            provenance: self.provenance.duplicate(),
            payload: self.payload.duplicate(),
        }
    }

    /// The stored form of an envelope, checked as the store checks it
    /// (`TryFrom<EventEnvelope<_>>`).
    pub fn from_envelope<T: Validate + EventTyped>(envelope: EventEnvelope<T>) -> (r: Result<
        StoredEvent,
        StoreError,
    >)
        ensures
            match r {
                Ok(s) => s@ == envelope_as_stored(envelope) && stored_problem(s@) is None,
                Err(err) => stored_problem(envelope_as_stored(envelope)) == Some(err@),
            },
    {
        let payload = envelope.payload.to_payload();
        let stored = StoredEvent {
            event_id: envelope.event_id,
            event_type: envelope.event_type,
            schema_version: envelope.schema_version,
            occurred_at: envelope.occurred_at,
            produced_by: envelope.produced_by,
            idempotency_key: envelope.idempotency_key,
            aggregate_key: envelope.aggregate_key,
            linkage: envelope.linkage,
            provenance: envelope.provenance,
            payload,
        };
        stored.validate()?;
        Ok(stored)
    }

    /// Two writes of the same fact: same kind, schema, producer, aggregate,
    /// links and payload.  Identifier, time and provenance may differ.
    pub fn is_contractually_equivalent(&self, other: &Self) -> (r: bool)
        ensures
            r == equivalent(self@, other@),
    {
        let a = self.event_type == other.event_type && same_text(
            self.schema_version.as_str(),
            other.schema_version.as_str(),
        ) && same_text(self.produced_by.as_str(), other.produced_by.as_str());
        if !a {
            return false;
        }
        let b = match (&self.aggregate_key, &other.aggregate_key) {
            (Some(x), Some(y)) => same_text(x.as_str(), y.as_str()),
            (None, None) => true,
            _ => false,
        };
        if !b {
            return false;
        }
        linkage_equal(&self.linkage, &other.linkage) && payload_equal(&self.payload, &other.payload)
    }
}

pub open spec fn envelope_as_stored<T: Validate + EventTyped>(e: EventEnvelope<T>) -> StoredEventView {
    StoredEventView {
        event_id: e.event_id@,
        event_type: e.event_type,
        schema_version: e.schema_version@,
        occurred_at: e.occurred_at,
        produced_by: e.produced_by@,
        idempotency_key: e.idempotency_key@,
        aggregate_key: opt_view(e.aggregate_key),
        linkage: e.linkage@,
        provenance: e.provenance@,
        payload: e.payload.payload_view(),
    }
}

pub open spec fn equivalent(a: StoredEventView, b: StoredEventView) -> bool {
    &&& a.event_type == b.event_type
    &&& a.schema_version == b.schema_version
    &&& a.produced_by == b.produced_by
    &&& a.aggregate_key == b.aggregate_key
    &&& a.linkage == b.linkage
    &&& a.payload == b.payload
}

fn opt_equal(a: &Option<String>, b: &Option<String>) -> (r: bool)
    ensures
        r == (opt_view(*a) == opt_view(*b)),
{
    match (a, b) {
        (Some(x), Some(y)) => same_text(x.as_str(), y.as_str()),
        (None, None) => true,
        _ => false,
    }
}

fn linkage_equal(a: &Linkage, b: &Linkage) -> (r: bool)
    ensures
        r == (a@ == b@),
{
    opt_equal(&a.hypothesis_id, &b.hypothesis_id) && opt_equal(&a.signal_id, &b.signal_id)
        && opt_equal(&a.decision_id, &b.decision_id) && opt_equal(&a.order_id, &b.order_id)
        && opt_equal(&a.position_id, &b.position_id) && opt_equal(
        &a.parent_event_id,
        &b.parent_event_id,
    ) && opt_equal(&a.correlation_id, &b.correlation_id)
}

fn text_equal(a: &String, b: &String) -> (r: bool)
    ensures
        r == (a@ == b@),
{
    same_text(a.as_str(), b.as_str())
}

fn payload_equal(a: &EventPayload, b: &EventPayload) -> (r: bool)
    ensures
        r == (a@ == b@),
{
    match (a, b) {
        (EventPayload::HypothesisGenerated(x), EventPayload::HypothesisGenerated(y)) => {
            text_equal(&x.hypothesis_id, &y.hypothesis_id) && text_equal(
                &x.instrument,
                &y.instrument,
            ) && text_equal(&x.timeframe, &y.timeframe) && text_equal(&x.thesis, &y.thesis)
                && opt_equal(&x.direction_hint, &y.direction_hint) && x.confidence
                == y.confidence
        },
        (EventPayload::SignalGenerated(x), EventPayload::SignalGenerated(y)) => {
            text_equal(&x.signal_id, &y.signal_id) && opt_equal(
                &x.hypothesis_id,
                &y.hypothesis_id,
            ) && text_equal(&x.instrument, &y.instrument) && text_equal(
                &x.timeframe,
                &y.timeframe,
            ) && x.side == y.side && x.strength == y.strength && opt_equal(
                &x.rationale,
                &y.rationale,
            )
        },
        (EventPayload::SignalConfirmed(x), EventPayload::SignalConfirmed(y)) => {
            text_equal(&x.signal_id, &y.signal_id) && text_equal(&x.confirmed_by, &y.confirmed_by)
                && opt_equal(&x.confirmation_reason, &y.confirmation_reason)
                && x.confirmation_score == y.confirmation_score
        },
        (EventPayload::VetoRaised(x), EventPayload::VetoRaised(y)) => {
            text_equal(&x.veto_id, &y.veto_id) && x.scope == y.scope && text_equal(
                &x.target_id,
                &y.target_id,
            ) && text_equal(&x.reason_code, &y.reason_code) && opt_equal(
                &x.reason_text,
                &y.reason_text,
            ) && text_equal(&x.raised_by, &y.raised_by)
        },
        (EventPayload::DecisionFormed(x), EventPayload::DecisionFormed(y)) => {
            text_equal(&x.decision_id, &y.decision_id) && text_equal(&x.instrument, &y.instrument)
                && x.action == y.action && x.side == y.side && x.size_hint == y.size_hint
                && opt_equal(&x.rationale, &y.rationale)
        },
        (EventPayload::OrderRegistered(x), EventPayload::OrderRegistered(y)) => {
            text_equal(&x.order_id, &y.order_id) && opt_equal(&x.decision_id, &y.decision_id)
                && text_equal(&x.instrument, &y.instrument) && text_equal(&x.venue, &y.venue)
        },
        (EventPayload::OrderSubmitted(x), EventPayload::OrderSubmitted(y)) => {
            text_equal(&x.order_id, &y.order_id) && opt_equal(&x.decision_id, &y.decision_id)
                && text_equal(&x.instrument, &y.instrument) && text_equal(&x.venue, &y.venue)
        },
        (EventPayload::FillReceived(x), EventPayload::FillReceived(y)) => {
            text_equal(&x.fill_id, &y.fill_id) && opt_equal(&x.decision_id, &y.decision_id)
                && text_equal(&x.order_id, &y.order_id) && text_equal(
                &x.instrument,
                &y.instrument,
            ) && x.side == y.side && x.quantity == y.quantity && x.price == y.price
                && text_equal(&x.venue, &y.venue) && x.executed_at == y.executed_at
        },
        _ => false,
    }
}

} // verus!
