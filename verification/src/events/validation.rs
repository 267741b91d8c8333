//! The checks an event must pass: required and optional texts, identifier
//! components, ranges of numbers, and the rules of each payload.
use vstd::prelude::*;
use vstd::string::*;

use crate::events::error::{EventError, EventErrorView};
use crate::events::types::{
    is_positive_finite, is_unit_interval, Binary64, DecisionFormed, EventPayload, FillReceived,
    HypothesisGenerated, Linkage, LinkageView, OrderRegistered, OrderSubmitted, OrderView,
    PayloadView, Provenance, ProvenanceView, SignalConfirmed, SignalGenerated, VetoRaised,
};
use crate::text::{blank, is_blank, owned};

verus! {

/// The first problem of two checks run in order.
pub open spec fn first_problem(
    a: Option<EventErrorView>,
    b: Option<EventErrorView>,
) -> Option<EventErrorView> {
    if a is Some {
        a
    } else {
        b
    }
}

pub open spec fn required_problem(value: Seq<char>, field: Seq<char>) -> Option<EventErrorView> {
    if is_blank(value) {
        Some(EventErrorView::Validation(field + " cannot be empty"@))
    } else {
        None
    }
}

pub open spec fn optional_problem(value: Option<Seq<char>>, field: Seq<char>) -> Option<
    EventErrorView,
> {
    match value {
        Some(v) => if is_blank(v) {
            Some(EventErrorView::Validation(field + " cannot be blank when provided"@))
        } else {
            None
        },
        None => None,
    }
}

/// Identifier components are joined with `:` into idempotency keys, so they
/// must be present and free of `:`.
pub open spec fn component_problem(value: Seq<char>, field: Seq<char>) -> Option<EventErrorView> {
    if is_blank(value) {
        Some(EventErrorView::Validation(field + " cannot be empty"@))
    } else if value.contains(':') {
        Some(EventErrorView::Validation(field + " cannot contain ':'"@))
    } else {
        None
    }
}

pub open spec fn positive_problem(value: Binary64, field: Seq<char>) -> Option<EventErrorView> {
    if is_positive_finite(value) {
        None
    } else {
        Some(EventErrorView::Validation(field + " must be a positive finite number"@))
    }
}

pub open spec fn probability_problem(value: Binary64, field: Seq<char>) -> Option<EventErrorView> {
    if is_unit_interval(value) {
        None
    } else {
        Some(EventErrorView::Validation(field + " must be in [0,1]"@))
    }
}

pub open spec fn optional_probability_problem(value: Option<Binary64>, field: Seq<char>) -> Option<
    EventErrorView,
> {
    match value {
        Some(v) => probability_problem(v, field),
        None => None,
    }
}

pub open spec fn optional_positive_problem(value: Option<Binary64>, field: Seq<char>) -> Option<
    EventErrorView,
> {
    match value {
        Some(v) => positive_problem(v, field),
        None => None,
    }
}

pub open spec fn optional_component_problem(value: Option<Seq<char>>, field: Seq<char>) -> Option<
    EventErrorView,
> {
    match value {
        Some(v) => component_problem(v, field),
        None => None,
    }
}

/// The first rule a payload breaks, in the order the checks run.
pub open spec fn payload_problem(p: PayloadView) -> Option<EventErrorView> {
    match p {
        PayloadView::HypothesisGenerated(h) => first_problem(
            component_problem(h.hypothesis_id, "hypothesis_id"@),
            first_problem(
                required_problem(h.instrument, "instrument"@),
                first_problem(
                    required_problem(h.timeframe, "timeframe"@),
                    first_problem(
                        required_problem(h.thesis, "thesis"@),
                        first_problem(
                            optional_problem(h.direction_hint, "direction_hint"@),
                            optional_probability_problem(h.confidence, "confidence"@),
                        ),
                    ),
                ),
            ),
        ),
        PayloadView::SignalGenerated(s) => first_problem(
            required_problem(s.signal_id, "signal_id"@),
            first_problem(
                required_problem(s.instrument, "instrument"@),
                first_problem(
                    required_problem(s.timeframe, "timeframe"@),
                    probability_problem(s.strength, "strength"@),
                ),
            ),
        ),
        PayloadView::SignalConfirmed(c) => first_problem(
            component_problem(c.signal_id, "signal_id"@),
            first_problem(
                component_problem(c.confirmed_by, "confirmed_by"@),
                first_problem(
                    optional_problem(c.confirmation_reason, "confirmation_reason"@),
                    optional_probability_problem(c.confirmation_score, "confirmation_score"@),
                ),
            ),
        ),
        PayloadView::VetoRaised(v) => first_problem(
            component_problem(v.veto_id, "veto_id"@),
            first_problem(
                required_problem(v.target_id, "target_id"@),
                first_problem(
                    required_problem(v.reason_code, "reason_code"@),
                    first_problem(
                        optional_problem(v.reason_text, "reason_text"@),
                        required_problem(v.raised_by, "raised_by"@),
                    ),
                ),
            ),
        ),
        PayloadView::DecisionFormed(d) => first_problem(
            component_problem(d.decision_id, "decision_id"@),
            first_problem(
                required_problem(d.instrument, "instrument"@),
                first_problem(
                    optional_problem(d.rationale, "rationale"@),
                    optional_positive_problem(d.size_hint, "size_hint"@),
                ),
            ),
        ),
        PayloadView::OrderRegistered(o) => order_problem(o),
        PayloadView::OrderSubmitted(o) => order_problem(o),
        PayloadView::FillReceived(f) => first_problem(
            component_problem(f.fill_id, "fill_id"@),
            first_problem(
                optional_problem(f.decision_id, "decision_id"@),
                first_problem(
                    component_problem(f.order_id, "order_id"@),
                    first_problem(
                        required_problem(f.instrument, "instrument"@),
                        first_problem(
                            component_problem(f.venue, "venue"@),
                            first_problem(
                                positive_problem(f.quantity, "quantity"@),
                                positive_problem(f.price, "price"@),
                            ),
                        ),
                    ),
                ),
            ),
        ),
    }
}

pub open spec fn order_problem(o: OrderView) -> Option<EventErrorView> {
    first_problem(
        component_problem(o.order_id, "order_id"@),
        first_problem(
            optional_problem(o.decision_id, "decision_id"@),
            first_problem(
                optional_component_problem(o.decision_id, "decision_id"@),
                first_problem(
                    required_problem(o.instrument, "instrument"@),
                    component_problem(o.venue, "venue"@),
                ),
            ),
        ),
    )
}

pub open spec fn provenance_problem(p: ProvenanceView) -> Option<EventErrorView> {
    first_problem(
        optional_problem(p.source_ref, "provenance.source_ref"@),
        first_problem(
            optional_problem(p.producer_run_id, "provenance.producer_run_id"@),
            first_problem(
                optional_problem(p.actor, "provenance.actor"@),
                first_problem(
                    optional_problem(p.trace_id, "provenance.trace_id"@),
                    optional_problem(p.notes, "provenance.notes"@),
                ),
            ),
        ),
    )
}

pub open spec fn linkage_problem(l: LinkageView) -> Option<EventErrorView> {
    first_problem(
        optional_problem(l.hypothesis_id, "linkage.hypothesis_id"@),
        first_problem(
            optional_problem(l.signal_id, "linkage.signal_id"@),
            first_problem(
                optional_problem(l.decision_id, "linkage.decision_id"@),
                first_problem(
                    optional_problem(l.order_id, "linkage.order_id"@),
                    first_problem(
                        optional_problem(l.position_id, "linkage.position_id"@),
                        first_problem(
                            optional_problem(l.parent_event_id, "linkage.parent_event_id"@),
                            optional_problem(l.correlation_id, "linkage.correlation_id"@),
                        ),
                    ),
                ),
            ),
        ),
    )
}

pub open spec fn outcome(r: Result<(), EventError>, problem: Option<EventErrorView>) -> bool {
    match r {
        Ok(_) => problem is None,
        Err(e) => problem == Some(e@),
    }
}

fn field_message(field: &str, suffix: &str) -> (r: EventError)
    ensures
        r@ == EventErrorView::Validation(field@ + suffix@),
{
    let mut m = owned(field);
    m.append(suffix);
    EventError::ValidationError(m)
}

pub fn validate_required_string(value: &str, field: &str) -> (r: Result<(), EventError>)
    ensures
        outcome(r, required_problem(value@, field@)),
{
    if blank(value) {
        return Err(field_message(field, " cannot be empty"));
    }
    Ok(())
}

pub fn validate_optional_string(value: Option<&str>, field: &str) -> (r: Result<(), EventError>)
    ensures
        outcome(
            r,
            optional_problem(
                match value {
                    Some(v) => Some(v@),
                    None => None,
                },
                field@,
            ),
        ),
{
    if let Some(v) = value {
        if blank(v) {
            return Err(field_message(field, " cannot be blank when provided"));
        }
    }
    Ok(())
}

fn validate_optional(value: &Option<String>, field: &str) -> (r: Result<(), EventError>)
    ensures
        outcome(r, optional_problem(crate::text::opt_view(*value), field@)),
{
    match value {
        Some(v) => validate_optional_string(Some(v.as_str()), field),
        None => validate_optional_string(None, field),
    }
}

fn contains_colon(value: &str) -> (r: bool)
    ensures
        r == value@.contains(':'),
{
    let n = value.unicode_len();
    let mut i: usize = 0;
    while i < n
        invariant
            n == value@.len(),
            i <= n,
            forall|j: int| 0 <= j < i ==> value@[j] != ':',
        decreases n - i,
    {
        if value.get_char(i) == ':' {
            assert(value@[i as int] == ':');
            return true;
        }
        i = i + 1;
    }
    false
}

pub fn validate_idempotency_component(value: &str, field: &str) -> (r: Result<(), EventError>)
    ensures
        outcome(r, component_problem(value@, field@)),
{
    if blank(value) {
        return Err(field_message(field, " cannot be empty"));
    }
    if contains_colon(value) {
        return Err(field_message(field, " cannot contain ':'"));
    }
    Ok(())
}

pub fn validate_positive_finite(value: Binary64, field: &str) -> (r: Result<(), EventError>)
    ensures
        outcome(r, positive_problem(value, field@)),
{
    if !value.positive_finite() {
        return Err(field_message(field, " must be a positive finite number"));
    }
    Ok(())
}

pub fn validate_probability(value: Binary64, field: &str) -> (r: Result<(), EventError>)
    ensures
        outcome(r, probability_problem(value, field@)),
{
    if !value.in_unit_interval() {
        return Err(field_message(field, " must be in [0,1]"));
    }
    Ok(())
}

fn validate_optional_probability(value: Option<Binary64>, field: &str) -> (r: Result<
    (),
    EventError,
>)
    ensures
        outcome(r, optional_probability_problem(value, field@)),
{
    match value {
        Some(v) => validate_probability(v, field),
        None => Ok(()),
    }
}

fn validate_order_fields(
    order_id: &String,
    decision_id: &Option<String>,
    instrument: &String,
    venue: &String,
) -> (r: Result<(), EventError>)
    ensures
        outcome(
            r,
            order_problem(
                OrderView {
                    order_id: order_id@,
                    decision_id: crate::text::opt_view(*decision_id),
                    instrument: instrument@,
                    venue: venue@,
                },
            ),
        ),
{
    validate_idempotency_component(order_id.as_str(), "order_id")?;
    validate_optional(decision_id, "decision_id")?;
    if let Some(d) = decision_id {
        validate_idempotency_component(d.as_str(), "decision_id")?;
    }
    validate_required_string(instrument.as_str(), "instrument")?;
    validate_idempotency_component(venue.as_str(), "venue")?;
    Ok(())
}

/// Something that can be checked against the rules of the log.
pub trait Validate {
    spec fn problem(&self) -> Option<EventErrorView>;

    fn validate(&self) -> (r: Result<(), EventError>)
        ensures
            outcome(r, self.problem()),
    ;
}

impl Validate for Provenance {
    open spec fn problem(&self) -> Option<EventErrorView> {
        provenance_problem(self@)
    }

    fn validate(&self) -> (r: Result<(), EventError>) {
        validate_optional(&self.source_ref, "provenance.source_ref")?;
        validate_optional(&self.producer_run_id, "provenance.producer_run_id")?;
        validate_optional(&self.actor, "provenance.actor")?;
        validate_optional(&self.trace_id, "provenance.trace_id")?;
        validate_optional(&self.notes, "provenance.notes")?;
        Ok(())
    }
}

impl Validate for Linkage {
    open spec fn problem(&self) -> Option<EventErrorView> {
        linkage_problem(self@)
    }

    fn validate(&self) -> (r: Result<(), EventError>) {
        validate_optional(&self.hypothesis_id, "linkage.hypothesis_id")?;
        validate_optional(&self.signal_id, "linkage.signal_id")?;
        validate_optional(&self.decision_id, "linkage.decision_id")?;
        validate_optional(&self.order_id, "linkage.order_id")?;
        validate_optional(&self.position_id, "linkage.position_id")?;
        validate_optional(&self.parent_event_id, "linkage.parent_event_id")?;
        validate_optional(&self.correlation_id, "linkage.correlation_id")?;
        Ok(())
    }
}

impl Validate for HypothesisGenerated {
    open spec fn problem(&self) -> Option<EventErrorView> {
        payload_problem(PayloadView::HypothesisGenerated(self@))
    }

    fn validate(&self) -> (r: Result<(), EventError>) {
        validate_idempotency_component(self.hypothesis_id.as_str(), "hypothesis_id")?;
        validate_required_string(self.instrument.as_str(), "instrument")?;
        validate_required_string(self.timeframe.as_str(), "timeframe")?;
        validate_required_string(self.thesis.as_str(), "thesis")?;
        validate_optional(&self.direction_hint, "direction_hint")?;
        validate_optional_probability(self.confidence, "confidence")?;
        Ok(())
    }
}

impl Validate for SignalGenerated {
    open spec fn problem(&self) -> Option<EventErrorView> {
        payload_problem(PayloadView::SignalGenerated(self@))
    }

    fn validate(&self) -> (r: Result<(), EventError>) {
        validate_required_string(self.signal_id.as_str(), "signal_id")?;
        validate_required_string(self.instrument.as_str(), "instrument")?;
        validate_required_string(self.timeframe.as_str(), "timeframe")?;
        validate_probability(self.strength, "strength")?;
        Ok(())
    }
}

impl Validate for SignalConfirmed {
    open spec fn problem(&self) -> Option<EventErrorView> {
        payload_problem(PayloadView::SignalConfirmed(self@))
    }

    fn validate(&self) -> (r: Result<(), EventError>) {
        validate_idempotency_component(self.signal_id.as_str(), "signal_id")?;
        validate_idempotency_component(self.confirmed_by.as_str(), "confirmed_by")?;
        validate_optional(&self.confirmation_reason, "confirmation_reason")?;
        validate_optional_probability(self.confirmation_score, "confirmation_score")?;
        Ok(())
    }
}

impl Validate for VetoRaised {
    open spec fn problem(&self) -> Option<EventErrorView> {
        payload_problem(PayloadView::VetoRaised(self@))
    }

    fn validate(&self) -> (r: Result<(), EventError>) {
        validate_idempotency_component(self.veto_id.as_str(), "veto_id")?;
        validate_required_string(self.target_id.as_str(), "target_id")?;
        validate_required_string(self.reason_code.as_str(), "reason_code")?;
        validate_optional(&self.reason_text, "reason_text")?;
        validate_required_string(self.raised_by.as_str(), "raised_by")?;
        Ok(())
    }
}

impl Validate for DecisionFormed {
    open spec fn problem(&self) -> Option<EventErrorView> {
        payload_problem(PayloadView::DecisionFormed(self@))
    }

    fn validate(&self) -> (r: Result<(), EventError>) {
        validate_idempotency_component(self.decision_id.as_str(), "decision_id")?;
        validate_required_string(self.instrument.as_str(), "instrument")?;
        validate_optional(&self.rationale, "rationale")?;
        if let Some(size_hint) = self.size_hint {
            validate_positive_finite(size_hint, "size_hint")?;
        }
        Ok(())
    }
}

impl Validate for OrderRegistered {
    open spec fn problem(&self) -> Option<EventErrorView> {
        payload_problem(PayloadView::OrderRegistered(self@))
    }

    fn validate(&self) -> (r: Result<(), EventError>) {
        validate_order_fields(&self.order_id, &self.decision_id, &self.instrument, &self.venue)
    }
}

impl Validate for OrderSubmitted {
    open spec fn problem(&self) -> Option<EventErrorView> {
        payload_problem(PayloadView::OrderSubmitted(self@))
    }

    fn validate(&self) -> (r: Result<(), EventError>) {
        validate_order_fields(&self.order_id, &self.decision_id, &self.instrument, &self.venue)
    }
}

impl Validate for FillReceived {
    open spec fn problem(&self) -> Option<EventErrorView> {
        payload_problem(PayloadView::FillReceived(self@))
    }

    fn validate(&self) -> (r: Result<(), EventError>) {
        validate_idempotency_component(self.fill_id.as_str(), "fill_id")?;
        validate_optional(&self.decision_id, "decision_id")?;
        validate_idempotency_component(self.order_id.as_str(), "order_id")?;
        validate_required_string(self.instrument.as_str(), "instrument")?;
        validate_idempotency_component(self.venue.as_str(), "venue")?;
        validate_positive_finite(self.quantity, "quantity")?;
        validate_positive_finite(self.price, "price")?;
        Ok(())
    }
}

impl Validate for EventPayload {
    open spec fn problem(&self) -> Option<EventErrorView> {
        payload_problem(self@)
    }

    fn validate(&self) -> (r: Result<(), EventError>) {
        match self {
            EventPayload::HypothesisGenerated(p) => p.validate(),
            EventPayload::SignalGenerated(p) => p.validate(),
            EventPayload::SignalConfirmed(p) => p.validate(),
            EventPayload::VetoRaised(p) => p.validate(),
            EventPayload::DecisionFormed(p) => p.validate(),
            EventPayload::OrderRegistered(p) => p.validate(),
            EventPayload::OrderSubmitted(p) => p.validate(),
            EventPayload::FillReceived(p) => p.validate(),
        }
    }
}

} // verus!
