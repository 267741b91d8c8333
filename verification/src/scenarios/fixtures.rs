//! The scenario fixtures: small, valid event sequences for replays.
use vstd::prelude::*;

use crate::clock::now;
use crate::events::envelope::lemma_uuid_text_not_blank;
use crate::events::{
    Binary64, Timestamp, DecisionAction, DecisionFormed, DecisionFormedView, EventEnvelope, EventType,
    EventTyped, FillReceived, FillReceivedView, FillSide, Linkage, LinkageView, PayloadView,
    Provenance, ProvenanceView, SignalConfirmed, SignalConfirmedView, SignalGenerated,
    SignalGeneratedView, SignalSide, SourceKind, Validate, VetoRaised, VetoRaisedView, VetoScope,
};
use crate::scenarios::{ScenarioError, ScenarioFixture};
use crate::store::stored_event::{envelope_as_stored, stored_problem};
use crate::store::{StoredEvent, StoredEventView};
use crate::text::{is_blank, is_white_space, opt_view, owned, same_text};

verus! {

/// An identifier fit for the fixtures: not blank and free of `:`.
pub open spec fn fixture_text(s: Seq<char>) -> bool {
    !is_blank(s) && !s.contains(':')
}

/// What a fixture states of an event: everything but its identifier, its
/// time and its idempotency key.
pub struct EventShape {
    pub event_type: EventType,
    pub produced_by: Seq<char>,
    pub aggregate_key: Option<Seq<char>>,
    pub linkage: LinkageView,
    pub provenance: ProvenanceView,
    pub payload: PayloadView,
}

pub open spec fn shape_of(e: StoredEventView) -> EventShape {
    EventShape {
        event_type: e.event_type,
        produced_by: e.produced_by,
        aggregate_key: e.aggregate_key,
        linkage: e.linkage,
        provenance: e.provenance,
        payload: e.payload,
    }
}

pub open spec fn fixture_provenance_view() -> ProvenanceView {
    ProvenanceView {
        source_kind: SourceKind::Derived,
        source_ref: Some("scenario://fixtures"@),
        producer_run_id: Some("run-scenario-1"@),
        actor: Some("scenario-fixtures"@),
        trace_id: Some("trace-scenario-1"@),
        notes: None,
    }
}

proof fn lemma_not_blank(s: Seq<char>)
    requires
        s.len() > 0,
        !is_white_space(s[0]),
    ensures
        !is_blank(s),
{
}

fn fixture_provenance() -> (r: Provenance)
    ensures
        r@ == fixture_provenance_view(),
        r.problem() is None,
{
    proof {
        reveal_strlit("scenario://fixtures");
        reveal_strlit("run-scenario-1");
        reveal_strlit("scenario-fixtures");
        reveal_strlit("trace-scenario-1");
        lemma_not_blank("scenario://fixtures"@);
        lemma_not_blank("run-scenario-1"@);
        lemma_not_blank("scenario-fixtures"@);
        lemma_not_blank("trace-scenario-1"@);
    }
    Provenance {
        source_kind: SourceKind::Derived,
        source_ref: Some(owned("scenario://fixtures")),
        producer_run_id: Some(owned("run-scenario-1")),
        actor: Some(owned("scenario-fixtures")),
        trace_id: Some(owned("trace-scenario-1")),
        notes: None,
    }
}

pub open spec fn link_view(
    hypothesis_id: Seq<char>,
    signal_id: Seq<char>,
    decision_id: Option<Seq<char>>,
    order_id: Option<Seq<char>>,
    correlation_id: Seq<char>,
) -> LinkageView {
    LinkageView {
        hypothesis_id: Some(hypothesis_id),
        signal_id: Some(signal_id),
        decision_id,
        order_id,
        position_id: None,
        parent_event_id: None,
        correlation_id: Some(correlation_id),
    }
}

fn fixture_linkage(
    signal_id: &str,
    decision_id: Option<&str>,
    order_id: Option<&str>,
    hypothesis_id: &str,
    correlation_id: &str,
) -> (r: Linkage)
    requires
        fixture_text(signal_id@),
        fixture_text(hypothesis_id@),
        fixture_text(correlation_id@),
        decision_id matches Some(d) ==> fixture_text(d@),
        order_id matches Some(o) ==> fixture_text(o@),
    ensures
        r@ == link_view(
            hypothesis_id@,
            signal_id@,
            match decision_id {
                Some(d) => Some(d@),
                None => None,
            },
            match order_id {
                Some(o) => Some(o@),
                None => None,
            },
            correlation_id@,
        ),
        r.problem() is None,
{
    Linkage {
        hypothesis_id: Some(owned(hypothesis_id)),
        signal_id: Some(owned(signal_id)),
        decision_id: match decision_id {
            Some(d) => Some(owned(d)),
            None => None,
        },
        order_id: match order_id {
            Some(o) => Some(owned(o)),
            None => None,
        },
        position_id: None,
        parent_event_id: None,
        correlation_id: Some(owned(correlation_id)),
    }
}

/// The stored form of an envelope that passes the store's checks.
fn store_checked<T: Validate + EventTyped>(env: EventEnvelope<T>) -> (r: StoredEvent)
    requires
        stored_problem(envelope_as_stored(env)) is None,
    ensures
        r@ == envelope_as_stored(env),
{
    let stored = StoredEvent::from_envelope(env);
    stored.unwrap()
}

pub open spec fn generated_shape(
    signal_id: Seq<char>,
    hypothesis_id: Seq<char>,
    correlation_id: Seq<char>,
    instrument: Seq<char>,
    timeframe: Seq<char>,
    side: SignalSide,
) -> EventShape {
    EventShape {
        event_type: EventType::SignalGenerated,
        produced_by: "signal-engine"@,
        aggregate_key: Some(instrument),
        linkage: link_view(hypothesis_id, signal_id, None, None, correlation_id),
        provenance: fixture_provenance_view(),
        payload: PayloadView::SignalGenerated(
            SignalGeneratedView {
                signal_id,
                hypothesis_id: Some(hypothesis_id),
                instrument,
                timeframe,
                side,
                strength: Binary64 { bits: 0x3fe9_9999_9999_999a },
                rationale: Some("fixture"@),
            },
        ),
    }
}

fn signal_generated(
    signal_id: &str,
    hypothesis_id: &str,
    correlation_id: &str,
    instrument: &str,
    timeframe: &str,
    side: SignalSide,
) -> (r: StoredEvent)
    requires
        fixture_text(signal_id@),
        fixture_text(hypothesis_id@),
        fixture_text(correlation_id@),
        fixture_text(instrument@),
        fixture_text(timeframe@),
    ensures
        shape_of(r@) == generated_shape(
            signal_id@,
            hypothesis_id@,
            correlation_id@,
            instrument@,
            timeframe@,
            side,
        ),
{
    proof {
        reveal_strlit("signal-engine");
        reveal_strlit("fixture");
        reveal_strlit("v1");
        lemma_not_blank("signal-engine"@);
        lemma_not_blank("fixture"@);
        lemma_not_blank("v1"@);
        reveal_strlit("signal.generated:v1:");
        lemma_not_blank("signal.generated:v1:"@ + signal_id@);
    }
    let linkage = fixture_linkage(signal_id, None, None, hypothesis_id, correlation_id);
    let payload = SignalGenerated {
        signal_id: owned(signal_id),
        hypothesis_id: Some(owned(hypothesis_id)),
        instrument: owned(instrument),
        timeframe: owned(timeframe),
        side,
        strength: Binary64 { bits: 0x3fe9_9999_9999_999a },
        rationale: Some(owned("fixture")),
    };
    let r = EventEnvelope::new_signal_generated(
        "signal-engine",
        Some(owned(instrument)),
        linkage,
        fixture_provenance(),
        payload,
    );
    let env = r.unwrap();
    proof {
        lemma_uuid_text_not_blank(env.event_id@);
    }
    store_checked(env)
}

proof fn lemma_joined_fixture_text(a: Seq<char>, b: Seq<char>)
    requires
        a.len() > 0,
        !is_white_space(a[0]),
        !a.contains(':'),
        !b.contains(':'),
    ensures
        fixture_text(a + b),
{
    lemma_not_blank(a + b);
    assert forall|i: int| 0 <= i < (a + b).len() implies (a + b)[i] != ':' by {
        if i < a.len() {
            assert((a + b)[i] == a[i]);
        } else {
            assert((a + b)[i] == b[i - a.len()]);
        }
    }
}

pub open spec fn confirmed_shape(
    signal_id: Seq<char>,
    hypothesis_id: Seq<char>,
    correlation_id: Seq<char>,
    instrument: Seq<char>,
) -> EventShape {
    EventShape {
        event_type: EventType::SignalConfirmed,
        produced_by: "risk-engine"@,
        aggregate_key: Some(instrument),
        linkage: link_view(hypothesis_id, signal_id, None, None, correlation_id),
        provenance: fixture_provenance_view(),
        payload: PayloadView::SignalConfirmed(
            SignalConfirmedView {
                signal_id,
                confirmed_by: "risk-check"@,
                confirmation_reason: Some("validated"@),
                confirmation_score: Some(Binary64 { bits: 0x3fec_cccc_cccc_cccd }),
            },
        ),
    }
}

fn signal_confirmed(
    signal_id: &str,
    hypothesis_id: &str,
    correlation_id: &str,
    instrument: &str,
) -> (r: StoredEvent)
    requires
        fixture_text(signal_id@),
        fixture_text(hypothesis_id@),
        fixture_text(correlation_id@),
        fixture_text(instrument@),
    ensures
        shape_of(r@) == confirmed_shape(signal_id@, hypothesis_id@, correlation_id@, instrument@),
{
    proof {
        reveal_strlit("risk-engine");
        reveal_strlit("risk-check");
        reveal_strlit("validated");
        reveal_strlit("v1");
        reveal_strlit("signal.confirmed:v1:");
        lemma_not_blank("risk-engine"@);
        lemma_not_blank("risk-check"@);
        lemma_not_blank("validated"@);
        lemma_not_blank("v1"@);
        lemma_not_blank("signal.confirmed:v1:"@ + signal_id@ + ":"@ + "risk-check"@);
    }
    let linkage = fixture_linkage(signal_id, None, None, hypothesis_id, correlation_id);
    let payload = SignalConfirmed {
        signal_id: owned(signal_id),
        confirmed_by: owned("risk-check"),
        confirmation_reason: Some(owned("validated")),
        confirmation_score: Some(Binary64 { bits: 0x3fec_cccc_cccc_cccd }),
    };
    let r = EventEnvelope::new_signal_confirmed(
        "risk-engine",
        Some(owned(instrument)),
        linkage,
        fixture_provenance(),
        payload,
    );
    let env = r.unwrap();
    proof {
        lemma_uuid_text_not_blank(env.event_id@);
    }
    store_checked(env)
}

pub open spec fn veto_shape(
    signal_id: Seq<char>,
    hypothesis_id: Seq<char>,
    correlation_id: Seq<char>,
    instrument: Seq<char>,
) -> EventShape {
    EventShape {
        event_type: EventType::VetoRaised,
        produced_by: "risk-engine"@,
        aggregate_key: Some(instrument),
        linkage: link_view(hypothesis_id, signal_id, None, None, correlation_id),
        provenance: fixture_provenance_view(),
        payload: PayloadView::VetoRaised(
            VetoRaisedView {
                veto_id: "veto-"@ + signal_id,
                scope: VetoScope::Signal,
                target_id: signal_id,
                reason_code: "risk_limit"@,
                reason_text: Some("fixture veto"@),
                raised_by: "risk-engine"@,
            },
        ),
    }
}

fn veto_for_signal(
    signal_id: &str,
    hypothesis_id: &str,
    correlation_id: &str,
    instrument: &str,
) -> (r: StoredEvent)
    requires
        fixture_text(signal_id@),
        fixture_text(hypothesis_id@),
        fixture_text(correlation_id@),
        fixture_text(instrument@),
    ensures
        shape_of(r@) == veto_shape(signal_id@, hypothesis_id@, correlation_id@, instrument@),
{
    proof {
        reveal_strlit("risk-engine");
        reveal_strlit("risk_limit");
        reveal_strlit("fixture veto");
        reveal_strlit("veto-");
        reveal_strlit("v1");
        reveal_strlit("veto.raised:v1:");
        lemma_not_blank("risk-engine"@);
        lemma_not_blank("risk_limit"@);
        lemma_not_blank("fixture veto"@);
        lemma_not_blank("v1"@);
        lemma_joined_fixture_text("veto-"@, signal_id@);
        lemma_not_blank("veto.raised:v1:"@ + ("veto-"@ + signal_id@));
    }
    let linkage = fixture_linkage(signal_id, None, None, hypothesis_id, correlation_id);
    let mut veto_id = owned("veto-");
    veto_id.append(signal_id);
    let payload = VetoRaised {
        veto_id,
        scope: VetoScope::Signal,
        target_id: owned(signal_id),
        reason_code: owned("risk_limit"),
        reason_text: Some(owned("fixture veto")),
        raised_by: owned("risk-engine"),
    };
    let r = EventEnvelope::new_veto_raised(
        "risk-engine",
        Some(owned(instrument)),
        linkage,
        fixture_provenance(),
        payload,
    );
    let env = r.unwrap();
    proof {
        lemma_uuid_text_not_blank(env.event_id@);
    }
    store_checked(env)
}

pub open spec fn decision_shape(
    signal_id: Seq<char>,
    decision_id: Seq<char>,
    hypothesis_id: Seq<char>,
    correlation_id: Seq<char>,
    instrument: Seq<char>,
    side: SignalSide,
) -> EventShape {
    EventShape {
        event_type: EventType::DecisionFormed,
        produced_by: "decision-engine"@,
        aggregate_key: Some(instrument),
        linkage: link_view(hypothesis_id, signal_id, Some(decision_id), None, correlation_id),
        provenance: fixture_provenance_view(),
        payload: PayloadView::DecisionFormed(
            DecisionFormedView {
                decision_id,
                instrument,
                action: DecisionAction::Enter,
                side: Some(side),
                size_hint: Some(Binary64 { bits: 0x3ff0_0000_0000_0000 }),
                rationale: Some("fixture decision"@),
            },
        ),
    }
}

fn decision_formed(
    signal_id: &str,
    decision_id: &str,
    hypothesis_id: &str,
    correlation_id: &str,
    instrument: &str,
    side: SignalSide,
) -> (r: StoredEvent)
    requires
        fixture_text(signal_id@),
        fixture_text(decision_id@),
        fixture_text(hypothesis_id@),
        fixture_text(correlation_id@),
        fixture_text(instrument@),
    ensures
        shape_of(r@) == decision_shape(
            signal_id@,
            decision_id@,
            hypothesis_id@,
            correlation_id@,
            instrument@,
            side,
        ),
{
    proof {
        reveal_strlit("decision-engine");
        reveal_strlit("fixture decision");
        reveal_strlit("v1");
        reveal_strlit("decision.formed:v1:");
        lemma_not_blank("decision-engine"@);
        lemma_not_blank("fixture decision"@);
        lemma_not_blank("v1"@);
        lemma_not_blank("decision.formed:v1:"@ + decision_id@);
    }
    let linkage = fixture_linkage(signal_id, Some(decision_id), None, hypothesis_id, correlation_id);
    let payload = DecisionFormed {
        decision_id: owned(decision_id),
        instrument: owned(instrument),
        action: DecisionAction::Enter,
        side: Some(side),
        size_hint: Some(Binary64 { bits: 0x3ff0_0000_0000_0000 }),
        rationale: Some(owned("fixture decision")),
    };
    let r = EventEnvelope::new_decision_formed(
        "decision-engine",
        Some(owned(instrument)),
        linkage,
        fixture_provenance(),
        payload,
    );
    let env = r.unwrap();
    proof {
        lemma_uuid_text_not_blank(env.event_id@);
    }
    store_checked(env)
}

/// When a stored fill was executed.
pub open spec fn fill_time(e: StoredEventView) -> Timestamp {
    match e.payload {
        PayloadView::FillReceived(f) => f.executed_at,
        _ => Timestamp { seconds: 0, nanos: 0 },
    }
}

pub open spec fn fill_shape(
    signal_id: Seq<char>,
    decision_id: Seq<char>,
    order_id: Seq<char>,
    fill_id: Seq<char>,
    hypothesis_id: Seq<char>,
    correlation_id: Seq<char>,
    instrument: Seq<char>,
    quantity: Binary64,
    price: Binary64,
    executed_at: Timestamp,
) -> EventShape {
    EventShape {
        event_type: EventType::FillReceived,
        produced_by: "execution-gateway"@,
        aggregate_key: Some(instrument),
        linkage: link_view(hypothesis_id, signal_id, Some(decision_id), Some(order_id), correlation_id),
        provenance: fixture_provenance_view(),
        payload: PayloadView::FillReceived(
            FillReceivedView {
                fill_id,
                decision_id: Some(decision_id),
                order_id,
                instrument,
                side: FillSide::Buy,
                quantity,
                price,
                venue: "binance"@,
                executed_at,
            },
        ),
    }
}

fn fill_received(
    signal_id: &str,
    decision_id: &str,
    order_id: &str,
    fill_id: &str,
    hypothesis_id: &str,
    correlation_id: &str,
    instrument: &str,
    quantity: Binary64,
    price: Binary64,
) -> (r: StoredEvent)
    requires
        fixture_text(signal_id@),
        fixture_text(decision_id@),
        fixture_text(order_id@),
        fixture_text(fill_id@),
        fixture_text(hypothesis_id@),
        fixture_text(correlation_id@),
        fixture_text(instrument@),
        crate::events::is_positive_finite(quantity),
        crate::events::is_positive_finite(price),
    ensures
        shape_of(r@) == fill_shape(
            signal_id@,
            decision_id@,
            order_id@,
            fill_id@,
            hypothesis_id@,
            correlation_id@,
            instrument@,
            quantity,
            price,
            fill_time(r@),
        ),
{
    proof {
        reveal_strlit("execution-gateway");
        reveal_strlit("binance");
        reveal_strlit("v1");
        reveal_strlit("fill.received:v1:");
        lemma_not_blank("execution-gateway"@);
        lemma_not_blank("binance"@);
        lemma_not_blank("v1"@);
        lemma_not_blank("fill.received:v1:"@ + "binance"@ + ":"@ + order_id@ + ":"@ + fill_id@);
    }
    let linkage = fixture_linkage(
        signal_id,
        Some(decision_id),
        Some(order_id),
        hypothesis_id,
        correlation_id,
    );
    let payload = FillReceived {
        fill_id: owned(fill_id),
        decision_id: Some(owned(decision_id)),
        order_id: owned(order_id),
        instrument: owned(instrument),
        side: FillSide::Buy,
        quantity,
        price,
        venue: owned("binance"),
        executed_at: now(),
    };
    let r = EventEnvelope::new_fill_received(
        "execution-gateway",
        Some(owned(instrument)),
        linkage,
        fixture_provenance(),
        payload,
    );
    let env = r.unwrap();
    proof {
        lemma_uuid_text_not_blank(env.event_id@);
    }
    store_checked(env)
}

/// A signal that is confirmed, forms a decision and receives a fill.
pub open spec fn is_confirmed_then_filled(f: ScenarioFixture) -> bool {
    let e = f.events@;
    &&& f.name@ == "confirmed_then_filled_signal"@
    &&& opt_view(f.description) == Some("Signal confirmado que forma decisión y recibe un fill"@)
    &&& e.len() == 4
    &&& shape_of(e[0]@) == generated_shape(
        "sig-confirmed-1"@,
        "hyp-confirmed-1"@,
        "corr-confirmed-1"@,
        "BTCUSDT"@,
        "1h"@,
        SignalSide::Long,
    )
    &&& shape_of(e[1]@) == confirmed_shape(
        "sig-confirmed-1"@,
        "hyp-confirmed-1"@,
        "corr-confirmed-1"@,
        "BTCUSDT"@,
    )
    &&& shape_of(e[2]@) == decision_shape(
        "sig-confirmed-1"@,
        "dec-confirmed-1"@,
        "hyp-confirmed-1"@,
        "corr-confirmed-1"@,
        "BTCUSDT"@,
        SignalSide::Long,
    )
    &&& shape_of(e[3]@) == fill_shape(
        "sig-confirmed-1"@,
        "dec-confirmed-1"@,
        "ord-confirmed-1"@,
        "fill-confirmed-1"@,
        "hyp-confirmed-1"@,
        "corr-confirmed-1"@,
        "BTCUSDT"@,
        Binary64 { bits: 0x3ff8_0000_0000_0000 },
        Binary64 { bits: 0x4059_4000_0000_0000 },
        fill_time(e[3]@),
    )
}

/// A signal that is confirmed, forms a decision and receives a fill.
pub fn confirmed_then_filled_signal() -> (r: ScenarioFixture)
    ensures
        is_confirmed_then_filled(r),
{
    proof {
        reveal_strlit("sig-confirmed-1");
        lemma_not_blank("sig-confirmed-1"@);
        assert(fixture_text("sig-confirmed-1"@));
        reveal_strlit("hyp-confirmed-1");
        lemma_not_blank("hyp-confirmed-1"@);
        assert(fixture_text("hyp-confirmed-1"@));
        reveal_strlit("corr-confirmed-1");
        lemma_not_blank("corr-confirmed-1"@);
        assert(fixture_text("corr-confirmed-1"@));
        reveal_strlit("BTCUSDT");
        lemma_not_blank("BTCUSDT"@);
        assert(fixture_text("BTCUSDT"@));
        reveal_strlit("1h");
        lemma_not_blank("1h"@);
        assert(fixture_text("1h"@));
        reveal_strlit("dec-confirmed-1");
        lemma_not_blank("dec-confirmed-1"@);
        assert(fixture_text("dec-confirmed-1"@));
        reveal_strlit("ord-confirmed-1");
        lemma_not_blank("ord-confirmed-1"@);
        assert(fixture_text("ord-confirmed-1"@));
        reveal_strlit("fill-confirmed-1");
        lemma_not_blank("fill-confirmed-1"@);
        assert(fixture_text("fill-confirmed-1"@));
    }
    let events = vec![
        signal_generated(
            "sig-confirmed-1",
            "hyp-confirmed-1",
            "corr-confirmed-1",
            "BTCUSDT",
            "1h",
            SignalSide::Long,
        ),
        signal_confirmed("sig-confirmed-1", "hyp-confirmed-1", "corr-confirmed-1", "BTCUSDT"),
        decision_formed(
            "sig-confirmed-1",
            "dec-confirmed-1",
            "hyp-confirmed-1",
            "corr-confirmed-1",
            "BTCUSDT",
            SignalSide::Long,
        ),
        fill_received(
            "sig-confirmed-1",
            "dec-confirmed-1",
            "ord-confirmed-1",
            "fill-confirmed-1",
            "hyp-confirmed-1",
            "corr-confirmed-1",
            "BTCUSDT",
            Binary64 { bits: 0x3ff8_0000_0000_0000 },
            Binary64 { bits: 0x4059_4000_0000_0000 },
        ),
    ];
    ScenarioFixture {
        name: owned("confirmed_then_filled_signal"),
        description: Some(owned("Signal confirmado que forma decisión y recibe un fill")),
        events,
    }
}

/// A vetoed signal whose decision has no fills.
pub open spec fn is_vetoed_without_fill(f: ScenarioFixture) -> bool {
    let e = f.events@;
    &&& f.name@ == "vetoed_signal_without_fill"@
    &&& opt_view(f.description) == Some("Signal vetada con decisión sin fills"@)
    &&& e.len() == 3
    &&& shape_of(e[0]@) == generated_shape(
        "sig-vetoed-1"@,
        "hyp-vetoed-1"@,
        "corr-vetoed-1"@,
        "ETHUSDT"@,
        "4h"@,
        SignalSide::Short,
    )
    &&& shape_of(e[1]@) == veto_shape(
        "sig-vetoed-1"@,
        "hyp-vetoed-1"@,
        "corr-vetoed-1"@,
        "ETHUSDT"@,
    )
    &&& shape_of(e[2]@) == decision_shape(
        "sig-vetoed-1"@,
        "dec-vetoed-1"@,
        "hyp-vetoed-1"@,
        "corr-vetoed-1"@,
        "ETHUSDT"@,
        SignalSide::Short,
    )
}

/// A vetoed signal whose decision has no fills.
pub fn vetoed_signal_without_fill() -> (r: ScenarioFixture)
    ensures
        is_vetoed_without_fill(r),
{
    proof {
        reveal_strlit("sig-vetoed-1");
        lemma_not_blank("sig-vetoed-1"@);
        assert(fixture_text("sig-vetoed-1"@));
        reveal_strlit("hyp-vetoed-1");
        lemma_not_blank("hyp-vetoed-1"@);
        assert(fixture_text("hyp-vetoed-1"@));
        reveal_strlit("corr-vetoed-1");
        lemma_not_blank("corr-vetoed-1"@);
        assert(fixture_text("corr-vetoed-1"@));
        reveal_strlit("ETHUSDT");
        lemma_not_blank("ETHUSDT"@);
        assert(fixture_text("ETHUSDT"@));
        reveal_strlit("4h");
        lemma_not_blank("4h"@);
        assert(fixture_text("4h"@));
        reveal_strlit("dec-vetoed-1");
        lemma_not_blank("dec-vetoed-1"@);
        assert(fixture_text("dec-vetoed-1"@));
    }
    let events = vec![
        signal_generated(
            "sig-vetoed-1",
            "hyp-vetoed-1",
            "corr-vetoed-1",
            "ETHUSDT",
            "4h",
            SignalSide::Short,
        ),
        veto_for_signal("sig-vetoed-1", "hyp-vetoed-1", "corr-vetoed-1", "ETHUSDT"),
        decision_formed(
            "sig-vetoed-1",
            "dec-vetoed-1",
            "hyp-vetoed-1",
            "corr-vetoed-1",
            "ETHUSDT",
            SignalSide::Short,
        ),
    ];
    ScenarioFixture {
        name: owned("vetoed_signal_without_fill"),
        description: Some(owned("Signal vetada con decisión sin fills")),
        events,
    }
}

/// A decision with two fills on the same order.
pub open spec fn is_decision_with_multiple_fills(f: ScenarioFixture) -> bool {
    let e = f.events@;
    &&& f.name@ == "decision_with_multiple_fills"@
    &&& opt_view(f.description) == Some("Decisión con dos fills sobre la misma orden"@)
    &&& e.len() == 4
    &&& shape_of(e[0]@) == generated_shape(
        "sig-multi-fill-1"@,
        "hyp-multi-fill-1"@,
        "corr-multi-fill-1"@,
        "SOLUSDT"@,
        "15m"@,
        SignalSide::Long,
    )
    &&& shape_of(e[1]@) == decision_shape(
        "sig-multi-fill-1"@,
        "dec-multi-fill-1"@,
        "hyp-multi-fill-1"@,
        "corr-multi-fill-1"@,
        "SOLUSDT"@,
        SignalSide::Long,
    )
    &&& shape_of(e[2]@) == fill_shape(
        "sig-multi-fill-1"@,
        "dec-multi-fill-1"@,
        "ord-multi-fill-1"@,
        "fill-multi-fill-1"@,
        "hyp-multi-fill-1"@,
        "corr-multi-fill-1"@,
        "SOLUSDT"@,
        Binary64 { bits: 0x4000_0000_0000_0000 },
        Binary64 { bits: 0x4059_0000_0000_0000 },
        fill_time(e[2]@),
    )
    &&& shape_of(e[3]@) == fill_shape(
        "sig-multi-fill-1"@,
        "dec-multi-fill-1"@,
        "ord-multi-fill-1"@,
        "fill-multi-fill-2"@,
        "hyp-multi-fill-1"@,
        "corr-multi-fill-1"@,
        "SOLUSDT"@,
        Binary64 { bits: 0x3ff0_0000_0000_0000 },
        Binary64 { bits: 0x405a_8000_0000_0000 },
        fill_time(e[3]@),
    )
}

/// A decision with two fills on the same order.
pub fn decision_with_multiple_fills() -> (r: ScenarioFixture)
    ensures
        is_decision_with_multiple_fills(r),
{
    proof {
        reveal_strlit("sig-multi-fill-1");
        lemma_not_blank("sig-multi-fill-1"@);
        assert(fixture_text("sig-multi-fill-1"@));
        reveal_strlit("hyp-multi-fill-1");
        lemma_not_blank("hyp-multi-fill-1"@);
        assert(fixture_text("hyp-multi-fill-1"@));
        reveal_strlit("corr-multi-fill-1");
        lemma_not_blank("corr-multi-fill-1"@);
        assert(fixture_text("corr-multi-fill-1"@));
        reveal_strlit("SOLUSDT");
        lemma_not_blank("SOLUSDT"@);
        assert(fixture_text("SOLUSDT"@));
        reveal_strlit("15m");
        lemma_not_blank("15m"@);
        assert(fixture_text("15m"@));
        reveal_strlit("dec-multi-fill-1");
        lemma_not_blank("dec-multi-fill-1"@);
        assert(fixture_text("dec-multi-fill-1"@));
        reveal_strlit("ord-multi-fill-1");
        lemma_not_blank("ord-multi-fill-1"@);
        assert(fixture_text("ord-multi-fill-1"@));
        reveal_strlit("fill-multi-fill-1");
        lemma_not_blank("fill-multi-fill-1"@);
        assert(fixture_text("fill-multi-fill-1"@));
        reveal_strlit("fill-multi-fill-2");
        lemma_not_blank("fill-multi-fill-2"@);
        assert(fixture_text("fill-multi-fill-2"@));
    }
    let events = vec![
        signal_generated(
            "sig-multi-fill-1",
            "hyp-multi-fill-1",
            "corr-multi-fill-1",
            "SOLUSDT",
            "15m",
            SignalSide::Long,
        ),
        decision_formed(
            "sig-multi-fill-1",
            "dec-multi-fill-1",
            "hyp-multi-fill-1",
            "corr-multi-fill-1",
            "SOLUSDT",
            SignalSide::Long,
        ),
        fill_received(
            "sig-multi-fill-1",
            "dec-multi-fill-1",
            "ord-multi-fill-1",
            "fill-multi-fill-1",
            "hyp-multi-fill-1",
            "corr-multi-fill-1",
            "SOLUSDT",
            Binary64 { bits: 0x4000_0000_0000_0000 },
            Binary64 { bits: 0x4059_0000_0000_0000 },
        ),
        fill_received(
            "sig-multi-fill-1",
            "dec-multi-fill-1",
            "ord-multi-fill-1",
            "fill-multi-fill-2",
            "hyp-multi-fill-1",
            "corr-multi-fill-1",
            "SOLUSDT",
            Binary64 { bits: 0x3ff0_0000_0000_0000 },
            Binary64 { bits: 0x405a_8000_0000_0000 },
        ),
    ];
    ScenarioFixture {
        name: owned("decision_with_multiple_fills"),
        description: Some(owned("Decisión con dos fills sobre la misma orden")),
        events,
    }
}

/// The fixture of a name: one of the three names of `available_fixtures`,
/// else `UnknownFixture` with the name.
pub fn load_fixture_named(name: &str) -> (r: Result<ScenarioFixture, ScenarioError>)
    ensures
        match r {
            Ok(f) => {
                &&& f.name@ == name@
                &&& (name@ == "confirmed_then_filled_signal"@ ==> is_confirmed_then_filled(f))
                &&& (name@ == "vetoed_signal_without_fill"@ ==> is_vetoed_without_fill(f))
                &&& (name@ == "decision_with_multiple_fills"@ ==> is_decision_with_multiple_fills(f))
                &&& (name@ == "confirmed_then_filled_signal"@ || name@ == "vetoed_signal_without_fill"@
                    || name@ == "decision_with_multiple_fills"@)
            },
            Err(e) => {
                &&& e matches ScenarioError::UnknownFixture(n) && n@ == name@
                &&& name@ != "confirmed_then_filled_signal"@
                &&& name@ != "vetoed_signal_without_fill"@
                &&& name@ != "decision_with_multiple_fills"@
            },
        },
{
    proof {
        reveal_strlit("confirmed_then_filled_signal");
        reveal_strlit("vetoed_signal_without_fill");
        reveal_strlit("decision_with_multiple_fills");
        assert("confirmed_then_filled_signal"@[0] != "vetoed_signal_without_fill"@[0]);
        assert("confirmed_then_filled_signal"@[0] != "decision_with_multiple_fills"@[0]);
        assert("vetoed_signal_without_fill"@[0] != "decision_with_multiple_fills"@[0]);
    }
    if same_text(name, "confirmed_then_filled_signal") {
        Ok(confirmed_then_filled_signal())
    } else if same_text(name, "vetoed_signal_without_fill") {
        Ok(vetoed_signal_without_fill())
    } else if same_text(name, "decision_with_multiple_fills") {
        Ok(decision_with_multiple_fills())
    } else {
        Err(ScenarioError::unknown_fixture(name))
    }
}

} // verus!
