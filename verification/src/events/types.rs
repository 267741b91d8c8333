//! The vocabulary of the event log: event kinds, sides, links between
//! entities, provenance and the typed payload of each kind of event.
use vstd::prelude::*;

use crate::text::{clone_opt, opt_view};

verus! {

#[derive(Debug, Clone, Copy, PartialEq, Eq, Structural)]
pub enum EventType {
    HypothesisGenerated,
    SignalGenerated,
    SignalConfirmed,
    VetoRaised,
    DecisionFormed,
    OrderRegistered,
    OrderSubmitted,
    FillReceived,
}

/// The wire name of each kind of event.
pub open spec fn event_type_name(t: EventType) -> Seq<char> {
    match t {
        EventType::HypothesisGenerated => "hypothesis.generated"@,
        EventType::SignalGenerated => "signal.generated"@,
        EventType::SignalConfirmed => "signal.confirmed"@,
        EventType::VetoRaised => "veto.raised"@,
        EventType::DecisionFormed => "decision.formed"@,
        EventType::OrderRegistered => "order.registered"@,
        EventType::OrderSubmitted => "order.submitted"@,
        EventType::FillReceived => "fill.received"@,
    }
}

impl EventType {
    pub fn as_str(&self) -> (r: &'static str)
        ensures
            r@ == event_type_name(*self),
    {
        match self {
            EventType::HypothesisGenerated => "hypothesis.generated",
            EventType::SignalGenerated => "signal.generated",
            EventType::SignalConfirmed => "signal.confirmed",
            EventType::VetoRaised => "veto.raised",
            EventType::DecisionFormed => "decision.formed",
            EventType::OrderRegistered => "order.registered",
            EventType::OrderSubmitted => "order.submitted",
            EventType::FillReceived => "fill.received",
        }
    }
}

#[derive(Debug, Clone, Copy, PartialEq, Eq, Structural)]
pub enum SignalSide {
    Long,
    Short,
    Flat,
}

#[derive(Debug, Clone, Copy, PartialEq, Eq, Structural)]
pub enum FillSide {
    Buy,
    Sell,
}

#[derive(Debug, Clone, Copy, PartialEq, Eq, Structural)]
pub enum DecisionAction {
    Enter,
    Exit,
    Reduce,
    Hold,
    Cancel,
}

#[derive(Debug, Clone, Copy, PartialEq, Eq, Structural)]
pub enum VetoScope {
    Signal,
    Decision,
    Order,
    Global,
}

#[derive(Debug, Clone, Copy, PartialEq, Eq, Structural)]
pub enum SourceKind {
    Research,
    Runtime,
    MarketData,
    ExecutionVenue,
    HumanOverride,
    Derived,
}

/// An instant in UTC: whole seconds since the Unix epoch and the nanoseconds
/// past that second.  Instants are ordered by seconds, then nanoseconds.
#[derive(Debug, Clone, Copy, PartialEq, Eq, Structural)]
pub struct Timestamp {
    pub seconds: i64,
    pub nanos: u32,
}

pub open spec fn timestamp_lt(a: Timestamp, b: Timestamp) -> bool {
    a.seconds < b.seconds || (a.seconds == b.seconds && a.nanos < b.nanos)
}

impl Timestamp {
    pub fn is_before(&self, other: &Timestamp) -> (r: bool)
        ensures
            r == timestamp_lt(*self, *other),
    {
        self.seconds < other.seconds || (self.seconds == other.seconds && self.nanos
            < other.nanos)
    }
}

/// A quantity, price, score or probability carried as its IEEE 754 binary64
/// encoding.  The log only stores, compares and checks the range of these
/// numbers; the arithmetic on them belongs to the accounting layer.
#[derive(Debug, Clone, Copy, PartialEq, Eq, Structural)]
pub struct Binary64 {
    pub bits: u64,
}

/// Encodings of the finite numbers `x` with `x > 0`: sign bit clear, not zero,
/// exponent field not all ones.
pub open spec fn is_positive_finite(b: Binary64) -> bool {
    0 < b.bits && b.bits < 0x7ff0_0000_0000_0000
}

/// Encodings of the numbers `x` with `0 <= x <= 1`: `+0` up to `1.0`
/// (`0x3ff0...`), and `-0`, which compares equal to `0`.
pub open spec fn is_unit_interval(b: Binary64) -> bool {
    b.bits <= 0x3ff0_0000_0000_0000 || b.bits == 0x8000_0000_0000_0000
}

impl Binary64 {
    pub fn positive_finite(&self) -> (r: bool)
        ensures
            r == is_positive_finite(*self),
    {
        0 < self.bits && self.bits < 0x7ff0_0000_0000_0000
    }

    pub fn in_unit_interval(&self) -> (r: bool)
        ensures
            r == is_unit_interval(*self),
    {
        self.bits <= 0x3ff0_0000_0000_0000 || self.bits == 0x8000_0000_0000_0000
    }
}

#[derive(Debug, Clone, Default, PartialEq, Eq)]
pub struct Linkage {
    pub hypothesis_id: Option<String>,
    pub signal_id: Option<String>,
    pub decision_id: Option<String>,
    pub order_id: Option<String>,
    pub position_id: Option<String>,
    pub parent_event_id: Option<String>,
    pub correlation_id: Option<String>,
}

pub struct LinkageView {
    pub hypothesis_id: Option<Seq<char>>,
    pub signal_id: Option<Seq<char>>,
    pub decision_id: Option<Seq<char>>,
    pub order_id: Option<Seq<char>>,
    pub position_id: Option<Seq<char>>,
    pub parent_event_id: Option<Seq<char>>,
    pub correlation_id: Option<Seq<char>>,
}

impl View for Linkage {
    type V = LinkageView;

    open spec fn view(&self) -> LinkageView {
        LinkageView {
            hypothesis_id: opt_view(self.hypothesis_id),
            signal_id: opt_view(self.signal_id),
            decision_id: opt_view(self.decision_id),
            order_id: opt_view(self.order_id),
            position_id: opt_view(self.position_id),
            parent_event_id: opt_view(self.parent_event_id),
            correlation_id: opt_view(self.correlation_id),
        }
    }
}

impl Linkage {
    pub fn duplicate(&self) -> (r: Self)
        ensures
            r@ == self@,
    {
        Linkage {
            hypothesis_id: clone_opt(&self.hypothesis_id),
            signal_id: clone_opt(&self.signal_id),
            decision_id: clone_opt(&self.decision_id),
            order_id: clone_opt(&self.order_id),
            position_id: clone_opt(&self.position_id),
            parent_event_id: clone_opt(&self.parent_event_id),
            correlation_id: clone_opt(&self.correlation_id),
        }
    }

    /// The link set with nothing filled in.
    pub fn empty() -> (r: Self)
        ensures
            r@ == empty_linkage(),
    {
        Linkage {
            hypothesis_id: None,
            signal_id: None,
            decision_id: None,
            order_id: None,
            position_id: None,
            parent_event_id: None,
            correlation_id: None,
        }
    }
}

pub open spec fn empty_linkage() -> LinkageView {
    LinkageView {
        hypothesis_id: None,
        signal_id: None,
        decision_id: None,
        order_id: None,
        position_id: None,
        parent_event_id: None,
        correlation_id: None,
    }
}

#[derive(Debug, Clone, PartialEq, Eq)]
pub struct Provenance {
    pub source_kind: SourceKind,
    pub source_ref: Option<String>,
    pub producer_run_id: Option<String>,
    pub actor: Option<String>,
    pub trace_id: Option<String>,
    pub notes: Option<String>,
}

pub struct ProvenanceView {
    pub source_kind: SourceKind,
    pub source_ref: Option<Seq<char>>,
    pub producer_run_id: Option<Seq<char>>,
    pub actor: Option<Seq<char>>,
    pub trace_id: Option<Seq<char>>,
    pub notes: Option<Seq<char>>,
}

impl View for Provenance {
    type V = ProvenanceView;

    open spec fn view(&self) -> ProvenanceView {
        ProvenanceView {
            source_kind: self.source_kind,
            source_ref: opt_view(self.source_ref),
            producer_run_id: opt_view(self.producer_run_id),
            actor: opt_view(self.actor),
            trace_id: opt_view(self.trace_id),
            notes: opt_view(self.notes),
        }
    }
}

impl Provenance {
    pub fn duplicate(&self) -> (r: Self)
        ensures
            r@ == self@,
    {
        Provenance {
            source_kind: self.source_kind,
            source_ref: clone_opt(&self.source_ref),
            producer_run_id: clone_opt(&self.producer_run_id),
            actor: clone_opt(&self.actor),
            trace_id: clone_opt(&self.trace_id),
            notes: clone_opt(&self.notes),
        }
    }
}

#[derive(Debug, Clone, PartialEq, Eq)]
pub struct HypothesisGenerated {
    pub hypothesis_id: String,
    pub instrument: String,
    pub timeframe: String,
    pub thesis: String,
    pub direction_hint: Option<String>,
    pub confidence: Option<Binary64>,
}

pub struct HypothesisGeneratedView {
    pub hypothesis_id: Seq<char>,
    pub instrument: Seq<char>,
    pub timeframe: Seq<char>,
    pub thesis: Seq<char>,
    pub direction_hint: Option<Seq<char>>,
    pub confidence: Option<Binary64>,
}

impl View for HypothesisGenerated {
    type V = HypothesisGeneratedView;

    open spec fn view(&self) -> HypothesisGeneratedView {
        HypothesisGeneratedView {
            hypothesis_id: self.hypothesis_id@,
            instrument: self.instrument@,
            timeframe: self.timeframe@,
            thesis: self.thesis@,
            direction_hint: opt_view(self.direction_hint),
            confidence: self.confidence,
        }
    }
}

impl HypothesisGenerated {
    pub fn duplicate(&self) -> (r: Self)
        ensures
            r@ == self@,
    {
        HypothesisGenerated {
            hypothesis_id: self.hypothesis_id.clone(),
            instrument: self.instrument.clone(),
            timeframe: self.timeframe.clone(),
            thesis: self.thesis.clone(),
            direction_hint: clone_opt(&self.direction_hint),
            confidence: self.confidence,
        }
    }
}

#[derive(Debug, Clone, PartialEq, Eq)]
pub struct SignalGenerated {
    pub signal_id: String,
    pub hypothesis_id: Option<String>,
    pub instrument: String,
    pub timeframe: String,
    pub side: SignalSide,
    pub strength: Binary64,
    pub rationale: Option<String>,
}

pub struct SignalGeneratedView {
    pub signal_id: Seq<char>,
    pub hypothesis_id: Option<Seq<char>>,
    pub instrument: Seq<char>,
    pub timeframe: Seq<char>,
    pub side: SignalSide,
    pub strength: Binary64,
    pub rationale: Option<Seq<char>>,
}

impl View for SignalGenerated {
    type V = SignalGeneratedView;

    open spec fn view(&self) -> SignalGeneratedView {
        SignalGeneratedView {
            signal_id: self.signal_id@,
            hypothesis_id: opt_view(self.hypothesis_id),
            instrument: self.instrument@,
            timeframe: self.timeframe@,
            side: self.side,
            strength: self.strength,
            rationale: opt_view(self.rationale),
        }
    }
}

impl SignalGenerated {
    pub fn duplicate(&self) -> (r: Self)
        ensures
            r@ == self@,
    {
        SignalGenerated {
            signal_id: self.signal_id.clone(),
            hypothesis_id: clone_opt(&self.hypothesis_id),
            instrument: self.instrument.clone(),
            timeframe: self.timeframe.clone(),
            side: self.side,
            strength: self.strength,
            rationale: clone_opt(&self.rationale),
        }
    }
}

#[derive(Debug, Clone, PartialEq, Eq)]
pub struct SignalConfirmed {
    pub signal_id: String,
    pub confirmed_by: String,
    pub confirmation_reason: Option<String>,
    pub confirmation_score: Option<Binary64>,
}

pub struct SignalConfirmedView {
    pub signal_id: Seq<char>,
    pub confirmed_by: Seq<char>,
    pub confirmation_reason: Option<Seq<char>>,
    pub confirmation_score: Option<Binary64>,
}

impl View for SignalConfirmed {
    type V = SignalConfirmedView;

    open spec fn view(&self) -> SignalConfirmedView {
        SignalConfirmedView {
            signal_id: self.signal_id@,
            confirmed_by: self.confirmed_by@,
            confirmation_reason: opt_view(self.confirmation_reason),
            confirmation_score: self.confirmation_score,
        }
    }
}

impl SignalConfirmed {
    pub fn duplicate(&self) -> (r: Self)
        ensures
            r@ == self@,
    {
        SignalConfirmed {
            signal_id: self.signal_id.clone(),
            confirmed_by: self.confirmed_by.clone(),
            confirmation_reason: clone_opt(&self.confirmation_reason),
            confirmation_score: self.confirmation_score,
        }
    }
}

#[derive(Debug, Clone, PartialEq, Eq)]
pub struct VetoRaised {
    pub veto_id: String,
    pub scope: VetoScope,
    pub target_id: String,
    pub reason_code: String,
    pub reason_text: Option<String>,
    pub raised_by: String,
}

pub struct VetoRaisedView {
    pub veto_id: Seq<char>,
    pub scope: VetoScope,
    pub target_id: Seq<char>,
    pub reason_code: Seq<char>,
    pub reason_text: Option<Seq<char>>,
    pub raised_by: Seq<char>,
}

impl View for VetoRaised {
    type V = VetoRaisedView;

    open spec fn view(&self) -> VetoRaisedView {
        VetoRaisedView {
            veto_id: self.veto_id@,
            scope: self.scope,
            target_id: self.target_id@,
            reason_code: self.reason_code@,
            reason_text: opt_view(self.reason_text),
            raised_by: self.raised_by@,
        }
    }
}

impl VetoRaised {
    pub fn duplicate(&self) -> (r: Self)
        ensures
            r@ == self@,
    {
        VetoRaised {
            veto_id: self.veto_id.clone(),
            scope: self.scope,
            target_id: self.target_id.clone(),
            reason_code: self.reason_code.clone(),
            reason_text: clone_opt(&self.reason_text),
            raised_by: self.raised_by.clone(),
        }
    }
}

#[derive(Debug, Clone, PartialEq, Eq)]
pub struct DecisionFormed {
    pub decision_id: String,
    pub instrument: String,
    pub action: DecisionAction,
    pub side: Option<SignalSide>,
    pub size_hint: Option<Binary64>,
    pub rationale: Option<String>,
}

pub struct DecisionFormedView {
    pub decision_id: Seq<char>,
    pub instrument: Seq<char>,
    pub action: DecisionAction,
    pub side: Option<SignalSide>,
    pub size_hint: Option<Binary64>,
    pub rationale: Option<Seq<char>>,
}

impl View for DecisionFormed {
    type V = DecisionFormedView;

    open spec fn view(&self) -> DecisionFormedView {
        DecisionFormedView {
            decision_id: self.decision_id@,
            instrument: self.instrument@,
            action: self.action,
            side: self.side,
            size_hint: self.size_hint,
            rationale: opt_view(self.rationale),
        }
    }
}

impl DecisionFormed {
    pub fn duplicate(&self) -> (r: Self)
        ensures
            r@ == self@,
    {
        DecisionFormed {
            decision_id: self.decision_id.clone(),
            instrument: self.instrument.clone(),
            action: self.action,
            side: self.side,
            size_hint: self.size_hint,
            rationale: clone_opt(&self.rationale),
        }
    }
}

/// A local order known to the log: registered, then submitted.
#[derive(Debug, Clone, PartialEq, Eq)]
pub struct OrderRegistered {
    pub order_id: String,
    pub decision_id: Option<String>,
    pub instrument: String,
    pub venue: String,
}

#[derive(Debug, Clone, PartialEq, Eq)]
pub struct OrderSubmitted {
    pub order_id: String,
    pub decision_id: Option<String>,
    pub instrument: String,
    pub venue: String,
}

/// The shared shape of registered and submitted orders.
pub struct OrderView {
    pub order_id: Seq<char>,
    pub decision_id: Option<Seq<char>>,
    pub instrument: Seq<char>,
    pub venue: Seq<char>,
}

impl View for OrderRegistered {
    type V = OrderView;

    open spec fn view(&self) -> OrderView {
        OrderView {
            order_id: self.order_id@,
            decision_id: opt_view(self.decision_id),
            instrument: self.instrument@,
            venue: self.venue@,
        }
    }
}

impl View for OrderSubmitted {
    type V = OrderView;

    open spec fn view(&self) -> OrderView {
        OrderView {
            order_id: self.order_id@,
            decision_id: opt_view(self.decision_id),
            instrument: self.instrument@,
            venue: self.venue@,
        }
    }
}

impl OrderRegistered {
    pub fn duplicate(&self) -> (r: Self)
        ensures
            r@ == self@,
    {
        OrderRegistered {
            order_id: self.order_id.clone(),
            decision_id: clone_opt(&self.decision_id),
            instrument: self.instrument.clone(),
            venue: self.venue.clone(),
        }
    }
}

impl OrderSubmitted {
    pub fn duplicate(&self) -> (r: Self)
        ensures
            r@ == self@,
    {
        OrderSubmitted {
            order_id: self.order_id.clone(),
            decision_id: clone_opt(&self.decision_id),
            instrument: self.instrument.clone(),
            venue: self.venue.clone(),
        }
    }
}

#[derive(Debug, Clone, PartialEq, Eq)]
pub struct FillReceived {
    pub fill_id: String,
    pub decision_id: Option<String>,
    pub order_id: String,
    pub instrument: String,
    pub side: FillSide,
    pub quantity: Binary64,
    pub price: Binary64,
    pub venue: String,
    pub executed_at: Timestamp,
}

pub struct FillReceivedView {
    pub fill_id: Seq<char>,
    pub decision_id: Option<Seq<char>>,
    pub order_id: Seq<char>,
    pub instrument: Seq<char>,
    pub side: FillSide,
    pub quantity: Binary64,
    pub price: Binary64,
    pub venue: Seq<char>,
    pub executed_at: Timestamp,
}

impl View for FillReceived {
    type V = FillReceivedView;

    open spec fn view(&self) -> FillReceivedView {
        FillReceivedView {
            fill_id: self.fill_id@,
            decision_id: opt_view(self.decision_id),
            order_id: self.order_id@,
            instrument: self.instrument@,
            side: self.side,
            quantity: self.quantity,
            price: self.price,
            venue: self.venue@,
            executed_at: self.executed_at,
        }
    }
}

impl FillReceived {
    pub fn duplicate(&self) -> (r: Self)
        ensures
            r@ == self@,
    {
        FillReceived {
            fill_id: self.fill_id.clone(),
            decision_id: clone_opt(&self.decision_id),
            order_id: self.order_id.clone(),
            instrument: self.instrument.clone(),
            side: self.side,
            quantity: self.quantity,
            price: self.price,
            venue: self.venue.clone(),
            executed_at: self.executed_at,
        }
    }
}

/// The payload of a stored event, one variant per kind of event.
#[derive(Debug, Clone, PartialEq, Eq)]
pub enum EventPayload {
    HypothesisGenerated(HypothesisGenerated),
    SignalGenerated(SignalGenerated),
    SignalConfirmed(SignalConfirmed),
    VetoRaised(VetoRaised),
    DecisionFormed(DecisionFormed),
    OrderRegistered(OrderRegistered),
    OrderSubmitted(OrderSubmitted),
    FillReceived(FillReceived),
}

pub enum PayloadView {
    HypothesisGenerated(HypothesisGeneratedView),
    SignalGenerated(SignalGeneratedView),
    SignalConfirmed(SignalConfirmedView),
    VetoRaised(VetoRaisedView),
    DecisionFormed(DecisionFormedView),
    OrderRegistered(OrderView),
    OrderSubmitted(OrderView),
    FillReceived(FillReceivedView),
}

impl View for EventPayload {
    type V = PayloadView;

    open spec fn view(&self) -> PayloadView {
        match self {
            EventPayload::HypothesisGenerated(p) => PayloadView::HypothesisGenerated(p@),
            EventPayload::SignalGenerated(p) => PayloadView::SignalGenerated(p@),
            EventPayload::SignalConfirmed(p) => PayloadView::SignalConfirmed(p@),
            EventPayload::VetoRaised(p) => PayloadView::VetoRaised(p@),
            EventPayload::DecisionFormed(p) => PayloadView::DecisionFormed(p@),
            EventPayload::OrderRegistered(p) => PayloadView::OrderRegistered(p@),
            EventPayload::OrderSubmitted(p) => PayloadView::OrderSubmitted(p@),
            EventPayload::FillReceived(p) => PayloadView::FillReceived(p@),
        }
    }
}

/// The kind of event a payload belongs to.
pub open spec fn payload_kind(p: PayloadView) -> EventType {
    match p {
        PayloadView::HypothesisGenerated(_) => EventType::HypothesisGenerated,
        PayloadView::SignalGenerated(_) => EventType::SignalGenerated,
        PayloadView::SignalConfirmed(_) => EventType::SignalConfirmed,
        PayloadView::VetoRaised(_) => EventType::VetoRaised,
        PayloadView::DecisionFormed(_) => EventType::DecisionFormed,
        PayloadView::OrderRegistered(_) => EventType::OrderRegistered,
        PayloadView::OrderSubmitted(_) => EventType::OrderSubmitted,
        PayloadView::FillReceived(_) => EventType::FillReceived,
    }
}

impl EventPayload {
    pub fn kind(&self) -> (r: EventType)
        ensures
            r == payload_kind(self@),
    {
        match self {
            EventPayload::HypothesisGenerated(_) => EventType::HypothesisGenerated,
            EventPayload::SignalGenerated(_) => EventType::SignalGenerated,
            EventPayload::SignalConfirmed(_) => EventType::SignalConfirmed,
            EventPayload::VetoRaised(_) => EventType::VetoRaised,
            EventPayload::DecisionFormed(_) => EventType::DecisionFormed,
            EventPayload::OrderRegistered(_) => EventType::OrderRegistered,
            EventPayload::OrderSubmitted(_) => EventType::OrderSubmitted,
            EventPayload::FillReceived(_) => EventType::FillReceived,
        }
    }

    pub fn duplicate(&self) -> (r: Self)
        ensures
            r@ == self@,
    {
        match self {
            EventPayload::HypothesisGenerated(p) => EventPayload::HypothesisGenerated(
                p.duplicate(),
            ),
            EventPayload::SignalGenerated(p) => EventPayload::SignalGenerated(p.duplicate()),
            EventPayload::SignalConfirmed(p) => EventPayload::SignalConfirmed(p.duplicate()),
            EventPayload::VetoRaised(p) => EventPayload::VetoRaised(p.duplicate()),
            EventPayload::DecisionFormed(p) => EventPayload::DecisionFormed(p.duplicate()),
            EventPayload::OrderRegistered(p) => EventPayload::OrderRegistered(p.duplicate()),
            EventPayload::OrderSubmitted(p) => EventPayload::OrderSubmitted(p.duplicate()),
            EventPayload::FillReceived(p) => EventPayload::FillReceived(p.duplicate()),
        }
    }
}

} // verus!
