//! Execution reconciliation of an order: the evidence the log holds about
//! its target quantity and its fills, and what that evidence makes of it.
use vstd::prelude::*;

use crate::codecs::check_decodes;
use crate::events::{Binary64, EventPayload, PayloadView};
use crate::queries::error::QueryError;
use crate::queries::lifecycle::{order_lifecycle, order_lifecycle_of, OrderLifecycleStatus};
use crate::queries::support::viewed;
use crate::store::{event_views, StoredEvent, StoredEventView};
use crate::codecs::{all_decode, decode_error};
use crate::queries::error::QueryErrorView;
use crate::text::{
    clone_strs, decimal, decimal_text, insert_sorted, lemma_sorted_elements_of, owned, same_text,
    sorted_elements, strictly_sorted, strs,
};

verus! {

/// How far an order's execution has gone against its target quantity.
#[derive(Debug, Clone, Copy, PartialEq, Eq, Structural)]
pub enum OrderExecutionStatus {
    SubmittedWithoutFills,
    PartiallyFilled,
    FullyFilled,
    Overfilled,
    TargetQuantityUnknown,
    Inconsistent,
}

pub open spec fn execution_status_name(s: OrderExecutionStatus) -> Seq<char> {
    match s {
        OrderExecutionStatus::SubmittedWithoutFills => "submitted_without_fills"@,
        OrderExecutionStatus::PartiallyFilled => "partially_filled"@,
        OrderExecutionStatus::FullyFilled => "fully_filled"@,
        OrderExecutionStatus::Overfilled => "overfilled"@,
        OrderExecutionStatus::TargetQuantityUnknown => "target_quantity_unknown"@,
        OrderExecutionStatus::Inconsistent => "inconsistent"@,
    }
}

impl OrderExecutionStatus {
    pub fn as_str(&self) -> (r: &'static str)
        ensures
            r@ == execution_status_name(*self),
    {
        match self {
            OrderExecutionStatus::SubmittedWithoutFills => "submitted_without_fills",
            OrderExecutionStatus::PartiallyFilled => "partially_filled",
            OrderExecutionStatus::FullyFilled => "fully_filled",
            OrderExecutionStatus::Overfilled => "overfilled",
            OrderExecutionStatus::TargetQuantityUnknown => "target_quantity_unknown",
            OrderExecutionStatus::Inconsistent => "inconsistent",
        }
    }
}

/// How the filled quantity stands against the ordered quantity, within the
/// tolerance of the accounting layer.
#[derive(Debug, Clone, Copy, PartialEq, Eq, Structural)]
pub enum QuantityComparison {
    Above,
    Matches,
    Below,
}

/// The size hint of the last `decision.formed` event for a decision: `None`
/// when the log holds no such event.
pub open spec fn latest_size_hint(s: Seq<StoredEventView>, decision_id: Seq<char>) -> Option<
    Option<Binary64>,
>
    decreases s.len(),
{
    if s.len() == 0 {
        None
    } else {
        match s.last().payload {
            PayloadView::DecisionFormed(d) => if d.decision_id == decision_id {
                Some(d.size_hint)
            } else {
                latest_size_hint(s.drop_last(), decision_id)
            },
            _ => latest_size_hint(s.drop_last(), decision_id),
        }
    }
}

/// The quantity and price of each fill of an order, in log order.
pub open spec fn order_fill_amounts(s: Seq<StoredEventView>, order_id: Seq<char>) -> Seq<
    (Binary64, Binary64),
>
    decreases s.len(),
{
    if s.len() == 0 {
        Seq::empty()
    } else {
        let rest = order_fill_amounts(s.drop_last(), order_id);
        match s.last().payload {
            PayloadView::FillReceived(f) => if f.order_id == order_id {
                rest.push((f.quantity, f.price))
            } else {
                rest
            },
            _ => rest,
        }
    }
}

/// What the log holds about an order's execution.
#[derive(Debug, Clone, PartialEq, Eq)]
pub struct OrderExecutionEvidence {
    pub order_id: String,
    pub lifecycle_status: OrderLifecycleStatus,
    pub decision_refs: Vec<String>,
    pub lifecycle_notes: Vec<String>,
    pub decision_found: bool,
    pub ordered_quantity: Option<Binary64>,
    pub fills: Vec<(Binary64, Binary64)>,
}

pub struct OrderExecutionEvidenceView {
    pub order_id: Seq<char>,
    pub lifecycle_status: OrderLifecycleStatus,
    pub decision_refs: Seq<Seq<char>>,
    pub lifecycle_notes: Seq<Seq<char>>,
    pub decision_found: bool,
    pub ordered_quantity: Option<Binary64>,
    pub fills: Seq<(Binary64, Binary64)>,
}

impl View for OrderExecutionEvidence {
    type V = OrderExecutionEvidenceView;

    open spec fn view(&self) -> OrderExecutionEvidenceView {
        OrderExecutionEvidenceView {
            order_id: self.order_id@,
            lifecycle_status: self.lifecycle_status,
            decision_refs: strs(self.decision_refs@),
            lifecycle_notes: strs(self.lifecycle_notes@),
            decision_found: self.decision_found,
            ordered_quantity: self.ordered_quantity,
            fills: self.fills@,
        }
    }
}

/// The evidence for an order with a lifecycle: the target comes from the
/// last `decision.formed` event of the order's first decision reference.
pub open spec fn evidence_of(s: Seq<StoredEventView>, order_id: Seq<char>) -> Option<
    OrderExecutionEvidenceView,
> {
    match order_lifecycle_of(s, order_id) {
        None => None,
        Some(l) => {
            let found = if l.decision_refs.len() > 0 {
                latest_size_hint(s, l.decision_refs[0])
            } else {
                None
            };
            Some(
                OrderExecutionEvidenceView {
                    order_id,
                    lifecycle_status: l.status,
                    decision_refs: l.decision_refs,
                    lifecycle_notes: l.notes,
                    decision_found: found is Some,
                    ordered_quantity: match found {
                        Some(h) => h,
                        None => None,
                    },
                    fills: order_fill_amounts(s, order_id),
                },
            )
        },
    }
}

fn latest_size_hint_exec(events: &[StoredEvent], decision_id: &str) -> (r: Option<Option<Binary64>>)
    ensures
        r == latest_size_hint(event_views(events@), decision_id@),
{
    let ghost s = event_views(events@);
    let mut found: Option<Option<Binary64>> = None;
    let mut i: usize = 0;
    while i < events.len()
        invariant
            i <= events.len(),
            s == event_views(events@),
            found == latest_size_hint(s.take(i as int), decision_id@),
        decreases events.len() - i,
    {
        assert(s.take(i as int + 1).drop_last() =~= s.take(i as int));
        match &events[i].payload {
            EventPayload::DecisionFormed(d) => {
                if same_text(d.decision_id.as_str(), decision_id) {
                    found = Some(d.size_hint);
                }
            },
            _ => {},
        }
        i = i + 1;
    }
    assert(s.take(events.len() as int) =~= s);
    found
}

fn order_fill_amounts_exec(events: &[StoredEvent], order_id: &str) -> (r: Vec<(Binary64, Binary64)>)
    ensures
        r@ == order_fill_amounts(event_views(events@), order_id@),
{
    let ghost s = event_views(events@);
    let mut out: Vec<(Binary64, Binary64)> = Vec::new();
    let mut i: usize = 0;
    while i < events.len()
        invariant
            i <= events.len(),
            s == event_views(events@),
            out@ == order_fill_amounts(s.take(i as int), order_id@),
        decreases events.len() - i,
    {
        assert(s.take(i as int + 1).drop_last() =~= s.take(i as int));
        match &events[i].payload {
            EventPayload::FillReceived(f) => {
                if same_text(f.order_id.as_str(), order_id) {
                    out.push((f.quantity, f.price));
                }
            },
            _ => {},
        }
        i = i + 1;
    }
    assert(s.take(events.len() as int) =~= s);
    out
}

/// The execution evidence of an order: `None` when the order has no
/// lifecycle; an error when an event does not decode.
pub fn order_execution_evidence(events: &[StoredEvent], order_id: &str) -> (r: Result<
    Option<OrderExecutionEvidence>,
    QueryError,
>)
    ensures
        match r {
            Ok(o) => all_decode(event_views(events@)) && viewed(o) == evidence_of(
                event_views(events@),
                order_id@,
            ),
            Err(e) => !all_decode(event_views(events@)) && e@ == QueryErrorView::Codec(
                decode_error(event_views(events@)),
            ),
        },
{
    let ghost s = event_views(events@);
    let lifecycle = match order_lifecycle(events, order_id) {
        Ok(l) => l,
        Err(e) => return Err(e),
    };
    match lifecycle {
        None => Ok(None),
        Some(l) => {
            let found = if l.decision_refs.len() > 0 {
                latest_size_hint_exec(events, l.decision_refs[0].as_str())
            } else {
                None
            };
            let ordered_quantity = match found {
                Some(h) => h,
                None => None,
            };
            let ev = OrderExecutionEvidence {
                order_id: owned(order_id),
                lifecycle_status: l.status,
                decision_refs: clone_strs(&l.decision_refs),
                lifecycle_notes: clone_strs(&l.notes),
                decision_found: found.is_some(),
                ordered_quantity,
                fills: order_fill_amounts_exec(events, order_id),
            };
            Ok(Some(ev))
        },
    }
}

/// What the evidence makes of an order's execution: the decision it is
/// reconciled against, whether the ordered quantity is reported, its status,
/// the reasons in order and the notes sorted without repeats.
#[derive(Debug, Clone, PartialEq, Eq)]
pub struct OrderExecutionOutcome {
    pub decision_id: Option<String>,
    pub ordered_quantity_reported: bool,
    pub status: OrderExecutionStatus,
    pub reasons: Vec<String>,
    pub notes: Vec<String>,
}

pub struct OrderExecutionOutcomeView {
    pub decision_id: Option<Seq<char>>,
    pub ordered_quantity_reported: bool,
    pub status: OrderExecutionStatus,
    pub reasons: Seq<Seq<char>>,
    pub notes: Seq<Seq<char>>,
}

impl View for OrderExecutionOutcome {
    type V = OrderExecutionOutcomeView;

    open spec fn view(&self) -> OrderExecutionOutcomeView {
        OrderExecutionOutcomeView {
            decision_id: crate::text::opt_view(self.decision_id),
            ordered_quantity_reported: self.ordered_quantity_reported,
            status: self.status,
            reasons: strs(self.reasons@),
            notes: strs(self.notes@),
        }
    }
}

pub open spec fn fill_count_reasons(ev: OrderExecutionEvidenceView) -> Seq<Seq<char>> {
    if ev.fills.len() > 0 {
        seq!["ObservedFillCount("@ + decimal(ev.fills.len()) + ")"@]
    } else {
        Seq::empty()
    }
}

pub open spec fn base_notes(ev: OrderExecutionEvidenceView) -> Set<Seq<char>> {
    if ev.decision_found && ev.ordered_quantity is None && ev.decision_refs.len() > 0 {
        ev.lifecycle_notes.to_set().insert(
            "decision "@ + ev.decision_refs[0] + " has no size_hint in the current log"@,
        )
    } else {
        ev.lifecycle_notes.to_set()
    }
}

/// The status, the reason it adds and the note it adds, if any.
pub open spec fn execution_case(ev: OrderExecutionEvidenceView, cmp: QuantityComparison) -> (
    OrderExecutionStatus,
    Seq<char>,
    Option<Seq<char>>,
) {
    if ev.decision_refs.len() > 1 {
        (
            OrderExecutionStatus::Inconsistent,
            "MultipleDecisionReferences"@,
            Some(
                "execution reconciliation requires a single decision reference for one local order"@,
            ),
        )
    } else if ev.lifecycle_status == OrderLifecycleStatus::Weak
        || ev.lifecycle_status == OrderLifecycleStatus::Inconsistent {
        (
            OrderExecutionStatus::Inconsistent,
            if ev.lifecycle_status == OrderLifecycleStatus::Weak {
                "Lifecycle::Weak"@
            } else {
                "Lifecycle::Inconsistent"@
            },
            Some(
                "execution reconciliation requires a coherent local order lifecycle before interpreting fills"@,
            ),
        )
    } else if ev.fills.len() == 0 {
        (OrderExecutionStatus::SubmittedWithoutFills, "NoObservedFills"@, None)
    } else if ev.ordered_quantity is None {
        (
            OrderExecutionStatus::TargetQuantityUnknown,
            "MissingOrderedQuantity"@,
            Some(
                "decision.size_hint is absent, so the runtime cannot distinguish partial vs full execution"@,
            ),
        )
    } else {
        match cmp {
            QuantityComparison::Above => (
                OrderExecutionStatus::Overfilled,
                "ObservedQuantityExceedsOrderedQuantity"@,
                Some(
                    "filled quantity is larger than decision.size_hint under the current local model"@,
                ),
            ),
            QuantityComparison::Matches => (
                OrderExecutionStatus::FullyFilled,
                "ObservedQuantityMatchesOrderedQuantity"@,
                None,
            ),
            QuantityComparison::Below => (
                OrderExecutionStatus::PartiallyFilled,
                "ObservedQuantityBelowOrderedQuantity"@,
                None,
            ),
        }
    }
}

/// The outcome of the evidence, `cmp` being how the filled quantity stands
/// against the ordered one (read only when both are known).
pub open spec fn outcome_of(ev: OrderExecutionEvidenceView, cmp: QuantityComparison) -> OrderExecutionOutcomeView {
    let (status, reason, note) = execution_case(ev, cmp);
    OrderExecutionOutcomeView {
        decision_id: if ev.decision_refs.len() == 1 {
            Some(ev.decision_refs[0])
        } else {
            None
        },
        ordered_quantity_reported: ev.decision_refs.len() <= 1,
        status,
        reasons: fill_count_reasons(ev).push(reason),
        notes: sorted_elements(
            match note {
                Some(n) => base_notes(ev).insert(n),
                None => base_notes(ev),
            },
        ),
    }
}

fn sorted_notes(ev: &OrderExecutionEvidence, extra: Option<&str>) -> (r: Vec<String>)
    ensures
        strs(r@) == sorted_elements(
            match extra {
                Some(n) => base_notes(ev@).insert(n@),
                None => base_notes(ev@),
            },
        ),
{
    let mut notes: Vec<String> = Vec::new();
    let mut i: usize = 0;
    proof {
        assert(strs(notes@).to_set() =~= Set::<Seq<char>>::empty());
    }
    while i < ev.lifecycle_notes.len()
        invariant
            i <= ev.lifecycle_notes.len(),
            strictly_sorted(strs(notes@)),
            strs(notes@).to_set() == strs(ev.lifecycle_notes@).take(i as int).to_set(),
        decreases ev.lifecycle_notes.len() - i,
    {
        insert_sorted(&mut notes, ev.lifecycle_notes[i].clone());
        proof {
            assert(strs(ev.lifecycle_notes@).take(i as int + 1) =~= strs(ev.lifecycle_notes@).take(
                i as int,
            ).push(ev.lifecycle_notes@[i as int]@));
            strs(ev.lifecycle_notes@).take(i as int).lemma_push_to_set_commute(
                ev.lifecycle_notes@[i as int]@,
            );
        }
        i = i + 1;
    }
    proof {
        assert(strs(ev.lifecycle_notes@).take(ev.lifecycle_notes.len() as int) =~= strs(
            ev.lifecycle_notes@,
        ));
    }
    if ev.decision_found && ev.ordered_quantity.is_none() && ev.decision_refs.len() > 0 {
        let mut n = owned("decision ");
        n.append(ev.decision_refs[0].as_str());
        n.append(" has no size_hint in the current log");
        insert_sorted(&mut notes, n);
    }
    match extra {
        Some(x) => {
            insert_sorted(&mut notes, owned(x));
        },
        None => {},
    }
    proof {
        lemma_sorted_elements_of(strs(notes@));
    }
    notes
}

/// What the evidence makes of an order's execution.
pub fn order_execution_outcome(ev: &OrderExecutionEvidence, cmp: QuantityComparison) -> (r:
    OrderExecutionOutcome)
    ensures
        r@ == outcome_of(ev@, cmp),
{
    let mut reasons: Vec<String> = Vec::new();
    if ev.fills.len() > 0 {
        let mut c = owned("ObservedFillCount(");
        c.append(decimal_text(ev.fills.len()).as_str());
        c.append(")");
        reasons.push(c);
    }
    proof {
        assert(strs(reasons@) =~= fill_count_reasons(ev@));
    }
    let (status, reason, note): (OrderExecutionStatus, &str, Option<&str>) = if ev.decision_refs.len() > 1 {
        (
            OrderExecutionStatus::Inconsistent,
            "MultipleDecisionReferences",
            Some("execution reconciliation requires a single decision reference for one local order"),
        )
    } else if ev.lifecycle_status == OrderLifecycleStatus::Weak || ev.lifecycle_status
        == OrderLifecycleStatus::Inconsistent {
        (
            OrderExecutionStatus::Inconsistent,
            if ev.lifecycle_status == OrderLifecycleStatus::Weak {
                "Lifecycle::Weak"
            } else {
                "Lifecycle::Inconsistent"
            },
            Some(
                "execution reconciliation requires a coherent local order lifecycle before interpreting fills",
            ),
        )
    } else if ev.fills.len() == 0 {
        (OrderExecutionStatus::SubmittedWithoutFills, "NoObservedFills", None)
    } else if ev.ordered_quantity.is_none() {
        (
            OrderExecutionStatus::TargetQuantityUnknown,
            "MissingOrderedQuantity",
            Some(
                "decision.size_hint is absent, so the runtime cannot distinguish partial vs full execution",
            ),
        )
    } else {
        match cmp {
            QuantityComparison::Above => (
                OrderExecutionStatus::Overfilled,
                "ObservedQuantityExceedsOrderedQuantity",
                Some(
                    "filled quantity is larger than decision.size_hint under the current local model",
                ),
            ),
            QuantityComparison::Matches => (
                OrderExecutionStatus::FullyFilled,
                "ObservedQuantityMatchesOrderedQuantity",
                None,
            ),
            QuantityComparison::Below => (
                OrderExecutionStatus::PartiallyFilled,
                "ObservedQuantityBelowOrderedQuantity",
                None,
            ),
        }
    };
    proof {
        let (s2, r2, n2) = execution_case(ev@, cmp);
        assert(s2 == status);
        assert(r2 == reason@);
        assert(n2 == match note {
            Some(x) => Some(x@),
            None => None,
        });
    }
    let ghost before = reasons@;
    reasons.push(owned(reason));
    proof {
        assert(strs(reasons@) =~= strs(before).push(reason@));
    }
    let decision_id = if ev.decision_refs.len() == 1 {
        Some(ev.decision_refs[0].clone())
    } else {
        None
    };
    OrderExecutionOutcome {
        decision_id,
        ordered_quantity_reported: ev.decision_refs.len() <= 1,
        status,
        reasons,
        notes: sorted_notes(ev, note),
    }
}

} // verus!
