//! The execution boundary of a decision or a fill: whether what was executed
//! can be traced, coherently, to what was decided.
use vstd::prelude::*;

use crate::codecs::check_decodes;
use crate::events::{EventPayload, PayloadView};
use crate::queries::error::QueryError;
use crate::queries::lineage::{
    decision_lineage, decision_lineage_of, DecisionLineageReport, DecisionLineageStatus,
};
use crate::queries::readiness::refers_to_decision;
use crate::queries::support::{
    add_opt, answers, contains_text, insert_opt, lemma_take_step, lemma_views_push, only_if, pairs,
    triples, viewed, views_of,
};
use crate::store::{event_views, StoredEvent, StoredEventView};
use crate::text::{
    clone_opt, clone_strs, insert_sorted, lemma_sorted_elements_of, opt_text_is, opt_view, owned,
    same_text, sorted_elements, strictly_sorted, strs,
};

verus! {

#[derive(Debug, Clone, Copy, PartialEq, Eq, Structural)]
pub enum ExecutionBoundaryRefType {
    Decision,
    Fill,
}

#[derive(Debug, Clone, Copy, PartialEq, Eq, Structural)]
pub enum ExecutionBoundaryStatus {
    Clear,
    Weak,
    Blocked,
    Inconsistent,
}

#[derive(Debug, Clone, PartialEq, Eq)]
pub enum ExecutionBoundaryReason {
    DecisionFormedObserved,
    FillObserved { fill_id: String, order_id: String },
    LocalOrderRegistered { order_id: String, venue: String },
    MultipleCoherentFillsObserved { count: usize, order_id: String },
    NoExecutionObservedForDecision,
    MissingLocalOrderRegistration { order_id: String },
    DecisionLineageSupported { decision_id: String },
    DecisionLineageWeak { decision_id: String },
    DecisionLineageBlocked { decision_id: String },
    DecisionLineageInconsistent { decision_id: String },
    FillTracesToDecision { decision_id: String },
    FillTracesViaLocalOrder { decision_id: String, order_id: String },
    MissingDecisionReference,
    ExternalOrderReferenceOnly { order_id: String },
    AmbiguousDecisionReferences { decision_ids: Vec<String> },
    AmbiguousExternalOrderReferences { order_ids: Vec<String> },
    DecisionNotFound { decision_id: String },
    FillDecisionInstrumentMismatch {
        fill_id: String,
        fill_instrument: String,
        decision_instrument: String,
    },
    BlockedDecisionHasObservedFill { decision_id: String, fill_id: String },
    LocalOrderReferencesMissingDecision { order_id: String, decision_id: String },
}

pub enum ExecutionBoundaryReasonView {
    DecisionFormedObserved,
    FillObserved { fill_id: Seq<char>, order_id: Seq<char> },
    LocalOrderRegistered { order_id: Seq<char>, venue: Seq<char> },
    MultipleCoherentFillsObserved { count: usize, order_id: Seq<char> },
    NoExecutionObservedForDecision,
    MissingLocalOrderRegistration { order_id: Seq<char> },
    DecisionLineageSupported { decision_id: Seq<char> },
    DecisionLineageWeak { decision_id: Seq<char> },
    DecisionLineageBlocked { decision_id: Seq<char> },
    DecisionLineageInconsistent { decision_id: Seq<char> },
    FillTracesToDecision { decision_id: Seq<char> },
    FillTracesViaLocalOrder { decision_id: Seq<char>, order_id: Seq<char> },
    MissingDecisionReference,
    ExternalOrderReferenceOnly { order_id: Seq<char> },
    AmbiguousDecisionReferences { decision_ids: Seq<Seq<char>> },
    AmbiguousExternalOrderReferences { order_ids: Seq<Seq<char>> },
    DecisionNotFound { decision_id: Seq<char> },
    FillDecisionInstrumentMismatch {
        fill_id: Seq<char>,
        fill_instrument: Seq<char>,
        decision_instrument: Seq<char>,
    },
    BlockedDecisionHasObservedFill { decision_id: Seq<char>, fill_id: Seq<char> },
    LocalOrderReferencesMissingDecision { order_id: Seq<char>, decision_id: Seq<char> },
}

impl View for ExecutionBoundaryReason {
    type V = ExecutionBoundaryReasonView;

    open spec fn view(&self) -> ExecutionBoundaryReasonView {
        match self {
            ExecutionBoundaryReason::DecisionFormedObserved => ExecutionBoundaryReasonView::DecisionFormedObserved,
            ExecutionBoundaryReason::FillObserved { fill_id, order_id } => ExecutionBoundaryReasonView::FillObserved {
                fill_id: fill_id@,
                order_id: order_id@,
            },
            ExecutionBoundaryReason::LocalOrderRegistered { order_id, venue } => ExecutionBoundaryReasonView::LocalOrderRegistered {
                order_id: order_id@,
                venue: venue@,
            },
            ExecutionBoundaryReason::MultipleCoherentFillsObserved { count, order_id } => ExecutionBoundaryReasonView::MultipleCoherentFillsObserved {
                count: *count,
                order_id: order_id@,
            },
            ExecutionBoundaryReason::NoExecutionObservedForDecision => ExecutionBoundaryReasonView::NoExecutionObservedForDecision,
            ExecutionBoundaryReason::MissingLocalOrderRegistration { order_id } => ExecutionBoundaryReasonView::MissingLocalOrderRegistration {
                order_id: order_id@,
            },
            ExecutionBoundaryReason::DecisionLineageSupported { decision_id } => ExecutionBoundaryReasonView::DecisionLineageSupported {
                decision_id: decision_id@,
            },
            ExecutionBoundaryReason::DecisionLineageWeak { decision_id } => ExecutionBoundaryReasonView::DecisionLineageWeak {
                decision_id: decision_id@,
            },
            ExecutionBoundaryReason::DecisionLineageBlocked { decision_id } => ExecutionBoundaryReasonView::DecisionLineageBlocked {
                decision_id: decision_id@,
            },
            ExecutionBoundaryReason::DecisionLineageInconsistent { decision_id } => ExecutionBoundaryReasonView::DecisionLineageInconsistent {
                decision_id: decision_id@,
            },
            ExecutionBoundaryReason::FillTracesToDecision { decision_id } => ExecutionBoundaryReasonView::FillTracesToDecision {
                decision_id: decision_id@,
            },
            ExecutionBoundaryReason::FillTracesViaLocalOrder { decision_id, order_id } => ExecutionBoundaryReasonView::FillTracesViaLocalOrder {
                decision_id: decision_id@,
                order_id: order_id@,
            },
            ExecutionBoundaryReason::MissingDecisionReference => ExecutionBoundaryReasonView::MissingDecisionReference,
            ExecutionBoundaryReason::ExternalOrderReferenceOnly { order_id } => ExecutionBoundaryReasonView::ExternalOrderReferenceOnly {
                order_id: order_id@,
            },
            ExecutionBoundaryReason::AmbiguousDecisionReferences { decision_ids } => ExecutionBoundaryReasonView::AmbiguousDecisionReferences {
                decision_ids: strs(decision_ids@),
            },
            ExecutionBoundaryReason::AmbiguousExternalOrderReferences { order_ids } => ExecutionBoundaryReasonView::AmbiguousExternalOrderReferences {
                order_ids: strs(order_ids@),
            },
            ExecutionBoundaryReason::DecisionNotFound { decision_id } => ExecutionBoundaryReasonView::DecisionNotFound {
                decision_id: decision_id@,
            },
            ExecutionBoundaryReason::FillDecisionInstrumentMismatch {
                fill_id,
                fill_instrument,
                decision_instrument,
            } => ExecutionBoundaryReasonView::FillDecisionInstrumentMismatch {
                fill_id: fill_id@,
                fill_instrument: fill_instrument@,
                decision_instrument: decision_instrument@,
            },
            ExecutionBoundaryReason::BlockedDecisionHasObservedFill { decision_id, fill_id } => ExecutionBoundaryReasonView::BlockedDecisionHasObservedFill {
                decision_id: decision_id@,
                fill_id: fill_id@,
            },
            ExecutionBoundaryReason::LocalOrderReferencesMissingDecision { order_id, decision_id } => ExecutionBoundaryReasonView::LocalOrderReferencesMissingDecision {
                order_id: order_id@,
                decision_id: decision_id@,
            },
        }
    }
}

#[derive(Debug, Clone, PartialEq, Eq)]
pub struct ExecutionBoundaryReport {
    pub primary_ref_id: String,
    pub primary_ref_type: ExecutionBoundaryRefType,
    pub status: ExecutionBoundaryStatus,
    pub reasons: Vec<ExecutionBoundaryReason>,
    pub decision_refs: Vec<String>,
    pub observed_order_ids: Vec<String>,
    pub observed_fill_ids: Vec<String>,
    /// The orders in scope whose submission is logged, in increasing order.
    pub submitted_order_ids: Vec<String>,
    pub notes: Vec<String>,
}

pub struct ExecutionBoundaryReportView {
    pub primary_ref_id: Seq<char>,
    pub primary_ref_type: ExecutionBoundaryRefType,
    pub status: ExecutionBoundaryStatus,
    pub reasons: Seq<ExecutionBoundaryReasonView>,
    pub decision_refs: Seq<Seq<char>>,
    pub observed_order_ids: Seq<Seq<char>>,
    pub observed_fill_ids: Seq<Seq<char>>,
    pub submitted_order_ids: Seq<Seq<char>>,
    pub notes: Seq<Seq<char>>,
}

impl View for ExecutionBoundaryReport {
    type V = ExecutionBoundaryReportView;

    open spec fn view(&self) -> ExecutionBoundaryReportView {
        ExecutionBoundaryReportView {
            primary_ref_id: self.primary_ref_id@,
            primary_ref_type: self.primary_ref_type,
            status: self.status,
            reasons: views_of(self.reasons@),
            decision_refs: strs(self.decision_refs@),
            observed_order_ids: strs(self.observed_order_ids@),
            observed_fill_ids: strs(self.observed_fill_ids@),
            submitted_order_ids: strs(self.submitted_order_ids@),
            notes: strs(self.notes@),
        }
    }
}

pub open spec fn lineage_status_of(s: Seq<StoredEventView>, id: Seq<char>) -> Option<DecisionLineageStatus> {
    match decision_lineage_of(s, id) {
        Some(l) => Some(l.status),
        None => None,
    }
}

pub open spec fn lineage_boundary_reason(id: Seq<char>, st: Option<DecisionLineageStatus>) -> ExecutionBoundaryReasonView {
    match st {
        Some(DecisionLineageStatus::Supported) => ExecutionBoundaryReasonView::DecisionLineageSupported { decision_id: id },
        Some(DecisionLineageStatus::Weak) => ExecutionBoundaryReasonView::DecisionLineageWeak { decision_id: id },
        Some(DecisionLineageStatus::Blocked) => ExecutionBoundaryReasonView::DecisionLineageBlocked { decision_id: id },
        Some(DecisionLineageStatus::Inconsistent) => ExecutionBoundaryReasonView::DecisionLineageInconsistent { decision_id: id },
        None => ExecutionBoundaryReasonView::DecisionNotFound { decision_id: id },
    }
}


// ---------------------------------------------------------------------------
// The boundary of a decision
// ---------------------------------------------------------------------------
/// The instruments the decision `id` was formed on.
pub open spec fn formed_instruments(s: Seq<StoredEventView>, id: Seq<char>) -> Set<Seq<char>>
    decreases s.len(),
{
    if s.len() == 0 {
        Set::empty()
    } else {
        let rest = formed_instruments(s.drop_last(), id);
        match s.last().payload {
            PayloadView::DecisionFormed(p) => if p.decision_id == id {
                rest.insert(p.instrument)
            } else {
                rest
            },
            _ => rest,
        }
    }
}

/// The local orders of a scope: their registrations and their submissions.
pub struct LocalOrders {
    pub relevant: bool,
    pub order_ids: Set<Seq<char>>,
    /// `(order_id, venue, decision_id)` of each registration, in log order.
    pub orders: Seq<(Seq<char>, Seq<char>, Option<Seq<char>>)>,
    pub decision_ids: Set<Seq<char>>,
    pub submitted: Set<Seq<char>>,
}

pub open spec fn no_local_orders(start: Set<Seq<char>>) -> LocalOrders {
    LocalOrders {
        relevant: false,
        order_ids: Set::empty(),
        orders: Seq::empty(),
        decision_ids: start,
        submitted: Set::empty(),
    }
}

/// An order is in scope when it refers to the decision `decision`, or, with no
/// decision given, when it is one of `orders`.
pub open spec fn order_in_scope(
    decision: Option<Seq<char>>,
    orders: Set<Seq<char>>,
    order_id: Seq<char>,
    payload_ref: Option<Seq<char>>,
    linkage_ref: Option<Seq<char>>,
) -> bool {
    match decision {
        Some(d) => refers_to_decision(payload_ref, linkage_ref, d),
        None => orders.contains(order_id),
    }
}

/// The local orders in scope, with the decisions they refer to added to `start`.
pub open spec fn local_orders(
    s: Seq<StoredEventView>,
    decision: Option<Seq<char>>,
    orders: Set<Seq<char>>,
    start: Set<Seq<char>>,
) -> LocalOrders
    decreases s.len(),
{
    if s.len() == 0 {
        no_local_orders(start)
    } else {
        let f = local_orders(s.drop_last(), decision, orders, start);
        let e = s.last();
        match e.payload {
            PayloadView::OrderRegistered(p) => if order_in_scope(decision, orders, p.order_id, p.decision_id, e.linkage.decision_id) {
                LocalOrders {
                    relevant: true,
                    order_ids: f.order_ids.insert(p.order_id),
                    orders: f.orders.push((p.order_id, p.venue, p.decision_id)),
                    decision_ids: add_opt(
                        f.decision_ids,
                        match p.decision_id {
                            Some(x) => Some(x),
                            None => e.linkage.decision_id,
                        },
                    ),
                    ..f
                }
            } else {
                f
            },
            PayloadView::OrderSubmitted(p) => if order_in_scope(decision, orders, p.order_id, p.decision_id, e.linkage.decision_id) {
                LocalOrders { submitted: f.submitted.insert(p.order_id), ..f }
            } else {
                f
            },
            _ => f,
        }
    }
}

/// The fills of a decision.
pub struct DecisionFills {
    pub relevant: bool,
    pub fill_ids: Set<Seq<char>>,
    pub order_ids: Set<Seq<char>>,
    /// `(fill_id, order_id)` of each fill, in log order.
    pub refs: Seq<(Seq<char>, Seq<char>)>,
    /// `(fill_id, fill_instrument, decision_instrument)` for each fill on another
    /// instrument than the decision, one per instrument the decision was formed on.
    pub mismatches: Seq<(Seq<char>, Seq<char>, Seq<char>)>,
}

pub open spec fn decision_fills(
    s: Seq<StoredEventView>,
    id: Seq<char>,
    local_ids: Set<Seq<char>>,
    instruments: Seq<Seq<char>>,
) -> DecisionFills
    decreases s.len(),
{
    if s.len() == 0 {
        DecisionFills {
            relevant: false,
            fill_ids: Set::empty(),
            order_ids: Set::empty(),
            refs: Seq::empty(),
            mismatches: Seq::empty(),
        }
    } else {
        let f = decision_fills(s.drop_last(), id, local_ids, instruments);
        let e = s.last();
        match e.payload {
            PayloadView::FillReceived(p) => if refers_to_decision(p.decision_id, e.linkage.decision_id, id)
                || local_ids.contains(p.order_id) {
                DecisionFills {
                    relevant: true,
                    fill_ids: f.fill_ids.insert(p.fill_id),
                    order_ids: f.order_ids.insert(p.order_id),
                    refs: f.refs.push((p.fill_id, p.order_id)),
                    mismatches: if instruments.len() > 0 && !instruments.contains(p.instrument) {
                        f.mismatches + instruments.map_values(
                            |di: Seq<char>| (p.fill_id, p.instrument, di),
                        )
                    } else {
                        f.mismatches
                    },
                }
            } else {
                f
            },
            _ => f,
        }
    }
}

/// A `MissingLocalOrderRegistration` for each of `orders` that is not a local order.
pub open spec fn missing_local(orders: Seq<Seq<char>>, local_ids: Set<Seq<char>>) -> Seq<ExecutionBoundaryReasonView>
    decreases orders.len(),
{
    if orders.len() == 0 {
        Seq::empty()
    } else {
        missing_local(orders.drop_last(), local_ids) + only_if(
            !local_ids.contains(orders.last()),
            seq![ExecutionBoundaryReasonView::MissingLocalOrderRegistration { order_id: orders.last() }],
        )
    }
}

pub open spec fn fill_observed_reasons(v: Seq<(Seq<char>, Seq<char>)>) -> Seq<ExecutionBoundaryReasonView> {
    v.map_values(
        |x: (Seq<char>, Seq<char>)| ExecutionBoundaryReasonView::FillObserved { fill_id: x.0, order_id: x.1 },
    )
}

pub open spec fn local_order_reasons(v: Seq<(Seq<char>, Seq<char>, Option<Seq<char>>)>) -> Seq<ExecutionBoundaryReasonView> {
    v.map_values(
        |x: (Seq<char>, Seq<char>, Option<Seq<char>>)| ExecutionBoundaryReasonView::LocalOrderRegistered { order_id: x.0, venue: x.1 },
    )
}

pub open spec fn mismatch_reasons(fill_id: Option<Seq<char>>, v: Seq<(Seq<char>, Seq<char>, Seq<char>)>) -> Seq<ExecutionBoundaryReasonView> {
    v.map_values(
        |x: (Seq<char>, Seq<char>, Seq<char>)|
            ExecutionBoundaryReasonView::FillDecisionInstrumentMismatch {
                fill_id: match fill_id {
                    Some(f) => f,
                    None => x.0,
                },
                fill_instrument: x.1,
                decision_instrument: x.2,
            },
    )
}

pub open spec fn blocked_fill_reasons(id: Seq<char>, fills: Seq<Seq<char>>) -> Seq<ExecutionBoundaryReasonView> {
    fills.map_values(|x: Seq<char>| ExecutionBoundaryReasonView::BlockedDecisionHasObservedFill { decision_id: id, fill_id: x })
}

pub open spec fn fill_section(formed: bool, f: DecisionFills) -> Seq<ExecutionBoundaryReasonView> {
    let fill_ids = sorted_elements(f.fill_ids);
    let order_ids = sorted_elements(f.order_ids);
    only_if(formed, seq![ExecutionBoundaryReasonView::DecisionFormedObserved]) + (if fill_ids.len() == 0 {
        seq![ExecutionBoundaryReasonView::NoExecutionObservedForDecision]
    } else {
        fill_observed_reasons(f.refs) + only_if(
            fill_ids.len() > 1 && order_ids.len() == 1,
            seq![
                ExecutionBoundaryReasonView::MultipleCoherentFillsObserved {
                    count: fill_ids.len() as usize,
                    order_id: order_ids[0],
                },
            ],
        )
    })
}

pub open spec fn order_section(o: LocalOrders, f: DecisionFills) -> Seq<ExecutionBoundaryReasonView> {
    let order_ids = sorted_elements(f.order_ids);
    local_order_reasons(o.orders) + only_if(
        order_ids.len() > 1,
        seq![ExecutionBoundaryReasonView::AmbiguousExternalOrderReferences { order_ids: order_ids }],
    ) + missing_local(order_ids, o.order_ids)
}

pub open spec fn lineage_section(
    id: Seq<char>,
    f: DecisionFills,
    st: Option<DecisionLineageStatus>,
) -> Seq<ExecutionBoundaryReasonView> {
    mismatch_reasons(None, f.mismatches) + seq![lineage_boundary_reason(id, st)] + only_if(
        st == Some(DecisionLineageStatus::Blocked),
        blocked_fill_reasons(id, sorted_elements(f.fill_ids)),
    )
}

pub open spec fn decision_boundary_reasons(
    id: Seq<char>,
    formed: bool,
    o: LocalOrders,
    f: DecisionFills,
    st: Option<DecisionLineageStatus>,
) -> Seq<ExecutionBoundaryReasonView> {
    fill_section(formed, f) + order_section(o, f) + lineage_section(id, f, st)
}

pub open spec fn decision_boundary_notes(f: DecisionFills) -> Seq<Seq<char>> {
    seq!["order_id is treated as an external observed reference, not a local entity"@] + only_if(
        sorted_elements(f.fill_ids).len() == 0,
        seq!["no downstream fill has been observed yet, so the execution boundary remains weak"@],
    ) + only_if(
        sorted_elements(f.order_ids).len() > 1,
        seq!["multiple external order_ids point at the same decision; without a local order model this is ambiguous"@],
    )
}

pub open spec fn decision_boundary_status(
    o: LocalOrders,
    f: DecisionFills,
    st: Option<DecisionLineageStatus>,
) -> ExecutionBoundaryStatus {
    let order_ids = sorted_elements(f.order_ids);
    if order_ids.len() > 1 || st == Some(DecisionLineageStatus::Inconsistent) || f.mismatches.len() > 0
        || st is None {
        ExecutionBoundaryStatus::Inconsistent
    } else if st == Some(DecisionLineageStatus::Blocked) {
        ExecutionBoundaryStatus::Blocked
    } else if st == Some(DecisionLineageStatus::Supported) && sorted_elements(f.fill_ids).len() > 0
        && order_ids.len() == 1 && o.orders.len() > 0 && missing_local(order_ids, o.order_ids).len()
        == 0 {
        ExecutionBoundaryStatus::Clear
    } else {
        ExecutionBoundaryStatus::Weak
    }
}

/// The execution boundary of the decision `id` over the log `s`; `None` when no
/// formation, local order or fill of it is logged.
pub closed spec fn decision_boundary_of(s: Seq<StoredEventView>, id: Seq<char>) -> Option<ExecutionBoundaryReportView> {
    let instruments = formed_instruments(s, id);
    let formed = sorted_elements(instruments).len() > 0;
    let o = local_orders(s, Some(id), Set::empty(), Set::empty());
    let f = decision_fills(s, id, o.order_ids, sorted_elements(instruments));
    let st = lineage_status_of(s, id);
    if !(formed || o.relevant || f.relevant) {
        None
    } else {
        Some(
            ExecutionBoundaryReportView {
                primary_ref_id: id,
                primary_ref_type: ExecutionBoundaryRefType::Decision,
                status: decision_boundary_status(o, f, st),
                reasons: decision_boundary_reasons(id, formed, o, f, st),
                decision_refs: seq![id],
                observed_order_ids: sorted_elements(f.order_ids),
                observed_fill_ids: sorted_elements(f.fill_ids),
                submitted_order_ids: sorted_elements(o.submitted),
                notes: decision_boundary_notes(f),
            },
        )
    }
}

fn scan_formed_instruments(events: &[StoredEvent], id: &str) -> (r: Vec<String>)
    ensures
        strictly_sorted(strs(r@)),
        strs(r@).to_set() == formed_instruments(event_views(events@), id@),
{
    let ghost s = event_views(events@);
    let mut r: Vec<String> = Vec::new();
    proof {
        assert(strs(r@).to_set() =~= Set::empty());
        assert(s.take(0) =~= Seq::<StoredEventView>::empty());
    }
    let mut i: usize = 0;
    while i < events.len()
        invariant
            i <= events.len(),
            s == event_views(events@),
            strictly_sorted(strs(r@)),
            strs(r@).to_set() == formed_instruments(s.take(i as int), id@),
        decreases events.len() - i,
    {
        proof {
            lemma_take_step(s, i as int);
        }
        match &events[i].payload {
            EventPayload::DecisionFormed(p) => {
                if same_text(p.decision_id.as_str(), id) {
                    insert_sorted(&mut r, p.instrument.clone());
                }
            },
            _ => {},
        }
        i = i + 1;
    }
    proof {
        assert(s.take(i as int) =~= s);
    }
    r
}

struct OrderScan {
    relevant: bool,
    order_ids: Vec<String>,
    orders: Vec<(String, String, Option<String>)>,
    decision_ids: Vec<String>,
    submitted: Vec<String>,
}

pub open spec fn order_triples(v: Seq<(String, String, Option<String>)>) -> Seq<(Seq<char>, Seq<char>, Option<Seq<char>>)> {
    v.map_values(|p: (String, String, Option<String>)| (p.0@, p.1@, opt_view(p.2)))
}

impl OrderScan {
    spec fn facts(&self) -> LocalOrders {
        LocalOrders {
            relevant: self.relevant,
            order_ids: strs(self.order_ids@).to_set(),
            orders: order_triples(self.orders@),
            decision_ids: strs(self.decision_ids@).to_set(),
            submitted: strs(self.submitted@).to_set(),
        }
    }

    spec fn sorted(&self) -> bool {
        &&& strictly_sorted(strs(self.order_ids@))
        &&& strictly_sorted(strs(self.decision_ids@))
        &&& strictly_sorted(strs(self.submitted@))
    }
}

/// The local orders of the decision `decision`, or, when it is `None`, of the
/// orders `orders`.
fn scan_local_orders(
    events: &[StoredEvent],
    decision: &Option<String>,
    orders: &Vec<String>,
    start: Vec<String>,
) -> (r: OrderScan)
    requires
        strictly_sorted(strs(start@)),
    ensures
        r.sorted(),
        r.facts() == local_orders(
            event_views(events@),
            opt_view(*decision),
            strs(orders@).to_set(),
            strs(start@).to_set(),
        ),
{
    let ghost s = event_views(events@);
    let ghost set = strs(orders@).to_set();
    let ghost start_set = strs(start@).to_set();
    let mut scan = OrderScan {
        relevant: false,
        order_ids: Vec::new(),
        orders: Vec::new(),
        decision_ids: start,
        submitted: Vec::new(),
    };
    proof {
        assert(strs(scan.order_ids@).to_set() =~= Set::empty());
        assert(strs(scan.submitted@).to_set() =~= Set::empty());
        assert(order_triples(scan.orders@) =~= Seq::empty());
        assert(scan.facts() == no_local_orders(start_set));
        assert(s.take(0) =~= Seq::<StoredEventView>::empty());
    }
    let mut i: usize = 0;
    while i < events.len()
        invariant
            i <= events.len(),
            s == event_views(events@),
            set == strs(orders@).to_set(),
            scan.sorted(),
            scan.facts() == local_orders(s.take(i as int), opt_view(*decision), set, start_set),
        decreases events.len() - i,
    {
        proof {
            lemma_take_step(s, i as int);
        }
        let e = &events[i];
        match &e.payload {
            EventPayload::OrderRegistered(p) => {
                let in_scope = match decision {
                    Some(d) => opt_text_is(&p.decision_id, d.as_str()) || opt_text_is(
                        &e.linkage.decision_id,
                        d.as_str(),
                    ),
                    None => contains_text(orders, p.order_id.as_str()),
                };
                if in_scope {
                    scan.relevant = true;
                    insert_sorted(&mut scan.order_ids, p.order_id.clone());
                    let ghost before = scan.orders@;
                    scan.orders.push((p.order_id.clone(), p.venue.clone(), clone_opt(&p.decision_id)));
                    let d = match &p.decision_id {
                        Some(x) => Some(x.clone()),
                        None => clone_opt(&e.linkage.decision_id),
                    };
                    insert_opt(&mut scan.decision_ids, &d);
                    proof {
                        assert(order_triples(scan.orders@) =~= order_triples(before).push(
                            (p.order_id@, p.venue@, opt_view(p.decision_id)),
                        ));
                    }
                }
            },
            EventPayload::OrderSubmitted(p) => {
                let in_scope = match decision {
                    Some(d) => opt_text_is(&p.decision_id, d.as_str()) || opt_text_is(
                        &e.linkage.decision_id,
                        d.as_str(),
                    ),
                    None => contains_text(orders, p.order_id.as_str()),
                };
                if in_scope {
                    insert_sorted(&mut scan.submitted, p.order_id.clone());
                }
            },
            _ => {},
        }
        i = i + 1;
    }
    proof {
        assert(s.take(i as int) =~= s);
    }
    scan
}

struct FillScan {
    relevant: bool,
    fill_ids: Vec<String>,
    order_ids: Vec<String>,
    refs: Vec<(String, String)>,
    mismatches: Vec<(String, String, String)>,
}

impl FillScan {
    spec fn facts(&self) -> DecisionFills {
        DecisionFills {
            relevant: self.relevant,
            fill_ids: strs(self.fill_ids@).to_set(),
            order_ids: strs(self.order_ids@).to_set(),
            refs: pairs(self.refs@),
            mismatches: triples(self.mismatches@),
        }
    }

    spec fn sorted(&self) -> bool {
        &&& strictly_sorted(strs(self.fill_ids@))
        &&& strictly_sorted(strs(self.order_ids@))
    }
}

fn push_mismatches(
    out: &mut Vec<(String, String, String)>,
    fill_id: &String,
    fill_instrument: &String,
    instruments: &Vec<String>,
)
    ensures
        triples(final(out)@) == triples(old(out)@) + strs(instruments@).map_values(
            |di: Seq<char>| (fill_id@, fill_instrument@, di),
        ),
{
    let ghost p0 = triples(out@);
    let mut k: usize = 0;
    while k < instruments.len()
        invariant
            k <= instruments.len(),
            triples(out@) == p0 + strs(instruments@).take(k as int).map_values(
                |di: Seq<char>| (fill_id@, fill_instrument@, di),
            ),
        decreases instruments.len() - k,
    {
        let ghost before = out@;
        out.push((fill_id.clone(), fill_instrument.clone(), instruments[k].clone()));
        proof {
            assert(triples(out@) =~= triples(before).push(
                (fill_id@, fill_instrument@, instruments@[k as int]@),
            ));
            assert(strs(instruments@).take(k as int + 1).map_values(
                |di: Seq<char>| (fill_id@, fill_instrument@, di),
            ) =~= strs(instruments@).take(k as int).map_values(
                |di: Seq<char>| (fill_id@, fill_instrument@, di),
            ).push((fill_id@, fill_instrument@, instruments@[k as int]@)));
        }
        k = k + 1;
    }
    proof {
        assert(strs(instruments@).take(k as int) =~= strs(instruments@));
    }
}

fn scan_decision_fills(
    events: &[StoredEvent],
    id: &str,
    local_ids: &Vec<String>,
    instruments: &Vec<String>,
) -> (r: FillScan)
    ensures
        r.sorted(),
        r.facts() == decision_fills(
            event_views(events@),
            id@,
            strs(local_ids@).to_set(),
            strs(instruments@),
        ),
{
    let ghost s = event_views(events@);
    let ghost set = strs(local_ids@).to_set();
    let mut scan = FillScan {
        relevant: false,
        fill_ids: Vec::new(),
        order_ids: Vec::new(),
        refs: Vec::new(),
        mismatches: Vec::new(),
    };
    proof {
        assert(strs(scan.fill_ids@).to_set() =~= Set::empty());
        assert(strs(scan.order_ids@).to_set() =~= Set::empty());
        assert(pairs(scan.refs@) =~= Seq::empty());
        assert(triples(scan.mismatches@) =~= Seq::empty());
        assert(s.take(0) =~= Seq::<StoredEventView>::empty());
    }
    let mut i: usize = 0;
    while i < events.len()
        invariant
            i <= events.len(),
            s == event_views(events@),
            set == strs(local_ids@).to_set(),
            scan.sorted(),
            scan.facts() == decision_fills(s.take(i as int), id@, set, strs(instruments@)),
        decreases events.len() - i,
    {
        proof {
            lemma_take_step(s, i as int);
        }
        let e = &events[i];
        match &e.payload {
            EventPayload::FillReceived(p) => {
                if opt_text_is(&p.decision_id, id) || opt_text_is(&e.linkage.decision_id, id)
                    || contains_text(local_ids, p.order_id.as_str()) {
                    scan.relevant = true;
                    insert_sorted(&mut scan.fill_ids, p.fill_id.clone());
                    insert_sorted(&mut scan.order_ids, p.order_id.clone());
                    let ghost before = scan.refs@;
                    scan.refs.push((p.fill_id.clone(), p.order_id.clone()));
                    proof {
                        assert(pairs(scan.refs@) =~= pairs(before).push((p.fill_id@, p.order_id@)));
                        assert(strs(instruments@).to_set().contains(p.instrument@)
                            <==> strs(instruments@).contains(p.instrument@));
                    }
                    if instruments.len() > 0 && !contains_text(instruments, p.instrument.as_str()) {
                        push_mismatches(&mut scan.mismatches, &p.fill_id, &p.instrument, instruments);
                    }
                }
            },
            _ => {},
        }
        i = i + 1;
    }
    proof {
        assert(s.take(i as int) =~= s);
    }
    scan
}

fn push_boundary_reason(out: &mut Vec<ExecutionBoundaryReason>, x: ExecutionBoundaryReason)
    ensures
        views_of(final(out)@) == views_of(old(out)@).push(x@),
{
    let ghost before = out@;
    out.push(x);
    proof {
        lemma_views_push(before, x);
    }
}

fn push_fill_observed(out: &mut Vec<ExecutionBoundaryReason>, items: &Vec<(String, String)>)
    ensures
        views_of(final(out)@) == views_of(old(out)@) + fill_observed_reasons(pairs(items@)),
{
    let ghost p0 = views_of(out@);
    let mut k: usize = 0;
    while k < items.len()
        invariant
            k <= items.len(),
            views_of(out@) == p0 + fill_observed_reasons(pairs(items@).take(k as int)),
        decreases items.len() - k,
    {
        let x = ExecutionBoundaryReason::FillObserved {
            fill_id: items[k].0.clone(),
            order_id: items[k].1.clone(),
        };
        push_boundary_reason(out, x);
        proof {
            assert(fill_observed_reasons(pairs(items@).take(k as int + 1)) =~= fill_observed_reasons(
                pairs(items@).take(k as int),
            ).push(x@));
        }
        k = k + 1;
    }
    proof {
        assert(pairs(items@).take(k as int) =~= pairs(items@));
    }
}

fn push_local_orders(out: &mut Vec<ExecutionBoundaryReason>, items: &Vec<(String, String, Option<String>)>)
    ensures
        views_of(final(out)@) == views_of(old(out)@) + local_order_reasons(order_triples(items@)),
{
    let ghost p0 = views_of(out@);
    let mut k: usize = 0;
    while k < items.len()
        invariant
            k <= items.len(),
            views_of(out@) == p0 + local_order_reasons(order_triples(items@).take(k as int)),
        decreases items.len() - k,
    {
        let x = ExecutionBoundaryReason::LocalOrderRegistered {
            order_id: items[k].0.clone(),
            venue: items[k].1.clone(),
        };
        push_boundary_reason(out, x);
        proof {
            assert(local_order_reasons(order_triples(items@).take(k as int + 1)) =~= local_order_reasons(
                order_triples(items@).take(k as int),
            ).push(x@));
        }
        k = k + 1;
    }
    proof {
        assert(order_triples(items@).take(k as int) =~= order_triples(items@));
    }
}

fn push_missing_local(
    out: &mut Vec<ExecutionBoundaryReason>,
    orders: &Vec<String>,
    local_ids: &Vec<String>,
) -> (any: bool)
    ensures
        views_of(final(out)@) == views_of(old(out)@) + missing_local(
            strs(orders@),
            strs(local_ids@).to_set(),
        ),
        any == (missing_local(strs(orders@), strs(local_ids@).to_set()).len() > 0),
{
    let ghost p0 = views_of(out@);
    let ghost set = strs(local_ids@).to_set();
    let mut any = false;
    let mut k: usize = 0;
    while k < orders.len()
        invariant
            k <= orders.len(),
            set == strs(local_ids@).to_set(),
            views_of(out@) == p0 + missing_local(strs(orders@).take(k as int), set),
            any == (missing_local(strs(orders@).take(k as int), set).len() > 0),
        decreases orders.len() - k,
    {
        proof {
            lemma_take_step(strs(orders@), k as int);
        }
        let ghost before = views_of(out@);
        if !contains_text(local_ids, orders[k].as_str()) {
            any = true;
            push_boundary_reason(
                out,
                ExecutionBoundaryReason::MissingLocalOrderRegistration { order_id: orders[k].clone() },
            );
        }
        proof {
            assert(views_of(out@) =~= before + only_if(
                !set.contains(strs(orders@)[k as int]),
                seq![ExecutionBoundaryReasonView::MissingLocalOrderRegistration { order_id: strs(orders@)[k as int] }],
            ));
        }
        k = k + 1;
    }
    proof {
        assert(strs(orders@).take(k as int) =~= strs(orders@));
    }
    any
}

fn push_mismatch_reasons(
    out: &mut Vec<ExecutionBoundaryReason>,
    fill_id: &Option<String>,
    items: &Vec<(String, String, String)>,
)
    ensures
        views_of(final(out)@) == views_of(old(out)@) + mismatch_reasons(opt_view(*fill_id), triples(items@)),
{
    let ghost p0 = views_of(out@);
    let mut k: usize = 0;
    while k < items.len()
        invariant
            k <= items.len(),
            views_of(out@) == p0 + mismatch_reasons(opt_view(*fill_id), triples(items@).take(k as int)),
        decreases items.len() - k,
    {
        let f = match fill_id {
            Some(x) => x.clone(),
            None => items[k].0.clone(),
        };
        let x = ExecutionBoundaryReason::FillDecisionInstrumentMismatch {
            fill_id: f,
            fill_instrument: items[k].1.clone(),
            decision_instrument: items[k].2.clone(),
        };
        push_boundary_reason(out, x);
        proof {
            assert(mismatch_reasons(opt_view(*fill_id), triples(items@).take(k as int + 1)) =~= mismatch_reasons(
                opt_view(*fill_id),
                triples(items@).take(k as int),
            ).push(x@));
        }
        k = k + 1;
    }
    proof {
        assert(triples(items@).take(k as int) =~= triples(items@));
    }
}

fn push_blocked_fills(out: &mut Vec<ExecutionBoundaryReason>, id: &str, fills: &Vec<String>)
    ensures
        views_of(final(out)@) == views_of(old(out)@) + blocked_fill_reasons(id@, strs(fills@)),
{
    let ghost p0 = views_of(out@);
    let mut k: usize = 0;
    while k < fills.len()
        invariant
            k <= fills.len(),
            views_of(out@) == p0 + blocked_fill_reasons(id@, strs(fills@).take(k as int)),
        decreases fills.len() - k,
    {
        let x = ExecutionBoundaryReason::BlockedDecisionHasObservedFill {
            decision_id: owned(id),
            fill_id: fills[k].clone(),
        };
        push_boundary_reason(out, x);
        proof {
            assert(blocked_fill_reasons(id@, strs(fills@).take(k as int + 1)) =~= blocked_fill_reasons(
                id@,
                strs(fills@).take(k as int),
            ).push(x@));
        }
        k = k + 1;
    }
    proof {
        assert(strs(fills@).take(k as int) =~= strs(fills@));
    }
}

fn lineage_status_in(r: &Option<DecisionLineageReport>) -> (st: Option<DecisionLineageStatus>)
    ensures
        st == match viewed(*r) {
            Some(x) => Some(x.status),
            None => None,
        },
{
    match r {
        Some(x) => Some(x.status),
        None => None,
    }
}

fn lineage_reason(id: &str, st: Option<DecisionLineageStatus>) -> (r: ExecutionBoundaryReason)
    ensures
        r@ == lineage_boundary_reason(id@, st),
{
    match st {
        Some(DecisionLineageStatus::Supported) => ExecutionBoundaryReason::DecisionLineageSupported {
            decision_id: owned(id),
        },
        Some(DecisionLineageStatus::Weak) => ExecutionBoundaryReason::DecisionLineageWeak { decision_id: owned(id) },
        Some(DecisionLineageStatus::Blocked) => ExecutionBoundaryReason::DecisionLineageBlocked {
            decision_id: owned(id),
        },
        Some(DecisionLineageStatus::Inconsistent) => ExecutionBoundaryReason::DecisionLineageInconsistent {
            decision_id: owned(id),
        },
        None => ExecutionBoundaryReason::DecisionNotFound { decision_id: owned(id) },
    }
}

fn push_fill_section(out: &mut Vec<ExecutionBoundaryReason>, notes: &mut Vec<String>, formed: bool, fills: &FillScan)
    requires
        fills.sorted(),
    ensures
        views_of(final(out)@) == views_of(old(out)@) + fill_section(formed, fills.facts()),
        strs(final(notes)@) == strs(old(notes)@) + only_if(
            sorted_elements(fills.facts().fill_ids).len() == 0,
            seq!["no downstream fill has been observed yet, so the execution boundary remains weak"@],
        ),
{
    let ghost p0 = views_of(out@);
    let ghost n0 = strs(notes@);
    proof {
        lemma_sorted_elements_of(strs(fills.fill_ids@));
        lemma_sorted_elements_of(strs(fills.order_ids@));
    }
    if formed {
        push_boundary_reason(out, ExecutionBoundaryReason::DecisionFormedObserved);
    }
    let ghost p1 = views_of(out@);
    if fills.fill_ids.len() == 0 {
        push_boundary_reason(out, ExecutionBoundaryReason::NoExecutionObservedForDecision);
        notes.push(owned("no downstream fill has been observed yet, so the execution boundary remains weak"));
        proof {
            assert(strs(notes@) =~= n0 + seq!["no downstream fill has been observed yet, so the execution boundary remains weak"@]);
        }
    } else {
        push_fill_observed(out, &fills.refs);
        if fills.fill_ids.len() > 1 && fills.order_ids.len() == 1 {
            push_boundary_reason(
                out,
                ExecutionBoundaryReason::MultipleCoherentFillsObserved {
                    count: fills.fill_ids.len(),
                    order_id: fills.order_ids[0].clone(),
                },
            );
        }
        proof {
            assert(strs(notes@) =~= n0);
        }
    }
    proof {
        assert(views_of(out@) =~= p0 + fill_section(formed, fills.facts()));
    }
}

fn push_order_section(
    out: &mut Vec<ExecutionBoundaryReason>,
    notes: &mut Vec<String>,
    orders: &OrderScan,
    fills: &FillScan,
) -> (any_missing: bool)
    requires
        fills.sorted(),
    ensures
        views_of(final(out)@) == views_of(old(out)@) + order_section(orders.facts(), fills.facts()),
        strs(final(notes)@) == strs(old(notes)@) + only_if(
            sorted_elements(fills.facts().order_ids).len() > 1,
            seq!["multiple external order_ids point at the same decision; without a local order model this is ambiguous"@],
        ),
        any_missing == (missing_local(sorted_elements(fills.facts().order_ids), orders.facts().order_ids).len() > 0),
{
    let ghost p0 = views_of(out@);
    let ghost n0 = strs(notes@);
    proof {
        lemma_sorted_elements_of(strs(fills.order_ids@));
    }
    push_local_orders(out, &orders.orders);
    if fills.order_ids.len() > 1 {
        push_boundary_reason(
            out,
            ExecutionBoundaryReason::AmbiguousExternalOrderReferences { order_ids: clone_strs(&fills.order_ids) },
        );
        notes.push(
            owned(
                "multiple external order_ids point at the same decision; without a local order model this is ambiguous",
            ),
        );
        proof {
            assert(strs(notes@) =~= n0 + seq!["multiple external order_ids point at the same decision; without a local order model this is ambiguous"@]);
        }
    } else {
        proof {
            assert(strs(notes@) =~= n0);
        }
    }
    let any_missing = push_missing_local(out, &fills.order_ids, &orders.order_ids);
    proof {
        assert(views_of(out@) =~= p0 + order_section(orders.facts(), fills.facts()));
    }
    any_missing
}

fn push_lineage_section(
    out: &mut Vec<ExecutionBoundaryReason>,
    id: &str,
    fills: &FillScan,
    st: Option<DecisionLineageStatus>,
)
    requires
        fills.sorted(),
    ensures
        views_of(final(out)@) == views_of(old(out)@) + lineage_section(id@, fills.facts(), st),
{
    let ghost p0 = views_of(out@);
    proof {
        lemma_sorted_elements_of(strs(fills.fill_ids@));
    }
    push_mismatch_reasons(out, &None, &fills.mismatches);
    push_boundary_reason(out, lineage_reason(id, st));
    let ghost p1 = views_of(out@);
    if st == Some(DecisionLineageStatus::Blocked) {
        push_blocked_fills(out, id, &fills.fill_ids);
    }
    proof {
        assert(views_of(out@) =~= p1 + only_if(
            st == Some(DecisionLineageStatus::Blocked),
            blocked_fill_reasons(id@, sorted_elements(fills.facts().fill_ids)),
        ));
        assert(views_of(out@) =~= p0 + lineage_section(id@, fills.facts(), st));
    }
}

fn decision_boundary_body(
    id: &str,
    formed: bool,
    orders: &OrderScan,
    fills: &FillScan,
    st: Option<DecisionLineageStatus>,
) -> (r: (Vec<ExecutionBoundaryReason>, Vec<String>, ExecutionBoundaryStatus))
    requires
        orders.sorted(),
        fills.sorted(),
    ensures
        views_of(r.0@) == decision_boundary_reasons(id@, formed, orders.facts(), fills.facts(), st),
        strs(r.1@) == decision_boundary_notes(fills.facts()),
        r.2 == decision_boundary_status(orders.facts(), fills.facts(), st),
{
    proof {
        lemma_sorted_elements_of(strs(fills.fill_ids@));
        lemma_sorted_elements_of(strs(fills.order_ids@));
    }
    let mut reasons: Vec<ExecutionBoundaryReason> = Vec::new();
    let mut notes: Vec<String> = Vec::new();
    notes.push(owned("order_id is treated as an external observed reference, not a local entity"));
    proof {
        assert(views_of(reasons@) =~= Seq::empty());
        assert(strs(notes@) =~= seq!["order_id is treated as an external observed reference, not a local entity"@]);
    }
    push_fill_section(&mut reasons, &mut notes, formed, fills);
    let any_missing = push_order_section(&mut reasons, &mut notes, orders, fills);
    push_lineage_section(&mut reasons, id, fills, st);
    proof {
        assert(views_of(reasons@) =~= decision_boundary_reasons(id@, formed, orders.facts(), fills.facts(), st));
        assert(strs(notes@) =~= decision_boundary_notes(fills.facts()));
    }
    let status = if fills.order_ids.len() > 1 || st == Some(DecisionLineageStatus::Inconsistent)
        || fills.mismatches.len() > 0 || st.is_none() {
        ExecutionBoundaryStatus::Inconsistent
    } else if st == Some(DecisionLineageStatus::Blocked) {
        ExecutionBoundaryStatus::Blocked
    } else if st == Some(DecisionLineageStatus::Supported) && fills.fill_ids.len() > 0
        && fills.order_ids.len() == 1 && orders.orders.len() > 0 && !any_missing {
        ExecutionBoundaryStatus::Clear
    } else {
        ExecutionBoundaryStatus::Weak
    };
    (reasons, notes, status)
}

/// The execution boundary of a decision: which fills and orders were observed
/// for it, whether they are registered locally and agree with the decision.
pub fn decision_execution_boundary(events: &[StoredEvent], decision_id: &str) -> (r: Result<
    Option<ExecutionBoundaryReport>,
    QueryError,
>)
    ensures
        answers(r, event_views(events@), decision_boundary_of(event_views(events@), decision_id@)),
{
    let ghost s = event_views(events@);
    match check_decodes(events) {
        Err(e) => return Err(QueryError::Codec(e)),
        Ok(_) => {},
    }
    let instruments = scan_formed_instruments(events, decision_id);
    let no_orders: Vec<String> = Vec::new();
    let no_decisions: Vec<String> = Vec::new();
    proof {
        assert(strs(no_decisions@).to_set() =~= Set::empty());
    }
    let orders = scan_local_orders(events, &Some(owned(decision_id)), &no_orders, no_decisions);
    let fills = scan_decision_fills(events, decision_id, &orders.order_ids, &instruments);
    proof {
        assert(strs(no_orders@).to_set() =~= Set::empty());
        lemma_sorted_elements_of(strs(instruments@));
        lemma_sorted_elements_of(strs(fills.fill_ids@));
        lemma_sorted_elements_of(strs(fills.order_ids@));
        lemma_sorted_elements_of(strs(orders.submitted@));
    }
    let formed = instruments.len() > 0;
    if !(formed || orders.relevant || fills.relevant) {
        return Ok(None);
    }
    let lineage = match decision_lineage(events, decision_id) {
        Ok(x) => x,
        Err(e) => return Err(e),
    };
    let st = lineage_status_in(&lineage);
    let (reasons, notes, status) = decision_boundary_body(decision_id, formed, &orders, &fills, st);
    let mut decision_refs: Vec<String> = Vec::new();
    decision_refs.push(owned(decision_id));
    proof {
        assert(strs(decision_refs@) =~= seq![decision_id@]);
    }
    Ok(
        Some(
            ExecutionBoundaryReport {
                primary_ref_id: owned(decision_id),
                primary_ref_type: ExecutionBoundaryRefType::Decision,
                status,
                reasons,
                decision_refs,
                observed_order_ids: clone_strs(&fills.order_ids),
                observed_fill_ids: clone_strs(&fills.fill_ids),
                submitted_order_ids: clone_strs(&orders.submitted),
                notes,
            },
        ),
    )
}


// ---------------------------------------------------------------------------
// The boundary of a fill
// ---------------------------------------------------------------------------
/// The receipts of one fill.
pub struct FillReceipts {
    pub relevant: bool,
    pub order_ids: Set<Seq<char>>,
    pub decision_ids: Set<Seq<char>>,
    /// Whether some receipt names a decision itself.
    pub direct: bool,
    /// The instrument of the latest receipt.
    pub instrument: Option<Seq<char>>,
}

pub open spec fn fill_receipts(s: Seq<StoredEventView>, id: Seq<char>) -> FillReceipts
    decreases s.len(),
{
    if s.len() == 0 {
        FillReceipts {
            relevant: false,
            order_ids: Set::empty(),
            decision_ids: Set::empty(),
            direct: false,
            instrument: None,
        }
    } else {
        let f = fill_receipts(s.drop_last(), id);
        let e = s.last();
        match e.payload {
            PayloadView::FillReceived(p) => if p.fill_id == id {
                let d = match p.decision_id {
                    Some(x) => Some(x),
                    None => e.linkage.decision_id,
                };
                FillReceipts {
                    relevant: true,
                    order_ids: f.order_ids.insert(p.order_id),
                    decision_ids: add_opt(f.decision_ids, d),
                    direct: f.direct || d is Some,
                    instrument: Some(p.instrument),
                }
            } else {
                f
            },
            _ => f,
        }
    }
}

/// `(d, instrument, other)` for each formation of decision `d` on an instrument `other`
/// that is not `instrument`, in log order.
pub open spec fn formed_elsewhere(
    s: Seq<StoredEventView>,
    d: Seq<char>,
    instrument: Seq<char>,
) -> Seq<(Seq<char>, Seq<char>, Seq<char>)>
    decreases s.len(),
{
    if s.len() == 0 {
        Seq::empty()
    } else {
        formed_elsewhere(s.drop_last(), d, instrument) + match s.last().payload {
            PayloadView::DecisionFormed(p) => only_if(
                p.decision_id == d && p.instrument != instrument,
                seq![(d, instrument, p.instrument)],
            ),
            _ => Seq::empty(),
        }
    }
}

pub open spec fn formed_elsewhere_all(
    s: Seq<StoredEventView>,
    ds: Seq<Seq<char>>,
    instrument: Seq<char>,
) -> Seq<(Seq<char>, Seq<char>, Seq<char>)>
    decreases ds.len(),
{
    if ds.len() == 0 {
        Seq::empty()
    } else {
        formed_elsewhere_all(s, ds.drop_last(), instrument) + formed_elsewhere(s, ds.last(), instrument)
    }
}

/// The decision named by the first local order that names one.
pub open spec fn first_named_decision(v: Seq<(Seq<char>, Seq<char>, Option<Seq<char>>)>) -> Option<Seq<char>>
    decreases v.len(),
{
    if v.len() == 0 {
        None
    } else {
        match first_named_decision(v.drop_last()) {
            Some(x) => Some(x),
            None => v.last().2,
        }
    }
}

/// A `LocalOrderReferencesMissingDecision` for each local order naming a decision with no lineage.
pub open spec fn orphan_orders(
    s: Seq<StoredEventView>,
    v: Seq<(Seq<char>, Seq<char>, Option<Seq<char>>)>,
) -> Seq<ExecutionBoundaryReasonView>
    decreases v.len(),
{
    if v.len() == 0 {
        Seq::empty()
    } else {
        orphan_orders(s, v.drop_last()) + match v.last().2 {
            Some(d) => only_if(
                decision_lineage_of(s, d) is None,
                seq![ExecutionBoundaryReasonView::LocalOrderReferencesMissingDecision { order_id: v.last().0, decision_id: d }],
            ),
            None => Seq::empty(),
        }
    }
}

pub open spec fn first_or_empty(v: Seq<Seq<char>>) -> Seq<char> {
    if v.len() > 0 {
        v[0]
    } else {
        Seq::empty()
    }
}

/// The decision a fill traces to through a local order, when no receipt names one.
pub open spec fn traced_decision(r: FillReceipts, o: LocalOrders) -> Option<Seq<char>> {
    if r.direct {
        None
    } else {
        first_named_decision(o.orders)
    }
}

pub open spec fn missing_orders_all(orders: Seq<Seq<char>>) -> Seq<ExecutionBoundaryReasonView> {
    orders.map_values(|x: Seq<char>| ExecutionBoundaryReasonView::MissingLocalOrderRegistration { order_id: x })
}

pub open spec fn fill_head_section(r: FillReceipts, o: LocalOrders) -> Seq<ExecutionBoundaryReasonView> {
    let order_ids = sorted_elements(r.order_ids);
    let ds = sorted_elements(o.decision_ids);
    only_if(
        order_ids.len() > 0 && ds.len() == 0 && o.orders.len() == 0,
        seq![ExecutionBoundaryReasonView::ExternalOrderReferenceOnly { order_id: order_ids[0] }],
    ) + local_order_reasons(o.orders) + (if r.direct {
        Seq::empty()
    } else {
        match first_named_decision(o.orders) {
            Some(ld) => seq![
                ExecutionBoundaryReasonView::FillTracesViaLocalOrder {
                    decision_id: ld,
                    order_id: first_or_empty(order_ids),
                },
            ],
            None => only_if(ds.len() == 0, seq![ExecutionBoundaryReasonView::MissingDecisionReference]),
        }
    })
}

pub open spec fn fill_decision_section(
    s: Seq<StoredEventView>,
    r: FillReceipts,
    o: LocalOrders,
) -> Seq<ExecutionBoundaryReasonView> {
    let order_ids = sorted_elements(r.order_ids);
    let all = sorted_elements(add_opt(o.decision_ids, traced_decision(r, o)));
    (if all.len() == 1 && o.orders.len() == 0 {
        missing_orders_all(order_ids)
    } else if all.len() > 1 {
        seq![ExecutionBoundaryReasonView::AmbiguousDecisionReferences { decision_ids: all }]
    } else {
        Seq::empty()
    }) + (if all.len() == 1 {
        seq![
            ExecutionBoundaryReasonView::FillTracesToDecision { decision_id: all[0] },
            lineage_boundary_reason(all[0], lineage_status_of(s, all[0])),
        ]
    } else {
        Seq::empty()
    })
}

pub open spec fn fill_tail_section(
    s: Seq<StoredEventView>,
    id: Seq<char>,
    r: FillReceipts,
    o: LocalOrders,
    m: Seq<(Seq<char>, Seq<char>, Seq<char>)>,
) -> Seq<ExecutionBoundaryReasonView> {
    let order_ids = sorted_elements(r.order_ids);
    orphan_orders(s, o.orders) + only_if(
        order_ids.len() > 1,
        seq![ExecutionBoundaryReasonView::AmbiguousExternalOrderReferences { order_ids: order_ids }],
    ) + mismatch_reasons(Some(id), m)
}

pub open spec fn fill_boundary_reasons(
    s: Seq<StoredEventView>,
    id: Seq<char>,
    r: FillReceipts,
    o: LocalOrders,
    m: Seq<(Seq<char>, Seq<char>, Seq<char>)>,
) -> Seq<ExecutionBoundaryReasonView> {
    fill_head_section(r, o) + fill_decision_section(s, r, o) + fill_tail_section(s, id, r, o, m)
}

pub open spec fn fill_boundary_notes(r: FillReceipts, o: LocalOrders) -> Seq<Seq<char>> {
    seq!["order_id is treated as an external observed reference, not a local entity"@] + only_if(
        !r.direct && first_named_decision(o.orders) is None && sorted_elements(o.decision_ids).len()
            == 0,
        seq!["the fill is observable but the current model cannot trace it back to a decision"@],
    )
}

pub open spec fn fill_boundary_status(
    s: Seq<StoredEventView>,
    r: FillReceipts,
    o: LocalOrders,
    m: Seq<(Seq<char>, Seq<char>, Seq<char>)>,
) -> ExecutionBoundaryStatus {
    let all = sorted_elements(add_opt(o.decision_ids, traced_decision(r, o)));
    let st = if all.len() == 1 {
        lineage_status_of(s, all[0])
    } else {
        None
    };
    if all.len() > 1 || sorted_elements(r.order_ids).len() > 1 || (all.len() == 1 && (st
        == Some(DecisionLineageStatus::Inconsistent) || st is None)) || m.len() > 0
        || orphan_orders(s, o.orders).len() > 0 {
        ExecutionBoundaryStatus::Inconsistent
    } else if all.len() == 1 && st == Some(DecisionLineageStatus::Blocked) {
        ExecutionBoundaryStatus::Blocked
    } else if all.len() == 1 && st == Some(DecisionLineageStatus::Supported)
        && sorted_elements(r.order_ids).len() == 1 && o.orders.len() > 0 {
        ExecutionBoundaryStatus::Clear
    } else {
        ExecutionBoundaryStatus::Weak
    }
}

/// The execution boundary of the fill `id` over the log `s`; `None` when neither a
/// receipt of it nor a local order of it is logged.
pub closed spec fn fill_boundary_of(s: Seq<StoredEventView>, id: Seq<char>) -> Option<ExecutionBoundaryReportView> {
    let r = fill_receipts(s, id);
    let o = local_orders(s, None, r.order_ids, r.decision_ids);
    let m = match r.instrument {
        Some(fi) => formed_elsewhere_all(s, sorted_elements(o.decision_ids), fi),
        None => Seq::empty(),
    };
    if !(r.relevant || o.relevant) {
        None
    } else {
        Some(
            ExecutionBoundaryReportView {
                primary_ref_id: id,
                primary_ref_type: ExecutionBoundaryRefType::Fill,
                status: fill_boundary_status(s, r, o, m),
                reasons: fill_boundary_reasons(s, id, r, o, m),
                decision_refs: sorted_elements(add_opt(o.decision_ids, traced_decision(r, o))),
                observed_order_ids: sorted_elements(r.order_ids),
                observed_fill_ids: seq![id],
                submitted_order_ids: sorted_elements(o.submitted),
                notes: fill_boundary_notes(r, o),
            },
        )
    }
}

struct ReceiptScan {
    relevant: bool,
    order_ids: Vec<String>,
    decision_ids: Vec<String>,
    direct: bool,
    instrument: Option<String>,
}

impl ReceiptScan {
    spec fn facts(&self) -> FillReceipts {
        FillReceipts {
            relevant: self.relevant,
            order_ids: strs(self.order_ids@).to_set(),
            decision_ids: strs(self.decision_ids@).to_set(),
            direct: self.direct,
            instrument: opt_view(self.instrument),
        }
    }
}

fn scan_receipts(events: &[StoredEvent], id: &str) -> (r: ReceiptScan)
    ensures
        strictly_sorted(strs(r.order_ids@)),
        strictly_sorted(strs(r.decision_ids@)),
        r.facts() == fill_receipts(event_views(events@), id@),
{
    let ghost s = event_views(events@);
    let mut scan = ReceiptScan {
        relevant: false,
        order_ids: Vec::new(),
        decision_ids: Vec::new(),
        direct: false,
        instrument: None,
    };
    proof {
        assert(strs(scan.order_ids@).to_set() =~= Set::empty());
        assert(strs(scan.decision_ids@).to_set() =~= Set::empty());
        assert(s.take(0) =~= Seq::<StoredEventView>::empty());
    }
    let mut i: usize = 0;
    while i < events.len()
        invariant
            i <= events.len(),
            s == event_views(events@),
            strictly_sorted(strs(scan.order_ids@)),
            strictly_sorted(strs(scan.decision_ids@)),
            scan.facts() == fill_receipts(s.take(i as int), id@),
        decreases events.len() - i,
    {
        proof {
            lemma_take_step(s, i as int);
        }
        let e = &events[i];
        match &e.payload {
            EventPayload::FillReceived(p) => {
                if same_text(p.fill_id.as_str(), id) {
                    scan.relevant = true;
                    insert_sorted(&mut scan.order_ids, p.order_id.clone());
                    let d = match &p.decision_id {
                        Some(x) => Some(x.clone()),
                        None => clone_opt(&e.linkage.decision_id),
                    };
                    scan.direct = scan.direct || d.is_some();
                    insert_opt(&mut scan.decision_ids, &d);
                    scan.instrument = Some(p.instrument.clone());
                }
            },
            _ => {},
        }
        i = i + 1;
    }
    proof {
        assert(s.take(i as int) =~= s);
    }
    scan
}

fn collect_formed_elsewhere(
    events: &[StoredEvent],
    d: &String,
    instrument: &String,
    out: &mut Vec<(String, String, String)>,
)
    ensures
        triples(final(out)@) == triples(old(out)@) + formed_elsewhere(
            event_views(events@),
            d@,
            instrument@,
        ),
{
    let ghost s = event_views(events@);
    let ghost p0 = triples(out@);
    let mut i: usize = 0;
    while i < events.len()
        invariant
            i <= events.len(),
            s == event_views(events@),
            triples(out@) == p0 + formed_elsewhere(s.take(i as int), d@, instrument@),
        decreases events.len() - i,
    {
        proof {
            lemma_take_step(s, i as int);
        }
        let ghost before = triples(out@);
        match &events[i].payload {
            EventPayload::DecisionFormed(p) => {
                if same_text(p.decision_id.as_str(), d.as_str()) && !same_text(
                    p.instrument.as_str(),
                    instrument.as_str(),
                ) {
                    let ghost raw = out@;
                    out.push((d.clone(), instrument.clone(), p.instrument.clone()));
                    proof {
                        assert(triples(out@) =~= triples(raw).push((d@, instrument@, p.instrument@)));
                    }
                }
                proof {
                    assert(triples(out@) =~= before + only_if(
                        p.decision_id@ == d@ && p.instrument@ != instrument@,
                        seq![(d@, instrument@, p.instrument@)],
                    ));
                }
            },
            _ => {
                proof {
                    assert(triples(out@) =~= before + Seq::<(Seq<char>, Seq<char>, Seq<char>)>::empty());
                }
            },
        }
        i = i + 1;
    }
    proof {
        assert(s.take(i as int) =~= s);
    }
}

fn collect_mismatches(events: &[StoredEvent], ds: &Vec<String>, instrument: &String) -> (r: Vec<(String, String, String)>)
    ensures
        triples(r@) == formed_elsewhere_all(event_views(events@), strs(ds@), instrument@),
{
    let mut r: Vec<(String, String, String)> = Vec::new();
    proof {
        assert(triples(r@) =~= Seq::empty());
        assert(strs(ds@).take(0) =~= Seq::<Seq<char>>::empty());
    }
    let mut k: usize = 0;
    while k < ds.len()
        invariant
            k <= ds.len(),
            triples(r@) == formed_elsewhere_all(event_views(events@), strs(ds@).take(k as int), instrument@),
        decreases ds.len() - k,
    {
        proof {
            lemma_take_step(strs(ds@), k as int);
        }
        collect_formed_elsewhere(events, &ds[k], instrument, &mut r);
        k = k + 1;
    }
    proof {
        assert(strs(ds@).take(k as int) =~= strs(ds@));
    }
    r
}

fn first_named(orders: &Vec<(String, String, Option<String>)>) -> (r: Option<String>)
    ensures
        opt_view(r) == first_named_decision(order_triples(orders@)),
{
    let mut k: usize = 0;
    let mut found: Option<String> = None;
    proof {
        assert(order_triples(orders@).take(0) =~= Seq::<(Seq<char>, Seq<char>, Option<Seq<char>>)>::empty());
    }
    while k < orders.len()
        invariant
            k <= orders.len(),
            opt_view(found) == first_named_decision(order_triples(orders@).take(k as int)),
        decreases orders.len() - k,
    {
        proof {
            lemma_take_step(order_triples(orders@), k as int);
        }
        if found.is_none() {
            found = clone_opt(&orders[k].2);
        }
        k = k + 1;
    }
    proof {
        assert(order_triples(orders@).take(k as int) =~= order_triples(orders@));
    }
    found
}

fn push_orphan_orders(
    out: &mut Vec<ExecutionBoundaryReason>,
    events: &[StoredEvent],
    orders: &Vec<(String, String, Option<String>)>,
) -> (r: Result<bool, QueryError>)
    ensures
        match r {
            Ok(any) => {
                &&& views_of(final(out)@) == views_of(old(out)@) + orphan_orders(
                    event_views(events@),
                    order_triples(orders@),
                )
                &&& any == (orphan_orders(event_views(events@), order_triples(orders@)).len() > 0)
                &&& crate::codecs::all_decode(event_views(events@))
            },
            Err(e) => answers::<DecisionLineageReport>(Err(e), event_views(events@), None),
        },
{
    let ghost s = event_views(events@);
    let ghost p0 = views_of(out@);
    let mut any = false;
    let mut k: usize = 0;
    match check_decodes(events) {
        Err(e) => return Err(QueryError::Codec(e)),
        Ok(_) => {},
    }
    proof {
        assert(order_triples(orders@).take(0) =~= Seq::<(Seq<char>, Seq<char>, Option<Seq<char>>)>::empty());
    }
    while k < orders.len()
        invariant
            k <= orders.len(),
            s == event_views(events@),
            crate::codecs::all_decode(s),
            views_of(out@) == p0 + orphan_orders(s, order_triples(orders@).take(k as int)),
            any == (orphan_orders(s, order_triples(orders@).take(k as int)).len() > 0),
        decreases orders.len() - k,
    {
        proof {
            lemma_take_step(order_triples(orders@), k as int);
        }
        let ghost before = views_of(out@);
        match &orders[k].2 {
            Some(d) => {
                let lineage = match decision_lineage(events, d.as_str()) {
                    Ok(x) => x,
                    Err(e) => return Err(e),
                };
                if lineage.is_none() {
                    any = true;
                    push_boundary_reason(
                        out,
                        ExecutionBoundaryReason::LocalOrderReferencesMissingDecision {
                            order_id: orders[k].0.clone(),
                            decision_id: d.clone(),
                        },
                    );
                }
                proof {
                    assert(views_of(out@) =~= before + only_if(
                        decision_lineage_of(s, d@) is None,
                        seq![ExecutionBoundaryReasonView::LocalOrderReferencesMissingDecision { order_id: orders@[k as int].0@, decision_id: d@ }],
                    ));
                }
            },
            None => {
                proof {
                    assert(views_of(out@) =~= before + Seq::<ExecutionBoundaryReasonView>::empty());
                }
            },
        }
        k = k + 1;
    }
    proof {
        assert(order_triples(orders@).take(k as int) =~= order_triples(orders@));
    }
    Ok(any)
}

fn push_all_missing(out: &mut Vec<ExecutionBoundaryReason>, orders: &Vec<String>)
    ensures
        views_of(final(out)@) == views_of(old(out)@) + missing_orders_all(strs(orders@)),
{
    let ghost p0 = views_of(out@);
    let mut k: usize = 0;
    while k < orders.len()
        invariant
            k <= orders.len(),
            views_of(out@) == p0 + missing_orders_all(strs(orders@).take(k as int)),
        decreases orders.len() - k,
    {
        let x = ExecutionBoundaryReason::MissingLocalOrderRegistration { order_id: orders[k].clone() };
        push_boundary_reason(out, x);
        proof {
            assert(missing_orders_all(strs(orders@).take(k as int + 1)) =~= missing_orders_all(
                strs(orders@).take(k as int),
            ).push(x@));
        }
        k = k + 1;
    }
    proof {
        assert(strs(orders@).take(k as int) =~= strs(orders@));
    }
}

fn push_fill_head(
    out: &mut Vec<ExecutionBoundaryReason>,
    notes: &mut Vec<String>,
    receipts: &ReceiptScan,
    orders: &OrderScan,
) -> (all: Vec<String>)
    requires
        strictly_sorted(strs(receipts.order_ids@)),
        orders.sorted(),
    ensures
        views_of(final(out)@) == views_of(old(out)@) + fill_head_section(receipts.facts(), orders.facts()),
        strs(final(notes)@) == strs(old(notes)@) + only_if(
            !receipts.facts().direct && first_named_decision(orders.facts().orders) is None
                && sorted_elements(orders.facts().decision_ids).len() == 0,
            seq!["the fill is observable but the current model cannot trace it back to a decision"@],
        ),
        strictly_sorted(strs(all@)),
        strs(all@).to_set() == add_opt(
            orders.facts().decision_ids,
            traced_decision(receipts.facts(), orders.facts()),
        ),
{
    let ghost p0 = views_of(out@);
    let ghost n0 = strs(notes@);
    proof {
        lemma_sorted_elements_of(strs(receipts.order_ids@));
        lemma_sorted_elements_of(strs(orders.decision_ids@));
    }
    if receipts.order_ids.len() > 0 && orders.decision_ids.len() == 0 && orders.orders.len() == 0 {
        push_boundary_reason(
            out,
            ExecutionBoundaryReason::ExternalOrderReferenceOnly { order_id: receipts.order_ids[0].clone() },
        );
    }
    push_local_orders(out, &orders.orders);
    let ghost p1 = views_of(out@);
    let mut all = clone_strs(&orders.decision_ids);
    if !receipts.direct {
        let named = first_named(&orders.orders);
        match &named {
            Some(ld) => {
                let first = if receipts.order_ids.len() > 0 {
                    receipts.order_ids[0].clone()
                } else {
                    String::new()
                };
                push_boundary_reason(
                    out,
                    ExecutionBoundaryReason::FillTracesViaLocalOrder { decision_id: ld.clone(), order_id: first },
                );
                insert_sorted(&mut all, ld.clone());
                proof {
                    assert(strs(notes@) =~= n0);
                }
            },
            None => {
                if orders.decision_ids.len() == 0 {
                    push_boundary_reason(out, ExecutionBoundaryReason::MissingDecisionReference);
                    notes.push(
                        owned(
                            "the fill is observable but the current model cannot trace it back to a decision",
                        ),
                    );
                    proof {
                        assert(strs(notes@) =~= n0 + seq!["the fill is observable but the current model cannot trace it back to a decision"@]);
                    }
                } else {
                    proof {
                        assert(strs(notes@) =~= n0);
                    }
                }
            },
        }
    } else {
        proof {
            assert(strs(notes@) =~= n0);
        }
    }
    proof {
        assert(views_of(out@) =~= p0 + fill_head_section(receipts.facts(), orders.facts()));
    }
    all
}

fn push_fill_decision(
    out: &mut Vec<ExecutionBoundaryReason>,
    events: &[StoredEvent],
    receipts: &ReceiptScan,
    orders: &OrderScan,
    all: &Vec<String>,
) -> (r: Result<Option<DecisionLineageStatus>, QueryError>)
    requires
        strictly_sorted(strs(receipts.order_ids@)),
        strictly_sorted(strs(all@)),
        strs(all@).to_set() == add_opt(
            orders.facts().decision_ids,
            traced_decision(receipts.facts(), orders.facts()),
        ),
        crate::codecs::all_decode(event_views(events@)),
    ensures
        r is Ok,
        r matches Ok(st) ==> {
            &&& views_of(final(out)@) == views_of(old(out)@) + fill_decision_section(
                event_views(events@),
                receipts.facts(),
                orders.facts(),
            )
            &&& st == if all.len() == 1 {
                lineage_status_of(event_views(events@), strs(all@)[0])
            } else {
                None
            }
        },
{
    let ghost s = event_views(events@);
    let ghost p0 = views_of(out@);
    proof {
        lemma_sorted_elements_of(strs(receipts.order_ids@));
        lemma_sorted_elements_of(strs(all@));
    }
    if all.len() == 1 && orders.orders.len() == 0 {
        push_all_missing(out, &receipts.order_ids);
    } else if all.len() > 1 {
        push_boundary_reason(
            out,
            ExecutionBoundaryReason::AmbiguousDecisionReferences { decision_ids: clone_strs(all) },
        );
    }
    let ghost p1 = views_of(out@);
    let mut st: Option<DecisionLineageStatus> = None;
    if all.len() == 1 {
        push_boundary_reason(out, ExecutionBoundaryReason::FillTracesToDecision { decision_id: all[0].clone() });
        let lineage = match decision_lineage(events, all[0].as_str()) {
            Ok(x) => x,
            Err(e) => return Err(e),
        };
        st = lineage_status_in(&lineage);
        push_boundary_reason(out, lineage_reason(all[0].as_str(), st));
    }
    proof {
        assert(views_of(out@) =~= p0 + fill_decision_section(s, receipts.facts(), orders.facts()));
    }
    Ok(st)
}

/// The execution boundary of a fill: the orders and decision it traces to, and
/// whether they are registered locally and agree with it.
pub fn fill_execution_boundary(events: &[StoredEvent], fill_id: &str) -> (r: Result<
    Option<ExecutionBoundaryReport>,
    QueryError,
>)
    ensures
        answers(r, event_views(events@), fill_boundary_of(event_views(events@), fill_id@)),
{
    let ghost s = event_views(events@);
    match check_decodes(events) {
        Err(e) => return Err(QueryError::Codec(e)),
        Ok(_) => {},
    }
    let receipts = scan_receipts(events, fill_id);
    let orders = scan_local_orders(events, &None, &receipts.order_ids, clone_strs(&receipts.decision_ids));
    let ghost rf = receipts.facts();
    let ghost of = orders.facts();
    if !(receipts.relevant || orders.relevant) {
        return Ok(None);
    }
    let mismatches = match &receipts.instrument {
        Some(fi) => collect_mismatches(events, &orders.decision_ids, fi),
        None => Vec::new(),
    };
    let ghost m = triples(mismatches@);
    proof {
        lemma_sorted_elements_of(strs(receipts.order_ids@));
        lemma_sorted_elements_of(strs(orders.submitted@));
        lemma_sorted_elements_of(strs(orders.decision_ids@));
        if receipts.instrument is None {
            assert(m =~= Seq::empty());
        }
    }
    let mut reasons: Vec<ExecutionBoundaryReason> = Vec::new();
    let mut notes: Vec<String> = Vec::new();
    notes.push(owned("order_id is treated as an external observed reference, not a local entity"));
    proof {
        assert(views_of(reasons@) =~= Seq::empty());
        assert(strs(notes@) =~= seq!["order_id is treated as an external observed reference, not a local entity"@]);
    }
    let all = push_fill_head(&mut reasons, &mut notes, &receipts, &orders);
    proof {
        lemma_sorted_elements_of(strs(all@));
    }
    let st = match push_fill_decision(&mut reasons, events, &receipts, &orders, &all) {
        Ok(x) => x,
        Err(e) => return Err(e),
    };
    let ghost p3 = views_of(reasons@);
    let any_orphan = match push_orphan_orders(&mut reasons, events, &orders.orders) {
        Ok(x) => x,
        Err(e) => return Err(e),
    };
    if receipts.order_ids.len() > 1 {
        push_boundary_reason(
            &mut reasons,
            ExecutionBoundaryReason::AmbiguousExternalOrderReferences { order_ids: clone_strs(&receipts.order_ids) },
        );
    }
    push_mismatch_reasons(&mut reasons, &Some(owned(fill_id)), &mismatches);
    proof {
        assert(views_of(reasons@) =~= p3 + fill_tail_section(s, fill_id@, rf, of, m));
        assert(views_of(reasons@) =~= fill_boundary_reasons(s, fill_id@, rf, of, m));
        assert(strs(notes@) =~= fill_boundary_notes(rf, of));
    }
    let status = if all.len() > 1 || receipts.order_ids.len() > 1 || (all.len() == 1 && (st == Some(
        DecisionLineageStatus::Inconsistent,
    ) || st.is_none())) || mismatches.len() > 0 || any_orphan {
        ExecutionBoundaryStatus::Inconsistent
    } else if all.len() == 1 && st == Some(DecisionLineageStatus::Blocked) {
        ExecutionBoundaryStatus::Blocked
    } else if all.len() == 1 && st == Some(DecisionLineageStatus::Supported)
        && receipts.order_ids.len() == 1 && orders.orders.len() > 0 {
        ExecutionBoundaryStatus::Clear
    } else {
        ExecutionBoundaryStatus::Weak
    };
    let mut fill_ids: Vec<String> = Vec::new();
    fill_ids.push(owned(fill_id));
    proof {
        assert(strs(fill_ids@) =~= seq![fill_id@]);
    }
    Ok(
        Some(
            ExecutionBoundaryReport {
                primary_ref_id: owned(fill_id),
                primary_ref_type: ExecutionBoundaryRefType::Fill,
                status,
                reasons,
                decision_refs: all,
                observed_order_ids: clone_strs(&receipts.order_ids),
                observed_fill_ids: fill_ids,
                submitted_order_ids: clone_strs(&orders.submitted),
                notes,
            },
        ),
    )
}


// ---------------------------------------------------------------------------
// Laws of execution boundaries
// ---------------------------------------------------------------------------
/// A decision's execution boundary is clear only when its lineage is supported,
/// a fill was observed, all fills went through one order, and that order is
/// registered locally for the decision.
pub proof fn lemma_clear_decision_boundary(s: Seq<StoredEventView>, id: Seq<char>)
    requires
        decision_boundary_of(s, id) matches Some(b) && b.status == ExecutionBoundaryStatus::Clear,
    ensures
        lineage_status_of(s, id) == Some(DecisionLineageStatus::Supported),
        ({
            let instruments = formed_instruments(s, id);
            let o = local_orders(s, Some(id), Set::empty(), Set::empty());
            let f = decision_fills(s, id, o.order_ids, sorted_elements(instruments));
            &&& sorted_elements(f.fill_ids).len() > 0
            &&& sorted_elements(f.order_ids).len() == 1
            &&& o.orders.len() > 0
            &&& missing_local(sorted_elements(f.order_ids), o.order_ids).len() == 0
            &&& f.mismatches.len() == 0
        }),
{
}

/// A decision whose lineage is blocked has a blocked execution boundary, unless
/// the boundary is inconsistent.
pub proof fn lemma_blocked_lineage_blocks_boundary(s: Seq<StoredEventView>, id: Seq<char>)
    requires
        lineage_status_of(s, id) == Some(DecisionLineageStatus::Blocked),
    ensures
        decision_boundary_of(s, id) matches Some(b) ==> (b.status == ExecutionBoundaryStatus::Blocked || b.status
            == ExecutionBoundaryStatus::Inconsistent),
{
}

} // verus!
