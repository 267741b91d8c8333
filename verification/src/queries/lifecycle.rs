//! The lifecycle of an order: registered, submitted, filled, as the log shows it.
use vstd::prelude::*;

use crate::codecs::check_decodes;
use crate::events::{EventPayload, PayloadView};
use crate::queries::boundary::{decision_boundary_of, decision_execution_boundary, ExecutionBoundaryStatus};
use crate::queries::error::QueryError;
use crate::queries::governance::{decision_governance, decision_governance_of, GovernanceStatus};
use crate::queries::support::{
    add_opt, answers, firsts, insert_opt, lemma_take_step, lemma_views_push, only_if, pairs, viewed,
    views_of,
};
use crate::store::{event_views, StoredEvent, StoredEventView};
use crate::text::{
    clone_opt, clone_strs, insert_sorted, lemma_sorted_elements_of, owned, same_text,
    sorted_elements, strictly_sorted, strs,
};

verus! {

#[derive(Debug, Clone, Copy, PartialEq, Eq, Structural)]
pub enum OrderLifecycleStatus {
    Registered,
    Submitted,
    ObservedWithFills,
    Weak,
    Inconsistent,
}

#[derive(Debug, Clone, PartialEq, Eq)]
pub enum OrderLifecycleReason {
    OrderRegisteredObserved { venue: String },
    OrderSubmittedObserved { venue: String },
    FillObserved { fill_id: String, venue: String },
    DecisionLinked { decision_id: String },
    MissingLocalOrderRegistration,
    MissingLocalOrderSubmission,
    SubmittedWithoutRegistration,
    ConflictingDecisionReferences { values: Vec<String> },
    ConflictingVenueReferences { values: Vec<String> },
    ConflictingInstrumentReferences { values: Vec<String> },
}

pub enum OrderLifecycleReasonView {
    OrderRegisteredObserved { venue: Seq<char> },
    OrderSubmittedObserved { venue: Seq<char> },
    FillObserved { fill_id: Seq<char>, venue: Seq<char> },
    DecisionLinked { decision_id: Seq<char> },
    MissingLocalOrderRegistration,
    MissingLocalOrderSubmission,
    SubmittedWithoutRegistration,
    ConflictingDecisionReferences { values: Seq<Seq<char>> },
    ConflictingVenueReferences { values: Seq<Seq<char>> },
    ConflictingInstrumentReferences { values: Seq<Seq<char>> },
}

impl View for OrderLifecycleReason {
    type V = OrderLifecycleReasonView;

    open spec fn view(&self) -> OrderLifecycleReasonView {
        match self {
            OrderLifecycleReason::OrderRegisteredObserved { venue } => OrderLifecycleReasonView::OrderRegisteredObserved {
                venue: venue@,
            },
            OrderLifecycleReason::OrderSubmittedObserved { venue } => OrderLifecycleReasonView::OrderSubmittedObserved {
                venue: venue@,
            },
            OrderLifecycleReason::FillObserved { fill_id, venue } => OrderLifecycleReasonView::FillObserved {
                fill_id: fill_id@,
                venue: venue@,
            },
            OrderLifecycleReason::DecisionLinked { decision_id } => OrderLifecycleReasonView::DecisionLinked {
                decision_id: decision_id@,
            },
            OrderLifecycleReason::MissingLocalOrderRegistration => OrderLifecycleReasonView::MissingLocalOrderRegistration,
            OrderLifecycleReason::MissingLocalOrderSubmission => OrderLifecycleReasonView::MissingLocalOrderSubmission,
            OrderLifecycleReason::SubmittedWithoutRegistration => OrderLifecycleReasonView::SubmittedWithoutRegistration,
            OrderLifecycleReason::ConflictingDecisionReferences { values } => OrderLifecycleReasonView::ConflictingDecisionReferences {
                values: strs(values@),
            },
            OrderLifecycleReason::ConflictingVenueReferences { values } => OrderLifecycleReasonView::ConflictingVenueReferences {
                values: strs(values@),
            },
            OrderLifecycleReason::ConflictingInstrumentReferences { values } => OrderLifecycleReasonView::ConflictingInstrumentReferences {
                values: strs(values@),
            },
        }
    }
}

#[derive(Debug, Clone, PartialEq, Eq)]
pub struct OrderLifecycleReport {
    pub order_id: String,
    pub status: OrderLifecycleStatus,
    pub reasons: Vec<OrderLifecycleReason>,
    pub decision_refs: Vec<String>,
    pub observed_fill_ids: Vec<String>,
    pub venue_refs: Vec<String>,
    pub notes: Vec<String>,
}

pub struct OrderLifecycleReportView {
    pub order_id: Seq<char>,
    pub status: OrderLifecycleStatus,
    pub reasons: Seq<OrderLifecycleReasonView>,
    pub decision_refs: Seq<Seq<char>>,
    pub observed_fill_ids: Seq<Seq<char>>,
    pub venue_refs: Seq<Seq<char>>,
    pub notes: Seq<Seq<char>>,
}

impl View for OrderLifecycleReport {
    type V = OrderLifecycleReportView;

    open spec fn view(&self) -> OrderLifecycleReportView {
        OrderLifecycleReportView {
            order_id: self.order_id@,
            status: self.status,
            reasons: views_of(self.reasons@),
            decision_refs: strs(self.decision_refs@),
            observed_fill_ids: strs(self.observed_fill_ids@),
            venue_refs: strs(self.venue_refs@),
            notes: strs(self.notes@),
        }
    }
}

/// What the log says about one order.
pub struct OrderFacts {
    pub relevant: bool,
    /// The venue of each registration, in log order.
    pub registered: Seq<Seq<char>>,
    /// The venue of each submission, in log order.
    pub submitted: Seq<Seq<char>>,
    /// `(fill_id, venue)` of each fill, in log order.
    pub fills: Seq<(Seq<char>, Seq<char>)>,
    pub decision_ids: Set<Seq<char>>,
    pub venues: Set<Seq<char>>,
    pub instruments: Set<Seq<char>>,
}

pub open spec fn no_order_facts() -> OrderFacts {
    OrderFacts {
        relevant: false,
        registered: Seq::empty(),
        submitted: Seq::empty(),
        fills: Seq::empty(),
        decision_ids: Set::empty(),
        venues: Set::empty(),
        instruments: Set::empty(),
    }
}

pub open spec fn decision_of(payload_ref: Option<Seq<char>>, linkage_ref: Option<Seq<char>>) -> Option<Seq<char>> {
    match payload_ref {
        Some(x) => Some(x),
        None => linkage_ref,
    }
}

pub open spec fn order_step(f: OrderFacts, e: StoredEventView, id: Seq<char>) -> OrderFacts {
    match e.payload {
        PayloadView::OrderRegistered(p) => if p.order_id == id {
            OrderFacts {
                relevant: true,
                registered: f.registered.push(p.venue),
                decision_ids: add_opt(f.decision_ids, decision_of(p.decision_id, e.linkage.decision_id)),
                venues: f.venues.insert(p.venue),
                instruments: f.instruments.insert(p.instrument),
                ..f
            }
        } else {
            f
        },
        PayloadView::OrderSubmitted(p) => if p.order_id == id {
            OrderFacts {
                relevant: true,
                submitted: f.submitted.push(p.venue),
                decision_ids: add_opt(f.decision_ids, decision_of(p.decision_id, e.linkage.decision_id)),
                venues: f.venues.insert(p.venue),
                instruments: f.instruments.insert(p.instrument),
                ..f
            }
        } else {
            f
        },
        PayloadView::FillReceived(p) => if p.order_id == id {
            OrderFacts {
                relevant: true,
                fills: f.fills.push((p.fill_id, p.venue)),
                decision_ids: add_opt(f.decision_ids, decision_of(p.decision_id, e.linkage.decision_id)),
                venues: f.venues.insert(p.venue),
                instruments: f.instruments.insert(p.instrument),
                ..f
            }
        } else {
            f
        },
        _ => f,
    }
}

pub open spec fn order_facts(s: Seq<StoredEventView>, id: Seq<char>) -> OrderFacts
    decreases s.len(),
{
    if s.len() == 0 {
        no_order_facts()
    } else {
        order_step(order_facts(s.drop_last(), id), s.last(), id)
    }
}

pub open spec fn boundary_status_name(s: ExecutionBoundaryStatus) -> Seq<char> {
    match s {
        ExecutionBoundaryStatus::Clear => "Clear"@,
        ExecutionBoundaryStatus::Weak => "Weak"@,
        ExecutionBoundaryStatus::Blocked => "Blocked"@,
        ExecutionBoundaryStatus::Inconsistent => "Inconsistent"@,
    }
}

pub open spec fn governance_status_name(s: GovernanceStatus) -> Seq<char> {
    match s {
        GovernanceStatus::Eligible => "Eligible"@,
        GovernanceStatus::Weak => "Weak"@,
        GovernanceStatus::Blocked => "Blocked"@,
        GovernanceStatus::Inconsistent => "Inconsistent"@,
    }
}

pub fn boundary_status_text(s: ExecutionBoundaryStatus) -> (r: &'static str)
    ensures
        r@ == boundary_status_name(s),
{
    match s {
        ExecutionBoundaryStatus::Clear => "Clear",
        ExecutionBoundaryStatus::Weak => "Weak",
        ExecutionBoundaryStatus::Blocked => "Blocked",
        ExecutionBoundaryStatus::Inconsistent => "Inconsistent",
    }
}

pub fn governance_status_text(s: GovernanceStatus) -> (r: &'static str)
    ensures
        r@ == governance_status_name(s),
{
    match s {
        GovernanceStatus::Eligible => "Eligible",
        GovernanceStatus::Weak => "Weak",
        GovernanceStatus::Blocked => "Blocked",
        GovernanceStatus::Inconsistent => "Inconsistent",
    }
}

pub open spec fn lifecycle_listing(f: OrderFacts) -> Seq<OrderLifecycleReasonView> {
    lifecycle_text_reasons(0, f.registered) + lifecycle_text_reasons(1, f.submitted) + f.fills.map_values(
        |x: (Seq<char>, Seq<char>)| OrderLifecycleReasonView::FillObserved { fill_id: x.0, venue: x.1 },
    ) + lifecycle_text_reasons(2, sorted_elements(f.decision_ids))
}

pub open spec fn lifecycle_reasons(f: OrderFacts) -> Seq<OrderLifecycleReasonView> {
    let reg = f.registered.len() > 0;
    let sub = f.submitted.len() > 0;
    let fil = f.fills.len() > 0;
    let ds = sorted_elements(f.decision_ids);
    let vs = sorted_elements(f.venues);
    let is = sorted_elements(f.instruments);
    lifecycle_listing(f)
        + only_if(ds.len() > 1, seq![OrderLifecycleReasonView::ConflictingDecisionReferences { values: ds }])
        + only_if(vs.len() > 1, seq![OrderLifecycleReasonView::ConflictingVenueReferences { values: vs }])
        + only_if(is.len() > 1, seq![OrderLifecycleReasonView::ConflictingInstrumentReferences { values: is }])
        + only_if(sub && !reg, seq![OrderLifecycleReasonView::SubmittedWithoutRegistration])
        + only_if(fil && !reg, seq![OrderLifecycleReasonView::MissingLocalOrderRegistration])
        + only_if(fil && !sub, seq![OrderLifecycleReasonView::MissingLocalOrderSubmission])
}

pub open spec fn lifecycle_status(f: OrderFacts) -> OrderLifecycleStatus {
    let reg = f.registered.len() > 0;
    let sub = f.submitted.len() > 0;
    let fil = f.fills.len() > 0;
    if (sub && !reg) || sorted_elements(f.decision_ids).len() > 1 || sorted_elements(f.venues).len() > 1
        || sorted_elements(f.instruments).len() > 1 {
        OrderLifecycleStatus::Inconsistent
    } else if reg && sub && fil {
        OrderLifecycleStatus::ObservedWithFills
    } else if reg && sub {
        OrderLifecycleStatus::Submitted
    } else if reg && !fil {
        OrderLifecycleStatus::Registered
    } else {
        OrderLifecycleStatus::Weak
    }
}

/// The notes of a lifecycle, before they are sorted: what is missing, and the
/// boundary and governance of its decision when it has exactly one.
pub open spec fn lifecycle_note_set(s: Seq<StoredEventView>, f: OrderFacts) -> Set<Seq<char>> {
    let reg = f.registered.len() > 0;
    let sub = f.submitted.len() > 0;
    let fil = f.fills.len() > 0;
    let ds = sorted_elements(f.decision_ids);
    let base = only_if(!reg && fil, seq!["fills reference this order_id, but the current log has no local order entity"@])
        + only_if(reg && !sub, seq!["the order is locally known but not yet observed as submitted in the current log"@])
        + only_if(sub && !fil, seq!["submission is locally observed, but no downstream fill has been observed yet"@]);
    let boundary_note = if ds.len() == 1 {
        match decision_boundary_of(s, ds[0]) {
            Some(b) => seq!["decision "@ + ds[0] + " execution boundary is "@ + boundary_status_name(b.status)],
            None => Seq::empty(),
        }
    } else {
        Seq::empty()
    };
    let governance_note = if ds.len() == 1 {
        match decision_governance_of(s, ds[0]) {
            Some(g) => seq!["decision "@ + ds[0] + " governance is "@ + governance_status_name(g.status)],
            None => Seq::empty(),
        }
    } else {
        Seq::empty()
    };
    (base + boundary_note + governance_note).to_set()
}

/// The lifecycle of the order `id` over the log `s`; `None` when no event concerns it.
pub closed spec fn order_lifecycle_of(s: Seq<StoredEventView>, id: Seq<char>) -> Option<OrderLifecycleReportView> {
    let f = order_facts(s, id);
    if !f.relevant {
        None
    } else {
        Some(
            OrderLifecycleReportView {
                order_id: id,
                status: lifecycle_status(f),
                reasons: lifecycle_reasons(f),
                decision_refs: sorted_elements(f.decision_ids),
                observed_fill_ids: firsts(f.fills),
                venue_refs: sorted_elements(f.venues),
                notes: sorted_elements(lifecycle_note_set(s, f)),
            },
        )
    }
}

struct OrderScan {
    relevant: bool,
    registered: Vec<String>,
    submitted: Vec<String>,
    fills: Vec<(String, String)>,
    decision_ids: Vec<String>,
    venues: Vec<String>,
    instruments: Vec<String>,
}

impl OrderScan {
    spec fn facts(&self) -> OrderFacts {
        OrderFacts {
            relevant: self.relevant,
            registered: strs(self.registered@),
            submitted: strs(self.submitted@),
            fills: pairs(self.fills@),
            decision_ids: strs(self.decision_ids@).to_set(),
            venues: strs(self.venues@).to_set(),
            instruments: strs(self.instruments@).to_set(),
        }
    }

    spec fn sorted(&self) -> bool {
        &&& strictly_sorted(strs(self.decision_ids@))
        &&& strictly_sorted(strs(self.venues@))
        &&& strictly_sorted(strs(self.instruments@))
    }

    fn note(&mut self, decision_id: &Option<String>, linkage_decision: &Option<String>, venue: &String, instrument: &String)
        requires
            old(self).sorted(),
        ensures
            final(self).sorted(),
            final(self).relevant,
            final(self).registered == old(self).registered,
            final(self).submitted == old(self).submitted,
            final(self).fills == old(self).fills,
            strs(final(self).decision_ids@).to_set() == add_opt(
                strs(old(self).decision_ids@).to_set(),
                decision_of(crate::text::opt_view(*decision_id), crate::text::opt_view(*linkage_decision)),
            ),
            strs(final(self).venues@).to_set() == strs(old(self).venues@).to_set().insert(venue@),
            strs(final(self).instruments@).to_set() == strs(old(self).instruments@).to_set().insert(
                instrument@,
            ),
    {
        self.relevant = true;
        let d = match decision_id {
            Some(x) => Some(x.clone()),
            None => clone_opt(linkage_decision),
        };
        insert_opt(&mut self.decision_ids, &d);
        insert_sorted(&mut self.venues, venue.clone());
        insert_sorted(&mut self.instruments, instrument.clone());
    }

    fn observe(&mut self, e: &StoredEvent, id: &str)
        requires
            old(self).sorted(),
        ensures
            final(self).sorted(),
            final(self).facts() == order_step(old(self).facts(), e@, id@),
    {
        match &e.payload {
            EventPayload::OrderRegistered(p) => {
                if same_text(p.order_id.as_str(), id) {
                    self.note(&p.decision_id, &e.linkage.decision_id, &p.venue, &p.instrument);
                    let ghost before = self.registered@;
                    self.registered.push(p.venue.clone());
                    proof {
                        assert(strs(self.registered@) =~= strs(before).push(p.venue@));
                    }
                }
            },
            EventPayload::OrderSubmitted(p) => {
                if same_text(p.order_id.as_str(), id) {
                    self.note(&p.decision_id, &e.linkage.decision_id, &p.venue, &p.instrument);
                    let ghost before = self.submitted@;
                    self.submitted.push(p.venue.clone());
                    proof {
                        assert(strs(self.submitted@) =~= strs(before).push(p.venue@));
                    }
                }
            },
            EventPayload::FillReceived(p) => {
                if same_text(p.order_id.as_str(), id) {
                    self.note(&p.decision_id, &e.linkage.decision_id, &p.venue, &p.instrument);
                    let ghost before = self.fills@;
                    self.fills.push((p.fill_id.clone(), p.venue.clone()));
                    proof {
                        assert(pairs(self.fills@) =~= pairs(before).push((p.fill_id@, p.venue@)));
                    }
                }
            },
            _ => {},
        }
    }
}

fn scan_order(events: &[StoredEvent], id: &str) -> (r: OrderScan)
    ensures
        r.sorted(),
        r.facts() == order_facts(event_views(events@), id@),
{
    let ghost s = event_views(events@);
    let mut scan = OrderScan {
        relevant: false,
        registered: Vec::new(),
        submitted: Vec::new(),
        fills: Vec::new(),
        decision_ids: Vec::new(),
        venues: Vec::new(),
        instruments: Vec::new(),
    };
    proof {
        assert(strs(scan.decision_ids@).to_set() =~= Set::empty());
        assert(strs(scan.venues@).to_set() =~= Set::empty());
        assert(strs(scan.instruments@).to_set() =~= Set::empty());
        assert(strs(scan.registered@) =~= Seq::empty());
        assert(strs(scan.submitted@) =~= Seq::empty());
        assert(pairs(scan.fills@) =~= Seq::empty());
        assert(scan.facts() == no_order_facts());
        assert(s.take(0) =~= Seq::<StoredEventView>::empty());
    }
    let mut i: usize = 0;
    while i < events.len()
        invariant
            i <= events.len(),
            s == event_views(events@),
            scan.sorted(),
            scan.facts() == order_facts(s.take(i as int), id@),
        decreases events.len() - i,
    {
        proof {
            lemma_take_step(s, i as int);
        }
        scan.observe(&events[i], id);
        i = i + 1;
    }
    proof {
        assert(s.take(i as int) =~= s);
    }
    scan
}

fn push_lifecycle_reason(out: &mut Vec<OrderLifecycleReason>, x: OrderLifecycleReason)
    ensures
        views_of(final(out)@) == views_of(old(out)@).push(x@),
{
    let ghost before = out@;
    out.push(x);
    proof {
        lemma_views_push(before, x);
    }
}

/// `kind` selects the reason made of each text: registrations (0), submissions (1)
/// or linked decisions (any other).
pub open spec fn lifecycle_text_reasons(kind: u8, v: Seq<Seq<char>>) -> Seq<OrderLifecycleReasonView> {
    if kind == 0 {
        v.map_values(|x: Seq<char>| OrderLifecycleReasonView::OrderRegisteredObserved { venue: x })
    } else if kind == 1 {
        v.map_values(|x: Seq<char>| OrderLifecycleReasonView::OrderSubmittedObserved { venue: x })
    } else {
        v.map_values(|x: Seq<char>| OrderLifecycleReasonView::DecisionLinked { decision_id: x })
    }
}

fn push_text_reasons(out: &mut Vec<OrderLifecycleReason>, items: &Vec<String>, kind: u8)
    ensures
        views_of(final(out)@) == views_of(old(out)@) + lifecycle_text_reasons(kind, strs(items@)),
{
    let ghost p0 = views_of(out@);
    let mut k: usize = 0;
    while k < items.len()
        invariant
            k <= items.len(),
            views_of(out@) == p0 + lifecycle_text_reasons(kind, strs(items@).take(k as int)),
        decreases items.len() - k,
    {
        let a = items[k].clone();
        let x = if kind == 0 {
            OrderLifecycleReason::OrderRegisteredObserved { venue: a }
        } else if kind == 1 {
            OrderLifecycleReason::OrderSubmittedObserved { venue: a }
        } else {
            OrderLifecycleReason::DecisionLinked { decision_id: a }
        };
        push_lifecycle_reason(out, x);
        proof {
            assert(lifecycle_text_reasons(kind, strs(items@).take(k as int + 1)) =~= lifecycle_text_reasons(
                kind,
                strs(items@).take(k as int),
            ).push(x@));
        }
        k = k + 1;
    }
    proof {
        assert(strs(items@).take(k as int) =~= strs(items@));
    }
}

fn push_fill_reasons(out: &mut Vec<OrderLifecycleReason>, items: &Vec<(String, String)>)
    ensures
        views_of(final(out)@) == views_of(old(out)@) + pairs(items@).map_values(
            |x: (Seq<char>, Seq<char>)| OrderLifecycleReasonView::FillObserved { fill_id: x.0, venue: x.1 },
        ),
{
    let ghost p0 = views_of(out@);
    let mut k: usize = 0;
    while k < items.len()
        invariant
            k <= items.len(),
            views_of(out@) == p0 + pairs(items@).take(k as int).map_values(
                |x: (Seq<char>, Seq<char>)| OrderLifecycleReasonView::FillObserved { fill_id: x.0, venue: x.1 },
            ),
        decreases items.len() - k,
    {
        let x = OrderLifecycleReason::FillObserved { fill_id: items[k].0.clone(), venue: items[k].1.clone() };
        push_lifecycle_reason(out, x);
        proof {
            assert(pairs(items@).take(k as int + 1).map_values(
                |x: (Seq<char>, Seq<char>)| OrderLifecycleReasonView::FillObserved { fill_id: x.0, venue: x.1 },
            ) =~= pairs(items@).take(k as int).map_values(
                |x: (Seq<char>, Seq<char>)| OrderLifecycleReasonView::FillObserved { fill_id: x.0, venue: x.1 },
            ).push(x@));
        }
        k = k + 1;
    }
    proof {
        assert(pairs(items@).take(k as int) =~= pairs(items@));
    }
}

fn fill_ids_of(items: &Vec<(String, String)>) -> (r: Vec<String>)
    ensures
        strs(r@) == firsts(pairs(items@)),
{
    let mut r: Vec<String> = Vec::new();
    let mut k: usize = 0;
    while k < items.len()
        invariant
            k <= items.len(),
            strs(r@) == firsts(pairs(items@)).take(k as int),
        decreases items.len() - k,
    {
        let ghost before = r@;
        r.push(items[k].0.clone());
        proof {
            assert(strs(r@) =~= strs(before).push(items@[k as int].0@));
            assert(firsts(pairs(items@)).take(k as int + 1) =~= firsts(pairs(items@)).take(
                k as int,
            ).push(items@[k as int].0@));
        }
        k = k + 1;
    }
    proof {
        assert(firsts(pairs(items@)).take(k as int) =~= firsts(pairs(items@)));
    }
    r
}

#[verifier::rlimit(50)]
fn lifecycle_reasons_of(scan: &OrderScan) -> (r: Vec<OrderLifecycleReason>)
    requires
        scan.sorted(),
    ensures
        views_of(r@) == lifecycle_reasons(scan.facts()),
{
    let ghost f = scan.facts();
    proof {
        lemma_sorted_elements_of(strs(scan.decision_ids@));
        lemma_sorted_elements_of(strs(scan.venues@));
        lemma_sorted_elements_of(strs(scan.instruments@));
    }
    let mut reasons: Vec<OrderLifecycleReason> = Vec::new();
    proof {
        assert(views_of(reasons@) =~= Seq::empty());
    }
    push_text_reasons(&mut reasons, &scan.registered, 0);
    push_text_reasons(&mut reasons, &scan.submitted, 1);
    push_fill_reasons(&mut reasons, &scan.fills);
    push_text_reasons(&mut reasons, &scan.decision_ids, 2);
    let ghost p0 = views_of(reasons@);
    proof {
        assert(p0 =~= lifecycle_listing(f));
    }
    let reg = scan.registered.len() > 0;
    let sub = scan.submitted.len() > 0;
    let fil = scan.fills.len() > 0;
    let ghost b1 = views_of(reasons@);
    if scan.decision_ids.len() > 1 {
        push_lifecycle_reason(
            &mut reasons,
            OrderLifecycleReason::ConflictingDecisionReferences { values: clone_strs(&scan.decision_ids) },
        );
    }
    proof {
        assert(views_of(reasons@) =~= b1 + only_if(
            sorted_elements(f.decision_ids).len() > 1,
            seq![OrderLifecycleReasonView::ConflictingDecisionReferences { values: sorted_elements(f.decision_ids) }],
        ));
    }
    let ghost b2 = views_of(reasons@);
    if scan.venues.len() > 1 {
        push_lifecycle_reason(
            &mut reasons,
            OrderLifecycleReason::ConflictingVenueReferences { values: clone_strs(&scan.venues) },
        );
    }
    proof {
        assert(views_of(reasons@) =~= b2 + only_if(
            sorted_elements(f.venues).len() > 1,
            seq![OrderLifecycleReasonView::ConflictingVenueReferences { values: sorted_elements(f.venues) }],
        ));
    }
    let ghost b3 = views_of(reasons@);
    if scan.instruments.len() > 1 {
        push_lifecycle_reason(
            &mut reasons,
            OrderLifecycleReason::ConflictingInstrumentReferences { values: clone_strs(&scan.instruments) },
        );
    }
    proof {
        assert(views_of(reasons@) =~= b3 + only_if(
            sorted_elements(f.instruments).len() > 1,
            seq![OrderLifecycleReasonView::ConflictingInstrumentReferences { values: sorted_elements(f.instruments) }],
        ));
    }
    let ghost b4 = views_of(reasons@);
    if sub && !reg {
        push_lifecycle_reason(&mut reasons, OrderLifecycleReason::SubmittedWithoutRegistration);
    }
    proof {
        assert(views_of(reasons@) =~= b4 + only_if(sub && !reg, seq![OrderLifecycleReasonView::SubmittedWithoutRegistration]));
    }
    let ghost b5 = views_of(reasons@);
    if fil && !reg {
        push_lifecycle_reason(&mut reasons, OrderLifecycleReason::MissingLocalOrderRegistration);
    }
    proof {
        assert(views_of(reasons@) =~= b5 + only_if(fil && !reg, seq![OrderLifecycleReasonView::MissingLocalOrderRegistration]));
    }
    let ghost b6 = views_of(reasons@);
    if fil && !sub {
        push_lifecycle_reason(&mut reasons, OrderLifecycleReason::MissingLocalOrderSubmission);
    }
    proof {
        assert(views_of(reasons@) =~= b6 + only_if(fil && !sub, seq![OrderLifecycleReasonView::MissingLocalOrderSubmission]));
    }
    reasons
}

/// The lifecycle of an order: whether it was registered and submitted locally,
/// the fills observed for it, and whether their references agree.
#[verifier::rlimit(50)]
pub fn order_lifecycle(events: &[StoredEvent], order_id: &str) -> (r: Result<
    Option<OrderLifecycleReport>,
    QueryError,
>)
    ensures
        answers(r, event_views(events@), order_lifecycle_of(event_views(events@), order_id@)),
{
    let ghost s = event_views(events@);
    match check_decodes(events) {
        Err(e) => return Err(QueryError::Codec(e)),
        Ok(_) => {},
    }
    let scan = scan_order(events, order_id);
    let ghost f = scan.facts();
    if !scan.relevant {
        return Ok(None);
    }
    proof {
        lemma_sorted_elements_of(strs(scan.decision_ids@));
        lemma_sorted_elements_of(strs(scan.venues@));
        lemma_sorted_elements_of(strs(scan.instruments@));
    }
    let reasons = lifecycle_reasons_of(&scan);
    let reg = scan.registered.len() > 0;
    let sub = scan.submitted.len() > 0;
    let fil = scan.fills.len() > 0;
    let mut raw: Vec<String> = Vec::new();
    proof {
        assert(strs(raw@) =~= Seq::empty());
    }
    if !reg && fil {
        raw.push(owned("fills reference this order_id, but the current log has no local order entity"));
    }
    if reg && !sub {
        raw.push(owned("the order is locally known but not yet observed as submitted in the current log"));
    }
    if sub && !fil {
        raw.push(owned("submission is locally observed, but no downstream fill has been observed yet"));
    }
    let ghost base = strs(raw@);
    proof {
        assert(base =~= only_if(!reg && fil, seq!["fills reference this order_id, but the current log has no local order entity"@])
            + only_if(reg && !sub, seq!["the order is locally known but not yet observed as submitted in the current log"@])
            + only_if(sub && !fil, seq!["submission is locally observed, but no downstream fill has been observed yet"@]));
    }
    if scan.decision_ids.len() == 1 {
        let d = &scan.decision_ids[0];
        match decision_execution_boundary(events, d.as_str()) {
            Ok(Some(b)) => {
                let mut n = owned("decision ");
                n.append(d.as_str());
                n.append(" execution boundary is ");
                n.append(boundary_status_text(b.status));
                let ghost before = raw@;
                raw.push(n);
                proof {
                    assert(strs(raw@) =~= strs(before).push(n@));
                }
            },
            Ok(None) => {},
            Err(e) => return Err(e),
        }
        let ghost mid = strs(raw@);
        proof {
            assert(mid =~= base + match decision_boundary_of(s, d@) {
                Some(b) => seq!["decision "@ + d@ + " execution boundary is "@ + boundary_status_name(b.status)],
                None => Seq::empty(),
            });
        }
        match decision_governance(events, d.as_str()) {
            Ok(Some(g)) => {
                let mut n = owned("decision ");
                n.append(d.as_str());
                n.append(" governance is ");
                n.append(governance_status_text(g.status));
                let ghost before = raw@;
                raw.push(n);
                proof {
                    assert(strs(raw@) =~= strs(before).push(n@));
                }
            },
            Ok(None) => {},
            Err(e) => return Err(e),
        }
        proof {
            assert(strs(raw@) =~= mid + match decision_governance_of(s, d@) {
                Some(g) => seq!["decision "@ + d@ + " governance is "@ + governance_status_name(g.status)],
                None => Seq::empty(),
            });
        }
    } else {
        proof {
            assert(strs(raw@) =~= base + Seq::<Seq<char>>::empty() + Seq::<Seq<char>>::empty());
        }
    }
    proof {
        assert(strs(raw@).to_set() =~= lifecycle_note_set(s, f));
    }
    let mut notes: Vec<String> = Vec::new();
    let mut k: usize = 0;
    proof {
        assert(strs(raw@).take(0).to_set() =~= Set::empty());
    }
    while k < raw.len()
        invariant
            k <= raw.len(),
            strictly_sorted(strs(notes@)),
            strs(notes@).to_set() == strs(raw@).take(k as int).to_set(),
        decreases raw.len() - k,
    {
        insert_sorted(&mut notes, raw[k].clone());
        proof {
            assert(strs(raw@).take(k as int + 1) =~= strs(raw@).take(k as int).push(raw@[k as int]@));
            strs(raw@).take(k as int).lemma_push_to_set_commute(raw@[k as int]@);
        }
        k = k + 1;
    }
    proof {
        assert(strs(raw@).take(k as int) =~= strs(raw@));
        lemma_sorted_elements_of(strs(notes@));
    }
    let status = if (sub && !reg) || scan.decision_ids.len() > 1 || scan.venues.len() > 1
        || scan.instruments.len() > 1 {
        OrderLifecycleStatus::Inconsistent
    } else if reg && sub && fil {
        OrderLifecycleStatus::ObservedWithFills
    } else if reg && sub {
        OrderLifecycleStatus::Submitted
    } else if reg && !fil {
        OrderLifecycleStatus::Registered
    } else {
        OrderLifecycleStatus::Weak
    };
    Ok(
        Some(
            OrderLifecycleReport {
                order_id: owned(order_id),
                status,
                reasons,
                decision_refs: clone_strs(&scan.decision_ids),
                observed_fill_ids: fill_ids_of(&scan.fills),
                venue_refs: clone_strs(&scan.venues),
                notes,
            },
        ),
    )
}


// ---------------------------------------------------------------------------
// Laws of the lifecycle
// ---------------------------------------------------------------------------
/// An order is observed with fills only when it was registered, submitted and
/// filled; submitted only when registered and submitted; and a submission with no
/// registration makes its lifecycle inconsistent.
pub proof fn lemma_lifecycle_stages_are_ordered(s: Seq<StoredEventView>, id: Seq<char>)
    ensures
        order_lifecycle_of(s, id) matches Some(lc) ==> {
            let f = order_facts(s, id);
            &&& lc.status == OrderLifecycleStatus::ObservedWithFills ==> f.registered.len() > 0
                && f.submitted.len() > 0 && f.fills.len() > 0
            &&& lc.status == OrderLifecycleStatus::Submitted ==> f.registered.len() > 0 && f.submitted.len() > 0
            &&& lc.status == OrderLifecycleStatus::Registered ==> f.registered.len() > 0 && f.submitted.len()
                == 0 && f.fills.len() == 0
            &&& (f.submitted.len() > 0 && f.registered.len() == 0) ==> lc.status
                == OrderLifecycleStatus::Inconsistent
        },
{
}

} // verus!
