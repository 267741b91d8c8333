//! The submission flow: every local order whose submission policy calls for it
//! is submitted.
use vstd::prelude::*;

use crate::codecs::{all_decode, check_decodes, decode_error};
use crate::events::{
    EventEnvelope, EventPayload, EventType, Linkage, OrderSubmitted, PayloadView, Provenance,
    SourceKind,
};
use crate::json_text::json_string;
use crate::materialization::error::{MaterializationError, MaterializationErrorView};
use crate::materialization::plan::{
    batch_trace_id, count_true, count_verdicts, duplicate_of, lead_of, lead_then, led_by,
    plan_for, promotion_status_name, promotion_status_text, verdict_of, Plan, Tally, Verdict,
};
use crate::queries::{
    order_submission_of, PromotionNextStep, PromotionPolicyStatus, PromotionReportView,
    QueryService,
};
use crate::events::envelope::lemma_uuid_text_not_blank;
use crate::events::{linkage_problem, provenance_problem, LinkageView, OrderView};
use crate::queries::support::or_else;
use crate::store::jsonl_store::{first_key_index, has_key, lemma_first_key_index_found};
use crate::store::stored_event::{envelope_as_stored, link_problem, stored_problem};
use crate::store::{event_views, JsonlEventStore, StoredEvent, StoredEventView};
use crate::text::{
    clone_opt, insert_sorted, lemma_sorted_elements_of, owned, same_text, sorted_elements, strictly_sorted,
    strs, is_blank, lemma_not_blank_joined,
};

verus! {

#[derive(Debug, Clone, Copy, PartialEq, Eq)]
pub struct OrderSubmissionOptions {
    pub dry_run: bool,
}

impl Default for OrderSubmissionOptions {
    fn default() -> (r: Self)
        ensures
            !r.dry_run,
    {
        OrderSubmissionOptions { dry_run: false }
    }
}

#[derive(Debug, Clone, Copy, PartialEq, Eq, Structural)]
pub enum OrderSubmissionDisposition {
    Eligible,
    Submitted,
    Skipped,
    Blocked,
    Inconsistent,
}

pub open spec fn submission_disposition(v: Verdict) -> OrderSubmissionDisposition {
    match v {
        Verdict::Eligible => OrderSubmissionDisposition::Eligible,
        Verdict::Written => OrderSubmissionDisposition::Submitted,
        Verdict::Skipped => OrderSubmissionDisposition::Skipped,
        Verdict::Blocked => OrderSubmissionDisposition::Blocked,
        Verdict::Inconsistent => OrderSubmissionDisposition::Inconsistent,
    }
}

#[derive(Debug, Clone, PartialEq, Eq)]
pub struct OrderSubmissionItem {
    pub order_id: String,
    pub policy_status: String,
    pub disposition: OrderSubmissionDisposition,
    pub persisted: bool,
    pub reasons: Vec<String>,
    pub notes: Vec<String>,
}

pub struct OrderSubmissionItemView {
    pub order_id: Seq<char>,
    pub policy_status: Seq<char>,
    pub disposition: OrderSubmissionDisposition,
    pub persisted: bool,
    pub reasons: Seq<Seq<char>>,
    pub notes: Seq<Seq<char>>,
}

impl View for OrderSubmissionItem {
    type V = OrderSubmissionItemView;

    open spec fn view(&self) -> OrderSubmissionItemView {
        OrderSubmissionItemView {
            order_id: self.order_id@,
            policy_status: self.policy_status@,
            disposition: self.disposition,
            persisted: self.persisted,
            reasons: strs(self.reasons@),
            notes: strs(self.notes@),
        }
    }
}

#[derive(Debug, Clone, PartialEq, Eq)]
pub struct OrderSubmissionReport {
    pub dry_run: bool,
    pub batch_trace_id: String,
    pub orders_inspected: usize,
    pub eligible: usize,
    pub submitted: usize,
    pub skipped: usize,
    pub blocked: usize,
    pub inconsistent: usize,
    pub duplicates: usize,
    pub items: Vec<OrderSubmissionItem>,
}

/// The orders a log knows locally: registered or submitted.
pub open spec fn local_order_set(s: Seq<StoredEventView>) -> Set<Seq<char>>
    decreases s.len(),
{
    if s.len() == 0 {
        Set::empty()
    } else {
        let rest = local_order_set(s.drop_last());
        match s.last().payload {
            PayloadView::OrderRegistered(p) => rest.insert(p.order_id),
            PayloadView::OrderSubmitted(p) => rest.insert(p.order_id),
            _ => rest,
        }
    }
}

/// The orders a run inspects, in increasing order.
pub open spec fn submission_candidates(s: Seq<StoredEventView>) -> Seq<Seq<char>> {
    sorted_elements(local_order_set(s))
}

pub open spec fn submission_plan(p: PromotionReportView) -> Plan {
    plan_for(None, p.status, p.next_step, PromotionNextStep::SubmitOrder, "EligibleWithoutSubmitOrderNextStep"@)
}

/// The item of an order follows its submission policy over the log as it stood
/// when the order's turn came; `appended` tells whether a write was new.
pub open spec fn submission_item_follows(
    item: OrderSubmissionItemView,
    order_id: Seq<char>,
    log: Seq<StoredEventView>,
    dry_run: bool,
    appended: bool,
) -> bool {
    match order_submission_of(log, order_id) {
        Some(p) => {
            let plan = submission_plan(p);
            &&& item.order_id == order_id
            &&& item.policy_status == promotion_status_name(p.status)
            &&& item.disposition == submission_disposition(verdict_of(plan, dry_run, appended))
            &&& item.persisted == (verdict_of(plan, dry_run, appended) == Verdict::Written)
            &&& item.reasons == led_by(lead_of(plan, dry_run, appended, "DuplicateOrderSubmission"@), p.reasons)
            &&& item.notes == p.notes
        },
        None => false,
    }
}

/// A submission written by this flow: an `order.submitted` of the order.
pub open spec fn is_submission(e: StoredEventView, order_id: Seq<char>) -> bool {
    &&& e.event_type == EventType::OrderSubmitted
    &&& e.produced_by == "runtime.order_submission"@
    &&& e.payload matches PayloadView::OrderSubmitted(p) && p.order_id == order_id
    &&& e.linkage.order_id == Some(order_id)
}

/// How one step of a run changes the log: a written item adds its submission,
/// any other item leaves the log as it was.
pub open spec fn submission_log_step(
    before: Seq<StoredEventView>,
    after: Seq<StoredEventView>,
    written: bool,
    order_id: Seq<char>,
) -> bool {
    if written {
        &&& after.len() == before.len() + 1
        &&& after.drop_last() == before
        &&& is_submission(after.last(), order_id)
    } else {
        after == before
    }
}

pub open spec fn submission_items(v: Seq<OrderSubmissionItem>) -> Seq<OrderSubmissionItemView> {
    v.map_values(|x: OrderSubmissionItem| x@)
}

/// The items of a run, each following the policy of its order over the log it
/// met, and the logs chained by the writes.
#[verifier::opaque]
pub open spec fn submission_steps(
    keys: Seq<Seq<char>>,
    items: Seq<OrderSubmissionItemView>,
    logs: Seq<Seq<StoredEventView>>,
    appended: Seq<bool>,
    dry_run: bool,
) -> bool {
    &&& logs.len() == items.len() + 1
    &&& appended.len() == items.len()
    &&& items.len() <= keys.len()
    &&& forall|i: int| 0 <= i < items.len() ==> submission_item_follows(#[trigger] items[i], keys[i], logs[i], dry_run, appended[i])
    &&& forall|i: int| 0 <= i < items.len() ==> submission_log_step(#[trigger] logs[i], logs[i + 1], items[i].persisted, keys[i])
}

pub open spec fn count_submission_items(items: Seq<OrderSubmissionItemView>, d: OrderSubmissionDisposition) -> nat
    decreases items.len(),
{
    if items.len() == 0 {
        0
    } else {
        count_submission_items(items.drop_last(), d) + if items.last().disposition == d {
            1nat
        } else {
            0nat
        }
    }
}

/// Which items of a run found their submission already in the store.
pub open spec fn submission_duplicates(
    keys: Seq<Seq<char>>,
    logs: Seq<Seq<StoredEventView>>,
    dry_run: bool,
    appended: Seq<bool>,
) -> Seq<bool> {
    Seq::new(
        appended.len(),
        |i: int|
            match order_submission_of(logs[i], keys[i]) {
                Some(p) => duplicate_of(submission_plan(p), dry_run, appended[i]),
                None => false,
            },
    )
}

/// A run of the submission flow over the log `start`, ending with the log
/// `end`: one item per local order of `start` in increasing order, each
/// following the submission policy of its order over the log it met, the logs
/// chained by the writes, and the counts.
pub open spec fn submission_run(
    start: Seq<StoredEventView>,
    end: Seq<StoredEventView>,
    dry_run: bool,
    r: OrderSubmissionReport,
    logs: Seq<Seq<StoredEventView>>,
    appended: Seq<bool>,
) -> bool {
    let keys = submission_candidates(start);
    let items = submission_items(r.items@);
    let n = items.len();
    &&& r.dry_run == dry_run
    &&& r.orders_inspected == n
    &&& n == keys.len()
    &&& logs.len() == n + 1
    &&& logs[0] == start
    &&& logs[n as int] == end
    &&& submission_steps(keys, items, logs, appended, dry_run)
    &&& r.submitted == count_submission_items(items, OrderSubmissionDisposition::Submitted)
    &&& r.skipped == count_submission_items(items, OrderSubmissionDisposition::Skipped)
    &&& r.blocked == count_submission_items(items, OrderSubmissionDisposition::Blocked)
    &&& r.inconsistent == count_submission_items(items, OrderSubmissionDisposition::Inconsistent)
    &&& r.duplicates == count_true(submission_duplicates(keys, logs, dry_run, appended))
    &&& r.eligible == count_submission_items(items, OrderSubmissionDisposition::Eligible) + r.submitted
        + r.duplicates
}

proof fn lemma_count_submission_items_matches(items: Seq<OrderSubmissionItemView>, vs: Seq<Verdict>, v: Verdict)
    requires
        items.len() == vs.len(),
        forall|i: int| 0 <= i < items.len() ==> #[trigger] items[i].disposition == submission_disposition(vs[i]),
    ensures
        count_submission_items(items, submission_disposition(v)) == count_verdicts(vs, v),
    decreases items.len(),
{
    if items.len() > 0 {
        lemma_count_submission_items_matches(items.drop_last(), vs.drop_last(), v);
        assert(items.last().disposition == submission_disposition(vs.last()));
    }
}

proof fn lemma_local_order_set_finite(s: Seq<StoredEventView>)
    ensures
        local_order_set(s).finite(),
    decreases s.len(),
{
    if s.len() > 0 {
        lemma_local_order_set_finite(s.drop_last());
    }
}

/// The local orders of a log, in increasing order; every event must decode.
fn local_order_ids(events: &Vec<StoredEvent>) -> (r: Result<Vec<String>, MaterializationError>)
    ensures
        match r {
            Ok(ids) => all_decode(event_views(events@)) && strs(ids@) == submission_candidates(event_views(events@)),
            Err(e) => !all_decode(event_views(events@)) && e@ == MaterializationErrorView::Codec(
                decode_error(event_views(events@)),
            ),
        },
{
    let ghost s = event_views(events@);
    match check_decodes(events.as_slice()) {
        Err(e) => return Err(MaterializationError::Codec(e)),
        Ok(_) => {},
    }
    let mut ids: Vec<String> = Vec::new();
    let mut i: usize = 0;
    proof {
        assert(s.take(0) =~= Seq::<StoredEventView>::empty());
        assert(strs(ids@).to_set() =~= Set::<Seq<char>>::empty());
    }
    while i < events.len()
        invariant
            i <= events.len(),
            s == event_views(events@),
            strictly_sorted(strs(ids@)),
            strs(ids@).to_set() == local_order_set(s.take(i as int)),
        decreases events.len() - i,
    {
        proof {
            assert(s.take(i as int + 1).drop_last() =~= s.take(i as int));
            assert(s.take(i as int + 1).last() == events@[i as int]@);
        }
        match &events[i].payload {
            EventPayload::OrderRegistered(p) => {
                insert_sorted(&mut ids, p.order_id.clone());
            },
            EventPayload::OrderSubmitted(p) => {
                insert_sorted(&mut ids, p.order_id.clone());
            },
            _ => {},
        }
        i = i + 1;
    }
    proof {
        assert(s.take(events.len() as int) =~= s);
        lemma_sorted_elements_of(strs(ids@));
    }
    Ok(ids)
}

/// The position of the last `order.registered` of an order in a log.
pub open spec fn last_registration(s: Seq<StoredEventView>, order_id: Seq<char>) -> Option<int>
    decreases s.len(),
{
    if s.len() == 0 {
        None
    } else if s.last().payload matches PayloadView::OrderRegistered(p) && p.order_id == order_id {
        Some(s.len() - 1)
    } else {
        last_registration(s.drop_last(), order_id)
    }
}

/// The index of the latest `order.registered` of the order in a log.
fn latest_registered(events: &Vec<StoredEvent>, order_id: &str) -> (r: Option<usize>)
    ensures
        r matches Some(i) ==> i < events.len() && (events@[i as int].payload matches EventPayload::OrderRegistered(p)
            && p.order_id@ == order_id@),
        match r {
            Some(i) => last_registration(event_views(events@), order_id@) == Some(i as int),
            None => last_registration(event_views(events@), order_id@) is None,
        },
{
    let ghost s = event_views(events@);
    let mut found: Option<usize> = None;
    let mut i: usize = 0;
    while i < events.len()
        invariant
            i <= events.len(),
            s == event_views(events@),
            found matches Some(j) ==> j < events.len() && (events@[j as int].payload matches EventPayload::OrderRegistered(p)
                && p.order_id@ == order_id@),
            match found {
                Some(j) => last_registration(s.take(i as int), order_id@) == Some(j as int),
                None => last_registration(s.take(i as int), order_id@) is None,
            },
        decreases events.len() - i,
    {
        assert(s.take(i as int + 1).drop_last() =~= s.take(i as int));
        assert(s.take(i as int + 1).last() == events@[i as int]@);
        match &events[i].payload {
            EventPayload::OrderRegistered(p) => {
                if same_text(p.order_id.as_str(), order_id) {
                    found = Some(i);
                }
            },
            _ => {},
        }
        i = i + 1;
    }
    assert(s.take(events.len() as int) =~= s);
    found
}

/// The latest registration of an order: the source of its submission.
pub open spec fn submission_source(log: Seq<StoredEventView>, order_id: Seq<char>) -> Option<StoredEventView> {
    match last_registration(log, order_id) {
        Some(i) => Some(log[i]),
        None => None,
    }
}

/// The idempotency key of the submission of an order: its registration's venue
/// and the order.
pub open spec fn submission_key(log: Seq<StoredEventView>, order_id: Seq<char>) -> Seq<char> {
    match submission_source(log, order_id) {
        Some(src) => match src.payload {
            PayloadView::OrderRegistered(o) => "order.submitted:v1:"@ + o.venue + ":"@ + order_id,
            _ => Seq::empty(),
        },
        None => Seq::empty(),
    }
}

/// The inputs on which the submission of an order is written when its key is
/// free: the order has a registration, and when that registration names no
/// decision the decision its links name is free of `:`; the order id is not
/// blank.
pub open spec fn submission_write_owed(log: Seq<StoredEventView>, order_id: Seq<char>) -> bool {
    &&& submission_source(log, order_id) matches Some(src) && (src.payload matches PayloadView::OrderRegistered(o)
        && (o.decision_id is None ==> (src.linkage.decision_id matches Some(d) ==> !d.contains(':'))))
    &&& !is_blank(order_id)
}

/// The stored event `e` states the same fact as the submission this flow
/// writes for the order from its latest registration: the store takes the two
/// as one.
pub open spec fn same_submission(e: StoredEventView, log: Seq<StoredEventView>, order_id: Seq<char>) -> bool {
    match submission_source(log, order_id) {
        Some(src) => match src.payload {
            PayloadView::OrderRegistered(o) => {
                let d = or_else(o.decision_id, src.linkage.decision_id);
                &&& e.event_type == EventType::OrderSubmitted
                &&& e.schema_version == "v1"@
                &&& e.produced_by == "runtime.order_submission"@
                &&& e.aggregate_key == Some(o.instrument)
                &&& e.linkage == LinkageView {
                    hypothesis_id: src.linkage.hypothesis_id,
                    signal_id: src.linkage.signal_id,
                    decision_id: d,
                    order_id: Some(o.order_id),
                    position_id: None,
                    parent_event_id: Some(src.event_id),
                    correlation_id: or_else(src.linkage.correlation_id, Some(order_id)),
                }
                &&& e.payload == PayloadView::OrderSubmitted(
                    OrderView { order_id: o.order_id, decision_id: d, instrument: o.instrument, venue: o.venue },
                )
            },
            _ => false,
        },
        None => false,
    }
}

/// The submission's key is free in the log, or the event first stored under
/// it states the same fact.
pub open spec fn submission_key_settled(log: Seq<StoredEventView>, order_id: Seq<char>) -> bool {
    match first_key_index(log, submission_key(log, order_id)) {
        Some(i) => same_submission(log[i], log, order_id),
        None => true,
    }
}

/// Submits an order, built from its latest `order.registered`: `Ok(true)` when
/// the submission is new to the store, `Ok(false)` when the store already holds it.
#[verifier::rlimit(80)]
#[verifier::spinoff_prover]
fn persist_submission(
    store: &mut JsonlEventStore,
    order_id: &String,
    batch: &String,
) -> (r: Result<bool, MaterializationError>)
    ensures
        match r {
            Ok(true) => submission_log_step(old(store)@, final(store)@, true, order_id@),
            _ => final(store)@ == old(store)@,
        },
        submission_source(old(store)@, order_id@) is None ==> (r matches Err(e) && e is InvalidState),
        submission_write_owed(old(store)@, order_id@) && !is_blank(batch@) && !has_key(
            old(store)@,
            submission_key(old(store)@, order_id@),
        ) ==> r matches Ok(true),
        submission_write_owed(old(store)@, order_id@) && !is_blank(batch@) && submission_key_settled(
            old(store)@,
            order_id@,
        ) ==> r is Ok,
        r matches Ok(false) ==> has_key(old(store)@, submission_key(old(store)@, order_id@)),
{
    let events = store.read_all();
    let i = match latest_registered(&events, order_id.as_str()) {
        Some(i) => i,
        None => {
            let mut m = owned("order ");
            m.append(order_id.as_str());
            m.append(" is eligible but has no order.registered event");
            return Err(MaterializationError::InvalidState(m));
        },
    };
    let source = &events[i];
    proof {
        assert(event_views(events@)[i as int] == source@);
        assert(stored_problem(source@) is None);
    }
    let p = match &source.payload {
        EventPayload::OrderRegistered(p) => p,
        _ => {
            return Err(MaterializationError::invalid_state("order.registered event expected"));
        },
    };
    let quoted_order = match json_string(order_id.as_str()) {
        Ok(q) => q,
        Err(e) => return Err(MaterializationError::Serde(e)),
    };
    let quoted_venue = match json_string(p.venue.as_str()) {
        Ok(q) => q,
        Err(e) => return Err(MaterializationError::Serde(e)),
    };
    let mut notes = owned("{\"order_id\":");
    notes.append(quoted_order.as_str());
    notes.append(",\"submission_boundary\":\"order_submission_boundary_v1\",\"venue\":");
    notes.append(quoted_venue.as_str());
    notes.append("}");
    let mut source_ref = owned("submit-orders://order/");
    source_ref.append(order_id.as_str());
    let provenance = Provenance {
        source_kind: SourceKind::Runtime,
        source_ref: Some(source_ref),
        producer_run_id: Some(batch.clone()),
        actor: Some(owned("order_submission_boundary_v1")),
        trace_id: Some(order_id.clone()),
        notes: Some(notes),
    };
    let decision_id = match &p.decision_id {
        Some(d) => Some(d.clone()),
        None => clone_opt(&source.linkage.decision_id),
    };
    let correlation_id = match &source.linkage.correlation_id {
        Some(c) => Some(c.clone()),
        None => Some(order_id.clone()),
    };
    let linkage = Linkage {
        hypothesis_id: clone_opt(&source.linkage.hypothesis_id),
        signal_id: clone_opt(&source.linkage.signal_id),
        decision_id: clone_opt(&decision_id),
        order_id: Some(p.order_id.clone()),
        position_id: None,
        parent_event_id: Some(source.event_id.clone()),
        correlation_id,
    };
    let payload = OrderSubmitted {
        order_id: p.order_id.clone(),
        decision_id,
        instrument: p.instrument.clone(),
        venue: p.venue.clone(),
    };
    proof {
        if submission_write_owed(old(store)@, order_id@) && !is_blank(batch@) {
            reveal_strlit("runtime.order_submission");
            reveal_strlit("v1");
            reveal_strlit("order.submitted:v1:");
            reveal_strlit("submit-orders://order/");
            reveal_strlit("order_submission_boundary_v1");
            reveal_strlit("{\"order_id\":");
            lemma_not_blank_joined("runtime.order_submission"@, Seq::empty(), 0);
            lemma_not_blank_joined("v1"@, Seq::empty(), 0);
            lemma_not_blank_joined("order.submitted:v1:"@ + p.venue@ + ":"@, p.order_id@, 0);
            assert(("order.submitted:v1:"@ + p.venue@ + ":"@)[0] == "order.submitted:v1:"@[0]);
            lemma_not_blank_joined("submit-orders://order/"@, order_id@, 0);
            lemma_not_blank_joined("order_submission_boundary_v1"@, Seq::empty(), 0);
            assert(notes@[0] == '{');
            lemma_not_blank_joined(notes@, Seq::empty(), 0);
            assert(p.order_id@ == order_id@);
            assert(crate::events::order_problem(payload@) is None);
        }
    }
    let envelope = match EventEnvelope::new_order_submitted(
        "runtime.order_submission",
        Some(p.instrument.clone()),
        linkage,
        provenance,
        payload,
    ) {
        Ok(e) => e,
        Err(e) => return Err(MaterializationError::Event(e)),
    };
    proof {
        if submission_write_owed(old(store)@, order_id@) && !is_blank(batch@) {
            lemma_uuid_text_not_blank(envelope.event_id@);
            assert(linkage_problem(envelope.linkage@) is None);
            assert(provenance_problem(envelope.provenance@) is None);
            assert(link_problem(envelope.linkage@, PayloadView::OrderSubmitted(envelope.payload@)) is None);
            assert(stored_problem(envelope_as_stored(envelope)) is None);
        }
    }
    let stored = match StoredEvent::from_envelope(envelope) {
        Ok(s) => s,
        Err(e) => return Err(MaterializationError::Store(e)),
    };
    proof {
        lemma_first_key_index_found(old(store)@, stored@.idempotency_key);
        assert(stored@.idempotency_key == submission_key(old(store)@, order_id@));
        assert(submission_source(old(store)@, order_id@) == Some(source@));
    }
    match store.append_event(&stored) {
        Ok(appended) => {
            proof {
                if appended {
                    assert(store@.drop_last() =~= old(store)@);
                }
            }
            Ok(appended)
        },
        Err(e) => Err(MaterializationError::Store(e)),
    }
}

/// The inputs on which the step of a run for an order cannot fail: the log
/// decodes, the order has a submission policy, and unless the run is dry or
/// the policy calls for no submission, the submission can be built and its key
/// is free or holds the same fact.
pub open spec fn submission_step_owed(log: Seq<StoredEventView>, order_id: Seq<char>, dry_run: bool) -> bool {
    &&& all_decode(log)
    &&& order_submission_of(log, order_id) matches Some(p) && (dry_run || !(submission_plan(p) is Attempt) || (
    submission_write_owed(log, order_id) && submission_key_settled(log, order_id)))
}

/// A run of the submission flow over `start` that stops at the order after
/// the items' ones: the steps before it as in a whole run, ending with the log
/// `end`, on which the step for that order is not owed.
pub open spec fn submission_run_stops(
    start: Seq<StoredEventView>,
    end: Seq<StoredEventView>,
    dry_run: bool,
    items: Seq<OrderSubmissionItemView>,
    logs: Seq<Seq<StoredEventView>>,
    appended: Seq<bool>,
) -> bool {
    let keys = submission_candidates(start);
    let k = items.len();
    &&& k < keys.len()
    &&& logs.len() == k + 1
    &&& logs[0] == start
    &&& logs[k as int] == end
    &&& submission_steps(keys, items, logs, appended, dry_run)
    &&& !submission_step_owed(end, keys[k as int], dry_run)
}

/// Every order of the log has a submission policy.
pub open spec fn orders_have_policies(s: Seq<StoredEventView>) -> bool {
    forall|i: int|
        0 <= i < submission_candidates(s).len() ==> (order_submission_of(s, #[trigger] submission_candidates(s)[i]) is Some)
}

/// Decides, and submits when the policy allows it, for one order.
fn decide_for_order(
    store: &mut JsonlEventStore,
    order_id: &String,
    batch: &String,
    dry_run: bool,
) -> (r: Result<(OrderSubmissionItem, bool, bool), MaterializationError>)
    ensures
        dry_run ==> final(store)@ == old(store)@,
        r is Err ==> final(store)@ == old(store)@,
        r matches Ok((item, appended, duplicate)) ==> {
            &&& submission_item_follows(item@, order_id@, old(store)@, dry_run, appended)
            &&& submission_log_step(old(store)@, final(store)@, item.persisted, order_id@)
            &&& duplicate == duplicate_of(
                submission_plan(order_submission_of(old(store)@, order_id@)->0),
                dry_run,
                appended,
            )
            &&& duplicate ==> item.disposition == OrderSubmissionDisposition::Skipped
        },
        all_decode(old(store)@) && order_submission_of(old(store)@, order_id@) is None ==> (r matches Err(e)
            && e is InvalidState),
        submission_step_owed(old(store)@, order_id@, dry_run) && !is_blank(batch@) ==> r is Ok,
{
    let ghost start = store@;
    let policy = {
        let qs = QueryService::new(&*store);
        match qs.order_submission_policy(order_id.as_str()) {
            Ok(Some(p)) => p,
            Ok(None) => {
                let mut m = owned("order ");
                m.append(order_id.as_str());
                m.append(" is locally visible but has no submission policy");
                return Err(MaterializationError::InvalidState(m));
            },
            Err(e) => return Err(MaterializationError::Query(e)),
        }
    };
    let ghost pv = policy@;
    let ghost plan = submission_plan(pv);
    let status = policy.status;
    let next_step = policy.next_step;
    let mut duplicate = false;
    let (verdict, appended, lead): (Verdict, bool, Option<String>) =
        if status == PromotionPolicyStatus::Eligible && next_step == Some(PromotionNextStep::SubmitOrder) {
            if dry_run {
                (Verdict::Eligible, false, None)
            } else {
                match persist_submission(store, order_id, batch) {
                    Ok(true) => (Verdict::Written, true, None),
                    Ok(false) => {
                        duplicate = true;
                        (Verdict::Skipped, false, Some(owned("DuplicateOrderSubmission")))
                    },
                    Err(e) => return Err(e),
                }
            }
        } else if status == PromotionPolicyStatus::Blocked {
            (Verdict::Blocked, false, None)
        } else if status == PromotionPolicyStatus::Inconsistent {
            (Verdict::Inconsistent, false, None)
        } else if status == PromotionPolicyStatus::Eligible {
            (Verdict::Skipped, false, Some(owned("EligibleWithoutSubmitOrderNextStep")))
        } else {
            (Verdict::Skipped, false, None)
        };
    proof {
        assert(verdict == verdict_of(plan, dry_run, appended));
        assert(crate::text::opt_view(lead) == lead_of(plan, dry_run, appended, "DuplicateOrderSubmission"@));
    }
    let disposition = match verdict {
        Verdict::Eligible => OrderSubmissionDisposition::Eligible,
        Verdict::Written => OrderSubmissionDisposition::Submitted,
        Verdict::Skipped => OrderSubmissionDisposition::Skipped,
        Verdict::Blocked => OrderSubmissionDisposition::Blocked,
        Verdict::Inconsistent => OrderSubmissionDisposition::Inconsistent,
    };
    let reasons = lead_then(lead, policy.reasons);
    let item = OrderSubmissionItem {
        order_id: order_id.clone(),
        policy_status: owned(promotion_status_text(status)),
        disposition,
        persisted: verdict == Verdict::Written,
        reasons,
        notes: policy.notes,
    };
    Ok((item, appended, duplicate))
}

proof fn lemma_submission_steps_extend(
    keys: Seq<Seq<char>>,
    items: Seq<OrderSubmissionItemView>,
    logs: Seq<Seq<StoredEventView>>,
    appended: Seq<bool>,
    dry_run: bool,
    x: OrderSubmissionItemView,
    next: Seq<StoredEventView>,
    a: bool,
)
    requires
        submission_steps(keys, items, logs, appended, dry_run),
        items.len() < keys.len(),
        submission_item_follows(x, keys[items.len() as int], logs[items.len() as int], dry_run, a),
        submission_log_step(logs[items.len() as int], next, x.persisted, keys[items.len() as int]),
    ensures
        submission_steps(keys, items.push(x), logs.push(next), appended.push(a), dry_run),
        submission_duplicates(keys, logs.push(next), dry_run, appended.push(a)) == submission_duplicates(
            keys,
            logs,
            dry_run,
            appended,
        ).push(
            match order_submission_of(logs[items.len() as int], keys[items.len() as int]) {
                Some(p) => duplicate_of(submission_plan(p), dry_run, a),
                None => false,
            },
        ),
{
    reveal(submission_steps);
    let n = items.len() as int;
    let items2 = items.push(x);
    let logs2 = logs.push(next);
    let ap2 = appended.push(a);
    assert forall|i: int| 0 <= i < items2.len() implies submission_item_follows(#[trigger] items2[i], keys[i], logs2[i], dry_run, ap2[i]) by {
        if i < n {
            assert(items2[i] == items[i]);
            assert(logs2[i] == logs[i]);
            assert(ap2[i] == appended[i]);
        }
    }
    assert forall|i: int| 0 <= i < items2.len() implies submission_log_step(#[trigger] logs2[i], logs2[i + 1], items2[i].persisted, keys[i]) by {
        if i < n {
            assert(items2[i] == items[i]);
            assert(logs2[i] == logs[i]);
            assert(logs2[i + 1] == logs[i + 1]);
        }
    }
    assert(submission_duplicates(keys, logs2, dry_run, ap2) =~= submission_duplicates(keys, logs, dry_run, appended).push(
        match order_submission_of(logs[n], keys[n]) {
            Some(p) => duplicate_of(submission_plan(p), dry_run, a),
            None => false,
        },
    ));
}

proof fn lemma_submission_verdicts_extend(items: Seq<OrderSubmissionItemView>, vs: Seq<Verdict>, x: OrderSubmissionItemView, v: Verdict)
    requires
        items.len() == vs.len(),
        forall|i: int| 0 <= i < items.len() ==> #[trigger] items[i].disposition == submission_disposition(vs[i]),
        x.disposition == submission_disposition(v),
    ensures
        forall|i: int| 0 <= i < items.push(x).len() ==> #[trigger] items.push(x)[i].disposition == submission_disposition(vs.push(v)[i]),
{
    assert forall|i: int| 0 <= i < items.push(x).len() implies #[trigger] items.push(x)[i].disposition == submission_disposition(vs.push(v)[i]) by {
        if i < items.len() {
            assert(items.push(x)[i] == items[i]);
        }
    }
}

/// Submits every local order whose submission policy calls for it. The local
/// orders of the log are inspected in increasing order; a dry run writes
/// nothing; an event that does not decode fails the run.
pub fn submit_orders(store: &mut JsonlEventStore, options: OrderSubmissionOptions) -> (r: Result<
    OrderSubmissionReport,
    MaterializationError,
>)
    ensures
        r matches Ok(report) ==> exists|logs: Seq<Seq<StoredEventView>>, appended: Seq<bool>|
            submission_run(old(store)@, final(store)@, options.dry_run, report, logs, appended),
        !all_decode(old(store)@) ==> (r matches Err(e) && e@ == MaterializationErrorView::Codec(
            decode_error(old(store)@),
        )),
        options.dry_run ==> final(store)@ == old(store)@,
        options.dry_run && all_decode(old(store)@) && orders_have_policies(old(store)@) ==> r is Ok,
        r is Err ==> !all_decode(old(store)@) || exists|
            items: Seq<OrderSubmissionItemView>,
            logs: Seq<Seq<StoredEventView>>,
            appended: Seq<bool>,
        | submission_run_stops(old(store)@, final(store)@, options.dry_run, items, logs, appended),
{
    let ghost start = store@;
    let batch = match batch_trace_id("order-submission-") {
        Ok(b) => b,
        Err(e) => return Err(e),
    };
    let keys = {
        let events = store.read_all();
        match local_order_ids(&events) {
            Ok(k) => k,
            Err(e) => return Err(e),
        }
    };
    let ghost ks = submission_candidates(start);
    proof {
        assert(strs(keys@) == ks);
        reveal_strlit("order-submission-");
        assert(!crate::text::is_white_space("order-submission-"@[0]));
        let t = choose|t: Seq<char>| batch@ == "order-submission-"@ + t;
        lemma_not_blank_joined("order-submission-"@, t, 0);
    }
    let dry_run = options.dry_run;
    let mut items: Vec<OrderSubmissionItem> = Vec::new();
    let mut tally = Tally::new();
    let ghost mut logs: Seq<Seq<StoredEventView>> = seq![start];
    proof {
        assert(logs[0] == start);
    }
    let ghost mut appended_flags: Seq<bool> = Seq::empty();
    let ghost mut verdicts: Seq<Verdict> = Seq::empty();
    let ghost mut dups: Seq<bool> = Seq::empty();
    let mut k: usize = 0;
    proof {
        reveal(submission_steps);
        assert(submission_items(items@) =~= Seq::empty());
        assert(submission_duplicates(ks, logs, dry_run, appended_flags) =~= dups);
    }
    while k < keys.len()
        invariant
            k <= keys.len(),
            strs(keys@) == ks,
            ks == submission_candidates(start),
            start == old(store)@,
            all_decode(start),
            !is_blank(batch@),
            dry_run == options.dry_run,
            dry_run ==> store@ == start,
            verdicts.len() == k,
            dups.len() == k,
            items.len() == k,
            logs.len() == k + 1,
            appended_flags.len() == k,
            logs[0] == start,
            logs[k as int] == store@,
            tally.counts(verdicts, dups),
            tally.eligible <= k,
            submission_steps(ks, submission_items(items@), logs, appended_flags, dry_run),
            forall|i: int| 0 <= i < k ==> #[trigger] submission_items(items@)[i].disposition == submission_disposition(verdicts[i]),
            dups == submission_duplicates(ks, logs, dry_run, appended_flags),
        decreases keys.len() - k,
    {
        let ghost before = store@;
        let (item, appended, duplicate) = match decide_for_order(store, &keys[k], &batch, dry_run) {
            Ok(x) => x,
            Err(e) => {
                proof {
                    assert(dry_run ==> store@ == before);
                    assert(ks[k as int] == keys@[k as int]@);
                    assert(submission_run_stops(start, store@, dry_run, submission_items(items@), logs, appended_flags));
                }
                return Err(e);
            },
        };
        proof {
            assert(ks[k as int] == keys@[k as int]@);
        }
        let v = match item.disposition {
            OrderSubmissionDisposition::Eligible => Verdict::Eligible,
            OrderSubmissionDisposition::Submitted => Verdict::Written,
            OrderSubmissionDisposition::Skipped => Verdict::Skipped,
            OrderSubmissionDisposition::Blocked => Verdict::Blocked,
            OrderSubmissionDisposition::Inconsistent => Verdict::Inconsistent,
        };
        tally.record(v, duplicate, Ghost(verdicts), Ghost(dups));
        let ghost items_before = submission_items(items@);
        let ghost iv = item@;
        items.push(item);
        proof {
            assert(submission_items(items@) =~= items_before.push(iv));
            lemma_submission_steps_extend(ks, items_before, logs, appended_flags, dry_run, iv, store@, appended);
            lemma_submission_verdicts_extend(items_before, verdicts, iv, v);
            logs = logs.push(store@);
            appended_flags = appended_flags.push(appended);
            verdicts = verdicts.push(v);
            dups = dups.push(duplicate);
        }
        k = k + 1;
    }
    let ghost iv = submission_items(items@);
    proof {
        lemma_count_submission_items_matches(iv, verdicts, Verdict::Eligible);
        lemma_count_submission_items_matches(iv, verdicts, Verdict::Written);
        lemma_count_submission_items_matches(iv, verdicts, Verdict::Skipped);
        lemma_count_submission_items_matches(iv, verdicts, Verdict::Blocked);
        lemma_count_submission_items_matches(iv, verdicts, Verdict::Inconsistent);
    }
    let report = OrderSubmissionReport {
        dry_run,
        batch_trace_id: batch,
        orders_inspected: items.len(),
        eligible: tally.eligible,
        skipped: tally.skipped,
        blocked: tally.blocked,
        inconsistent: tally.inconsistent,
        submitted: tally.written,
        duplicates: tally.duplicates,
        items,
    };
    proof {
        reveal(submission_steps);
        assert(submission_run(start, store@, dry_run, report, logs, appended_flags));
    }
    let r = Ok(report);
    proof {
        assert(r matches Ok(rep) && submission_run(old(store)@, store@, options.dry_run, rep, logs, appended_flags));
    }
    r
}

/// An order is submitted only by a run that is not dry, when its submission
/// policy is eligible and calls for the submission.
pub proof fn lemma_submitted_order_was_eligible(
    item: OrderSubmissionItemView,
    order_id: Seq<char>,
    log: Seq<StoredEventView>,
    dry_run: bool,
    appended: bool,
)
    requires
        submission_item_follows(item, order_id, log, dry_run, appended),
        item.persisted,
    ensures
        !dry_run,
        appended,
        order_submission_of(log, order_id) matches Some(p) && p.status == PromotionPolicyStatus::Eligible
            && p.next_step == Some(PromotionNextStep::SubmitOrder),
{
}

/// The event registers or submits the order `id`.
pub open spec fn names_order(e: StoredEventView, id: Seq<char>) -> bool {
    match e.payload {
        PayloadView::OrderRegistered(p) => p.order_id == id,
        PayloadView::OrderSubmitted(p) => p.order_id == id,
        _ => false,
    }
}

proof fn lemma_local_order_set_members(s: Seq<StoredEventView>, id: Seq<char>)
    ensures
        local_order_set(s).contains(id) <==> exists|i: int| 0 <= i < s.len() && names_order(#[trigger] s[i], id),
    decreases s.len(),
{
    if s.len() > 0 {
        let rest = s.drop_last();
        lemma_local_order_set_members(rest, id);
        if local_order_set(s).contains(id) {
            if !names_order(s.last(), id) {
                let i = choose|i: int| 0 <= i < rest.len() && names_order(#[trigger] rest[i], id);
                assert(s[i] == rest[i]);
            } else {
                assert(names_order(s[s.len() - 1], id));
            }
        }
        if exists|i: int| 0 <= i < s.len() && names_order(#[trigger] s[i], id) {
            let i = choose|i: int| 0 <= i < s.len() && names_order(#[trigger] s[i], id);
            if i < rest.len() {
                assert(rest[i] == s[i]);
            } else {
                assert(s.last() == s[i]);
            }
        }
    }
}

/// How many items of a run were written.
pub open spec fn count_persisted_submissions(items: Seq<OrderSubmissionItemView>) -> nat
    decreases items.len(),
{
    if items.len() == 0 {
        0
    } else {
        count_persisted_submissions(items.drop_last()) + if items.last().persisted {
            1nat
        } else {
            0nat
        }
    }
}

/// The orders of a run's items, in order.
pub open spec fn item_order_ids(items: Seq<OrderSubmissionItemView>) -> Seq<Seq<char>> {
    items.map_values(|x: OrderSubmissionItemView| x.order_id)
}

proof fn lemma_persisted_submissions(items: Seq<OrderSubmissionItemView>, dry_run: bool)
    requires
        forall|i: int| 0 <= i < items.len() ==> (#[trigger] items[i]).persisted == (items[i].disposition
            == OrderSubmissionDisposition::Submitted),
        dry_run ==> forall|i: int| 0 <= i < items.len() ==> !(#[trigger] items[i]).persisted,
    ensures
        count_persisted_submissions(items) == count_submission_items(items, OrderSubmissionDisposition::Submitted),
        dry_run ==> count_persisted_submissions(items) == 0,
    decreases items.len(),
{
    if items.len() > 0 {
        let rest = items.drop_last();
        assert forall|i: int| 0 <= i < rest.len() implies (#[trigger] rest[i]).persisted == (rest[i].disposition
            == OrderSubmissionDisposition::Submitted) by {
            assert(rest[i] == items[i]);
        }
        if dry_run {
            assert forall|i: int| 0 <= i < rest.len() implies !(#[trigger] rest[i]).persisted by {
                assert(rest[i] == items[i]);
            }
            assert(!items[items.len() - 1].persisted);
        }
        lemma_persisted_submissions(rest, dry_run);
        assert(items.last() == items[items.len() - 1]);
    }
}

proof fn lemma_submission_dispositions_add_up(items: Seq<OrderSubmissionItemView>)
    ensures
        count_submission_items(items, OrderSubmissionDisposition::Eligible) + count_submission_items(
            items,
            OrderSubmissionDisposition::Submitted,
        ) + count_submission_items(items, OrderSubmissionDisposition::Skipped) + count_submission_items(
            items,
            OrderSubmissionDisposition::Blocked,
        ) + count_submission_items(items, OrderSubmissionDisposition::Inconsistent) == items.len(),
    decreases items.len(),
{
    if items.len() > 0 {
        lemma_submission_dispositions_add_up(items.drop_last());
    }
}

/// What every report of a submission run says: its items name, in strictly
/// increasing order, exactly the orders that an `order.registered` or
/// `order.submitted` of the log names; one item per order inspected; the
/// orders submitted are the items persisted, which are those submitted; the
/// eligible, blocked, inconsistent and skipped orders, less the duplicates,
/// make up all the items; and a dry run submits none.
pub proof fn lemma_submission_report(
    start: Seq<StoredEventView>,
    end: Seq<StoredEventView>,
    dry_run: bool,
    report: OrderSubmissionReport,
    logs: Seq<Seq<StoredEventView>>,
    appended: Seq<bool>,
)
    requires
        submission_run(start, end, dry_run, report, logs, appended),
    ensures
        strictly_sorted(item_order_ids(submission_items(report.items@))),
        forall|id: Seq<char>|
            item_order_ids(submission_items(report.items@)).contains(id) <==> exists|i: int|
                0 <= i < start.len() && names_order(#[trigger] start[i], id),
        report.orders_inspected == report.items.len(),
        report.eligible + report.blocked + report.inconsistent + report.skipped - report.duplicates
            == report.items.len(),
        report.submitted == count_persisted_submissions(submission_items(report.items@)),
        dry_run ==> report.submitted == 0,
{
    reveal(submission_steps);
    let keys = submission_candidates(start);
    let items = submission_items(report.items@);
    lemma_local_order_set_finite(start);
    crate::text::lemma_sorted_elements_exist(local_order_set(start));
    assert forall|i: int| 0 <= i < items.len() implies (#[trigger] items[i]).persisted == (items[i].disposition
        == OrderSubmissionDisposition::Submitted) && (dry_run ==> !items[i].persisted) && items[i].order_id == keys[i] by {
        assert(submission_item_follows(items[i], keys[i], logs[i], dry_run, appended[i]));
    }
    assert(item_order_ids(items) =~= keys);
    lemma_persisted_submissions(items, dry_run);
    lemma_submission_dispositions_add_up(items);
    assert forall|id: Seq<char>|
        item_order_ids(items).contains(id) <==> exists|i: int| 0 <= i < start.len() && names_order(#[trigger] start[i], id) by {
        lemma_local_order_set_members(start, id);
        assert(keys.to_set().contains(id) <==> keys.contains(id));
    }
}

} // verus!
