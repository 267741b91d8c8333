//! The order flow: every decision whose promotion policy calls for an order
//! gets a local order registered for it.
use vstd::prelude::*;

use crate::codecs::all_decode;
use crate::events::{
    EventEnvelope, EventPayload, EventType, Linkage, OrderRegistered, PayloadView, Provenance,
    SourceKind,
};
use crate::json_text::json_string;
use crate::materialization::error::MaterializationError;
use crate::materialization::plan::{
    batch_trace_id, count_true, count_verdicts, duplicate_of, lead_of, lead_then, led_by,
    plan_for, promotion_status_name, promotion_status_text, verdict_of, Plan, Tally, Verdict,
};
use crate::projections::{decision_keys_of, decision_projection_keys};
use crate::queries::{
    decision_lineage_of, decision_promotion_of, PromotionNextStep, PromotionPolicyStatus,
    PromotionReportView, QueryError, QueryService,
};
use crate::events::envelope::lemma_uuid_text_not_blank;
use crate::events::{linkage_problem, provenance_problem, LinkageView, OrderView};
use crate::queries::support::or_else;
use crate::store::jsonl_store::{first_key_index, has_key, lemma_filter_keeps_valid, lemma_first_key_index_found};
use crate::store::stored_event::{envelope_as_stored, link_problem, stored_problem};
use crate::text::{is_blank, lemma_not_blank_joined};
use crate::store::{event_views, JsonlEventStore, StoredEvent, StoredEventView};
use crate::text::{clone_opt, join_texts, joined, owned, strs};

verus! {

#[derive(Debug, Clone, Copy, PartialEq, Eq)]
pub struct OrderMaterializationOptions {
    pub dry_run: bool,
}

impl Default for OrderMaterializationOptions {
    fn default() -> (r: Self)
        ensures
            !r.dry_run,
    {
        OrderMaterializationOptions { dry_run: false }
    }
}

#[derive(Debug, Clone, Copy, PartialEq, Eq, Structural)]
pub enum OrderMaterializationDisposition {
    Eligible,
    Materialized,
    Skipped,
    Blocked,
    Inconsistent,
}

pub open spec fn order_disposition(v: Verdict) -> OrderMaterializationDisposition {
    match v {
        Verdict::Eligible => OrderMaterializationDisposition::Eligible,
        Verdict::Written => OrderMaterializationDisposition::Materialized,
        Verdict::Skipped => OrderMaterializationDisposition::Skipped,
        Verdict::Blocked => OrderMaterializationDisposition::Blocked,
        Verdict::Inconsistent => OrderMaterializationDisposition::Inconsistent,
    }
}

#[derive(Debug, Clone, PartialEq, Eq)]
pub struct OrderMaterializationItem {
    pub decision_id: String,
    pub policy_status: String,
    pub disposition: OrderMaterializationDisposition,
    pub candidate_order_id: Option<String>,
    pub persisted: bool,
    pub reasons: Vec<String>,
    pub notes: Vec<String>,
}

pub struct OrderMaterializationItemView {
    pub decision_id: Seq<char>,
    pub policy_status: Seq<char>,
    pub disposition: OrderMaterializationDisposition,
    pub candidate_order_id: Option<Seq<char>>,
    pub persisted: bool,
    pub reasons: Seq<Seq<char>>,
    pub notes: Seq<Seq<char>>,
}

impl View for OrderMaterializationItem {
    type V = OrderMaterializationItemView;

    open spec fn view(&self) -> OrderMaterializationItemView {
        OrderMaterializationItemView {
            decision_id: self.decision_id@,
            policy_status: self.policy_status@,
            disposition: self.disposition,
            candidate_order_id: crate::text::opt_view(self.candidate_order_id),
            persisted: self.persisted,
            reasons: strs(self.reasons@),
            notes: strs(self.notes@),
        }
    }
}

#[derive(Debug, Clone, PartialEq, Eq)]
pub struct OrderMaterializationReport {
    pub dry_run: bool,
    pub batch_trace_id: String,
    pub decisions_inspected: usize,
    pub eligible: usize,
    pub skipped: usize,
    pub blocked: usize,
    pub inconsistent: usize,
    pub orders_registered: usize,
    pub duplicates: usize,
    pub items: Vec<OrderMaterializationItem>,
}

/// The local order a decision gets.
pub open spec fn order_id_for(decision_id: Seq<char>) -> Seq<char> {
    "order-"@ + decision_id
}

/// The local orders the lineage of a decision already shows.
pub open spec fn local_orders_of(log: Seq<StoredEventView>, decision_id: Seq<char>) -> Seq<Seq<char>> {
    match decision_lineage_of(log, decision_id) {
        Some(l) => l.downstream_refs.local_order_ids,
        None => Seq::empty(),
    }
}

/// The reason that leads the item of a decision that already has local orders.
pub open spec fn existing_orders_reason(ids: Seq<Seq<char>>) -> Option<Seq<char>> {
    if ids.len() > 0 {
        Some("ExistingOrderIds("@ + joined(ids, ","@) + ")"@)
    } else {
        None
    }
}

pub open spec fn order_plan(log: Seq<StoredEventView>, decision_id: Seq<char>, p: PromotionReportView) -> Plan {
    plan_for(
        existing_orders_reason(local_orders_of(log, decision_id)),
        p.status,
        p.next_step,
        PromotionNextStep::RegisterOrder,
        "EligibleWithoutRegisterOrderNextStep"@,
    )
}

/// The item of a decision follows its promotion policy and lineage over the
/// log as it stood when the decision's turn came; `appended` tells whether a
/// write was new.
pub open spec fn order_item_follows(
    item: OrderMaterializationItemView,
    decision_id: Seq<char>,
    log: Seq<StoredEventView>,
    dry_run: bool,
    appended: bool,
) -> bool {
    match decision_promotion_of(log, decision_id) {
        Some(p) => {
            let plan = order_plan(log, decision_id, p);
            &&& item.decision_id == decision_id
            &&& item.policy_status == promotion_status_name(p.status)
            &&& item.candidate_order_id == Some(order_id_for(decision_id))
            &&& item.disposition == order_disposition(verdict_of(plan, dry_run, appended))
            &&& item.persisted == (verdict_of(plan, dry_run, appended) == Verdict::Written)
            &&& item.reasons == led_by(lead_of(plan, dry_run, appended, "DuplicateOrderMaterialization"@), p.reasons)
            &&& item.notes == p.notes
        },
        None => false,
    }
}

/// The idempotency key of the order this flow registers for a decision.
pub open spec fn order_key(decision_id: Seq<char>) -> Seq<char> {
    "order.registered:v1:"@ + "paper"@ + ":"@ + order_id_for(decision_id)
}

/// An order written by this flow: an `order.registered` of the candidate order
/// on the paper venue, for the decision.
pub open spec fn is_materialized_order(e: StoredEventView, decision_id: Seq<char>) -> bool {
    &&& e.event_type == EventType::OrderRegistered
    &&& e.idempotency_key == order_key(decision_id)
    &&& e.produced_by == "runtime.order_materialization"@
    &&& e.payload matches PayloadView::OrderRegistered(p) && p.order_id == order_id_for(decision_id)
        && p.venue == "paper"@
    &&& e.linkage.decision_id == Some(decision_id)
    &&& e.linkage.order_id == Some(order_id_for(decision_id))
}

/// How one step of a run changes the log: a written item adds its order, any
/// other item leaves the log as it was.
pub open spec fn order_log_step(
    before: Seq<StoredEventView>,
    after: Seq<StoredEventView>,
    written: bool,
    decision_id: Seq<char>,
) -> bool {
    if written {
        &&& after.len() == before.len() + 1
        &&& after.drop_last() == before
        &&& is_materialized_order(after.last(), decision_id)
        &&& !has_key(before, order_key(decision_id))
    } else {
        after == before
    }
}

pub open spec fn order_items(v: Seq<OrderMaterializationItem>) -> Seq<OrderMaterializationItemView> {
    v.map_values(|x: OrderMaterializationItem| x@)
}

/// The decisions a run inspects: those the decision projections of the log
/// have a record for, in order of first appearance.
pub open spec fn order_candidates(s: Seq<StoredEventView>) -> Seq<Seq<char>> {
    match decision_keys_of(s) {
        Ok(keys) => keys,
        Err(_) => Seq::empty(),
    }
}

/// The items of a run, each following the policy of its decision over the log
/// it met, and the logs chained by the writes.
#[verifier::opaque]
pub open spec fn order_steps(
    keys: Seq<Seq<char>>,
    items: Seq<OrderMaterializationItemView>,
    logs: Seq<Seq<StoredEventView>>,
    appended: Seq<bool>,
    dry_run: bool,
) -> bool {
    &&& logs.len() == items.len() + 1
    &&& appended.len() == items.len()
    &&& items.len() <= keys.len()
    &&& forall|i: int| 0 <= i < items.len() ==> order_item_follows(#[trigger] items[i], keys[i], logs[i], dry_run, appended[i])
    &&& forall|i: int| 0 <= i < items.len() ==> order_log_step(#[trigger] logs[i], logs[i + 1], items[i].persisted, keys[i])
}

pub open spec fn count_order_items(items: Seq<OrderMaterializationItemView>, d: OrderMaterializationDisposition) -> nat
    decreases items.len(),
{
    if items.len() == 0 {
        0
    } else {
        count_order_items(items.drop_last(), d) + if items.last().disposition == d {
            1nat
        } else {
            0nat
        }
    }
}

/// Which items of a run found their order already in the store.
pub open spec fn order_duplicates(
    keys: Seq<Seq<char>>,
    logs: Seq<Seq<StoredEventView>>,
    dry_run: bool,
    appended: Seq<bool>,
) -> Seq<bool> {
    Seq::new(
        appended.len(),
        |i: int|
            match decision_promotion_of(logs[i], keys[i]) {
                Some(p) => duplicate_of(order_plan(logs[i], keys[i], p), dry_run, appended[i]),
                None => false,
            },
    )
}

/// A run of the order flow over the log `start`, ending with the log `end`:
/// one item per decision with a projection in `start`, each following the
/// policy of its decision over the log it met, the logs chained by the writes,
/// and the counts.
pub open spec fn order_run(
    start: Seq<StoredEventView>,
    end: Seq<StoredEventView>,
    dry_run: bool,
    r: OrderMaterializationReport,
    logs: Seq<Seq<StoredEventView>>,
    appended: Seq<bool>,
) -> bool {
    let keys = order_candidates(start);
    let items = order_items(r.items@);
    let n = items.len();
    &&& r.dry_run == dry_run
    &&& r.decisions_inspected == n
    &&& n == keys.len()
    &&& logs.len() == n + 1
    &&& logs[0] == start
    &&& logs[n as int] == end
    &&& order_steps(keys, items, logs, appended, dry_run)
    &&& r.orders_registered == count_order_items(items, OrderMaterializationDisposition::Materialized)
    &&& r.skipped == count_order_items(items, OrderMaterializationDisposition::Skipped)
    &&& r.blocked == count_order_items(items, OrderMaterializationDisposition::Blocked)
    &&& r.inconsistent == count_order_items(items, OrderMaterializationDisposition::Inconsistent)
    &&& r.duplicates == count_true(order_duplicates(keys, logs, dry_run, appended))
    &&& r.eligible == count_order_items(items, OrderMaterializationDisposition::Eligible) + r.orders_registered
        + r.duplicates
}

proof fn lemma_count_order_items_matches(items: Seq<OrderMaterializationItemView>, vs: Seq<Verdict>, v: Verdict)
    requires
        items.len() == vs.len(),
        forall|i: int| 0 <= i < items.len() ==> #[trigger] items[i].disposition == order_disposition(vs[i]),
    ensures
        count_order_items(items, order_disposition(v)) == count_verdicts(vs, v),
    decreases items.len(),
{
    if items.len() > 0 {
        lemma_count_order_items_matches(items.drop_last(), vs.drop_last(), v);
        assert(items.last().disposition == order_disposition(vs.last()));
    }
}

/// The position of the last `decision.formed` of a log.
pub open spec fn last_formed(s: Seq<StoredEventView>) -> Option<int>
    decreases s.len(),
{
    if s.len() == 0 {
        None
    } else if s.last().payload is DecisionFormed {
        Some(s.len() - 1)
    } else {
        last_formed(s.drop_last())
    }
}

/// The index of the latest `decision.formed` of a timeline.
fn latest_formed(timeline: &Vec<StoredEvent>) -> (r: Option<usize>)
    ensures
        r matches Some(i) ==> i < timeline.len() && timeline@[i as int].payload is DecisionFormed,
        match r {
            Some(i) => last_formed(event_views(timeline@)) == Some(i as int),
            None => last_formed(event_views(timeline@)) is None,
        },
{
    let ghost s = event_views(timeline@);
    let mut found: Option<usize> = None;
    let mut i: usize = 0;
    while i < timeline.len()
        invariant
            i <= timeline.len(),
            s == event_views(timeline@),
            found matches Some(j) ==> j < timeline.len() && timeline@[j as int].payload is DecisionFormed,
            match found {
                Some(j) => last_formed(s.take(i as int)) == Some(j as int),
                None => last_formed(s.take(i as int)) is None,
            },
        decreases timeline.len() - i,
    {
        assert(s.take(i as int + 1).drop_last() =~= s.take(i as int));
        assert(s.take(i as int + 1).last() == timeline@[i as int]@);
        match &timeline[i].payload {
            EventPayload::DecisionFormed(_) => {
                found = Some(i);
            },
            _ => {},
        }
        i = i + 1;
    }
    assert(s.take(timeline.len() as int) =~= s);
    found
}

/// The events of a log linked to a decision.
pub open spec fn decision_timeline(log: Seq<StoredEventView>, decision_id: Seq<char>) -> Seq<StoredEventView> {
    log.filter(|e: StoredEventView| e.linkage.decision_id == Some(decision_id))
}

/// The latest `decision.formed` linked to a decision: the source of its order.
/// When there is one and the batch is not blank, the order is written unless
/// its key is taken.
pub open spec fn order_source(log: Seq<StoredEventView>, decision_id: Seq<char>) -> Option<StoredEventView> {
    let t = decision_timeline(log, decision_id);
    match last_formed(t) {
        Some(i) => Some(t[i]),
        None => None,
    }
}

/// The stored event `e` states the same fact as the order this flow registers
/// for the decision from its latest `decision.formed`: the store takes the two
/// as one.
pub open spec fn same_order(e: StoredEventView, log: Seq<StoredEventView>, decision_id: Seq<char>) -> bool {
    match order_source(log, decision_id) {
        Some(src) => match src.payload {
            PayloadView::DecisionFormed(d) => {
                &&& e.event_type == EventType::OrderRegistered
                &&& e.schema_version == "v1"@
                &&& e.produced_by == "runtime.order_materialization"@
                &&& e.aggregate_key == Some(d.instrument)
                &&& e.linkage == LinkageView {
                    hypothesis_id: src.linkage.hypothesis_id,
                    signal_id: src.linkage.signal_id,
                    decision_id: Some(decision_id),
                    order_id: Some(order_id_for(decision_id)),
                    position_id: None,
                    parent_event_id: Some(src.event_id),
                    correlation_id: or_else(src.linkage.correlation_id, Some(decision_id)),
                }
                &&& e.payload == PayloadView::OrderRegistered(
                    OrderView {
                        order_id: order_id_for(decision_id),
                        decision_id: Some(d.decision_id),
                        instrument: d.instrument,
                        venue: "paper"@,
                    },
                )
            },
            _ => false,
        },
        None => false,
    }
}

/// The order's key is free in the log, or the event first stored under it
/// states the same fact.
pub open spec fn order_key_settled(log: Seq<StoredEventView>, decision_id: Seq<char>) -> bool {
    match first_key_index(log, order_key(decision_id)) {
        Some(i) => same_order(log[i], log, decision_id),
        None => true,
    }
}

/// Registers the order of a decision, built from its latest `decision.formed`:
/// `Ok(true)` when it is new to the store, `Ok(false)` when the store already
/// holds it.
#[verifier::rlimit(80)]
#[verifier::spinoff_prover]
fn persist_order(
    store: &mut JsonlEventStore,
    decision_id: &String,
    batch: &String,
    order_id: &String,
) -> (r: Result<bool, MaterializationError>)
    requires
        order_id@ == order_id_for(decision_id@),
    ensures
        match r {
            Ok(true) => order_log_step(old(store)@, final(store)@, true, decision_id@),
            _ => final(store)@ == old(store)@,
        },
        order_source(old(store)@, decision_id@) is None ==> (r matches Err(e) && e is InvalidState),
        order_source(old(store)@, decision_id@) is Some && !is_blank(batch@) && !has_key(
            old(store)@,
            order_key(decision_id@),
        ) ==> r matches Ok(true),
        order_source(old(store)@, decision_id@) is Some && !is_blank(batch@) && order_key_settled(
            old(store)@,
            decision_id@,
        ) ==> r is Ok,
        r matches Ok(false) ==> has_key(old(store)@, order_key(decision_id@)),
{
    let timeline = store.find_by_decision_id(decision_id.as_str());
    let i = match latest_formed(&timeline) {
        Some(i) => i,
        None => {
            let mut m = owned("decision ");
            m.append(decision_id.as_str());
            m.append(" is eligible but has no decision.formed event");
            return Err(MaterializationError::InvalidState(m));
        },
    };
    let source = &timeline[i];
    proof {
        lemma_filter_keeps_valid(old(store)@, |e: StoredEventView| e.linkage.decision_id == Some(decision_id@));
        assert(event_views(timeline@)[i as int] == source@);
        assert(stored_problem(source@) is None);
    }
    let p = match &source.payload {
        EventPayload::DecisionFormed(p) => p,
        _ => {
            return Err(MaterializationError::invalid_state("decision.formed event expected"));
        },
    };
    let quoted = match json_string(decision_id.as_str()) {
        Ok(q) => q,
        Err(e) => return Err(MaterializationError::Serde(e)),
    };
    let mut notes = owned("{\"decision_id\":");
    notes.append(quoted.as_str());
    notes.append(",\"materialization_flow\":\"order_materialization_flow_v1\",\"venue\":\"paper\"}");
    let mut source_ref = owned("materialize-orders://decision/");
    source_ref.append(decision_id.as_str());
    let provenance = Provenance {
        source_kind: SourceKind::Runtime,
        source_ref: Some(source_ref),
        producer_run_id: Some(batch.clone()),
        actor: Some(owned("order_materialization_flow_v1")),
        trace_id: Some(order_id.clone()),
        notes: Some(notes),
    };
    let correlation_id = match &source.linkage.correlation_id {
        Some(c) => Some(c.clone()),
        None => Some(decision_id.clone()),
    };
    let linkage = Linkage {
        hypothesis_id: clone_opt(&source.linkage.hypothesis_id),
        signal_id: clone_opt(&source.linkage.signal_id),
        decision_id: Some(decision_id.clone()),
        order_id: Some(order_id.clone()),
        position_id: None,
        parent_event_id: Some(source.event_id.clone()),
        correlation_id,
    };
    let payload = OrderRegistered {
        order_id: order_id.clone(),
        decision_id: Some(p.decision_id.clone()),
        instrument: p.instrument.clone(),
        venue: owned("paper"),
    };
    proof {
        if !is_blank(batch@) {
            reveal_strlit("runtime.order_materialization");
            reveal_strlit("v1");
            reveal_strlit("paper");
            reveal_strlit("order-");
            reveal_strlit("order.registered:v1:");
            reveal_strlit("materialize-orders://decision/");
            reveal_strlit("order_materialization_flow_v1");
            reveal_strlit("{\"decision_id\":");
            lemma_not_blank_joined("runtime.order_materialization"@, Seq::empty(), 0);
            lemma_not_blank_joined("v1"@, Seq::empty(), 0);
            lemma_not_blank_joined("paper"@, Seq::empty(), 0);
            lemma_not_blank_joined("order-"@, decision_id@, 0);
            lemma_not_blank_joined("order.registered:v1:"@ + "paper"@ + ":"@, order_id@, 0);
            assert(("order.registered:v1:"@ + "paper"@ + ":"@)[0] == "order.registered:v1:"@[0]);
            lemma_not_blank_joined("materialize-orders://decision/"@, decision_id@, 0);
            lemma_not_blank_joined("order_materialization_flow_v1"@, Seq::empty(), 0);
            lemma_not_blank_joined("{\"decision_id\":"@ + quoted@, ",\"materialization_flow\":\"order_materialization_flow_v1\",\"venue\":\"paper\"}"@, 0);
            lemma_not_blank_joined("{\"decision_id\":"@, quoted@, 0);
            assert forall|k: int| 0 <= k < order_id@.len() implies order_id@[k] != ':' by {
                if k < 6 {
                    assert(order_id@[k] == "order-"@[k]);
                } else {
                    assert(order_id@[k] == decision_id@[k - 6]);
                    assert(decision_id@ == p.decision_id@);
                }
            }
            assert(!"paper"@.contains(':'));
            assert(!is_blank(p.instrument@));
            assert(!is_blank(p.decision_id@) && !p.decision_id@.contains(':'));
            assert(!is_blank(order_id@));
            assert(crate::events::order_problem(payload@) is None);
        }
    }
    let envelope = match EventEnvelope::new_order_registered(
        "runtime.order_materialization",
        Some(p.instrument.clone()),
        linkage,
        provenance,
        payload,
    ) {
        Ok(e) => e,
        Err(e) => return Err(MaterializationError::Event(e)),
    };
    proof {
        if !is_blank(batch@) {
            lemma_uuid_text_not_blank(envelope.event_id@);
            assert(linkage_problem(envelope.linkage@) is None);
            assert(provenance_problem(envelope.provenance@) is None);
            assert(link_problem(envelope.linkage@, PayloadView::OrderRegistered(envelope.payload@)) is None);
            assert(stored_problem(envelope_as_stored(envelope)) is None);
        }
    }
    let stored = match StoredEvent::from_envelope(envelope) {
        Ok(s) => s,
        Err(e) => return Err(MaterializationError::Store(e)),
    };
    proof {
        lemma_first_key_index_found(old(store)@, stored@.idempotency_key);
        assert(stored@.idempotency_key == order_key(decision_id@));
        assert(order_source(old(store)@, decision_id@) == Some(source@));
    }
    match store.append_event(&stored) {
        Ok(appended) => {
            proof {
                if appended {
                    assert(store@.drop_last() =~= old(store)@);
                }
            }
            Ok(appended)
        },
        Err(e) => Err(MaterializationError::Store(e)),
    }
}

/// The inputs on which the step of a run for a decision cannot fail: the log
/// decodes, the decision has a promotion policy, and unless the run is dry or
/// the policy calls for no order, the decision has a `decision.formed` and the
/// order's key is free or holds the same fact.
pub open spec fn order_step_owed(log: Seq<StoredEventView>, decision_id: Seq<char>, dry_run: bool) -> bool {
    &&& all_decode(log)
    &&& decision_promotion_of(log, decision_id) matches Some(p) && (dry_run || !(order_plan(log, decision_id, p) is Attempt)
        || (order_source(log, decision_id) is Some && order_key_settled(log, decision_id)))
}

/// A run of the order flow over `start` that stops at the decision after the
/// items' ones: the steps before it as in a whole run, ending with the log
/// `end`, on which the step for that decision is not owed.
pub open spec fn order_run_stops(
    start: Seq<StoredEventView>,
    end: Seq<StoredEventView>,
    dry_run: bool,
    items: Seq<OrderMaterializationItemView>,
    logs: Seq<Seq<StoredEventView>>,
    appended: Seq<bool>,
) -> bool {
    let keys = order_candidates(start);
    let k = items.len();
    &&& k < keys.len()
    &&& logs.len() == k + 1
    &&& logs[0] == start
    &&& logs[k as int] == end
    &&& order_steps(keys, items, logs, appended, dry_run)
    &&& !order_step_owed(end, keys[k as int], dry_run)
}

/// Decides, and registers when the policy allows it, for one decision.
fn decide_for_decision(
    store: &mut JsonlEventStore,
    decision_id: &String,
    batch: &String,
    dry_run: bool,
) -> (r: Result<(OrderMaterializationItem, bool, bool), MaterializationError>)
    ensures
        dry_run ==> final(store)@ == old(store)@,
        r is Err ==> final(store)@ == old(store)@,
        r matches Ok((item, appended, duplicate)) ==> {
            &&& order_item_follows(item@, decision_id@, old(store)@, dry_run, appended)
            &&& order_log_step(old(store)@, final(store)@, item.persisted, decision_id@)
            &&& duplicate == duplicate_of(
                order_plan(old(store)@, decision_id@, decision_promotion_of(old(store)@, decision_id@)->0),
                dry_run,
                appended,
            )
            &&& duplicate ==> item.disposition == OrderMaterializationDisposition::Skipped
        },
        all_decode(old(store)@) && decision_promotion_of(old(store)@, decision_id@) is None ==> (r matches Err(e)
            && e is InvalidState),
        order_step_owed(old(store)@, decision_id@, dry_run) && !is_blank(batch@) ==> r is Ok,
{
    let ghost start = store@;
    let policy = {
        let qs = QueryService::new(&*store);
        match qs.decision_promotion_policy(decision_id.as_str()) {
            Ok(Some(p)) => p,
            Ok(None) => {
                let mut m = owned("decision ");
                m.append(decision_id.as_str());
                m.append(" has projection but no promotion policy");
                return Err(MaterializationError::InvalidState(m));
            },
            Err(e) => return Err(MaterializationError::Query(e)),
        }
    };
    let ghost pv = policy@;
    let local_orders: Vec<String> = {
        let qs = QueryService::new(&*store);
        match qs.decision_lineage(decision_id.as_str()) {
            Ok(Some(l)) => l.downstream_refs.local_order_ids,
            Ok(None) => Vec::new(),
            Err(e) => return Err(MaterializationError::Query(e)),
        }
    };
    proof {
        assert(strs(local_orders@) == local_orders_of(start, decision_id@));
    }
    let mut candidate = owned("order-");
    candidate.append(decision_id.as_str());
    let existing: Option<String> = if local_orders.len() > 0 {
        let mut l = owned("ExistingOrderIds(");
        let ids = join_texts(&local_orders, ",");
        l.append(ids.as_str());
        l.append(")");
        Some(l)
    } else {
        None
    };
    proof {
        assert(crate::text::opt_view(existing) == existing_orders_reason(local_orders_of(start, decision_id@)));
    }
    let ghost plan = order_plan(start, decision_id@, pv);
    let status = policy.status;
    let next_step = policy.next_step;
    let mut duplicate = false;
    let (verdict, appended, lead): (Verdict, bool, Option<String>) = match existing {
        Some(l) => (Verdict::Skipped, false, Some(l)),
        None => {
            if status == PromotionPolicyStatus::Eligible && next_step == Some(PromotionNextStep::RegisterOrder) {
                if dry_run {
                    (Verdict::Eligible, false, None)
                } else {
                    match persist_order(store, decision_id, batch, &candidate) {
                        Ok(true) => (Verdict::Written, true, None),
                        Ok(false) => {
                            duplicate = true;
                            (Verdict::Skipped, false, Some(owned("DuplicateOrderMaterialization")))
                        },
                        Err(e) => return Err(e),
                    }
                }
            } else if status == PromotionPolicyStatus::Blocked {
                (Verdict::Blocked, false, None)
            } else if status == PromotionPolicyStatus::Inconsistent {
                (Verdict::Inconsistent, false, None)
            } else if status == PromotionPolicyStatus::Eligible {
                (Verdict::Skipped, false, Some(owned("EligibleWithoutRegisterOrderNextStep")))
            } else {
                (Verdict::Skipped, false, None)
            }
        },
    };
    proof {
        assert(verdict == verdict_of(plan, dry_run, appended));
        assert(crate::text::opt_view(lead) == lead_of(plan, dry_run, appended, "DuplicateOrderMaterialization"@));
    }
    let disposition = match verdict {
        Verdict::Eligible => OrderMaterializationDisposition::Eligible,
        Verdict::Written => OrderMaterializationDisposition::Materialized,
        Verdict::Skipped => OrderMaterializationDisposition::Skipped,
        Verdict::Blocked => OrderMaterializationDisposition::Blocked,
        Verdict::Inconsistent => OrderMaterializationDisposition::Inconsistent,
    };
    let reasons = lead_then(lead, policy.reasons);
    let item = OrderMaterializationItem {
        decision_id: decision_id.clone(),
        policy_status: owned(promotion_status_text(status)),
        disposition,
        candidate_order_id: Some(candidate),
        persisted: verdict == Verdict::Written,
        reasons,
        notes: policy.notes,
    };
    Ok((item, appended, duplicate))
}

proof fn lemma_order_steps_extend(
    keys: Seq<Seq<char>>,
    items: Seq<OrderMaterializationItemView>,
    logs: Seq<Seq<StoredEventView>>,
    appended: Seq<bool>,
    dry_run: bool,
    x: OrderMaterializationItemView,
    next: Seq<StoredEventView>,
    a: bool,
)
    requires
        order_steps(keys, items, logs, appended, dry_run),
        items.len() < keys.len(),
        order_item_follows(x, keys[items.len() as int], logs[items.len() as int], dry_run, a),
        order_log_step(logs[items.len() as int], next, x.persisted, keys[items.len() as int]),
    ensures
        order_steps(keys, items.push(x), logs.push(next), appended.push(a), dry_run),
        order_duplicates(keys, logs.push(next), dry_run, appended.push(a)) == order_duplicates(
            keys,
            logs,
            dry_run,
            appended,
        ).push(
            match decision_promotion_of(logs[items.len() as int], keys[items.len() as int]) {
                Some(p) => duplicate_of(order_plan(logs[items.len() as int], keys[items.len() as int], p), dry_run, a),
                None => false,
            },
        ),
{
    reveal(order_steps);
    let n = items.len() as int;
    let items2 = items.push(x);
    let logs2 = logs.push(next);
    let ap2 = appended.push(a);
    assert forall|i: int| 0 <= i < items2.len() implies order_item_follows(#[trigger] items2[i], keys[i], logs2[i], dry_run, ap2[i]) by {
        if i < n {
            assert(items2[i] == items[i]);
            assert(logs2[i] == logs[i]);
            assert(ap2[i] == appended[i]);
        }
    }
    assert forall|i: int| 0 <= i < items2.len() implies order_log_step(#[trigger] logs2[i], logs2[i + 1], items2[i].persisted, keys[i]) by {
        if i < n {
            assert(items2[i] == items[i]);
            assert(logs2[i] == logs[i]);
            assert(logs2[i + 1] == logs[i + 1]);
        }
    }
    assert(order_duplicates(keys, logs2, dry_run, ap2) =~= order_duplicates(keys, logs, dry_run, appended).push(
        match decision_promotion_of(logs[n], keys[n]) {
            Some(p) => duplicate_of(order_plan(logs[n], keys[n], p), dry_run, a),
            None => false,
        },
    ));
}

proof fn lemma_order_verdicts_extend(items: Seq<OrderMaterializationItemView>, vs: Seq<Verdict>, x: OrderMaterializationItemView, v: Verdict)
    requires
        items.len() == vs.len(),
        forall|i: int| 0 <= i < items.len() ==> #[trigger] items[i].disposition == order_disposition(vs[i]),
        x.disposition == order_disposition(v),
    ensures
        forall|i: int| 0 <= i < items.push(x).len() ==> #[trigger] items.push(x)[i].disposition == order_disposition(vs.push(v)[i]),
{
    assert forall|i: int| 0 <= i < items.push(x).len() implies #[trigger] items.push(x)[i].disposition == order_disposition(vs.push(v)[i]) by {
        if i < items.len() {
            assert(items.push(x)[i] == items[i]);
        }
    }
}

/// Every decision of the log has a promotion policy.
pub open spec fn decisions_have_policies(s: Seq<StoredEventView>) -> bool {
    forall|i: int| 0 <= i < order_candidates(s).len() ==> (decision_promotion_of(s, #[trigger] order_candidates(s)[i]) is Some)
}

/// Registers an order for every decision whose promotion policy calls for one.
/// Each decision with a projection in the log is inspected in order of first
/// appearance; a decision that already has local orders is skipped; a dry run
/// writes nothing.
pub fn materialize_orders(store: &mut JsonlEventStore, options: OrderMaterializationOptions) -> (r: Result<
    OrderMaterializationReport,
    MaterializationError,
>)
    ensures
        r matches Ok(report) ==> exists|logs: Seq<Seq<StoredEventView>>, appended: Seq<bool>|
            order_run(old(store)@, final(store)@, options.dry_run, report, logs, appended),
        !all_decode(old(store)@) ==> r is Err,
        decision_keys_of(old(store)@) is Err ==> r is Err,
        options.dry_run ==> final(store)@ == old(store)@,
        options.dry_run && all_decode(old(store)@) && decision_keys_of(old(store)@) is Ok && decisions_have_policies(
            old(store)@,
        ) ==> r is Ok,
        r is Err ==> !all_decode(old(store)@) || decision_keys_of(old(store)@) is Err || exists|
            items: Seq<OrderMaterializationItemView>,
            logs: Seq<Seq<StoredEventView>>,
            appended: Seq<bool>,
        | order_run_stops(old(store)@, final(store)@, options.dry_run, items, logs, appended),
{
    let ghost start = store@;
    let batch = match batch_trace_id("order-materialization-") {
        Ok(b) => b,
        Err(e) => return Err(e),
    };
    let keys = {
        let events = store.read_all();
        match decision_projection_keys(events.as_slice()) {
            Ok(k) => k,
            Err(e) => return Err(MaterializationError::Query(QueryError::Projection(e))),
        }
    };
    let ghost ks = order_candidates(start);
    proof {
        assert(strs(keys@) == ks);
        reveal_strlit("order-materialization-");
        assert(!crate::text::is_white_space("order-materialization-"@[0]));
        let t = choose|t: Seq<char>| batch@ == "order-materialization-"@ + t;
        lemma_not_blank_joined("order-materialization-"@, t, 0);
    }
    let dry_run = options.dry_run;
    let mut items: Vec<OrderMaterializationItem> = Vec::new();
    let mut tally = Tally::new();
    let ghost mut logs: Seq<Seq<StoredEventView>> = seq![start];
    proof {
        assert(logs[0] == start);
    }
    let ghost mut appended_flags: Seq<bool> = Seq::empty();
    let ghost mut verdicts: Seq<Verdict> = Seq::empty();
    let ghost mut dups: Seq<bool> = Seq::empty();
    let mut k: usize = 0;
    proof {
        reveal(order_steps);
        assert(order_items(items@) =~= Seq::empty());
        assert(order_duplicates(ks, logs, dry_run, appended_flags) =~= dups);
    }
    while k < keys.len()
        invariant
            k <= keys.len(),
            strs(keys@) == ks,
            ks == order_candidates(start),
            start == old(store)@,
            !is_blank(batch@),
            all_decode(start) && decision_keys_of(start) is Ok,
            dry_run == options.dry_run,
            dry_run ==> store@ == start,
            verdicts.len() == k,
            dups.len() == k,
            items.len() == k,
            logs.len() == k + 1,
            appended_flags.len() == k,
            logs[0] == start,
            logs[k as int] == store@,
            tally.counts(verdicts, dups),
            tally.eligible <= k,
            order_steps(ks, order_items(items@), logs, appended_flags, dry_run),
            forall|i: int| 0 <= i < k ==> #[trigger] order_items(items@)[i].disposition == order_disposition(verdicts[i]),
            dups == order_duplicates(ks, logs, dry_run, appended_flags),
        decreases keys.len() - k,
    {
        let ghost before = store@;
        let (item, appended, duplicate) = match decide_for_decision(store, &keys[k], &batch, dry_run) {
            Ok(x) => x,
            Err(e) => {
                proof {
                    assert(dry_run ==> store@ == before);
                    assert(ks[k as int] == keys@[k as int]@);
                    assert(order_run_stops(start, store@, dry_run, order_items(items@), logs, appended_flags));
                }
                return Err(e);
            },
        };
        proof {
            assert(ks[k as int] == keys@[k as int]@);
        }
        let v = match item.disposition {
            OrderMaterializationDisposition::Eligible => Verdict::Eligible,
            OrderMaterializationDisposition::Materialized => Verdict::Written,
            OrderMaterializationDisposition::Skipped => Verdict::Skipped,
            OrderMaterializationDisposition::Blocked => Verdict::Blocked,
            OrderMaterializationDisposition::Inconsistent => Verdict::Inconsistent,
        };
        tally.record(v, duplicate, Ghost(verdicts), Ghost(dups));
        let ghost items_before = order_items(items@);
        let ghost iv = item@;
        items.push(item);
        proof {
            assert(order_items(items@) =~= items_before.push(iv));
            lemma_order_steps_extend(ks, items_before, logs, appended_flags, dry_run, iv, store@, appended);
            lemma_order_verdicts_extend(items_before, verdicts, iv, v);
            logs = logs.push(store@);
            appended_flags = appended_flags.push(appended);
            verdicts = verdicts.push(v);
            dups = dups.push(duplicate);
        }
        k = k + 1;
    }
    let ghost iv = order_items(items@);
    proof {
        lemma_count_order_items_matches(iv, verdicts, Verdict::Eligible);
        lemma_count_order_items_matches(iv, verdicts, Verdict::Written);
        lemma_count_order_items_matches(iv, verdicts, Verdict::Skipped);
        lemma_count_order_items_matches(iv, verdicts, Verdict::Blocked);
        lemma_count_order_items_matches(iv, verdicts, Verdict::Inconsistent);
    }
    let report = OrderMaterializationReport {
        dry_run,
        batch_trace_id: batch,
        decisions_inspected: items.len(),
        eligible: tally.eligible,
        skipped: tally.skipped,
        blocked: tally.blocked,
        inconsistent: tally.inconsistent,
        orders_registered: tally.written,
        duplicates: tally.duplicates,
        items,
    };
    proof {
        reveal(order_steps);
        assert(order_run(start, store@, dry_run, report, logs, appended_flags));
    }
    let r = Ok(report);
    proof {
        assert(r matches Ok(rep) && order_run(old(store)@, store@, options.dry_run, rep, logs, appended_flags));
    }
    r
}

/// An order is registered only by a run that is not dry, for a decision with
/// no local order yet, whose promotion policy is eligible and calls for it.
pub proof fn lemma_registered_order_was_eligible(
    item: OrderMaterializationItemView,
    decision_id: Seq<char>,
    log: Seq<StoredEventView>,
    dry_run: bool,
    appended: bool,
)
    requires
        order_item_follows(item, decision_id, log, dry_run, appended),
        item.persisted,
    ensures
        !dry_run,
        appended,
        local_orders_of(log, decision_id).len() == 0,
        decision_promotion_of(log, decision_id) matches Some(p) && p.status == PromotionPolicyStatus::Eligible
            && p.next_step == Some(PromotionNextStep::RegisterOrder),
{
}

/// An order is registered at most once for a decision: a step that writes it
/// leaves its key in the log, and no step writes it while its key is there.
pub proof fn lemma_order_written_once(
    before: Seq<StoredEventView>,
    after: Seq<StoredEventView>,
    decision_id: Seq<char>,
)
    ensures
        order_log_step(before, after, true, decision_id) ==> has_key(after, order_key(decision_id)),
        has_key(before, order_key(decision_id)) ==> !order_log_step(before, after, true, decision_id),
{
    if order_log_step(before, after, true, decision_id) {
        assert(after[after.len() - 1].idempotency_key == order_key(decision_id));
    }
}

/// How many items of a run were written.
pub open spec fn count_persisted_orders(items: Seq<OrderMaterializationItemView>) -> nat
    decreases items.len(),
{
    if items.len() == 0 {
        0
    } else {
        count_persisted_orders(items.drop_last()) + if items.last().persisted {
            1nat
        } else {
            0nat
        }
    }
}

proof fn lemma_order_dispositions_add_up(items: Seq<OrderMaterializationItemView>)
    ensures
        count_order_items(items, OrderMaterializationDisposition::Eligible) + count_order_items(
            items,
            OrderMaterializationDisposition::Materialized,
        ) + count_order_items(items, OrderMaterializationDisposition::Skipped) + count_order_items(
            items,
            OrderMaterializationDisposition::Blocked,
        ) + count_order_items(items, OrderMaterializationDisposition::Inconsistent) == items.len(),
    decreases items.len(),
{
    if items.len() > 0 {
        lemma_order_dispositions_add_up(items.drop_last());
    }
}

proof fn lemma_persisted_orders(items: Seq<OrderMaterializationItemView>, dry_run: bool)
    requires
        forall|i: int| 0 <= i < items.len() ==> (#[trigger] items[i]).persisted == (items[i].disposition
            == OrderMaterializationDisposition::Materialized),
        dry_run ==> forall|i: int| 0 <= i < items.len() ==> !(#[trigger] items[i]).persisted,
    ensures
        count_persisted_orders(items) == count_order_items(items, OrderMaterializationDisposition::Materialized),
        dry_run ==> count_persisted_orders(items) == 0,
    decreases items.len(),
{
    if items.len() > 0 {
        let rest = items.drop_last();
        assert forall|i: int| 0 <= i < rest.len() implies (#[trigger] rest[i]).persisted == (rest[i].disposition
            == OrderMaterializationDisposition::Materialized) by {
            assert(rest[i] == items[i]);
        }
        if dry_run {
            assert forall|i: int| 0 <= i < rest.len() implies !(#[trigger] rest[i]).persisted by {
                assert(rest[i] == items[i]);
            }
            assert(!items[items.len() - 1].persisted);
        }
        lemma_persisted_orders(rest, dry_run);
        assert(items.last() == items[items.len() - 1]);
    }
}

/// What every report of an order run says of its counts: one item per
/// decision inspected; the eligible, blocked, inconsistent and skipped
/// decisions, less the duplicates, make up all the items; the orders
/// registered are the items persisted, which are those materialized; each
/// item's candidate is `order-` and its decision; and a dry run registers none.
pub proof fn lemma_order_report_counts(
    start: Seq<StoredEventView>,
    end: Seq<StoredEventView>,
    dry_run: bool,
    report: OrderMaterializationReport,
    logs: Seq<Seq<StoredEventView>>,
    appended: Seq<bool>,
)
    requires
        order_run(start, end, dry_run, report, logs, appended),
    ensures
        report.decisions_inspected == report.items.len(),
        report.eligible + report.blocked + report.inconsistent + report.skipped - report.duplicates
            == report.items.len(),
        report.orders_registered == count_persisted_orders(order_items(report.items@)),
        forall|i: int| 0 <= i < report.items.len() ==> (#[trigger] order_items(report.items@)[i]).candidate_order_id
            == Some("order-"@ + order_items(report.items@)[i].decision_id),
        dry_run ==> report.orders_registered == 0,
{
    reveal(order_steps);
    let keys = order_candidates(start);
    let items = order_items(report.items@);
    lemma_order_dispositions_add_up(items);
    assert forall|i: int| 0 <= i < items.len() implies (#[trigger] items[i]).persisted == (items[i].disposition
        == OrderMaterializationDisposition::Materialized) && (dry_run ==> !items[i].persisted) && items[i].candidate_order_id
        == Some("order-"@ + items[i].decision_id) by {
        assert(order_item_follows(items[i], keys[i], logs[i], dry_run, appended[i]));
    }
    lemma_persisted_orders(items, dry_run);
}

} // verus!
