//! The decision flow: every signal that may form a decision gets one.
use vstd::prelude::*;

use crate::codecs::all_decode;
use crate::events::{
    DecisionAction, DecisionFormed, EventEnvelope, EventPayload, EventType, Linkage, PayloadView,
    Provenance, SignalSide, SourceKind,
};
use crate::json_text::{json_string, json_string_text};
use crate::materialization::error::MaterializationError;
use crate::materialization::plan::{
    batch_trace_id, count_true, count_verdicts, duplicate_of, lead_of, lead_then, led_by, plan_for,
    promotion_status_name, promotion_status_text, verdict_of, Plan, Tally, Verdict,
};
use crate::projections::{signal_projections_of, SignalProjection, SignalProjectionView};
use crate::projections::signal::projection_views;
use crate::queries::{
    signal_promotion_of, PromotionNextStep, PromotionPolicyStatus, PromotionReportView,
    QueryService,
};
use crate::store::jsonl_store::{
    first_key_index, has_key, lemma_filter_keeps_valid, lemma_first_key_index_found, lemma_first_key_index_other,
};
use crate::text::{is_blank, is_white_space, lemma_not_blank_joined};
use crate::store::stored_event::{envelope_as_stored, link_problem, stored_problem};
use crate::events::envelope::lemma_uuid_text_not_blank;
use crate::events::{linkage_problem, provenance_problem, DecisionFormedView, LinkageView};
use crate::queries::support::or_else;
use crate::queries::promotion::lemma_signal_promotion_unmoved;
use crate::store::{event_views, JsonlEventStore, StoredEvent, StoredEventView};
use crate::text::{clone_opt, clone_strs, join_texts, joined, owned, strs};

verus! {

#[derive(Debug, Clone, Copy, PartialEq, Eq)]
pub struct DecisionMaterializationOptions {
    pub dry_run: bool,
}

impl Default for DecisionMaterializationOptions {
    fn default() -> (r: Self)
        ensures
            !r.dry_run,
    {
        DecisionMaterializationOptions { dry_run: false }
    }
}

#[derive(Debug, Clone, Copy, PartialEq, Eq, Structural)]
pub enum DecisionMaterializationDisposition {
    Eligible,
    Materialized,
    Skipped,
    Blocked,
    Inconsistent,
}

pub open spec fn decision_disposition(v: Verdict) -> DecisionMaterializationDisposition {
    match v {
        Verdict::Eligible => DecisionMaterializationDisposition::Eligible,
        Verdict::Written => DecisionMaterializationDisposition::Materialized,
        Verdict::Skipped => DecisionMaterializationDisposition::Skipped,
        Verdict::Blocked => DecisionMaterializationDisposition::Blocked,
        Verdict::Inconsistent => DecisionMaterializationDisposition::Inconsistent,
    }
}

#[derive(Debug, Clone, PartialEq, Eq)]
pub struct DecisionMaterializationItem {
    pub signal_id: String,
    pub policy_status: String,
    pub disposition: DecisionMaterializationDisposition,
    pub candidate_decision_id: Option<String>,
    pub persisted: bool,
    pub reasons: Vec<String>,
    pub notes: Vec<String>,
}

pub struct DecisionMaterializationItemView {
    pub signal_id: Seq<char>,
    pub policy_status: Seq<char>,
    pub disposition: DecisionMaterializationDisposition,
    pub candidate_decision_id: Option<Seq<char>>,
    pub persisted: bool,
    pub reasons: Seq<Seq<char>>,
    pub notes: Seq<Seq<char>>,
}

impl View for DecisionMaterializationItem {
    type V = DecisionMaterializationItemView;

    open spec fn view(&self) -> DecisionMaterializationItemView {
        DecisionMaterializationItemView {
            signal_id: self.signal_id@,
            policy_status: self.policy_status@,
            disposition: self.disposition,
            candidate_decision_id: crate::text::opt_view(self.candidate_decision_id),
            persisted: self.persisted,
            reasons: strs(self.reasons@),
            notes: strs(self.notes@),
        }
    }
}

#[derive(Debug, Clone, PartialEq, Eq)]
pub struct DecisionMaterializationReport {
    pub dry_run: bool,
    pub batch_trace_id: String,
    pub signals_inspected: usize,
    pub eligible: usize,
    pub skipped: usize,
    pub blocked: usize,
    pub inconsistent: usize,
    pub decisions_materialized: usize,
    pub duplicates: usize,
    pub items: Vec<DecisionMaterializationItem>,
}

/// The reason that leads the item of a signal that already has decisions.
pub open spec fn existing_decisions_reason(ids: Seq<Seq<char>>) -> Option<Seq<char>> {
    if ids.len() > 0 {
        Some("ExistingDecisionIds("@ + joined(ids, ","@) + ")"@)
    } else {
        None
    }
}

pub open spec fn decision_plan(proj: SignalProjectionView, p: PromotionReportView) -> Plan {
    plan_for(
        existing_decisions_reason(proj.decision_ids),
        p.status,
        p.next_step,
        PromotionNextStep::FormDecision,
        "EligibleWithoutFormDecisionNextStep"@,
    )
}

/// The item of a signal follows its promotion policy over the log as it stood
/// when the signal's turn came; `appended` tells whether a write was new.
pub open spec fn decision_item_follows(
    item: DecisionMaterializationItemView,
    proj: SignalProjectionView,
    log: Seq<StoredEventView>,
    dry_run: bool,
    appended: bool,
) -> bool {
    match signal_promotion_of(log, proj.signal_id) {
        Some(p) => {
            let plan = decision_plan(proj, p);
            &&& item.signal_id == proj.signal_id
            &&& item.policy_status == promotion_status_name(p.status)
            &&& item.candidate_decision_id == Some("decision-"@ + proj.signal_id)
            &&& item.disposition == decision_disposition(verdict_of(plan, dry_run, appended))
            &&& item.persisted == (verdict_of(plan, dry_run, appended) == Verdict::Written)
            &&& item.reasons == led_by(lead_of(plan, dry_run, appended, "DuplicateDecisionMaterialization"@), p.reasons)
            &&& item.notes == p.notes
        },
        None => false,
    }
}

/// The idempotency key of the decision this flow writes.
pub open spec fn decision_key(decision_id: Seq<char>) -> Seq<char> {
    "decision.formed:v1:"@ + decision_id
}

/// A decision written by this flow: a `decision.formed` of the candidate decision,
/// linked to the signal the decision is named after.
pub open spec fn is_materialized_decision(e: StoredEventView, decision_id: Seq<char>) -> bool {
    &&& e.event_type == EventType::DecisionFormed
    &&& e.idempotency_key == decision_key(decision_id)
    &&& e.produced_by == "runtime.decision_materialization"@
    &&& e.payload matches PayloadView::DecisionFormed(p) && p.decision_id == decision_id
    &&& e.linkage.signal_id matches Some(sid) && decision_id == "decision-"@ + sid
}

/// How one step of a run changes the log: a written item adds its event, any
/// other item leaves the log as it was.
pub open spec fn log_step(before: Seq<StoredEventView>, after: Seq<StoredEventView>, written: bool, decision_id: Seq<char>) -> bool {
    if written {
        &&& after.len() == before.len() + 1
        &&& after.drop_last() == before
        &&& is_materialized_decision(after.last(), decision_id)
        &&& !has_key(before, decision_key(decision_id))
    } else {
        after == before
    }
}

pub open spec fn decision_items(v: Seq<DecisionMaterializationItem>) -> Seq<DecisionMaterializationItemView> {
    v.map_values(|x: DecisionMaterializationItem| x@)
}

/// The items of a run, each following the policy of its signal over the log it
/// met, and the logs chained by the writes.
#[verifier::opaque]
pub open spec fn decision_steps(
    projs: Seq<SignalProjectionView>,
    items: Seq<DecisionMaterializationItemView>,
    logs: Seq<Seq<StoredEventView>>,
    appended: Seq<bool>,
    dry_run: bool,
) -> bool {
    &&& logs.len() == items.len() + 1
    &&& appended.len() == items.len()
    &&& items.len() <= projs.len()
    &&& forall|i: int| 0 <= i < items.len() ==> decision_item_follows(#[trigger] items[i], projs[i], logs[i], dry_run, appended[i])
    &&& forall|i: int| 0 <= i < items.len() ==> log_step(#[trigger] logs[i], logs[i + 1], items[i].persisted, "decision-"@ + projs[i].signal_id)
}

/// A run of the decision flow over the log `start`, ending with the log `end`:
/// one item per signal projection of `start`, each following the policy of its
/// signal over the log it met, the logs chained by the writes, and the counts.
pub open spec fn decision_run(
    start: Seq<StoredEventView>,
    end: Seq<StoredEventView>,
    dry_run: bool,
    r: DecisionMaterializationReport,
    logs: Seq<Seq<StoredEventView>>,
    appended: Seq<bool>,
) -> bool {
    let projs = signal_projections_of(start);
    let items = decision_items(r.items@);
    let n = items.len();
    &&& r.dry_run == dry_run
    &&& r.signals_inspected == n
    &&& n == projs.len()
    &&& logs.len() == n + 1
    &&& logs[0] == start
    &&& logs[n as int] == end
    &&& decision_steps(projs, items, logs, appended, dry_run)
    &&& r.decisions_materialized == count_items(items, DecisionMaterializationDisposition::Materialized)
    &&& r.skipped == count_items(items, DecisionMaterializationDisposition::Skipped)
    &&& r.blocked == count_items(items, DecisionMaterializationDisposition::Blocked)
    &&& r.inconsistent == count_items(items, DecisionMaterializationDisposition::Inconsistent)
    &&& r.duplicates == count_true(decision_duplicates(projs, logs, dry_run, appended))
    &&& r.eligible == count_items(items, DecisionMaterializationDisposition::Eligible) + r.decisions_materialized
        + r.duplicates
}

pub open spec fn count_items(items: Seq<DecisionMaterializationItemView>, d: DecisionMaterializationDisposition) -> nat
    decreases items.len(),
{
    if items.len() == 0 {
        0
    } else {
        count_items(items.drop_last(), d) + if items.last().disposition == d {
            1nat
        } else {
            0nat
        }
    }
}

/// Which items of a run found their decision already in the store.
pub open spec fn decision_duplicates(
    projs: Seq<SignalProjectionView>,
    logs: Seq<Seq<StoredEventView>>,
    dry_run: bool,
    appended: Seq<bool>,
) -> Seq<bool> {
    Seq::new(
        appended.len(),
        |i: int|
            match signal_promotion_of(logs[i], projs[i].signal_id) {
                Some(p) => duplicate_of(decision_plan(projs[i], p), dry_run, appended[i]),
                None => false,
            },
    )
}

proof fn lemma_count_items_matches(items: Seq<DecisionMaterializationItemView>, vs: Seq<Verdict>, v: Verdict)
    requires
        items.len() == vs.len(),
        forall|i: int| 0 <= i < items.len() ==> #[trigger] items[i].disposition == decision_disposition(vs[i]),
    ensures
        count_items(items, decision_disposition(v)) == count_verdicts(vs, v),
    decreases items.len(),
{
    if items.len() > 0 {
        lemma_count_items_matches(items.drop_last(), vs.drop_last(), v);
        assert(items.last().disposition == decision_disposition(vs.last()));
    }
}

/// The position of the last `signal.generated` of a log.
pub open spec fn last_generated(s: Seq<StoredEventView>) -> Option<int>
    decreases s.len(),
{
    if s.len() == 0 {
        None
    } else if s.last().payload is SignalGenerated {
        Some(s.len() - 1)
    } else {
        last_generated(s.drop_last())
    }
}

/// The index of the latest `signal.generated` of a timeline.
fn latest_generated(timeline: &Vec<StoredEvent>) -> (r: Option<usize>)
    ensures
        r matches Some(i) ==> i < timeline.len() && timeline@[i as int].payload is SignalGenerated,
        match r {
            Some(i) => last_generated(event_views(timeline@)) == Some(i as int),
            None => last_generated(event_views(timeline@)) is None,
        },
{
    let ghost s = event_views(timeline@);
    let mut found: Option<usize> = None;
    let mut i: usize = 0;
    while i < timeline.len()
        invariant
            i <= timeline.len(),
            s == event_views(timeline@),
            found matches Some(j) ==> j < timeline.len() && timeline@[j as int].payload is SignalGenerated,
            match found {
                Some(j) => last_generated(s.take(i as int)) == Some(j as int),
                None => last_generated(s.take(i as int)) is None,
            },
        decreases timeline.len() - i,
    {
        assert(s.take(i as int + 1).drop_last() =~= s.take(i as int));
        assert(s.take(i as int + 1).last() == timeline@[i as int]@);
        match &timeline[i].payload {
            EventPayload::SignalGenerated(_) => {
                found = Some(i);
            },
            _ => {},
        }
        i = i + 1;
    }
    assert(s.take(timeline.len() as int) =~= s);
    found
}

/// The events of a log linked to a signal.
pub open spec fn signal_timeline(log: Seq<StoredEventView>, signal_id: Seq<char>) -> Seq<StoredEventView> {
    log.filter(|e: StoredEventView| e.linkage.signal_id == Some(signal_id))
}

/// The latest generation linked to a signal: the source of its decision.
pub open spec fn decision_source(log: Seq<StoredEventView>, signal_id: Seq<char>) -> Option<StoredEventView> {
    let t = signal_timeline(log, signal_id);
    match last_generated(t) {
        Some(i) => Some(t[i]),
        None => None,
    }
}

/// The inputs on which the decision of a signal is written when its key is
/// free: the signal has a generation whose hypothesis, when given, is not
/// blank; the decision id is a fit identifier (not blank, free of `:`), and the
/// signal id is not blank.
pub open spec fn decision_write_owed(log: Seq<StoredEventView>, signal_id: Seq<char>, decision_id: Seq<char>) -> bool {
    &&& decision_source(log, signal_id) matches Some(src) && (src.payload matches PayloadView::SignalGenerated(g)
        && (g.hypothesis_id matches Some(h) ==> !is_blank(h)))
    &&& !is_blank(decision_id) && !decision_id.contains(':')
    &&& !is_blank(signal_id)
}

/// The stored event `e` states the same fact as the decision this flow forms
/// for the signal from its latest generation: the store takes the two as one.
pub open spec fn same_decision(
    e: StoredEventView,
    log: Seq<StoredEventView>,
    signal_id: Seq<char>,
    decision_id: Seq<char>,
) -> bool {
    match decision_source(log, signal_id) {
        Some(src) => match src.payload {
            PayloadView::SignalGenerated(g) => {
                &&& e.event_type == EventType::DecisionFormed
                &&& e.schema_version == "v1"@
                &&& e.produced_by == "runtime.decision_materialization"@
                &&& e.aggregate_key == Some(g.instrument)
                &&& e.linkage == LinkageView {
                    hypothesis_id: or_else(g.hypothesis_id, src.linkage.hypothesis_id),
                    signal_id: Some(g.signal_id),
                    decision_id: Some(decision_id),
                    order_id: None,
                    position_id: None,
                    parent_event_id: Some(src.event_id),
                    correlation_id: or_else(src.linkage.correlation_id, Some(signal_id)),
                }
                &&& e.payload == PayloadView::DecisionFormed(
                    DecisionFormedView {
                        decision_id: decision_id,
                        instrument: g.instrument,
                        action: DecisionAction::Enter,
                        side: Some(g.side),
                        size_hint: None,
                        rationale: Some(
                            "materialized from signal "@ + signal_id + " via decision materialization flow v1"@,
                        ),
                    },
                )
            },
            _ => false,
        },
        None => false,
    }
}

/// The decision's key is free in the log, or the event first stored under it
/// states the same fact.
pub open spec fn decision_key_settled(log: Seq<StoredEventView>, signal_id: Seq<char>, decision_id: Seq<char>) -> bool {
    match first_key_index(log, decision_key(decision_id)) {
        Some(i) => same_decision(log[i], log, signal_id, decision_id),
        None => true,
    }
}

/// Writes the decision of a signal, formed from its latest generation: `Ok(true)`
/// when it is new to the store, `Ok(false)` when the store already holds it.
#[verifier::rlimit(80)]
#[verifier::spinoff_prover]
fn persist_decision(
    store: &mut JsonlEventStore,
    signal_id: &String,
    batch: &String,
    decision_id: &String,
) -> (r: Result<bool, MaterializationError>)
    requires
        decision_id@ == "decision-"@ + signal_id@,
    ensures
        match r {
            Ok(true) => log_step(old(store)@, final(store)@, true, decision_id@),
            _ => final(store)@ == old(store)@,
        },
        decision_source(old(store)@, signal_id@) is None ==> (r matches Err(e) && e is InvalidState),
        decision_write_owed(old(store)@, signal_id@, decision_id@) && !is_blank(batch@) && !has_key(
            old(store)@,
            decision_key(decision_id@),
        ) ==> r matches Ok(true),
        decision_write_owed(old(store)@, signal_id@, decision_id@) && !is_blank(batch@) && decision_key_settled(
            old(store)@,
            signal_id@,
            decision_id@,
        ) ==> r is Ok,
        r matches Ok(false) ==> has_key(old(store)@, decision_key(decision_id@)),
{
    let timeline = store.find_by_signal_id(signal_id.as_str());
    let i = match latest_generated(&timeline) {
        Some(i) => i,
        None => {
            let mut m = owned("signal ");
            m.append(signal_id.as_str());
            m.append(" is eligible but has no signal.generated event");
            return Err(MaterializationError::InvalidState(m));
        },
    };
    let source = &timeline[i];
    proof {
        lemma_filter_keeps_valid(old(store)@, |e: StoredEventView| e.linkage.signal_id == Some(signal_id@));
        assert(event_views(timeline@)[i as int] == source@);
        assert(stored_problem(source@) is None);
    }
    let p = match &source.payload {
        EventPayload::SignalGenerated(p) => p,
        _ => {
            return Err(MaterializationError::invalid_state("signal.generated event expected"));
        },
    };
    proof {
        let pred = |e: StoredEventView| e.linkage.signal_id == Some(signal_id@);
        old(store)@.lemma_filter_pred(pred, i as int);
        assert(source@.linkage.signal_id == Some(signal_id@));
        assert(link_problem(source@.linkage, source@.payload) is None);
        assert(p.signal_id@ == signal_id@);
    }
    let quoted = match json_string(signal_id.as_str()) {
        Ok(q) => q,
        Err(e) => return Err(MaterializationError::Serde(e)),
    };
    let mut notes = owned("{\"materialization_flow\":\"decision_materialization_flow_v1\",\"signal_id\":");
    notes.append(quoted.as_str());
    notes.append("}");
    let mut source_ref = owned("materialize-decisions://signal/");
    source_ref.append(signal_id.as_str());
    let provenance = Provenance {
        source_kind: SourceKind::Runtime,
        source_ref: Some(source_ref),
        producer_run_id: Some(batch.clone()),
        actor: Some(owned("decision_materialization_flow_v1")),
        trace_id: Some(decision_id.clone()),
        notes: Some(notes),
    };
    let hypothesis_id = match &p.hypothesis_id {
        Some(h) => Some(h.clone()),
        None => clone_opt(&source.linkage.hypothesis_id),
    };
    let correlation_id = match &source.linkage.correlation_id {
        Some(c) => Some(c.clone()),
        None => Some(signal_id.clone()),
    };
    let linkage = Linkage {
        hypothesis_id,
        signal_id: Some(p.signal_id.clone()),
        decision_id: Some(decision_id.clone()),
        order_id: None,
        position_id: None,
        parent_event_id: Some(source.event_id.clone()),
        correlation_id,
    };
    let mut rationale = owned("materialized from signal ");
    rationale.append(signal_id.as_str());
    rationale.append(" via decision materialization flow v1");
    let payload = DecisionFormed {
        decision_id: decision_id.clone(),
        instrument: p.instrument.clone(),
        action: DecisionAction::Enter,
        side: Some(p.side),
        size_hint: None,
        rationale: Some(rationale),
    };
    proof {
        if decision_write_owed(old(store)@, signal_id@, decision_id@) && !is_blank(batch@) {
            reveal_strlit("runtime.decision_materialization");
            reveal_strlit("v1");
            reveal_strlit("decision.formed:v1:");
            reveal_strlit("materialized from signal ");
            reveal_strlit("materialize-decisions://signal/");
            reveal_strlit("decision_materialization_flow_v1");
            reveal_strlit("{\"materialization_flow\":\"decision_materialization_flow_v1\",\"signal_id\":");
            lemma_not_blank_joined("runtime.decision_materialization"@, Seq::empty(), 0);
            lemma_not_blank_joined("v1"@, Seq::empty(), 0);
            lemma_not_blank_joined("decision.formed:v1:"@, decision_id@, 0);
            lemma_not_blank_joined("materialized from signal "@ + signal_id@, " via decision materialization flow v1"@, 0);
            lemma_not_blank_joined("materialized from signal "@, signal_id@, 0);
            lemma_not_blank_joined("materialize-decisions://signal/"@, signal_id@, 0);
            lemma_not_blank_joined("decision_materialization_flow_v1"@, Seq::empty(), 0);
            lemma_not_blank_joined(
                "{\"materialization_flow\":\"decision_materialization_flow_v1\",\"signal_id\":"@ + quoted@,
                "}"@,
                0,
            );
            lemma_not_blank_joined(
                "{\"materialization_flow\":\"decision_materialization_flow_v1\",\"signal_id\":"@,
                quoted@,
                0,
            );
        }
    }
    let envelope = match EventEnvelope::new_decision_formed(
        "runtime.decision_materialization",
        Some(p.instrument.clone()),
        linkage,
        provenance,
        payload,
    ) {
        Ok(e) => e,
        Err(e) => return Err(MaterializationError::Event(e)),
    };
    proof {
        if decision_write_owed(old(store)@, signal_id@, decision_id@) && !is_blank(batch@) {
            lemma_uuid_text_not_blank(envelope.event_id@);
            assert(linkage_problem(envelope.linkage@) is None);
            assert(provenance_problem(envelope.provenance@) is None);
            assert(link_problem(envelope.linkage@, PayloadView::DecisionFormed(envelope.payload@)) is None);
            assert(stored_problem(envelope_as_stored(envelope)) is None);
        }
    }
    let stored = match StoredEvent::from_envelope(envelope) {
        Ok(s) => s,
        Err(e) => return Err(MaterializationError::Store(e)),
    };
    proof {
        lemma_first_key_index_found(old(store)@, stored@.idempotency_key);
        assert(stored@.idempotency_key == decision_key(decision_id@));
        assert(decision_source(old(store)@, signal_id@) == Some(source@));
    }
    match store.append_event(&stored) {
        Ok(appended) => {
            proof {
                if appended {
                    assert(store@.drop_last() =~= old(store)@);
                }
            }
            Ok(appended)
        },
        Err(e) => Err(MaterializationError::Store(e)),
    }
}

/// A decision is written at most once: a step that writes it leaves its key in
/// the log, and no step writes it while its key is there.
pub proof fn lemma_decision_written_once(
    before: Seq<StoredEventView>,
    after: Seq<StoredEventView>,
    decision_id: Seq<char>,
)
    ensures
        log_step(before, after, true, decision_id) ==> has_key(after, decision_key(decision_id)),
        has_key(before, decision_key(decision_id)) ==> !log_step(before, after, true, decision_id),
{
    if log_step(before, after, true, decision_id) {
        assert(after[after.len() - 1].idempotency_key == decision_key(decision_id));
    }
}

/// The inputs on which the step of a run for a signal cannot fail: the log
/// decodes, the signal has a promotion policy, and unless the run is dry or the
/// policy calls for no decision, the decision can be formed and its key is free
/// or holds the same fact.
pub open spec fn decision_step_owed(log: Seq<StoredEventView>, proj: SignalProjectionView, dry_run: bool) -> bool {
    let d = "decision-"@ + proj.signal_id;
    &&& all_decode(log)
    &&& signal_promotion_of(log, proj.signal_id) matches Some(p) && (dry_run || !(decision_plan(proj, p) is Attempt) || (
    decision_write_owed(log, proj.signal_id, d) && decision_key_settled(log, proj.signal_id, d)))
}

/// Decides, and writes when the policy allows it, for one signal.
fn decide_for_signal(
    store: &mut JsonlEventStore,
    proj: &SignalProjection,
    batch: &String,
    dry_run: bool,
) -> (r: Result<(DecisionMaterializationItem, bool, bool), MaterializationError>)
    ensures
        dry_run ==> final(store)@ == old(store)@,
        r is Err ==> final(store)@ == old(store)@,
        r matches Ok((item, appended, duplicate)) ==> {
            &&& decision_item_follows(item@, proj@, old(store)@, dry_run, appended)
            &&& log_step(old(store)@, final(store)@, item.persisted, "decision-"@ + proj.signal_id@)
            &&& duplicate == duplicate_of(
                decision_plan(proj@, signal_promotion_of(old(store)@, proj.signal_id@)->0),
                dry_run,
                appended,
            )
            &&& duplicate ==> item.disposition == DecisionMaterializationDisposition::Skipped
        },
        all_decode(old(store)@) && signal_promotion_of(old(store)@, proj.signal_id@) is None ==> (r matches Err(e)
            && e is InvalidState),
        decision_step_owed(old(store)@, proj@, dry_run) && !is_blank(batch@) ==> r is Ok,
{
    let ghost start = store@;
    let policy = {
        let qs = QueryService::new(&*store);
        match qs.signal_promotion_policy(proj.signal_id.as_str()) {
            Ok(Some(p)) => p,
            Ok(None) => {
                let mut m = owned("signal ");
                m.append(proj.signal_id.as_str());
                m.append(" has projection but no promotion policy");
                return Err(MaterializationError::InvalidState(m));
            },
            Err(e) => return Err(MaterializationError::Query(e)),
        }
    };
    let ghost pv = policy@;
    let mut candidate = owned("decision-");
    candidate.append(proj.signal_id.as_str());
    let existing: Option<String> = if proj.decision_ids.len() > 0 {
        let mut l = owned("ExistingDecisionIds(");
        let ids = join_texts(&proj.decision_ids, ",");
        l.append(ids.as_str());
        l.append(")");
        Some(l)
    } else {
        None
    };
    proof {
        assert(crate::text::opt_view(existing) == existing_decisions_reason(proj@.decision_ids));
    }
    let ghost plan = decision_plan(proj@, pv);
    let status = policy.status;
    let next_step = policy.next_step;
    let mut duplicate = false;
    let (verdict, appended, lead): (Verdict, bool, Option<String>) = match existing {
        Some(l) => (Verdict::Skipped, false, Some(l)),
        None => {
            if status == PromotionPolicyStatus::Eligible && next_step == Some(PromotionNextStep::FormDecision) {
                if dry_run {
                    (Verdict::Eligible, false, None)
                } else {
                    match persist_decision(store, &proj.signal_id, batch, &candidate) {
                        Ok(true) => (Verdict::Written, true, None),
                        Ok(false) => {
                            duplicate = true;
                            (Verdict::Skipped, false, Some(owned("DuplicateDecisionMaterialization")))
                        },
                        Err(e) => return Err(e),
                    }
                }
            } else if status == PromotionPolicyStatus::Blocked {
                (Verdict::Blocked, false, None)
            } else if status == PromotionPolicyStatus::Inconsistent {
                (Verdict::Inconsistent, false, None)
            } else if status == PromotionPolicyStatus::Eligible {
                (Verdict::Skipped, false, Some(owned("EligibleWithoutFormDecisionNextStep")))
            } else {
                (Verdict::Skipped, false, None)
            }
        },
    };
    proof {
        assert(verdict == verdict_of(plan, dry_run, appended));
        assert(crate::text::opt_view(lead) == lead_of(plan, dry_run, appended, "DuplicateDecisionMaterialization"@));
    }
    let disposition = match verdict {
        Verdict::Eligible => DecisionMaterializationDisposition::Eligible,
        Verdict::Written => DecisionMaterializationDisposition::Materialized,
        Verdict::Skipped => DecisionMaterializationDisposition::Skipped,
        Verdict::Blocked => DecisionMaterializationDisposition::Blocked,
        Verdict::Inconsistent => DecisionMaterializationDisposition::Inconsistent,
    };
    let reasons = lead_then(lead, policy.reasons);
    let item = DecisionMaterializationItem {
        signal_id: proj.signal_id.clone(),
        policy_status: owned(promotion_status_text(status)),
        disposition,
        candidate_decision_id: Some(candidate),
        persisted: verdict == Verdict::Written,
        reasons,
        notes: policy.notes,
    };
    Ok((item, appended, duplicate))
}

proof fn lemma_steps_extend(
    projs: Seq<SignalProjectionView>,
    items: Seq<DecisionMaterializationItemView>,
    logs: Seq<Seq<StoredEventView>>,
    appended: Seq<bool>,
    dry_run: bool,
    x: DecisionMaterializationItemView,
    next: Seq<StoredEventView>,
    a: bool,
)
    requires
        decision_steps(projs, items, logs, appended, dry_run),
        items.len() < projs.len(),
        decision_item_follows(x, projs[items.len() as int], logs[items.len() as int], dry_run, a),
        log_step(logs[items.len() as int], next, x.persisted, "decision-"@ + projs[items.len() as int].signal_id),
    ensures
        decision_steps(projs, items.push(x), logs.push(next), appended.push(a), dry_run),
        decision_duplicates(projs, logs.push(next), dry_run, appended.push(a)) == decision_duplicates(
            projs,
            logs,
            dry_run,
            appended,
        ).push(
            match signal_promotion_of(logs[items.len() as int], projs[items.len() as int].signal_id) {
                Some(p) => duplicate_of(decision_plan(projs[items.len() as int], p), dry_run, a),
                None => false,
            },
        ),
{
    reveal(decision_steps);
    let n = items.len() as int;
    let items2 = items.push(x);
    let logs2 = logs.push(next);
    let ap2 = appended.push(a);
    assert forall|i: int| 0 <= i < items2.len() implies decision_item_follows(#[trigger] items2[i], projs[i], logs2[i], dry_run, ap2[i]) by {
        if i < n {
            assert(items2[i] == items[i]);
            assert(logs2[i] == logs[i]);
            assert(ap2[i] == appended[i]);
        }
    }
    assert forall|i: int| 0 <= i < items2.len() implies log_step(#[trigger] logs2[i], logs2[i + 1], items2[i].persisted, "decision-"@ + projs[i].signal_id) by {
        if i < n {
            assert(items2[i] == items[i]);
            assert(logs2[i] == logs[i]);
            assert(logs2[i + 1] == logs[i + 1]);
        }
    }
    assert(decision_duplicates(projs, logs2, dry_run, ap2) =~= decision_duplicates(projs, logs, dry_run, appended).push(
        match signal_promotion_of(logs[n], projs[n].signal_id) {
            Some(p) => duplicate_of(decision_plan(projs[n], p), dry_run, a),
            None => false,
        },
    ));
}

proof fn lemma_verdicts_extend(items: Seq<DecisionMaterializationItemView>, vs: Seq<Verdict>, x: DecisionMaterializationItemView, v: Verdict)
    requires
        items.len() == vs.len(),
        forall|i: int| 0 <= i < items.len() ==> #[trigger] items[i].disposition == decision_disposition(vs[i]),
        x.disposition == decision_disposition(v),
    ensures
        forall|i: int| 0 <= i < items.push(x).len() ==> #[trigger] items.push(x)[i].disposition == decision_disposition(vs.push(v)[i]),
{
    assert forall|i: int| 0 <= i < items.push(x).len() implies #[trigger] items.push(x)[i].disposition == decision_disposition(vs.push(v)[i]) by {
        if i < items.len() {
            assert(items.push(x)[i] == items[i]);
        }
    }
}

proof fn lemma_step_keeps_decoding(before: Seq<StoredEventView>, after: Seq<StoredEventView>, written: bool, d: Seq<char>)
    requires
        all_decode(before),
        log_step(before, after, written, d),
    ensures
        all_decode(after),
{
    if written {
        assert forall|i: int| 0 <= i < after.len() implies crate::codecs::decodes(#[trigger] after[i]) by {
            if i < before.len() {
                assert(after[i] == after.drop_last()[i]);
            }
        }
    }
}

/// A run of the decision flow over `start` that stops at the signal after the
/// items' ones: the steps before it as in a whole run, ending with the log
/// `end`, on which the step for that signal is not owed.
pub open spec fn decision_run_stops(
    start: Seq<StoredEventView>,
    end: Seq<StoredEventView>,
    dry_run: bool,
    items: Seq<DecisionMaterializationItemView>,
    logs: Seq<Seq<StoredEventView>>,
    appended: Seq<bool>,
) -> bool {
    let projs = signal_projections_of(start);
    let k = items.len();
    &&& k < projs.len()
    &&& logs.len() == k + 1
    &&& logs[0] == start
    &&& logs[k as int] == end
    &&& decision_steps(projs, items, logs, appended, dry_run)
    &&& !decision_step_owed(end, projs[k as int], dry_run)
}

/// The step of every signal of the log is owed on the log itself.
pub open spec fn decision_run_owed(s: Seq<StoredEventView>, dry_run: bool) -> bool {
    forall|i: int|
        0 <= i < signal_projections_of(s).len() ==> decision_step_owed(s, #[trigger] signal_projections_of(s)[i], dry_run)
}

/// A step of a run for one signal leaves the step of another signal as owed
/// as it was: the decision it writes is about its own signal only, under its
/// own key.
proof fn lemma_step_owed_unmoved(
    before: Seq<StoredEventView>,
    after: Seq<StoredEventView>,
    written: bool,
    a: SignalProjectionView,
    b: SignalProjectionView,
    dry_run: bool,
)
    requires
        log_step(before, after, written, "decision-"@ + a.signal_id),
        a.signal_id != b.signal_id,
        all_decode(after),
        decision_step_owed(before, b, dry_run),
    ensures
        decision_step_owed(after, b, dry_run),
{
    if written {
        let e = after.last();
        assert(after =~= before.push(e));
        reveal_strlit("decision-");
        reveal_strlit("decision.formed:v1:");
        let sid = e.linkage.signal_id->0;
        assert(sid =~= ("decision-"@ + sid).subrange(9, 9 + sid.len() as int));
        assert(a.signal_id =~= ("decision-"@ + a.signal_id).subrange(9, 9 + a.signal_id.len() as int));
        assert(crate::projections::signal_laws::signal_of_event(e) == Some(a.signal_id));
        lemma_signal_promotion_unmoved(before, e, b.signal_id);
        let pred = |x: StoredEventView| x.linkage.signal_id == Some(b.signal_id);
        before.lemma_filter_push(e, pred);
        assert(signal_timeline(after, b.signal_id) == signal_timeline(before, b.signal_id));
        let da = "decision-"@ + a.signal_id;
        let db = "decision-"@ + b.signal_id;
        assert(da =~= decision_key(da).subrange(19, 19 + da.len() as int));
        assert(db =~= decision_key(db).subrange(19, 19 + db.len() as int));
        assert(b.signal_id =~= ("decision-"@ + b.signal_id).subrange(9, 9 + b.signal_id.len() as int));
        assert(da != db) by {
            if da == db {
                assert(a.signal_id.len() == b.signal_id.len());
            }
        }
        assert(decision_key(da) != decision_key(db)) by {
            if decision_key(da) == decision_key(db) {
                assert(da.len() == db.len());
            }
        }
        lemma_first_key_index_other(before, e, decision_key(db));
        lemma_first_key_index_found(before, decision_key(db));
        if first_key_index(before, decision_key(db)) is Some {
            let i = first_key_index(before, decision_key(db))->0;
            assert(after[i] == before[i]);
        }
    }
}

/// Every signal projection of the log has a promotion policy.
pub open spec fn signals_have_policies(s: Seq<StoredEventView>) -> bool {
    forall|i: int|
        0 <= i < signal_projections_of(s).len() ==> (signal_promotion_of(s, (#[trigger] signal_projections_of(s)[i]).signal_id) is Some)
}

/// Forms a decision for every signal whose promotion policy calls for one.
/// Each signal projection of the log is inspected in order; a signal that
/// already has decisions is skipped; a dry run writes nothing.
pub fn materialize_decisions(store: &mut JsonlEventStore, options: DecisionMaterializationOptions) -> (r: Result<
    DecisionMaterializationReport,
    MaterializationError,
>)
    ensures
        r matches Ok(report) ==> exists|logs: Seq<Seq<StoredEventView>>, appended: Seq<bool>|
            decision_run(old(store)@, final(store)@, options.dry_run, report, logs, appended),
        !all_decode(old(store)@) ==> r is Err,
        options.dry_run ==> final(store)@ == old(store)@,
        options.dry_run && all_decode(old(store)@) && signals_have_policies(old(store)@) ==> r is Ok,
        all_decode(old(store)@) && decision_run_owed(old(store)@, options.dry_run) ==> r is Ok,
        r is Err ==> !all_decode(old(store)@) || exists|
            items: Seq<DecisionMaterializationItemView>,
            logs: Seq<Seq<StoredEventView>>,
            appended: Seq<bool>,
        | decision_run_stops(old(store)@, final(store)@, options.dry_run, items, logs, appended),
{
    let ghost start = store@;
    let batch = match batch_trace_id("decision-materialization-") {
        Ok(b) => b,
        Err(e) => return Err(e),
    };
    let projections = {
        let qs = QueryService::new(&*store);
        match qs.all_signal_projections() {
            Ok(p) => p,
            Err(e) => return Err(MaterializationError::Query(e)),
        }
    };
    let ghost projs = signal_projections_of(start);
    proof {
        crate::projections::signal_laws::lemma_signal_projections_describe_log(start);
        assert(projection_views(projections@) == projs);
        reveal_strlit("decision-materialization-");
        assert(!is_white_space("decision-materialization-"@[0]));
        let t = choose|t: Seq<char>| batch@ == "decision-materialization-"@ + t;
        lemma_not_blank_joined("decision-materialization-"@, t, 0);
    }
    let dry_run = options.dry_run;
    let mut items: Vec<DecisionMaterializationItem> = Vec::new();
    let mut tally = Tally::new();
    let ghost mut logs: Seq<Seq<StoredEventView>> = seq![start];
    proof {
        assert(logs[0] == start);
    }
    let ghost mut appended_flags: Seq<bool> = Seq::empty();
    let ghost mut verdicts: Seq<Verdict> = Seq::empty();
    let ghost mut dups: Seq<bool> = Seq::empty();
    let mut k: usize = 0;
    proof {
        reveal(decision_steps);
        assert(decision_items(items@) =~= Seq::empty());
        assert(decision_duplicates(projs, logs, dry_run, appended_flags) =~= dups);
    }
    while k < projections.len()
        invariant
            k <= projections.len(),
            projection_views(projections@) == projs,
            projs == signal_projections_of(start),
            start == old(store)@,
            !is_blank(batch@),
            forall|i: int, j: int| 0 <= i < j < projs.len() ==> #[trigger] projs[i].signal_id != #[trigger] projs[j].signal_id,
            decision_run_owed(start, dry_run) ==> forall|j: int|
                k <= j < projs.len() ==> decision_step_owed(store@, #[trigger] projs[j], dry_run),
            dry_run == options.dry_run,
            all_decode(start),
            all_decode(store@),
            dry_run ==> store@ == start,
            verdicts.len() == k,
            dups.len() == k,
            items.len() == k,
            logs.len() == k + 1,
            appended_flags.len() == k,
            logs[0] == start,
            logs[k as int] == store@,
            tally.counts(verdicts, dups),
            tally.eligible <= k,
            decision_steps(projs, decision_items(items@), logs, appended_flags, dry_run),
            forall|i: int| 0 <= i < k ==> #[trigger] decision_items(items@)[i].disposition == decision_disposition(verdicts[i]),
            dups == decision_duplicates(projs, logs, dry_run, appended_flags),
        decreases projections.len() - k,
    {
        let ghost before = store@;
        let (item, appended, duplicate) = match decide_for_signal(store, &projections[k], &batch, dry_run) {
            Ok(x) => x,
            Err(e) => {
                proof {
                    assert(dry_run ==> store@ == before);
                    assert(dry_run ==> before == start);
                    assert(projs[k as int] == projections@[k as int]@);
                    assert(decision_run_stops(start, store@, dry_run, decision_items(items@), logs, appended_flags));
                }
                return Err(e);
            },
        };
        proof {
            assert(projs[k as int] == projections@[k as int]@);
            lemma_step_keeps_decoding(before, store@, item.persisted, "decision-"@ + projs[k as int].signal_id);
            if decision_run_owed(start, dry_run) {
                assert forall|j: int| k + 1 <= j < projs.len() implies decision_step_owed(store@, #[trigger] projs[j], dry_run) by {
                    assert(decision_step_owed(before, projs[j], dry_run));
                    lemma_step_owed_unmoved(before, store@, item.persisted, projs[k as int], projs[j], dry_run);
                }
            }
        }
        let ghost p = signal_promotion_of(before, projs[k as int].signal_id)->0;
        let ghost plan = decision_plan(projs[k as int], p);
        let v = match item.disposition {
            DecisionMaterializationDisposition::Eligible => Verdict::Eligible,
            DecisionMaterializationDisposition::Materialized => Verdict::Written,
            DecisionMaterializationDisposition::Skipped => Verdict::Skipped,
            DecisionMaterializationDisposition::Blocked => Verdict::Blocked,
            DecisionMaterializationDisposition::Inconsistent => Verdict::Inconsistent,
        };
        tally.record(v, duplicate, Ghost(verdicts), Ghost(dups));
        let ghost items_before = decision_items(items@);
        let ghost iv = item@;
        items.push(item);
        proof {
            assert(decision_items(items@) =~= items_before.push(iv));
            lemma_steps_extend(projs, items_before, logs, appended_flags, dry_run, iv, store@, appended);
            lemma_verdicts_extend(items_before, verdicts, iv, v);
            logs = logs.push(store@);
            appended_flags = appended_flags.push(appended);
            verdicts = verdicts.push(v);
            dups = dups.push(duplicate);
        }
        k = k + 1;
    }
    let ghost iv = decision_items(items@);
    proof {
        lemma_count_items_matches(iv, verdicts, Verdict::Eligible);
        lemma_count_items_matches(iv, verdicts, Verdict::Written);
        lemma_count_items_matches(iv, verdicts, Verdict::Skipped);
        lemma_count_items_matches(iv, verdicts, Verdict::Blocked);
        lemma_count_items_matches(iv, verdicts, Verdict::Inconsistent);
    }
    let report = DecisionMaterializationReport {
        dry_run,
        batch_trace_id: batch,
        signals_inspected: items.len(),
        eligible: tally.eligible,
        skipped: tally.skipped,
        blocked: tally.blocked,
        inconsistent: tally.inconsistent,
        decisions_materialized: tally.written,
        duplicates: tally.duplicates,
        items,
    };
    proof {
        reveal(decision_steps);
        assert(decision_run(start, store@, dry_run, report, logs, appended_flags));
        assert(decision_run(old(store)@, store@, options.dry_run, report, logs, appended_flags));
    }
    let r = Ok(report);
    proof {
        assert(r matches Ok(rep) && decision_run(old(store)@, store@, options.dry_run, rep, logs, appended_flags));
    }
    r
}

/// How many items of a run were written.
pub open spec fn count_persisted(items: Seq<DecisionMaterializationItemView>) -> nat
    decreases items.len(),
{
    if items.len() == 0 {
        0
    } else {
        count_persisted(items.drop_last()) + if items.last().persisted {
            1nat
        } else {
            0nat
        }
    }
}

proof fn lemma_dispositions_add_up(items: Seq<DecisionMaterializationItemView>)
    ensures
        count_items(items, DecisionMaterializationDisposition::Eligible) + count_items(
            items,
            DecisionMaterializationDisposition::Materialized,
        ) + count_items(items, DecisionMaterializationDisposition::Skipped) + count_items(
            items,
            DecisionMaterializationDisposition::Blocked,
        ) + count_items(items, DecisionMaterializationDisposition::Inconsistent) == items.len(),
    decreases items.len(),
{
    if items.len() > 0 {
        lemma_dispositions_add_up(items.drop_last());
    }
}

proof fn lemma_persisted_are_materialized(items: Seq<DecisionMaterializationItemView>, dry_run: bool)
    requires
        forall|i: int| 0 <= i < items.len() ==> (#[trigger] items[i]).persisted == (items[i].disposition
            == DecisionMaterializationDisposition::Materialized),
        dry_run ==> forall|i: int| 0 <= i < items.len() ==> !(#[trigger] items[i]).persisted,
    ensures
        count_persisted(items) == count_items(items, DecisionMaterializationDisposition::Materialized),
        dry_run ==> count_persisted(items) == 0,
    decreases items.len(),
{
    if items.len() > 0 {
        let rest = items.drop_last();
        assert forall|i: int| 0 <= i < rest.len() implies (#[trigger] rest[i]).persisted == (rest[i].disposition
            == DecisionMaterializationDisposition::Materialized) by {
            assert(rest[i] == items[i]);
        }
        if dry_run {
            assert forall|i: int| 0 <= i < rest.len() implies !(#[trigger] rest[i]).persisted by {
                assert(rest[i] == items[i]);
            }
            assert(!items[items.len() - 1].persisted);
        }
        lemma_persisted_are_materialized(rest, dry_run);
        assert(items.last() == items[items.len() - 1]);
    }
}

/// What every report of a decision run says of its counts: one item per signal
/// inspected; the eligible, blocked, inconsistent and skipped signals, less
/// the duplicates, make up all the items; the decisions written are the items
/// persisted, which are those materialized; each item's candidate is
/// `decision-` and its signal; and a dry run writes none.
pub proof fn lemma_decision_report_counts(
    start: Seq<StoredEventView>,
    end: Seq<StoredEventView>,
    dry_run: bool,
    report: DecisionMaterializationReport,
    logs: Seq<Seq<StoredEventView>>,
    appended: Seq<bool>,
)
    requires
        decision_run(start, end, dry_run, report, logs, appended),
    ensures
        report.signals_inspected == report.items.len(),
        report.eligible + report.blocked + report.inconsistent + report.skipped - report.duplicates
            == report.items.len(),
        report.decisions_materialized == count_persisted(decision_items(report.items@)),
        forall|i: int| 0 <= i < report.items.len() ==> (#[trigger] decision_items(report.items@)[i]).candidate_decision_id
            == Some("decision-"@ + decision_items(report.items@)[i].signal_id),
        dry_run ==> report.decisions_materialized == 0,
{
    reveal(decision_steps);
    let projs = signal_projections_of(start);
    let items = decision_items(report.items@);
    lemma_dispositions_add_up(items);
    assert forall|i: int| 0 <= i < items.len() implies (#[trigger] items[i]).persisted == (items[i].disposition
        == DecisionMaterializationDisposition::Materialized) && (dry_run ==> !items[i].persisted) by {
        assert(decision_item_follows(items[i], projs[i], logs[i], dry_run, appended[i]));
    }
    lemma_persisted_are_materialized(items, dry_run);
}

} // verus!
