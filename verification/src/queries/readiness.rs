//! Readiness of signals, decisions and fills, read off the event log.
use vstd::prelude::*;

use crate::codecs::check_decodes;
use crate::events::{EventPayload, PayloadView, VetoScope};
use crate::queries::error::QueryError;
use crate::queries::support::{
    add_opt, answers, insert_opt, lemma_take_step, lemma_views_push, or_else, pairs, viewed, views_of,
    only_if,
};
use crate::store::{event_views, StoredEvent, StoredEventView};
use crate::text::{
    clone_opt, clone_strs, insert_sorted, lemma_sorted_elements_of, opt_text_is, opt_view, owned, same_text,
    sorted_elements, strictly_sorted, strs,
};

verus! {

// ---------------------------------------------------------------------------
// Signals
// ---------------------------------------------------------------------------
#[derive(Debug, Clone, Copy, PartialEq, Eq, Structural)]
pub enum SignalReadinessStatus {
    GeneratedUnconfirmed,
    ReadyForDecision,
    BlockedByVeto,
    Inconsistent,
}

#[derive(Debug, Clone, PartialEq, Eq)]
pub enum SignalReadinessReason {
    SignalGeneratedObserved,
    SignalConfirmedObserved { confirmed_by: String },
    SignalVetoObserved { veto_id: String, reason_code: String },
    MissingSignalGenerated,
    SignalConfirmationBeforeGeneration,
    SignalVetoBeforeGeneration,
    DecisionObservedWithoutConfirmedSignal { decision_id: String },
    ConflictingHypothesisReferences { values: Vec<String> },
}

pub enum SignalReadinessReasonView {
    SignalGeneratedObserved,
    SignalConfirmedObserved { confirmed_by: Seq<char> },
    SignalVetoObserved { veto_id: Seq<char>, reason_code: Seq<char> },
    MissingSignalGenerated,
    SignalConfirmationBeforeGeneration,
    SignalVetoBeforeGeneration,
    DecisionObservedWithoutConfirmedSignal { decision_id: Seq<char> },
    ConflictingHypothesisReferences { values: Seq<Seq<char>> },
}

impl View for SignalReadinessReason {
    type V = SignalReadinessReasonView;

    open spec fn view(&self) -> SignalReadinessReasonView {
        match self {
            SignalReadinessReason::SignalGeneratedObserved => SignalReadinessReasonView::SignalGeneratedObserved,
            SignalReadinessReason::SignalConfirmedObserved { confirmed_by } => SignalReadinessReasonView::SignalConfirmedObserved {
                confirmed_by: confirmed_by@,
            },
            SignalReadinessReason::SignalVetoObserved { veto_id, reason_code } => SignalReadinessReasonView::SignalVetoObserved {
                veto_id: veto_id@,
                reason_code: reason_code@,
            },
            SignalReadinessReason::MissingSignalGenerated => SignalReadinessReasonView::MissingSignalGenerated,
            SignalReadinessReason::SignalConfirmationBeforeGeneration => SignalReadinessReasonView::SignalConfirmationBeforeGeneration,
            SignalReadinessReason::SignalVetoBeforeGeneration => SignalReadinessReasonView::SignalVetoBeforeGeneration,
            SignalReadinessReason::DecisionObservedWithoutConfirmedSignal { decision_id } => SignalReadinessReasonView::DecisionObservedWithoutConfirmedSignal {
                decision_id: decision_id@,
            },
            SignalReadinessReason::ConflictingHypothesisReferences { values } => SignalReadinessReasonView::ConflictingHypothesisReferences {
                values: strs(values@),
            },
        }
    }
}

#[derive(Debug, Clone, PartialEq, Eq)]
pub struct SignalReadiness {
    pub signal_id: String,
    pub status: SignalReadinessStatus,
    pub reasons: Vec<SignalReadinessReason>,
}

pub struct SignalReadinessView {
    pub signal_id: Seq<char>,
    pub status: SignalReadinessStatus,
    pub reasons: Seq<SignalReadinessReasonView>,
}

impl View for SignalReadiness {
    type V = SignalReadinessView;

    open spec fn view(&self) -> SignalReadinessView {
        SignalReadinessView {
            signal_id: self.signal_id@,
            status: self.status,
            reasons: views_of(self.reasons@),
        }
    }
}

/// What the log says about one signal.
pub struct SignalFacts {
    pub relevant: bool,
    pub generated: bool,
    pub confirmation_before_generation: bool,
    pub veto_before_generation: bool,
    /// `confirmed_by` of each confirmation, in log order.
    pub confirmations: Seq<Seq<char>>,
    /// `(veto_id, reason_code)` of each signal veto, in log order.
    pub vetoes: Seq<(Seq<char>, Seq<char>)>,
    pub hypothesis_refs: Set<Seq<char>>,
    pub downstream_decision_ids: Set<Seq<char>>,
}

pub open spec fn no_signal_facts() -> SignalFacts {
    SignalFacts {
        relevant: false,
        generated: false,
        confirmation_before_generation: false,
        veto_before_generation: false,
        confirmations: Seq::empty(),
        vetoes: Seq::empty(),
        hypothesis_refs: Set::empty(),
        downstream_decision_ids: Set::empty(),
    }
}

/// How one event changes what is known of the signal `id`.
pub open spec fn signal_step(f: SignalFacts, e: StoredEventView, id: Seq<char>) -> SignalFacts {
    match e.payload {
        PayloadView::SignalGenerated(p) => if p.signal_id == id {
            SignalFacts {
                relevant: true,
                generated: true,
                confirmation_before_generation: f.confirmation_before_generation
                    || f.confirmations.len() > 0,
                veto_before_generation: f.veto_before_generation || f.vetoes.len() > 0,
                hypothesis_refs: add_opt(
                    add_opt(f.hypothesis_refs, p.hypothesis_id),
                    e.linkage.hypothesis_id,
                ),
                ..f
            }
        } else {
            f
        },
        PayloadView::SignalConfirmed(p) => if p.signal_id == id {
            SignalFacts {
                relevant: true,
                confirmations: f.confirmations.push(p.confirmed_by),
                hypothesis_refs: add_opt(f.hypothesis_refs, e.linkage.hypothesis_id),
                ..f
            }
        } else {
            f
        },
        PayloadView::VetoRaised(p) => if p.scope == VetoScope::Signal && p.target_id == id {
            SignalFacts {
                relevant: true,
                vetoes: f.vetoes.push((p.veto_id, p.reason_code)),
                hypothesis_refs: add_opt(f.hypothesis_refs, e.linkage.hypothesis_id),
                ..f
            }
        } else {
            f
        },
        PayloadView::DecisionFormed(p) => if e.linkage.signal_id == Some(id) {
            SignalFacts {
                relevant: true,
                downstream_decision_ids: f.downstream_decision_ids.insert(p.decision_id),
                hypothesis_refs: add_opt(f.hypothesis_refs, e.linkage.hypothesis_id),
                ..f
            }
        } else {
            f
        },
        _ => f,
    }
}

/// What a log says about the signal `id`: its events taken in order.
pub open spec fn signal_facts(s: Seq<StoredEventView>, id: Seq<char>) -> SignalFacts
    decreases s.len(),
{
    if s.len() == 0 {
        no_signal_facts()
    } else {
        signal_step(signal_facts(s.drop_last(), id), s.last(), id)
    }
}

pub open spec fn signal_status(f: SignalFacts) -> SignalReadinessStatus {
    if !f.generated || f.confirmation_before_generation || f.veto_before_generation
        || sorted_elements(f.hypothesis_refs).len() > 1 {
        SignalReadinessStatus::Inconsistent
    } else if f.vetoes.len() > 0 {
        SignalReadinessStatus::BlockedByVeto
    } else if f.confirmations.len() > 0 {
        SignalReadinessStatus::ReadyForDecision
    } else {
        SignalReadinessStatus::GeneratedUnconfirmed
    }
}

pub open spec fn confirmation_reasons(c: Seq<Seq<char>>) -> Seq<SignalReadinessReasonView> {
    c.map_values(|x: Seq<char>| SignalReadinessReasonView::SignalConfirmedObserved { confirmed_by: x })
}

pub open spec fn signal_veto_reasons(v: Seq<(Seq<char>, Seq<char>)>) -> Seq<SignalReadinessReasonView> {
    v.map_values(
        |x: (Seq<char>, Seq<char>)| SignalReadinessReasonView::SignalVetoObserved { veto_id: x.0, reason_code: x.1 },
    )
}

pub open spec fn orphan_decision_reasons(d: Seq<Seq<char>>) -> Seq<SignalReadinessReasonView> {
    d.map_values(|x: Seq<char>| SignalReadinessReasonView::DecisionObservedWithoutConfirmedSignal { decision_id: x })
}

pub open spec fn signal_reasons(f: SignalFacts) -> Seq<SignalReadinessReasonView> {
    only_if(f.generated, seq![SignalReadinessReasonView::SignalGeneratedObserved])
        + confirmation_reasons(f.confirmations)
        + signal_veto_reasons(f.vetoes)
        + only_if(
        sorted_elements(f.hypothesis_refs).len() > 1,
        seq![SignalReadinessReasonView::ConflictingHypothesisReferences { values: sorted_elements(f.hypothesis_refs) }],
    ) + only_if(!f.generated, seq![SignalReadinessReasonView::MissingSignalGenerated]) + only_if(
        f.confirmation_before_generation,
        seq![SignalReadinessReasonView::SignalConfirmationBeforeGeneration],
    ) + only_if(f.veto_before_generation, seq![SignalReadinessReasonView::SignalVetoBeforeGeneration])
        + only_if(!f.generated, orphan_decision_reasons(sorted_elements(f.downstream_decision_ids)))
}

/// The readiness of the signal `id` over the log `s`; `None` when no event concerns it.
pub closed spec fn signal_readiness_of(s: Seq<StoredEventView>, id: Seq<char>) -> Option<SignalReadinessView> {
    let f = signal_facts(s, id);
    if !f.relevant {
        None
    } else {
        Some(SignalReadinessView { signal_id: id, status: signal_status(f), reasons: signal_reasons(f) })
    }
}

struct SignalScan {
    relevant: bool,
    generated: bool,
    confirmation_before_generation: bool,
    veto_before_generation: bool,
    confirmations: Vec<String>,
    vetoes: Vec<(String, String)>,
    hypothesis_refs: Vec<String>,
    downstream_decision_ids: Vec<String>,
}

impl SignalScan {
    spec fn facts(&self) -> SignalFacts {
        SignalFacts {
            relevant: self.relevant,
            generated: self.generated,
            confirmation_before_generation: self.confirmation_before_generation,
            veto_before_generation: self.veto_before_generation,
            confirmations: strs(self.confirmations@),
            vetoes: pairs(self.vetoes@),
            hypothesis_refs: strs(self.hypothesis_refs@).to_set(),
            downstream_decision_ids: strs(self.downstream_decision_ids@).to_set(),
        }
    }

    spec fn sorted(&self) -> bool {
        &&& strictly_sorted(strs(self.hypothesis_refs@))
        &&& strictly_sorted(strs(self.downstream_decision_ids@))
    }

    fn observe(&mut self, e: &StoredEvent, id: &str)
        requires
            old(self).sorted(),
        ensures
            final(self).sorted(),
            final(self).facts() == signal_step(old(self).facts(), e@, id@),
    {
        match &e.payload {
            EventPayload::SignalGenerated(p) => {
                if same_text(p.signal_id.as_str(), id) {
                    self.relevant = true;
                    self.generated = true;
                    self.confirmation_before_generation = self.confirmation_before_generation
                        || self.confirmations.len() > 0;
                    self.veto_before_generation = self.veto_before_generation || self.vetoes.len()
                        > 0;
                    insert_opt(&mut self.hypothesis_refs, &p.hypothesis_id);
                    insert_opt(&mut self.hypothesis_refs, &e.linkage.hypothesis_id);
                }
            },
            EventPayload::SignalConfirmed(p) => {
                if same_text(p.signal_id.as_str(), id) {
                    self.relevant = true;
                    self.confirmations.push(p.confirmed_by.clone());
                    insert_opt(&mut self.hypothesis_refs, &e.linkage.hypothesis_id);
                    proof {
                        assert(strs(self.confirmations@) =~= strs(old(self).confirmations@).push(
                            p.confirmed_by@,
                        ));
                    }
                }
            },
            EventPayload::VetoRaised(p) => {
                if p.scope == VetoScope::Signal && same_text(p.target_id.as_str(), id) {
                    self.relevant = true;
                    self.vetoes.push((p.veto_id.clone(), p.reason_code.clone()));
                    insert_opt(&mut self.hypothesis_refs, &e.linkage.hypothesis_id);
                    proof {
                        assert(pairs(self.vetoes@) =~= pairs(old(self).vetoes@).push(
                            (p.veto_id@, p.reason_code@),
                        ));
                    }
                }
            },
            EventPayload::DecisionFormed(p) => {
                if opt_text_is(&e.linkage.signal_id, id) {
                    self.relevant = true;
                    insert_sorted(&mut self.downstream_decision_ids, p.decision_id.clone());
                    insert_opt(&mut self.hypothesis_refs, &e.linkage.hypothesis_id);
                }
            },
            _ => {},
        }
    }
}

fn scan_signal(events: &[StoredEvent], id: &str) -> (r: SignalScan)
    ensures
        r.sorted(),
        r.facts() == signal_facts(event_views(events@), id@),
{
    let ghost s = event_views(events@);
    let mut scan = SignalScan {
        relevant: false,
        generated: false,
        confirmation_before_generation: false,
        veto_before_generation: false,
        confirmations: Vec::new(),
        vetoes: Vec::new(),
        hypothesis_refs: Vec::new(),
        downstream_decision_ids: Vec::new(),
    };
    proof {
        assert(strs(scan.hypothesis_refs@).to_set() =~= Set::empty());
        assert(strs(scan.downstream_decision_ids@).to_set() =~= Set::empty());
        assert(strs(scan.confirmations@) =~= Seq::empty());
        assert(pairs(scan.vetoes@) =~= Seq::empty());
        assert(scan.facts() == no_signal_facts());
        assert(s.take(0) =~= Seq::<StoredEventView>::empty());
    }
    let mut i: usize = 0;
    while i < events.len()
        invariant
            i <= events.len(),
            s == event_views(events@),
            scan.sorted(),
            scan.facts() == signal_facts(s.take(i as int), id@),
        decreases events.len() - i,
    {
        proof {
            lemma_take_step(s, i as int);
        }
        scan.observe(&events[i], id);
        i = i + 1;
    }
    proof {
        assert(s.take(i as int) =~= s);
    }
    scan
}

fn push_signal_reason(out: &mut Vec<SignalReadinessReason>, x: SignalReadinessReason)
    ensures
        views_of(final(out)@) == views_of(old(out)@).push(x@),
{
    let ghost before = out@;
    out.push(x);
    proof {
        lemma_views_push(before, x);
    }
}

fn push_confirmations(out: &mut Vec<SignalReadinessReason>, items: &Vec<String>)
    ensures
        views_of(final(out)@) == views_of(old(out)@) + confirmation_reasons(strs(items@)),
{
    let ghost p0 = views_of(out@);
    let mut k: usize = 0;
    while k < items.len()
        invariant
            k <= items.len(),
            views_of(out@) == p0 + confirmation_reasons(strs(items@).take(k as int)),
        decreases items.len() - k,
    {
        let x = SignalReadinessReason::SignalConfirmedObserved { confirmed_by: items[k].clone() };
        push_signal_reason(out, x);
        proof {
            assert(confirmation_reasons(strs(items@).take(k as int + 1)) =~= confirmation_reasons(
                strs(items@).take(k as int),
            ).push(x@));
        }
        k = k + 1;
    }
    proof {
        assert(strs(items@).take(k as int) =~= strs(items@));
    }
}

fn push_signal_vetoes(out: &mut Vec<SignalReadinessReason>, items: &Vec<(String, String)>)
    ensures
        views_of(final(out)@) == views_of(old(out)@) + signal_veto_reasons(pairs(items@)),
{
    let ghost p0 = views_of(out@);
    let mut k: usize = 0;
    while k < items.len()
        invariant
            k <= items.len(),
            views_of(out@) == p0 + signal_veto_reasons(pairs(items@).take(k as int)),
        decreases items.len() - k,
    {
        let x = SignalReadinessReason::SignalVetoObserved {
            veto_id: items[k].0.clone(),
            reason_code: items[k].1.clone(),
        };
        push_signal_reason(out, x);
        proof {
            assert(signal_veto_reasons(pairs(items@).take(k as int + 1)) =~= signal_veto_reasons(
                pairs(items@).take(k as int),
            ).push(x@));
        }
        k = k + 1;
    }
    proof {
        assert(pairs(items@).take(k as int) =~= pairs(items@));
    }
}

fn push_orphans(out: &mut Vec<SignalReadinessReason>, items: &Vec<String>)
    ensures
        views_of(final(out)@) == views_of(old(out)@) + orphan_decision_reasons(strs(items@)),
{
    let ghost p0 = views_of(out@);
    let mut k: usize = 0;
    while k < items.len()
        invariant
            k <= items.len(),
            views_of(out@) == p0 + orphan_decision_reasons(strs(items@).take(k as int)),
        decreases items.len() - k,
    {
        let x = SignalReadinessReason::DecisionObservedWithoutConfirmedSignal {
            decision_id: items[k].clone(),
        };
        push_signal_reason(out, x);
        proof {
            assert(orphan_decision_reasons(strs(items@).take(k as int + 1)) =~= orphan_decision_reasons(
                strs(items@).take(k as int),
            ).push(x@));
        }
        k = k + 1;
    }
    proof {
        assert(strs(items@).take(k as int) =~= strs(items@));
    }
}

fn signal_report(scan: SignalScan, id: &str) -> (r: Option<SignalReadiness>)
    requires
        scan.sorted(),
    ensures
        viewed(r) == (if !scan.facts().relevant {
            None
        } else {
            Some(
                SignalReadinessView {
                    signal_id: id@,
                    status: signal_status(scan.facts()),
                    reasons: signal_reasons(scan.facts()),
                },
            )
        }),
{
    if !scan.relevant {
        return None;
    }
    let ghost f = scan.facts();
    proof {
        lemma_sorted_elements_of(strs(scan.hypothesis_refs@));
        lemma_sorted_elements_of(strs(scan.downstream_decision_ids@));
    }
    let mut reasons: Vec<SignalReadinessReason> = Vec::new();
    if scan.generated {
        push_signal_reason(&mut reasons, SignalReadinessReason::SignalGeneratedObserved);
    }
    proof {
        assert(views_of(reasons@) =~= only_if(
            f.generated,
            seq![SignalReadinessReasonView::SignalGeneratedObserved],
        ));
    }
    push_confirmations(&mut reasons, &scan.confirmations);
    push_signal_vetoes(&mut reasons, &scan.vetoes);
    let ghost p2 = views_of(reasons@);
    let conflicting = scan.hypothesis_refs.len() > 1;
    if conflicting {
        push_signal_reason(
            &mut reasons,
            SignalReadinessReason::ConflictingHypothesisReferences {
                values: clone_strs(&scan.hypothesis_refs),
            },
        );
    }
    if !scan.generated {
        push_signal_reason(&mut reasons, SignalReadinessReason::MissingSignalGenerated);
    }
    if scan.confirmation_before_generation {
        push_signal_reason(&mut reasons, SignalReadinessReason::SignalConfirmationBeforeGeneration);
    }
    if scan.veto_before_generation {
        push_signal_reason(&mut reasons, SignalReadinessReason::SignalVetoBeforeGeneration);
    }
    proof {
        assert(views_of(reasons@) =~= p2 + only_if(
            sorted_elements(f.hypothesis_refs).len() > 1,
            seq![SignalReadinessReasonView::ConflictingHypothesisReferences { values: sorted_elements(f.hypothesis_refs) }],
        ) + only_if(!f.generated, seq![SignalReadinessReasonView::MissingSignalGenerated]) + only_if(
            f.confirmation_before_generation,
            seq![SignalReadinessReasonView::SignalConfirmationBeforeGeneration],
        ) + only_if(f.veto_before_generation, seq![SignalReadinessReasonView::SignalVetoBeforeGeneration]));
    }
    let ghost p3 = views_of(reasons@);
    if !scan.generated {
        push_orphans(&mut reasons, &scan.downstream_decision_ids);
    }
    proof {
        assert(views_of(reasons@) =~= p3 + only_if(
            !f.generated,
            orphan_decision_reasons(sorted_elements(f.downstream_decision_ids)),
        ));
        assert(views_of(reasons@) =~= signal_reasons(f));
    }
    let status = if !scan.generated || scan.confirmation_before_generation
        || scan.veto_before_generation || conflicting {
        SignalReadinessStatus::Inconsistent
    } else if scan.vetoes.len() > 0 {
        SignalReadinessStatus::BlockedByVeto
    } else if scan.confirmations.len() > 0 {
        SignalReadinessStatus::ReadyForDecision
    } else {
        SignalReadinessStatus::GeneratedUnconfirmed
    };
    Some(SignalReadiness { signal_id: owned(id), status, reasons })
}

/// The readiness of a signal: whether it was generated and confirmed, vetoed,
/// or seen in an order that contradicts itself.
pub fn signal_readiness(events: &[StoredEvent], signal_id: &str) -> (r: Result<
    Option<SignalReadiness>,
    QueryError,
>)
    ensures
        answers(r, event_views(events@), signal_readiness_of(event_views(events@), signal_id@)),
{
    match check_decodes(events) {
        Err(e) => return Err(QueryError::Codec(e)),
        Ok(_) => {},
    }
    let scan = scan_signal(events, signal_id);
    Ok(signal_report(scan, signal_id))
}


// ---------------------------------------------------------------------------
// Decisions
// ---------------------------------------------------------------------------
#[derive(Debug, Clone, Copy, PartialEq, Eq, Structural)]
pub enum DecisionReadinessStatus {
    Ready,
    FormedButUpstreamWeak,
    Blocked,
    Inconsistent,
}

#[derive(Debug, Clone, PartialEq, Eq)]
pub enum DecisionReadinessReason {
    DecisionFormedObserved,
    DecisionVetoObserved { veto_id: String, reason_code: String },
    UpstreamSignalReady { signal_id: String },
    UpstreamSignalGeneratedUnconfirmed { signal_id: String },
    UpstreamSignalBlocked { signal_id: String },
    UpstreamSignalInconsistent { signal_id: String },
    MissingDecisionFormed,
    MissingUpstreamSignalReference,
    ConflictingSignalReferences { values: Vec<String> },
    FillInstrumentMismatch { fill_id: String, fill_instrument: String },
}

pub enum DecisionReadinessReasonView {
    DecisionFormedObserved,
    DecisionVetoObserved { veto_id: Seq<char>, reason_code: Seq<char> },
    UpstreamSignalReady { signal_id: Seq<char> },
    UpstreamSignalGeneratedUnconfirmed { signal_id: Seq<char> },
    UpstreamSignalBlocked { signal_id: Seq<char> },
    UpstreamSignalInconsistent { signal_id: Seq<char> },
    MissingDecisionFormed,
    MissingUpstreamSignalReference,
    ConflictingSignalReferences { values: Seq<Seq<char>> },
    FillInstrumentMismatch { fill_id: Seq<char>, fill_instrument: Seq<char> },
}

impl View for DecisionReadinessReason {
    type V = DecisionReadinessReasonView;

    open spec fn view(&self) -> DecisionReadinessReasonView {
        match self {
            DecisionReadinessReason::DecisionFormedObserved => DecisionReadinessReasonView::DecisionFormedObserved,
            DecisionReadinessReason::DecisionVetoObserved { veto_id, reason_code } => DecisionReadinessReasonView::DecisionVetoObserved {
                veto_id: veto_id@,
                reason_code: reason_code@,
            },
            DecisionReadinessReason::UpstreamSignalReady { signal_id } => DecisionReadinessReasonView::UpstreamSignalReady {
                signal_id: signal_id@,
            },
            DecisionReadinessReason::UpstreamSignalGeneratedUnconfirmed { signal_id } => DecisionReadinessReasonView::UpstreamSignalGeneratedUnconfirmed {
                signal_id: signal_id@,
            },
            DecisionReadinessReason::UpstreamSignalBlocked { signal_id } => DecisionReadinessReasonView::UpstreamSignalBlocked {
                signal_id: signal_id@,
            },
            DecisionReadinessReason::UpstreamSignalInconsistent { signal_id } => DecisionReadinessReasonView::UpstreamSignalInconsistent {
                signal_id: signal_id@,
            },
            DecisionReadinessReason::MissingDecisionFormed => DecisionReadinessReasonView::MissingDecisionFormed,
            DecisionReadinessReason::MissingUpstreamSignalReference => DecisionReadinessReasonView::MissingUpstreamSignalReference,
            DecisionReadinessReason::ConflictingSignalReferences { values } => DecisionReadinessReasonView::ConflictingSignalReferences {
                values: strs(values@),
            },
            DecisionReadinessReason::FillInstrumentMismatch { fill_id, fill_instrument } => DecisionReadinessReasonView::FillInstrumentMismatch {
                fill_id: fill_id@,
                fill_instrument: fill_instrument@,
            },
        }
    }
}

#[derive(Debug, Clone, PartialEq, Eq)]
pub struct DecisionReadiness {
    pub decision_id: String,
    pub status: DecisionReadinessStatus,
    pub reasons: Vec<DecisionReadinessReason>,
}

pub struct DecisionReadinessView {
    pub decision_id: Seq<char>,
    pub status: DecisionReadinessStatus,
    pub reasons: Seq<DecisionReadinessReasonView>,
}

impl View for DecisionReadiness {
    type V = DecisionReadinessView;

    open spec fn view(&self) -> DecisionReadinessView {
        DecisionReadinessView {
            decision_id: self.decision_id@,
            status: self.status,
            reasons: views_of(self.reasons@),
        }
    }
}

/// What the log says about one decision.
pub struct DecisionFacts {
    pub relevant: bool,
    /// The instrument of the latest `decision.formed` of the decision.
    pub formed_instrument: Option<Seq<char>>,
    /// The first signal that a formation of the decision links to.
    pub signal_ref: Option<Seq<char>>,
    pub signal_refs: Set<Seq<char>>,
    pub vetoes: Seq<(Seq<char>, Seq<char>)>,
    /// `(fill_id, fill_instrument)` of each fill whose instrument differs from the
    /// decision formed before it.
    pub mismatches: Seq<(Seq<char>, Seq<char>)>,
}

pub open spec fn no_decision_facts() -> DecisionFacts {
    DecisionFacts {
        relevant: false,
        formed_instrument: None,
        signal_ref: None,
        signal_refs: Set::empty(),
        vetoes: Seq::empty(),
        mismatches: Seq::empty(),
    }
}

pub open spec fn refers_to_decision(
    payload_ref: Option<Seq<char>>,
    linkage_ref: Option<Seq<char>>,
    id: Seq<char>,
) -> bool {
    payload_ref == Some(id) || linkage_ref == Some(id)
}

pub open spec fn decision_step(f: DecisionFacts, e: StoredEventView, id: Seq<char>) -> DecisionFacts {
    match e.payload {
        PayloadView::DecisionFormed(p) => if p.decision_id == id {
            DecisionFacts {
                relevant: true,
                formed_instrument: Some(p.instrument),
                signal_ref: or_else(f.signal_ref, e.linkage.signal_id),
                signal_refs: add_opt(f.signal_refs, e.linkage.signal_id),
                ..f
            }
        } else {
            f
        },
        PayloadView::VetoRaised(p) => if p.scope == VetoScope::Decision && p.target_id == id {
            DecisionFacts { relevant: true, vetoes: f.vetoes.push((p.veto_id, p.reason_code)), ..f }
        } else {
            f
        },
        PayloadView::FillReceived(p) => if refers_to_decision(p.decision_id, e.linkage.decision_id, id) {
            DecisionFacts {
                relevant: true,
                mismatches: match f.formed_instrument {
                    Some(fi) => if fi != p.instrument {
                        f.mismatches.push((p.fill_id, p.instrument))
                    } else {
                        f.mismatches
                    },
                    None => f.mismatches,
                },
                ..f
            }
        } else {
            f
        },
        _ => f,
    }
}

pub open spec fn decision_facts(s: Seq<StoredEventView>, id: Seq<char>) -> DecisionFacts
    decreases s.len(),
{
    if s.len() == 0 {
        no_decision_facts()
    } else {
        decision_step(decision_facts(s.drop_last(), id), s.last(), id)
    }
}

/// The readiness status of the signal a decision links to, when it has one.
pub open spec fn upstream_signal_status(s: Seq<StoredEventView>, f: DecisionFacts) -> Option<SignalReadinessStatus> {
    match f.signal_ref {
        Some(sid) => match signal_readiness_of(s, sid) {
            Some(r) => Some(r.status),
            None => None,
        },
        None => None,
    }
}

pub open spec fn upstream_signal_reason(sid: Seq<char>, up: Option<SignalReadinessStatus>) -> DecisionReadinessReasonView {
    match up {
        Some(SignalReadinessStatus::ReadyForDecision) => DecisionReadinessReasonView::UpstreamSignalReady { signal_id: sid },
        Some(SignalReadinessStatus::GeneratedUnconfirmed) => DecisionReadinessReasonView::UpstreamSignalGeneratedUnconfirmed { signal_id: sid },
        Some(SignalReadinessStatus::BlockedByVeto) => DecisionReadinessReasonView::UpstreamSignalBlocked { signal_id: sid },
        Some(SignalReadinessStatus::Inconsistent) => DecisionReadinessReasonView::UpstreamSignalInconsistent { signal_id: sid },
        None => DecisionReadinessReasonView::MissingUpstreamSignalReference,
    }
}

pub open spec fn decision_veto_reasons(v: Seq<(Seq<char>, Seq<char>)>) -> Seq<DecisionReadinessReasonView> {
    v.map_values(
        |x: (Seq<char>, Seq<char>)| DecisionReadinessReasonView::DecisionVetoObserved { veto_id: x.0, reason_code: x.1 },
    )
}

pub open spec fn decision_mismatch_reasons(v: Seq<(Seq<char>, Seq<char>)>) -> Seq<DecisionReadinessReasonView> {
    v.map_values(
        |x: (Seq<char>, Seq<char>)| DecisionReadinessReasonView::FillInstrumentMismatch { fill_id: x.0, fill_instrument: x.1 },
    )
}

pub open spec fn decision_reasons(f: DecisionFacts, up: Option<SignalReadinessStatus>) -> Seq<DecisionReadinessReasonView> {
    seq![
        if f.formed_instrument is Some {
            DecisionReadinessReasonView::DecisionFormedObserved
        } else {
            DecisionReadinessReasonView::MissingDecisionFormed
        },
    ] + decision_veto_reasons(f.vetoes) + only_if(
        sorted_elements(f.signal_refs).len() > 1,
        seq![DecisionReadinessReasonView::ConflictingSignalReferences { values: sorted_elements(f.signal_refs) }],
    ) + decision_mismatch_reasons(f.mismatches) + seq![
        match f.signal_ref {
            Some(sid) => upstream_signal_reason(sid, up),
            None => DecisionReadinessReasonView::MissingUpstreamSignalReference,
        },
    ]
}

pub open spec fn decision_status(f: DecisionFacts, up: Option<SignalReadinessStatus>) -> DecisionReadinessStatus {
    if f.formed_instrument is None || sorted_elements(f.signal_refs).len() > 1 || up == Some(
        SignalReadinessStatus::Inconsistent,
    ) || f.mismatches.len() > 0 {
        DecisionReadinessStatus::Inconsistent
    } else if f.vetoes.len() > 0 || up == Some(SignalReadinessStatus::BlockedByVeto) {
        DecisionReadinessStatus::Blocked
    } else if up == Some(SignalReadinessStatus::ReadyForDecision) {
        DecisionReadinessStatus::Ready
    } else {
        DecisionReadinessStatus::FormedButUpstreamWeak
    }
}

/// The readiness of the decision `id` over the log `s`; `None` when no event concerns it.
pub closed spec fn decision_readiness_of(s: Seq<StoredEventView>, id: Seq<char>) -> Option<DecisionReadinessView> {
    let f = decision_facts(s, id);
    let up = upstream_signal_status(s, f);
    if !f.relevant {
        None
    } else {
        Some(DecisionReadinessView { decision_id: id, status: decision_status(f, up), reasons: decision_reasons(f, up) })
    }
}

struct DecisionScan {
    relevant: bool,
    formed_instrument: Option<String>,
    signal_ref: Option<String>,
    signal_refs: Vec<String>,
    vetoes: Vec<(String, String)>,
    mismatches: Vec<(String, String)>,
}

impl DecisionScan {
    spec fn facts(&self) -> DecisionFacts {
        DecisionFacts {
            relevant: self.relevant,
            formed_instrument: opt_view(self.formed_instrument),
            signal_ref: opt_view(self.signal_ref),
            signal_refs: strs(self.signal_refs@).to_set(),
            vetoes: pairs(self.vetoes@),
            mismatches: pairs(self.mismatches@),
        }
    }

    fn observe(&mut self, e: &StoredEvent, id: &str)
        requires
            strictly_sorted(strs(old(self).signal_refs@)),
        ensures
            strictly_sorted(strs(final(self).signal_refs@)),
            final(self).facts() == decision_step(old(self).facts(), e@, id@),
    {
        match &e.payload {
            EventPayload::DecisionFormed(p) => {
                if same_text(p.decision_id.as_str(), id) {
                    self.relevant = true;
                    self.formed_instrument = Some(p.instrument.clone());
                    if self.signal_ref.is_none() {
                        self.signal_ref = clone_opt(&e.linkage.signal_id);
                    }
                    insert_opt(&mut self.signal_refs, &e.linkage.signal_id);
                }
            },
            EventPayload::VetoRaised(p) => {
                if p.scope == VetoScope::Decision && same_text(p.target_id.as_str(), id) {
                    self.relevant = true;
                    self.vetoes.push((p.veto_id.clone(), p.reason_code.clone()));
                    proof {
                        assert(pairs(self.vetoes@) =~= pairs(old(self).vetoes@).push(
                            (p.veto_id@, p.reason_code@),
                        ));
                    }
                }
            },
            EventPayload::FillReceived(p) => {
                if opt_text_is(&p.decision_id, id) || opt_text_is(&e.linkage.decision_id, id) {
                    self.relevant = true;
                    match &self.formed_instrument {
                        Some(fi) => {
                            if !same_text(fi.as_str(), p.instrument.as_str()) {
                                self.mismatches.push((p.fill_id.clone(), p.instrument.clone()));
                                proof {
                                    assert(pairs(self.mismatches@) =~= pairs(
                                        old(self).mismatches@,
                                    ).push((p.fill_id@, p.instrument@)));
                                }
                            }
                        },
                        None => {},
                    }
                }
            },
            _ => {},
        }
    }
}

fn scan_decision(events: &[StoredEvent], id: &str) -> (r: DecisionScan)
    ensures
        strictly_sorted(strs(r.signal_refs@)),
        r.facts() == decision_facts(event_views(events@), id@),
{
    let ghost s = event_views(events@);
    let mut scan = DecisionScan {
        relevant: false,
        formed_instrument: None,
        signal_ref: None,
        signal_refs: Vec::new(),
        vetoes: Vec::new(),
        mismatches: Vec::new(),
    };
    proof {
        assert(strs(scan.signal_refs@).to_set() =~= Set::empty());
        assert(pairs(scan.vetoes@) =~= Seq::empty());
        assert(pairs(scan.mismatches@) =~= Seq::empty());
        assert(scan.facts() == no_decision_facts());
        assert(s.take(0) =~= Seq::<StoredEventView>::empty());
    }
    let mut i: usize = 0;
    while i < events.len()
        invariant
            i <= events.len(),
            s == event_views(events@),
            strictly_sorted(strs(scan.signal_refs@)),
            scan.facts() == decision_facts(s.take(i as int), id@),
        decreases events.len() - i,
    {
        proof {
            lemma_take_step(s, i as int);
        }
        scan.observe(&events[i], id);
        i = i + 1;
    }
    proof {
        assert(s.take(i as int) =~= s);
    }
    scan
}

fn push_decision_reason(out: &mut Vec<DecisionReadinessReason>, x: DecisionReadinessReason)
    ensures
        views_of(final(out)@) == views_of(old(out)@).push(x@),
{
    let ghost before = out@;
    out.push(x);
    proof {
        lemma_views_push(before, x);
    }
}

fn push_decision_pairs(
    out: &mut Vec<DecisionReadinessReason>,
    items: &Vec<(String, String)>,
    vetoes: bool,
)
    ensures
        views_of(final(out)@) == views_of(old(out)@) + if vetoes {
            decision_veto_reasons(pairs(items@))
        } else {
            decision_mismatch_reasons(pairs(items@))
        },
{
    let ghost p0 = views_of(out@);
    let ghost g = |q: Seq<(Seq<char>, Seq<char>)>|
        if vetoes {
            decision_veto_reasons(q)
        } else {
            decision_mismatch_reasons(q)
        };
    let mut k: usize = 0;
    while k < items.len()
        invariant
            k <= items.len(),
            g == (|q: Seq<(Seq<char>, Seq<char>)>|
                if vetoes {
                    decision_veto_reasons(q)
                } else {
                    decision_mismatch_reasons(q)
                }),
            views_of(out@) == p0 + g(pairs(items@).take(k as int)),
        decreases items.len() - k,
    {
        let a = items[k].0.clone();
        let b = items[k].1.clone();
        let x = if vetoes {
            DecisionReadinessReason::DecisionVetoObserved { veto_id: a, reason_code: b }
        } else {
            DecisionReadinessReason::FillInstrumentMismatch { fill_id: a, fill_instrument: b }
        };
        push_decision_reason(out, x);
        proof {
            assert(g(pairs(items@).take(k as int + 1)) =~= g(pairs(items@).take(k as int)).push(
                x@,
            ));
        }
        k = k + 1;
    }
    proof {
        assert(pairs(items@).take(k as int) =~= pairs(items@));
    }
}

fn signal_status_of(r: &Option<SignalReadiness>) -> (st: Option<SignalReadinessStatus>)
    ensures
        st == match viewed(*r) {
            Some(x) => Some(x.status),
            None => None,
        },
{
    match r {
        Some(x) => Some(x.status),
        None => None,
    }
}

/// The readiness of a decision: whether it was formed, vetoed, and how ready
/// the signal it stands on is.
pub fn decision_readiness(events: &[StoredEvent], decision_id: &str) -> (r: Result<
    Option<DecisionReadiness>,
    QueryError,
>)
    ensures
        answers(r, event_views(events@), decision_readiness_of(event_views(events@), decision_id@)),
{
    let ghost s = event_views(events@);
    match check_decodes(events) {
        Err(e) => return Err(QueryError::Codec(e)),
        Ok(_) => {},
    }
    let scan = scan_decision(events, decision_id);
    let ghost f = scan.facts();
    if !scan.relevant {
        return Ok(None);
    }
    proof {
        lemma_sorted_elements_of(strs(scan.signal_refs@));
    }
    let mut reasons: Vec<DecisionReadinessReason> = Vec::new();
    if scan.formed_instrument.is_some() {
        push_decision_reason(&mut reasons, DecisionReadinessReason::DecisionFormedObserved);
    } else {
        push_decision_reason(&mut reasons, DecisionReadinessReason::MissingDecisionFormed);
    }
    push_decision_pairs(&mut reasons, &scan.vetoes, true);
    let conflicting = scan.signal_refs.len() > 1;
    if conflicting {
        push_decision_reason(
            &mut reasons,
            DecisionReadinessReason::ConflictingSignalReferences { values: clone_strs(&scan.signal_refs) },
        );
    }
    push_decision_pairs(&mut reasons, &scan.mismatches, false);
    let up: Option<SignalReadinessStatus> = match &scan.signal_ref {
        Some(sid) => {
            let upstream = match signal_readiness(events, sid.as_str()) {
                Ok(u) => u,
                Err(e) => return Err(e),
            };
            let st = signal_status_of(&upstream);
            let x = match st {
                Some(SignalReadinessStatus::ReadyForDecision) => DecisionReadinessReason::UpstreamSignalReady {
                    signal_id: sid.clone(),
                },
                Some(SignalReadinessStatus::GeneratedUnconfirmed) => DecisionReadinessReason::UpstreamSignalGeneratedUnconfirmed {
                    signal_id: sid.clone(),
                },
                Some(SignalReadinessStatus::BlockedByVeto) => DecisionReadinessReason::UpstreamSignalBlocked {
                    signal_id: sid.clone(),
                },
                Some(SignalReadinessStatus::Inconsistent) => DecisionReadinessReason::UpstreamSignalInconsistent {
                    signal_id: sid.clone(),
                },
                None => DecisionReadinessReason::MissingUpstreamSignalReference,
            };
            push_decision_reason(&mut reasons, x);
            st
        },
        None => {
            push_decision_reason(&mut reasons, DecisionReadinessReason::MissingUpstreamSignalReference);
            None
        },
    };
    proof {
        assert(up == upstream_signal_status(s, f));
        assert(views_of(reasons@) =~= decision_reasons(f, up));
    }
    let status = if scan.formed_instrument.is_none() || conflicting || up == Some(
        SignalReadinessStatus::Inconsistent,
    ) || scan.mismatches.len() > 0 {
        DecisionReadinessStatus::Inconsistent
    } else if scan.vetoes.len() > 0 || up == Some(SignalReadinessStatus::BlockedByVeto) {
        DecisionReadinessStatus::Blocked
    } else if up == Some(SignalReadinessStatus::ReadyForDecision) {
        DecisionReadinessStatus::Ready
    } else {
        DecisionReadinessStatus::FormedButUpstreamWeak
    };
    Ok(Some(DecisionReadiness { decision_id: owned(decision_id), status, reasons }))
}


// ---------------------------------------------------------------------------
// Fills
// ---------------------------------------------------------------------------
#[derive(Debug, Clone, Copy, PartialEq, Eq, Structural)]
pub enum FillReadinessStatus {
    ReceivedWithSufficientReferences,
    ReceivedButUpstreamInsufficient,
    Inconsistent,
}

#[derive(Debug, Clone, PartialEq, Eq)]
pub enum FillReadinessReason {
    FillReceivedObserved,
    OrderReferencePresent { order_id: String },
    DecisionReferencePresent { decision_id: String },
    MissingDecisionReference,
    ReferencedDecisionReady { decision_id: String },
    ReferencedDecisionWeak { decision_id: String },
    ReferencedDecisionBlocked { decision_id: String },
    ReferencedDecisionMissing { decision_id: String },
    ReferencedDecisionInconsistent { decision_id: String },
    AmbiguousFillIdentity { decision_ids: Vec<String>, order_ids: Vec<String>, venues: Vec<String> },
    FillInstrumentMismatch {
        decision_id: String,
        decision_instrument: String,
        fill_instrument: String,
    },
}

pub enum FillReadinessReasonView {
    FillReceivedObserved,
    OrderReferencePresent { order_id: Seq<char> },
    DecisionReferencePresent { decision_id: Seq<char> },
    MissingDecisionReference,
    ReferencedDecisionReady { decision_id: Seq<char> },
    ReferencedDecisionWeak { decision_id: Seq<char> },
    ReferencedDecisionBlocked { decision_id: Seq<char> },
    ReferencedDecisionMissing { decision_id: Seq<char> },
    ReferencedDecisionInconsistent { decision_id: Seq<char> },
    AmbiguousFillIdentity {
        decision_ids: Seq<Seq<char>>,
        order_ids: Seq<Seq<char>>,
        venues: Seq<Seq<char>>,
    },
    FillInstrumentMismatch {
        decision_id: Seq<char>,
        decision_instrument: Seq<char>,
        fill_instrument: Seq<char>,
    },
}

impl View for FillReadinessReason {
    type V = FillReadinessReasonView;

    open spec fn view(&self) -> FillReadinessReasonView {
        match self {
            FillReadinessReason::FillReceivedObserved => FillReadinessReasonView::FillReceivedObserved,
            FillReadinessReason::OrderReferencePresent { order_id } => FillReadinessReasonView::OrderReferencePresent {
                order_id: order_id@,
            },
            FillReadinessReason::DecisionReferencePresent { decision_id } => FillReadinessReasonView::DecisionReferencePresent {
                decision_id: decision_id@,
            },
            FillReadinessReason::MissingDecisionReference => FillReadinessReasonView::MissingDecisionReference,
            FillReadinessReason::ReferencedDecisionReady { decision_id } => FillReadinessReasonView::ReferencedDecisionReady {
                decision_id: decision_id@,
            },
            FillReadinessReason::ReferencedDecisionWeak { decision_id } => FillReadinessReasonView::ReferencedDecisionWeak {
                decision_id: decision_id@,
            },
            FillReadinessReason::ReferencedDecisionBlocked { decision_id } => FillReadinessReasonView::ReferencedDecisionBlocked {
                decision_id: decision_id@,
            },
            FillReadinessReason::ReferencedDecisionMissing { decision_id } => FillReadinessReasonView::ReferencedDecisionMissing {
                decision_id: decision_id@,
            },
            FillReadinessReason::ReferencedDecisionInconsistent { decision_id } => FillReadinessReasonView::ReferencedDecisionInconsistent {
                decision_id: decision_id@,
            },
            FillReadinessReason::AmbiguousFillIdentity { decision_ids, order_ids, venues } => FillReadinessReasonView::AmbiguousFillIdentity {
                decision_ids: strs(decision_ids@),
                order_ids: strs(order_ids@),
                venues: strs(venues@),
            },
            FillReadinessReason::FillInstrumentMismatch { decision_id, decision_instrument, fill_instrument } => FillReadinessReasonView::FillInstrumentMismatch {
                decision_id: decision_id@,
                decision_instrument: decision_instrument@,
                fill_instrument: fill_instrument@,
            },
        }
    }
}

#[derive(Debug, Clone, PartialEq, Eq)]
pub struct FillReadiness {
    pub fill_id: String,
    pub status: FillReadinessStatus,
    pub reasons: Vec<FillReadinessReason>,
}

pub struct FillReadinessView {
    pub fill_id: Seq<char>,
    pub status: FillReadinessStatus,
    pub reasons: Seq<FillReadinessReasonView>,
}

impl View for FillReadiness {
    type V = FillReadinessView;

    open spec fn view(&self) -> FillReadinessView {
        FillReadinessView { fill_id: self.fill_id@, status: self.status, reasons: views_of(self.reasons@) }
    }
}

/// What the log says about one fill.
pub struct FillFacts {
    pub relevant: bool,
    pub fill_count: nat,
    /// `(order_id, instrument)` of the first `fill.received` of the fill.
    pub first_fill: Option<(Seq<char>, Seq<char>)>,
    /// The first decision that a receipt of the fill refers to.
    pub decision_id: Option<Seq<char>>,
    pub decision_ids: Set<Seq<char>>,
    pub order_ids: Set<Seq<char>>,
    pub venues: Set<Seq<char>>,
}

pub open spec fn no_fill_facts() -> FillFacts {
    FillFacts {
        relevant: false,
        fill_count: 0,
        first_fill: None,
        decision_id: None,
        decision_ids: Set::empty(),
        order_ids: Set::empty(),
        venues: Set::empty(),
    }
}

pub open spec fn fill_step(f: FillFacts, e: StoredEventView, id: Seq<char>) -> FillFacts {
    match e.payload {
        PayloadView::FillReceived(p) => if p.fill_id == id {
            let d = or_else(p.decision_id, e.linkage.decision_id);
            FillFacts {
                relevant: true,
                fill_count: f.fill_count + 1,
                first_fill: match f.first_fill {
                    Some(x) => Some(x),
                    None => Some((p.order_id, p.instrument)),
                },
                decision_id: or_else(f.decision_id, d),
                decision_ids: add_opt(f.decision_ids, d),
                order_ids: f.order_ids.insert(p.order_id),
                venues: f.venues.insert(p.venue),
            }
        } else {
            f
        },
        _ => f,
    }
}

pub open spec fn fill_facts(s: Seq<StoredEventView>, id: Seq<char>) -> FillFacts
    decreases s.len(),
{
    if s.len() == 0 {
        no_fill_facts()
    } else {
        fill_step(fill_facts(s.drop_last(), id), s.last(), id)
    }
}

/// The instrument of the first formation of decision `d` whose instrument is not `instrument`.
pub open spec fn first_other_instrument(s: Seq<StoredEventView>, d: Seq<char>, instrument: Seq<char>) -> Option<Seq<char>>
    decreases s.len(),
{
    if s.len() == 0 {
        None
    } else {
        match first_other_instrument(s.drop_last(), d, instrument) {
            Some(x) => Some(x),
            None => match s.last().payload {
                PayloadView::DecisionFormed(p) => if p.decision_id == d && p.instrument != instrument {
                    Some(p.instrument)
                } else {
                    None
                },
                _ => None,
            },
        }
    }
}

pub open spec fn fill_mismatch(s: Seq<StoredEventView>, f: FillFacts) -> Option<Seq<char>> {
    match (f.first_fill, f.decision_id) {
        (Some(x), Some(d)) => first_other_instrument(s, d, x.1),
        _ => None,
    }
}

/// The readiness status of the decision a fill refers to, when it has one.
pub open spec fn referenced_decision_status(s: Seq<StoredEventView>, f: FillFacts) -> Option<DecisionReadinessStatus> {
    match f.decision_id {
        Some(d) => match decision_readiness_of(s, d) {
            Some(r) => Some(r.status),
            None => None,
        },
        None => None,
    }
}

pub open spec fn fill_ambiguous(f: FillFacts) -> bool {
    sorted_elements(f.decision_ids).len() > 1 || sorted_elements(f.order_ids).len() > 1
        || sorted_elements(f.venues).len() > 1
}

pub open spec fn referenced_decision_reason(d: Seq<char>, st: Option<DecisionReadinessStatus>) -> FillReadinessReasonView {
    match st {
        Some(DecisionReadinessStatus::Ready) => FillReadinessReasonView::ReferencedDecisionReady { decision_id: d },
        Some(DecisionReadinessStatus::FormedButUpstreamWeak) => FillReadinessReasonView::ReferencedDecisionWeak { decision_id: d },
        Some(DecisionReadinessStatus::Blocked) => FillReadinessReasonView::ReferencedDecisionBlocked { decision_id: d },
        Some(DecisionReadinessStatus::Inconsistent) => FillReadinessReasonView::ReferencedDecisionInconsistent { decision_id: d },
        None => FillReadinessReasonView::ReferencedDecisionMissing { decision_id: d },
    }
}

pub open spec fn fill_reasons(
    f: FillFacts,
    st: Option<DecisionReadinessStatus>,
    mismatch: Option<Seq<char>>,
) -> Seq<FillReadinessReasonView> {
    Seq::new(f.fill_count, |k: int| FillReadinessReasonView::FillReceivedObserved) + only_if(
        fill_ambiguous(f),
        seq![
            FillReadinessReasonView::AmbiguousFillIdentity {
                decision_ids: sorted_elements(f.decision_ids),
                order_ids: sorted_elements(f.order_ids),
                venues: sorted_elements(f.venues),
            },
        ],
    ) + match f.first_fill {
        Some(x) => seq![FillReadinessReasonView::OrderReferencePresent { order_id: x.0 }],
        None => Seq::empty(),
    } + match f.decision_id {
        Some(d) => seq![
            FillReadinessReasonView::DecisionReferencePresent { decision_id: d },
            referenced_decision_reason(d, st),
        ],
        None => seq![FillReadinessReasonView::MissingDecisionReference],
    } + match (mismatch, f.decision_id, f.first_fill) {
        (Some(di), Some(d), Some(x)) => seq![
            FillReadinessReasonView::FillInstrumentMismatch {
                decision_id: d,
                decision_instrument: di,
                fill_instrument: x.1,
            },
        ],
        _ => Seq::empty(),
    }
}

pub open spec fn fill_status(f: FillFacts, st: Option<DecisionReadinessStatus>, mismatch: Option<Seq<char>>) -> FillReadinessStatus {
    if fill_ambiguous(f) || st == Some(DecisionReadinessStatus::Inconsistent) || mismatch is Some {
        FillReadinessStatus::Inconsistent
    } else if st == Some(DecisionReadinessStatus::Ready) {
        FillReadinessStatus::ReceivedWithSufficientReferences
    } else {
        FillReadinessStatus::ReceivedButUpstreamInsufficient
    }
}

/// The readiness of the fill `id` over the log `s`; `None` when no receipt of it is logged.
pub closed spec fn fill_readiness_of(s: Seq<StoredEventView>, id: Seq<char>) -> Option<FillReadinessView> {
    let f = fill_facts(s, id);
    let st = referenced_decision_status(s, f);
    let m = fill_mismatch(s, f);
    if !f.relevant {
        None
    } else {
        Some(FillReadinessView { fill_id: id, status: fill_status(f, st, m), reasons: fill_reasons(f, st, m) })
    }
}

struct FillScan {
    relevant: bool,
    fill_count: usize,
    first_fill: Option<(String, String)>,
    decision_id: Option<String>,
    decision_ids: Vec<String>,
    order_ids: Vec<String>,
    venues: Vec<String>,
}

pub open spec fn pair_view(o: Option<(String, String)>) -> Option<(Seq<char>, Seq<char>)> {
    match o {
        Some(p) => Some((p.0@, p.1@)),
        None => None,
    }
}

impl FillScan {
    spec fn facts(&self) -> FillFacts {
        FillFacts {
            relevant: self.relevant,
            fill_count: self.fill_count as nat,
            first_fill: pair_view(self.first_fill),
            decision_id: opt_view(self.decision_id),
            decision_ids: strs(self.decision_ids@).to_set(),
            order_ids: strs(self.order_ids@).to_set(),
            venues: strs(self.venues@).to_set(),
        }
    }

    spec fn sorted(&self) -> bool {
        &&& strictly_sorted(strs(self.decision_ids@))
        &&& strictly_sorted(strs(self.order_ids@))
        &&& strictly_sorted(strs(self.venues@))
    }

    fn observe(&mut self, e: &StoredEvent, id: &str)
        requires
            old(self).sorted(),
            old(self).fill_count < usize::MAX,
        ensures
            final(self).sorted(),
            final(self).fill_count <= old(self).fill_count + 1,
            final(self).facts() == fill_step(old(self).facts(), e@, id@),
    {
        match &e.payload {
            EventPayload::FillReceived(p) => {
                if same_text(p.fill_id.as_str(), id) {
                    self.relevant = true;
                    self.fill_count = self.fill_count + 1;
                    if self.first_fill.is_none() {
                        self.first_fill = Some((p.order_id.clone(), p.instrument.clone()));
                    }
                    let d = match &p.decision_id {
                        Some(x) => Some(x.clone()),
                        None => clone_opt(&e.linkage.decision_id),
                    };
                    if self.decision_id.is_none() {
                        self.decision_id = clone_opt(&d);
                    }
                    insert_opt(&mut self.decision_ids, &d);
                    insert_sorted(&mut self.order_ids, p.order_id.clone());
                    insert_sorted(&mut self.venues, p.venue.clone());
                }
            },
            _ => {},
        }
    }
}

fn scan_fill(events: &[StoredEvent], id: &str) -> (r: FillScan)
    ensures
        r.sorted(),
        r.facts() == fill_facts(event_views(events@), id@),
{
    let ghost s = event_views(events@);
    let mut scan = FillScan {
        relevant: false,
        fill_count: 0,
        first_fill: None,
        decision_id: None,
        decision_ids: Vec::new(),
        order_ids: Vec::new(),
        venues: Vec::new(),
    };
    proof {
        assert(strs(scan.decision_ids@).to_set() =~= Set::empty());
        assert(strs(scan.order_ids@).to_set() =~= Set::empty());
        assert(strs(scan.venues@).to_set() =~= Set::empty());
        assert(scan.facts() == no_fill_facts());
        assert(s.take(0) =~= Seq::<StoredEventView>::empty());
    }
    let mut i: usize = 0;
    while i < events.len()
        invariant
            i <= events.len(),
            s == event_views(events@),
            scan.sorted(),
            scan.fill_count <= i,
            scan.facts() == fill_facts(s.take(i as int), id@),
        decreases events.len() - i,
    {
        proof {
            lemma_take_step(s, i as int);
        }
        scan.observe(&events[i], id);
        i = i + 1;
    }
    proof {
        assert(s.take(i as int) =~= s);
    }
    scan
}

fn find_other_instrument(events: &[StoredEvent], d: &str, instrument: &str) -> (r: Option<String>)
    ensures
        opt_view(r) == first_other_instrument(event_views(events@), d@, instrument@),
{
    let ghost s = event_views(events@);
    let mut found: Option<String> = None;
    let mut i: usize = 0;
    while i < events.len()
        invariant
            i <= events.len(),
            s == event_views(events@),
            opt_view(found) == first_other_instrument(s.take(i as int), d@, instrument@),
        decreases events.len() - i,
    {
        proof {
            lemma_take_step(s, i as int);
        }
        if found.is_none() {
            match &events[i].payload {
                EventPayload::DecisionFormed(p) => {
                    if same_text(p.decision_id.as_str(), d) && !same_text(
                        p.instrument.as_str(),
                        instrument,
                    ) {
                        found = Some(p.instrument.clone());
                    }
                },
                _ => {},
            }
        }
        i = i + 1;
    }
    proof {
        assert(s.take(i as int) =~= s);
    }
    found
}

fn push_fill_reason(out: &mut Vec<FillReadinessReason>, x: FillReadinessReason)
    ensures
        views_of(final(out)@) == views_of(old(out)@).push(x@),
{
    let ghost before = out@;
    out.push(x);
    proof {
        lemma_views_push(before, x);
    }
}

fn decision_status_of(r: &Option<DecisionReadiness>) -> (st: Option<DecisionReadinessStatus>)
    ensures
        st == match viewed(*r) {
            Some(x) => Some(x.status),
            None => None,
        },
{
    match r {
        Some(x) => Some(x.status),
        None => None,
    }
}

/// The readiness of a fill: whether it can be traced to a decision, how ready
/// that decision is, and whether its receipts agree with each other.
#[verifier::rlimit(30)]
pub fn fill_readiness(events: &[StoredEvent], fill_id: &str) -> (r: Result<
    Option<FillReadiness>,
    QueryError,
>)
    ensures
        answers(r, event_views(events@), fill_readiness_of(event_views(events@), fill_id@)),
{
    let ghost s = event_views(events@);
    match check_decodes(events) {
        Err(e) => return Err(QueryError::Codec(e)),
        Ok(_) => {},
    }
    let scan = scan_fill(events, fill_id);
    let ghost f = scan.facts();
    if !scan.relevant {
        return Ok(None);
    }
    proof {
        lemma_sorted_elements_of(strs(scan.decision_ids@));
        lemma_sorted_elements_of(strs(scan.order_ids@));
        lemma_sorted_elements_of(strs(scan.venues@));
    }
    let mismatch: Option<String> = match (&scan.first_fill, &scan.decision_id) {
        (Some(x), Some(d)) => find_other_instrument(events, d.as_str(), x.1.as_str()),
        _ => None,
    };
    let mut reasons: Vec<FillReadinessReason> = Vec::new();
    let mut k: usize = 0;
    while k < scan.fill_count
        invariant
            k <= scan.fill_count,
            views_of(reasons@) == Seq::new(k as nat, |j: int| FillReadinessReasonView::FillReceivedObserved),
        decreases scan.fill_count - k,
    {
        push_fill_reason(&mut reasons, FillReadinessReason::FillReceivedObserved);
        proof {
            assert(Seq::new((k + 1) as nat, |j: int| FillReadinessReasonView::FillReceivedObserved) =~= Seq::new(
                k as nat,
                |j: int| FillReadinessReasonView::FillReceivedObserved,
            ).push(FillReadinessReasonView::FillReceivedObserved));
        }
        k = k + 1;
    }
    let ghost p0 = views_of(reasons@);
    let ambiguous = scan.decision_ids.len() > 1 || scan.order_ids.len() > 1 || scan.venues.len() > 1;
    if ambiguous {
        push_fill_reason(
            &mut reasons,
            FillReadinessReason::AmbiguousFillIdentity {
                decision_ids: clone_strs(&scan.decision_ids),
                order_ids: clone_strs(&scan.order_ids),
                venues: clone_strs(&scan.venues),
            },
        );
    }
    match &scan.first_fill {
        Some(x) => push_fill_reason(
            &mut reasons,
            FillReadinessReason::OrderReferencePresent { order_id: x.0.clone() },
        ),
        None => {},
    }
    let ghost p1 = views_of(reasons@);
    let st: Option<DecisionReadinessStatus> = match &scan.decision_id {
        Some(d) => {
            push_fill_reason(
                &mut reasons,
                FillReadinessReason::DecisionReferencePresent { decision_id: d.clone() },
            );
            let referenced = match decision_readiness(events, d.as_str()) {
                Ok(x) => x,
                Err(e) => return Err(e),
            };
            let st = decision_status_of(&referenced);
            let x = match st {
                Some(DecisionReadinessStatus::Ready) => FillReadinessReason::ReferencedDecisionReady {
                    decision_id: d.clone(),
                },
                Some(DecisionReadinessStatus::FormedButUpstreamWeak) => FillReadinessReason::ReferencedDecisionWeak {
                    decision_id: d.clone(),
                },
                Some(DecisionReadinessStatus::Blocked) => FillReadinessReason::ReferencedDecisionBlocked {
                    decision_id: d.clone(),
                },
                Some(DecisionReadinessStatus::Inconsistent) => FillReadinessReason::ReferencedDecisionInconsistent {
                    decision_id: d.clone(),
                },
                None => FillReadinessReason::ReferencedDecisionMissing { decision_id: d.clone() },
            };
            push_fill_reason(&mut reasons, x);
            st
        },
        None => {
            push_fill_reason(&mut reasons, FillReadinessReason::MissingDecisionReference);
            None
        },
    };
    match (&mismatch, &scan.decision_id, &scan.first_fill) {
        (Some(di), Some(d), Some(x)) => push_fill_reason(
            &mut reasons,
            FillReadinessReason::FillInstrumentMismatch {
                decision_id: d.clone(),
                decision_instrument: di.clone(),
                fill_instrument: x.1.clone(),
            },
        ),
        _ => {},
    }
    proof {
        let m = fill_mismatch(s, f);
        assert(opt_view(mismatch) == m);
        assert(st == referenced_decision_status(s, f));
        assert(views_of(reasons@) =~= fill_reasons(f, st, m));
    }
    let status = if ambiguous || st == Some(DecisionReadinessStatus::Inconsistent)
        || mismatch.is_some() {
        FillReadinessStatus::Inconsistent
    } else if st == Some(DecisionReadinessStatus::Ready) {
        FillReadinessStatus::ReceivedWithSufficientReferences
    } else {
        FillReadinessStatus::ReceivedButUpstreamInsufficient
    };
    Ok(Some(FillReadiness { fill_id: owned(fill_id), status, reasons }))
}


// ---------------------------------------------------------------------------
// Laws of readiness
// ---------------------------------------------------------------------------
/// Whether an event says anything about the signal `id`.
pub open spec fn concerns_signal(e: StoredEventView, id: Seq<char>) -> bool {
    match e.payload {
        PayloadView::SignalGenerated(p) => p.signal_id == id,
        PayloadView::SignalConfirmed(p) => p.signal_id == id,
        PayloadView::VetoRaised(p) => p.scope == VetoScope::Signal && p.target_id == id,
        PayloadView::DecisionFormed(p) => e.linkage.signal_id == Some(id),
        _ => false,
    }
}

/// A signal is ready for a decision only when the log holds its generation and a
/// confirmation of it, and no veto against it.
pub proof fn lemma_ready_signal_is_confirmed_and_unvetoed(s: Seq<StoredEventView>, id: Seq<char>)
    requires
        signal_readiness_of(s, id) matches Some(r) && r.status == SignalReadinessStatus::ReadyForDecision,
    ensures
        signal_facts(s, id).generated,
        signal_facts(s, id).confirmations.len() > 0,
        signal_facts(s, id).vetoes.len() == 0,
{
}

/// A veto against a signal keeps it from being ready: it is blocked, or
/// inconsistent when its log contradicts itself.
pub proof fn lemma_vetoed_signal_is_not_ready(s: Seq<StoredEventView>, id: Seq<char>)
    requires
        signal_facts(s, id).vetoes.len() > 0,
    ensures
        signal_readiness_of(s, id) matches Some(r) && (r.status == SignalReadinessStatus::BlockedByVeto
            || r.status == SignalReadinessStatus::Inconsistent),
{
    lemma_vetoed_signal_is_relevant(s, id);
}

proof fn lemma_vetoed_signal_is_relevant(s: Seq<StoredEventView>, id: Seq<char>)
    ensures
        signal_facts(s, id).vetoes.len() > 0 ==> signal_facts(s, id).relevant,
        signal_facts(s, id).confirmations.len() > 0 ==> signal_facts(s, id).relevant,
        signal_facts(s, id).generated ==> signal_facts(s, id).relevant,
    decreases s.len(),
{
    if s.len() > 0 {
        lemma_vetoed_signal_is_relevant(s.drop_last(), id);
    }
}

/// Appending an event that says nothing about a signal leaves its readiness as it was.
pub proof fn lemma_unrelated_event_keeps_signal_readiness(
    s: Seq<StoredEventView>,
    e: StoredEventView,
    id: Seq<char>,
)
    requires
        !concerns_signal(e, id),
    ensures
        signal_readiness_of(s.push(e), id) == signal_readiness_of(s, id),
{
    assert(s.push(e).drop_last() =~= s);
}

/// A decision is ready only when it was formed, no veto stands against it, and
/// the signal it links to is ready for a decision.
pub proof fn lemma_ready_decision_stands_on_ready_signal(s: Seq<StoredEventView>, id: Seq<char>)
    requires
        decision_readiness_of(s, id) matches Some(r) && r.status == DecisionReadinessStatus::Ready,
    ensures
        decision_facts(s, id).formed_instrument is Some,
        decision_facts(s, id).vetoes.len() == 0,
        decision_facts(s, id).signal_ref is Some,
        upstream_signal_status(s, decision_facts(s, id)) == Some(SignalReadinessStatus::ReadyForDecision),
{
}

/// A fill has sufficient references only when the decision it refers to is ready.
pub proof fn lemma_sufficient_fill_refers_to_ready_decision(s: Seq<StoredEventView>, id: Seq<char>)
    requires
        fill_readiness_of(s, id) matches Some(r) && r.status == FillReadinessStatus::ReceivedWithSufficientReferences,
    ensures
        referenced_decision_status(s, fill_facts(s, id)) == Some(DecisionReadinessStatus::Ready),
        fill_mismatch(s, fill_facts(s, id)) is None,
{
}


/// An event about another signal, or about none, leaves a signal's readiness
/// as it was.
pub proof fn lemma_signal_readiness_unmoved(s: Seq<StoredEventView>, e: StoredEventView, id: Seq<char>)
    requires
        crate::projections::signal_laws::signal_of_event(e) != Some(id),
    ensures
        signal_readiness_of(s.push(e), id) == signal_readiness_of(s, id),
{
    assert(s.push(e).drop_last() =~= s);
    assert(signal_facts(s.push(e), id) == signal_facts(s, id));
}


proof fn lemma_decision_veto_kept(s: Seq<StoredEventView>, id: Seq<char>, i: int, v: crate::events::VetoRaisedView)
    requires
        0 <= i < s.len(),
        s[i].payload == PayloadView::VetoRaised(v),
        v.scope == VetoScope::Decision,
        v.target_id == id,
    ensures
        decision_facts(s, id).relevant,
        decision_facts(s, id).vetoes.contains((v.veto_id, v.reason_code)),
    decreases s.len(),
{
    let f = decision_facts(s.drop_last(), id);
    if i == s.len() - 1 {
        assert(s.last() == s[i]);
        assert(decision_facts(s, id).vetoes == f.vetoes.push((v.veto_id, v.reason_code)));
        assert(decision_facts(s, id).vetoes[f.vetoes.len() as int] == (v.veto_id, v.reason_code));
    } else {
        assert(s.drop_last()[i] == s[i]);
        lemma_decision_veto_kept(s.drop_last(), id, i, v);
        let k = choose|k: int| 0 <= k < f.vetoes.len() && f.vetoes[k] == (v.veto_id, v.reason_code);
        let g = decision_facts(s, id);
        assert(g.vetoes == f.vetoes || g.vetoes == f.vetoes.push((s.last().payload->VetoRaised_0.veto_id, s.last().payload->VetoRaised_0.reason_code)));
        assert(g.vetoes[k] == f.vetoes[k]);
    }
}

/// A veto of a decision keeps it from being ready: when the log holds a
/// `veto.raised` aimed at the decision, the decision has a readiness, its
/// status is blocked or inconsistent, and its reasons name that veto.
pub proof fn lemma_decision_veto_blocks(s: Seq<StoredEventView>, id: Seq<char>, i: int, v: crate::events::VetoRaisedView)
    requires
        0 <= i < s.len(),
        s[i].payload == PayloadView::VetoRaised(v),
        v.scope == VetoScope::Decision,
        v.target_id == id,
    ensures
        decision_readiness_of(s, id) is Some,
        decision_readiness_of(s, id)->0.status == DecisionReadinessStatus::Blocked || decision_readiness_of(s, id)->0.status
            == DecisionReadinessStatus::Inconsistent,
        decision_readiness_of(s, id)->0.reasons.contains(
            DecisionReadinessReasonView::DecisionVetoObserved { veto_id: v.veto_id, reason_code: v.reason_code },
        ),
{
    lemma_decision_veto_kept(s, id, i, v);
    let f = decision_facts(s, id);
    let up = upstream_signal_status(s, f);
    let k = choose|k: int| 0 <= k < f.vetoes.len() && f.vetoes[k] == (v.veto_id, v.reason_code);
    let vr = decision_veto_reasons(f.vetoes);
    assert(vr[k] == DecisionReadinessReasonView::DecisionVetoObserved { veto_id: v.veto_id, reason_code: v.reason_code });
    let rs = decision_reasons(f, up);
    assert(rs[1 + k] == vr[k]);
}


proof fn lemma_signal_veto_kept(s: Seq<StoredEventView>, id: Seq<char>, i: int, v: crate::events::VetoRaisedView)
    requires
        0 <= i < s.len(),
        s[i].payload == PayloadView::VetoRaised(v),
        v.scope == VetoScope::Signal,
        v.target_id == id,
    ensures
        signal_facts(s, id).relevant,
        signal_facts(s, id).vetoes.contains((v.veto_id, v.reason_code)),
    decreases s.len(),
{
    let f = signal_facts(s.drop_last(), id);
    if i == s.len() - 1 {
        assert(s.last() == s[i]);
        assert(signal_facts(s, id).vetoes[f.vetoes.len() as int] == (v.veto_id, v.reason_code));
    } else {
        assert(s.drop_last()[i] == s[i]);
        lemma_signal_veto_kept(s.drop_last(), id, i, v);
        let k = choose|k: int| 0 <= k < f.vetoes.len() && f.vetoes[k] == (v.veto_id, v.reason_code);
        let g = signal_facts(s, id);
        assert(g.vetoes[k] == f.vetoes[k]);
    }
}

/// A veto of a signal keeps it from being ready for a decision: when the log
/// holds a `veto.raised` aimed at the signal, the signal has a readiness, its
/// status is blocked by veto or inconsistent, and its reasons name that veto.
pub proof fn lemma_signal_veto_blocks(s: Seq<StoredEventView>, id: Seq<char>, i: int, v: crate::events::VetoRaisedView)
    requires
        0 <= i < s.len(),
        s[i].payload == PayloadView::VetoRaised(v),
        v.scope == VetoScope::Signal,
        v.target_id == id,
    ensures
        signal_readiness_of(s, id) is Some,
        signal_readiness_of(s, id)->0.status == SignalReadinessStatus::BlockedByVeto || signal_readiness_of(s, id)->0.status
            == SignalReadinessStatus::Inconsistent,
        signal_readiness_of(s, id)->0.reasons.contains(
            SignalReadinessReasonView::SignalVetoObserved { veto_id: v.veto_id, reason_code: v.reason_code },
        ),
{
    lemma_signal_veto_kept(s, id, i, v);
    let f = signal_facts(s, id);
    let k = choose|k: int| 0 <= k < f.vetoes.len() && f.vetoes[k] == (v.veto_id, v.reason_code);
    let vr = signal_veto_reasons(f.vetoes);
    assert(vr[k] == SignalReadinessReasonView::SignalVetoObserved { veto_id: v.veto_id, reason_code: v.reason_code });
    let a = only_if(f.generated, seq![SignalReadinessReasonView::SignalGeneratedObserved]) + confirmation_reasons(
        f.confirmations,
    );
    let rs = signal_reasons(f);
    assert(rs[a.len() + k] == vr[k]);
}

} // verus!
