//! Observability: counts that summarise the log.
use vstd::prelude::*;

use crate::codecs::{all_decode, CodecError};
use crate::events::{event_type_name, Binary64, EventPayload, EventType, PayloadView};
use crate::handoff::signals::{count_occurrences, occurrences};
use crate::projections::decision::{
    build_decision_projections, decision_projections_of, DecisionProjectionView,
};
use crate::projections::signal::projection_views;
use crate::projections::{build_signal_projections, signal_projections_of, ProjectionError, SignalProjectionView};
use crate::store::{event_views, JsonlEventStore, StoreError, StoredEvent, StoredEventView};
use crate::text::{blank, insert_sorted, is_blank, lemma_sorted_elements_distinct, owned, strictly_sorted, strs};

verus! {

#[derive(Debug)]
pub enum ObservabilityError {
    Store(StoreError),
    Projection(ProjectionError),
    Codec(CodecError),
}

/// How an operational summary is written.
#[derive(Debug, Clone, Copy, PartialEq, Eq, Structural)]
pub enum OperationalSummaryFormat {
    Json,
    Markdown,
}

impl OperationalSummaryFormat {
    pub fn as_str(&self) -> (r: &'static str)
        ensures
            r@ == match self {
                OperationalSummaryFormat::Json => "json"@,
                OperationalSummaryFormat::Markdown => "markdown"@,
            },
    {
        match self {
            OperationalSummaryFormat::Json => "json",
            OperationalSummaryFormat::Markdown => "markdown",
        }
    }
}

/// Counts over a log. The quantities of its fills are listed as binary64
/// encodings, in log order; their total is arithmetic on them.
#[derive(Debug, Clone, PartialEq, Eq)]
pub struct ObservabilitySummary {
    pub total_events: usize,
    pub total_signals: usize,
    pub total_decisions: usize,
    pub confirmed_signals: usize,
    pub vetoed_signals: usize,
    pub decisions_with_fills: usize,
    pub decisions_without_fills: usize,
    pub total_fills: usize,
    pub fill_quantities: Vec<Binary64>,
    pub unique_correlation_ids: usize,
    pub event_counts_by_type: Vec<(String, usize)>,
}

pub open spec fn type_names(s: Seq<StoredEventView>) -> Seq<Seq<char>> {
    s.map_values(|e: StoredEventView| event_type_name(e.event_type))
}

/// The correlation identifiers of a log that are not blank.
pub open spec fn correlation_ids(s: Seq<StoredEventView>) -> Set<Seq<char>>
    decreases s.len(),
{
    if s.len() == 0 {
        Set::empty()
    } else {
        let rest = correlation_ids(s.drop_last());
        match s.last().linkage.correlation_id {
            Some(c) => if is_blank(c) {
                rest
            } else {
                rest.insert(c)
            },
            None => rest,
        }
    }
}

/// The quantities of the fills of a log, in order.
pub open spec fn fill_quantities_of(s: Seq<StoredEventView>) -> Seq<Binary64>
    decreases s.len(),
{
    if s.len() == 0 {
        Seq::empty()
    } else {
        let rest = fill_quantities_of(s.drop_last());
        let e = s.last();
        if e.event_type == EventType::FillReceived {
            match e.payload {
                PayloadView::FillReceived(p) => rest.push(p.quantity),
                _ => rest,
            }
        } else {
            rest
        }
    }
}

pub open spec fn count_where<A>(s: Seq<A>, f: spec_fn(A) -> bool) -> nat {
    s.filter(f).len()
}

/// The summary of a log whose projections build.
pub open spec fn summarises(r: ObservabilitySummary, s: Seq<StoredEventView>) -> bool {
    let sp = signal_projections_of(s);
    let dp = decision_projections_of(s)->Ok_0;
    let names = type_names(s);
    let counted = r.event_counts_by_type@.map_values(|x: (String, usize)| x.0@);
    &&& r.total_events == s.len()
    &&& r.total_signals == sp.len()
    &&& r.total_decisions == dp.len()
    &&& r.confirmed_signals == count_where(sp, |p: SignalProjectionView| p.confirmed)
    &&& r.vetoed_signals == count_where(sp, |p: SignalProjectionView| p.vetoed)
    &&& r.decisions_with_fills == count_where(dp, |p: DecisionProjectionView| p.fills_count > 0)
    &&& r.decisions_without_fills == dp.len() - r.decisions_with_fills
    &&& r.total_fills == count_where(s, |e: StoredEventView| e.event_type == EventType::FillReceived)
    &&& r.fill_quantities@ == fill_quantities_of(s)
    &&& r.unique_correlation_ids == correlation_ids(s).len()
    &&& strictly_sorted(counted)
    &&& counted.to_set() == names.to_set()
    &&& forall|i: int| 0 <= i < counted.len() ==> (#[trigger] r.event_counts_by_type@[i]).1 == occurrences(
        names,
        counted[i],
    )
}

fn count_confirmed(v: &Vec<crate::projections::SignalProjection>, vetoed: bool) -> (r: usize)
    ensures
        r == count_where(projection_views(v@), if vetoed {
            |p: SignalProjectionView| p.vetoed
        } else {
            |p: SignalProjectionView| p.confirmed
        }),
{
    let ghost pv = projection_views(v@);
    let ghost f = if vetoed {
        |p: SignalProjectionView| p.vetoed
    } else {
        |p: SignalProjectionView| p.confirmed
    };
    let mut n: usize = 0;
    let mut i: usize = 0;
    while i < v.len()
        invariant
            i <= v.len(),
            pv == projection_views(v@),
            f == (if vetoed {
                |p: SignalProjectionView| p.vetoed
            } else {
                |p: SignalProjectionView| p.confirmed
            }),
            n == pv.take(i as int).filter(f).len(),
            n <= i,
        decreases v.len() - i,
    {
        proof {
            assert(pv.take(i as int + 1) =~= pv.take(i as int).push(pv[i as int]));
            pv.take(i as int).lemma_filter_push(pv[i as int], f);
            assert(pv[i as int] == v@[i as int]@);
            pv.take(i as int).lemma_filter_len(f);
        }
        let hit = if vetoed { v[i].vetoed } else { v[i].confirmed };
        if hit {
            n = n + 1;
        }
        i = i + 1;
    }
    proof {
        assert(pv.take(i as int) =~= pv);
    }
    n
}

fn count_with_fills(v: &Vec<crate::projections::DecisionProjection>) -> (r: usize)
    ensures
        r == count_where(
            crate::projections::decision::projection_views(v@),
            |p: DecisionProjectionView| p.fills_count > 0,
        ),
        r <= v.len(),
{
    let ghost pv = crate::projections::decision::projection_views(v@);
    let ghost f = |p: DecisionProjectionView| p.fills_count > 0;
    let mut n: usize = 0;
    let mut i: usize = 0;
    while i < v.len()
        invariant
            i <= v.len(),
            pv == crate::projections::decision::projection_views(v@),
            f == (|p: DecisionProjectionView| p.fills_count > 0),
            n == pv.take(i as int).filter(f).len(),
            n <= i,
        decreases v.len() - i,
    {
        proof {
            assert(pv.take(i as int + 1) =~= pv.take(i as int).push(pv[i as int]));
            pv.take(i as int).lemma_filter_push(pv[i as int], f);
            assert(pv[i as int] == v@[i as int]@);
            pv.take(i as int).lemma_filter_len(f);
        }
        if v[i].fills_count > 0 {
            n = n + 1;
        }
        i = i + 1;
    }
    proof {
        assert(pv.take(i as int) =~= pv);
    }
    n
}

/// Summarises a log: its projections, its fills, its correlations and the
/// number of events of each kind.
pub fn build_observability_summary(events: &Vec<StoredEvent>) -> (r: Result<ObservabilitySummary, ObservabilityError>)
    ensures
        match r {
            Ok(sum) => all_decode(event_views(events@)) && decision_projections_of(event_views(events@)) is Ok
                && summarises(sum, event_views(events@)),
            Err(e) => !all_decode(event_views(events@)) || decision_projections_of(event_views(events@)) is Err,
        },
{
    let ghost s = event_views(events@);
    let signals = match build_signal_projections(events.as_slice()) {
        Ok(p) => p,
        Err(e) => return Err(ObservabilityError::Projection(e)),
    };
    let decisions = match build_decision_projections(events) {
        Ok(p) => p,
        Err(e) => return Err(ObservabilityError::Projection(e)),
    };
    let mut names: Vec<String> = Vec::new();
    let mut correlations: Vec<String> = Vec::new();
    let mut quantities: Vec<Binary64> = Vec::new();
    let mut total_fills: usize = 0;
    let ghost is_fill = |e: StoredEventView| e.event_type == EventType::FillReceived;
    let mut i: usize = 0;
    proof {
        assert(s.take(0) =~= Seq::<StoredEventView>::empty());
        assert(strs(names@) =~= type_names(s.take(0)));
        assert(strs(correlations@).to_set() =~= Set::<Seq<char>>::empty());
    }
    while i < events.len()
        invariant
            i <= events.len(),
            s == event_views(events@),
            is_fill == (|e: StoredEventView| e.event_type == EventType::FillReceived),
            strs(names@) == type_names(s.take(i as int)),
            strictly_sorted(strs(correlations@)),
            strs(correlations@).to_set() == correlation_ids(s.take(i as int)),
            quantities@ == fill_quantities_of(s.take(i as int)),
            total_fills == s.take(i as int).filter(is_fill).len(),
            total_fills <= i,
        decreases events.len() - i,
    {
        let e = &events[i];
        proof {
            assert(s.take(i as int + 1).drop_last() =~= s.take(i as int));
            assert(s.take(i as int + 1) =~= s.take(i as int).push(e@));
            s.take(i as int).lemma_filter_push(e@, is_fill);
            s.take(i as int).lemma_filter_len(is_fill);
        }
        let ghost nb = names@;
        names.push(owned(e.event_type.as_str()));
        proof {
            assert(strs(names@) =~= strs(nb).push(event_type_name(e.event_type)));
            assert(type_names(s.take(i as int + 1)) =~= type_names(s.take(i as int)).push(event_type_name(e.event_type)));
        }
        match &e.linkage.correlation_id {
            Some(c) => {
                if !blank(c.as_str()) {
                    insert_sorted(&mut correlations, c.clone());
                }
            },
            None => {},
        }
        if e.event_type == EventType::FillReceived {
            total_fills = total_fills + 1;
            match &e.payload {
                EventPayload::FillReceived(p) => {
                    quantities.push(p.quantity);
                },
                _ => {},
            }
        }
        i = i + 1;
    }
    proof {
        assert(s.take(events.len() as int) =~= s);
        lemma_sorted_elements_distinct(strs(correlations@));
        strs(correlations@).unique_seq_to_set();
    }
    let mut distinct: Vec<String> = Vec::new();
    let mut k: usize = 0;
    proof {
        assert(strs(names@).take(0).to_set() =~= Set::<Seq<char>>::empty());
        assert(strs(distinct@).to_set() =~= Set::<Seq<char>>::empty());
    }
    while k < names.len()
        invariant
            k <= names.len(),
            strictly_sorted(strs(distinct@)),
            strs(distinct@).to_set() == strs(names@).take(k as int).to_set(),
        decreases names.len() - k,
    {
        proof {
            assert(strs(names@).take(k as int + 1) =~= strs(names@).take(k as int).push(names@[k as int]@));
            strs(names@).take(k as int).lemma_push_to_set_commute(names@[k as int]@);
        }
        insert_sorted(&mut distinct, names[k].clone());
        k = k + 1;
    }
    proof {
        assert(strs(names@).take(names.len() as int) =~= strs(names@));
    }
    let mut counts: Vec<(String, usize)> = Vec::new();
    let mut m: usize = 0;
    while m < distinct.len()
        invariant
            m <= distinct.len(),
            counts@.map_values(|x: (String, usize)| x.0@) == strs(distinct@).take(m as int),
            forall|j: int| 0 <= j < m ==> (#[trigger] counts@[j]).1 == occurrences(strs(names@), counts@[j].0@),
        decreases distinct.len() - m,
    {
        let c = count_occurrences(&names, distinct[m].as_str());
        let entry = (distinct[m].clone(), c);
        let ghost before = counts@;
        counts.push(entry);
        proof {
            assert(entry.0@ == distinct@[m as int]@);
            assert(strs(distinct@).take(m as int + 1) =~= strs(distinct@).take(m as int).push(distinct@[m as int]@));
            assert(counts@ =~= before.push(entry));
            assert(counts@.map_values(|x: (String, usize)| x.0@) =~= strs(distinct@).take(m as int + 1));
            assert forall|j: int| 0 <= j < m + 1 implies (#[trigger] counts@[j]).1 == occurrences(
                strs(names@),
                counts@[j].0@,
            ) by {
                if j < m {
                    assert(counts@[j] == before[j]);
                }
            }
        }
        m = m + 1;
    }
    proof {
        assert(strs(distinct@).take(distinct.len() as int) =~= strs(distinct@));
    }
    let with_fills = count_with_fills(&decisions);
    let confirmed = count_confirmed(&signals, false);
    let vetoed = count_confirmed(&signals, true);
    let summary = ObservabilitySummary {
        total_events: events.len(),
        total_signals: signals.len(),
        total_decisions: decisions.len(),
        confirmed_signals: confirmed,
        vetoed_signals: vetoed,
        decisions_with_fills: with_fills,
        decisions_without_fills: decisions.len() - with_fills,
        total_fills,
        fill_quantities: quantities,
        unique_correlation_ids: correlations.len(),
        event_counts_by_type: counts,
    };
    Ok(summary)
}

/// The summary of a store's log.
pub fn summary_from_store(store: &JsonlEventStore) -> (r: Result<ObservabilitySummary, ObservabilityError>)
    ensures
        match r {
            Ok(sum) => all_decode(store@) && decision_projections_of(store@) is Ok && summarises(
                sum,
                store@,
            ),
            Err(e) => !all_decode(store@) || decision_projections_of(store@) is Err,
        },
{
    let events = store.read_all();
    build_observability_summary(&events)
}

} // verus!
