//! Scenario replays: a fixture's events are appended to a store and the
//! projections of the result are counted.
use vstd::prelude::*;

pub mod fixtures;

pub use fixtures::{
    confirmed_then_filled_signal, decision_with_multiple_fills, load_fixture_named,
    vetoed_signal_without_fill,
};

use crate::codecs::all_decode;
use crate::projections::decision::{
    build_decision_projections, decision_projections_of, projection_views as decision_views,
    DecisionProjection, DecisionProjectionView,
};
use crate::projections::signal::projection_views;
use crate::projections::{build_signal_projections, signal_projections_of, ProjectionError, SignalProjection};
use crate::queries::QueryError;
use crate::store::{append_batch, event_views, JsonlEventStore, StoreError, StoredEvent};
use crate::observability::count_where;
use crate::text::owned;

verus! {

#[derive(Debug)]
pub enum ScenarioError {
    Store(StoreError),
    Query(QueryError),
    Projection(ProjectionError),
    UnknownFixture(String),
}

impl ScenarioError {
    pub fn unknown_fixture(name: &str) -> (r: Self)
        ensures
            r matches ScenarioError::UnknownFixture(n) && n@ == name@,
    {
        ScenarioError::UnknownFixture(owned(name))
    }
}

/// The names of the scenario fixtures.
pub fn available_fixtures() -> (r: Vec<&'static str>)
    ensures
        r@.len() == 3,
        r@[0]@ == "confirmed_then_filled_signal"@,
        r@[1]@ == "vetoed_signal_without_fill"@,
        r@[2]@ == "decision_with_multiple_fills"@,
{
    vec!["confirmed_then_filled_signal", "vetoed_signal_without_fill", "decision_with_multiple_fills"]
}

/// A named sequence of events to replay.
#[derive(Debug, Clone, PartialEq, Eq)]
pub struct ScenarioFixture {
    pub name: String,
    pub description: Option<String>,
    pub events: Vec<StoredEvent>,
}

/// What a replay shows: the log's size, its projections and their counts.
#[derive(Debug, Clone, PartialEq, Eq)]
pub struct ReplayResult {
    pub total_events: usize,
    pub signal_projections: Vec<SignalProjection>,
    pub decision_projections: Vec<DecisionProjection>,
    pub confirmed_signals_count: usize,
    pub vetoed_signals_count: usize,
    pub decisions_with_fills_count: usize,
    pub decisions_without_fills_count: usize,
}

/// Replays fixtures into one store.
pub struct ReplayHarness<'a> {
    pub store: &'a mut JsonlEventStore,
}

impl<'a> ReplayHarness<'a> {
    pub fn new(store: &'a mut JsonlEventStore) -> (r: Self)
        ensures
            r.store@ == old(store)@,
    {
        ReplayHarness { store }
    }

    /// Appends a fixture's events and reports the projections of the log.
    pub fn run_fixture(&mut self, fixture: &ScenarioFixture) -> (r: Result<ReplayResult, ScenarioError>)
        ensures
            final(self).store@ == append_batch(old(self).store@, event_views(fixture.events@)).0,
            r matches Ok(res) ==> {
                let log = final(self).store@;
                &&& append_batch(old(self).store@, event_views(fixture.events@)).1 is Ok
                &&& all_decode(log)
                &&& res.total_events == log.len()
                &&& projection_views(res.signal_projections@) == signal_projections_of(log)
                &&& decision_projections_of(log) == Ok::<Seq<DecisionProjectionView>, Seq<char>>(
                    decision_views(res.decision_projections@),
                )
                &&& res.confirmed_signals_count == count_where(
                    signal_projections_of(log),
                    |p: crate::projections::SignalProjectionView| p.confirmed,
                )
                &&& res.vetoed_signals_count == count_where(
                    signal_projections_of(log),
                    |p: crate::projections::SignalProjectionView| p.vetoed,
                )
                &&& res.decisions_with_fills_count == count_where(
                    decision_views(res.decision_projections@),
                    |p: DecisionProjectionView| p.fills_count > 0,
                )
                &&& res.decisions_without_fills_count == count_where(
                    decision_views(res.decision_projections@),
                    |p: DecisionProjectionView| p.fills_count == 0,
                )
            },
    {
        match self.store.append_events(&fixture.events) {
            Ok(_) => {},
            Err(e) => return Err(ScenarioError::Store(e)),
        }
        let events = self.store.read_all();
        let signals = match build_signal_projections(events.as_slice()) {
            Ok(p) => p,
            Err(e) => return Err(ScenarioError::Projection(e)),
        };
        let decisions = match build_decision_projections(&events) {
            Ok(p) => p,
            Err(e) => return Err(ScenarioError::Projection(e)),
        };
        let ghost sv = projection_views(signals@);
        let ghost dv = decision_views(decisions@);
        let ghost fc = |p: crate::projections::SignalProjectionView| p.confirmed;
        let ghost fv = |p: crate::projections::SignalProjectionView| p.vetoed;
        let ghost fw = |p: DecisionProjectionView| p.fills_count > 0;
        let ghost fo = |p: DecisionProjectionView| p.fills_count == 0;
        let mut confirmed: usize = 0;
        let mut vetoed: usize = 0;
        let mut i: usize = 0;
        while i < signals.len()
            invariant
                i <= signals.len(),
                sv == projection_views(signals@),
                fc == (|p: crate::projections::SignalProjectionView| p.confirmed),
                fv == (|p: crate::projections::SignalProjectionView| p.vetoed),
                confirmed == sv.take(i as int).filter(fc).len(),
                vetoed == sv.take(i as int).filter(fv).len(),
                confirmed <= i,
                vetoed <= i,
            decreases signals.len() - i,
        {
            proof {
                assert(sv.take(i as int + 1) =~= sv.take(i as int).push(sv[i as int]));
                sv.take(i as int).lemma_filter_push(sv[i as int], fc);
                sv.take(i as int).lemma_filter_push(sv[i as int], fv);
                sv.take(i as int).lemma_filter_len(fc);
                sv.take(i as int).lemma_filter_len(fv);
                assert(sv[i as int] == signals@[i as int]@);
            }
            if signals[i].confirmed {
                confirmed = confirmed + 1;
            }
            if signals[i].vetoed {
                vetoed = vetoed + 1;
            }
            i = i + 1;
        }
        proof {
            assert(sv.take(i as int) =~= sv);
        }
        let mut with_fills: usize = 0;
        let mut without_fills: usize = 0;
        let mut k: usize = 0;
        while k < decisions.len()
            invariant
                k <= decisions.len(),
                dv == decision_views(decisions@),
                fw == (|p: DecisionProjectionView| p.fills_count > 0),
                fo == (|p: DecisionProjectionView| p.fills_count == 0),
                with_fills == dv.take(k as int).filter(fw).len(),
                without_fills == dv.take(k as int).filter(fo).len(),
                with_fills <= k,
                without_fills <= k,
            decreases decisions.len() - k,
        {
            proof {
                assert(dv.take(k as int + 1) =~= dv.take(k as int).push(dv[k as int]));
                dv.take(k as int).lemma_filter_push(dv[k as int], fw);
                dv.take(k as int).lemma_filter_push(dv[k as int], fo);
                dv.take(k as int).lemma_filter_len(fw);
                dv.take(k as int).lemma_filter_len(fo);
                assert(dv[k as int] == decisions@[k as int]@);
            }
            if decisions[k].fills_count > 0 {
                with_fills = with_fills + 1;
            } else {
                without_fills = without_fills + 1;
            }
            k = k + 1;
        }
        proof {
            assert(dv.take(k as int) =~= dv);
        }
        Ok(ReplayResult {
            total_events: events.len(),
            signal_projections: signals,
            decision_projections: decisions,
            confirmed_signals_count: confirmed,
            vetoed_signals_count: vetoed,
            decisions_with_fills_count: with_fills,
            decisions_without_fills_count: without_fills,
        })
    }
}

} // verus!
