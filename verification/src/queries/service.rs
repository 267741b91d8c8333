//! The query service: the queries of this library asked of one event store.
use vstd::prelude::*;

use crate::codecs::{all_decode, decode_error};
use crate::projections::{
    build_signal_projections, signal_projections_of, ProjectionError, ProjectionErrorView,
    SignalProjection, SignalProjectionView,
};
use crate::projections::signal::{position_of, projection_views};
use crate::projections::decision::{
    build_decision_projections, copy_projection, decision_keys_of, decision_projections_of,
    projection_views as decision_views, DecisionProjection, DecisionProjectionView,
};
use crate::queries::boundary::{
    decision_boundary_of, decision_execution_boundary, fill_boundary_of, fill_execution_boundary,
    ExecutionBoundaryReport,
};
use crate::queries::error::{QueryError, QueryErrorView};
use crate::queries::governance::{
    decision_governance, decision_governance_of, signal_governance, signal_governance_of,
    DecisionGovernanceReport, SignalGovernanceReport,
};
use crate::queries::lifecycle::{order_lifecycle, order_lifecycle_of, OrderLifecycleReport};
use crate::queries::lineage::{decision_lineage, decision_lineage_of, DecisionLineageReport};
use crate::queries::promotion::{
    decision_promotion_of, decision_promotion_policy, order_promotion_of, order_promotion_policy,
    order_submission_of, order_submission_policy, signal_promotion_of, signal_promotion_policy,
    DecisionPromotionReport, OrderPromotionReport, OrderSubmissionPolicyReport,
    SignalPromotionReport,
};
use crate::queries::readiness::{
    decision_readiness, decision_readiness_of, fill_readiness, fill_readiness_of, signal_readiness,
    signal_readiness_of, DecisionReadiness, FillReadiness, SignalReadiness,
};
use crate::queries::support::answers;
use crate::store::{event_views, JsonlEventStore, StoredEvent, StoredEventView};
use crate::text::same_text;

verus! {

/// The answer of a projection query: the projections of a log that decodes, or
/// the codec error of the first event that does not.
pub open spec fn projects(
    r: Result<Seq<SignalProjectionView>, QueryErrorView>,
    s: Seq<StoredEventView>,
    expected: Seq<SignalProjectionView>,
) -> bool {
    match r {
        Ok(ps) => all_decode(s) && ps == expected,
        Err(e) => !all_decode(s) && e == QueryErrorView::Projection(ProjectionErrorView::Codec(decode_error(s))),
    }
}

pub open spec fn projected(r: Result<Vec<SignalProjection>, QueryError>) -> Result<Seq<SignalProjectionView>, QueryErrorView> {
    match r {
        Ok(ps) => Ok(projection_views(ps@)),
        Err(e) => Err(e@),
    }
}

#[derive(Clone, Copy)]
pub struct QueryService<'a> {
    store: &'a JsonlEventStore,
}

impl<'a> View for QueryService<'a> {
    type V = Seq<StoredEventView>;

    closed spec fn view(&self) -> Seq<StoredEventView> {
        self.store@
    }
}

impl<'a> QueryService<'a> {
    pub fn new(store: &'a JsonlEventStore) -> (r: Self)
        ensures
            r@ == store@,
            r.store_spec() == store,
    {
        QueryService { store }
    }

    pub closed spec fn store_spec(&self) -> &'a JsonlEventStore {
        self.store
    }

    pub fn store_ref(&self) -> (r: &'a JsonlEventStore)
        ensures
            r == self.store_spec(),
            r@ == self@,
    {
        self.store
    }

    pub fn all_events(&self) -> (r: Result<Vec<StoredEvent>, QueryError>)
        ensures
            r matches Ok(v) && event_views(v@) == self@,
    {
        Ok(self.store.read_all())
    }

    fn signal_projections(&self) -> (r: Result<Vec<SignalProjection>, QueryError>)
        ensures
            projects(projected(r), self@, signal_projections_of(self@)),
    {
        let events = self.store.read_all();
        match build_signal_projections(events.as_slice()) {
            Ok(ps) => Ok(ps),
            Err(e) => Err(QueryError::Projection(e)),
        }
    }

    /// The projections of all signals, in the order the signals first appear.
    pub fn all_signal_projections(&self) -> (r: Result<Vec<SignalProjection>, QueryError>)
        ensures
            projects(projected(r), self@, signal_projections_of(self@)),
    {
        self.signal_projections()
    }

    /// The projection of one signal.
    pub fn signal_projection(&self, signal_id: &str) -> (r: Result<Option<SignalProjection>, QueryError>)
        ensures
            match r {
                Ok(o) => all_decode(self@) && match position_of(signal_projections_of(self@), signal_id@) {
                    Some(i) => o matches Some(p) && p@ == signal_projections_of(self@)[i],
                    None => o is None,
                },
                Err(e) => !all_decode(self@) && e@ == QueryErrorView::Projection(
                    ProjectionErrorView::Codec(decode_error(self@)),
                ),
            },
    {
        let got = self.signal_projections();
        let ps = match got {
            Ok(ps) => ps,
            Err(e) => return Err(e),
        };
        let ghost v = projection_views(ps@);
        proof {
            assert(projected(got) == Ok::<Seq<SignalProjectionView>, QueryErrorView>(v));
            assert(v == signal_projections_of(self@));
            assert(all_decode(self@));
        }
        let mut k: usize = 0;
        while k < ps.len()
            invariant
                k <= ps.len(),
                v == projection_views(ps@),
                position_of(v.take(k as int), signal_id@) is None,
            v == signal_projections_of(self@),
            all_decode(self@),
            decreases ps.len() - k,
        {
            proof {
                assert(v.take(k as int + 1).drop_last() =~= v.take(k as int));
            }
            if same_text(ps[k].signal_id.as_str(), signal_id) {
                proof {
                    assert(position_of(v.take(k as int + 1), signal_id@) == Some(k as int));
                    lemma_position_in_prefix(v, k as int + 1, signal_id@);
                }
                proof {
                    assert(v[k as int] == ps@[k as int]@);
                }
                return Ok(Some(ps[k].clone_projection()));
            }
            k = k + 1;
        }
        proof {
            assert(v.take(k as int) =~= v);
        }
        Ok(None)
    }

    /// The projections of the confirmed signals.
    pub fn confirmed_signals(&self) -> (r: Result<Vec<SignalProjection>, QueryError>)
        ensures
            projects(
                projected(r),
                self@,
                signal_projections_of(self@).filter(|p: SignalProjectionView| p.confirmed),
            ),
    {
        let ps = match self.signal_projections() {
            Ok(ps) => ps,
            Err(e) => return Err(e),
        };
        let ghost v = projection_views(ps@);
        let ghost f = |p: SignalProjectionView| p.confirmed;
        let mut out: Vec<SignalProjection> = Vec::new();
        let mut k: usize = 0;
        while k < ps.len()
            invariant
                k <= ps.len(),
                v == projection_views(ps@),
                f == (|p: SignalProjectionView| p.confirmed),
                projection_views(out@) == v.take(k as int).filter(f),
            decreases ps.len() - k,
        {
            let ghost x = v[k as int];
            proof {
                assert(v.take(k as int + 1) =~= v.take(k as int).push(x));
                v.take(k as int).lemma_filter_push(x, f);
                assert(x == ps@[k as int]@);
            }
            if ps[k].confirmed {
                let c = ps[k].clone_projection();
                let ghost before = out@;
                out.push(c);
                proof {
                    assert(projection_views(out@) =~= projection_views(before).push(c@));
                }
            }
            k = k + 1;
        }
        proof {
            assert(v.take(k as int) =~= v);
        }
        Ok(out)
    }

    /// The projections of the vetoed signals.
    pub fn vetoed_signals(&self) -> (r: Result<Vec<SignalProjection>, QueryError>)
        ensures
            projects(
                projected(r),
                self@,
                signal_projections_of(self@).filter(|p: SignalProjectionView| p.vetoed),
            ),
    {
        let ps = match self.signal_projections() {
            Ok(ps) => ps,
            Err(e) => return Err(e),
        };
        let ghost v = projection_views(ps@);
        let ghost f = |p: SignalProjectionView| p.vetoed;
        let mut out: Vec<SignalProjection> = Vec::new();
        let mut k: usize = 0;
        while k < ps.len()
            invariant
                k <= ps.len(),
                v == projection_views(ps@),
                f == (|p: SignalProjectionView| p.vetoed),
                projection_views(out@) == v.take(k as int).filter(f),
            decreases ps.len() - k,
        {
            let ghost x = v[k as int];
            proof {
                assert(v.take(k as int + 1) =~= v.take(k as int).push(x));
                v.take(k as int).lemma_filter_push(x, f);
                assert(x == ps@[k as int]@);
            }
            if ps[k].vetoed {
                let c = ps[k].clone_projection();
                let ghost before = out@;
                out.push(c);
                proof {
                    assert(projection_views(out@) =~= projection_views(before).push(c@));
                }
            }
            k = k + 1;
        }
        proof {
            assert(v.take(k as int) =~= v);
        }
        Ok(out)
    }

    /// The events whose linkage carries the signal `signal_id`, in log order.
    pub fn timeline_for_signal(&self, signal_id: &str) -> (r: Result<Vec<StoredEvent>, QueryError>)
        ensures
            r matches Ok(v) && event_views(v@) == self@.filter(
                |e: StoredEventView| e.linkage.signal_id == Some(signal_id@),
            ),
    {
        Ok(self.store.find_by_signal_id(signal_id))
    }

    /// The events whose linkage carries the decision `decision_id`, in log order.
    pub fn timeline_for_decision(&self, decision_id: &str) -> (r: Result<Vec<StoredEvent>, QueryError>)
        ensures
            r matches Ok(v) && event_views(v@) == self@.filter(
                |e: StoredEventView| e.linkage.decision_id == Some(decision_id@),
            ),
    {
        Ok(self.store.find_by_decision_id(decision_id))
    }

    /// The events whose linkage carries the correlation `correlation_id`, in log order.
    pub fn timeline_for_correlation(&self, correlation_id: &str) -> (r: Result<Vec<StoredEvent>, QueryError>)
        ensures
            r matches Ok(v) && event_views(v@) == self@.filter(
                |e: StoredEventView| e.linkage.correlation_id == Some(correlation_id@),
            ),
    {
        Ok(self.store.find_by_correlation_id(correlation_id))
    }

    pub fn signal_readiness(&self, signal_id: &str) -> (r: Result<Option<SignalReadiness>, QueryError>)
        ensures
            answers(r, self@, signal_readiness_of(self@, signal_id@)),
    {
        let events = self.store.read_all();
        signal_readiness(events.as_slice(), signal_id)
    }

    pub fn signal_governance(&self, signal_id: &str) -> (r: Result<Option<SignalGovernanceReport>, QueryError>)
        ensures
            answers(r, self@, signal_governance_of(self@, signal_id@)),
    {
        let events = self.store.read_all();
        signal_governance(events.as_slice(), signal_id)
    }

    pub fn signal_promotion_policy(&self, signal_id: &str) -> (r: Result<Option<SignalPromotionReport>, QueryError>)
        ensures
            answers(r, self@, signal_promotion_of(self@, signal_id@)),
    {
        let events = self.store.read_all();
        signal_promotion_policy(events.as_slice(), signal_id)
    }

    pub fn decision_readiness(&self, decision_id: &str) -> (r: Result<Option<DecisionReadiness>, QueryError>)
        ensures
            answers(r, self@, decision_readiness_of(self@, decision_id@)),
    {
        let events = self.store.read_all();
        decision_readiness(events.as_slice(), decision_id)
    }

    pub fn decision_governance(&self, decision_id: &str) -> (r: Result<Option<DecisionGovernanceReport>, QueryError>)
        ensures
            answers(r, self@, decision_governance_of(self@, decision_id@)),
    {
        let events = self.store.read_all();
        decision_governance(events.as_slice(), decision_id)
    }

    pub fn decision_promotion_policy(&self, decision_id: &str) -> (r: Result<Option<DecisionPromotionReport>, QueryError>)
        ensures
            answers(r, self@, decision_promotion_of(self@, decision_id@)),
    {
        let events = self.store.read_all();
        decision_promotion_policy(events.as_slice(), decision_id)
    }

    pub fn decision_lineage(&self, decision_id: &str) -> (r: Result<Option<DecisionLineageReport>, QueryError>)
        ensures
            answers(r, self@, decision_lineage_of(self@, decision_id@)),
    {
        let events = self.store.read_all();
        decision_lineage(events.as_slice(), decision_id)
    }

    pub fn fill_readiness(&self, fill_id: &str) -> (r: Result<Option<FillReadiness>, QueryError>)
        ensures
            answers(r, self@, fill_readiness_of(self@, fill_id@)),
    {
        let events = self.store.read_all();
        fill_readiness(events.as_slice(), fill_id)
    }

    pub fn decision_execution_boundary(&self, decision_id: &str) -> (r: Result<Option<ExecutionBoundaryReport>, QueryError>)
        ensures
            answers(r, self@, decision_boundary_of(self@, decision_id@)),
    {
        let events = self.store.read_all();
        decision_execution_boundary(events.as_slice(), decision_id)
    }

    pub fn fill_execution_boundary(&self, fill_id: &str) -> (r: Result<Option<ExecutionBoundaryReport>, QueryError>)
        ensures
            answers(r, self@, fill_boundary_of(self@, fill_id@)),
    {
        let events = self.store.read_all();
        fill_execution_boundary(events.as_slice(), fill_id)
    }

    pub fn order_lifecycle(&self, order_id: &str) -> (r: Result<Option<OrderLifecycleReport>, QueryError>)
        ensures
            answers(r, self@, order_lifecycle_of(self@, order_id@)),
    {
        let events = self.store.read_all();
        order_lifecycle(events.as_slice(), order_id)
    }

    pub fn order_promotion_policy(&self, order_id: &str) -> (r: Result<Option<OrderPromotionReport>, QueryError>)
        ensures
            answers(r, self@, order_promotion_of(self@, order_id@)),
    {
        let events = self.store.read_all();
        order_promotion_policy(events.as_slice(), order_id)
    }

    pub fn order_submission_policy(&self, order_id: &str) -> (r: Result<Option<OrderSubmissionPolicyReport>, QueryError>)
        ensures
            answers(r, self@, order_submission_of(self@, order_id@)),
    {
        let events = self.store.read_all();
        order_submission_policy(events.as_slice(), order_id)
    }
}

/// A position found in a prefix is the position in the whole.
proof fn lemma_position_in_prefix(v: Seq<SignalProjectionView>, n: int, id: Seq<char>)
    requires
        0 <= n <= v.len(),
        position_of(v.take(n), id) is Some,
    ensures
        position_of(v, id) == position_of(v.take(n), id),
    decreases v.len(),
{
    if v.len() > n {
        assert(v.drop_last().take(n) =~= v.take(n));
        lemma_position_in_prefix(v.drop_last(), n, id);
    } else {
        assert(v.take(n) =~= v);
    }
}

/// The answer of a decision projection query: the projections of the log that
/// pass `keep`, or the error that stops the projections.
pub open spec fn decisions_answer(
    r: Result<Vec<DecisionProjection>, QueryError>,
    s: Seq<StoredEventView>,
    keep: spec_fn(DecisionProjectionView) -> bool,
) -> bool {
    match r {
        Ok(v) => all_decode(s) && (decision_projections_of(s) matches Ok(ps) && decision_views(v@) == ps.filter(keep)),
        Err(e) => {
            ||| !all_decode(s) && e@ == QueryErrorView::Projection(ProjectionErrorView::Codec(decode_error(s)))
            ||| all_decode(s) && (decision_keys_of(s) matches Err(m) && e@ == QueryErrorView::Projection(
                ProjectionErrorView::InvalidState(m),
            ))
        },
    }
}

impl<'a> QueryService<'a> {
    fn decisions_where(&self, which: u8) -> (r: Result<Vec<DecisionProjection>, QueryError>)
        requires
            which < 3,
        ensures
            decisions_answer(r, self@, decision_filter(which)),
    {
        let events = self.store.read_all();
        let ps = match build_decision_projections(&events) {
            Ok(ps) => ps,
            Err(e) => return Err(QueryError::Projection(e)),
        };
        let ghost v = decision_views(ps@);
        let ghost f = decision_filter(which);
        let mut out: Vec<DecisionProjection> = Vec::new();
        let mut k: usize = 0;
        while k < ps.len()
            invariant
                k <= ps.len(),
                which < 3,
                v == decision_views(ps@),
                f == decision_filter(which),
                decision_views(out@) == v.take(k as int).filter(f),
            decreases ps.len() - k,
        {
            let ghost x = v[k as int];
            proof {
                assert(v.take(k as int + 1) =~= v.take(k as int).push(x));
                v.take(k as int).lemma_filter_push(x, f);
                assert(x == ps@[k as int]@);
            }
            let keep = if which == 0 {
                true
            } else if which == 1 {
                ps[k].fills_count > 0
            } else {
                ps[k].fills_count == 0
            };
            if keep {
                let c = copy_projection(&ps[k]);
                let ghost before = out@;
                out.push(c);
                proof {
                    assert(decision_views(out@) =~= decision_views(before).push(c@));
                }
            }
            k = k + 1;
        }
        proof {
            assert(v.take(k as int) =~= v);
        }
        Ok(out)
    }

    /// The projections of all decisions, in the order they first appear.
    pub fn all_decision_projections(&self) -> (r: Result<Vec<DecisionProjection>, QueryError>)
        ensures
            decisions_answer(r, self@, decision_filter(0)),
    {
        self.decisions_where(0)
    }

    /// The projections of the decisions with at least one fill.
    pub fn decisions_with_fills(&self) -> (r: Result<Vec<DecisionProjection>, QueryError>)
        ensures
            decisions_answer(r, self@, decision_filter(1)),
    {
        self.decisions_where(1)
    }

    /// The projections of the decisions without fills.
    pub fn decisions_without_fills(&self) -> (r: Result<Vec<DecisionProjection>, QueryError>)
        ensures
            decisions_answer(r, self@, decision_filter(2)),
    {
        self.decisions_where(2)
    }

    /// The projection of one decision.
    pub fn decision_projection(&self, decision_id: &str) -> (r: Result<Option<DecisionProjection>, QueryError>)
        ensures
            match r {
                Ok(Some(p)) => all_decode(self@) && (decision_projections_of(self@) matches Ok(ps) && ps.contains(p@)
                    && p.decision_id@ == decision_id@),
                Ok(None) => all_decode(self@) && (decision_projections_of(self@) matches Ok(ps) && forall|i: int|
                    0 <= i < ps.len() ==> (#[trigger] ps[i]).decision_id != decision_id@),
                Err(e) => decisions_answer(Err(e), self@, decision_filter(0)),
            },
    {
        let ps = match self.decisions_where(0) {
            Ok(ps) => ps,
            Err(e) => return Err(e),
        };
        let ghost v = decision_views(ps@);
        proof {
            let all = decision_projections_of(self@)->Ok_0;
            lemma_filter_all(all, decision_filter(0));
        }
        let mut k: usize = 0;
        while k < ps.len()
            invariant
                k <= ps.len(),
                v == decision_views(ps@),
                all_decode(self@),
                decision_projections_of(self@) == Ok::<Seq<DecisionProjectionView>, Seq<char>>(v),
                forall|i: int| 0 <= i < k ==> (#[trigger] v[i]).decision_id != decision_id@,
            decreases ps.len() - k,
        {
            proof {
                assert(v[k as int] == ps@[k as int]@);
            }
            if same_text(ps[k].decision_id.as_str(), decision_id) {
                let c = copy_projection(&ps[k]);
                proof {
                    assert(v.contains(c@));
                }
                return Ok(Some(c));
            }
            k = k + 1;
        }
        Ok(None)
    }
}

/// The decisions a query keeps: all of them, those with fills, those without.
pub open spec fn decision_filter(which: u8) -> spec_fn(DecisionProjectionView) -> bool {
    |p: DecisionProjectionView|
        if which == 0 {
            true
        } else if which == 1 {
            p.fills_count > 0
        } else {
            p.fills_count == 0
        }
}

proof fn lemma_filter_all(s: Seq<DecisionProjectionView>, f: spec_fn(DecisionProjectionView) -> bool)
    requires
        forall|x: DecisionProjectionView| #[trigger] f(x),
    ensures
        s.filter(f) == s,
    decreases s.len(),
{
    reveal(Seq::filter);
    if s.len() > 0 {
        lemma_filter_all(s.drop_last(), f);
        assert(s.drop_last().push(s.last()) =~= s);
    } else {
        assert(s.filter(f) =~= s);
    }
}

} // verus!
