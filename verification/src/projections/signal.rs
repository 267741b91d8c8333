//! The signal projection: one record per signal, folded from the log in order.
use vstd::prelude::*;

use crate::codecs::{all_decode, check_decodes, decode_error};
use crate::events::{EventPayload, EventType, PayloadView, VetoScope};
use crate::projections::error::{ProjectionError, ProjectionErrorView};
use crate::store::{event_views, StoredEvent, StoredEventView};
use crate::text::{clone_opt, clone_strs, opt_view, owned, same_text, strs};

verus! {

#[derive(Debug, Clone, PartialEq, Eq)]
pub struct SignalProjection {
    pub signal_id: String,
    pub hypothesis_id: Option<String>,
    pub instrument: Option<String>,
    pub timeframe: Option<String>,
    pub generated: bool,
    pub confirmed: bool,
    pub vetoed: bool,
    pub decision_ids: Vec<String>,
    pub last_event_type: EventType,
    pub correlation_id: Option<String>,
}

pub struct SignalProjectionView {
    pub signal_id: Seq<char>,
    pub hypothesis_id: Option<Seq<char>>,
    pub instrument: Option<Seq<char>>,
    pub timeframe: Option<Seq<char>>,
    pub generated: bool,
    pub confirmed: bool,
    pub vetoed: bool,
    pub decision_ids: Seq<Seq<char>>,
    pub last_event_type: EventType,
    pub correlation_id: Option<Seq<char>>,
}

impl View for SignalProjection {
    type V = SignalProjectionView;

    open spec fn view(&self) -> SignalProjectionView {
        SignalProjectionView {
            signal_id: self.signal_id@,
            hypothesis_id: opt_view(self.hypothesis_id),
            instrument: opt_view(self.instrument),
            timeframe: opt_view(self.timeframe),
            generated: self.generated,
            confirmed: self.confirmed,
            vetoed: self.vetoed,
            decision_ids: strs(self.decision_ids@),
            last_event_type: self.last_event_type,
            correlation_id: opt_view(self.correlation_id),
        }
    }
}

pub open spec fn or_else(a: Option<Seq<char>>, b: Option<Seq<char>>) -> Option<Seq<char>> {
    match a {
        Some(x) => Some(x),
        None => b,
    }
}

/// The position of the projection of `id` in `ps`, if it has one.
pub open spec fn position_of(ps: Seq<SignalProjectionView>, id: Seq<char>) -> Option<int>
    decreases ps.len(),
{
    if ps.len() == 0 {
        None
    } else {
        match position_of(ps.drop_last(), id) {
            Some(i) => Some(i),
            None => if ps.last().signal_id == id {
                Some(ps.len() - 1)
            } else {
                None
            },
        }
    }
}

pub open spec fn fresh_projection(id: Seq<char>, t: EventType) -> SignalProjectionView {
    SignalProjectionView {
        signal_id: id,
        hypothesis_id: None,
        instrument: None,
        timeframe: None,
        generated: false,
        confirmed: false,
        vetoed: false,
        decision_ids: Seq::empty(),
        last_event_type: t,
        correlation_id: None,
    }
}

/// The projections with the one of `id` replaced by `f` of it, or a fresh one
/// appended and so replaced when `id` has none yet.
pub open spec fn touch(
    ps: Seq<SignalProjectionView>,
    id: Seq<char>,
    t: EventType,
    f: spec_fn(SignalProjectionView) -> SignalProjectionView,
) -> Seq<SignalProjectionView> {
    match position_of(ps, id) {
        Some(i) => ps.update(i, f(ps[i])),
        None => ps.push(f(fresh_projection(id, t))),
    }
}

pub open spec fn projection_step(ps: Seq<SignalProjectionView>, e: StoredEventView) -> Seq<SignalProjectionView> {
    let l = e.linkage;
    match e.payload {
        PayloadView::SignalGenerated(p) => touch(
            ps,
            p.signal_id,
            EventType::SignalGenerated,
            |x: SignalProjectionView|
                SignalProjectionView {
                    generated: true,
                    hypothesis_id: or_else(p.hypothesis_id, l.hypothesis_id),
                    instrument: Some(p.instrument),
                    timeframe: Some(p.timeframe),
                    correlation_id: or_else(x.correlation_id, l.correlation_id),
                    last_event_type: EventType::SignalGenerated,
                    ..x
                },
        ),
        PayloadView::SignalConfirmed(p) => touch(
            ps,
            p.signal_id,
            EventType::SignalConfirmed,
            |x: SignalProjectionView|
                SignalProjectionView {
                    confirmed: true,
                    hypothesis_id: or_else(x.hypothesis_id, l.hypothesis_id),
                    correlation_id: or_else(x.correlation_id, l.correlation_id),
                    last_event_type: EventType::SignalConfirmed,
                    ..x
                },
        ),
        PayloadView::VetoRaised(p) => if p.scope == VetoScope::Signal {
            touch(
                ps,
                p.target_id,
                EventType::VetoRaised,
                |x: SignalProjectionView|
                    SignalProjectionView {
                        vetoed: true,
                        hypothesis_id: or_else(x.hypothesis_id, l.hypothesis_id),
                        correlation_id: or_else(x.correlation_id, l.correlation_id),
                        last_event_type: EventType::VetoRaised,
                        ..x
                    },
            )
        } else {
            ps
        },
        PayloadView::DecisionFormed(p) => match l.signal_id {
            Some(sid) => touch(
                ps,
                sid,
                EventType::DecisionFormed,
                |x: SignalProjectionView|
                    SignalProjectionView {
                        decision_ids: if x.decision_ids.contains(p.decision_id) {
                            x.decision_ids
                        } else {
                            x.decision_ids.push(p.decision_id)
                        },
                        hypothesis_id: or_else(x.hypothesis_id, l.hypothesis_id),
                        correlation_id: or_else(x.correlation_id, l.correlation_id),
                        last_event_type: EventType::DecisionFormed,
                        ..x
                    },
            ),
            None => ps,
        },
        _ => ps,
    }
}

/// The projections of all signals of a log, in the order the signals first appear.
pub open spec fn signal_projections_of(s: Seq<StoredEventView>) -> Seq<SignalProjectionView>
    decreases s.len(),
{
    if s.len() == 0 {
        Seq::empty()
    } else {
        projection_step(signal_projections_of(s.drop_last()), s.last())
    }
}

pub open spec fn projection_views(v: Seq<SignalProjection>) -> Seq<SignalProjectionView> {
    v.map_values(|p: SignalProjection| p@)
}

/// The position of the projection of `id`, adding a fresh one when there is none.
fn ensure_projection(ps: &mut Vec<SignalProjection>, id: &String, t: EventType) -> (i: usize)
    ensures
        position_of(projection_views(old(ps)@), id@) matches Some(j) ==> {
            &&& i == j
            &&& final(ps)@ == old(ps)@
        },
        position_of(projection_views(old(ps)@), id@) is None ==> {
            &&& i == old(ps)@.len()
            &&& projection_views(final(ps)@) == projection_views(old(ps)@).push(fresh_projection(id@, t))
        },
        i < final(ps)@.len(),
        position_of(projection_views(final(ps)@), id@) == Some(i as int),
{
    let ghost v = projection_views(ps@);
    let mut k: usize = 0;
    while k < ps.len()
        invariant
            k <= ps.len(),
            v == projection_views(ps@),
            position_of(v.take(k as int), id@) is None,
        decreases ps.len() - k,
    {
        proof {
            assert(v.take(k as int + 1).drop_last() =~= v.take(k as int));
        }
        if same_text(ps[k].signal_id.as_str(), id.as_str()) {
            proof {
                assert(position_of(v.take(k as int + 1), id@) == Some(k as int));
                lemma_position_prefix(v, k as int + 1, id@);
            }
            return k;
        }
        k = k + 1;
    }
    proof {
        assert(v.take(k as int) =~= v);
    }
    let fresh = SignalProjection {
        signal_id: id.clone(),
        hypothesis_id: None,
        instrument: None,
        timeframe: None,
        generated: false,
        confirmed: false,
        vetoed: false,
        decision_ids: Vec::new(),
        last_event_type: t,
        correlation_id: None,
    };
    let ghost before = ps@;
    ps.push(fresh);
    proof {
        assert(strs(fresh.decision_ids@) =~= Seq::empty());
        assert(projection_views(ps@) =~= projection_views(before).push(fresh_projection(id@, t)));
        assert(projection_views(ps@).drop_last() =~= v);
    }
    k
}

/// A position found in a prefix is the position in the whole.
proof fn lemma_position_prefix(v: Seq<SignalProjectionView>, n: int, id: Seq<char>)
    requires
        0 <= n <= v.len(),
        position_of(v.take(n), id) is Some,
    ensures
        position_of(v, id) == position_of(v.take(n), id),
    decreases v.len(),
{
    if v.len() > n {
        assert(v.drop_last().take(n) =~= v.take(n));
        lemma_position_prefix(v.drop_last(), n, id);
    } else {
        assert(v.take(n) =~= v);
    }
}

/// The projections of all signals of the log, in the order the signals first appear.
pub fn build_signal_projections(events: &[StoredEvent]) -> (r: Result<Vec<SignalProjection>, ProjectionError>)
    ensures
        match r {
            Ok(ps) => all_decode(event_views(events@)) && projection_views(ps@) == signal_projections_of(
                event_views(events@),
            ),
            Err(e) => !all_decode(event_views(events@)) && e@ == ProjectionErrorView::Codec(
                decode_error(event_views(events@)),
            ),
        },
{
    let ghost s = event_views(events@);
    match check_decodes(events) {
        Err(e) => return Err(ProjectionError::Codec(e)),
        Ok(_) => {},
    }
    let mut ps: Vec<SignalProjection> = Vec::new();
    proof {
        assert(s.take(0) =~= Seq::<StoredEventView>::empty());
        assert(projection_views(ps@) =~= Seq::empty());
    }
    let mut i: usize = 0;
    while i < events.len()
        invariant
            i <= events.len(),
            s == event_views(events@),
            all_decode(s),
            projection_views(ps@) == signal_projections_of(s.take(i as int)),
        decreases events.len() - i,
    {
        proof {
            assert(s.take(i as int + 1).drop_last() =~= s.take(i as int));
        }
        observe(&mut ps, &events[i]);
        i = i + 1;
    }
    proof {
        assert(s.take(i as int) =~= s);
    }
    Ok(ps)
}

fn observe(ps: &mut Vec<SignalProjection>, e: &StoredEvent)
    ensures
        projection_views(final(ps)@) == projection_step(projection_views(old(ps)@), e@),
{
    let ghost v0 = projection_views(ps@);
    let l = &e.linkage;
    match &e.payload {
        EventPayload::SignalGenerated(p) => {
            let i = ensure_projection(ps, &p.signal_id, EventType::SignalGenerated);
            let ghost v1 = projection_views(ps@);
            let mut x = ps[i].clone_projection();
            x.generated = true;
            x.hypothesis_id = match &p.hypothesis_id {
                Some(h) => Some(h.clone()),
                None => clone_opt(&l.hypothesis_id),
            };
            x.instrument = Some(p.instrument.clone());
            x.timeframe = Some(p.timeframe.clone());
            if x.correlation_id.is_none() {
                x.correlation_id = clone_opt(&l.correlation_id);
            }
            x.last_event_type = EventType::SignalGenerated;
            ps.set(i, x);
            proof {
                assert(projection_views(ps@) =~= v1.update(i as int, x@));
            }
        },
        EventPayload::SignalConfirmed(p) => {
            let i = ensure_projection(ps, &p.signal_id, EventType::SignalConfirmed);
            let ghost v1 = projection_views(ps@);
            let mut x = ps[i].clone_projection();
            x.confirmed = true;
            if x.hypothesis_id.is_none() {
                x.hypothesis_id = clone_opt(&l.hypothesis_id);
            }
            if x.correlation_id.is_none() {
                x.correlation_id = clone_opt(&l.correlation_id);
            }
            x.last_event_type = EventType::SignalConfirmed;
            ps.set(i, x);
            proof {
                assert(projection_views(ps@) =~= v1.update(i as int, x@));
            }
        },
        EventPayload::VetoRaised(p) => {
            if p.scope == VetoScope::Signal {
                let i = ensure_projection(ps, &p.target_id, EventType::VetoRaised);
                let ghost v1 = projection_views(ps@);
                let mut x = ps[i].clone_projection();
                x.vetoed = true;
                if x.hypothesis_id.is_none() {
                    x.hypothesis_id = clone_opt(&l.hypothesis_id);
                }
                if x.correlation_id.is_none() {
                    x.correlation_id = clone_opt(&l.correlation_id);
                }
                x.last_event_type = EventType::VetoRaised;
                ps.set(i, x);
                proof {
                    assert(projection_views(ps@) =~= v1.update(i as int, x@));
                }
            }
        },
        EventPayload::DecisionFormed(p) => {
            match &l.signal_id {
                Some(sid) => {
                    let i = ensure_projection(ps, sid, EventType::DecisionFormed);
                    let ghost v1 = projection_views(ps@);
                    let mut x = ps[i].clone_projection();
                    let mut seen = false;
                    let mut k: usize = 0;
                    while k < x.decision_ids.len()
                        invariant
                            k <= x.decision_ids.len(),
                            seen == exists|j: int| 0 <= j < k && strs(x.decision_ids@)[j] == p.decision_id@,
                        decreases x.decision_ids.len() - k,
                    {
                        if same_text(x.decision_ids[k].as_str(), p.decision_id.as_str()) {
                            seen = true;
                            proof {
                                assert(strs(x.decision_ids@)[k as int] == p.decision_id@);
                            }
                        }
                        k = k + 1;
                    }
                    proof {
                        if seen {
                            let j = choose|j: int| 0 <= j < k && strs(x.decision_ids@)[j] == p.decision_id@;
                            assert(strs(x.decision_ids@).contains(p.decision_id@));
                        }
                        if strs(x.decision_ids@).contains(p.decision_id@) {
                            let j = choose|j: int| 0 <= j < strs(x.decision_ids@).len() && strs(x.decision_ids@)[j] == p.decision_id@;
                            assert(seen);
                        }
                    }
                    if !seen {
                        let ghost before = x.decision_ids@;
                        x.decision_ids.push(p.decision_id.clone());
                        proof {
                            assert(strs(x.decision_ids@) =~= strs(before).push(p.decision_id@));
                        }
                    }
                    if x.hypothesis_id.is_none() {
                        x.hypothesis_id = clone_opt(&l.hypothesis_id);
                    }
                    if x.correlation_id.is_none() {
                        x.correlation_id = clone_opt(&l.correlation_id);
                    }
                    x.last_event_type = EventType::DecisionFormed;
                    ps.set(i, x);
                    proof {
                        assert(projection_views(ps@) =~= v1.update(i as int, x@));
                    }
                },
                None => {},
            }
        },
        _ => {},
    }
}

impl SignalProjection {
    /// A copy of the projection.
    pub fn clone_projection(&self) -> (r: Self)
        ensures
            r@ == self@,
    {
        SignalProjection {
            signal_id: self.signal_id.clone(),
            hypothesis_id: clone_opt(&self.hypothesis_id),
            instrument: clone_opt(&self.instrument),
            timeframe: clone_opt(&self.timeframe),
            generated: self.generated,
            confirmed: self.confirmed,
            vetoed: self.vetoed,
            decision_ids: clone_strs(&self.decision_ids),
            last_event_type: self.last_event_type,
            correlation_id: clone_opt(&self.correlation_id),
        }
    }
}

} // verus!
