//! What the signal projections of a log say of the log: one projection per
//! signal the log mentions, in the order of first mention, with the flags of
//! what the log saw.
use vstd::prelude::*;

use crate::events::{PayloadView, VetoScope};
use crate::projections::signal::{position_of, signal_projections_of, SignalProjectionView};
use crate::store::StoredEventView;

verus! {

/// The signal an event is about, if any: that of a generation or
/// confirmation, the target of a signal veto, or the signal a decision links.
pub open spec fn signal_of_event(e: StoredEventView) -> Option<Seq<char>> {
    match e.payload {
        PayloadView::SignalGenerated(p) => Some(p.signal_id),
        PayloadView::SignalConfirmed(p) => Some(p.signal_id),
        PayloadView::VetoRaised(p) => if p.scope == VetoScope::Signal {
            Some(p.target_id)
        } else {
            None
        },
        PayloadView::DecisionFormed(_) => e.linkage.signal_id,
        _ => None,
    }
}

/// The log mentions the signal `id` before position `n`.
pub open spec fn mentioned_before(s: Seq<StoredEventView>, n: int, id: Seq<char>) -> bool {
    exists|k: int| 0 <= k < n && #[trigger] signal_of_event(s[k]) == Some(id)
}

/// The position of the first event of the log about the signal `id`.
pub open spec fn first_mention(s: Seq<StoredEventView>, id: Seq<char>) -> int
    decreases s.len(),
{
    if s.len() == 0 {
        0
    } else if mentioned_before(s, s.len() - 1, id) {
        first_mention(s.drop_last(), id)
    } else {
        s.len() - 1
    }
}

/// A confirmation of the signal `id`.
pub open spec fn confirms(e: StoredEventView, id: Seq<char>) -> bool {
    e.payload matches PayloadView::SignalConfirmed(p) && p.signal_id == id
}

/// A veto of the signal `id`.
pub open spec fn vetoes(e: StoredEventView, id: Seq<char>) -> bool {
    e.payload matches PayloadView::VetoRaised(p) && p.scope == VetoScope::Signal && p.target_id == id
}

/// What the projections of a log say of it.
pub open spec fn projections_describe(s: Seq<StoredEventView>, ps: Seq<SignalProjectionView>) -> bool {
    &&& forall|i: int, j: int| 0 <= i < j < ps.len() ==> #[trigger] ps[i].signal_id != #[trigger] ps[j].signal_id
    &&& forall|id: Seq<char>|
        (exists|i: int| 0 <= i < ps.len() && #[trigger] ps[i].signal_id == id) <==> mentioned_before(s, s.len() as int, id)
    &&& forall|i: int| 0 <= i < ps.len() ==> (#[trigger] ps[i]).confirmed == exists|k: int|
        0 <= k < s.len() && confirms(#[trigger] s[k], ps[i].signal_id)
    &&& forall|i: int| 0 <= i < ps.len() ==> (#[trigger] ps[i]).vetoed == exists|k: int|
        0 <= k < s.len() && vetoes(#[trigger] s[k], ps[i].signal_id)
    &&& forall|i: int, j: int|
        0 <= i < j < ps.len() ==> first_mention(s, #[trigger] ps[i].signal_id) < first_mention(s, #[trigger] ps[j].signal_id)
}

proof fn lemma_position(ps: Seq<SignalProjectionView>, id: Seq<char>)
    ensures
        match position_of(ps, id) {
            Some(i) => 0 <= i < ps.len() && ps[i].signal_id == id,
            None => forall|k: int| 0 <= k < ps.len() ==> ps[k].signal_id != id,
        },
    decreases ps.len(),
{
    if ps.len() > 0 {
        lemma_position(ps.drop_last(), id);
        if position_of(ps.drop_last(), id) is None {
            assert forall|k: int| 0 <= k < ps.len() - 1 implies ps[k].signal_id != id by {
                assert(ps[k] == ps.drop_last()[k]);
            }
        } else {
            let i = position_of(ps.drop_last(), id)->0;
            assert(ps[i] == ps.drop_last()[i]);
        }
    }
}

proof fn lemma_first_mention_stays(s: Seq<StoredEventView>, e: StoredEventView, id: Seq<char>)
    requires
        mentioned_before(s, s.len() as int, id),
    ensures
        first_mention(s.push(e), id) == first_mention(s, id),
        first_mention(s, id) < s.len(),
    decreases s.len(),
{
    let s2 = s.push(e);
    assert(s2.drop_last() =~= s);
    let k = choose|k: int| 0 <= k < s.len() && #[trigger] signal_of_event(s[k]) == Some(id);
    assert(s2[k] == s[k]);
    assert(mentioned_before(s2, s2.len() - 1, id));
    if mentioned_before(s, s.len() - 1, id) {
        let k2 = choose|k2: int| 0 <= k2 < s.len() - 1 && #[trigger] signal_of_event(s[k2]) == Some(id);
        assert(s.drop_last()[k2] == s[k2]);
        lemma_first_mention_stays(s.drop_last(), s.last(), id);
        assert(s.drop_last().push(s.last()) =~= s);
    }
}

proof fn lemma_mentions_push(s: Seq<StoredEventView>, e: StoredEventView, id: Seq<char>)
    ensures
        mentioned_before(s.push(e), s.len() + 1int, id) <==> (mentioned_before(s, s.len() as int, id)
            || signal_of_event(e) == Some(id)),
{
    let s2 = s.push(e);
    if mentioned_before(s2, s.len() + 1int, id) {
        let k = choose|k: int| 0 <= k < s.len() + 1 && #[trigger] signal_of_event(s2[k]) == Some(id);
        if k < s.len() {
            assert(s[k] == s2[k]);
        }
    }
    if mentioned_before(s, s.len() as int, id) {
        let k = choose|k: int| 0 <= k < s.len() && #[trigger] signal_of_event(s[k]) == Some(id);
        assert(s2[k] == s[k]);
    }
    if signal_of_event(e) == Some(id) {
        assert(s2[s.len() as int] == e);
    }
}

proof fn lemma_flag_push(s: Seq<StoredEventView>, e: StoredEventView, id: Seq<char>)
    ensures
        (exists|k: int| 0 <= k < s.len() + 1 && confirms(#[trigger] s.push(e)[k], id)) <==> ((exists|k: int|
            0 <= k < s.len() && confirms(#[trigger] s[k], id)) || confirms(e, id)),
        (exists|k: int| 0 <= k < s.len() + 1 && vetoes(#[trigger] s.push(e)[k], id)) <==> ((exists|k: int|
            0 <= k < s.len() && vetoes(#[trigger] s[k], id)) || vetoes(e, id)),
{
    let s2 = s.push(e);
    assert forall|k: int| 0 <= k < s.len() implies s2[k] == s[k] by {}
    assert(s2[s.len() as int] == e);
    if exists|k: int| 0 <= k < s.len() + 1 && confirms(#[trigger] s2[k], id) {
        let k = choose|k: int| 0 <= k < s.len() + 1 && confirms(#[trigger] s2[k], id);
        if k < s.len() {
            assert(confirms(s[k], id));
        }
    }
    if exists|k: int| 0 <= k < s.len() && confirms(#[trigger] s[k], id) {
        let k = choose|k: int| 0 <= k < s.len() && confirms(#[trigger] s[k], id);
        assert(confirms(s2[k], id));
    }
    if exists|k: int| 0 <= k < s.len() + 1 && vetoes(#[trigger] s2[k], id) {
        let k = choose|k: int| 0 <= k < s.len() + 1 && vetoes(#[trigger] s2[k], id);
        if k < s.len() {
            assert(vetoes(s[k], id));
        }
    }
    if exists|k: int| 0 <= k < s.len() && vetoes(#[trigger] s[k], id) {
        let k = choose|k: int| 0 <= k < s.len() && vetoes(#[trigger] s[k], id);
        assert(vetoes(s2[k], id));
    }
}

/// The signal projections of a log hold one projection per signal the log
/// mentions (by a generation, a confirmation, a signal veto or a decision's
/// link), each signal once, in the order of their first mention; a projection
/// is confirmed exactly when the log confirms its signal, and vetoed exactly
/// when the log vetoes it.
pub proof fn lemma_signal_projections_describe_log(s: Seq<StoredEventView>)
    ensures
        projections_describe(s, signal_projections_of(s)),
    decreases s.len(),
{
    if s.len() == 0 {
        return;
    }
    let r = s.drop_last();
    let e = s.last();
    assert(r.push(e) =~= s);
    lemma_signal_projections_describe_log(r);
    let ps = signal_projections_of(r);
    let ps2 = signal_projections_of(s);
    assert forall|id: Seq<char>| mentioned_before(s, s.len() as int, id) <==> (mentioned_before(r, r.len() as int, id)
        || signal_of_event(e) == Some(id)) by {
        lemma_mentions_push(r, e, id);
    }
    assert forall|id: Seq<char>| #![auto]
        mentioned_before(r, r.len() as int, id) implies first_mention(s, id) == first_mention(r, id) && first_mention(r, id)
        < r.len() by {
        lemma_first_mention_stays(r, e, id);
    }
    assert forall|id: Seq<char>| #![auto]
        ((exists|k: int| 0 <= k < s.len() && confirms(#[trigger] s[k], id)) <==> ((exists|k: int|
            0 <= k < r.len() && confirms(#[trigger] r[k], id)) || confirms(e, id))) && ((exists|k: int|
            0 <= k < s.len() && vetoes(#[trigger] s[k], id)) <==> ((exists|k: int|
            0 <= k < r.len() && vetoes(#[trigger] r[k], id)) || vetoes(e, id))) by {
        lemma_flag_push(r, e, id);
    }
    match signal_of_event(e) {
        None => {
            assert(ps2 == ps);
            assert forall|id: Seq<char>| !confirms(e, id) && !vetoes(e, id) by {}
            assert forall|i: int| 0 <= i < ps.len() implies mentioned_before(r, r.len() as int, #[trigger] ps[i].signal_id) by {}
        },
        Some(id0) => {
            lemma_position(ps, id0);
            assert forall|id: Seq<char>| id != id0 implies !confirms(e, id) && !vetoes(e, id) by {}
            assert forall|i: int| 0 <= i < ps.len() implies mentioned_before(r, r.len() as int, #[trigger] ps[i].signal_id) by {}
            match position_of(ps, id0) {
                Some(p) => {
                    assert(ps2.len() == ps.len());
                    assert forall|i: int| 0 <= i < ps2.len() implies #[trigger] ps2[i].signal_id == ps[i].signal_id by {}
                    assert forall|i: int| 0 <= i < ps2.len() && i != p implies #[trigger] ps2[i] == ps[i] by {}
                    assert forall|id: Seq<char>|
                        (exists|i: int| 0 <= i < ps2.len() && #[trigger] ps2[i].signal_id == id) <==> mentioned_before(
                            s,
                            s.len() as int,
                            id,
                        ) by {
                        if exists|i: int| 0 <= i < ps2.len() && #[trigger] ps2[i].signal_id == id {
                            let i = choose|i: int| 0 <= i < ps2.len() && #[trigger] ps2[i].signal_id == id;
                            assert(ps[i].signal_id == id);
                        }
                        if mentioned_before(s, s.len() as int, id) {
                            if id == id0 {
                                assert(ps2[p].signal_id == id);
                            } else {
                                assert(mentioned_before(r, r.len() as int, id));
                                let i = choose|i: int| 0 <= i < ps.len() && #[trigger] ps[i].signal_id == id;
                                assert(ps2[i].signal_id == id);
                            }
                        }
                    }
                    assert forall|i: int| 0 <= i < ps2.len() implies (#[trigger] ps2[i]).confirmed == exists|k: int|
                        0 <= k < s.len() && confirms(#[trigger] s[k], ps2[i].signal_id) by {
                        if i != p {
                            assert(ps2[i] == ps[i]);
                            assert(ps[i].signal_id != id0);
                        }
                    }
                    assert forall|i: int| 0 <= i < ps2.len() implies (#[trigger] ps2[i]).vetoed == exists|k: int|
                        0 <= k < s.len() && vetoes(#[trigger] s[k], ps2[i].signal_id) by {
                        if i != p {
                            assert(ps2[i] == ps[i]);
                            assert(ps[i].signal_id != id0);
                        }
                    }
                },
                None => {
                    assert(ps2.len() == ps.len() + 1);
                    assert forall|i: int| 0 <= i < ps.len() implies #[trigger] ps2[i] == ps[i] by {}
                    assert(ps2[ps.len() as int].signal_id == id0);
                    assert(!mentioned_before(r, r.len() as int, id0));
                    assert(first_mention(s, id0) == r.len());
                    assert(forall|k: int| 0 <= k < r.len() ==> !confirms(#[trigger] r[k], id0)) by {
                        assert forall|k: int| 0 <= k < r.len() implies !confirms(#[trigger] r[k], id0) by {
                            if confirms(r[k], id0) {
                                assert(signal_of_event(r[k]) == Some(id0));
                            }
                        }
                    }
                    assert(forall|k: int| 0 <= k < r.len() ==> !vetoes(#[trigger] r[k], id0)) by {
                        assert forall|k: int| 0 <= k < r.len() implies !vetoes(#[trigger] r[k], id0) by {
                            if vetoes(r[k], id0) {
                                assert(signal_of_event(r[k]) == Some(id0));
                            }
                        }
                    }
                    assert forall|i: int, j: int| 0 <= i < j < ps2.len() implies #[trigger] ps2[i].signal_id
                        != #[trigger] ps2[j].signal_id by {
                        if j == ps.len() {
                            assert(ps2[i] == ps[i]);
                        } else {
                            assert(ps2[i] == ps[i] && ps2[j] == ps[j]);
                        }
                    }
                    assert forall|id: Seq<char>|
                        (exists|i: int| 0 <= i < ps2.len() && #[trigger] ps2[i].signal_id == id) <==> mentioned_before(
                            s,
                            s.len() as int,
                            id,
                        ) by {
                        if exists|i: int| 0 <= i < ps2.len() && #[trigger] ps2[i].signal_id == id {
                            let i = choose|i: int| 0 <= i < ps2.len() && #[trigger] ps2[i].signal_id == id;
                            if i < ps.len() {
                                assert(ps[i].signal_id == id);
                            }
                        }
                        if mentioned_before(s, s.len() as int, id) {
                            if id == id0 {
                                assert(ps2[ps.len() as int].signal_id == id);
                            } else {
                                assert(mentioned_before(r, r.len() as int, id));
                                let i = choose|i: int| 0 <= i < ps.len() && #[trigger] ps[i].signal_id == id;
                                assert(ps2[i].signal_id == id);
                            }
                        }
                    }
                    assert forall|i: int| 0 <= i < ps2.len() implies (#[trigger] ps2[i]).confirmed == exists|k: int|
                        0 <= k < s.len() && confirms(#[trigger] s[k], ps2[i].signal_id) by {
                        if i < ps.len() {
                            assert(ps2[i] == ps[i]);
                            assert(ps[i].signal_id != id0);
                        }
                    }
                    assert forall|i: int| 0 <= i < ps2.len() implies (#[trigger] ps2[i]).vetoed == exists|k: int|
                        0 <= k < s.len() && vetoes(#[trigger] s[k], ps2[i].signal_id) by {
                        if i < ps.len() {
                            assert(ps2[i] == ps[i]);
                            assert(ps[i].signal_id != id0);
                        }
                    }
                    assert forall|i: int, j: int| 0 <= i < j < ps2.len() implies first_mention(s, #[trigger] ps2[i].signal_id)
                        < first_mention(s, #[trigger] ps2[j].signal_id) by {
                        assert(ps2[i] == ps[i]);
                        if j < ps.len() {
                            assert(ps2[j] == ps[j]);
                        }
                    }
                },
            }
        },
    }
}

} // verus!
