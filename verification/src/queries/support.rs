//! Shared vocabulary of the queries: how an answer is read, and the small
//! steps every scan of the log takes.
use vstd::prelude::*;

use crate::codecs::{all_decode, decode_error};
use crate::queries::error::{QueryError, QueryErrorView};
use crate::store::StoredEventView;
use crate::text::{insert_sorted, opt_view, same_text, strictly_sorted, strs};

verus! {

pub open spec fn viewed<T: View>(o: Option<T>) -> Option<T::V> {
    match o {
        Some(x) => Some(x@),
        None => None,
    }
}

pub open spec fn views_of<T: View>(s: Seq<T>) -> Seq<T::V> {
    s.map_values(|x: T| x@)
}

/// A query over a log answers `expected` when every event of the log decodes,
/// and otherwise fails with the codec error that names the first one that does not.
pub open spec fn answers<T: View>(
    r: Result<Option<T>, QueryError>,
    s: Seq<StoredEventView>,
    expected: Option<T::V>,
) -> bool {
    match r {
        Ok(o) => all_decode(s) && viewed(o) == expected,
        Err(e) => !all_decode(s) && e@ == QueryErrorView::Codec(decode_error(s)),
    }
}

/// `set.insert(x)` for an optional `x`.
pub open spec fn add_opt(s: Set<Seq<char>>, o: Option<Seq<char>>) -> Set<Seq<char>> {
    match o {
        Some(x) => s.insert(x),
        None => s,
    }
}

/// The first of two optional values that is present.
pub open spec fn or_else(a: Option<Seq<char>>, b: Option<Seq<char>>) -> Option<Seq<char>> {
    match a {
        Some(x) => Some(x),
        None => b,
    }
}

pub proof fn lemma_take_step<A>(s: Seq<A>, i: int)
    requires
        0 <= i < s.len(),
    ensures
        s.take(i + 1).drop_last() == s.take(i),
        s.take(i + 1).last() == s[i],
        s.take(i + 1).len() == i + 1,
{
    assert(s.take(i + 1).drop_last() =~= s.take(i));
}

pub proof fn lemma_views_push<T: View>(s: Seq<T>, x: T)
    ensures
        views_of(s.push(x)) == views_of(s).push(x@),
{
    assert(views_of(s.push(x)) =~= views_of(s).push(x@));
}

/// `set.insert(x.clone())` on a set of texts kept as a sorted vector, for an optional `x`.
pub fn insert_opt(v: &mut Vec<String>, o: &Option<String>)
    requires
        strictly_sorted(strs(old(v)@)),
    ensures
        strictly_sorted(strs(final(v)@)),
        strs(final(v)@).to_set() == add_opt(strs(old(v)@).to_set(), opt_view(*o)),
{
    match o {
        Some(x) => insert_sorted(v, x.clone()),
        None => {},
    }
}


/// Whether a set of texts kept as a vector holds `x`.
pub fn contains_text(v: &Vec<String>, x: &str) -> (r: bool)
    ensures
        r == strs(v@).to_set().contains(x@),
{
    let mut i: usize = 0;
    while i < v.len()
        invariant
            i <= v.len(),
            forall|j: int| 0 <= j < i ==> strs(v@)[j] != x@,
        decreases v.len() - i,
    {
        if same_text(v[i].as_str(), x) {
            proof {
                assert(strs(v@)[i as int] == x@);
                assert(strs(v@).contains(x@));
            }
            return true;
        }
        i = i + 1;
    }
    proof {
        if strs(v@).contains(x@) {
            let j = choose|j: int| 0 <= j < strs(v@).len() && strs(v@)[j] == x@;
            assert(strs(v@)[j] != x@);
        }
    }
    false
}

pub open spec fn triples(v: Seq<(String, String, String)>) -> Seq<(Seq<char>, Seq<char>, Seq<char>)> {
    v.map_values(|p: (String, String, String)| (p.0@, p.1@, p.2@))
}

pub open spec fn pairs(v: Seq<(String, String)>) -> Seq<(Seq<char>, Seq<char>)> {
    v.map_values(|p: (String, String)| (p.0@, p.1@))
}

pub open spec fn only_if<A>(b: bool, s: Seq<A>) -> Seq<A> {
    if b {
        s
    } else {
        Seq::empty()
    }
}

/// The first components of a sequence of pairs.
pub open spec fn firsts(v: Seq<(Seq<char>, Seq<char>)>) -> Seq<Seq<char>> {
    v.map_values(|p: (Seq<char>, Seq<char>)| p.0)
}
} // verus!
