//! The append-only event log.  The store holds the events of one JSONL file in
//! order; every event in it has passed validation, and an append never writes a
//! second event for an idempotency key that is already present.
use vstd::prelude::*;
use vstd::string::*;

use crate::events::EventType;
use crate::store::error::StoreError;
use crate::store::stored_event::{
    equivalent, event_views, stored_problem, StoredEvent, StoredEventView,
};
use crate::text::{opt_text_is, owned, same_text};

verus! {

pub struct JsonlEventStore {
    path: String,
    events: Vec<StoredEvent>,
}

impl View for JsonlEventStore {
    type V = Seq<StoredEventView>;

    closed spec fn view(&self) -> Seq<StoredEventView> {
        event_views(self.events@)
    }
}

/// The index of the first event that carries an idempotency key.
pub open spec fn first_key_index(events: Seq<StoredEventView>, key: Seq<char>) -> Option<int>
    decreases events.len(),
{
    if events.len() == 0 {
        None
    } else if events[0].idempotency_key == key {
        Some(0)
    } else {
        match first_key_index(events.drop_first(), key) {
            Some(i) => Some(i + 1),
            None => None,
        }
    }
}

pub open spec fn has_key(events: Seq<StoredEventView>, key: Seq<char>) -> bool {
    exists|i: int| 0 <= i < events.len() && #[trigger] events[i].idempotency_key == key
}

/// What an append does with an event.
pub enum AppendOutcome {
    /// The event breaks a rule; the text is the error.
    Rejected(Seq<char>),
    /// The same fact is already stored under its key: nothing is written.
    AlreadyPresent,
    /// Another fact is stored under its key; the text is the error.
    Conflict(Seq<char>),
    /// The event is written at the end of the log.
    Appended,
}

pub open spec fn append_outcome(events: Seq<StoredEventView>, e: StoredEventView) -> AppendOutcome {
    match stored_problem(e) {
        Some(m) => AppendOutcome::Rejected(m),
        None => match first_key_index(events, e.idempotency_key) {
            Some(i) => if equivalent(events[i], e) {
                AppendOutcome::AlreadyPresent
            } else {
                AppendOutcome::Conflict(
                    "conflicting event already exists for idempotency_key "@ + e.idempotency_key,
                )
            },
            None => AppendOutcome::Appended,
        },
    }
}

/// The last event stored under `key`: a batch append holds each of its events
/// against that one.
pub open spec fn last_key_index(events: Seq<StoredEventView>, key: Seq<char>) -> Option<int>
    decreases events.len(),
{
    if events.len() == 0 {
        None
    } else if events.last().idempotency_key == key {
        Some(events.len() - 1)
    } else {
        last_key_index(events.drop_last(), key)
    }
}

/// What a batch append does with one of its events: as a single append does,
/// but held against the last event stored under its key.
pub open spec fn batch_outcome(events: Seq<StoredEventView>, e: StoredEventView) -> AppendOutcome {
    match stored_problem(e) {
        Some(m) => AppendOutcome::Rejected(m),
        None => match last_key_index(events, e.idempotency_key) {
            Some(i) => if equivalent(events[i], e) {
                AppendOutcome::AlreadyPresent
            } else {
                AppendOutcome::Conflict(
                    "conflicting event already exists for idempotency_key "@ + e.idempotency_key,
                )
            },
            None => AppendOutcome::Appended,
        },
    }
}

/// The log after an append.
pub open spec fn after_append(events: Seq<StoredEventView>, e: StoredEventView) -> Seq<
    StoredEventView,
> {
    match append_outcome(events, e) {
        AppendOutcome::Appended => events.push(e),
        _ => events,
    }
}

/// Appends a batch in order, stopping at the first error: the log reached and
/// the number of events written, or the error.
pub open spec fn append_batch(events: Seq<StoredEventView>, batch: Seq<StoredEventView>) -> (
    Seq<StoredEventView>,
    Result<nat, Seq<char>>,
)
    decreases batch.len(),
{
    if batch.len() == 0 {
        (events, Ok(0))
    } else {
        match batch_outcome(events, batch[0]) {
            AppendOutcome::Rejected(m) => (events, Err(m)),
            AppendOutcome::Conflict(m) => (events, Err(m)),
            AppendOutcome::AlreadyPresent => append_batch(events, batch.drop_first()),
            AppendOutcome::Appended => {
                let (t, r) = append_batch(events.push(batch[0]), batch.drop_first());
                (
                    t,
                    match r {
                        Ok(n) => Ok(n + 1),
                        Err(m) => Err(m),
                    },
                )
            },
        }
    }
}

/// A batch result with `k` more events counted as written.
pub open spec fn shifted(x: (Seq<StoredEventView>, Result<nat, Seq<char>>), k: nat) -> (
    Seq<StoredEventView>,
    Result<nat, Seq<char>>,
) {
    (
        x.0,
        match x.1 {
            Ok(n) => Ok(n + k),
            Err(m) => Err(m),
        },
    )
}

pub open spec fn all_valid(events: Seq<StoredEventView>) -> bool {
    forall|i: int| 0 <= i < events.len() ==> stored_problem(#[trigger] events[i]) is None
}

proof fn lemma_first_key_index(events: Seq<StoredEventView>, key: Seq<char>, i: int)
    requires
        0 <= i <= events.len(),
        forall|j: int| 0 <= j < i ==> events[j].idempotency_key != key,
    ensures
        i < events.len() && events[i].idempotency_key == key ==> first_key_index(events, key)
            == Some(i),
        i == events.len() ==> first_key_index(events, key) is None,
    decreases i,
{
    if i > 0 {
        let rest = events.drop_first();
        assert forall|j: int| 0 <= j < i - 1 implies rest[j].idempotency_key != key by {
            assert(rest[j] == events[j + 1]);
        }
        lemma_first_key_index(rest, key, i - 1);
    } else if events.len() > 0 {
    }
}

proof fn lemma_last_key_index(events: Seq<StoredEventView>, key: Seq<char>, i: int)
    requires
        0 <= i <= events.len(),
        forall|j: int| i <= j < events.len() ==> events[j].idempotency_key != key,
    ensures
        i > 0 && events[i - 1].idempotency_key == key ==> last_key_index(events, key) == Some(i - 1),
        i == 0 ==> last_key_index(events, key) is None,
    decreases events.len(),
{
    if events.len() > 0 && i < events.len() {
        let rest = events.drop_last();
        assert forall|j: int| i <= j < rest.len() implies rest[j].idempotency_key != key by {
            assert(rest[j] == events[j]);
        }
        lemma_last_key_index(rest, key, i);
        if i > 0 {
            assert(rest[i - 1] == events[i - 1]);
        }
    } else if events.len() > 0 {
        assert(events.last() == events[i - 1]);
    }
}

proof fn lemma_first_key_index_push(
    events: Seq<StoredEventView>,
    e: StoredEventView,
    key: Seq<char>,
)
    requires
        first_key_index(events, key) is None,
        e.idempotency_key == key,
    ensures
        first_key_index(events.push(e), key) == Some(events.len() as int),
    decreases events.len(),
{
    if events.len() > 0 {
        assert(events.push(e).drop_first() =~= events.drop_first().push(e));
        lemma_first_key_index_push(events.drop_first(), e, key);
    }
}

proof fn lemma_first_key_index_prefix(
    events: Seq<StoredEventView>,
    e: StoredEventView,
    key: Seq<char>,
)
    requires
        first_key_index(events, key) is Some,
    ensures
        first_key_index(events.push(e), key) == first_key_index(events, key),
    decreases events.len(),
{
    if events[0].idempotency_key != key {
        assert(events.push(e).drop_first() =~= events.drop_first().push(e));
        lemma_first_key_index_prefix(events.drop_first(), e, key);
    }
}

pub(crate) proof fn lemma_first_key_index_found(events: Seq<StoredEventView>, key: Seq<char>)
    ensures
        match first_key_index(events, key) {
            Some(i) => 0 <= i < events.len() && events[i].idempotency_key == key,
            None => !has_key(events, key),
        },
    decreases events.len(),
{
    if events.len() > 0 && events[0].idempotency_key != key {
        lemma_first_key_index_found(events.drop_first(), key);
        if first_key_index(events, key) is None {
            if has_key(events, key) {
                let j = choose|j: int|
                    0 <= j < events.len() && #[trigger] events[j].idempotency_key == key;
                assert(events.drop_first()[j - 1] == events[j]);
            }
        }
    }
}

/// Appending the same event twice writes it at most once: whatever the first
/// append did, the second finds the fact already stored (or fails as the first
/// did) and leaves the log as the first left it.
pub proof fn lemma_append_is_idempotent(events: Seq<StoredEventView>, e: StoredEventView)
    ensures
        after_append(after_append(events, e), e) == after_append(events, e),
        append_outcome(events, e) is Appended || append_outcome(events, e) is AlreadyPresent
            ==> append_outcome(after_append(events, e), e) is AlreadyPresent,
        append_outcome(events, e) is Rejected ==> append_outcome(after_append(events, e), e)
            == append_outcome(events, e),
        append_outcome(events, e) is Conflict ==> append_outcome(after_append(events, e), e)
            == append_outcome(events, e),
{
    if stored_problem(e) is None {
        match first_key_index(events, e.idempotency_key) {
            Some(i) => {},
            None => {
                lemma_first_key_index_push(events, e, e.idempotency_key);
                assert(events.push(e)[events.len() as int] == e);
            },
        }
    }
}

/// After an append that succeeds, the log holds a fact under the event's key,
/// and every event that was there before is still there, in the same place.
pub proof fn lemma_append_keeps_log(events: Seq<StoredEventView>, e: StoredEventView)
    ensures
        after_append(events, e).len() >= events.len(),
        forall|i: int| 0 <= i < events.len() ==> #[trigger] after_append(events, e)[i] == events[i],
        append_outcome(events, e) is Appended || append_outcome(events, e) is AlreadyPresent
            ==> has_key(after_append(events, e), e.idempotency_key),
{
    lemma_first_key_index_found(events, e.idempotency_key);
    if append_outcome(events, e) is Appended {
        assert(after_append(events, e)[events.len() as int] == e);
    }
}

/// Every event a filter keeps is valid when the log is.
pub proof fn lemma_filter_keeps_valid(events: Seq<StoredEventView>, pred: spec_fn(StoredEventView) -> bool)
    requires
        all_valid(events),
    ensures
        all_valid(events.filter(pred)),
    decreases events.len(),
{
    reveal(Seq::filter);
    if events.len() > 0 {
        let rest = events.drop_last();
        assert forall|i: int| 0 <= i < rest.len() implies stored_problem(#[trigger] rest[i]) is None by {
            assert(rest[i] == events[i]);
        }
        lemma_filter_keeps_valid(rest, pred);
        assert(stored_problem(events[events.len() - 1]) is None);
        if pred(events.last()) {
            let f = rest.filter(pred).push(events.last());
            assert forall|i: int| 0 <= i < f.len() implies stored_problem(#[trigger] f[i]) is None by {
                if i < f.len() - 1 {
                    assert(f[i] == rest.filter(pred)[i]);
                }
            }
        }
    }
}

/// Appending keeps every event of the log valid.
pub proof fn lemma_append_keeps_log_valid(events: Seq<StoredEventView>, e: StoredEventView)
    requires
        all_valid(events),
    ensures
        all_valid(after_append(events, e)),
{
    if append_outcome(events, e) is Appended {
        assert forall|i: int| 0 <= i < events.len() + 1 implies stored_problem(
            #[trigger] events.push(e)[i],
        ) is None by {
            if i < events.len() {
                assert(events.push(e)[i] == events[i]);
            }
        }
    }
}

/// Position `i` holds the first event of `events` that breaks a rule.
pub open spec fn first_invalid_at(events: Seq<StoredEventView>, i: int) -> bool {
    &&& 0 <= i < events.len()
    &&& stored_problem(events[i]) is Some
    &&& forall|j: int| 0 <= j < i ==> stored_problem(#[trigger] events[j]) is None
}

/// The message of a log whose event on line `line` breaks the rule `problem`.
pub open spec fn invalid_line_text(line: usize, problem: Seq<char>) -> Seq<char> {
    "invalid event at line "@ + crate::text::decimal(line as nat) + ": "@ + "invalid store data: "@ + problem
}

impl JsonlEventStore {
    #[verifier::type_invariant]
    spec fn well_formed(self) -> bool {
        all_valid(event_views(self.events@))
    }

    pub closed spec fn spec_path(&self) -> Seq<char> {
        self.path@
    }

    /// An empty log for the file at `path`.
    pub fn new(path: &str) -> (r: Self)
        ensures
            r@ == Seq::<StoredEventView>::empty(),
            r.spec_path() == path@,
    {
        let r = JsonlEventStore { path: owned(path), events: Vec::new() };
        assert(r@ =~= Seq::<StoredEventView>::empty());
        r
    }

    /// The log of the file at `path`, holding `events` in file order;
    /// `lines[i]` is the line of the file that held `events[i]`.  Every event
    /// is checked; the first that fails is reported with its line.
    pub fn from_events(path: &str, lines: &Vec<usize>, events: Vec<StoredEvent>) -> (r: Result<Self, StoreError>)
        requires
            lines.len() == events.len(),
        ensures
            match r {
                Ok(s) => s@ == event_views(events@) && all_valid(event_views(events@))
                    && s.spec_path() == path@,
                Err(e) => exists|i: int| #[trigger] first_invalid_at(event_views(events@), i) && e@
                    == invalid_line_text(lines@[i], stored_problem(event_views(events@)[i])->0),
            },
    {
        let mut i: usize = 0;
        while i < events.len()
            invariant
                i <= events.len(),
                lines.len() == events.len(),
                forall|j: int|
                    0 <= j < i ==> stored_problem(#[trigger] event_views(events@)[j]) is None,
            decreases events.len() - i,
        {
            if let Err(e) = events[i].validate() {
                let mut m = owned("invalid event at line ");
                m.append(crate::text::decimal_text(lines[i]).as_str());
                m.append(": ");
                m.append(e.to_text().as_str());
                assert(stored_problem(event_views(events@)[i as int]) is Some);
                assert(first_invalid_at(event_views(events@), i as int));
                return Err(StoreError::InvalidData(m));
            }
            i = i + 1;
        }
        let s = JsonlEventStore { path: owned(path), events };
        Ok(s)
    }

    pub fn path(&self) -> (r: &str)
        ensures
            r@ == self.spec_path(),
    {
        self.path.as_str()
    }

    /// Every event of the log, in order.
    pub fn read_all(&self) -> (r: Vec<StoredEvent>)
        ensures
            event_views(r@) == self@,
            all_valid(self@),
    {
        proof {
            use_type_invariant(self);
        }
        let mut r: Vec<StoredEvent> = Vec::new();
        let mut i: usize = 0;
        while i < self.events.len()
            invariant
                i <= self.events.len(),
                event_views(r@) == event_views(self.events@).take(i as int),
                all_valid(event_views(self.events@)),
            decreases self.events.len() - i,
        {
            let ghost before = r@;
            let d = self.events[i].duplicate();
            assert(d@ == self.events@[i as int]@);
            r.push(d);
            assert(event_views(r@) =~= event_views(before).push(d@));
            assert(event_views(r@) =~= event_views(self.events@).take(i as int + 1));
            i = i + 1;
        }
        assert(event_views(self.events@).take(i as int) =~= event_views(self.events@));
        r
    }

    /// The log replayed from its first event.
    pub fn replay(&self) -> (r: Vec<StoredEvent>)
        ensures
            event_views(r@) == self@,
    {
        self.read_all()
    }

    pub fn len(&self) -> (r: usize)
        ensures
            r == self@.len(),
    {
        self.events.len()
    }

    /// Writes `event` unless a fact is already stored under its idempotency
    /// key.  `Ok(true)`: written; `Ok(false)`: the same fact is already there;
    /// an error when the event breaks a rule or another fact holds its key.
    pub fn append_event(&mut self, event: &StoredEvent) -> (r: Result<bool, StoreError>)
        ensures
            final(self)@ == after_append(old(self)@, event@),
            final(self).spec_path() == old(self).spec_path(),
            match r {
                Ok(true) => append_outcome(old(self)@, event@) is Appended,
                Ok(false) => append_outcome(old(self)@, event@) is AlreadyPresent,
                Err(e) => append_outcome(old(self)@, event@) == AppendOutcome::Rejected(e@)
                    || append_outcome(old(self)@, event@) == AppendOutcome::Conflict(e@),
            },
    {
        proof {
            use_type_invariant(&*self);
        }
        event.validate()?;
        let ghost evs = self@;
        let mut i: usize = 0;
        while i < self.events.len()
            invariant
                i <= self.events.len(),
                evs == event_views(self.events@),
                stored_problem(event@) is None,
                forall|j: int| 0 <= j < i ==> evs[j].idempotency_key != event@.idempotency_key,
            decreases self.events.len() - i,
        {
            if same_text(self.events[i].idempotency_key.as_str(), event.idempotency_key.as_str()) {
                proof {
                    assert(evs[i as int] == self.events@[i as int]@);
                    lemma_first_key_index(evs, event@.idempotency_key, i as int);
                    assert(first_key_index(evs, event@.idempotency_key) == Some(i as int));
                }
                if self.events[i].is_contractually_equivalent(event) {
                    return Ok(false);
                }
                let mut m = owned("conflicting event already exists for idempotency_key ");
                m.append(event.idempotency_key.as_str());
                return Err(StoreError::InvalidData(m));
            }
            i = i + 1;
        }
        proof {
            lemma_first_key_index(evs, event@.idempotency_key, i as int);
            lemma_append_keeps_log_valid(evs, event@);
        }
        let mut events: Vec<StoredEvent> = Vec::new();
        std::mem::swap(&mut events, &mut self.events);
        events.push(event.duplicate());
        assert(event_views(events@) =~= evs.push(event@));
        self.events = events;
        Ok(true)
    }

    /// Appends one event of a batch, held against the last event stored under
    /// its key.
    fn append_in_batch(&mut self, event: &StoredEvent) -> (r: Result<bool, StoreError>)
        ensures
            final(self).spec_path() == old(self).spec_path(),
            match r {
                Ok(true) => batch_outcome(old(self)@, event@) is Appended && final(self)@ == old(self)@.push(event@),
                Ok(false) => batch_outcome(old(self)@, event@) is AlreadyPresent && final(self)@ == old(self)@,
                Err(e) => (batch_outcome(old(self)@, event@) == AppendOutcome::Rejected(e@) || batch_outcome(
                    old(self)@,
                    event@,
                ) == AppendOutcome::Conflict(e@)) && final(self)@ == old(self)@,
            },
    {
        proof {
            use_type_invariant(&*self);
        }
        event.validate()?;
        let ghost evs = self@;
        let mut i: usize = self.events.len();
        while i > 0
            invariant
                i <= self.events.len(),
                evs == event_views(self.events@),
                stored_problem(event@) is None,
                forall|j: int| i <= j < evs.len() ==> evs[j].idempotency_key != event@.idempotency_key,
            decreases i,
        {
            i = i - 1;
            if same_text(self.events[i].idempotency_key.as_str(), event.idempotency_key.as_str()) {
                proof {
                    assert(evs[i as int] == self.events@[i as int]@);
                    lemma_last_key_index(evs, event@.idempotency_key, i as int + 1);
                }
                if self.events[i].is_contractually_equivalent(event) {
                    return Ok(false);
                }
                let mut m = owned("conflicting event already exists for idempotency_key ");
                m.append(event.idempotency_key.as_str());
                return Err(StoreError::InvalidData(m));
            }
        }
        proof {
            lemma_last_key_index(evs, event@.idempotency_key, 0);
            assert forall|k: int| 0 <= k < evs.len() + 1 implies stored_problem(#[trigger] evs.push(event@)[k]) is None by {
                if k < evs.len() {
                    assert(evs.push(event@)[k] == evs[k]);
                }
            }
        }
        let mut events: Vec<StoredEvent> = Vec::new();
        std::mem::swap(&mut events, &mut self.events);
        events.push(event.duplicate());
        assert(event_views(events@) =~= evs.push(event@));
        self.events = events;
        Ok(true)
    }

    /// Appends a batch in order and counts what was written; stops at the
    /// first event that breaks a rule or conflicts, keeping what came before.
    pub fn append_events(&mut self, events: &Vec<StoredEvent>) -> (r: Result<usize, StoreError>)
        ensures
            final(self)@ == append_batch(old(self)@, event_views(events@)).0,
            append_batch(old(self)@, event_views(events@)).1 is Ok <==> r is Ok,
            final(self).spec_path() == old(self).spec_path(),
            match r {
                Ok(n) => append_batch(old(self)@, event_views(events@)).1 == Ok::<nat, Seq<char>>(
                    n as nat,
                ),
                Err(e) => append_batch(old(self)@, event_views(events@)).1 == Err::<
                    nat,
                    Seq<char>,
                >(e@),
            },
    {
        let ghost start = self@;
        let ghost batch = event_views(events@);
        let mut appended: usize = 0;
        let mut i: usize = 0;
        assert(batch.skip(0) =~= batch);
        while i < events.len()
            invariant
                i <= events.len(),
                batch == event_views(events@),
                start == old(self)@,
                appended <= i,
                self.spec_path() == old(self).spec_path(),
                append_batch(start, batch) == shifted(
                    append_batch(self@, batch.skip(i as int)),
                    appended as nat,
                ),
            decreases events.len() - i,
        {
            let ghost before = self@;
            let ghost rest = batch.skip(i as int);
            assert(rest[0] == events@[i as int]@);
            assert(rest.drop_first() =~= batch.skip(i as int + 1));
            match self.append_in_batch(&events[i]) {
                Ok(true) => {
                    assert(append_batch(before, rest) == shifted(
                        append_batch(before.push(rest[0]), rest.drop_first()),
                        1,
                    ));
                    appended = appended + 1;
                },
                Ok(false) => {
                    assert(append_batch(before, rest) == append_batch(before, rest.drop_first()));
                },
                Err(e) => {
                    assert(append_batch(before, rest) == (before, Err::<nat, Seq<char>>(e@)));
                    return Err(e);
                },
            }
            i = i + 1;
        }
        Ok(appended)
    }

    /// Whether a fact is stored under `idempotency_key`.
    pub fn exists_by_idempotency_key(&self, idempotency_key: &str) -> (r: bool)
        ensures
            r == has_key(self@, idempotency_key@),
    {
        let mut i: usize = 0;
        while i < self.events.len()
            invariant
                i <= self.events.len(),
                forall|j: int| 0 <= j < i ==> self@[j].idempotency_key != idempotency_key@,
            decreases self.events.len() - i,
        {
            if same_text(self.events[i].idempotency_key.as_str(), idempotency_key) {
                assert(self@[i as int].idempotency_key == idempotency_key@);
                return true;
            }
            i = i + 1;
        }
        false
    }

    /// The events of one kind, in log order.
    pub fn find_by_event_type(&self, event_type: EventType) -> (r: Vec<StoredEvent>)
        ensures
            event_views(r@) == self@.filter(|e: StoredEventView| e.event_type == event_type),
    {
        let ghost p = |e: StoredEventView| e.event_type == event_type;
        let mut r: Vec<StoredEvent> = Vec::new();
        let mut i: usize = 0;
        while i < self.events.len()
            invariant
                p == (|e: StoredEventView| e.event_type == event_type),
                i <= self.events.len(),
                event_views(r@) == self@.take(i as int).filter(p),
            decreases self.events.len() - i,
        {
            let ghost x = self@[i as int];
            proof {
                assert(x == self.events@[i as int]@);
                assert(self@.take(i as int + 1) =~= self@.take(i as int).push(x));
                self@.take(i as int).lemma_filter_push(x, p);
                assert(self@.take(i as int + 1).filter(p) == if p(x) {
                    self@.take(i as int).filter(p).push(x)
                } else {
                    self@.take(i as int).filter(p)
                });
            }
            if self.events[i].event_type == event_type {
                r.push(self.events[i].duplicate());
                assert(event_views(r@) =~= self@.take(i as int).filter(p).push(x));
            } else {
                assert(!p(x));
            }
            i = i + 1;
        }
        assert(self@.take(i as int) =~= self@);
        r
    }

    /// The events whose linkage carries `correlation_id`, in log order.
    pub fn find_by_correlation_id(&self, correlation_id: &str) -> (r: Vec<StoredEvent>)
        ensures
            event_views(r@) == self@.filter(
                |e: StoredEventView| e.linkage.correlation_id == Some(correlation_id@),
            ),
    {
        let ghost p = |e: StoredEventView| e.linkage.correlation_id == Some(correlation_id@);
        let mut r: Vec<StoredEvent> = Vec::new();
        let mut i: usize = 0;
        while i < self.events.len()
            invariant
                p == (|e: StoredEventView| e.linkage.correlation_id == Some(correlation_id@)),
                i <= self.events.len(),
                event_views(r@) == self@.take(i as int).filter(p),
            decreases self.events.len() - i,
        {
            let ghost x = self@[i as int];
            proof {
                assert(x == self.events@[i as int]@);
                assert(self@.take(i as int + 1) =~= self@.take(i as int).push(x));
                self@.take(i as int).lemma_filter_push(x, p);
                assert(self@.take(i as int + 1).filter(p) == if p(x) {
                    self@.take(i as int).filter(p).push(x)
                } else {
                    self@.take(i as int).filter(p)
                });
            }
            if opt_text_is(&self.events[i].linkage.correlation_id, correlation_id) {
                r.push(self.events[i].duplicate());
                assert(event_views(r@) =~= self@.take(i as int).filter(p).push(x));
            } else {
                assert(!p(x));
            }
            i = i + 1;
        }
        assert(self@.take(i as int) =~= self@);
        r
    }

    /// The events whose linkage carries `signal_id`, in log order.
    pub fn find_by_signal_id(&self, signal_id: &str) -> (r: Vec<StoredEvent>)
        ensures
            event_views(r@) == self@.filter(
                |e: StoredEventView| e.linkage.signal_id == Some(signal_id@),
            ),
            all_valid(self@),
    {
        proof {
            use_type_invariant(self);
        }
        let ghost p = |e: StoredEventView| e.linkage.signal_id == Some(signal_id@);
        let mut r: Vec<StoredEvent> = Vec::new();
        let mut i: usize = 0;
        while i < self.events.len()
            invariant
                p == (|e: StoredEventView| e.linkage.signal_id == Some(signal_id@)),
                i <= self.events.len(),
                event_views(r@) == self@.take(i as int).filter(p),
            decreases self.events.len() - i,
        {
            let ghost x = self@[i as int];
            proof {
                assert(x == self.events@[i as int]@);
                assert(self@.take(i as int + 1) =~= self@.take(i as int).push(x));
                self@.take(i as int).lemma_filter_push(x, p);
                assert(self@.take(i as int + 1).filter(p) == if p(x) {
                    self@.take(i as int).filter(p).push(x)
                } else {
                    self@.take(i as int).filter(p)
                });
            }
            if opt_text_is(&self.events[i].linkage.signal_id, signal_id) {
                r.push(self.events[i].duplicate());
                assert(event_views(r@) =~= self@.take(i as int).filter(p).push(x));
            } else {
                assert(!p(x));
            }
            i = i + 1;
        }
        assert(self@.take(i as int) =~= self@);
        r
    }

    /// The events whose linkage carries `decision_id`, in log order.
    pub fn find_by_decision_id(&self, decision_id: &str) -> (r: Vec<StoredEvent>)
        ensures
            event_views(r@) == self@.filter(
                |e: StoredEventView| e.linkage.decision_id == Some(decision_id@),
            ),
            all_valid(self@),
    {
        proof {
            use_type_invariant(self);
        }
        let ghost p = |e: StoredEventView| e.linkage.decision_id == Some(decision_id@);
        let mut r: Vec<StoredEvent> = Vec::new();
        let mut i: usize = 0;
        while i < self.events.len()
            invariant
                p == (|e: StoredEventView| e.linkage.decision_id == Some(decision_id@)),
                i <= self.events.len(),
                event_views(r@) == self@.take(i as int).filter(p),
            decreases self.events.len() - i,
        {
            let ghost x = self@[i as int];
            proof {
                assert(x == self.events@[i as int]@);
                assert(self@.take(i as int + 1) =~= self@.take(i as int).push(x));
                self@.take(i as int).lemma_filter_push(x, p);
                assert(self@.take(i as int + 1).filter(p) == if p(x) {
                    self@.take(i as int).filter(p).push(x)
                } else {
                    self@.take(i as int).filter(p)
                });
            }
            if opt_text_is(&self.events[i].linkage.decision_id, decision_id) {
                r.push(self.events[i].duplicate());
                assert(event_views(r@) =~= self@.take(i as int).filter(p).push(x));
            } else {
                assert(!p(x));
            }
            i = i + 1;
        }
        assert(self@.take(i as int) =~= self@);
        r
    }
}


/// An event under another key leaves the first position of a key as it was.
pub proof fn lemma_first_key_index_other(events: Seq<StoredEventView>, e: StoredEventView, key: Seq<char>)
    requires
        e.idempotency_key != key,
    ensures
        first_key_index(events.push(e), key) == first_key_index(events, key),
    decreases events.len(),
{
    assert(events.push(e)[events.len() as int] == e);
    if events.len() == 0 {
        assert(events.push(e).drop_first() =~= Seq::<StoredEventView>::empty());
        assert(first_key_index(Seq::<StoredEventView>::empty(), key) is None);
    } else if events[0].idempotency_key == key {
        assert(events.push(e)[0] == events[0]);
    } else {
        assert(events.push(e)[0] == events[0]);
        assert(events.push(e).drop_first() =~= events.drop_first().push(e));
        lemma_first_key_index_other(events.drop_first(), e, key);
    }
}


/// Appending two events that state the same fact under the same key writes
/// once: after the first is written, the second finds it, is reported as
/// already present, and leaves the log as the first left it.
pub proof fn lemma_same_fact_written_once(events: Seq<StoredEventView>, e1: StoredEventView, e2: StoredEventView)
    requires
        append_outcome(events, e1) is Appended,
        stored_problem(e2) is None,
        e2.idempotency_key == e1.idempotency_key,
        equivalent(e1, e2),
    ensures
        after_append(events, e1) == events.push(e1),
        append_outcome(after_append(events, e1), e2) is AlreadyPresent,
        after_append(after_append(events, e1), e2) == events.push(e1),
{
    lemma_first_key_index_found(events, e1.idempotency_key);
    lemma_first_key_index_push(events, e1, e1.idempotency_key);
    assert(events.push(e1)[events.len() as int] == e1);
}

} // verus!
