//! Errors raised while building or checking an event.
use vstd::prelude::*;

use crate::text::owned;

verus! {

#[derive(Debug, Clone, PartialEq, Eq)]
pub enum EventError {
    ValidationError(String),
    InvariantError(String),
}

pub enum EventErrorView {
    Validation(Seq<char>),
    Invariant(Seq<char>),
}

impl View for EventError {
    type V = EventErrorView;

    open spec fn view(&self) -> EventErrorView {
        match self {
            EventError::ValidationError(m) => EventErrorView::Validation(m@),
            EventError::InvariantError(m) => EventErrorView::Invariant(m@),
        }
    }
}

/// The text that `Display` gives an event error.
pub open spec fn event_error_text(e: EventErrorView) -> Seq<char> {
    match e {
        EventErrorView::Validation(m) => "validation error: "@ + m,
        EventErrorView::Invariant(m) => "invariant error: "@ + m,
    }
}

impl EventError {
    pub fn validation(message: &str) -> (r: Self)
        ensures
            r@ == EventErrorView::Validation(message@),
    {
        EventError::ValidationError(owned(message))
    }

    pub fn invariant_error(message: &str) -> (r: Self)
        ensures
            r@ == EventErrorView::Invariant(message@),
    {
        EventError::InvariantError(owned(message))
    }

    pub fn message(&self) -> (r: &str)
        ensures
            r@ == (match self@ {
                EventErrorView::Validation(m) => m,
                EventErrorView::Invariant(m) => m,
            }),
    {
        match self {
            EventError::ValidationError(m) => m.as_str(),
            EventError::InvariantError(m) => m.as_str(),
        }
    }

    /// What `to_string()` gives through `Display`.
    pub fn to_text(&self) -> (r: String)
        ensures
            r@ == event_error_text(self@),
    {
        match self {
            EventError::ValidationError(m) => {
                let mut r = owned("validation error: ");
                r.append(m.as_str());
                r
            },
            EventError::InvariantError(m) => {
                let mut r = owned("invariant error: ");
                r.append(m.as_str());
                r
            },
        }
    }
}

} // verus!
