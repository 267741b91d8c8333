//! Errors of the materialization flows.
use vstd::prelude::*;

use crate::codecs::CodecError;
use crate::events::{EventError, EventErrorView};
use crate::queries::{QueryError, QueryErrorView};
use crate::store::StoreError;
use crate::text::owned;

verus! {

#[derive(Debug)]
pub enum MaterializationError {
    Query(QueryError),
    Store(StoreError),
    Event(EventError),
    Codec(CodecError),
    InvalidState(String),
    Serde(serde_json::Error),
}

pub enum MaterializationErrorView {
    Query(QueryErrorView),
    Store(Seq<char>),
    Event(EventErrorView),
    Codec(Seq<char>),
    InvalidState(Seq<char>),
    Serde,
}

impl View for MaterializationError {
    type V = MaterializationErrorView;

    open spec fn view(&self) -> MaterializationErrorView {
        match self {
            MaterializationError::Query(e) => MaterializationErrorView::Query(e@),
            MaterializationError::Store(e) => MaterializationErrorView::Store(e@),
            MaterializationError::Event(e) => MaterializationErrorView::Event(e@),
            MaterializationError::Codec(e) => MaterializationErrorView::Codec(e@),
            MaterializationError::InvalidState(m) => MaterializationErrorView::InvalidState(m@),
            MaterializationError::Serde(_) => MaterializationErrorView::Serde,
        }
    }
}

impl MaterializationError {
    pub fn invalid_state(message: &str) -> (r: Self)
        ensures
            r@ == MaterializationErrorView::InvalidState(message@),
    {
        MaterializationError::InvalidState(owned(message))
    }
}

} // verus!
