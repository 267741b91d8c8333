//! Errors of the governance queries.
use vstd::prelude::*;

use crate::codecs::CodecError;
use crate::projections::{projection_error_text, ProjectionError, ProjectionErrorView};
use crate::store::StoreError;
use crate::text::owned;

verus! {

#[derive(Debug, Clone, PartialEq, Eq)]
pub enum QueryError {
    Store(StoreError),
    Projection(ProjectionError),
    Codec(CodecError),
}

pub enum QueryErrorView {
    Store(Seq<char>),
    Projection(ProjectionErrorView),
    Codec(Seq<char>),
}

impl View for QueryError {
    type V = QueryErrorView;

    open spec fn view(&self) -> QueryErrorView {
        match self {
            QueryError::Store(e) => QueryErrorView::Store(e@),
            QueryError::Projection(e) => QueryErrorView::Projection(e@),
            QueryError::Codec(e) => QueryErrorView::Codec(e@),
        }
    }
}

pub open spec fn query_error_text(e: QueryErrorView) -> Seq<char> {
    match e {
        QueryErrorView::Store(m) => "query store error: "@ + "invalid store data: "@ + m,
        QueryErrorView::Projection(p) => "query projection error: "@ + projection_error_text(p),
        QueryErrorView::Codec(m) => "query codec error: "@ + m,
    }
}

impl QueryError {
    /// What `Display` writes for this error.
    pub fn to_text(&self) -> (r: String)
        ensures
            r@ == query_error_text(self@),
    {
        match self {
            QueryError::Store(e) => {
                let mut r = owned("query store error: ");
                let inner = e.to_text();
                r.append(inner.as_str());
                r
            },
            QueryError::Projection(e) => {
                let mut r = owned("query projection error: ");
                let inner = e.to_text();
                r.append(inner.as_str());
                r
            },
            QueryError::Codec(CodecError::PayloadMismatch(m)) => {
                let mut r = owned("query codec error: ");
                r.append(m.as_str());
                r
            },
        }
    }
}

} // verus!
