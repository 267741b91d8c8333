//! Errors of the projections built over the event log.
use vstd::prelude::*;

use crate::codecs::CodecError;
use crate::text::owned;

verus! {

#[derive(Debug, Clone, PartialEq, Eq)]
pub enum ProjectionError {
    Codec(CodecError),
    InvalidState(String),
}

pub enum ProjectionErrorView {
    Codec(Seq<char>),
    InvalidState(Seq<char>),
}

impl View for ProjectionError {
    type V = ProjectionErrorView;

    open spec fn view(&self) -> ProjectionErrorView {
        match self {
            ProjectionError::Codec(c) => ProjectionErrorView::Codec(c@),
            ProjectionError::InvalidState(m) => ProjectionErrorView::InvalidState(m@),
        }
    }
}

pub open spec fn projection_error_text(e: ProjectionErrorView) -> Seq<char> {
    match e {
        ProjectionErrorView::Codec(m) => "projection codec error: "@ + m,
        ProjectionErrorView::InvalidState(m) => "projection invalid state: "@ + m,
    }
}

impl ProjectionError {
    pub fn invalid_state(message: &str) -> (r: Self)
        ensures
            r@ == ProjectionErrorView::InvalidState(message@),
    {
        ProjectionError::InvalidState(owned(message))
    }

    /// What `Display` writes for this error.
    pub fn to_text(&self) -> (r: String)
        ensures
            r@ == projection_error_text(self@),
    {
        match self {
            ProjectionError::Codec(CodecError::PayloadMismatch(m)) => {
                let mut r = owned("projection codec error: ");
                r.append(m.as_str());
                r
            },
            ProjectionError::InvalidState(m) => {
                let mut r = owned("projection invalid state: ");
                r.append(m.as_str());
                r
            },
        }
    }
}

} // verus!
