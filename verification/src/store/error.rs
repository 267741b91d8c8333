//! Errors of the event store.
use vstd::prelude::*;

use crate::text::owned;

verus! {

#[derive(Debug, Clone, PartialEq, Eq)]
pub enum StoreError {
    InvalidData(String),
}

impl View for StoreError {
    type V = Seq<char>;

    open spec fn view(&self) -> Seq<char> {
        match self {
            StoreError::InvalidData(m) => m@,
        }
    }
}

impl StoreError {
    pub fn invalid_data(message: &str) -> (r: Self)
        ensures
            r@ == message@,
    {
        StoreError::InvalidData(owned(message))
    }

    /// What `Display` writes: `invalid store data: {message}`.
    pub fn to_text(&self) -> (r: String)
        ensures
            r@ == "invalid store data: "@ + self@,
    {
        match self {
            StoreError::InvalidData(m) => {
                let mut r = owned("invalid store data: ");
                r.append(m.as_str());
                r
            },
        }
    }
}

} // verus!
