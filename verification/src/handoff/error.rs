//! What goes wrong when research signals are handed off to the log.
use vstd::prelude::*;

use crate::events::{event_error_text, EventError, EventErrorView};
use crate::store::{StoreError};
use crate::text::owned;

verus! {

#[verifier::external_type_specification]
#[verifier::external_body]
pub struct ExFromUtf8Error(std::string::FromUtf8Error);

#[derive(Debug)]
pub enum HandoffError {
    Io(std::io::Error),
    Store(StoreError),
    Event(EventError),
    Serde(serde_json::Error),
    Utf8(std::string::FromUtf8Error),
    InvalidInput(String),
    UnsupportedFormat { path: String, message: String },
    DecoderFailed(String),
}

pub enum HandoffErrorView {
    Io,
    Store(Seq<char>),
    Event(EventErrorView),
    Serde,
    Utf8,
    InvalidInput(Seq<char>),
    UnsupportedFormat { path: Seq<char>, message: Seq<char> },
    DecoderFailed(Seq<char>),
}

impl View for HandoffError {
    type V = HandoffErrorView;

    open spec fn view(&self) -> HandoffErrorView {
        match self {
            HandoffError::Io(_) => HandoffErrorView::Io,
            HandoffError::Store(e) => HandoffErrorView::Store(e@),
            HandoffError::Event(e) => HandoffErrorView::Event(e@),
            HandoffError::Serde(_) => HandoffErrorView::Serde,
            HandoffError::Utf8(_) => HandoffErrorView::Utf8,
            HandoffError::InvalidInput(m) => HandoffErrorView::InvalidInput(m@),
            HandoffError::UnsupportedFormat { path, message } => HandoffErrorView::UnsupportedFormat {
                path: path@,
                message: message@,
            },
            HandoffError::DecoderFailed(m) => HandoffErrorView::DecoderFailed(m@),
        }
    }
}

/// Calls `to_string` on an I/O error; nothing is promised of the text.
#[verifier::external_body]
fn io_error_message(e: &std::io::Error) -> String {
    e.to_string()
}

/// Calls `to_string` on a `serde_json` error; nothing is promised of the text.
#[verifier::external_body]
fn serde_error_message(e: &serde_json::Error) -> String {
    e.to_string()
}

/// Calls `to_string` on a UTF-8 decoding error; nothing is promised of the text.
#[verifier::external_body]
fn utf8_error_message(e: &std::string::FromUtf8Error) -> String {
    e.to_string()
}

/// The message of an error whose own text is the library's.
pub open spec fn handoff_error_text(e: HandoffErrorView) -> Option<Seq<char>> {
    match e {
        HandoffErrorView::Store(m) => Some("handoff store error: "@ + "invalid store data: "@ + m),
        HandoffErrorView::Event(x) => Some("handoff event error: "@ + event_error_text(x)),
        HandoffErrorView::InvalidInput(m) => Some("handoff invalid input: "@ + m),
        HandoffErrorView::UnsupportedFormat { path, message } => Some(
            "handoff unsupported format for "@ + path + ": "@ + message,
        ),
        HandoffErrorView::DecoderFailed(m) => Some("handoff decoder failed: "@ + m),
        _ => None,
    }
}

/// The prefix of the message of an error that wraps an outside error.
pub open spec fn handoff_error_prefix(e: HandoffErrorView) -> Seq<char> {
    match e {
        HandoffErrorView::Io => "handoff io error: "@,
        HandoffErrorView::Serde => "handoff serialization error: "@,
        _ => "handoff utf8 error: "@,
    }
}

impl HandoffError {
    pub fn invalid_input(message: &str) -> (r: Self)
        ensures
            r@ == HandoffErrorView::InvalidInput(message@),
    {
        HandoffError::InvalidInput(owned(message))
    }

    pub fn unsupported_format(path: &str, message: &str) -> (r: Self)
        ensures
            r@ == (HandoffErrorView::UnsupportedFormat { path: path@, message: message@ }),
    {
        HandoffError::UnsupportedFormat { path: owned(path), message: owned(message) }
    }

    /// The error's message, as its `Display` writes it; an outside error's own
    /// text follows the prefix.
    pub fn to_text(&self) -> (r: String)
        ensures
            match handoff_error_text(self@) {
                Some(t) => r@ == t,
                None => handoff_error_prefix(self@).len() <= r@.len() && r@.take(
                    handoff_error_prefix(self@).len() as int,
                ) == handoff_error_prefix(self@),
            },
    {
        match self {
            HandoffError::Io(e) => {
                let mut r = owned("handoff io error: ");
                let m = io_error_message(e);
                r.append(m.as_str());
                proof {
                    assert(r@ == handoff_error_prefix(self@) + m@);
                    assert(r@.take(handoff_error_prefix(self@).len() as int) =~= handoff_error_prefix(self@));
                }
                r
            },
            HandoffError::Store(e) => {
                let mut r = owned("handoff store error: ");
                let m = e.to_text();
                r.append(m.as_str());
                r
            },
            HandoffError::Event(e) => {
                let mut r = owned("handoff event error: ");
                let m = e.to_text();
                r.append(m.as_str());
                r
            },
            HandoffError::Serde(e) => {
                let mut r = owned("handoff serialization error: ");
                let m = serde_error_message(e);
                r.append(m.as_str());
                proof {
                    assert(r@ == handoff_error_prefix(self@) + m@);
                    assert(r@.take(handoff_error_prefix(self@).len() as int) =~= handoff_error_prefix(self@));
                }
                r
            },
            HandoffError::Utf8(e) => {
                let mut r = owned("handoff utf8 error: ");
                let m = utf8_error_message(e);
                r.append(m.as_str());
                proof {
                    assert(r@ == handoff_error_prefix(self@) + m@);
                    assert(r@.take(handoff_error_prefix(self@).len() as int) =~= handoff_error_prefix(self@));
                }
                r
            },
            HandoffError::InvalidInput(m) => {
                let mut r = owned("handoff invalid input: ");
                r.append(m.as_str());
                r
            },
            HandoffError::UnsupportedFormat { path, message } => {
                let mut r = owned("handoff unsupported format for ");
                r.append(path.as_str());
                r.append(": ");
                r.append(message.as_str());
                r
            },
            HandoffError::DecoderFailed(m) => {
                let mut r = owned("handoff decoder failed: ");
                r.append(m.as_str());
                r
            },
        }
    }
}

} // verus!
