//! What can go wrong when a header line is read.

use crate::http::header::{Kind, KindView};
use vstd::prelude::*;

verus! {

/// Errors related to headers
#[derive(Debug, Clone, Eq, PartialEq)]
pub enum Error {
    /// Errors related to parsing headers
    Parse(Kind, String),
    /// Errors related to parsing format of headers
    ParseFormat(Kind, String),
    /// Errors related to unrecognized headers
    Unrecognized(String),
}

/// An error as a value of mathematics.
pub enum ErrorView {
    Parse(KindView, Seq<char>),
    ParseFormat(KindView, Seq<char>),
    Unrecognized(Seq<char>),
}

impl View for Error {
    type V = ErrorView;

    open spec fn view(&self) -> ErrorView {
        match self {
            Error::Parse(kind, message) => ErrorView::Parse(kind@, message@),
            Error::ParseFormat(kind, message) => ErrorView::ParseFormat(kind@, message@),
            Error::Unrecognized(message) => ErrorView::Unrecognized(message@),
        }
    }
}

impl ErrorView {
    /// The error in words, after the place it comes from.
    pub open spec fn text(self) -> Seq<char> {
        match self {
            ErrorView::Parse(kind, message) => "[http_server::http::header::error] "@
                + kind.text() + " parse error: "@ + message,
            ErrorView::ParseFormat(kind, message) => "[http_server::http::header::error] "@
                + kind.text() + " format parse error: "@ + message,
            ErrorView::Unrecognized(message) => "[http_server::http::header::error] "@
                + "unrecognized header "@ + message,
        }
    }
}

impl Error {
    /// Renders the error in words.
    pub fn to_string(&self) -> (r: String)
        ensures
            r@ == self@.text(),
    {
        let mut s = String::from_str("[http_server::http::header::error] ");
        match self {
            Error::Parse(kind, message) => {
                s.append(kind.to_string().as_str());
                s.append(" parse error: ");
                s.append(message.as_str());
            },
            Error::ParseFormat(kind, message) => {
                s.append(kind.to_string().as_str());
                s.append(" format parse error: ");
                s.append(message.as_str());
            },
            Error::Unrecognized(message) => {
                s.append("unrecognized header ");
                s.append(message.as_str());
            },
        }
        s
    }
}

} // verus!
