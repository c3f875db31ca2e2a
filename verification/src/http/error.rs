//! What can go wrong when a version is read.

use vstd::prelude::*;

verus! {

/// Errors related to versions
#[derive(Debug, Clone, Eq, PartialEq)]
pub enum Error {
    /// The text before the slash is not `HTTP`: both sides of the slash.
    ParseVersion(String, String),
    /// The text has no slash, or no number after it: the whole text.
    ParseVersionFormat(String),
}

/// An error as a value of mathematics.
pub enum ErrorView {
    ParseVersion(Seq<char>, Seq<char>),
    ParseVersionFormat(Seq<char>),
}

impl View for Error {
    type V = ErrorView;

    open spec fn view(&self) -> ErrorView {
        match self {
            Error::ParseVersion(first, second) => ErrorView::ParseVersion(first@, second@),
            Error::ParseVersionFormat(message) => ErrorView::ParseVersionFormat(message@),
        }
    }
}

impl ErrorView {
    /// The error in words, after the place it comes from.
    pub open spec fn text(self) -> Seq<char> {
        match self {
            ErrorView::ParseVersion(first, second) => "[http_server::http::error] "@
                + "parse version error "@ + first + "/"@ + second,
            ErrorView::ParseVersionFormat(message) => "[http_server::http::error] "@
                + "parse version format error "@ + message,
        }
    }
}

impl Error {
    /// Renders the error in words.
    pub fn to_string(&self) -> (r: String)
        ensures
            r@ == self@.text(),
    {
        let mut s = String::from_str("[http_server::http::error] ");
        match self {
            Error::ParseVersion(first, second) => {
                s.append("parse version error ");
                s.append(first.as_str());
                s.append("/");
                s.append(second.as_str());
            },
            Error::ParseVersionFormat(message) => {
                s.append("parse version format error ");
                s.append(message.as_str());
            },
        }
        s
    }
}

} // verus!
