//! The `Content-Type` header.

use crate::http::header::error::{Error, ErrorView};
use crate::text::{chars_of, is, string_of};
use vstd::prelude::*;

verus! {

/// Content types
#[derive(Debug, Copy, Clone, Eq, PartialEq, Structural)]
pub enum Kind {
    /// Plain text content
    Plaintext,
    /// Octet stream
    Appbytestream,
}

impl Kind {
    /// The media type as it stands in a header line.
    pub open spec fn text(self) -> Seq<char> {
        match self {
            Kind::Plaintext => "text/plain"@,
            Kind::Appbytestream => "application/octet-stream"@,
        }
    }

    /// What a header value means: two media types are known.
    pub open spec fn parsed(s: Seq<char>) -> Result<Kind, ErrorView> {
        if s == "text/plain"@ {
            Ok(Kind::Plaintext)
        } else if s == "application/octet-stream"@ {
            Ok(Kind::Appbytestream)
        } else {
            Err(ErrorView::Unrecognized(s))
        }
    }

    /// Renders the value of the header.
    pub fn to_string(&self) -> (r: String)
        ensures
            r@ == self.text(),
    {
        match self {
            Kind::Plaintext => String::from_str("text/plain"),
            Kind::Appbytestream => String::from_str("application/octet-stream"),
        }
    }

    /// Reads the value of the header from its characters.
    pub fn from_chars(s: &[char]) -> (r: Result<Kind, Error>)
        ensures
            match r {
                Ok(k) => Self::parsed(s@) == Ok::<Kind, ErrorView>(k),
                Err(e) => Self::parsed(s@) == Err::<Kind, ErrorView>(e@),
            },
    {
        if is(s, "text/plain") {
            Ok(Kind::Plaintext)
        } else if is(s, "application/octet-stream") {
            Ok(Kind::Appbytestream)
        } else {
            Err(Error::Unrecognized(string_of(s)))
        }
    }

    /// Reads the value of the header.
    pub fn from_str(s: &str) -> (r: Result<Kind, Error>)
        ensures
            match r {
                Ok(k) => Self::parsed(s@) == Ok::<Kind, ErrorView>(k),
                Err(e) => Self::parsed(s@) == Err::<Kind, ErrorView>(e@),
            },
    {
        let chars = chars_of(s);
        Self::from_chars(chars.as_slice())
    }
}

} // verus!
