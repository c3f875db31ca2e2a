//! The `Connection` header.

use crate::http::header::error::{Error, ErrorView};
use crate::text::{chars_of, is, push_all};
use vstd::prelude::*;

verus! {

/// Connection kinds
#[derive(Debug, Copy, Clone, Eq, PartialEq, Structural)]
pub enum Kind {
    /// Connection keep alive
    KeepAlive,
    /// Any unrecognized or unimplemented connection kind
    Unrecognized,
}

impl Kind {
    /// The value as it stands in a header line.
    pub open spec fn text(self) -> Seq<char> {
        match self {
            Kind::KeepAlive => "keep-alive"@,
            Kind::Unrecognized => "unrecognized"@,
        }
    }

    /// What a header value means: only `keep-alive` is known.
    pub open spec fn parsed(s: Seq<char>) -> Result<Kind, ErrorView> {
        if s == "keep-alive"@ {
            Ok(Kind::KeepAlive)
        } else {
            Err(ErrorView::Unrecognized("unknown connection kind value "@ + s))
        }
    }

    /// Renders the value of the header.
    pub fn to_string(&self) -> (r: String)
        ensures
            r@ == self.text(),
    {
        match self {
            Kind::KeepAlive => String::from_str("keep-alive"),
            Kind::Unrecognized => String::from_str("unrecognized"),
        }
    }

    /// Reads the value of the header from its characters.
    pub fn from_chars(s: &[char]) -> (r: Result<Kind, Error>)
        ensures
            match r {
                Ok(k) => Self::parsed(s@) == Ok::<Kind, ErrorView>(k),
                Err(e) => Self::parsed(s@) == Err::<Kind, ErrorView>(e@),
            },
    {
        if is(s, "keep-alive") {
            Ok(Kind::KeepAlive)
        } else {
            let mut message = String::from_str("unknown connection kind value ");
            push_all(&mut message, s);
            Err(Error::Unrecognized(message))
        }
    }

    /// Reads the value of the header.
    pub fn from_str(s: &str) -> (r: Result<Kind, Error>)
        ensures
            match r {
                Ok(k) => Self::parsed(s@) == Ok::<Kind, ErrorView>(k),
                Err(e) => Self::parsed(s@) == Err::<Kind, ErrorView>(e@),
            },
    {
        let chars = chars_of(s);
        Self::from_chars(chars.as_slice())
    }
}

} // verus!
