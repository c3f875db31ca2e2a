//! The `User-Agent` header.

use crate::http::header::error::Error;
use crate::text::{chars_of, cut, is, is_whitespace, split_once, string_of, tidy};
use vstd::prelude::*;

verus! {

/// Various types of user-agents
#[derive(Debug, Clone, Eq, PartialEq)]
pub enum Kind {
    /// Curl user agent
    Curl(String),
    /// Go User Agent
    GoHttpClient(String),
    /// Any user agent
    Any(String),
    /// Unrecognized
    Unrecognized,
}

/// A user agent as a value of mathematics.
pub enum KindView {
    Curl(Seq<char>),
    GoHttpClient(Seq<char>),
    Any(Seq<char>),
    Unrecognized,
}

impl View for Kind {
    type V = KindView;

    open spec fn view(&self) -> KindView {
        match self {
            Kind::Curl(version) => KindView::Curl(version@),
            Kind::GoHttpClient(version) => KindView::GoHttpClient(version@),
            Kind::Any(agent) => KindView::Any(agent@),
            Kind::Unrecognized => KindView::Unrecognized,
        }
    }
}

impl KindView {
    /// The agent as it stands in a header line.
    pub open spec fn text(self) -> Seq<char> {
        match self {
            KindView::Curl(version) => "curl/"@ + version,
            KindView::GoHttpClient(version) => "Go-http-client/"@ + version,
            KindView::Any(agent) => agent,
            KindView::Unrecognized => "unrecognized"@,
        }
    }

    /// The agents that are read back as they were written: a version does
    /// not end with white space; an agent kept as it is neither starts nor
    /// ends with white space, and names no product that is known.
    pub open spec fn canonical(self) -> bool {
        match self {
            KindView::Curl(version) => version.len() > 0 ==> !is_whitespace(version.last()),
            KindView::GoHttpClient(version) => version.len() > 0 ==> !is_whitespace(
                version.last(),
            ),
            KindView::Any(agent) => tidy(agent) && match split_once(agent, '/') {
                Some((product, _)) => product != "curl"@ && product != "Go-http-client"@,
                None => true,
            },
            KindView::Unrecognized => false,
        }
    }

    /// What a header value means: a product named before the first slash is
    /// told apart where it is known; anything else is kept as it is.
    pub open spec fn parsed(s: Seq<char>) -> KindView {
        match split_once(s, '/') {
            Some((product, version)) => if product == "curl"@ {
                KindView::Curl(version)
            } else if product == "Go-http-client"@ {
                KindView::GoHttpClient(version)
            } else {
                KindView::Any(s)
            },
            None => KindView::Any(s),
        }
    }
}

impl Kind {
    /// Renders the value of the header.
    pub fn to_string(&self) -> (r: String)
        ensures
            r@ == self@.text(),
    {
        match self {
            Kind::Curl(version) => String::from_str("curl/").concat(version.as_str()),
            Kind::GoHttpClient(version) => String::from_str("Go-http-client/").concat(
                version.as_str(),
            ),
            Kind::Any(agent) => agent.clone(),
            Kind::Unrecognized => String::from_str("unrecognized"),
        }
    }

    /// Reads the value of the header from its characters. Every value is
    /// some user agent: this never fails.
    pub fn from_chars(s: &[char]) -> (r: Result<Kind, Error>)
        ensures
            r matches Ok(k) && k@ == KindView::parsed(s@),
    {
        match cut(s, '/') {
            Some((product, version)) => {
                if is(product, "curl") {
                    Ok(Kind::Curl(string_of(version)))
                } else if is(product, "Go-http-client") {
                    Ok(Kind::GoHttpClient(string_of(version)))
                } else {
                    Ok(Kind::Any(string_of(s)))
                }
            },
            None => Ok(Kind::Any(string_of(s))),
        }
    }

    /// Reads the value of the header. Every value is some user agent: this
    /// never fails.
    pub fn from_str(s: &str) -> (r: Result<Kind, Error>)
        ensures
            r matches Ok(k) && k@ == KindView::parsed(s@),
    {
        let chars = chars_of(s);
        Self::from_chars(chars.as_slice())
    }
}

} // verus!
