//! The first line of a response: version and status.

use crate::http::request;
use crate::http::request::Method;
use crate::http::Version;
use crate::text::{chars_of, is, segments, segments_of, views};
use vstd::prelude::*;

verus! {

/// The status codes that a response can carry.
#[derive(Debug, Copy, Clone, Eq, PartialEq, Structural)]
pub enum Status {
    Okay,
    Created,
    NotFound,
}

/// The first line of a response.
#[derive(Debug, Copy, Clone, Eq, PartialEq, Structural)]
pub struct Startline {
    pub version: Version,
    pub status: Status,
}

impl Status {
    /// The number of the status.
    pub open spec fn code(self) -> u16 {
        match self {
            Status::Okay => 200,
            Status::Created => 201,
            Status::NotFound => 404,
        }
    }

    /// The status as it stands in a start-line: number and reason.
    pub open spec fn text(self) -> Seq<char> {
        match self {
            Status::Okay => "200 OK"@,
            Status::Created => "201 Created"@,
            Status::NotFound => "404 NotFound"@,
        }
    }

    /// The number of the status.
    pub fn number(&self) -> (r: u16)
        ensures
            r == self.code(),
    {
        match self {
            Status::Okay => 200,
            Status::Created => 201,
            Status::NotFound => 404,
        }
    }

    /// Renders the status.
    pub fn to_string(&self) -> (r: String)
        ensures
            r@ == self.text(),
    {
        match self {
            Status::Okay => String::from_str("200 OK"),
            Status::Created => String::from_str("201 Created"),
            Status::NotFound => String::from_str("404 NotFound"),
        }
    }
}

impl Startline {
    /// The start-line on the wire, for a supported version.
    pub open spec fn text(self) -> Seq<char>
        recommends
            self.version.supported(),
    {
        self.version.text() + " "@ + self.status.text() + "\r\n"@
    }

    /// The status that the start-line of a request alone decides: success
    /// for the root and for the echo route, "not found" for any other path.
    pub open spec fn status_for(path: Seq<char>) -> Status {
        if path == "/"@ {
            Status::Okay
        } else if segments(path).len() > 0 && segments(path)[0] == "echo"@ {
            Status::Okay
        } else {
            Status::NotFound
        }
    }

    /// The start-line that answers the start-line of a request. Only `GET`
    /// is answered; any other method is an error that names it.
    pub open spec fn answer(value: request::StartlineView) -> Result<Startline, Seq<char>> {
        match value.method {
            Method::Get => Ok(
                Startline { version: value.version, status: Self::status_for(value.target.path) },
            ),
            _ => Err(value.method.text() + " is not implemented"@),
        }
    }

    /// Renders the start-line as it stands on the wire.
    pub fn to_string(&self) -> (r: String)
        requires
            self.version.supported(),
        ensures
            r@ == self.text(),
    {
        let mut s = self.version.to_string();
        s.append(" ");
        s.append(self.status.to_string().as_str());
        s.append("\r\n");
        s
    }

    /// Derives the start-line of the response from that of the request.
    pub fn try_from(value: request::Startline) -> (r: Result<Startline, String>)
        ensures
            match r {
                Ok(l) => Self::answer(value@) == Ok::<Startline, Seq<char>>(l),
                Err(e) => Self::answer(value@) == Err::<Startline, Seq<char>>(e@),
            },
    {
        match value.method {
            Method::Get => {
                let version = value.version;
                let path = chars_of(value.target.path.as_str());
                let status = if is(path.as_slice(), "/") {
                    Status::Okay
                } else {
                    let parts = segments_of(path.as_slice());
                    assert(views(parts@).len() == parts.len());
                    if parts.len() > 0 {
                        assert(views(parts@)[0] == parts@[0]@);
                    }
                    if parts.len() > 0 && is(parts[0], "echo") {
                        Status::Okay
                    } else {
                        Status::NotFound
                    }
                };
                Ok(Startline { version, status })
            },
            _ => {
                let mut message = value.method.to_string();
                message.append(" is not implemented");
                Err(message)
            },
        }
    }
}

} // verus!
