//! Header lines: one variant for each header name that is known.

/// What can go wrong when a header line is read
pub mod error;

/// The `User-Agent` header
pub mod user_agent;

/// The `Connection` header
pub mod connection;

/// The `Content-Type` header
pub mod content_type;

/// Writing a header and reading it again
pub mod round_trip;

use crate::http::header::error::{Error, ErrorView};
use crate::number::{digits, number_string, parse, parse_number, NumberError};
use crate::text::{
    chars_of, cut, is, is_whitespace, push_all, split_once, string_of, tidy, trim, trimmed,
};
use vstd::prelude::*;

verus! {

/// Headers
#[derive(Debug, Clone, Eq, PartialEq)]
pub enum Kind {
    /// Request Header
    Host(String, Option<u16>),
    /// Request Header
    UserAgent(user_agent::Kind),
    /// Request Header
    Accept(String),
    /// Request Header
    AcceptLanguage(String),
    /// Request Header
    AcceptEncoding(String),
    /// General Header
    Connection(connection::Kind),
    /// General Header
    UpgradeInsecureRequests(u32),
    /// Representation Header
    ContentType(content_type::Kind),
    /// Representation Header
    ContentLength(usize),
}

/// A header as a value of mathematics.
pub enum KindView {
    Host(Seq<char>, Option<u16>),
    UserAgent(user_agent::KindView),
    Accept(Seq<char>),
    AcceptLanguage(Seq<char>),
    AcceptEncoding(Seq<char>),
    Connection(connection::Kind),
    UpgradeInsecureRequests(u32),
    ContentType(content_type::Kind),
    ContentLength(usize),
}

impl View for Kind {
    type V = KindView;

    open spec fn view(&self) -> KindView {
        match self {
            Kind::Host(host, number) => KindView::Host(host@, *number),
            Kind::UserAgent(agent) => KindView::UserAgent(agent@),
            Kind::Accept(accepted) => KindView::Accept(accepted@),
            Kind::AcceptLanguage(accepted) => KindView::AcceptLanguage(accepted@),
            Kind::AcceptEncoding(accepted) => KindView::AcceptEncoding(accepted@),
            Kind::Connection(connection) => KindView::Connection(*connection),
            Kind::UpgradeInsecureRequests(count) => KindView::UpgradeInsecureRequests(*count),
            Kind::ContentType(content_type) => KindView::ContentType(*content_type),
            Kind::ContentLength(length) => KindView::ContentLength(*length),
        }
    }
}

/// The views of the headers in `headers`, in order.
pub open spec fn views(headers: Seq<Kind>) -> Seq<KindView> {
    headers.map_values(|h: Kind| h@)
}

impl KindView {
    /// The name of the header.
    pub open spec fn name(self) -> Seq<char> {
        match self {
            KindView::Host(_, _) => "Host"@,
            KindView::UserAgent(_) => "User-Agent"@,
            KindView::Accept(_) => "Accept"@,
            KindView::AcceptLanguage(_) => "Accept-Language"@,
            KindView::AcceptEncoding(_) => "Accept-Encoding"@,
            KindView::Connection(_) => "Connection"@,
            KindView::UpgradeInsecureRequests(_) => "Upgrade-Insecure-Requests"@,
            KindView::ContentType(_) => "Content-Type"@,
            KindView::ContentLength(_) => "Content-Length"@,
        }
    }

    /// The value of the header, as it stands after the name and the colon.
    pub open spec fn value(self) -> Seq<char> {
        match self {
            KindView::Host(host, None) => host,
            KindView::Host(host, Some(number)) => host + ":"@ + digits(number as nat),
            KindView::UserAgent(agent) => agent.text(),
            KindView::Accept(accepted) => accepted,
            KindView::AcceptLanguage(accepted) => accepted,
            KindView::AcceptEncoding(accepted) => accepted,
            KindView::Connection(connection) => connection.text(),
            KindView::UpgradeInsecureRequests(count) => digits(count as nat),
            KindView::ContentType(content_type) => content_type.text(),
            KindView::ContentLength(length) => digits(length as nat),
        }
    }

    /// The header as a line on the wire: name, colon, space, value, and the
    /// end of the line.
    pub open spec fn text(self) -> Seq<char> {
        self.name() + ": "@ + self.value() + "\r\n"@
    }

    /// The headers that are read back as they were written. A text value
    /// neither starts nor ends with white space; a host holds no colon, and
    /// before a number it may end with white space; a user agent is
    /// canonical; a connection is one that is known.
    pub open spec fn canonical(self) -> bool {
        match self {
            KindView::Host(host, None) => tidy(host) && !host.contains(':'),
            KindView::Host(host, Some(_)) => !host.contains(':') && (host.len() > 0
                ==> !is_whitespace(host[0])),
            KindView::UserAgent(agent) => agent.canonical(),
            KindView::Accept(accepted) => tidy(accepted),
            KindView::AcceptLanguage(accepted) => tidy(accepted),
            KindView::AcceptEncoding(accepted) => tidy(accepted),
            KindView::Connection(connection) => connection == connection::Kind::KeepAlive,
            KindView::UpgradeInsecureRequests(_) => true,
            KindView::ContentType(_) => true,
            KindView::ContentLength(_) => true,
        }
    }

    /// What the value of a `Host` header means: a host alone, or a host and,
    /// after the first colon, a number that fits sixteen bits.
    pub open spec fn parsed_host(value: Seq<char>) -> Result<KindView, ErrorView> {
        match split_once(value, ':') {
            Some((address, number)) => match parse(number, u16::MAX as nat) {
                Ok(n) => Ok(KindView::Host(address, Some(n as u16))),
                Err(e) => Err(
                    ErrorView::Parse(
                        KindView::Host(value, None),
                        e.text() + " error on trying to parse port "@ + number,
                    ),
                ),
            },
            None => Ok(KindView::Host(value, None)),
        }
    }

    /// What the value of an `Upgrade-Insecure-Requests` header means: a
    /// number that fits thirty-two bits.
    pub open spec fn parsed_upgrade(value: Seq<char>) -> Result<KindView, ErrorView> {
        match parse(value, u32::MAX as nat) {
            Ok(n) => Ok(KindView::UpgradeInsecureRequests(n as u32)),
            Err(e) => Err(
                ErrorView::Parse(
                    KindView::UpgradeInsecureRequests(0),
                    e.text() + " error on trying to parse UIR count: "@ + value,
                ),
            ),
        }
    }

    /// What the value of a `Content-Length` header means: a number that fits
    /// a `usize`.
    pub open spec fn parsed_length(value: Seq<char>) -> Result<KindView, ErrorView> {
        match parse(value, usize::MAX as nat) {
            Ok(n) => Ok(KindView::ContentLength(n as usize)),
            Err(e) => Err(
                ErrorView::Parse(
                    KindView::ContentLength(0),
                    e.text() + " error on trying to parse content length "@ + value,
                ),
            ),
        }
    }

    /// What a header line means. The line is cut at its first colon; the
    /// name before it and the value after it are trimmed; the name decides
    /// how the value is read. A name that is not known, and a line without
    /// a colon, are errors.
    pub open spec fn parsed(line: Seq<char>) -> Result<KindView, ErrorView> {
        let (key, value) = match split_once(line, ':') {
            Some(pair) => pair,
            None => (Seq::empty(), Seq::empty()),
        };
        let name = trim(key);
        let v = trim(value);
        if name == "Host"@ {
            Self::parsed_host(v)
        } else if name == "User-Agent"@ {
            Ok(KindView::UserAgent(user_agent::KindView::parsed(v)))
        } else if name == "Accept"@ {
            Ok(KindView::Accept(v))
        } else if name == "Accept-Language"@ {
            Ok(KindView::AcceptLanguage(v))
        } else if name == "Accept-Encoding"@ {
            Ok(KindView::AcceptEncoding(v))
        } else if name == "Connection"@ {
            match connection::Kind::parsed(v) {
                Ok(connection) => Ok(KindView::Connection(connection)),
                Err(e) => Err(e),
            }
        } else if name == "Upgrade-Insecure-Requests"@ {
            Self::parsed_upgrade(v)
        } else if name == "Content-Type"@ {
            match content_type::Kind::parsed(v) {
                Ok(content_type) => Ok(KindView::ContentType(content_type)),
                Err(e) => Err(e),
            }
        } else if name == "Content-Length"@ {
            Self::parsed_length(v)
        } else {
            Err(ErrorView::Unrecognized("unknown header "@ + key + ": "@ + value))
        }
    }
}

/// The message of an error about a number: what went wrong, where, and the
/// text that was read.
fn number_message(e: NumberError, place: &str, text: &[char]) -> (r: String)
    ensures
        r@ == e.text() + place@ + text@,
{
    let mut message = e.to_string();
    message.append(place);
    push_all(&mut message, text);
    message
}

impl Kind {
    /// The name of the header.
    pub fn name(&self) -> (r: &'static str)
        ensures
            r@ == self@.name(),
    {
        match self {
            Kind::Host(_, _) => "Host",
            Kind::UserAgent(_) => "User-Agent",
            Kind::Accept(_) => "Accept",
            Kind::AcceptLanguage(_) => "Accept-Language",
            Kind::AcceptEncoding(_) => "Accept-Encoding",
            Kind::Connection(_) => "Connection",
            Kind::UpgradeInsecureRequests(_) => "Upgrade-Insecure-Requests",
            Kind::ContentType(_) => "Content-Type",
            Kind::ContentLength(_) => "Content-Length",
        }
    }

    /// Renders the value of the header.
    pub fn value(&self) -> (r: String)
        ensures
            r@ == self@.value(),
    {
        match self {
            Kind::Host(host, None) => host.clone(),
            Kind::Host(host, Some(number)) => {
                let mut s = host.clone();
                s.append(":");
                s.append(number_string(*number as u64).as_str());
                s
            },
            Kind::UserAgent(agent) => agent.to_string(),
            Kind::Accept(accepted) => accepted.clone(),
            Kind::AcceptLanguage(accepted) => accepted.clone(),
            Kind::AcceptEncoding(accepted) => accepted.clone(),
            Kind::Connection(connection) => connection.to_string(),
            Kind::UpgradeInsecureRequests(count) => number_string(*count as u64),
            Kind::ContentType(content_type) => content_type.to_string(),
            Kind::ContentLength(length) => number_string(*length as u64),
        }
    }

    /// Renders the header as a line on the wire.
    pub fn to_string(&self) -> (r: String)
        ensures
            r@ == self@.text(),
    {
        let mut s = String::from_str(self.name());
        s.append(": ");
        s.append(self.value().as_str());
        s.append("\r\n");
        s
    }

    /// Reads the value of a `Host` header.
    fn host_from_chars(value: &[char]) -> (r: Result<Kind, Error>)
        ensures
            match r {
                Ok(k) => KindView::parsed_host(value@) == Ok::<KindView, ErrorView>(k@),
                Err(e) => KindView::parsed_host(value@) == Err::<KindView, ErrorView>(e@),
            },
    {
        match cut(value, ':') {
            Some((address, number)) => match parse_number(number, u16::MAX as u64) {
                Ok(n) => Ok(Kind::Host(string_of(address), Some(n as u16))),
                Err(e) => Err(
                    Error::Parse(
                        Kind::Host(string_of(value), None),
                        number_message(e, " error on trying to parse port ", number),
                    ),
                ),
            },
            None => Ok(Kind::Host(string_of(value), None)),
        }
    }

    /// Reads the value of an `Upgrade-Insecure-Requests` header.
    fn upgrade_from_chars(value: &[char]) -> (r: Result<Kind, Error>)
        ensures
            match r {
                Ok(k) => KindView::parsed_upgrade(value@) == Ok::<KindView, ErrorView>(k@),
                Err(e) => KindView::parsed_upgrade(value@) == Err::<KindView, ErrorView>(e@),
            },
    {
        match parse_number(value, u32::MAX as u64) {
            Ok(n) => Ok(Kind::UpgradeInsecureRequests(n as u32)),
            Err(e) => Err(
                Error::Parse(
                    Kind::UpgradeInsecureRequests(0u32),
                    number_message(e, " error on trying to parse UIR count: ", value),
                ),
            ),
        }
    }

    /// Reads the value of a `Content-Length` header.
    fn length_from_chars(value: &[char]) -> (r: Result<Kind, Error>)
        ensures
            match r {
                Ok(k) => KindView::parsed_length(value@) == Ok::<KindView, ErrorView>(k@),
                Err(e) => KindView::parsed_length(value@) == Err::<KindView, ErrorView>(e@),
            },
    {
        match parse_number(value, usize::MAX as u64) {
            Ok(n) => Ok(Kind::ContentLength(n as usize)),
            Err(e) => Err(
                Error::Parse(
                    Kind::ContentLength(0usize),
                    number_message(e, " error on trying to parse content length ", value),
                ),
            ),
        }
    }

    /// Reads a header line from its characters.
    pub fn from_chars(line: &[char]) -> (r: Result<Kind, Error>)
        ensures
            match r {
                Ok(k) => KindView::parsed(line@) == Ok::<KindView, ErrorView>(k@),
                Err(e) => KindView::parsed(line@) == Err::<KindView, ErrorView>(e@),
            },
    {
        let nothing: Vec<char> = Vec::new();
        let (key, value) = match cut(line, ':') {
            Some(pair) => pair,
            None => (nothing.as_slice(), nothing.as_slice()),
        };
        let name = trimmed(key);
        let v = trimmed(value);
        if is(name, "Host") {
            Self::host_from_chars(v)
        } else if is(name, "User-Agent") {
            match user_agent::Kind::from_chars(v) {
                Ok(agent) => Ok(Kind::UserAgent(agent)),
                Err(e) => Err(e),
            }
        } else if is(name, "Accept") {
            Ok(Kind::Accept(string_of(v)))
        } else if is(name, "Accept-Language") {
            Ok(Kind::AcceptLanguage(string_of(v)))
        } else if is(name, "Accept-Encoding") {
            Ok(Kind::AcceptEncoding(string_of(v)))
        } else if is(name, "Connection") {
            match connection::Kind::from_chars(v) {
                Ok(connection) => Ok(Kind::Connection(connection)),
                Err(e) => Err(e),
            }
        } else if is(name, "Upgrade-Insecure-Requests") {
            Self::upgrade_from_chars(v)
        } else if is(name, "Content-Type") {
            match content_type::Kind::from_chars(v) {
                Ok(content_type) => Ok(Kind::ContentType(content_type)),
                Err(e) => Err(e),
            }
        } else if is(name, "Content-Length") {
            Self::length_from_chars(v)
        } else {
            let mut message = String::from_str("unknown header ");
            push_all(&mut message, key);
            message.append(": ");
            push_all(&mut message, value);
            Err(Error::Unrecognized(message))
        }
    }

    /// Reads a header line.
    pub fn from_str(value: &str) -> (r: Result<Kind, Error>)
        ensures
            match r {
                Ok(k) => KindView::parsed(value@) == Ok::<KindView, ErrorView>(k@),
                Err(e) => KindView::parsed(value@) == Err::<KindView, ErrorView>(e@),
            },
    {
        let chars = chars_of(value);
        Self::from_chars(chars.as_slice())
    }

    /// Returns true for headers that modify the request by specifying it further, by giving context, or by conditionally restricting it
    pub fn is_request_header(&self) -> (r: bool)
        ensures
            r == (self is Host || self is UserAgent || self is Accept || self is AcceptLanguage
                || self is AcceptEncoding),
    {
        matches!(
            self,
            Kind::Host(_, _) | Kind::UserAgent(_) | Kind::Accept(_) | Kind::AcceptLanguage(_)
                | Kind::AcceptEncoding(_)
        )
    }

    /// Returns true for headers that apply to the message as a whole
    pub fn is_general_header(&self) -> (r: bool)
        ensures
            r == (self is Connection || self is UpgradeInsecureRequests),
    {
        matches!(self, Kind::Connection(_) | Kind::UpgradeInsecureRequests(_))
    }

    /// Returns true for headers that describe the format of the message data and any encoding applied (only present if the message has a body)
    pub fn is_representation_header(&self) -> (r: bool)
        ensures
            r == (self is ContentType || self is ContentLength),
    {
        matches!(self, Kind::ContentType(_) | Kind::ContentLength(_))
    }
}

} // verus!
