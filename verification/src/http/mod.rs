//! Requests, responses and the routes between them.

pub mod error;
pub mod header;
pub mod request;
pub mod response;

use crate::http::error::{Error, ErrorView};
use crate::http::header::content_type;
use crate::http::header::user_agent;
use crate::http::request::Method;
use crate::http::response::Status;
use crate::number::{digits, lemma_digits, parse, parse_number};
use crate::text::{
    after_line, byte_length, chars_of, copy_of, crlf, cut, decoded, first_line, is, is_line, join,
    latin1, latin1_of, lemma_after_line, lemma_line_then, lemma_span_is, lemma_split_once_is,
    lemma_split_once_none, line_at, push_joined, segments, segments_of, span, split_once,
    string_of, text_of, views,
};
use vstd::slice::slice_subrange;
use vstd::prelude::*;

verus! {

/// The size of the buffer that a request is read into. This is a hard
/// limit: of a request that is longer, only the first bytes are seen.
pub const MAX_BUFFER_SIZE: usize = 1024;

/// An HTTP version: the major number, and the minor number where there is
/// one. Only versions with the major number 1 have a minor number.
#[derive(Debug, Copy, Clone, Eq, PartialEq, Structural)]
pub struct Version(pub u8, pub Option<u8>);

impl Version {
    /// The versions that there are: a minor number stands only after the
    /// major number 1.
    pub open spec fn well_formed(self) -> bool {
        self.1 is Some ==> self.0 == 1
    }

    /// The versions that have a wire form: `HTTP/1.1` and `HTTP/2`.
    pub open spec fn supported(self) -> bool {
        self == Version(1, Some(1)) || self == Version(2, None)
    }

    /// The wire form of a supported version.
    pub open spec fn text(self) -> Seq<char>
        recommends
            self.supported(),
    {
        if self.1 is Some {
            "HTTP/1.1"@
        } else {
            "HTTP/2"@
        }
    }

    /// What a version token means. Before the slash stands `HTTP`; after it
    /// the major number, and after a dot the minor number. A minor number
    /// that cannot be read counts as absent. A major number that cannot be
    /// read, and a minor number after a major number other than 1, are
    /// errors of format.
    pub open spec fn parsed(s: Seq<char>) -> Result<Version, ErrorView> {
        match split_once(s, '/') {
            Some((protocol, numbers)) => if protocol == "HTTP"@ {
                let (major, minor) = match split_once(numbers, '.') {
                    Some((major, minor)) => (
                        major,
                        match parse(minor, u8::MAX as nat) {
                            Ok(n) => Some(n as u8),
                            Err(_) => None,
                        },
                    ),
                    None => (numbers, None),
                };
                match parse(major, u8::MAX as nat) {
                    Ok(n) => if Version(n as u8, minor).well_formed() {
                        Ok(Version(n as u8, minor))
                    } else {
                        Err(ErrorView::ParseVersionFormat(s))
                    },
                    Err(_) => Err(ErrorView::ParseVersionFormat(s)),
                }
            } else {
                Err(ErrorView::ParseVersion(protocol, numbers))
            },
            None => Err(ErrorView::ParseVersionFormat(s)),
        }
    }

    /// Whether the version has a wire form.
    pub fn is_supported(&self) -> (r: bool)
        ensures
            r == self.supported(),
    {
        match (self.0, self.1) {
            (1u8, Some(1u8)) => true,
            (2u8, None) => true,
            _ => false,
        }
    }

    /// Renders the version as it stands in a start-line.
    pub fn to_string(&self) -> (r: String)
        requires
            self.supported(),
        ensures
            r@ == self.text(),
    {
        match self.1 {
            Some(_) => String::from_str("HTTP/1.1"),
            None => String::from_str("HTTP/2"),
        }
    }

    /// Reads a version token from its characters.
    pub fn from_chars(s: &[char]) -> (r: Result<Version, Error>)
        ensures
            match r {
                Ok(v) => Self::parsed(s@) == Ok::<Version, ErrorView>(v),
                Err(e) => Self::parsed(s@) == Err::<Version, ErrorView>(e@),
            },
            r matches Ok(v) ==> v.well_formed(),
    {
        match cut(s, '/') {
            Some((protocol, numbers)) => {
                if is(protocol, "HTTP") {
                    let (major, minor) = match cut(numbers, '.') {
                        Some((major, minor)) => (
                            major,
                            match parse_number(minor, u8::MAX as u64) {
                                Ok(n) => Some(n as u8),
                                Err(_) => None,
                            },
                        ),
                        None => (numbers, None),
                    };
                    match parse_number(major, u8::MAX as u64) {
                        Ok(n) => {
                            if minor.is_some() && n != 1 {
                                Err(Error::ParseVersionFormat(string_of(s)))
                            } else {
                                Ok(Version(n as u8, minor))
                            }
                        },
                        Err(_) => Err(Error::ParseVersionFormat(string_of(s))),
                    }
                } else {
                    Err(Error::ParseVersion(string_of(protocol), string_of(numbers)))
                }
            },
            None => Err(Error::ParseVersionFormat(string_of(s))),
        }
    }

    /// Reads a version token.
    pub fn from_str(s: &str) -> (r: Result<Version, Error>)
        ensures
            match r {
                Ok(v) => Self::parsed(s@) == Ok::<Version, ErrorView>(v),
                Err(e) => Self::parsed(s@) == Err::<Version, ErrorView>(e@),
            },
            r matches Ok(v) ==> v.well_formed(),
    {
        let chars = chars_of(s);
        Self::from_chars(chars.as_slice())
    }
}

/// Typedef for Headers
pub type Header = header::Kind;

/// HTTP requests are messages sent by the client to initiate an action on the server
#[derive(Debug, Clone, Eq, PartialEq)]
pub struct Request {
    pub start_line: request::Startline,
    pub headers: Vec<Header>,
    pub body: Vec<u8>,
}

/// A request as a value of mathematics.
pub struct RequestView {
    pub start_line: request::StartlineView,
    pub headers: Seq<header::KindView>,
    pub body: Seq<u8>,
}

impl View for Request {
    type V = RequestView;

    open spec fn view(&self) -> RequestView {
        RequestView {
            start_line: self.start_line@,
            headers: header::views(self.headers@),
            body: self.body@,
        }
    }
}

/// The answer to a request.
#[derive(Debug, Clone, Eq, PartialEq)]
pub struct Response {
    pub start_line: response::Startline,
    pub headers: Vec<Header>,
    pub body: Option<String>,
}

/// A response as a value of mathematics.
pub struct ResponseView {
    pub start_line: response::Startline,
    pub headers: Seq<header::KindView>,
    pub body: Option<Seq<char>>,
}

impl View for Response {
    type V = ResponseView;

    open spec fn view(&self) -> ResponseView {
        ResponseView {
            start_line: self.start_line,
            headers: header::views(self.headers@),
            body: match self.body {
                Some(content) => Some(content@),
                None => None,
            },
        }
    }
}

/// Why a request got no answer.
#[derive(Debug, Copy, Clone, Eq, PartialEq, Structural)]
pub enum RouteError {
    /// The route reads a `User-Agent` header and the request has none.
    MissingUserAgent,
    /// No route is written for this method and path.
    NotImplemented,
    /// The route serves files and no directory was given.
    DirectoryNotConfigured,
}

/// What the router decided: the answer, or what has to be done to a file
/// before there is one.
#[derive(Debug, Clone, Eq, PartialEq)]
pub enum Routed {
    /// Send this response.
    Reply(Response),
    /// Read the file at `path`, and answer with `Response::from_read`.
    Read { path: String, version: Version },
    /// Write `contents` to the file at `path`, and answer with
    /// `Response::from_write`.
    Write { path: String, contents: Vec<u8>, version: Version },
}

/// A decision of the router as a value of mathematics.
pub enum RoutedView {
    Reply(ResponseView),
    Read { path: Seq<char>, version: Version },
    Write { path: Seq<char>, contents: Seq<u8>, version: Version },
}

impl View for Routed {
    type V = RoutedView;

    open spec fn view(&self) -> RoutedView {
        match self {
            Routed::Reply(response) => RoutedView::Reply(response@),
            Routed::Read { path, version } => RoutedView::Read { path: path@, version: *version },
            Routed::Write { path, contents, version } => RoutedView::Write {
                path: path@,
                contents: contents@,
                version: *version,
            },
        }
    }
}

/// The characters of a string that may be absent.
pub open spec fn text_view(s: Option<&str>) -> Option<Seq<char>> {
    match s {
        Some(s) => Some(s@),
        None => None,
    }
}

/// The bytes of a vector that may be absent.
pub open spec fn bytes_view(v: Option<Vec<u8>>) -> Option<Seq<u8>> {
    match v {
        Some(v) => Some(v@),
        None => None,
    }
}

/// The predicate "is no `Content-Length` header".
pub open spec fn no_content_length() -> spec_fn(header::KindView) -> bool {
    |h: header::KindView| !(h is ContentLength)
}

/// `bytes` without the blank lines at its start.
pub open spec fn skip_blank_lines(bytes: Seq<u8>) -> Seq<u8>
    decreases bytes.len(),
{
    if bytes.len() > 0 && first_line(bytes).len() == 0 {
        proof {
            lemma_after_line(bytes);
        }
        skip_blank_lines(after_line(bytes))
    } else {
        bytes
    }
}

/// The headers that the lines of `bytes` hold, up to the first blank line.
/// A line that is no header is passed over.
pub open spec fn headers_in(bytes: Seq<u8>) -> Seq<header::KindView>
    decreases bytes.len(),
{
    if bytes.len() == 0 || first_line(bytes).len() == 0 {
        seq![]
    } else {
        proof {
            lemma_after_line(bytes);
        }
        let rest = headers_in(after_line(bytes));
        match header::KindView::parsed(latin1(first_line(bytes))) {
            Ok(h) => seq![h] + rest,
            Err(_) => rest,
        }
    }
}

/// What follows the first blank line of `bytes`; nothing where it has none.
pub open spec fn body_in(bytes: Seq<u8>) -> Seq<u8>
    decreases bytes.len(),
{
    if bytes.len() == 0 {
        bytes
    } else {
        proof {
            lemma_after_line(bytes);
        }
        if first_line(bytes).len() == 0 {
            after_line(bytes)
        } else {
            body_in(after_line(bytes))
        }
    }
}

/// The length that the first `Content-Length` header of `headers` gives,
/// where there is one.
pub open spec fn content_length(headers: Seq<header::KindView>) -> Option<usize> {
    let i = span(headers, no_content_length()) as int;
    if i < headers.len() {
        Some(headers[i]->ContentLength_0)
    } else {
        None
    }
}

/// `content` cut down to the length that `headers` give, where they give
/// one that is shorter.
pub open spec fn bounded(content: Seq<u8>, headers: Seq<header::KindView>) -> Seq<u8> {
    match content_length(headers) {
        Some(n) => if n < content.len() {
            content.take(n as int)
        } else {
            content
        },
        None => content,
    }
}

/// The predicate "is no `User-Agent` header".
pub open spec fn no_user_agent() -> spec_fn(header::KindView) -> bool {
    |h: header::KindView| !(h is UserAgent)
}

/// The header lines of `headers` on the wire, one after the other.
pub open spec fn header_lines(headers: Seq<header::KindView>) -> Seq<char>
    decreases headers.len(),
{
    if headers.len() == 0 {
        Seq::empty()
    } else {
        header_lines(headers.drop_last()) + headers.last().text()
    }
}

impl ResponseView {
    /// The response on the wire, for a supported version: the start-line,
    /// the header lines, one empty line, and the body where there is one.
    pub open spec fn text(self) -> Seq<char>
        recommends
            self.start_line.version.supported(),
    {
        self.start_line.text() + header_lines(self.headers) + "\r\n"@ + match self.body {
            Some(content) => content,
            None => Seq::empty(),
        }
    }

    /// A response without headers and without a body.
    pub open spec fn bare(version: Version, status: Status) -> ResponseView {
        ResponseView {
            start_line: response::Startline { version, status },
            headers: Seq::empty(),
            body: None,
        }
    }

    /// A successful response that carries `body`, with the two headers that
    /// describe it.
    pub open spec fn carrying(
        version: Version,
        content_type: content_type::Kind,
        body: Seq<char>,
    ) -> ResponseView {
        ResponseView {
            start_line: response::Startline { version, status: Status::Okay },
            headers: seq![
                header::KindView::ContentType(content_type),
                header::KindView::ContentLength(byte_length(body)),
            ],
            body: Some(body),
        }
    }

    /// The answer to a request for a file, once the file was looked for: its
    /// contents as text where it was found, and "not found" where it was not.
    pub open spec fn read(version: Version, found: Option<Seq<u8>>) -> ResponseView {
        match found {
            Some(bytes) => Self::carrying(
                version,
                content_type::Kind::Appbytestream,
                text_of(bytes),
            ),
            None => Self::bare(version, Status::NotFound),
        }
    }

    /// The answer to a request that stored a file, once `written` bytes were
    /// written: success, with headers that describe what was written.
    pub open spec fn written(version: Version, written: usize) -> ResponseView {
        ResponseView {
            start_line: response::Startline { version, status: Status::Okay },
            headers: seq![
                header::KindView::ContentType(content_type::Kind::Plaintext),
                header::KindView::ContentLength(written),
            ],
            body: None,
        }
    }
}

impl RequestView {
    /// What the bytes of a request mean. Blank lines at the start are passed
    /// over. The first line is the start-line: where it cannot be read there
    /// is no request. The lines after it, up to the first blank line, are
    /// headers; a line that is no header is dropped. What follows the blank
    /// line is the body, byte for byte, up to the length that a
    /// `Content-Length` header gives.
    pub open spec fn parsed(bytes: Seq<u8>) -> Option<RequestView> {
        let message = skip_blank_lines(bytes);
        match request::StartlineView::parsed(latin1(first_line(message))) {
            Ok(start_line) => {
                let rest = after_line(message);
                let headers = headers_in(rest);
                Some(RequestView { start_line, headers, body: bounded(body_in(rest), headers) })
            },
            Err(_) => None,
        }
    }

    /// The non-empty pieces of the path, in order.
    pub open spec fn parts(self) -> Seq<Seq<char>> {
        segments(self.start_line.target.path)
    }

    /// Whether the first non-empty piece of the path is `root`.
    pub open spec fn aims_at(self, root: Seq<char>) -> bool {
        self.parts().len() > 0 && self.parts()[0] == root
    }

    /// The pieces of the path after the first, joined by slashes again.
    pub open spec fn payload(self) -> Seq<char> {
        join(self.parts().skip(1), "/"@)
    }

    /// The first `User-Agent` header of the request, where it has one.
    pub open spec fn user_agent(self) -> Option<user_agent::KindView> {
        let i = span(self.headers, no_user_agent()) as int;
        if i < self.headers.len() {
            Some(self.headers[i]->UserAgent_0)
        } else {
            None
        }
    }

    /// The file that a route under `directory` speaks of.
    pub open spec fn file(self, directory: Seq<char>) -> Seq<char> {
        directory + "/"@ + self.payload()
    }

    /// The route table. The method and the first non-empty piece of the path
    /// decide; the rest of the path is the payload of the route.
    pub open spec fn routed(self, directory: Option<Seq<char>>) -> Result<RoutedView, RouteError> {
        let version = self.start_line.version;
        match self.start_line.method {
            Method::Get => if self.start_line.target.path == "/"@ {
                Ok(RoutedView::Reply(ResponseView::bare(version, Status::Okay)))
            } else if self.aims_at("echo"@) {
                Ok(
                    RoutedView::Reply(
                        ResponseView::carrying(
                            version,
                            content_type::Kind::Plaintext,
                            self.payload(),
                        ),
                    ),
                )
            } else if self.aims_at("user-agent"@) {
                match self.user_agent() {
                    Some(agent) => Ok(
                        RoutedView::Reply(
                            ResponseView::carrying(
                                version,
                                content_type::Kind::Plaintext,
                                agent.text(),
                            ),
                        ),
                    ),
                    None => Err(RouteError::MissingUserAgent),
                }
            } else if self.aims_at("files"@) {
                match directory {
                    Some(directory) => Ok(
                        RoutedView::Read { path: self.file(directory), version },
                    ),
                    None => Err(RouteError::DirectoryNotConfigured),
                }
            } else {
                Ok(RoutedView::Reply(ResponseView::bare(version, Status::NotFound)))
            },
            Method::Post => if self.aims_at("files"@) {
                match directory {
                    Some(directory) => Ok(
                        RoutedView::Write {
                            path: self.file(directory),
                            contents: self.body,
                            version,
                        },
                    ),
                    None => Err(RouteError::DirectoryNotConfigured),
                }
            } else {
                Err(RouteError::NotImplemented)
            },
            _ => Err(RouteError::NotImplemented),
        }
    }
}

impl Request {
    /// Reads a request from the first `bytes_read` bytes of the buffer.
    pub fn try_construct(request_buffer: &[u8; MAX_BUFFER_SIZE], bytes_read: usize) -> (r: Option<
        Request,
    >)
        requires
            bytes_read <= MAX_BUFFER_SIZE,
        ensures
            match r {
                Some(request) => RequestView::parsed(request_buffer@.take(bytes_read as int))
                    == Some(request@),
                None => RequestView::parsed(request_buffer@.take(bytes_read as int)) is None,
            },
    {
        Self::from_bytes(slice_subrange(request_buffer.as_slice(), 0, bytes_read))
    }

    /// Reads a request from its bytes.
    pub fn from_bytes(bytes: &[u8]) -> (r: Option<Request>)
        ensures
            match r {
                Some(request) => RequestView::parsed(bytes@) == Some(request@),
                None => RequestView::parsed(bytes@) is None,
            },
    {
        let mut pos: usize = 0;
        let mut done = false;
        assert(bytes@.skip(0) =~= bytes@);
        while !done
            invariant
                pos <= bytes.len(),
                skip_blank_lines(bytes@.skip(pos as int)) == skip_blank_lines(bytes@),
                done ==> skip_blank_lines(bytes@.skip(pos as int)) == bytes@.skip(pos as int),
            decreases bytes.len() - pos + (if done { 0int } else { 1int }),
        {
            if pos >= bytes.len() {
                done = true;
            } else {
                let (end, next) = line_at(bytes, pos);
                if end == pos {
                    pos = next;
                } else {
                    done = true;
                }
            }
        }
        let ghost message = bytes@.skip(pos as int);
        let (end, next) = line_at(bytes, pos);
        let first = latin1_of(slice_subrange(bytes, pos, end));
        let start_line = match request::Startline::from_chars(first.as_slice()) {
            Ok(start_line) => start_line,
            Err(_) => {
                return None;
            },
        };
        let ghost rest = bytes@.skip(next as int);
        let mut headers: Vec<Header> = Vec::new();
        let mut content_at: usize = bytes.len();
        pos = next;
        done = false;
        assert(header::views(headers@) + headers_in(rest) =~= headers_in(rest));
        while !done
            invariant
                pos <= bytes.len(),
                content_at <= bytes.len(),
                !done ==> header::views(headers@) + headers_in(bytes@.skip(pos as int))
                    == headers_in(rest),
                !done ==> body_in(bytes@.skip(pos as int)) == body_in(rest),
                done ==> header::views(headers@) == headers_in(rest),
                done ==> bytes@.skip(content_at as int) == body_in(rest),
            decreases bytes.len() - pos + (if done { 0int } else { 1int }),
        {
            let ghost before = header::views(headers@);
            let ghost here = bytes@.skip(pos as int);
            if pos >= bytes.len() {
                assert(before + Seq::<header::KindView>::empty() =~= before);
                content_at = bytes.len();
                done = true;
            } else {
                let (end, next) = line_at(bytes, pos);
                if end == pos {
                    assert(before + Seq::<header::KindView>::empty() =~= before);
                    content_at = next;
                    done = true;
                } else {
                    let line = latin1_of(slice_subrange(bytes, pos, end));
                    match Header::from_chars(line.as_slice()) {
                        Ok(h) => {
                            headers.push(h);
                            proof {
                                assert(header::views(headers@) =~= before.push(h@));
                                assert(before + (seq![h@] + headers_in(after_line(here)))
                                    =~= before.push(h@) + headers_in(after_line(here)));
                            }
                        },
                        Err(_) => {},
                    }
                    pos = next;
                }
            }
        }
        let content_length = Self::content_length(&headers);
        let available = bytes.len() - content_at;
        let content_end = match content_length {
            Some(n) => if n < available {
                content_at + n
            } else {
                bytes.len()
            },
            None => bytes.len(),
        };
        let body = copy_of(bytes, content_at, content_end);
        proof {
            let content = bytes@.skip(content_at as int);
            assert(content.take(content_end - content_at) =~= bytes@.subrange(
                content_at as int,
                content_end as int,
            ));
            assert(content =~= bytes@.subrange(content_at as int, bytes.len() as int));
        }
        Some(Request { start_line, headers, body })
    }

    /// The length that the first `Content-Length` header of `headers` gives,
    /// where there is one.
    pub fn content_length(headers: &Vec<Header>) -> (r: Option<usize>)
        ensures
            r == content_length(header::views(headers@)),
    {
        let ghost model = header::views(headers@);
        let mut i: usize = 0;
        while i < headers.len()
            invariant
                i <= headers.len(),
                model == header::views(headers@),
                forall|j: int| 0 <= j < i ==> no_content_length()(#[trigger] model[j]),
            decreases headers.len() - i,
        {
            if let Header::ContentLength(n) = &headers[i] {
                proof {
                    lemma_span_is(model, no_content_length(), i as int);
                }
                return Some(*n);
            }
            i += 1;
        }
        proof {
            lemma_span_is(model, no_content_length(), i as int);
        }
        None
    }

    /// Renders the first `User-Agent` header of the request, where it has one.
    pub fn user_agent(&self) -> (r: Option<String>)
        ensures
            match r {
                Some(text) => self@.user_agent() matches Some(agent) && text@ == agent.text(),
                None => self@.user_agent() is None,
            },
    {
        let mut i: usize = 0;
        while i < self.headers.len()
            invariant
                i <= self.headers.len(),
                forall|j: int| 0 <= j < i ==> no_user_agent()(#[trigger] self@.headers[j]),
            decreases self.headers.len() - i,
        {
            if let Header::UserAgent(agent) = &self.headers[i] {
                proof {
                    lemma_span_is(self@.headers, no_user_agent(), i as int);
                }
                return Some(agent.to_string());
            }
            i += 1;
        }
        proof {
            lemma_span_is(self@.headers, no_user_agent(), i as int);
        }
        None
    }
}

impl Response {
    /// Renders the response as it goes on the wire.
    pub fn to_string(&self) -> (r: String)
        requires
            self.start_line.version.supported(),
        ensures
            r@ == self@.text(),
    {
        let mut s = self.start_line.to_string();
        let ghost model = header::views(self.headers@);
        let mut i: usize = 0;
        assert(model.take(0) =~= Seq::<header::KindView>::empty());
        assert(s@ + Seq::<char>::empty() =~= s@);
        while i < self.headers.len()
            invariant
                i <= self.headers.len(),
                model == header::views(self.headers@),
                s@ == self.start_line.text() + header_lines(model.take(i as int)),
            decreases self.headers.len() - i,
        {
            let line = self.headers[i].to_string();
            s.append(line.as_str());
            proof {
                let done = model.take(i as int);
                let next = model.take(i + 1);
                assert(next.drop_last() =~= done);
                assert(next.last() == self.headers@[i as int]@);
                assert(self.start_line.text() + header_lines(done) + line@
                    =~= self.start_line.text() + (header_lines(done) + line@));
            }
            i += 1;
        }
        assert(model.take(i as int) =~= model);
        s.append("\r\n");
        match &self.body {
            Some(content) => {
                s.append(content.as_str());
            },
            None => {
                assert(s@ + Seq::<char>::empty() =~= s@);
            },
        }
        s
    }

    /// A response without headers and without a body.
    pub fn bare(version: Version, status: Status) -> (r: Response)
        ensures
            r@ == ResponseView::bare(version, status),
    {
        let r = Response {
            start_line: response::Startline { version, status },
            headers: Vec::new(),
            body: None,
        };
        assert(r@.headers =~= Seq::empty());
        r
    }

    /// A successful response that carries `body`, with the two headers that
    /// describe it.
    pub fn carrying(version: Version, content_type: content_type::Kind, body: String) -> (r:
        Response)
        ensures
            r@ == ResponseView::carrying(version, content_type, body@),
    {
        let mut headers: Vec<Header> = Vec::new();
        headers.push(Header::ContentType(content_type));
        headers.push(Header::ContentLength(body.as_str().len()));
        let r = Response {
            start_line: response::Startline { version, status: Status::Okay },
            headers,
            body: Some(body),
        };
        assert(r@.headers =~= ResponseView::carrying(version, content_type, body@).headers);
        r
    }

    /// Routes a request: the method and the first non-empty piece of the path
    /// decide what is answered. The routes that serve files do not touch the
    /// disk: they say which file to read or write under `directory`, and
    /// `from_read` or `from_write` makes the answer afterwards.
    pub fn try_from(value: Request, directory: Option<&str>) -> (r: Result<Routed, RouteError>)
        ensures
            match r {
                Ok(step) => value@.routed(text_view(directory)) == Ok::<RoutedView, RouteError>(
                    step@,
                ),
                Err(e) => value@.routed(text_view(directory)) == Err::<RoutedView, RouteError>(e),
            },
    {
        let version = value.start_line.version;
        let path = chars_of(value.start_line.target.path.as_str());
        let parts = segments_of(path.as_slice());
        let slash = chars_of("/");
        let ghost payload = value@.payload();
        assert(views(parts@).len() == parts.len());
        if parts.len() > 0 {
            assert(views(parts@)[0] == parts@[0]@);
        }
        match value.start_line.method {
            Method::Get => {
                if is(path.as_slice(), "/") {
                    Ok(Routed::Reply(Response::bare(version, Status::Okay)))
                } else if parts.len() > 0 && is(parts[0], "echo") {
                    let mut content = String::new();
                    push_joined(&mut content, &parts, 1, slash.as_slice());
                    assert(content@ =~= payload);
                    Ok(
                        Routed::Reply(
                            Response::carrying(version, content_type::Kind::Plaintext, content),
                        ),
                    )
                } else if parts.len() > 0 && is(parts[0], "user-agent") {
                    match value.user_agent() {
                        Some(content) => Ok(
                            Routed::Reply(
                                Response::carrying(
                                    version,
                                    content_type::Kind::Plaintext,
                                    content,
                                ),
                            ),
                        ),
                        None => Err(RouteError::MissingUserAgent),
                    }
                } else if parts.len() > 0 && is(parts[0], "files") {
                    match directory {
                        Some(directory) => {
                            let mut file = String::from_str(directory);
                            file.append("/");
                            push_joined(&mut file, &parts, 1, slash.as_slice());
                            Ok(Routed::Read { path: file, version })
                        },
                        None => Err(RouteError::DirectoryNotConfigured),
                    }
                } else {
                    Ok(Routed::Reply(Response::bare(version, Status::NotFound)))
                }
            },
            Method::Post => {
                if parts.len() > 0 && is(parts[0], "files") {
                    match directory {
                        Some(directory) => {
                            let mut file = String::from_str(directory);
                            file.append("/");
                            push_joined(&mut file, &parts, 1, slash.as_slice());
                            Ok(Routed::Write { path: file, contents: value.body, version })
                        },
                        None => Err(RouteError::DirectoryNotConfigured),
                    }
                } else {
                    Err(RouteError::NotImplemented)
                }
            },
            _ => Err(RouteError::NotImplemented),
        }
    }

    /// The answer to a request for a file, once the file was looked for:
    /// `found` holds its bytes, or nothing where there is no such file.
    pub fn from_read(version: Version, found: Option<Vec<u8>>) -> (r: Response)
        ensures
            r@ == ResponseView::read(version, bytes_view(found)),
    {
        match found {
            Some(bytes) => Response::carrying(
                version,
                content_type::Kind::Appbytestream,
                decoded(bytes),
            ),
            None => Response::bare(version, Status::NotFound),
        }
    }

    /// The answer to a request that stored a file, once `written` bytes were
    /// written.
    pub fn from_write(version: Version, written: usize) -> (r: Response)
        ensures
            r@ == ResponseView::written(version, written),
    {
        let mut headers: Vec<Header> = Vec::new();
        headers.push(Header::ContentType(content_type::Kind::Plaintext));
        headers.push(Header::ContentLength(written));
        let r = Response {
            start_line: response::Startline { version, status: Status::Okay },
            headers,
            body: None,
        };
        assert(r@.headers =~= ResponseView::written(version, written).headers);
        r
    }
}

/// Routing keeps no state. What a `GET` is answered depends on its path,
/// its version and its first `User-Agent` header, and under the file route
/// on the directory: two requests that agree in these are routed alike,
/// whatever else they hold. After a read, the answer depends on the version
/// and on what was found, and on nothing else.
pub proof fn lemma_routing_is_determined(
    a: RequestView,
    b: RequestView,
    directory_a: Option<Seq<char>>,
    directory_b: Option<Seq<char>>,
)
    requires
        a.start_line.method == Method::Get,
        b.start_line.method == Method::Get,
        a.start_line.target.path == b.start_line.target.path,
        a.start_line.version == b.start_line.version,
        a.user_agent() == b.user_agent(),
        a.aims_at("files"@) ==> directory_a == directory_b,
    ensures
        a.routed(directory_a) == b.routed(directory_b),
        forall|found: Option<Seq<u8>>|
            ResponseView::read(a.start_line.version, found) == ResponseView::read(
                b.start_line.version,
                found,
            ),
{
}

/// No route answers "created": every response is a success or "not
/// found", whatever the request, the directory and the file.
pub proof fn lemma_created_is_never_answered(
    request: RequestView,
    directory: Option<Seq<char>>,
    found: Option<Seq<u8>>,
    written: usize,
)
    ensures
        request.routed(directory) matches Ok(RoutedView::Reply(response))
            ==> response.start_line.status != Status::Created,
        ResponseView::read(request.start_line.version, found).start_line.status
            != Status::Created,
        ResponseView::written(request.start_line.version, written).start_line.status
            != Status::Created,
{
}

/// A header line that cannot be read is dropped, and the request stands.
/// Of three lines, a start-line, a line that is no header and a line that
/// is one, the request keeps the start-line and the one header, and has no
/// body.
pub proof fn lemma_malformed_header_is_dropped(start: Seq<u8>, bad: Seq<u8>, good: Seq<u8>)
    requires
        is_line(start),
        is_line(bad),
        is_line(good),
        start.len() > 0,
        bad.len() > 0,
        good.len() > 0,
        request::StartlineView::parsed(latin1(start)) is Ok,
        header::KindView::parsed(latin1(bad)) is Err,
        header::KindView::parsed(latin1(good)) is Ok,
    ensures
        RequestView::parsed(start + crlf() + bad + crlf() + good + crlf()) == Some(
            RequestView {
                start_line: request::StartlineView::parsed(latin1(start))->Ok_0,
                headers: seq![header::KindView::parsed(latin1(good))->Ok_0],
                body: Seq::empty(),
            },
        ),
{
    let tail = good + crlf();
    let rest = bad + crlf() + tail;
    let whole = start + crlf() + rest;
    assert(whole =~= start + crlf() + bad + crlf() + good + crlf());
    assert(tail =~= good + crlf() + Seq::<u8>::empty());
    lemma_line_then(start, rest);
    lemma_line_then(bad, tail);
    lemma_line_then(good, Seq::<u8>::empty());
    let h = header::KindView::parsed(latin1(good))->Ok_0;
    assert(headers_in(Seq::<u8>::empty()) =~= Seq::<header::KindView>::empty());
    assert(headers_in(tail) =~= seq![h]);
    assert(headers_in(rest) =~= seq![h]);
    assert(body_in(Seq::<u8>::empty()) =~= Seq::<u8>::empty());
    assert(body_in(tail) =~= Seq::<u8>::empty());
    assert(body_in(rest) =~= Seq::<u8>::empty());
    assert(bounded(Seq::<u8>::empty(), seq![h]) =~= Seq::<u8>::empty());
}

/// A supported version that is written and read again is the same version.
pub proof fn lemma_version_round_trip(v: Version)
    requires
        v.supported(),
    ensures
        Version::parsed(v.text()) == Ok::<Version, ErrorView>(v),
{
    reveal_strlit("HTTP");
    reveal_strlit("HTTP/1.1");
    reveal_strlit("HTTP/2");
    let s = v.text();
    lemma_split_once_is(s, '/', 4);
    assert(s.take(4) =~= "HTTP"@);
    let numbers = s.skip(5);
    lemma_digits(1, u8::MAX as nat);
    lemma_digits(2, u8::MAX as nat);
    if v.1 is Some {
        assert(numbers =~= seq!['1', '.', '1']);
        lemma_split_once_is(numbers, '.', 1);
        assert(numbers.take(1) =~= digits(1));
        assert(numbers.skip(2) =~= digits(1));
    } else {
        assert(numbers =~= digits(2));
        lemma_split_once_none(numbers, '.');
        assert(!numbers.contains('.')) by {
            if numbers.contains('.') {
                let j = choose|j: int| 0 <= j < numbers.len() && numbers[j] == '.';
                assert(numbers[0] == '2');
            }
        }
    }
}

} // verus!
