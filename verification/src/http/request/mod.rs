//! The first line of a request: method, target and version.

pub mod target;

use crate::http::error::{Error as VersionError, ErrorView as VersionErrorView};
use crate::http::Version;
use crate::text::{chars_of, has, is, push_all, string_of, views, words, words_of};
use std::fmt::Display;
use vstd::prelude::*;
use vstd::string::to_string_from_display_ensures;

verus! {

/// The request methods that are known.
#[derive(Debug, Copy, Clone, Eq, PartialEq, Structural)]
pub enum Method {
    Get,
    Post,
    Put,
    Head,
    Options,
}

/// The text of a method token that is not known.
#[derive(Debug, Clone, Eq, PartialEq)]
pub struct ParseRequestMethodError(String);

impl View for ParseRequestMethodError {
    type V = Seq<char>;

    closed spec fn view(&self) -> Seq<char> {
        self.0@
    }
}

impl ParseRequestMethodError {
    /// An error with the message `msg`, after the name of the error.
    pub fn new<S>(msg: S) -> (r: Self) where S: Display
        ensures
            exists|text: String| #[trigger]
                to_string_from_display_ensures::<S>(&msg, text) && r@
                    == "parse_request_method_error: "@ + text@,
    {
        let text = msg.to_string();
        let mut s = String::from_str("parse_request_method_error: ");
        s.append(text.as_str());
        Self(s)
    }

    /// The error about the token `token`.
    pub open spec fn unrecognized(token: Seq<char>) -> Seq<char> {
        "parse_request_method_error: "@ + token + " is not a recognized request method"@
    }

    /// Renders the error in words.
    pub fn to_string(&self) -> (r: String)
        ensures
            r@ == self@,
    {
        self.0.clone()
    }
}

impl Method {
    /// The method as it stands in a start-line.
    pub open spec fn text(self) -> Seq<char> {
        match self {
            Method::Get => "GET"@,
            Method::Post => "POST"@,
            Method::Put => "PUT"@,
            Method::Head => "HEAD"@,
            Method::Options => "OPTIONS"@,
        }
    }

    /// What a method token means: five methods are known, in capitals.
    pub open spec fn parsed(s: Seq<char>) -> Result<Method, Seq<char>> {
        if s == "GET"@ {
            Ok(Method::Get)
        } else if s == "POST"@ {
            Ok(Method::Post)
        } else if s == "PUT"@ {
            Ok(Method::Put)
        } else if s == "HEAD"@ {
            Ok(Method::Head)
        } else if s == "OPTIONS"@ {
            Ok(Method::Options)
        } else {
            Err(ParseRequestMethodError::unrecognized(s))
        }
    }

    /// Renders the method.
    pub fn to_string(&self) -> (r: String)
        ensures
            r@ == self.text(),
    {
        match self {
            Method::Get => String::from_str("GET"),
            Method::Post => String::from_str("POST"),
            Method::Put => String::from_str("PUT"),
            Method::Head => String::from_str("HEAD"),
            Method::Options => String::from_str("OPTIONS"),
        }
    }

    /// Reads a method token from its characters.
    pub fn from_chars(s: &[char]) -> (r: Result<Method, ParseRequestMethodError>)
        ensures
            match r {
                Ok(m) => Self::parsed(s@) == Ok::<Method, Seq<char>>(m),
                Err(e) => Self::parsed(s@) == Err::<Method, Seq<char>>(e@),
            },
    {
        if is(s, "GET") {
            Ok(Method::Get)
        } else if is(s, "POST") {
            Ok(Method::Post)
        } else if is(s, "PUT") {
            Ok(Method::Put)
        } else if is(s, "HEAD") {
            Ok(Method::Head)
        } else if is(s, "OPTIONS") {
            Ok(Method::Options)
        } else {
            let mut message = String::from_str("parse_request_method_error: ");
            push_all(&mut message, s);
            message.append(" is not a recognized request method");
            Err(ParseRequestMethodError(message))
        }
    }

    /// Reads a method token.
    pub fn from_str(s: &str) -> (r: Result<Method, ParseRequestMethodError>)
        ensures
            match r {
                Ok(m) => Self::parsed(s@) == Ok::<Method, Seq<char>>(m),
                Err(e) => Self::parsed(s@) == Err::<Method, Seq<char>>(e@),
            },
    {
        let chars = chars_of(s);
        Self::from_chars(chars.as_slice())
    }
}

/// What a request is aimed at.
#[derive(Debug, Clone, Eq, PartialEq)]
pub struct Target {
    pub path: String,
    pub form: target::Form,
}

/// A target as a value of mathematics.
pub struct TargetView {
    pub path: Seq<char>,
    pub form: target::Form,
}

impl View for Target {
    type V = TargetView;

    open spec fn view(&self) -> TargetView {
        TargetView { path: self.path@, form: self.form }
    }
}

/// The start-line contains three elements:
///   1. An HTTP `Method`, either a verb or a noun, that describes the action to be performed
///   2. The request target, usually a URL, or the absolute path of the protocol, port, and domain are usually characterized between different HTTP `Method`s. It can be:
///     - An absolute path, ultimately followed by a ? and query string. This is the most common form, known as the origin form.
///     - A complete URL, known as the absolute form, is mostly used with `Method::Get` when connected to a proxy.
///     - The authority component of a URL, consisting of the domain name and optionally the port (prefixed by a :) is called the authority form.
///     - The asterisk form, a simple asterisk is used with `Method::Options`, representing the server as a whole.
///   3. The HTTP version, which defines the structure of the remaining message, acting as an indicator of the expected version to use for the response
#[derive(Debug, Clone, Eq, PartialEq)]
pub struct Startline {
    pub method: Method,
    pub target: Target,
    pub version: Version,
}

/// A start-line as a value of mathematics.
pub struct StartlineView {
    pub method: Method,
    pub target: TargetView,
    pub version: Version,
}

impl View for Startline {
    type V = StartlineView;

    open spec fn view(&self) -> StartlineView {
        StartlineView { method: self.method, target: self.target@, version: self.version }
    }
}

/// Why a line is no start-line.
#[derive(Debug, Clone, Eq, PartialEq)]
pub enum Error {
    /// The line does not have three words.
    ComponentCount,
    /// The first word is no method that is known.
    Method(ParseRequestMethodError),
    /// The third word is no version.
    Version(VersionError),
}

/// An error as a value of mathematics.
pub enum ErrorView {
    ComponentCount,
    Method(Seq<char>),
    Version(VersionErrorView),
}

impl View for Error {
    type V = ErrorView;

    open spec fn view(&self) -> ErrorView {
        match self {
            Error::ComponentCount => ErrorView::ComponentCount,
            Error::Method(e) => ErrorView::Method(e@),
            Error::Version(e) => ErrorView::Version(e@),
        }
    }
}

impl ErrorView {
    /// The error in words.
    pub open spec fn text(self) -> Seq<char> {
        match self {
            ErrorView::ComponentCount => "component count longer not equal to 3"@,
            ErrorView::Method(message) => message,
            ErrorView::Version(e) => e.text(),
        }
    }
}

impl Error {
    /// Renders the error in words.
    pub fn to_string(&self) -> (r: String)
        ensures
            r@ == self@.text(),
    {
        match self {
            Error::ComponentCount => String::from_str("component count longer not equal to 3"),
            Error::Method(e) => e.to_string(),
            Error::Version(e) => e.to_string(),
        }
    }
}

impl TargetView {
    /// What a target token means: a token with an asterisk in it stands for
    /// the server as a whole; any other token is a path, kept as it is.
    pub open spec fn parsed(token: Seq<char>) -> TargetView {
        if token.contains('*') {
            TargetView { path: "*"@, form: target::Form::Asterisk }
        } else {
            TargetView { path: token, form: target::Form::Absolute }
        }
    }
}

impl Target {
    /// Reads a target token from its characters.
    pub fn from_chars(token: &[char]) -> (r: Target)
        ensures
            r@ == TargetView::parsed(token@),
    {
        if has(token, '*') {
            Target { path: String::from_str("*"), form: target::Form::Asterisk }
        } else {
            Target { path: string_of(token), form: target::Form::Absolute }
        }
    }
}

impl StartlineView {
    /// What a start-line means: three words between white space, a method,
    /// a target and a version. The method is read first, the version last.
    pub open spec fn parsed(line: Seq<char>) -> Result<StartlineView, ErrorView> {
        let tokens = words(line);
        if tokens.len() != 3 {
            Err(ErrorView::ComponentCount)
        } else {
            match Method::parsed(tokens[0]) {
                Err(message) => Err(ErrorView::Method(message)),
                Ok(method) => match Version::parsed(tokens[2]) {
                    Err(e) => Err(ErrorView::Version(e)),
                    Ok(version) => Ok(
                        StartlineView { method, target: TargetView::parsed(tokens[1]), version },
                    ),
                },
            }
        }
    }

    /// The start-line on the wire, for a supported version.
    pub open spec fn text(self) -> Seq<char>
        recommends
            self.version.supported(),
    {
        self.method.text() + " "@ + self.target.path + " "@ + self.version.text() + "\r\n\r\n"@
    }
}

impl Startline {
    /// Reads a start-line from its characters.
    pub fn from_chars(line: &[char]) -> (r: Result<Startline, Error>)
        ensures
            match r {
                Ok(l) => StartlineView::parsed(line@) == Ok::<StartlineView, ErrorView>(l@),
                Err(e) => StartlineView::parsed(line@) == Err::<StartlineView, ErrorView>(e@),
            },
    {
        let tokens = words_of(line);
        assert(views(tokens@).len() == tokens.len());
        if tokens.len() != 3 {
            return Err(Error::ComponentCount);
        }
        assert(views(tokens@)[0] == tokens@[0]@);
        assert(views(tokens@)[1] == tokens@[1]@);
        assert(views(tokens@)[2] == tokens@[2]@);
        let method = match Method::from_chars(tokens[0]) {
            Ok(method) => method,
            Err(e) => {
                return Err(Error::Method(e));
            },
        };
        let target = Target::from_chars(tokens[1]);
        let version = match Version::from_chars(tokens[2]) {
            Ok(version) => version,
            Err(e) => {
                return Err(Error::Version(e));
            },
        };
        Ok(Startline { method, target, version })
    }

    /// Reads a start-line.
    pub fn from_str(s: &str) -> (r: Result<Startline, Error>)
        ensures
            match r {
                Ok(l) => StartlineView::parsed(s@) == Ok::<StartlineView, ErrorView>(l@),
                Err(e) => StartlineView::parsed(s@) == Err::<StartlineView, ErrorView>(e@),
            },
    {
        let chars = chars_of(s);
        Self::from_chars(chars.as_slice())
    }

    /// Reads a start-line, and says only whether there is one.
    pub fn try_parse(start_line: &str) -> (r: Option<Startline>)
        ensures
            match r {
                Some(l) => StartlineView::parsed(start_line@) == Ok::<StartlineView, ErrorView>(
                    l@,
                ),
                None => StartlineView::parsed(start_line@) is Err,
            },
    {
        match Self::from_str(start_line) {
            Ok(l) => Some(l),
            Err(_) => None,
        }
    }

    /// Renders the start-line as it stands on the wire.
    pub fn to_string(&self) -> (r: String)
        requires
            self.version.supported(),
        ensures
            r@ == self@.text(),
    {
        let mut s = self.method.to_string();
        s.append(" ");
        s.append(self.target.path.as_str());
        s.append(" ");
        s.append(self.version.to_string().as_str());
        s.append("\r\n\r\n");
        s
    }
}

} // verus!
