//! Errors that carry a message, and the header under which they are logged.

use std::fmt::Display;
use vstd::prelude::*;
use vstd::string::to_string_from_display_ensures;

verus! {

/// Whether a character has the Unicode property `Uppercase`.
pub uninterp spec fn unicode_uppercase(c: char) -> bool;

/// `char::is_uppercase` tells whether a character has the Unicode property
/// `Uppercase`: the answer depends on the character alone.
pub assume_specification[ char::is_uppercase ](c: char) -> (r: bool)
    ensures
        r == unicode_uppercase(c),
;

/// `c` in lower case where it is one of the letters `A` to `Z`, and `c`
/// itself where it is not.
pub open spec fn lower(c: char) -> char {
    if 'A' <= c <= 'Z' {
        ((c as u8) + 32u8) as char
    } else {
        c
    }
}

/// What one character of a type name adds to the log header: the first
/// character in lower case; a later upper-case character in lower case,
/// after an underscore; any other character as it is.
pub open spec fn cased(c: char, first: bool, upper: bool) -> Seq<char> {
    if first {
        seq![lower(c)]
    } else if upper {
        seq!['_', lower(c)]
    } else {
        seq![c]
    }
}

/// The log header made from the type name `name`.
pub open spec fn log_header_text(name: Seq<char>) -> Seq<char>
    decreases name.len(),
{
    if name.len() == 0 {
        Seq::empty()
    } else {
        log_header_text(name.drop_last()) + cased(
            name.last(),
            name.len() == 1,
            unicode_uppercase(name.last()),
        )
    }
}

/// The line under which an error is shown: header, colon, message.
pub open spec fn shown(header: Seq<char>, info: Seq<char>) -> Seq<char> {
    header + ": "@ + info
}

/// Turns one of the letters `A` to `Z` into lower case, and leaves any other
/// character as it is.
pub fn to_lower(c: char) -> (r: char)
    ensures
        r == lower(c),
{
    if 'A' <= c && c <= 'Z' {
        ((c as u8) + 32u8) as char
    } else {
        c
    }
}

/// Appends to `s` what the character `c` of a type name adds to the log
/// header, where `c` is the first character if `first`, and is in upper case
/// if `upper`.
pub fn push_cased(s: &mut String, c: char, first: bool, upper: bool)
    ensures
        final(s)@ == old(s)@ + cased(c, first, upper),
{
    if first {
        s.push(to_lower(c));
        assert(s@ =~= old(s)@ + cased(c, first, upper));
    } else if upper {
        s.push('_');
        s.push(to_lower(c));
        assert(s@ =~= old(s)@ + cased(c, first, upper));
    } else {
        s.push(c);
        assert(s@ =~= old(s)@ + cased(c, first, upper));
    }
}

/// The log header made from the type name `name`.
pub fn log_header_of(name: &str) -> (r: String)
    ensures
        r@ == log_header_text(name@),
{
    let mut r = String::new();
    let mut first = true;
    for c in it: name.chars()
        invariant
            it.seq() == name@,
            first == (it.index() == 0),
            r@ == log_header_text(name@.take(it.index() as int)),
    {
        let ghost i = it.index() as int;
        push_cased(&mut r, c, first, c.is_uppercase());
        first = false;
        proof {
            assert(name@.take(i + 1).drop_last() =~= name@.take(i));
            assert(name@.take(i + 1).last() == c);
        }
    }
    assert(name@.take(name@.len() as int) =~= name@);
    r
}

/// Renders the line under which an error is shown.
pub fn show(header: &str, info: &str) -> (r: String)
    ensures
        r@ == shown(header@, info@),
{
    let mut r = String::from_str(header);
    r.append(": ");
    r.append(info);
    r
}

/// An error that is made from a message and gives it back.
pub trait IError: Sized {
    /// The message that the error holds.
    spec fn held(&self) -> String;

    /// An error with the message that `msg` displays.
    fn new<S>(msg: S) -> (r: Self) where S: Display
        ensures
            to_string_from_display_ensures::<S>(&msg, r.held()),
    ;

    /// The message of the error.
    fn info(&self) -> (r: String)
        ensures
            r == self.held(),
    ;

    /// The header under which errors of this type are logged: the path of
    /// the type, in lower case with underscores.
    fn log_header() -> String;
}

/// Error for parsing user-agent header
#[derive(Debug, Eq, PartialEq)]
pub struct ParseUserAgentError(String);

impl IError for ParseUserAgentError {
    closed spec fn held(&self) -> String {
        self.0
    }

    fn new<S>(msg: S) -> (r: Self) where S: Display {
        Self(msg.to_string())
    }

    fn info(&self) -> (r: String) {
        self.0.clone()
    }

    fn log_header() -> (r: String)
        ensures
            r@ == log_header_text("http_server::error::ParseUserAgentError"@),
    {
        log_header_of("http_server::error::ParseUserAgentError")
    }
}

impl ParseUserAgentError {
    /// Renders the error: the log header, a colon, and the message.
    pub fn to_string(&self) -> (r: String)
        ensures
            r@ == shown(log_header_text("http_server::error::ParseUserAgentError"@), self.held()@),
    {
        show(Self::log_header().as_str(), self.info().as_str())
    }
}

/// Error for parsing connection header
#[derive(Debug, Eq, PartialEq)]
pub struct ParseConnectionError(String);

impl IError for ParseConnectionError {
    closed spec fn held(&self) -> String {
        self.0
    }

    fn new<S>(msg: S) -> (r: Self) where S: Display {
        Self(msg.to_string())
    }

    fn info(&self) -> (r: String) {
        self.0.clone()
    }

    fn log_header() -> (r: String)
        ensures
            r@ == log_header_text("http_server::error::ParseConnectionError"@),
    {
        log_header_of("http_server::error::ParseConnectionError")
    }
}

impl ParseConnectionError {
    /// Renders the error: the log header, a colon, and the message.
    pub fn to_string(&self) -> (r: String)
        ensures
            r@ == shown(log_header_text("http_server::error::ParseConnectionError"@), self.held()@),
    {
        show(Self::log_header().as_str(), self.info().as_str())
    }
}

/// Error for parsing content type header
#[derive(Debug, Eq, PartialEq)]
pub struct ParseContentTypeError(String);

impl IError for ParseContentTypeError {
    closed spec fn held(&self) -> String {
        self.0
    }

    fn new<S>(msg: S) -> (r: Self) where S: Display {
        Self(msg.to_string())
    }

    fn info(&self) -> (r: String) {
        self.0.clone()
    }

    fn log_header() -> (r: String)
        ensures
            r@ == log_header_text("http_server::error::ParseContentTypeError"@),
    {
        log_header_of("http_server::error::ParseContentTypeError")
    }
}

impl ParseContentTypeError {
    /// Renders the error: the log header, a colon, and the message.
    pub fn to_string(&self) -> (r: String)
        ensures
            r@ == shown(log_header_text("http_server::error::ParseContentTypeError"@), self.held()@),
    {
        show(Self::log_header().as_str(), self.info().as_str())
    }
}

/// Error for parsing header in general
#[derive(Debug, Eq, PartialEq)]
pub struct ParseHeaderError(String);

impl IError for ParseHeaderError {
    closed spec fn held(&self) -> String {
        self.0
    }

    fn new<S>(msg: S) -> (r: Self) where S: Display {
        Self(msg.to_string())
    }

    fn info(&self) -> (r: String) {
        self.0.clone()
    }

    fn log_header() -> (r: String)
        ensures
            r@ == log_header_text("http_server::error::ParseHeaderError"@),
    {
        log_header_of("http_server::error::ParseHeaderError")
    }
}

impl ParseHeaderError {
    /// Renders the error: the log header, a colon, and the message.
    pub fn to_string(&self) -> (r: String)
        ensures
            r@ == shown(log_header_text("http_server::error::ParseHeaderError"@), self.held()@),
    {
        show(Self::log_header().as_str(), self.info().as_str())
    }
}

/// Error for parsing http version
#[derive(Debug, Eq, PartialEq)]
pub struct ParseHttpVersionError(String);

impl IError for ParseHttpVersionError {
    closed spec fn held(&self) -> String {
        self.0
    }

    fn new<S>(msg: S) -> (r: Self) where S: Display {
        Self(msg.to_string())
    }

    fn info(&self) -> (r: String) {
        self.0.clone()
    }

    fn log_header() -> (r: String)
        ensures
            r@ == log_header_text("http_server::error::ParseHttpVersionError"@),
    {
        log_header_of("http_server::error::ParseHttpVersionError")
    }
}

impl ParseHttpVersionError {
    /// Renders the error: the log header, a colon, and the message.
    pub fn to_string(&self) -> (r: String)
        ensures
            r@ == shown(log_header_text("http_server::error::ParseHttpVersionError"@), self.held()@),
    {
        show(Self::log_header().as_str(), self.info().as_str())
    }
}

} // verus!
