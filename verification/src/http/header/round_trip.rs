//! A header that is written as a line and read again.

use crate::http::header::connection;
use crate::http::header::content_type;
use crate::http::header::error::ErrorView;
use crate::http::header::user_agent;
use crate::http::header::KindView;
use crate::number::{digits, is_digit, lemma_digits, parse, NumberError};
use crate::text::{
    blank, is_whitespace, lemma_span, lemma_span_back, lemma_split_once_is,
    lemma_split_once_none, lemma_trim, lemma_trim_is, lemma_trim_pads, lemma_trim_tidy,
    other_than, span, span_back, split_once, tidy, trim,
};
use vstd::prelude::*;

verus! {

/// The characters that header names are made of.
pub open spec fn is_name_char(c: char) -> bool {
    'a' <= c <= 'z' || 'A' <= c <= 'Z' || c == '-'
}

/// A text made of letters and hyphens, and not empty.
pub open spec fn is_name(s: Seq<char>) -> bool {
    s.len() > 0 && forall|i: int| 0 <= i < s.len() ==> is_name_char(#[trigger] s[i])
}

/// The nine header names are names, and no two of them are the same.
pub proof fn lemma_names(h: KindView)
    ensures
        is_name(h.name()),
        h is Host <==> h.name() == "Host"@,
        h is UserAgent <==> h.name() == "User-Agent"@,
        h is Accept <==> h.name() == "Accept"@,
        h is AcceptLanguage <==> h.name() == "Accept-Language"@,
        h is AcceptEncoding <==> h.name() == "Accept-Encoding"@,
        h is Connection <==> h.name() == "Connection"@,
        h is UpgradeInsecureRequests <==> h.name() == "Upgrade-Insecure-Requests"@,
        h is ContentType <==> h.name() == "Content-Type"@,
        h is ContentLength <==> h.name() == "Content-Length"@,
{
    reveal_strlit("Host");
    reveal_strlit("User-Agent");
    reveal_strlit("Accept");
    reveal_strlit("Accept-Language");
    reveal_strlit("Accept-Encoding");
    reveal_strlit("Connection");
    reveal_strlit("Upgrade-Insecure-Requests");
    reveal_strlit("Content-Type");
    reveal_strlit("Content-Length");
    assert("Host"@.len() == 4);
    assert("User-Agent"@.len() == 10);
    assert("Accept"@.len() == 6);
    assert("Accept-Language"@.len() == 15);
    assert("Accept-Encoding"@.len() == 15);
    assert("Connection"@.len() == 10);
    assert("Upgrade-Insecure-Requests"@.len() == 25);
    assert("Content-Type"@.len() == 12);
    assert("Content-Length"@.len() == 14);
    assert("Accept-Language"@[7] != "Accept-Encoding"@[7]);
    assert("User-Agent"@[0] != "Connection"@[0]);
}

/// A header line falls apart at the colon after its name: the name before
/// it, and after it what trims to the trimmed value.
pub proof fn lemma_line(name: Seq<char>, value: Seq<char>)
    requires
        is_name(name),
    ensures
        split_once(name + ": "@ + value + "\r\n"@, ':') == Some(
            (name, " "@ + value + "\r\n"@),
        ),
        trim(name) == name,
        trim(" "@ + value + "\r\n"@) == trim(value),
{
    reveal_strlit(": ");
    reveal_strlit(" ");
    reveal_strlit("\r\n");
    let line = name + ": "@ + value + "\r\n"@;
    let n = name.len() as int;
    assert forall|j: int| 0 <= j < n implies #[trigger] line[j] != ':' by {
        assert(line[j] == name[j]);
        assert(is_name_char(name[j]));
    }
    assert(line[n] == ':');
    lemma_split_once_is(line, ':', n);
    assert(line.take(n) =~= name);
    assert(line.skip(n + 1) =~= " "@ + value + "\r\n"@);
    assert(is_name_char(name[0]));
    assert(is_name_char(name.last()));
    lemma_trim_tidy(name);
    lemma_trim_pads(" "@, value, "\r\n"@);
}

/// Trimming keeps every character that is no white space.
proof fn lemma_trim_keeps(s: Seq<char>, c: char)
    requires
        !is_whitespace(c),
    ensures
        trim(s).contains(c) <==> s.contains(c),
{
    let (a, b) = lemma_trim(s);
    let t = s.subrange(a, b);
    if s.contains(c) {
        let j = choose|j: int| 0 <= j < s.len() && s[j] == c;
        assert(a <= j < b);
        assert(t[j - a] == c);
    }
    if t.contains(c) {
        let j = choose|j: int| 0 <= j < t.len() && t[j] == c;
        assert(s[j + a] == c);
    }
}

/// The notation of a number is tidy, holds no colon, and reads back.
proof fn lemma_number(n: nat, max: nat)
    requires
        n <= max,
    ensures
        trim(digits(n)) == digits(n),
        !digits(n).contains(':'),
        parse(digits(n), max) == Ok::<nat, NumberError>(n),
{
    lemma_digits(n, max);
    let d = digits(n);
    assert(is_digit(d[0]));
    assert(is_digit(d.last()));
    lemma_trim_tidy(d);
    if d.contains(':') {
        let j = choose|j: int| 0 <= j < d.len() && d[j] == ':';
        assert(is_digit(d[j]));
    }
}

/// A host without a number is read back exactly where it is tidy and holds
/// no colon.
proof fn lemma_host_alone(host: Seq<char>)
    ensures
        KindView::parsed_host(trim(host)) == Ok::<KindView, ErrorView>(
            KindView::Host(host, None),
        ) <==> tidy(host) && !host.contains(':'),
{
    lemma_trim_keeps(host, ':');
    lemma_split_once_none(trim(host), ':');
    lemma_trim_tidy(host);
}

/// A host with a number is read back exactly where it holds no colon and
/// does not start with white space.
proof fn lemma_host_numbered(host: Seq<char>, number: u16)
    ensures
        KindView::parsed_host(trim(host + ":"@ + digits(number as nat))) == Ok::<
            KindView,
            ErrorView,
        >(KindView::Host(host, Some(number))) <==> !host.contains(':') && (host.len() > 0
            ==> !is_whitespace(host[0])),
{
    reveal_strlit(":");
    let d = digits(number as nat);
    lemma_digits(number as nat, u16::MAX as nat);
    lemma_number(number as nat, u16::MAX as nat);
    let whole = host + ":"@ + d;
    let n = host.len() as int;
    let (a0, b0) = lemma_trim(host);
    // The white space at the start of the whole is that of the host.
    let a = if a0 < b0 {
        a0
    } else {
        n
    };
    assert(is_digit(d.last()));
    assert(whole.last() == d.last());
    assert(whole[n] == ':');
    assert forall|j: int| 0 <= j < a implies is_whitespace(#[trigger] whole[j]) by {
        assert(whole[j] == host[j]);
    }
    if a < n {
        assert(whole[a] == host[a]);
    }
    lemma_trim_is(whole, a, whole.len() as int);
    let t = whole.subrange(a, whole.len() as int);
    assert(trim(whole) == t);
    if host.contains(':') {
        let j = choose|j: int| 0 <= j < n && host[j] == ':';
        assert(a <= j);
        assert(t[j - a] == ':');
        lemma_span(t, other_than(':'));
        let i = span(t, other_than(':')) as int;
        if i > j - a {
            assert(other_than(':')(t[j - a]));
        }
        assert(t.take(i).len() < n);
    } else {
        assert forall|j: int| 0 <= j < n - a implies #[trigger] t[j] != ':' by {
            assert(t[j] == host[j + a]);
        }
        assert(t[n - a] == ':');
        lemma_split_once_is(t, ':', n - a);
        assert(t.take(n - a) =~= host.skip(a));
        assert(t.skip(n - a + 1) =~= d);
        if a == 0 {
            assert(host.skip(0) =~= host);
        } else {
            assert(host.skip(a).len() < n);
        }
    }
}

/// A user agent is read back exactly where it is canonical.
proof fn lemma_user_agent(agent: user_agent::KindView)
    ensures
        user_agent::KindView::parsed(trim(agent.text())) == agent <==> agent.canonical(),
{
    reveal_strlit("curl/");
    reveal_strlit("curl");
    reveal_strlit("Go-http-client/");
    reveal_strlit("Go-http-client");
    match agent {
        user_agent::KindView::Curl(version) => {
            assert("curl/"@ =~= "curl"@.push('/'));
            lemma_product("curl"@, "curl/"@, version);
        },
        user_agent::KindView::GoHttpClient(version) => {
            assert("Go-http-client"@.len() != "curl"@.len());
            assert("Go-http-client/"@ =~= "Go-http-client"@.push('/'));
            lemma_product("Go-http-client"@, "Go-http-client/"@, version);
        },
        user_agent::KindView::Any(text) => {
            lemma_trim_tidy(text);
        },
        user_agent::KindView::Unrecognized => {},
    }
}

/// A product and a version, written with a slash between them, trim and
/// split into the product and the version without the white space at its
/// end.
proof fn lemma_product(product: Seq<char>, prefix: Seq<char>, version: Seq<char>)
    requires
        is_name(product),
        prefix == product.push('/'),
    ensures
        split_once(trim(prefix + version), '/') matches Some((p, v)) && p == product && (v
            == version <==> (version.len() > 0 ==> !is_whitespace(version.last()))),
{
    let whole = prefix + version;
    let k = prefix.len() as int;
    lemma_span_back(version, blank());
    let m = span_back(version, blank()) as int;
    let b = whole.len() - m;
    assert(is_name_char(product[0]));
    assert(whole[0] == product[0]);
    assert(whole[k - 1] == '/');
    assert forall|j: int| b <= j < whole.len() implies is_whitespace(#[trigger] whole[j]) by {
        assert(whole[j] == version[j - k]);
        assert(blank()(version[j - k]));
    }
    if m < version.len() {
        assert(whole[b - 1] == version[version.len() - m - 1]);
    }
    lemma_trim_is(whole, 0, b);
    let t = whole.subrange(0, b);
    assert forall|j: int| 0 <= j < k - 1 implies #[trigger] t[j] != '/' by {
        assert(t[j] == product[j]);
        assert(is_name_char(product[j]));
    }
    assert(t[k - 1] == '/');
    lemma_split_once_is(t, '/', k - 1);
    assert(t.take(k - 1) =~= product);
    assert(t.skip(k) =~= version.take(version.len() - m));
    if m == 0 {
        assert(version.take(version.len() as int) =~= version);
    } else {
        assert(version.take(version.len() - m).len() < version.len());
        assert(blank()(version.last()));
    }
}

/// The two content types and the known connection are read back.
proof fn lemma_tokens()
    ensures
        content_type::Kind::parsed(trim(content_type::Kind::Plaintext.text())) == Ok::<
            content_type::Kind,
            ErrorView,
        >(content_type::Kind::Plaintext),
        content_type::Kind::parsed(trim(content_type::Kind::Appbytestream.text())) == Ok::<
            content_type::Kind,
            ErrorView,
        >(content_type::Kind::Appbytestream),
        connection::Kind::parsed(trim(connection::Kind::KeepAlive.text())) == Ok::<
            connection::Kind,
            ErrorView,
        >(connection::Kind::KeepAlive),
{
    reveal_strlit("text/plain");
    reveal_strlit("application/octet-stream");
    reveal_strlit("keep-alive");
    assert("text/plain"@.len() != "application/octet-stream"@.len());
    lemma_trim_tidy("text/plain"@);
    lemma_trim_tidy("application/octet-stream"@);
    lemma_trim_tidy("keep-alive"@);
}

/// The round trip: a header that is written as a line and read again is the
/// same header, exactly for the headers in canonical form.
pub proof fn lemma_round_trip(h: KindView)
    ensures
        KindView::parsed(h.text()) == Ok::<KindView, ErrorView>(h) <==> h.canonical(),
{
    lemma_names(h);
    lemma_line(h.name(), h.value());
    lemma_tokens();
    match h {
        KindView::Host(host, None) => {
            lemma_host_alone(host);
        },
        KindView::Host(host, Some(number)) => {
            lemma_host_numbered(host, number);
        },
        KindView::UserAgent(agent) => {
            lemma_user_agent(agent);
        },
        KindView::Accept(accepted) => {
            lemma_trim_tidy(accepted);
        },
        KindView::AcceptLanguage(accepted) => {
            lemma_trim_tidy(accepted);
        },
        KindView::AcceptEncoding(accepted) => {
            lemma_trim_tidy(accepted);
        },
        KindView::Connection(connection) => {},
        KindView::UpgradeInsecureRequests(count) => {
            lemma_number(count as nat, u32::MAX as nat);
        },
        KindView::ContentType(content_type) => {},
        KindView::ContentLength(length) => {
            lemma_number(length as nat, usize::MAX as nat);
        },
    }
}

} // verus!
