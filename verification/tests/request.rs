use http_server::http::error::Error as VersionError;
use http_server::http::header::connection;
use http_server::http::header::user_agent;
use http_server::http::header::Kind;
use http_server::http::request::target::Form;
use http_server::http::request::{Error, Method, ParseRequestMethodError, Startline, Target};
use http_server::http::{Request, Version, MAX_BUFFER_SIZE};

fn buffer(text: &[u8]) -> ([u8; MAX_BUFFER_SIZE], usize) {
    let mut b = [0u8; MAX_BUFFER_SIZE];
    b[..text.len()].copy_from_slice(text);
    (b, text.len())
}

fn construct(text: &[u8]) -> Option<Request> {
    let (b, n) = buffer(text);
    Request::try_construct(&b, n)
}

#[test]
fn method_tokens() {
    assert_eq!(Method::from_str("GET"), Ok(Method::Get));
    assert_eq!(Method::from_str("POST"), Ok(Method::Post));
    assert_eq!(Method::from_str("PUT"), Ok(Method::Put));
    assert_eq!(Method::from_str("HEAD"), Ok(Method::Head));
    assert_eq!(Method::from_str("OPTIONS"), Ok(Method::Options));
    assert_eq!(Method::Get.to_string(), "GET");
    assert_eq!(Method::Post.to_string(), "POST");
    assert_eq!(Method::Put.to_string(), "PUT");
    assert_eq!(Method::Head.to_string(), "HEAD");
    assert_eq!(Method::Options.to_string(), "OPTIONS");
}

#[test]
fn method_unknown_token() {
    let e = Method::from_str("get").unwrap_err();
    assert_eq!(
        e.to_string(),
        "parse_request_method_error: get is not a recognized request method"
    );
    assert_eq!(
        e,
        ParseRequestMethodError::new("get is not a recognized request method")
    );
    assert!(Method::from_str("").is_err());
    assert!(Method::from_str("DELETE").is_err());
}

#[test]
fn method_error_from_any_message() {
    assert_eq!(ParseRequestMethodError::new(42).to_string(), "parse_request_method_error: 42");
}

#[test]
fn startline_of_three_words() {
    let line = Startline::from_str("GET /echo/abc HTTP/1.1").unwrap();
    assert_eq!(line.method, Method::Get);
    assert_eq!(line.target, Target { path: "/echo/abc".to_string(), form: Form::Absolute });
    assert_eq!(line.version, Version(1, Some(1)));
}

#[test]
fn startline_any_white_space_separates() {
    assert_eq!(
        Startline::from_str("  POST \t /files/a   HTTP/2 \r\n"),
        Ok(Startline {
            method: Method::Post,
            target: Target { path: "/files/a".to_string(), form: Form::Absolute },
            version: Version(2, None),
        })
    );
}

#[test]
fn startline_asterisk_target() {
    let line = Startline::from_str("OPTIONS * HTTP/1.1").unwrap();
    assert_eq!(line.target, Target { path: "*".to_string(), form: Form::Asterisk });
    let line = Startline::from_str("GET /a*b HTTP/1.1").unwrap();
    assert_eq!(line.target, Target { path: "*".to_string(), form: Form::Asterisk });
}

#[test]
fn startline_word_count() {
    assert_eq!(Startline::from_str(""), Err(Error::ComponentCount));
    assert_eq!(Startline::from_str("GET /"), Err(Error::ComponentCount));
    assert_eq!(Startline::from_str("GET / HTTP/1.1 extra"), Err(Error::ComponentCount));
    assert_eq!(
        Error::ComponentCount.to_string(),
        "component count longer not equal to 3"
    );
}

#[test]
fn startline_unknown_method() {
    match Startline::from_str("FETCH / HTTP/1.1") {
        Err(Error::Method(e)) => assert_eq!(
            e.to_string(),
            "parse_request_method_error: FETCH is not a recognized request method"
        ),
        other => panic!("{:?}", other),
    }
}

#[test]
fn startline_bad_version() {
    assert_eq!(
        Startline::from_str("GET / FOO/1.1"),
        Err(Error::Version(VersionError::ParseVersion("FOO".to_string(), "1.1".to_string())))
    );
    assert_eq!(
        Startline::from_str("GET / HTTP"),
        Err(Error::Version(VersionError::ParseVersionFormat("HTTP".to_string())))
    );
    assert_eq!(
        Error::Version(VersionError::ParseVersionFormat("HTTP".to_string())).to_string(),
        "[http_server::http::error] parse version format error HTTP"
    );
}

#[test]
fn startline_method_is_read_before_version() {
    assert!(matches!(Startline::from_str("FETCH / FOO/1.1"), Err(Error::Method(_))));
}

#[test]
fn startline_try_parse() {
    assert_eq!(
        Startline::try_parse("GET / HTTP/1.1"),
        Some(Startline {
            method: Method::Get,
            target: Target { path: "/".to_string(), form: Form::Absolute },
            version: Version(1, Some(1)),
        })
    );
    assert_eq!(Startline::try_parse("GET /"), None);
    assert_eq!(Startline::try_parse("FETCH / HTTP/1.1"), None);
    assert_eq!(Startline::try_parse("GET / HTTP/x"), None);
}

#[test]
fn startline_is_written() {
    let line = Startline::from_str("GET /echo/abc HTTP/1.1").unwrap();
    assert_eq!(line.to_string(), "GET /echo/abc HTTP/1.1\r\n\r\n");
}

#[test]
fn request_with_headers_and_no_body() {
    let r = construct(
        b"GET /user-agent HTTP/1.1\r\nHost: localhost:4221\r\nUser-Agent: curl/7.81.0\r\n\r\n",
    )
    .unwrap();
    assert_eq!(r.start_line.method, Method::Get);
    assert_eq!(r.start_line.target.path, "/user-agent");
    assert_eq!(r.start_line.version, Version(1, Some(1)));
    assert_eq!(
        r.headers,
        vec![
            Kind::Host("localhost".to_string(), Some(4221)),
            Kind::UserAgent(user_agent::Kind::Curl("7.81.0".to_string())),
        ]
    );
    assert_eq!(r.body, Vec::<u8>::new());
}

#[test]
fn request_malformed_header_is_dropped() {
    let r = construct(b"GET / HTTP/1.1\r\nthis is no header\r\nConnection: keep-alive\r\n")
        .unwrap();
    assert_eq!(r.headers, vec![Kind::Connection(connection::Kind::KeepAlive)]);
    assert_eq!(r.body, Vec::<u8>::new());
}

#[test]
fn request_unknown_and_bad_headers_are_dropped() {
    let r = construct(
        b"GET / HTTP/1.1\r\nX-Custom: value\r\nContent-Length: many\r\nAccept: */*\r\nHost: a:b\r\n\r\n",
    )
    .unwrap();
    assert_eq!(r.headers, vec![Kind::Accept("*/*".to_string())]);
}

#[test]
fn request_malformed_start_line_is_fatal() {
    assert_eq!(construct(b"GET /\r\nHost: a\r\n\r\n"), None);
    assert_eq!(construct(b"FETCH / HTTP/1.1\r\nHost: a\r\n\r\n"), None);
    assert_eq!(construct(b"GET / HTTP/one\r\n\r\n"), None);
    assert_eq!(construct(b"Host: a\r\nGET / HTTP/1.1\r\n\r\n"), None);
    assert_eq!(construct(b""), None);
    assert_eq!(construct(b"\r\n\r\n"), None);
}

#[test]
fn request_body_is_what_follows_the_blank_line() {
    let r = construct(
        b"POST /files/test.txt HTTP/1.1\r\nHost: localhost:4221\r\nContent-Length: 3\r\n\r\nabc",
    )
    .unwrap();
    assert_eq!(r.start_line.method, Method::Post);
    assert_eq!(
        r.headers,
        vec![Kind::Host("localhost".to_string(), Some(4221)), Kind::ContentLength(3)]
    );
    assert_eq!(r.body, b"abc".to_vec());
}

#[test]
fn request_body_is_kept_byte_for_byte() {
    let r = construct(b"POST /files/b HTTP/1.1\r\n\r\nline one\r\n\r\nline: two\n\x00\xff")
        .unwrap();
    assert_eq!(r.headers, Vec::<Kind>::new());
    assert_eq!(r.body, b"line one\r\n\r\nline: two\n\x00\xff".to_vec());
}

#[test]
fn request_body_ends_at_content_length() {
    let r = construct(b"POST /files/b HTTP/1.1\r\nContent-Length: 2\r\n\r\nabcdef").unwrap();
    assert_eq!(r.body, b"ab".to_vec());
    let r = construct(b"POST /files/b HTTP/1.1\r\nContent-Length: 0\r\n\r\nabcdef").unwrap();
    assert_eq!(r.body, Vec::<u8>::new());
}

#[test]
fn request_body_shorter_than_content_length_is_kept() {
    let r = construct(b"POST /files/b HTTP/1.1\r\nContent-Length: 100\r\n\r\nabc").unwrap();
    assert_eq!(r.body, b"abc".to_vec());
}

#[test]
fn request_first_content_length_counts() {
    let r = construct(
        b"POST /files/b HTTP/1.1\r\nContent-Length: 1\r\nContent-Length: 3\r\n\r\nabc",
    )
    .unwrap();
    assert_eq!(r.body, b"a".to_vec());
    assert_eq!(Request::content_length(&r.headers), Some(1));
}

#[test]
fn request_without_blank_line_has_no_body() {
    let r = construct(b"GET / HTTP/1.1\r\nAccept: */*").unwrap();
    assert_eq!(r.headers, vec![Kind::Accept("*/*".to_string())]);
    assert_eq!(r.body, Vec::<u8>::new());
}

#[test]
fn request_lines_may_end_in_line_feed_alone() {
    let r = construct(b"GET / HTTP/1.1\nAccept: */*\n\nbody").unwrap();
    assert_eq!(r.headers, vec![Kind::Accept("*/*".to_string())]);
    assert_eq!(r.body, b"body".to_vec());
}

#[test]
fn request_blank_lines_before_the_start_line_are_passed_over() {
    let r = construct(b"\r\n\r\nGET / HTTP/1.1\r\nAccept: */*\r\n\r\n").unwrap();
    assert_eq!(r.start_line.target.path, "/");
    assert_eq!(r.headers, vec![Kind::Accept("*/*".to_string())]);
}

#[test]
fn request_only_the_bytes_read_count() {
    let (b, _) = buffer(b"GET / HTTP/1.1\r\nAccept: */*\r\n\r\nbody");
    let r = Request::try_construct(&b, 16).unwrap();
    assert_eq!(r.headers, Vec::<Kind>::new());
    assert_eq!(r.body, Vec::<u8>::new());
    assert_eq!(Request::try_construct(&b, 5), None);
    assert_eq!(Request::try_construct(&b, 0), None);
    let r = Request::try_construct(&b, MAX_BUFFER_SIZE).unwrap();
    assert_eq!(r.body.len(), MAX_BUFFER_SIZE - 31);
}

#[test]
fn request_bytes_are_characters_one_for_one() {
    let r = construct(b"GET /caf\xe9 HTTP/1.1\r\nAccept: \xfcber\r\n\r\n").unwrap();
    assert_eq!(r.start_line.target.path, "/caf\u{e9}");
    assert_eq!(r.headers, vec![Kind::Accept("\u{fc}ber".to_string())]);
}

#[test]
fn request_from_bytes_of_any_length() {
    let mut text = b"POST /files/big HTTP/1.1\r\n\r\n".to_vec();
    text.extend(std::iter::repeat(b'x').take(5000));
    let r = Request::from_bytes(&text).unwrap();
    assert_eq!(r.body.len(), 5000);
}

#[test]
fn request_first_user_agent() {
    let r = construct(
        b"GET / HTTP/1.1\r\nAccept: */*\r\nUser-Agent: first\r\nUser-Agent: curl/2\r\n\r\n",
    )
    .unwrap();
    assert_eq!(r.user_agent(), Some("first".to_string()));
    let r = construct(b"GET / HTTP/1.1\r\nAccept: */*\r\n\r\n").unwrap();
    assert_eq!(r.user_agent(), None);
}
