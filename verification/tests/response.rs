use http_server::http::header::content_type;
use http_server::http::header::Kind;
use http_server::http::request;
use http_server::http::response::{Startline, Status};
use http_server::http::{Response, Version};

fn ask(line: &str) -> request::Startline {
    request::Startline::from_str(line).unwrap()
}

#[test]
fn status_numbers_and_words() {
    assert_eq!(Status::Okay.number(), 200);
    assert_eq!(Status::Created.number(), 201);
    assert_eq!(Status::NotFound.number(), 404);
    assert_eq!(Status::Okay.to_string(), "200 OK");
    assert_eq!(Status::Created.to_string(), "201 Created");
    assert_eq!(Status::NotFound.to_string(), "404 NotFound");
}

#[test]
fn response_startline_is_written() {
    let line = Startline { version: Version(1, Some(1)), status: Status::Created };
    assert_eq!(line.to_string(), "HTTP/1.1 201 Created\r\n");
    let line = Startline { version: Version(2, None), status: Status::NotFound };
    assert_eq!(line.to_string(), "HTTP/2 404 NotFound\r\n");
}

#[test]
fn response_startline_from_request() {
    assert_eq!(
        Startline::try_from(ask("GET / HTTP/1.1")),
        Ok(Startline { version: Version(1, Some(1)), status: Status::Okay })
    );
    assert_eq!(
        Startline::try_from(ask("GET /echo/abc HTTP/2")),
        Ok(Startline { version: Version(2, None), status: Status::Okay })
    );
    assert_eq!(
        Startline::try_from(ask("GET //echo HTTP/1.1")),
        Ok(Startline { version: Version(1, Some(1)), status: Status::Okay })
    );
    assert_eq!(
        Startline::try_from(ask("GET /other HTTP/1.1")),
        Ok(Startline { version: Version(1, Some(1)), status: Status::NotFound })
    );
    assert_eq!(
        Startline::try_from(ask("GET // HTTP/1.1")),
        Ok(Startline { version: Version(1, Some(1)), status: Status::NotFound })
    );
}

#[test]
fn response_startline_for_other_methods() {
    assert_eq!(
        Startline::try_from(ask("POST / HTTP/1.1")),
        Err("POST is not implemented".to_string())
    );
    assert_eq!(
        Startline::try_from(ask("OPTIONS * HTTP/1.1")),
        Err("OPTIONS is not implemented".to_string())
    );
}

#[test]
fn response_without_headers_and_body() {
    let r = Response::bare(Version(1, Some(1)), Status::Okay);
    assert_eq!(r.to_string(), "HTTP/1.1 200 OK\r\n\r\n");
}

#[test]
fn response_with_body() {
    let r = Response::carrying(
        Version(1, Some(1)),
        content_type::Kind::Plaintext,
        "abc".to_string(),
    );
    assert_eq!(
        r.headers,
        vec![Kind::ContentType(content_type::Kind::Plaintext), Kind::ContentLength(3)]
    );
    assert_eq!(
        r.to_string(),
        "HTTP/1.1 200 OK\r\nContent-Type: text/plain\r\nContent-Length: 3\r\n\r\nabc"
    );
}

#[test]
fn response_body_gets_no_line_end() {
    let r = Response {
        start_line: Startline { version: Version(1, Some(1)), status: Status::Okay },
        headers: vec![Kind::ContentLength(2)],
        body: Some("a\n".to_string()),
    };
    assert_eq!(r.to_string(), "HTTP/1.1 200 OK\r\nContent-Length: 2\r\n\r\na\n");
}

#[test]
fn response_headers_keep_their_order() {
    let r = Response {
        start_line: Startline { version: Version(2, None), status: Status::Created },
        headers: vec![
            Kind::ContentLength(0),
            Kind::Host("a".to_string(), Some(1)),
            Kind::ContentType(content_type::Kind::Appbytestream),
        ],
        body: None,
    };
    assert_eq!(
        r.to_string(),
        "HTTP/2 201 Created\r\nContent-Length: 0\r\nHost: a:1\r\nContent-Type: application/octet-stream\r\n\r\n"
    );
}
