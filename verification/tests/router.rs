use http_server::http::header::content_type;
use http_server::http::header::Kind;
use http_server::http::response::{Startline, Status};
use http_server::http::{Request, Response, RouteError, Routed, Version, MAX_BUFFER_SIZE};

fn construct(text: &[u8]) -> Request {
    let mut b = [0u8; MAX_BUFFER_SIZE];
    b[..text.len()].copy_from_slice(text);
    Request::try_construct(&b, text.len()).unwrap()
}

fn route(text: &[u8], directory: Option<&str>) -> Result<Routed, RouteError> {
    Response::try_from(construct(text), directory)
}

fn reply(text: &[u8]) -> Response {
    match route(text, None) {
        Ok(Routed::Reply(response)) => response,
        other => panic!("{:?}", other),
    }
}

/// A directory that is kept in memory.
struct Disk {
    files: Vec<(String, Vec<u8>)>,
}

impl Disk {
    fn read(&self, path: &str) -> Option<Vec<u8>> {
        self.files.iter().find(|(p, _)| p == path).map(|(_, c)| c.clone())
    }

    fn write(&mut self, path: &str, contents: &[u8]) -> usize {
        self.files.retain(|(p, _)| p != path);
        self.files.push((path.to_string(), contents.to_vec()));
        contents.len()
    }
}

fn serve(disk: &mut Disk, directory: &str, text: &[u8]) -> Response {
    match route(text, Some(directory)).unwrap() {
        Routed::Reply(response) => response,
        Routed::Read { path, version } => Response::from_read(version, disk.read(&path)),
        Routed::Write { path, contents, version } => {
            Response::from_write(version, disk.write(&path, &contents))
        }
    }
}

#[test]
fn route_root() {
    let r = reply(b"GET / HTTP/1.1\r\n\r\n");
    assert_eq!(r.start_line, Startline { version: Version(1, Some(1)), status: Status::Okay });
    assert_eq!(r.start_line.status.number(), 200);
    assert_eq!(r.headers, Vec::<Kind>::new());
    assert_eq!(r.body, None);
    assert_eq!(r.to_string(), "HTTP/1.1 200 OK\r\n\r\n");
}

#[test]
fn route_echo() {
    let r = reply(b"GET /echo/hello/world HTTP/1.1\r\n\r\n");
    assert_eq!(r.start_line.status, Status::Okay);
    assert_eq!(r.start_line.status.number(), 200);
    assert_eq!(
        r.headers,
        vec![Kind::ContentType(content_type::Kind::Plaintext), Kind::ContentLength(11)]
    );
    assert_eq!(r.body, Some("hello/world".to_string()));
    assert_eq!(
        r.to_string(),
        "HTTP/1.1 200 OK\r\nContent-Type: text/plain\r\nContent-Length: 11\r\n\r\nhello/world"
    );
}

#[test]
fn route_echo_without_payload() {
    let r = reply(b"GET /echo HTTP/1.1\r\n\r\n");
    assert_eq!(r.start_line.status, Status::Okay);
    assert_eq!(
        r.headers,
        vec![Kind::ContentType(content_type::Kind::Plaintext), Kind::ContentLength(0)]
    );
    assert_eq!(r.body, Some(String::new()));
}

#[test]
fn route_empty_pieces_of_the_path_do_not_count() {
    let r = reply(b"GET //echo//a///b/ HTTP/1.1\r\n\r\n");
    assert_eq!(r.start_line.status, Status::Okay);
    assert_eq!(r.body, Some("a/b".to_string()));
    let r = reply(b"GET echo/a HTTP/1.1\r\n\r\n");
    assert_eq!(r.body, Some("a".to_string()));
}

#[test]
fn route_only_the_first_piece_is_matched() {
    let r = reply(b"GET /a/echo/b HTTP/1.1\r\n\r\n");
    assert_eq!(r.start_line.status, Status::NotFound);
    let r = reply(b"GET /echoes/b HTTP/1.1\r\n\r\n");
    assert_eq!(r.start_line.status, Status::NotFound);
}

#[test]
fn route_echo_content_length_counts_bytes() {
    let r = reply(b"GET /echo/caf\xe9 HTTP/1.1\r\n\r\n");
    assert_eq!(r.body, Some("caf\u{e9}".to_string()));
    assert_eq!(
        r.headers,
        vec![Kind::ContentType(content_type::Kind::Plaintext), Kind::ContentLength(5)]
    );
    assert_eq!(r.to_string().as_bytes().len(), "HTTP/1.1 200 OK\r\nContent-Type: text/plain\r\nContent-Length: 5\r\n\r\n".len() + 5);
}

#[test]
fn route_user_agent() {
    let r = reply(
        b"GET /user-agent HTTP/1.1\r\nHost: localhost:4221\r\nUser-Agent: curl/7.81.0\r\n\r\n",
    );
    assert_eq!(r.start_line.status, Status::Okay);
    assert_eq!(r.start_line.status.number(), 200);
    assert_eq!(r.body, Some("curl/7.81.0".to_string()));
    assert_eq!(
        r.headers,
        vec![Kind::ContentType(content_type::Kind::Plaintext), Kind::ContentLength(11)]
    );
}

#[test]
fn route_user_agent_of_any_kind() {
    let r = reply(b"GET /user-agent HTTP/1.1\r\nUser-Agent: foobar/1.2.3\r\n\r\n");
    assert_eq!(r.body, Some("foobar/1.2.3".to_string()));
}

#[test]
fn route_user_agent_missing() {
    assert_eq!(
        route(b"GET /user-agent HTTP/1.1\r\nHost: localhost\r\n\r\n", None),
        Err(RouteError::MissingUserAgent)
    );
}

#[test]
fn route_unknown() {
    let r = reply(b"GET /nonexistent HTTP/1.1\r\n\r\n");
    assert_eq!(r.start_line.status, Status::NotFound);
    assert_eq!(r.start_line.status.number(), 404);
    assert_eq!(r.headers, Vec::<Kind>::new());
    assert_eq!(r.body, None);
    assert_eq!(r.to_string(), "HTTP/1.1 404 NotFound\r\n\r\n");
}

#[test]
fn route_path_without_pieces_is_unknown() {
    let r = reply(b"GET // HTTP/1.1\r\n\r\n");
    assert_eq!(r.start_line.status, Status::NotFound);
    let r = reply(b"GET * HTTP/1.1\r\n\r\n");
    assert_eq!(r.start_line.status, Status::NotFound);
}

#[test]
fn route_keeps_the_version_of_the_request() {
    let r = reply(b"GET / HTTP/2\r\n\r\n");
    assert_eq!(r.start_line.version, Version(2, None));
    assert_eq!(r.to_string(), "HTTP/2 200 OK\r\n\r\n");
    let r = reply(b"GET / HTTP/1.0\r\n\r\n");
    assert_eq!(r.start_line.version, Version(1, Some(0)));
    assert!(!r.start_line.version.is_supported());
}

#[test]
fn route_twice_gives_the_same() {
    for text in [
        &b"GET / HTTP/1.1\r\n\r\n"[..],
        &b"GET /echo/hello/world HTTP/1.1\r\n\r\n"[..],
        &b"GET /user-agent HTTP/1.1\r\nUser-Agent: curl/7.81.0\r\n\r\n"[..],
        &b"GET /user-agent HTTP/1.1\r\n\r\n"[..],
        &b"GET /files/a.txt HTTP/1.1\r\n\r\n"[..],
        &b"GET /nonexistent HTTP/1.1\r\n\r\n"[..],
    ] {
        assert_eq!(route(text, Some("/tmp")), route(text, Some("/tmp")));
    }
}

#[test]
fn route_off_the_files_does_not_read_the_directory() {
    for text in [
        &b"GET / HTTP/1.1\r\n\r\n"[..],
        &b"GET /echo/hello/world HTTP/1.1\r\n\r\n"[..],
        &b"GET /user-agent HTTP/1.1\r\nUser-Agent: curl/7.81.0\r\n\r\n"[..],
        &b"GET /nonexistent HTTP/1.1\r\n\r\n"[..],
    ] {
        assert_eq!(route(text, Some("/tmp")), route(text, None));
        assert_eq!(route(text, Some("/tmp")), route(text, Some("/var")));
    }
}

#[test]
fn route_get_file_asks_for_a_read() {
    assert_eq!(
        route(b"GET /files/a/b.txt HTTP/1.1\r\n\r\n", Some("/tmp/data")),
        Ok(Routed::Read { path: "/tmp/data/a/b.txt".to_string(), version: Version(1, Some(1)) })
    );
    assert_eq!(
        route(b"GET /files HTTP/1.1\r\n\r\n", Some("/tmp/data")),
        Ok(Routed::Read { path: "/tmp/data/".to_string(), version: Version(1, Some(1)) })
    );
}

#[test]
fn route_post_file_asks_for_a_write() {
    assert_eq!(
        route(
            b"POST /files/test.txt HTTP/1.1\r\nContent-Length: 3\r\n\r\nabc",
            Some("/tmp/data")
        ),
        Ok(Routed::Write {
            path: "/tmp/data/test.txt".to_string(),
            contents: b"abc".to_vec(),
            version: Version(1, Some(1)),
        })
    );
}

#[test]
fn route_files_without_directory() {
    assert_eq!(
        route(b"GET /files/a.txt HTTP/1.1\r\n\r\n", None),
        Err(RouteError::DirectoryNotConfigured)
    );
    assert_eq!(
        route(b"POST /files/a.txt HTTP/1.1\r\n\r\nabc", None),
        Err(RouteError::DirectoryNotConfigured)
    );
}

#[test]
fn route_not_implemented() {
    assert_eq!(route(b"POST / HTTP/1.1\r\n\r\n", Some("/tmp")), Err(RouteError::NotImplemented));
    assert_eq!(
        route(b"POST /echo/a HTTP/1.1\r\n\r\n", Some("/tmp")),
        Err(RouteError::NotImplemented)
    );
    assert_eq!(
        route(b"PUT /files/a HTTP/1.1\r\n\r\n", Some("/tmp")),
        Err(RouteError::NotImplemented)
    );
    assert_eq!(route(b"HEAD / HTTP/1.1\r\n\r\n", Some("/tmp")), Err(RouteError::NotImplemented));
    assert_eq!(
        route(b"OPTIONS * HTTP/1.1\r\n\r\n", Some("/tmp")),
        Err(RouteError::NotImplemented)
    );
}

#[test]
fn route_file_written_and_read_again() {
    let mut disk = Disk { files: Vec::new() };
    let posted = serve(
        &mut disk,
        "/tmp/data",
        b"POST /files/test.txt HTTP/1.1\r\nHost: localhost:4221\r\nContent-Length: 3\r\n\r\nabc",
    );
    assert_eq!(posted.start_line.status, Status::Okay);
    assert_eq!(
        posted.headers,
        vec![Kind::ContentType(content_type::Kind::Plaintext), Kind::ContentLength(3)]
    );
    assert_eq!(posted.body, None);
    assert_eq!(disk.files, vec![("/tmp/data/test.txt".to_string(), b"abc".to_vec())]);

    let got = serve(&mut disk, "/tmp/data", b"GET /files/test.txt HTTP/1.1\r\n\r\n");
    assert_eq!(got.start_line.status, Status::Okay);
    assert_eq!(got.start_line.status.number(), 200);
    assert_eq!(
        got.headers,
        vec![Kind::ContentType(content_type::Kind::Appbytestream), Kind::ContentLength(3)]
    );
    assert_eq!(got.body, Some("abc".to_string()));
    assert_eq!(
        got.to_string(),
        "HTTP/1.1 200 OK\r\nContent-Type: application/octet-stream\r\nContent-Length: 3\r\n\r\nabc"
    );
}

#[test]
fn route_file_that_is_absent() {
    let mut disk = Disk { files: Vec::new() };
    let got = serve(&mut disk, "/tmp/data", b"GET /files/none.txt HTTP/1.1\r\n\r\n");
    assert_eq!(got.start_line.status, Status::NotFound);
    assert_eq!(got.headers, Vec::<Kind>::new());
    assert_eq!(got.body, None);
}

#[test]
fn read_file_that_is_no_text_has_an_empty_body() {
    let got = Response::from_read(Version(1, Some(1)), Some(vec![0xff, 0xfe, 0x00]));
    assert_eq!(got.start_line.status, Status::Okay);
    assert_eq!(
        got.headers,
        vec![Kind::ContentType(content_type::Kind::Appbytestream), Kind::ContentLength(0)]
    );
    assert_eq!(got.body, Some(String::new()));
}

#[test]
fn read_file_in_utf8() {
    let got = Response::from_read(Version(1, Some(1)), Some("gr\u{fc}n \u{4e2d}".as_bytes().to_vec()));
    assert_eq!(got.body, Some("gr\u{fc}n \u{4e2d}".to_string()));
    assert_eq!(
        got.headers,
        vec![Kind::ContentType(content_type::Kind::Appbytestream), Kind::ContentLength(9)]
    );
}

#[test]
fn written_length_is_reported() {
    let r = Response::from_write(Version(2, None), 12345);
    assert_eq!(
        r.to_string(),
        "HTTP/2 200 OK\r\nContent-Type: text/plain\r\nContent-Length: 12345\r\n\r\n"
    );
}
