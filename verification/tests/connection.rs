use http_server::http::header::connection::Kind;
use http_server::http::header::error::Error;

#[test]
fn keep_alive_from_str() {
    let s = "keep-alive";
    assert_eq!(Kind::from_str(s).unwrap(), Kind::KeepAlive)
}

#[test]
fn connection_other_value_is_unrecognized() {
    assert_eq!(
        Kind::from_str("close"),
        Err(Error::Unrecognized("unknown connection kind value close".to_string()))
    );
}
