use http_server::http::error::Error;
use http_server::http::Version;

#[test]
fn version_one_one_round_trips() {
    let v = Version::from_str("HTTP/1.1").unwrap();
    assert_eq!(v, Version(1, Some(1)));
    assert!(v.is_supported());
    assert_eq!(v.to_string(), "HTTP/1.1");
}

#[test]
fn version_two_round_trips() {
    let v = Version::from_str("HTTP/2").unwrap();
    assert_eq!(v, Version(2, None));
    assert!(v.is_supported());
    assert_eq!(v.to_string(), "HTTP/2");
}

#[test]
fn version_other_protocol_is_a_mismatch() {
    assert_eq!(
        Version::from_str("FOO/1.1"),
        Err(Error::ParseVersion("FOO".to_string(), "1.1".to_string()))
    );
}

#[test]
fn version_protocol_is_case_sensitive() {
    assert_eq!(
        Version::from_str("http/1.1"),
        Err(Error::ParseVersion("http".to_string(), "1.1".to_string()))
    );
}

#[test]
fn version_without_slash_is_a_format_error() {
    assert_eq!(
        Version::from_str("garbage"),
        Err(Error::ParseVersionFormat("garbage".to_string()))
    );
}

#[test]
fn version_empty_is_a_format_error() {
    assert_eq!(Version::from_str(""), Err(Error::ParseVersionFormat(String::new())));
}

#[test]
fn version_major_that_is_no_byte_is_a_format_error() {
    assert_eq!(
        Version::from_str("HTTP/x.1"),
        Err(Error::ParseVersionFormat("HTTP/x.1".to_string()))
    );
    assert_eq!(
        Version::from_str("HTTP/256"),
        Err(Error::ParseVersionFormat("HTTP/256".to_string()))
    );
    assert_eq!(Version::from_str("HTTP/"), Err(Error::ParseVersionFormat("HTTP/".to_string())));
}

#[test]
fn version_minor_that_cannot_be_read_is_absent() {
    assert_eq!(Version::from_str("HTTP/1.x"), Ok(Version(1, None)));
    assert_eq!(Version::from_str("HTTP/1."), Ok(Version(1, None)));
    assert_eq!(Version::from_str("HTTP/1.1.1"), Ok(Version(1, None)));
}

#[test]
fn version_other_numbers_are_read_and_not_supported() {
    let v = Version::from_str("HTTP/1.0").unwrap();
    assert_eq!(v, Version(1, Some(0)));
    assert!(!v.is_supported());
    let w = Version::from_str("HTTP/3").unwrap();
    assert_eq!(w, Version(3, None));
    assert!(!w.is_supported());
    assert!(!Version(2, Some(1)).is_supported());
    assert!(!Version(1, None).is_supported());
}

#[test]
fn version_only_the_first_slash_counts() {
    assert_eq!(
        Version::from_str("FOO/1/2"),
        Err(Error::ParseVersion("FOO".to_string(), "1/2".to_string()))
    );
}

#[test]
fn version_error_in_words() {
    assert_eq!(
        Error::ParseVersion("FOO".to_string(), "1.1".to_string()).to_string(),
        "[http_server::http::error] parse version error FOO/1.1"
    );
    assert_eq!(
        Error::ParseVersionFormat("garbage".to_string()).to_string(),
        "[http_server::http::error] parse version format error garbage"
    );
}

#[test]
fn version_minor_stands_only_after_major_one() {
    assert_eq!(
        Version::from_str("HTTP/2.0"),
        Err(Error::ParseVersionFormat("HTTP/2.0".to_string()))
    );
    assert_eq!(
        Version::from_str("HTTP/0.9"),
        Err(Error::ParseVersionFormat("HTTP/0.9".to_string()))
    );
    assert_eq!(Version::from_str("HTTP/2.x"), Ok(Version(2, None)));
    assert_eq!(Version::from_str("HTTP/1.255"), Ok(Version(1, Some(255))));
    assert_eq!(Version::from_str("HTTP/1.256"), Ok(Version(1, None)));
}
