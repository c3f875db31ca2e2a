use http_server::text::{
    chars_of, copy_of, cut, decoded, find, has, is, latin1_of, line_at, push_all, push_joined,
    same, segments_of, string_of, trimmed, whitespace, words_of,
};

fn chars(s: &str) -> Vec<char> {
    s.chars().collect()
}

fn strings(parts: Vec<&[char]>) -> Vec<String> {
    parts.into_iter().map(|p| p.iter().collect()).collect()
}

#[test]
fn text_white_space_is_that_of_the_standard_library() {
    let mut c = 0u32;
    while c <= 0x10ffff {
        if let Some(ch) = char::from_u32(c) {
            assert_eq!(whitespace(ch), ch.is_whitespace(), "{:x}", c);
        }
        c += 1;
    }
}

#[test]
fn text_characters_and_back() {
    assert_eq!(chars_of("h\u{e9}llo"), vec!['h', '\u{e9}', 'l', 'l', 'o']);
    assert_eq!(chars_of(""), Vec::<char>::new());
    assert_eq!(string_of(&['a', '\u{4e2d}', 'b']), "a\u{4e2d}b");
    assert_eq!(string_of(&[]), "");
    let mut s = String::from("x");
    push_all(&mut s, &['y', 'z']);
    assert_eq!(s, "xyz");
}

#[test]
fn text_find() {
    assert_eq!(find(&chars("a:b:c"), ':'), 1);
    assert_eq!(find(&chars(":b"), ':'), 0);
    assert_eq!(find(&chars("abc"), ':'), 3);
    assert_eq!(find(&chars(""), ':'), 0);
    assert!(has(&chars("a*"), '*'));
    assert!(!has(&chars("a"), '*'));
}

#[test]
fn text_trimmed() {
    assert_eq!(string_of(trimmed(&chars("  a b \r\n"))), "a b");
    assert_eq!(string_of(trimmed(&chars("a"))), "a");
    assert_eq!(string_of(trimmed(&chars(" \t "))), "");
    assert_eq!(string_of(trimmed(&chars(""))), "");
    for s in ["", " ", "a", " a", "a ", "\u{a0}a\u{3000}", " a  b ", "\n\n"] {
        assert_eq!(string_of(trimmed(&chars(s))), s.trim());
    }
}

#[test]
fn text_same_and_is() {
    assert!(same(&chars("abc"), &chars("abc")));
    assert!(!same(&chars("abc"), &chars("abd")));
    assert!(!same(&chars("abc"), &chars("ab")));
    assert!(same(&[], &[]));
    assert!(is(&chars("Host"), "Host"));
    assert!(!is(&chars("host"), "Host"));
    assert!(!is(&chars("Hos"), "Host"));
}

#[test]
fn text_cut() {
    let s = chars("a:b:c");
    let (head, tail) = cut(&s, ':').unwrap();
    assert_eq!(string_of(head), "a");
    assert_eq!(string_of(tail), "b:c");
    let s = chars("abc:");
    let (head, tail) = cut(&s, ':').unwrap();
    assert_eq!(string_of(head), "abc");
    assert_eq!(string_of(tail), "");
    assert!(cut(&chars("abc"), ':').is_none());
    assert!(cut(&[], ':').is_none());
}

#[test]
fn text_segments() {
    assert_eq!(strings(segments_of(&chars("/echo/hello/world"))), ["echo", "hello", "world"]);
    assert_eq!(strings(segments_of(&chars("//a///b/"))), ["a", "b"]);
    assert_eq!(strings(segments_of(&chars("a"))), ["a"]);
    assert!(segments_of(&chars("/")).is_empty());
    assert!(segments_of(&chars("")).is_empty());
    for s in ["/a/b", "a//b/", "///", "x", "/x/"] {
        let expected: Vec<String> =
            s.split('/').filter(|p| !p.is_empty()).map(|p| p.to_string()).collect();
        assert_eq!(strings(segments_of(&chars(s))), expected);
    }
}

#[test]
fn text_joined() {
    let path = chars("/echo/hello/world");
    let parts = segments_of(&path);
    let mut s = String::from(">");
    push_joined(&mut s, &parts, 1, &['/']);
    assert_eq!(s, ">hello/world");
    let mut s = String::new();
    push_joined(&mut s, &parts, 0, &[',', ' ']);
    assert_eq!(s, "echo, hello, world");
    let mut s = String::new();
    push_joined(&mut s, &parts, 3, &['/']);
    assert_eq!(s, "");
    let mut s = String::new();
    push_joined(&mut s, &parts, 2, &['/']);
    assert_eq!(s, "world");
}

#[test]
fn text_words() {
    assert_eq!(strings(words_of(&chars("GET / HTTP/1.1"))), ["GET", "/", "HTTP/1.1"]);
    assert_eq!(strings(words_of(&chars("  a \t b\r\n"))), ["a", "b"]);
    assert!(words_of(&chars("   ")).is_empty());
    assert!(words_of(&chars("")).is_empty());
    for s in ["a b c", " a", "a ", "\ta\u{a0}b  c\n", "abc"] {
        let expected: Vec<String> = s.split_whitespace().map(|p| p.to_string()).collect();
        assert_eq!(strings(words_of(&chars(s))), expected);
    }
}

#[test]
fn text_bytes_to_characters() {
    assert_eq!(latin1_of(b"a\xe9\x00\xff"), vec!['a', '\u{e9}', '\u{0}', '\u{ff}']);
    assert_eq!(latin1_of(b""), Vec::<char>::new());
}

#[test]
fn text_lines() {
    let b = b"one\r\ntwo\n\r\nrest";
    assert_eq!(line_at(b, 0), (3, 5));
    assert_eq!(line_at(b, 5), (8, 9));
    assert_eq!(line_at(b, 9), (9, 11));
    assert_eq!(line_at(b, 11), (15, 15));
    assert_eq!(line_at(b, 15), (15, 15));
    assert_eq!(line_at(b"\r", 0), (0, 1));
    assert_eq!(line_at(b"a\r", 0), (1, 2));
    assert_eq!(copy_of(b, 5, 8), b"two".to_vec());
}

#[test]
fn text_decoded() {
    assert_eq!(decoded(b"abc".to_vec()), "abc");
    assert_eq!(decoded(vec![0xe4, 0xb8, 0xad]), "\u{4e2d}");
    assert_eq!(decoded(vec![0xc3, 0xa9]), "\u{e9}");
    assert_eq!(decoded(vec![0xff]), "");
    assert_eq!(decoded(vec![0xe4, 0xb8]), "");
    assert_eq!(decoded(Vec::new()), "");
}
