use http_core::parser::{HTTPRequestParser, ParseError};
use http_core::request::HTTPMethod;

fn parse(bytes: &[u8]) -> Result<http_core::request::HTTPRequest, ParseError> {
    HTTPRequestParser::new().parse(bytes)
}

#[test]
fn parses_simple_get() {
    let r = parse(b"GET /index.html HTTP/1.1\r\nHost: example.com\r\n\r\n").unwrap();
    assert_eq!(r.get_method(), HTTPMethod::GET);
    assert_eq!(r.get_uri(), "/index.html");
    assert_eq!(r.get_header("Host"), Some("example.com".to_string()));
    assert_eq!(r.get_body(), Vec::<u8>::new());
}

#[test]
fn short_input_is_malformed() {
    assert_eq!(parse(b"").err(), Some(ParseError::MalformedMessage));
    assert_eq!(parse(b"\r\n\r").err(), Some(ParseError::MalformedMessage));
}

#[test]
fn missing_delimiter_is_malformed() {
    assert_eq!(parse(b"GET / HTTP/1.1\r\nHost: a\r\n").err(), Some(ParseError::MalformedMessage));
}

#[test]
fn unknown_method_is_rejected() {
    assert_eq!(parse(b"FETCH / HTTP/1.1\r\n\r\n").err(), Some(ParseError::UnknownMethod));
    assert_eq!(parse(b"GETX / HTTP/1.1\r\n\r\n").err(), Some(ParseError::UnknownMethod));
}

#[test]
fn method_is_case_insensitive() {
    assert_eq!(parse(b"pOsT / HTTP/1.1\r\n\r\n").unwrap().get_method(), HTTPMethod::POST);
    assert_eq!(parse(b"delete / HTTP/1.1\r\n\r\n").unwrap().get_method(), HTTPMethod::DELETE);
    assert_eq!(parse(b"Options * HTTP/1.1\r\n\r\n").unwrap().get_method(), HTTPMethod::OPTIONS);
}

#[test]
fn every_method_is_known() {
    let cases: [(&[u8], HTTPMethod); 9] = [
        (b"CONNECT", HTTPMethod::CONNECT),
        (b"DELETE", HTTPMethod::DELETE),
        (b"GET", HTTPMethod::GET),
        (b"HEAD", HTTPMethod::HEAD),
        (b"OPTIONS", HTTPMethod::OPTIONS),
        (b"PATCH", HTTPMethod::PATCH),
        (b"POST", HTTPMethod::POST),
        (b"PUT", HTTPMethod::PUT),
        (b"TRACE", HTTPMethod::TRACE),
    ];
    for (name, m) in cases.iter() {
        let mut bytes = name.to_vec();
        bytes.extend_from_slice(b" / HTTP/1.1\r\n\r\n");
        assert_eq!(parse(&bytes).unwrap().get_method(), *m);
    }
}

#[test]
fn other_version_is_unsupported() {
    assert_eq!(parse(b"GET / HTTP/1.0\r\n\r\n").err(), Some(ParseError::UnsupportedVersion));
    assert_eq!(parse(b"GET / http/1.1\r\n\r\n").err(), Some(ParseError::UnsupportedVersion));
    assert_eq!(parse(b"GET / HTTP/2\r\n\r\n").err(), Some(ParseError::UnsupportedVersion));
}

#[test]
fn missing_tokens_are_malformed() {
    assert_eq!(parse(b"GET\r\n\r\n").err(), Some(ParseError::MalformedMessage));
    assert_eq!(parse(b"GET /x\r\n\r\n").err(), Some(ParseError::MalformedMessage));
    assert_eq!(parse(b"\r\n\r\n").err(), Some(ParseError::MalformedMessage));
}

#[test]
fn query_string_is_split() {
    let r = parse(b"GET /x?a=1&b=2 HTTP/1.1\r\n\r\n").unwrap();
    assert_eq!(r.get_uri(), "/x");
    assert_eq!(r.get_query("a"), Some("1".to_string()));
    assert_eq!(r.get_query("b"), Some("2".to_string()));
    assert_eq!(r.get_query("c"), None);
}

#[test]
fn malformed_query_pairs_are_dropped() {
    let r = parse(b"GET /p?flag&k=v&x=1=2 HTTP/1.1\r\n\r\n").unwrap();
    assert_eq!(r.get_uri(), "/p");
    assert_eq!(r.get_query("flag"), None);
    assert_eq!(r.get_query("k"), Some("v".to_string()));
    assert_eq!(r.get_query("x"), Some("1=2".to_string()));
}

#[test]
fn header_is_trimmed() {
    let r = parse(b"GET / HTTP/1.1\r\nFoo:  bar  \r\n\r\n").unwrap();
    assert_eq!(r.get_header("Foo"), Some("bar".to_string()));
}

#[test]
fn duplicate_header_keeps_last() {
    let r = parse(b"GET / HTTP/1.1\r\nA: 1\r\nB: x\r\nA: 2\r\n\r\n").unwrap();
    assert_eq!(r.get_header("A"), Some("2".to_string()));
    assert_eq!(r.get_header("B"), Some("x".to_string()));
}

#[test]
fn header_names_are_case_sensitive() {
    let r = parse(b"GET / HTTP/1.1\r\nHost: a\r\n\r\n").unwrap();
    assert_eq!(r.get_header("host"), None);
}

#[test]
fn lines_without_colon_are_dropped() {
    let r = parse(b"GET / HTTP/1.1\r\nnot a header\r\nK: v: w\r\n\r\n").unwrap();
    assert_eq!(r.get_header("not a header"), None);
    assert_eq!(r.get_header("K"), Some("v: w".to_string()));
}

#[test]
fn body_follows_first_delimiter() {
    let r = parse(b"POST /u HTTP/1.1\r\n\r\nab\r\n\r\nX: y\r\n\r\n").unwrap();
    assert_eq!(r.get_body(), b"ab\r\n\r\nX: y\r\n\r\n".to_vec());
    assert_eq!(r.get_header("X"), None);
}

#[test]
fn invalid_utf8_is_replaced() {
    let r = parse(b"GET /a\xffb HTTP/1.1\r\nK: \xfe\r\n\r\n").unwrap();
    assert_eq!(r.get_uri(), "/a\u{FFFD}b");
    assert_eq!(r.get_header("K"), Some("\u{FFFD}".to_string()));
}

#[test]
fn utf8_text_is_kept() {
    let r = parse("GET /caf\u{e9} HTTP/1.1\r\nN: \u{fc}ber\r\n\r\n".as_bytes()).unwrap();
    assert_eq!(r.get_uri(), "/caf\u{e9}");
    assert_eq!(r.get_header("N"), Some("\u{fc}ber".to_string()));
}

#[test]
fn round_trip_of_encoded_request() {
    let bytes = b"PUT /items?id=7&name=box HTTP/1.1\r\nContent-Type: text/plain\r\nX-Id: 42\r\n\r\npayload";
    let r = parse(bytes).unwrap();
    assert_eq!(r.get_method(), HTTPMethod::PUT);
    assert_eq!(r.get_uri(), "/items");
    assert_eq!(r.get_query("id"), Some("7".to_string()));
    assert_eq!(r.get_query("name"), Some("box".to_string()));
    assert_eq!(r.get_header("Content-Type"), Some("text/plain".to_string()));
    assert_eq!(r.get_header("X-Id"), Some("42".to_string()));
    assert_eq!(r.get_body(), b"payload".to_vec());
}

#[test]
fn whitespace_runs_separate_tokens() {
    let r = parse(b"GET \t /a   HTTP/1.1 \r\n\r\n").unwrap();
    assert_eq!(r.get_uri(), "/a");
}

#[test]
fn unicode_whitespace_separates_tokens() {
    let bytes = "GET /\u{a0}a HTTP/1.1\r\n\r\n".as_bytes();
    assert_eq!(parse(bytes).err(), Some(ParseError::UnsupportedVersion));
    let r = parse("GET\u{3000}/b\u{2003}HTTP/1.1\r\n\r\n".as_bytes()).unwrap();
    assert_eq!(r.get_uri(), "/b");
}

#[test]
fn unicode_whitespace_is_trimmed() {
    let r = parse("GET / HTTP/1.1\r\nK:\u{a0}v\u{2028}\r\n\u{85}N : w\r\n\r\n".as_bytes()).unwrap();
    assert_eq!(r.get_header("K"), Some("v".to_string()));
    assert_eq!(r.get_header("N"), Some("w".to_string()));
}

#[test]
fn method_matches_after_unicode_upper_casing() {
    assert_eq!(parse("po\u{17f}t / HTTP/1.1\r\n\r\n".as_bytes()).unwrap().get_method(), HTTPMethod::POST);
    assert_eq!(parse("po\u{fb06} / HTTP/1.1\r\n\r\n".as_bytes()).unwrap().get_method(), HTTPMethod::POST);
    assert_eq!(parse("opt\u{131}ons / HTTP/1.1\r\n\r\n".as_bytes()).unwrap().get_method(), HTTPMethod::OPTIONS);
    assert_eq!(parse("g\u{e9}t / HTTP/1.1\r\n\r\n".as_bytes()).err(), Some(ParseError::UnknownMethod));
}

#[test]
fn parse_head_reads_decoded_text() {
    let r = http_core::parser::parse_head("DELETE /x?k=v HTTP/1.1\r\nA: b\r\n\r\n", b"rest").unwrap();
    assert_eq!(r.get_method(), HTTPMethod::DELETE);
    assert_eq!(r.get_query("k"), Some("v".to_string()));
    assert_eq!(r.get_header("A"), Some("b".to_string()));
    assert_eq!(r.get_body(), b"rest".to_vec());
}
