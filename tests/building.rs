use http_core::fields::FieldMap;
use http_core::receiver::{Receiver, BUFFER_SIZE};
use http_core::request::{HTTPMethod, HTTPRequest};
use http_core::request_builder::HTTPRequestBuilder;

#[test]
fn builder_collects_parts() {
    let mut b = HTTPRequestBuilder::new();
    b.add_header("H", "1");
    b.add_query("q", "x");
    b.add_header("H", "2");
    b.with_body(Some(b"data"));
    let r = b.build(HTTPMethod::PATCH, "/p");
    assert_eq!(r.get_method(), HTTPMethod::PATCH);
    assert_eq!(r.get_uri(), "/p");
    assert_eq!(r.get_header("H"), Some("2".to_string()));
    assert_eq!(r.get_query("q"), Some("x".to_string()));
    assert_eq!(r.get_body(), b"data".to_vec());
}

#[test]
fn builder_without_body_gives_empty_body() {
    let mut b = HTTPRequestBuilder::new();
    b.with_body(Some(b"x"));
    b.with_body(None);
    assert_eq!(b.build(HTTPMethod::GET, "/").get_body(), Vec::<u8>::new());
}

#[test]
fn builder_clear_forgets() {
    let mut b = HTTPRequestBuilder::new();
    b.add_header("H", "1");
    b.add_query("q", "x");
    b.with_body(Some(b"x"));
    b.clear();
    let r = b.build(HTTPMethod::HEAD, "/");
    assert_eq!(r.get_header("H"), None);
    assert_eq!(r.get_query("q"), None);
    assert_eq!(r.get_body(), Vec::<u8>::new());
}

#[test]
fn request_setters_replace() {
    let mut r = HTTPRequest::new(HTTPMethod::TRACE, "/t", b"b");
    r.add_header("K", "1");
    r.add_header("K", "2");
    r.add_query("a", "x");
    assert_eq!(r.get_header("K"), Some("2".to_string()));
    assert_eq!(r.get_query("a"), Some("x".to_string()));
    assert_eq!(r.get_body(), b"b".to_vec());
}

#[test]
fn field_map_keeps_order_and_replaces() {
    let mut m = FieldMap::new();
    m.insert("b", "1");
    m.insert("a", "2");
    m.insert("b", "3");
    assert_eq!(m.len(), 2);
    assert_eq!(m.entry(0), ("b".to_string(), "3".to_string()));
    assert_eq!(m.entry(1), ("a".to_string(), "2".to_string()));
    assert!(m.contains_key("a"));
    assert_eq!(m.get("c"), None);
    let c = m.copy();
    m.clear();
    assert_eq!(m.len(), 0);
    assert_eq!(c.to_vec(), vec![("b".to_string(), "3".to_string()), ("a".to_string(), "2".to_string())]);
}

#[test]
fn receiver_stops_on_short_read() {
    let rx = Receiver::new();
    assert_eq!(rx.buffer_size(), BUFFER_SIZE);
    let mut acc = Vec::new();
    let full = vec![7u8; BUFFER_SIZE];
    assert!(rx.absorb(&mut acc, &full));
    assert!(!rx.absorb(&mut acc, b"tail"));
    assert_eq!(acc.len(), BUFFER_SIZE + 4);
    assert_eq!(&acc[BUFFER_SIZE..], b"tail");
    let mut empty = Vec::new();
    assert!(!rx.absorb(&mut empty, b""));
    assert!(empty.is_empty());
}

#[test]
fn method_wire_names() {
    assert_eq!(HTTPMethod::OPTIONS.wire_name(), "OPTIONS".chars().collect::<Vec<char>>());
    assert_eq!(HTTPMethod::GET.wire_name(), vec!['G', 'E', 'T']);
}
