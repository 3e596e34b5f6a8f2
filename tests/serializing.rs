use http_core::response::HTTPResponse;
use http_core::serializer::HTTPResponseSerializer;

#[test]
fn content_length_is_added() {
    let r = HTTPResponse::new("Ok", 200, b"hello");
    let bytes = HTTPResponseSerializer::new().serialize(r);
    assert_eq!(bytes, b"HTTP/1.1 200 Ok\r\nContent-Length: 5\r\n\r\nhello".to_vec());
}

#[test]
fn empty_body_has_zero_length() {
    let r = HTTPResponse::new("Unimplemented", 501, b"");
    let bytes = HTTPResponseSerializer::new().serialize(r);
    assert_eq!(bytes, b"HTTP/1.1 501 Unimplemented\r\nContent-Length: 0\r\n\r\n".to_vec());
}

#[test]
fn explicit_content_length_is_kept() {
    let mut r = HTTPResponse::new("Ok", 200, b"abc");
    r.add_header("Content-Length", "99");
    let bytes = HTTPResponseSerializer::new().serialize(r);
    assert_eq!(bytes, b"HTTP/1.1 200 Ok\r\nContent-Length: 99\r\n\r\nabc".to_vec());
}

#[test]
fn headers_keep_insertion_order() {
    let mut r = HTTPResponse::new("Not Found", 404, b"no");
    r.add_header("B", "2");
    r.add_header("A", "1");
    r.add_header("B", "3");
    let bytes = HTTPResponseSerializer::new().serialize(r);
    assert_eq!(bytes, b"HTTP/1.1 404 Not Found\r\nB: 3\r\nA: 1\r\nContent-Length: 2\r\n\r\nno".to_vec());
}

#[test]
fn long_body_length_in_decimal() {
    let body = vec![b'x'; 1234];
    let r = HTTPResponse::new("Ok", 200, &body);
    let bytes = HTTPResponseSerializer::new().serialize(r);
    let mut expected = b"HTTP/1.1 200 Ok\r\nContent-Length: 1234\r\n\r\n".to_vec();
    expected.extend_from_slice(&body);
    assert_eq!(bytes, expected);
}

#[test]
fn response_accessors() {
    let mut r = HTTPResponse::new("Created", 201, b"id");
    r.add_header("Location", "/x");
    assert_eq!(r.get_code(), 201);
    assert_eq!(r.get_msg(), "Created");
    assert_eq!(r.get_body(), b"id".to_vec());
    assert!(r.has_header("Location"));
    assert!(!r.has_header("location"));
    assert_eq!(r.get_headers(), vec![("Location".to_string(), "/x".to_string())]);
    r.add_header("Location", "/y");
    r.add_header("Vary", "*");
    assert_eq!(
        r.get_headers(),
        vec![("Location".to_string(), "/y".to_string()), ("Vary".to_string(), "*".to_string())]
    );
}
