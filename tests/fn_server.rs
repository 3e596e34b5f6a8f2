use http_core::dispatch::HandlerRegistry;
use http_core::http_server::{
    connection_step, parse_request, to_http_method, unimplemented_response, validate,
    ConnectionStep, Request, RequestMethod, RequestParser, Response,
};

fn ok(_: Request) -> Response {
    Response::create_200("HTTP/1.1", b"")
}

#[test]
fn split_body_uses_first_delimiter() {
    let (head, body) = RequestParser.split_body(b"GET / HTTP/1.1\r\n\r\nx\r\n\r\ny").unwrap();
    assert_eq!(head, "GET / HTTP/1.1\r\n\r\n");
    assert_eq!(body, b"x\r\n\r\ny".to_vec());
}

#[test]
fn split_body_errors() {
    assert_eq!(
        RequestParser.split_body(b"abc").unwrap_err(),
        "Invalid Request: Request not long enough!"
    );
    assert_eq!(RequestParser.split_body(b"abcdef\r\n").unwrap_err(), "Invalid Request: No Body!");
}

#[test]
fn status_line_is_read() {
    let (m, u, v) = RequestParser.get_status_line("post /form HTTP/1.0\r\nA: b\r\n\r\n").unwrap();
    assert_eq!(m, RequestMethod::Post);
    assert_eq!(u, "/form");
    assert_eq!(v, "HTTP/1.0");
    let (m, u, v) = RequestParser.get_status_line("GET\u{a0}/a HTTP/1.1").unwrap();
    assert_eq!(m, RequestMethod::Get);
    assert_eq!(u, "/a");
    assert_eq!(v, "HTTP/1.1");
}

#[test]
fn status_line_errors() {
    let p = RequestParser;
    assert_eq!(p.get_status_line("").unwrap_err(), "Invalid Request: No Status Line!");
    assert_eq!(p.get_status_line("  \r\n").unwrap_err(), "Invalid Request: No Request Type!");
    assert_eq!(p.get_status_line("BREW / HTTP/1.1").unwrap_err(), "Invalid Request: Invalid Request Type!");
    assert_eq!(p.get_status_line("GET").unwrap_err(), "Invalid Request: No URI!");
    assert_eq!(p.get_status_line("GET /").unwrap_err(), "Invalid Request: No Version!");
}

#[test]
fn parse_and_validate() {
    let r = parse_request(b"PUT /f HTTP/1.1\r\n\r\ndata").unwrap();
    assert_eq!(r.method, RequestMethod::Put);
    assert_eq!(r.uri, "/f");
    assert_eq!(r.version, "HTTP/1.1");
    assert_eq!(r.body, b"data".to_vec());
    assert!(validate(&r).is_ok());
    let old = Request::new(RequestMethod::Get, "/", "HTTP/1.0", b"");
    assert_eq!(validate(&old).unwrap_err(), "Invalid Request: Bad Version!");
    assert_eq!(parse_request(b"GET").unwrap_err(), "Invalid Request: Request not long enough!");
}

#[test]
fn response_bytes() {
    let mut r = Response::create_200("HTTP/1.1", b"hi");
    r.add_header("A: 1");
    r.add_header("B: 2");
    assert_eq!(r.parse(), b"HTTP/1.1 200 Ok\r\nA: 1\r\nB: 2\r\nContent-Length: 2\r\n\r\nhi".to_vec());
    assert_eq!(
        Response::create_404("HTTP/1.1", b"").parse(),
        b"HTTP/1.1 404 Not Found\r\nContent-Length: 0\r\n\r\n".to_vec()
    );
    assert_eq!(
        Response::create_200("HTTP/1.1", b"hello").parse(),
        b"HTTP/1.1 200 Ok\r\nContent-Length: 5\r\n\r\nhello".to_vec()
    );
    let mut given = Response::new("HTTP/1.0", 302, "Found", b"");
    given.add_header("Content-Length: 7");
    assert_eq!(given.parse(), b"HTTP/1.0 302 Found\r\nContent-Length: 7\r\n\r\n".to_vec());
}

#[test]
fn connection_step_decides() {
    let bad = b"HTTP/1.1 400 Bad Request\r\nContent-Length: 0\r\n\r\n".to_vec();
    match connection_step(None) {
        ConnectionStep::Reply(b) => assert_eq!(b, bad),
        ConnectionStep::Handle(_) => panic!("read failure must be answered"),
    }
    match connection_step(Some(b"garbage")) {
        ConnectionStep::Reply(b) => assert_eq!(b, bad),
        ConnectionStep::Handle(_) => panic!("garbage must be answered"),
    }
    match connection_step(Some(b"GET / HTTP/1.0\r\n\r\n")) {
        ConnectionStep::Reply(b) => assert_eq!(b, bad),
        ConnectionStep::Handle(_) => panic!("old version must be answered"),
    }
    match connection_step(Some(b"POST /p HTTP/1.1\r\n\r\nxy")) {
        ConnectionStep::Handle(r) => {
            assert_eq!(r.method, RequestMethod::Post);
            assert_eq!(r.uri, "/p");
            assert_eq!(r.body, b"xy".to_vec());
        }
        ConnectionStep::Reply(_) => panic!("a valid request must be handled"),
    }
    assert_eq!(
        unimplemented_response().parse(),
        b"HTTP/1.1 501 Unimplemented\r\nContent-Length: 0\r\n\r\n".to_vec()
    );
}

#[test]
fn registry_holds_function_pointers() {
    let mut reg: HandlerRegistry<fn(Request) -> Response> = HandlerRegistry::new();
    reg.set_handler(to_http_method(RequestMethod::Put), Some(ok as fn(Request) -> Response));
    assert!(reg.get(to_http_method(RequestMethod::Put)).is_some());
    assert!(reg.get(to_http_method(RequestMethod::Get)).is_none());
}
