use http_core::dispatch::HandlerRegistry;
use http_core::handler::HTTPRequestHandler;
use http_core::parser::HTTPRequestParser;
use http_core::request::{HTTPMethod, HTTPRequest};
use http_core::response::HTTPResponse;

struct Echo;

impl HTTPRequestHandler for Echo {
    fn run(&self, request: HTTPRequest) -> HTTPResponse {
        HTTPResponse::new("Ok", 200, &request.get_body())
    }
}

struct PathLength;

impl HTTPRequestHandler for PathLength {
    fn run(&self, request: HTTPRequest) -> HTTPResponse {
        let uri = request.get_uri();
        let mut r = HTTPResponse::new("Ok", 200, uri.as_bytes());
        r.add_header("X-Path", &uri);
        r
    }
}

#[test]
fn unbound_method_gives_501() {
    let registry: HandlerRegistry<Echo> = HandlerRegistry::new();
    let request = HTTPRequestParser::new().parse(b"GET /a HTTP/1.1\r\n\r\n").unwrap();
    let r = registry.dispatch(request);
    assert_eq!(r.get_code(), 501);
    assert_eq!(r.get_msg(), "Unimplemented");
    assert_eq!(r.get_body(), Vec::<u8>::new());
}

#[test]
fn bound_method_runs_handler() {
    let mut registry = HandlerRegistry::new();
    registry.set_handler(HTTPMethod::POST, Some(Echo));
    let request = HTTPRequestParser::new().parse(b"POST /a HTTP/1.1\r\n\r\nbody").unwrap();
    let r = registry.dispatch(request);
    assert_eq!(r.get_code(), 200);
    assert_eq!(r.get_body(), b"body".to_vec());
}

#[test]
fn unbinding_restores_501() {
    let mut registry = HandlerRegistry::new();
    registry.set_handler(HTTPMethod::GET, Some(Echo));
    registry.set_handler(HTTPMethod::GET, None);
    assert_eq!(
        registry.respond(b"GET / HTTP/1.1\r\n\r\n"),
        b"HTTP/1.1 501 Unimplemented\r\nContent-Length: 0\r\n\r\n".to_vec()
    );
}

#[test]
fn end_to_end_echo() {
    let mut registry = HandlerRegistry::new();
    registry.set_handler(HTTPMethod::POST, Some(Echo));
    let out = registry.respond(b"POST /submit HTTP/1.1\r\nContent-Type: text/plain\r\n\r\nhello");
    assert!(out.starts_with(b"HTTP/1.1 200 Ok\r\nContent-Length: 5\r\n\r\nhello"));
    assert_eq!(out, b"HTTP/1.1 200 Ok\r\nContent-Length: 5\r\n\r\nhello".to_vec());
}

#[test]
fn bad_bytes_give_400() {
    let registry: HandlerRegistry<Echo> = HandlerRegistry::new();
    assert_eq!(
        registry.respond(b"nonsense"),
        b"HTTP/1.1 400 Bad Request\r\nContent-Length: 0\r\n\r\n".to_vec()
    );
}

#[test]
fn responses_depend_on_own_request_only() {
    let mut registry = HandlerRegistry::new();
    registry.set_handler(HTTPMethod::GET, Some(PathLength));
    let inputs: Vec<&[u8]> = vec![
        b"GET /one HTTP/1.1\r\n\r\n",
        b"GET /second HTTP/1.1\r\n\r\n",
        b"GET /one HTTP/1.1\r\n\r\n",
        b"GET /3 HTTP/1.1\r\n\r\n",
    ];
    let outs: Vec<Vec<u8>> = inputs.iter().map(|b| registry.respond(b)).collect();
    assert_eq!(outs[0], b"HTTP/1.1 200 Ok\r\nX-Path: /one\r\nContent-Length: 4\r\n\r\n/one".to_vec());
    assert_eq!(outs[1], b"HTTP/1.1 200 Ok\r\nX-Path: /second\r\nContent-Length: 7\r\n\r\n/second".to_vec());
    assert_eq!(outs[2], outs[0]);
    assert_eq!(outs[3], b"HTTP/1.1 200 Ok\r\nX-Path: /3\r\nContent-Length: 2\r\n\r\n/3".to_vec());
}
