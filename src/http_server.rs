//! The request logic of a server whose handlers are plain functions: framing,
//! request-line parsing and version validation.
use vstd::prelude::*;

pub mod request;
pub mod response;

pub use request::{Request, RequestMethod, RequestParser};
pub use response::Response;

use request::{split_body_spec, status_line_spec};
use response::{response_bytes, ResponseParts};
use crate::request::HTTPMethod;


verus! {

/// What `parse_request` gives for `s`: the header text split from the body,
/// then its request line read.
pub open spec fn parse_request_spec(s: Seq<u8>) -> Result<(RequestMethod, Seq<char>, Seq<char>, Seq<u8>), Seq<char>> {
    match split_body_spec(s) {
        Err(e) => Err(e),
        Ok((text, body)) => match status_line_spec(text) {
            Err(e) => Err(e),
            Ok((m, u, v)) => Ok((m, u, v, body)),
        },
    }
}

/// Frames and parses one request; the version is kept as it came.
pub fn parse_request(request: &[u8]) -> (r: Result<Request, String>)
    ensures
        match r {
            Ok(q) => parse_request_spec(request@) == Ok::<_, Seq<char>>(
                (q.method, q.uri@, q.version@, q.body@),
            ),
            Err(e) => parse_request_spec(request@) == Err::<
                (RequestMethod, Seq<char>, Seq<char>, Seq<u8>),
                _,
            >(e@),
        },
{
    let parser = RequestParser;
    let (request_string, body) = match parser.split_body(request) {
        Ok(parts) => parts,
        Err(e) => return Err(e),
    };
    let (method, uri, version) = match parser.get_status_line(request_string.as_str()) {
        Ok(line) => line,
        Err(e) => return Err(e),
    };
    Ok(Request::new(method, uri.as_str(), version.as_str(), body.as_slice()))
}

/// Accepts only requests whose version is `HTTP/1.1`.
pub fn validate(request: &Request) -> (r: Result<(), String>)
    ensures
        match r {
            Ok(()) => request.version@ == "HTTP/1.1"@,
            Err(e) => request.version@ != "HTTP/1.1"@ && e@ == "Invalid Request: Bad Version!"@,
        },
{
    let expected = "HTTP/1.1".to_string();
    if request.version == expected {
        Ok(())
    } else {
        Err("Invalid Request: Bad Version!".to_string())
    }
}

/// The response for a method with no handler: `HTTP/1.1 501 Unimplemented`,
/// no headers, empty body.
pub open spec fn unimplemented_parts() -> ResponseParts {
    ResponseParts {
        version: "HTTP/1.1"@,
        status_code: 501,
        status_message: "Unimplemented"@,
        headers: Seq::empty(),
        body: Seq::empty(),
    }
}

/// The response for a connection that gave no valid request:
/// `HTTP/1.1 400 Bad Request`, no headers, empty body.
pub open spec fn bad_request_parts() -> ResponseParts {
    ResponseParts {
        version: "HTTP/1.1"@,
        status_code: 400,
        status_message: "Bad Request"@,
        headers: Seq::empty(),
        body: Seq::empty(),
    }
}

/// The 501 response for a method with no handler.
pub fn unimplemented_response() -> (r: Response)
    ensures
        r@ == unimplemented_parts(),
{
    let empty: Vec<u8> = Vec::new();
    Response::new("HTTP/1.1", 501, "Unimplemented", empty.as_slice())
}

/// The 400 response for a connection that gave no valid request.
pub fn bad_request_response() -> (r: Response)
    ensures
        r@ == bad_request_parts(),
{
    let empty: Vec<u8> = Vec::new();
    Response::new("HTTP/1.1", 400, "Bad Request", empty.as_slice())
}

/// What to do with a connection once its bytes have been read (`None` when
/// reading failed).
pub enum ConnectionStep {
    /// Write these bytes back and close.
    Reply(Vec<u8>),
    /// Hand this request to the handler bound for its method.
    Handle(Request),
}

/// Decides a connection: a 400 reply when reading failed, when the bytes
/// are not a request, or when its version is not `HTTP/1.1`; else the
/// request the bytes describe.
pub fn connection_step(bytes: Option<&[u8]>) -> (r: ConnectionStep)
    ensures
        match bytes {
            None => r matches ConnectionStep::Reply(b) && b@ == response_bytes(bad_request_parts()),
            Some(b) => match parse_request_spec(b@) {
                Err(_) => r matches ConnectionStep::Reply(x) && x@ == response_bytes(
                    bad_request_parts(),
                ),
                Ok((m, u, v, body)) => if v != "HTTP/1.1"@ {
                    r matches ConnectionStep::Reply(x) && x@ == response_bytes(bad_request_parts())
                } else {
                    r matches ConnectionStep::Handle(q) && q.method == m && q.uri@ == u
                        && q.version@ == v && q.body@ == body
                },
            },
        },
{
    let b = match bytes {
        Some(b) => b,
        None => return ConnectionStep::Reply(bad_request_response().parse()),
    };
    let request = match parse_request(b) {
        Ok(q) => q,
        Err(_) => return ConnectionStep::Reply(bad_request_response().parse()),
    };
    match validate(&request) {
        Ok(()) => ConnectionStep::Handle(request),
        Err(_) => ConnectionStep::Reply(bad_request_response().parse()),
    }
}

/// The `HTTPMethod` that a `RequestMethod` stands for.
pub open spec fn http_method_of(m: RequestMethod) -> HTTPMethod {
    match m {
        RequestMethod::Get => HTTPMethod::GET,
        RequestMethod::Head => HTTPMethod::HEAD,
        RequestMethod::Post => HTTPMethod::POST,
        RequestMethod::Put => HTTPMethod::PUT,
        RequestMethod::Delete => HTTPMethod::DELETE,
        RequestMethod::Connect => HTTPMethod::CONNECT,
        RequestMethod::Options => HTTPMethod::OPTIONS,
        RequestMethod::Trace => HTTPMethod::TRACE,
        RequestMethod::Patch => HTTPMethod::PATCH,
    }
}

/// The `HTTPMethod` that a `RequestMethod` stands for, to look up handlers.
pub fn to_http_method(m: RequestMethod) -> (r: HTTPMethod)
    ensures
        r == http_method_of(m),
{
    match m {
        RequestMethod::Get => HTTPMethod::GET,
        RequestMethod::Head => HTTPMethod::HEAD,
        RequestMethod::Post => HTTPMethod::POST,
        RequestMethod::Put => HTTPMethod::PUT,
        RequestMethod::Delete => HTTPMethod::DELETE,
        RequestMethod::Connect => HTTPMethod::CONNECT,
        RequestMethod::Options => HTTPMethod::OPTIONS,
        RequestMethod::Trace => HTTPMethod::TRACE,
        RequestMethod::Patch => HTTPMethod::PATCH,
    }
}

} // verus!
