//! Requests of the fn-pointer server, and the two steps that parse them.
use vstd::prelude::*;
use crate::lex::{lemma_split_nonempty, split, split_on, split_tokens, tokens};
use crate::parser::{method_from_token, method_of};
use crate::request::HTTPMethod;
use crate::text::{chars_of, decode_lossy, lossy_utf8, string_of};
use crate::wire::{copy_range, find_delim, find_delimiter};

verus! {

/// HTTP request methods.
#[derive(Debug, Clone, Copy, PartialEq, Eq, Hash, Structural)]
pub enum RequestMethod {
    Get,
    Head,
    Post,
    Put,
    Delete,
    Connect,
    Options,
    Trace,
    Patch,
}

/// The `RequestMethod` that stands for an `HTTPMethod`.
pub open spec fn request_method_of(m: HTTPMethod) -> RequestMethod {
    match m {
        HTTPMethod::CONNECT => RequestMethod::Connect,
        HTTPMethod::DELETE => RequestMethod::Delete,
        HTTPMethod::GET => RequestMethod::Get,
        HTTPMethod::HEAD => RequestMethod::Head,
        HTTPMethod::OPTIONS => RequestMethod::Options,
        HTTPMethod::PATCH => RequestMethod::Patch,
        HTTPMethod::POST => RequestMethod::Post,
        HTTPMethod::PUT => RequestMethod::Put,
        HTTPMethod::TRACE => RequestMethod::Trace,
    }
}

fn to_request_method(m: HTTPMethod) -> (r: RequestMethod)
    ensures
        r == request_method_of(m),
{
    match m {
        HTTPMethod::CONNECT => RequestMethod::Connect,
        HTTPMethod::DELETE => RequestMethod::Delete,
        HTTPMethod::GET => RequestMethod::Get,
        HTTPMethod::HEAD => RequestMethod::Head,
        HTTPMethod::OPTIONS => RequestMethod::Options,
        HTTPMethod::PATCH => RequestMethod::Patch,
        HTTPMethod::POST => RequestMethod::Post,
        HTTPMethod::PUT => RequestMethod::Put,
        HTTPMethod::TRACE => RequestMethod::Trace,
    }
}

/// An HTTP request as the fn-pointer server sees it.
#[derive(Debug, Clone)]
pub struct Request {
    pub method: RequestMethod,
    pub uri: String,
    pub version: String,
    pub body: Vec<u8>,
}

impl Request {
    pub fn new(method: RequestMethod, uri: &str, version: &str, body: &[u8]) -> (r: Request)
        ensures
            r.method == method,
            r.uri@ == uri@,
            r.version@ == version@,
            r.body@ == body@,
    {
        let r = Request {
            method,
            uri: uri.to_string(),
            version: version.to_string(),
            body: copy_range(body, 0, body.len()),
        };
        assert(body@.subrange(0, body@.len() as int) =~= body@);
        r
    }
}

/// What `split_body` gives for `s`: the header section up to and including
/// the first `\r\n\r\n` as text, and the bytes after it.
pub open spec fn split_body_spec(s: Seq<u8>) -> Result<(Seq<char>, Seq<u8>), Seq<char>> {
    if s.len() < 4 {
        Err("Invalid Request: Request not long enough!"@)
    } else {
        match find_delim(s) {
            None => Err("Invalid Request: No Body!"@),
            Some(d) => Ok((lossy_utf8(s.subrange(0, d + 4)), s.subrange(d + 4, s.len() as int))),
        }
    }
}

/// What `get_status_line` gives for the header text `s`: the method, URI
/// and version tokens of its first line.
pub open spec fn status_line_spec(s: Seq<char>) -> Result<
    (RequestMethod, Seq<char>, Seq<char>),
    Seq<char>,
> {
    if s.len() == 0 {
        Err("Invalid Request: No Status Line!"@)
    } else {
        let toks = tokens(split(s, '\n')[0]);
        if toks.len() == 0 {
            Err("Invalid Request: No Request Type!"@)
        } else if method_of(toks[0]) is None {
            Err("Invalid Request: Invalid Request Type!"@)
        } else if toks.len() < 2 {
            Err("Invalid Request: No URI!"@)
        } else if toks.len() < 3 {
            Err("Invalid Request: No Version!"@)
        } else {
            Ok(
                (
                    request_method_of(method_of(toks[0])->Some_0),
                    toks[1],
                    toks[2],
                ),
            )
        }
    }
}

/// Parses requests in two steps: framing, then the request line.
pub struct RequestParser;

impl RequestParser {
    /// Splits a message at its first `\r\n\r\n`.
    pub fn split_body(&self, bytes: &[u8]) -> (r: Result<(String, Vec<u8>), String>)
        ensures
            match r {
                Ok((t, b)) => split_body_spec(bytes@) == Ok::<_, Seq<char>>((t@, b@)),
                Err(e) => split_body_spec(bytes@) == Err::<(Seq<char>, Seq<u8>), _>(e@),
            },
    {
        if bytes.len() < 4 {
            return Err("Invalid Request: Request not long enough!".to_string());
        }
        let d = match find_delimiter(bytes) {
            Some(d) => d,
            None => return Err("Invalid Request: No Body!".to_string()),
        };
        let head = copy_range(bytes, 0, d + 4);
        let body = copy_range(bytes, d + 4, bytes.len());
        Ok((decode_lossy(head.as_slice()), body))
    }

    /// Reads the method, URI and version from the first line of the header
    /// text.
    pub fn get_status_line(&self, request_string: &str) -> (r: Result<
        (RequestMethod, String, String),
        String,
    >)
        ensures
            match r {
                Ok((m, u, v)) => status_line_spec(request_string@) == Ok::<
                    _,
                    Seq<char>,
                >((m, u@, v@)),
                Err(e) => status_line_spec(request_string@) == Err::<
                    (RequestMethod, Seq<char>, Seq<char>),
                    _,
                >(e@),
            },
    {
        let text = chars_of(request_string);
        if text.len() == 0 {
            return Err("Invalid Request: No Status Line!".to_string());
        }
        let lines = split_on(text.as_slice(), '\n');
        proof {
            lemma_split_nonempty(text@, '\n');
        }
        assert(lines@[0].deep_view() =~= lines@[0]@);
        let toks = split_tokens(lines[0].as_slice());
        if toks.len() == 0 {
            return Err("Invalid Request: No Request Type!".to_string());
        }
        assert(toks@[0].deep_view() =~= toks@[0]@);
        let method = match method_from_token(toks[0].as_slice()) {
            Some(m) => to_request_method(m),
            None => return Err("Invalid Request: Invalid Request Type!".to_string()),
        };
        if toks.len() < 2 {
            return Err("Invalid Request: No URI!".to_string());
        }
        if toks.len() < 3 {
            return Err("Invalid Request: No Version!".to_string());
        }
        assert(toks@[1].deep_view() =~= toks@[1]@);
        assert(toks@[2].deep_view() =~= toks@[2]@);
        Ok((method, string_of(toks[1].as_slice()), string_of(toks[2].as_slice())))
    }
}

} // verus!
