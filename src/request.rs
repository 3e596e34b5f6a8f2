//! The request value: method, path, headers, query parameters and body.
use vstd::prelude::*;
use crate::fields::FieldMap;
use crate::wire::copy_range;

verus! {

/// The nine request methods of HTTP/1.1.
#[derive(Debug, Clone, Copy, PartialEq, Eq, Hash, Structural)]
pub enum HTTPMethod {
    CONNECT,
    DELETE,
    GET,
    HEAD,
    OPTIONS,
    PATCH,
    POST,
    PUT,
    TRACE,
}

impl HTTPMethod {
    /// The method's canonical (upper-case) name.
    pub open spec fn name(self) -> Seq<char> {
        match self {
            HTTPMethod::CONNECT => seq!['C', 'O', 'N', 'N', 'E', 'C', 'T'],
            HTTPMethod::DELETE => seq!['D', 'E', 'L', 'E', 'T', 'E'],
            HTTPMethod::GET => seq!['G', 'E', 'T'],
            HTTPMethod::HEAD => seq!['H', 'E', 'A', 'D'],
            HTTPMethod::OPTIONS => seq!['O', 'P', 'T', 'I', 'O', 'N', 'S'],
            HTTPMethod::PATCH => seq!['P', 'A', 'T', 'C', 'H'],
            HTTPMethod::POST => seq!['P', 'O', 'S', 'T'],
            HTTPMethod::PUT => seq!['P', 'U', 'T'],
            HTTPMethod::TRACE => seq!['T', 'R', 'A', 'C', 'E'],
        }
    }

    /// The method's canonical name.
    pub fn wire_name(&self) -> (r: Vec<char>)
        ensures
            r@ == self.name(),
    {
        let r = match self {
            HTTPMethod::CONNECT => vec!['C', 'O', 'N', 'N', 'E', 'C', 'T'],
            HTTPMethod::DELETE => vec!['D', 'E', 'L', 'E', 'T', 'E'],
            HTTPMethod::GET => vec!['G', 'E', 'T'],
            HTTPMethod::HEAD => vec!['H', 'E', 'A', 'D'],
            HTTPMethod::OPTIONS => vec!['O', 'P', 'T', 'I', 'O', 'N', 'S'],
            HTTPMethod::PATCH => vec!['P', 'A', 'T', 'C', 'H'],
            HTTPMethod::POST => vec!['P', 'O', 'S', 'T'],
            HTTPMethod::PUT => vec!['P', 'U', 'T'],
            HTTPMethod::TRACE => vec!['T', 'R', 'A', 'C', 'E'],
        };
        assert(r@ =~= self.name());
        r
    }
}

/// What a request holds, as mathematical values.
pub struct RequestView {
    pub method: HTTPMethod,
    pub uri: Seq<char>,
    pub headers: Map<Seq<char>, Seq<char>>,
    pub queries: Map<Seq<char>, Seq<char>>,
    pub body: Seq<u8>,
}

/// An HTTP request. Header names are case-sensitive; setting a header or a
/// query parameter that is already present replaces its value.
pub struct HTTPRequest {
    method: HTTPMethod,
    uri: String,
    headers: FieldMap,
    queries: FieldMap,
    body: Vec<u8>,
}

impl View for HTTPRequest {
    type V = RequestView;

    closed spec fn view(&self) -> RequestView {
        RequestView {
            method: self.method,
            uri: self.uri@,
            headers: self.headers@,
            queries: self.queries@,
            body: self.body@,
        }
    }
}

impl HTTPRequest {
    /// A request with no headers and no query parameters.
    pub fn new(method: HTTPMethod, uri: &str, body: &[u8]) -> (r: HTTPRequest)
        ensures
            r@ == (RequestView {
                method,
                uri: uri@,
                headers: Map::empty(),
                queries: Map::empty(),
                body: body@,
            }),
    {
        let r = HTTPRequest {
            method,
            uri: uri.to_string(),
            headers: FieldMap::new(),
            queries: FieldMap::new(),
            body: copy_range(body, 0, body.len()),
        };
        assert(body@.subrange(0, body@.len() as int) =~= body@);
        r
    }

    /// A request made of parts that are already assembled.
    pub(crate) fn from_parts(
        method: HTTPMethod,
        uri: &str,
        body: &[u8],
        headers: FieldMap,
        queries: FieldMap,
    ) -> (r: HTTPRequest)
        ensures
            r@ == (RequestView {
                method,
                uri: uri@,
                headers: headers@,
                queries: queries@,
                body: body@,
            }),
    {
        let r = HTTPRequest {
            method,
            uri: uri.to_string(),
            headers,
            queries,
            body: copy_range(body, 0, body.len()),
        };
        assert(body@.subrange(0, body@.len() as int) =~= body@);
        r
    }

    /// Sets a header, replacing any earlier value under the same name.
    pub fn add_header(&mut self, key: &str, value: &str)
        ensures
            final(self)@ == (RequestView {
                headers: old(self)@.headers.insert(key@, value@),
                ..old(self)@
            }),
    {
        self.headers.insert(key, value);
    }

    /// Sets a query parameter, replacing any earlier value under the same key.
    pub fn add_query(&mut self, key: &str, value: &str)
        ensures
            final(self)@ == (RequestView {
                queries: old(self)@.queries.insert(key@, value@),
                ..old(self)@
            }),
    {
        self.queries.insert(key, value);
    }

    pub fn get_method(&self) -> (r: HTTPMethod)
        ensures
            r == self@.method,
    {
        self.method
    }

    pub fn get_uri(&self) -> (r: String)
        ensures
            r@ == self@.uri,
    {
        self.uri.clone()
    }

    pub fn get_body(&self) -> (r: Vec<u8>)
        ensures
            r@ == self@.body,
    {
        let r = copy_range(self.body.as_slice(), 0, self.body.len());
        assert(self.body@.subrange(0, self.body@.len() as int) =~= self.body@);
        r
    }

    pub fn get_header(&self, key: &str) -> (r: Option<String>)
        ensures
            match r {
                Some(v) => self@.headers.contains_key(key@) && v@ == self@.headers[key@],
                None => !self@.headers.contains_key(key@),
            },
    {
        self.headers.get(key)
    }

    pub fn get_query(&self, key: &str) -> (r: Option<String>)
        ensures
            match r {
                Some(v) => self@.queries.contains_key(key@) && v@ == self@.queries[key@],
                None => !self@.queries.contains_key(key@),
            },
    {
        self.queries.get(key)
    }
}

} // verus!
