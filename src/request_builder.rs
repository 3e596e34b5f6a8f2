//! Assembling a request from parts set one at a time.
use vstd::prelude::*;
use crate::fields::FieldMap;
use crate::request::{HTTPMethod, HTTPRequest, RequestView};
use crate::wire::copy_range;

verus! {

/// What a builder holds, as mathematical values.
pub struct BuilderView {
    pub body: Option<Seq<u8>>,
    pub headers: Map<Seq<char>, Seq<char>>,
    pub queries: Map<Seq<char>, Seq<char>>,
}

/// Collects a body, headers and query parameters for a request.
pub struct HTTPRequestBuilder {
    body: Option<Vec<u8>>,
    headers: FieldMap,
    queries: FieldMap,
}

impl View for HTTPRequestBuilder {
    type V = BuilderView;

    closed spec fn view(&self) -> BuilderView {
        BuilderView {
            body: match self.body {
                Some(b) => Some(b@),
                None => None,
            },
            headers: self.headers@,
            queries: self.queries@,
        }
    }
}

impl HTTPRequestBuilder {
    /// A builder with no body, no headers and no query parameters.
    pub fn new() -> (r: HTTPRequestBuilder)
        ensures
            r@ == (BuilderView { body: None, headers: Map::empty(), queries: Map::empty() }),
    {
        HTTPRequestBuilder { body: None, headers: FieldMap::new(), queries: FieldMap::new() }
    }

    /// Forgets everything set so far.
    pub fn clear(&mut self)
        ensures
            final(self)@ == (BuilderView { body: None, headers: Map::empty(), queries: Map::empty() }),
    {
        self.body = None;
        self.headers.clear();
        self.queries.clear();
    }

    /// Sets a query parameter, replacing any earlier value under the same key.
    pub fn add_query(&mut self, key: &str, value: &str)
        ensures
            final(self)@ == (BuilderView {
                queries: old(self)@.queries.insert(key@, value@),
                ..old(self)@
            }),
    {
        self.queries.insert(key, value);
    }

    /// Sets a header, replacing any earlier value under the same name.
    pub fn add_header(&mut self, key: &str, value: &str)
        ensures
            final(self)@ == (BuilderView {
                headers: old(self)@.headers.insert(key@, value@),
                ..old(self)@
            }),
    {
        self.headers.insert(key, value);
    }

    /// Sets the body, or removes it with `None`.
    pub fn with_body(&mut self, body: Option<&[u8]>)
        ensures
            final(self)@ == (BuilderView {
                body: match body {
                    Some(b) => Some(b@),
                    None => None,
                },
                ..old(self)@
            }),
    {
        self.body = match body {
            Some(b) => {
                let v = copy_range(b, 0, b.len());
                assert(b@.subrange(0, b@.len() as int) =~= b@);
                Some(v)
            },
            None => None,
        };
    }

    /// A request with the given method and path and what was set so far; the
    /// body is empty when none was set.
    pub fn build(&self, method: HTTPMethod, uri: &str) -> (r: HTTPRequest)
        ensures
            r@ == (RequestView {
                method,
                uri: uri@,
                headers: self@.headers,
                queries: self@.queries,
                body: match self@.body {
                    Some(b) => b,
                    None => Seq::empty(),
                },
            }),
    {
        let empty: Vec<u8> = Vec::new();
        let body: &[u8] = match &self.body {
            Some(b) => b.as_slice(),
            None => empty.as_slice(),
        };
        HTTPRequest::from_parts(method, uri, body, self.headers.copy(), self.queries.copy())
    }
}

} // verus!
