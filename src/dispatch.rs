//! Routing requests to the handler bound for their method.
use vstd::prelude::*;
use crate::handler::HTTPRequestHandler;
use crate::parser::{parse_spec, HTTPRequestParser};
use crate::request::{HTTPMethod, HTTPRequest};
use crate::response::{HTTPResponse, ResponseView};
use crate::serializer::{wire_form, with_content_length, HTTPResponseSerializer};

verus! {

/// The slot of each method in a registry.
pub open spec fn slot_of(m: HTTPMethod) -> int {
    match m {
        HTTPMethod::CONNECT => 0,
        HTTPMethod::DELETE => 1,
        HTTPMethod::GET => 2,
        HTTPMethod::HEAD => 3,
        HTTPMethod::OPTIONS => 4,
        HTTPMethod::PATCH => 5,
        HTTPMethod::POST => 6,
        HTTPMethod::PUT => 7,
        HTTPMethod::TRACE => 8,
    }
}

fn slot(m: HTTPMethod) -> (r: usize)
    ensures
        r == slot_of(m),
{
    match m {
        HTTPMethod::CONNECT => 0,
        HTTPMethod::DELETE => 1,
        HTTPMethod::GET => 2,
        HTTPMethod::HEAD => 3,
        HTTPMethod::OPTIONS => 4,
        HTTPMethod::PATCH => 5,
        HTTPMethod::POST => 6,
        HTTPMethod::PUT => 7,
        HTTPMethod::TRACE => 8,
    }
}

/// The response given for a method that has no handler bound.
pub open spec fn unimplemented_view() -> ResponseView {
    ResponseView {
        msg: "Unimplemented"@,
        code: 501,
        headers: Map::empty(),
        header_pairs: Seq::empty(),
        body: Seq::empty(),
    }
}

/// The response given for bytes that are not a request.
pub open spec fn bad_request_view() -> ResponseView {
    ResponseView {
        msg: "Bad Request"@,
        code: 400,
        headers: Map::empty(),
        header_pairs: Seq::empty(),
        body: Seq::empty(),
    }
}

/// The 501 response for a method with no handler.
pub fn unimplemented() -> (r: HTTPResponse)
    ensures
        r@ == unimplemented_view(),
{
    let empty: Vec<u8> = Vec::new();
    HTTPResponse::new("Unimplemented", 501, empty.as_slice())
}

/// The 400 response for bytes that are not a request.
pub fn bad_request() -> (r: HTTPResponse)
    ensures
        r@ == bad_request_view(),
{
    let empty: Vec<u8> = Vec::new();
    HTTPResponse::new("Bad Request", 400, empty.as_slice())
}

/// One slot per method, each empty or holding a handler. Every method has
/// its slot from the start.
pub struct HandlerRegistry<H> {
    handlers: Vec<Option<H>>,
}

impl<H> HandlerRegistry<H> {
    /// All nine slots exist.
    #[verifier::type_invariant]
    pub closed spec fn wf(&self) -> bool {
        self.handlers@.len() == 9
    }

    /// The handler bound for `m`, if any.
    pub closed spec fn handler(&self, m: HTTPMethod) -> Option<H> {
        self.handlers@[slot_of(m)]
    }

    /// Whether a handler is bound for `m`.
    pub open spec fn is_bound(&self, m: HTTPMethod) -> bool {
        self.handler(m) is Some
    }

    fn empty_slots() -> (r: Vec<Option<H>>)
        ensures
            r@.len() == 9,
            forall|j: int| 0 <= j < 9 ==> r@[j] is None,
    {
        let mut handlers: Vec<Option<H>> = Vec::new();
        let mut i: usize = 0;
        while i < 9
            invariant
                i <= 9,
                handlers@.len() == i,
                forall|j: int| 0 <= j < i ==> handlers@[j] is None,
            decreases 9 - i,
        {
            handlers.push(None);
            i = i + 1;
        }
        handlers
    }

    /// A registry with no handler bound.
    pub fn new() -> (r: HandlerRegistry<H>)
        ensures
            forall|m: HTTPMethod| !r.is_bound(m),
    {
        HandlerRegistry { handlers: Self::empty_slots() }
    }

    /// Binds `handler` to `method`, or unbinds it with `None`.
    pub fn set_handler(&mut self, method: HTTPMethod, handler: Option<H>)
        ensures
            final(self).handler(method) == handler,
            forall|m: HTTPMethod| m != method ==> final(self).handler(m) == old(self).handler(m),
    {
        proof {
            use_type_invariant(&*self);
        }
        let mut handlers = Self::empty_slots();
        std::mem::swap(&mut handlers, &mut self.handlers);
        handlers.set(slot(method), handler);
        self.handlers = handlers;
    }

    /// The handler bound for `method`, if any.
    pub fn get(&self, method: HTTPMethod) -> (r: Option<&H>)
        ensures
            match r {
                Some(h) => self.handler(method) == Some(*h),
                None => self.handler(method) is None,
            },
    {
        proof {
            use_type_invariant(self);
        }
        match &self.handlers[slot(method)] {
            Some(h) => Some(h),
            None => None,
        }
    }

    /// The response to a request: the bound handler's, or 501 Unimplemented
    /// with an empty body when none is bound.
    pub fn dispatch(&self, request: HTTPRequest) -> (r: HTTPResponse)
        where
            H: HTTPRequestHandler,
        ensures
            !self.is_bound(request@.method) ==> r@ == unimplemented_view(),
            self.is_bound(request@.method) ==> self.handler(request@.method)->Some_0.answers(
                request@,
                r@,
            ),
    {
        proof {
            use_type_invariant(self);
        }
        match &self.handlers[slot(request.get_method())] {
            Some(h) => h.run(request),
            None => unimplemented(),
        }
    }

    /// The bytes to send back for the bytes of one request: 400 Bad Request
    /// when they are not a request, else the dispatched response.
    pub fn respond(&self, bytes: &[u8]) -> (r: Vec<u8>)
        where
            H: HTTPRequestHandler,
        ensures
            parse_spec(bytes@) is Err ==> r@ == wire_form(with_content_length(bad_request_view())),
            parse_spec(bytes@) matches Ok(v) && !self.is_bound(v.method) ==> r@ == wire_form(
                with_content_length(unimplemented_view()),
            ),
            parse_spec(bytes@) is Ok && self.is_bound(parse_spec(bytes@)->Ok_0.method) ==> exists|
                w: ResponseView,
            |
                self.handler(parse_spec(bytes@)->Ok_0.method)->Some_0.answers(
                    parse_spec(bytes@)->Ok_0,
                    w,
                ) && with_content_length(w).headers_agree() && r@ == wire_form(
                    with_content_length(w),
                ),
    {
        let parser = HTTPRequestParser::new();
        let serializer = HTTPResponseSerializer::new();
        match parser.parse(bytes) {
            Ok(request) => serializer.serialize(self.dispatch(request)),
            Err(_) => serializer.serialize(bad_request()),
        }
    }
}

} // verus!
