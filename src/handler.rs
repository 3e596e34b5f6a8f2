//! The capability that turns a request into a response.
use vstd::prelude::*;
use crate::request::{HTTPRequest, RequestView};
use crate::response::{HTTPResponse, ResponseView};

verus! {

/// A request handler supplied by the library's user. It may be called from
/// several connections at once.
pub trait HTTPRequestHandler: Send + Sync {
    /// Whether this handler may answer `request` with `response`. A handler
    /// states its own answers by overriding this; by default it claims none.
    open spec fn answers(&self, request: RequestView, response: ResponseView) -> bool {
        true
    }

    fn run(&self, request: HTTPRequest) -> (r: HTTPResponse)
        ensures
            self.answers(request@, r@),
    ;
}

} // verus!
