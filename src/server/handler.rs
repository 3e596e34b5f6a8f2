//! The handling stage of a pipeline.
use vstd::prelude::*;

verus! {

/// Handles client requests and makes responses.
///
/// `Req` is what the `Receiver` gives; `Res` is what the `Responder` sends;
/// `HanErr` is what a failure gives, and what the `ErrorChecker` is told of.
pub trait Handler<Req, Res, HanErr>: Send {
    /// Whether handling `request` may go from this state to `after` with
    /// `result`; by default it claims nothing.
    open spec fn handles(&self, after: &Self, request: Req, result: Result<Res, HanErr>) -> bool {
        true
    }

    fn handle_request(&mut self, request: Req) -> (r: Result<Res, HanErr>)
        ensures
            old(self).handles(final(self), request, r),
    ;
}

} // verus!
