//! The responding stage of a pipeline.
use vstd::prelude::*;

verus! {

/// Sends responses to the client.
///
/// `Res` is what the `Handler` makes; `ResErr` is what a failed send gives,
/// and what the `ErrorChecker` is told of.
pub trait Responder<Res, ResErr>: Send {
    /// Whether sending `response` may go from this state to `after` with
    /// `result`; by default it claims nothing.
    open spec fn sends(&self, after: &Self, response: Res, result: Result<(), ResErr>) -> bool {
        true
    }

    fn send_response(&mut self, response: Res) -> (r: Result<(), ResErr>)
        ensures
            old(self).sends(final(self), response, r),
    ;
}

} // verus!
