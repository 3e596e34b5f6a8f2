//! The receiving stage of a pipeline.
use vstd::prelude::*;

verus! {

/// Receives client requests.
///
/// `Req` is what a successful receive gives, and what the pipeline's
/// `Handler` takes; `ReqErr` is what a failed one gives, and what the
/// `ErrorChecker` is told of.
pub trait Receiver<Req, ReqErr>: Send where Req: Send, ReqErr: Send {
    /// Whether a receive may go from this state to `after` with `result`.
    /// A receiver states its own behaviour by overriding this; by default it
    /// claims nothing.
    open spec fn receives(&self, after: &Self, result: Result<Req, ReqErr>) -> bool {
        true
    }

    /// The next request, or why none could be received.
    fn next_request(&mut self) -> (r: Result<Req, ReqErr>)
        ensures
            old(self).receives(final(self), r),
    ;
}

} // verus!
