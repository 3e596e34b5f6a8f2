//! The error sink of a pipeline.
use vstd::prelude::*;

verus! {

/// Is told of each stage's failure: one entry point per stage, each taking
/// that stage's error.
pub trait ErrorChecker<ReqErr, HanErr, ResErr>: Send {
    /// Whether being told of the receiver error `err` may take this sink to
    /// `after`; by default it claims nothing.
    open spec fn takes_receiver_error(&self, after: &Self, err: ReqErr) -> bool {
        true
    }

    /// The same for a handler error.
    open spec fn takes_handler_error(&self, after: &Self, err: HanErr) -> bool {
        true
    }

    /// The same for a responder error.
    open spec fn takes_responder_error(&self, after: &Self, err: ResErr) -> bool {
        true
    }

    fn handle_receiver_error(&mut self, err: ReqErr)
        ensures
            old(self).takes_receiver_error(final(self), err),
    ;

    fn handle_handler_error(&mut self, err: HanErr)
        ensures
            old(self).takes_handler_error(final(self), err),
    ;

    fn handle_responder_error(&mut self, err: ResErr)
        ensures
            old(self).takes_responder_error(final(self), err),
    ;
}

} // verus!
