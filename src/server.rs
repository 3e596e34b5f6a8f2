//! A generic pipeline: receive, handle, respond, with failures reported to
//! an error sink.
use vstd::prelude::*;

pub mod checker;
pub mod handler;
pub mod receiver;
pub mod responder;

pub use checker::ErrorChecker;
pub use handler::Handler;
pub use receiver::Receiver;
pub use responder::Responder;

verus! {

/// Where one iteration of the pipeline stands.
#[derive(Debug, Clone, Copy, PartialEq, Eq, Structural)]
pub enum Stage {
    Receiving,
    Handling,
    Responding,
    Done,
    /// A stage failed; its error went to the sink.
    Failed(StageName),
}

/// The stage that produced an error.
#[derive(Debug, Clone, Copy, PartialEq, Eq, Structural)]
pub enum StageName {
    Receiver,
    Handler,
    Responder,
}

/// The stage after `stage` when its work succeeded (`ok`) or failed.
pub open spec fn next_stage(stage: Stage, ok: bool) -> Stage {
    match stage {
        Stage::Receiving => if ok {
            Stage::Handling
        } else {
            Stage::Failed(StageName::Receiver)
        },
        Stage::Handling => if ok {
            Stage::Responding
        } else {
            Stage::Failed(StageName::Handler)
        },
        Stage::Responding => if ok {
            Stage::Done
        } else {
            Stage::Failed(StageName::Responder)
        },
        _ => stage,
    }
}

/// Steps one iteration on: each stage leads to the next on success and to
/// the failed state of that stage otherwise; the end states stay put.
pub fn advance(stage: Stage, ok: bool) -> (r: Stage)
    ensures
        r == next_stage(stage, ok),
{
    match stage {
        Stage::Receiving => if ok {
            Stage::Handling
        } else {
            Stage::Failed(StageName::Receiver)
        },
        Stage::Handling => if ok {
            Stage::Responding
        } else {
            Stage::Failed(StageName::Handler)
        },
        Stage::Responding => if ok {
            Stage::Done
        } else {
            Stage::Failed(StageName::Responder)
        },
        _ => stage,
    }
}

/// A pipeline built from a receiver, a handler, a responder and an error
/// sink.
pub struct Server<R, H, S, C> {
    receiver: R,
    handler: H,
    responder: S,
    error_checker: C,
}

impl<R, H, S, C> Server<R, H, S, C> {
    /// The four stages, in pipeline order.
    pub closed spec fn stages(&self) -> (R, H, S, C) {
        (self.receiver, self.handler, self.responder, self.error_checker)
    }

    pub fn new(receiver: R, handler: H, responder: S, error_checker: C) -> (r: Server<R, H, S, C>)
        ensures
            r.stages() == (receiver, handler, responder, error_checker),
    {
        Server { receiver, handler, responder, error_checker }
    }

    /// Runs one iteration: receive, then handle, then respond, each only if
    /// the one before succeeded; a failure goes to the error sink under its
    /// stage, and ends the iteration. Returns where the iteration ended.
    pub fn serve_one<Req, ReqErr, Res, HanErr, ResErr>(&mut self) -> (r: Stage)
        where
            Req: Send,
            ReqErr: Send,
            R: Receiver<Req, ReqErr>,
            H: Handler<Req, Res, HanErr>,
            S: Responder<Res, ResErr>,
            C: ErrorChecker<ReqErr, HanErr, ResErr>,
        ensures
            r == Stage::Done || r == Stage::Failed(StageName::Receiver) || r == Stage::Failed(
                StageName::Handler,
            ) || r == Stage::Failed(StageName::Responder),
            r == Stage::Failed(StageName::Receiver) ==> exists|e: ReqErr|
                old(self).stages().0.receives(&final(self).stages().0, Err(e))
                    && old(self).stages().3.takes_receiver_error(&final(self).stages().3, e)
                    && final(self).stages().1 == old(self).stages().1 && final(self).stages().2
                    == old(self).stages().2,
            r == Stage::Failed(StageName::Handler) ==> exists|q: Req, h: H, e: HanErr|
                old(self).stages().0.receives(&final(self).stages().0, Ok(q))
                    && old(self).stages().1.handles(&h, q, Err(e)) && h == final(self).stages().1
                    && old(self).stages().3.takes_handler_error(&final(self).stages().3, e)
                    && final(self).stages().2 == old(self).stages().2,
            r == Stage::Failed(StageName::Responder) ==> exists|q: Req, s: Res, e: ResErr|
                old(self).stages().0.receives(&final(self).stages().0, Ok(q))
                    && old(self).stages().1.handles(&final(self).stages().1, q, Ok(s))
                    && old(self).stages().2.sends(&final(self).stages().2, s, Err(e))
                    && old(self).stages().3.takes_responder_error(&final(self).stages().3, e),
            r == Stage::Done ==> exists|q: Req, s: Res|
                old(self).stages().0.receives(&final(self).stages().0, Ok(q))
                    && old(self).stages().1.handles(&final(self).stages().1, q, Ok(s))
                    && old(self).stages().2.sends(&final(self).stages().2, s, Ok(()))
                    && final(self).stages().3 == old(self).stages().3,
    {
        let received = self.receiver.next_request();
        let request = match received {
            Ok(q) => q,
            Err(e) => {
                let ghost err = e;
                self.error_checker.handle_receiver_error(e);
                assert(old(self).stages().0.receives(&self.stages().0, Err(err)));
                assert(old(self).stages().3.takes_receiver_error(&self.stages().3, err));
                assert(self.stages().1 == old(self).stages().1);
                assert(self.stages().2 == old(self).stages().2);
                return advance(Stage::Receiving, false);
            },
        };
        let ghost q = request;
        let handled = self.handler.handle_request(request);
        let response = match handled {
            Ok(s) => s,
            Err(e) => {
                let ghost err = e;
                self.error_checker.handle_handler_error(e);
                assert(old(self).stages().0.receives(&self.stages().0, Ok(q)));
                assert(old(self).stages().1.handles(&self.stages().1, q, Err(err)));
                return advance(Stage::Handling, false);
            },
        };
        let ghost s = response;
        let sent = self.responder.send_response(response);
        assert(old(self).stages().0.receives(&self.stages().0, Ok(q)));
        assert(old(self).stages().1.handles(&self.stages().1, q, Ok(s)));
        match sent {
            Ok(u) => {
                assert(sent == Ok::<(), ResErr>(u));
                assert(u == ());
                assert(old(self).stages().2.sends(&self.stages().2, s, Ok(())));
                let r = advance(Stage::Responding, true);
                assert(r == Stage::Done);
                r
            },
            Err(e) => {
                let ghost err = e;
                self.error_checker.handle_responder_error(e);
                assert(old(self).stages().2.sends(&self.stages().2, s, Err(err)));
                assert(old(self).stages().3.takes_responder_error(&self.stages().3, err));
                assert(old(self).stages().1.handles(&self.stages().1, q, Ok(s)));
                assert(old(self).stages().0.receives(&self.stages().0, Ok(q)));
                advance(Stage::Responding, false)
            },
        }
    }
}

} // verus!
