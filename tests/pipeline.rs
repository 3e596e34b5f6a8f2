use http_core::server::{
    advance, ErrorChecker, Handler, Receiver, Responder, Server, Stage, StageName,
};

struct Source(Vec<Result<u32, String>>);

impl Receiver<u32, String> for Source {
    fn next_request(&mut self) -> Result<u32, String> {
        self.0.remove(0)
    }
}

struct Doubler;

impl Handler<u32, u32, String> for Doubler {
    fn handle_request(&mut self, request: u32) -> Result<u32, String> {
        if request == 0 {
            Err("zero".to_string())
        } else {
            Ok(request * 2)
        }
    }
}

struct Sink(Vec<u32>);

impl Responder<u32, String> for Sink {
    fn send_response(&mut self, response: u32) -> Result<(), String> {
        if response > 100 {
            Err("too big".to_string())
        } else {
            self.0.push(response);
            Ok(())
        }
    }
}

#[derive(Default)]
struct Log(Vec<String>);

impl ErrorChecker<String, String, String> for Log {
    fn handle_receiver_error(&mut self, err: String) {
        self.0.push(format!("receiver: {}", err));
    }
    fn handle_handler_error(&mut self, err: String) {
        self.0.push(format!("handler: {}", err));
    }
    fn handle_responder_error(&mut self, err: String) {
        self.0.push(format!("responder: {}", err));
    }
}

#[test]
fn each_stage_failure_is_reported_and_iterations_continue() {
    let source = Source(vec![
        Ok(3),
        Err("closed".to_string()),
        Ok(0),
        Ok(60),
        Ok(5),
    ]);
    let mut sink = Sink(vec![]);
    let mut log = Log::default();
    {
        let mut server = Server::new(source, Doubler, &mut sink, &mut log);
        assert_eq!(server.serve_one(), Stage::Done);
        assert_eq!(server.serve_one(), Stage::Failed(StageName::Receiver));
        assert_eq!(server.serve_one(), Stage::Failed(StageName::Handler));
        assert_eq!(server.serve_one(), Stage::Failed(StageName::Responder));
        assert_eq!(server.serve_one(), Stage::Done);
    }
    assert_eq!(sink.0, vec![6, 10]);
    assert_eq!(
        log.0,
        vec!["receiver: closed".to_string(), "handler: zero".to_string(), "responder: too big".to_string()]
    );
}

impl<'a> Responder<u32, String> for &'a mut Sink {
    fn send_response(&mut self, response: u32) -> Result<(), String> {
        (**self).send_response(response)
    }
}

impl<'a> ErrorChecker<String, String, String> for &'a mut Log {
    fn handle_receiver_error(&mut self, err: String) {
        (**self).handle_receiver_error(err)
    }
    fn handle_handler_error(&mut self, err: String) {
        (**self).handle_handler_error(err)
    }
    fn handle_responder_error(&mut self, err: String) {
        (**self).handle_responder_error(err)
    }
}

#[test]
fn stages_advance_in_order() {
    assert_eq!(advance(Stage::Receiving, true), Stage::Handling);
    assert_eq!(advance(Stage::Handling, true), Stage::Responding);
    assert_eq!(advance(Stage::Responding, true), Stage::Done);
    assert_eq!(advance(Stage::Receiving, false), Stage::Failed(StageName::Receiver));
    assert_eq!(advance(Stage::Handling, false), Stage::Failed(StageName::Handler));
    assert_eq!(advance(Stage::Responding, false), Stage::Failed(StageName::Responder));
    assert_eq!(advance(Stage::Done, false), Stage::Done);
    assert_eq!(
        advance(Stage::Failed(StageName::Handler), true),
        Stage::Failed(StageName::Handler)
    );
}
