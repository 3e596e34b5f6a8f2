//! A small HTTP/1.1 core: request framing and parsing, response
//! serialization, method dispatch and a generic connection pipeline.
use vstd::prelude::*;

pub mod dispatch;
pub mod encoding;

pub mod fields;
pub mod handler;
pub mod http_server;
pub mod lex;
pub mod parser;
pub mod request;
pub mod request_builder;
pub mod receiver;
pub mod response;
pub mod serializer;
pub mod server;
pub mod text;
pub mod wire;

verus! {

/// Why a server could not be set up.
#[derive(Debug, Clone, Copy, PartialEq, Eq, Structural)]
pub enum HTTPServerError {
    /// The listening address could not be bound.
    AddressBindFailure,
}

} // verus!
