//! The handler interface and the two server flavours that carry one.

use vstd::prelude::*;
use crate::connection::Request;
use crate::response::Response;

verus! {

/// The handler a server runs for each request: a function from a request
/// to a response, which may fail.
pub trait HttpService {
    fn call(&self, request: Request) -> std::io::Result<Response>;
}

/// A server that answers each connection's requests one at a time.
pub struct HttpServer<T>(pub T);

/// A server that handles a connection's requests concurrently and writes
/// their responses back in arrival order.
pub struct HttpPipelineServer<T>(pub T);

} // verus!
